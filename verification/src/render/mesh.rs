//! A mesh: the primitives of one mesh definition, built once and shared by
//! every node that names the definition.

use vstd::prelude::*;
use crate::render::document;
use crate::render::document::ParseError;
use crate::render::primitive::{primitive_error, primitive_mirrors, DrawCommand, Primitive};

verus! {

/// The geometry of one mesh definition of the document.
#[derive(Debug, PartialEq, Eq)]
pub struct Mesh {
    /// The position of the definition in the document's mesh table.
    pub index: usize,
    pub primitives: Vec<Primitive>,
}

/// What keeps a list of document primitives from becoming geometry, if
/// anything: the error of the first primitive that has one.
pub open spec fn first_primitive_error(gs: Seq<document::Primitive>) -> Option<ParseError>
    decreases gs.len(),
{
    if gs.len() == 0 {
        None
    } else if primitive_error(gs[0]) is Some {
        primitive_error(gs[0])
    } else {
        first_primitive_error(gs.skip(1))
    }
}

/// The mesh holds exactly the geometry of the document mesh, primitive by
/// primitive, under the given index.
pub open spec fn mesh_mirrors(m: Mesh, g: document::Mesh, index: usize) -> bool {
    &&& m.index == index
    &&& m.primitives@.len() == g.primitives@.len()
    &&& forall|i: int|
        0 <= i < g.primitives@.len() ==> primitive_mirrors(
            #[trigger] m.primitives@[i],
            g.primitives@[i],
        )
}

/// The commands that draw the first `n` of a list of primitives, in order.
pub open spec fn primitives_commands(ps: Seq<Primitive>, n: nat) -> Seq<DrawCommand>
    decreases n,
{
    if n == 0 {
        Seq::empty()
    } else {
        primitives_commands(ps, (n - 1) as nat) + ps[n - 1].commands()
    }
}

/// A list of primitives has an error exactly if one of them has.
pub proof fn lemma_first_primitive_error(gs: Seq<document::Primitive>)
    ensures
        first_primitive_error(gs) is None <==> forall|i: int|
            0 <= i < gs.len() ==> primitive_error(#[trigger] gs[i]) is None,
    decreases gs.len(),
{
    if gs.len() > 0 {
        lemma_first_primitive_error(gs.skip(1));
        if primitive_error(gs[0]) is None {
            if first_primitive_error(gs.skip(1)) is None {
                assert forall|i: int| 0 <= i < gs.len() implies primitive_error(
                    #[trigger] gs[i],
                ) is None by {
                    if i > 0 {
                        assert(gs[i] == gs.skip(1)[i - 1]);
                    }
                }
            }
        }
    }
}

impl Mesh {
    /// Every primitive of the mesh can be drawn.
    pub open spec fn drawable(&self) -> bool {
        forall|i: int| 0 <= i < self.primitives@.len() ==> (#[trigger] self.primitives@[i]).drawable()
    }

    /// The commands that draw the mesh: those of its primitives, in order.
    pub open spec fn commands(&self) -> Seq<DrawCommand> {
        primitives_commands(self.primitives@, self.primitives@.len())
    }

    /// The mesh of a document mesh that sits at `index` of the mesh table.
    /// The first primitive that cannot be built stops the construction with
    /// its error.
    pub fn from_gltf(g_mesh: &document::Mesh, index: usize) -> (r: Result<Mesh, ParseError>)
        ensures
            match first_primitive_error(g_mesh.primitives@) {
                Some(e) => r == Err::<Mesh, ParseError>(e),
                None => r is Ok && mesh_mirrors(r->Ok_0, *g_mesh, index),
            },
    {
        let mut primitives: Vec<Primitive> = Vec::new();
        let mut i: usize = 0;
        assert(g_mesh.primitives@.skip(0) =~= g_mesh.primitives@);
        while i < g_mesh.primitives.len()
            invariant
                i <= g_mesh.primitives.len(),
                primitives@.len() == i,
                first_primitive_error(g_mesh.primitives@) == first_primitive_error(
                    g_mesh.primitives@.skip(i as int),
                ),
                forall|j: int|
                    0 <= j < i ==> primitive_mirrors(
                        #[trigger] primitives@[j],
                        g_mesh.primitives@[j],
                    ),
            decreases g_mesh.primitives.len() - i,
        {
            assert(g_mesh.primitives@.skip(i as int).skip(1) =~= g_mesh.primitives@.skip(i + 1));
            match Primitive::from_gltf(&g_mesh.primitives[i]) {
                Ok(primitive) => {
                    primitives.push(primitive);
                },
                Err(e) => {
                    return Err(e);
                },
            }
            i += 1;
        }
        Ok(Mesh { index, primitives })
    }

    /// The commands that draw the mesh, or `None` where one of its
    /// primitives cannot be drawn.
    pub fn draw(&self) -> (r: Option<Vec<DrawCommand>>)
        ensures
            match r {
                Some(commands) => self.drawable() && commands@ == self.commands(),
                None => !self.drawable(),
            },
    {
        let mut commands: Vec<DrawCommand> = Vec::new();
        let mut i: usize = 0;
        while i < self.primitives.len()
            invariant
                i <= self.primitives.len(),
                forall|j: int| 0 <= j < i ==> (#[trigger] self.primitives@[j]).drawable(),
                commands@ == primitives_commands(self.primitives@, i as nat),
            decreases self.primitives.len() - i,
        {
            match self.primitives[i].draw() {
                Some(own) => {
                    let mut k: usize = 0;
                    let ghost before = commands@;
                    while k < own.len()
                        invariant
                            k <= own.len(),
                            commands@ == before + own@.take(k as int),
                        decreases own.len() - k,
                    {
                        commands.push(own[k]);
                        k += 1;
                    }
                },
                None => {
                    return None;
                },
            }
            i += 1;
        }
        Some(commands)
    }
}

} // verus!
