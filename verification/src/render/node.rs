//! A node of the scene graph: a local transform, an optional mesh and the
//! nodes below it.

use vstd::prelude::*;
use crate::render::document;
use crate::render::document::{Document, ParseError};
use crate::render::math::{Matrix4, Quaternion, Vector3};
use crate::render::scene::{
    first_failure, forest_keys_after, is_first_position, is_prefix, keys_after, lemma_failure_split,
    lemma_first_position_stable, lemma_forest_keys_extend, lemma_forest_keys_prefix,
    lemma_forest_keys_step, lemma_keys_after, lemma_keys_extend, lemma_mirrors_stable,
    lemma_prefix_distinct, lemma_prefix_transitive, lemma_registry_grows_transitive, node_mirrors,
    registered, registry_grows, Scene,
};

verus! {

/// The name of the shader uniform that receives a node's model matrix.
pub fn model_uniform() -> (name: &'static str)
    ensures
        name@ == "model"@,
{
    "model"
}

/// One factor of a transform, for the caller to turn into a matrix.
#[derive(Clone, Copy, Debug, PartialEq, Eq, Structural)]
pub enum Factor {
    /// The matrix itself.
    Matrix(Matrix4),
    /// The translation by the vector.
    Translation(Vector3),
    /// The scaling by the vector's components along the three axes.
    Scale(Vector3),
    /// The rotation by the quaternion.
    Rotation(Quaternion),
}

/// One mesh to draw: set the model uniform to the product of the factors,
/// multiplied from left to right, then draw the mesh.
#[derive(Debug, PartialEq, Eq)]
pub struct DrawCall {
    /// The position of the mesh in the scene's registry.
    pub mesh: usize,
    /// The factors of the model matrix, outermost first.
    pub model: Vec<Factor>,
}

/// A draw call as a value: the mesh and the factors of its model matrix.
pub struct ModelDraw {
    pub mesh: usize,
    pub model: Seq<Factor>,
}

impl View for DrawCall {
    type V = ModelDraw;

    open spec fn view(&self) -> ModelDraw {
        ModelDraw { mesh: self.mesh, model: self.model@ }
    }
}

/// A node of the scene graph.
#[derive(Debug, PartialEq, Eq)]
pub struct Node {
    pub children: Vec<Node>,
    /// The explicit transform; it counts unless it is the identity.
    pub matrix: Matrix4,
    /// The position of the node's mesh in the scene's registry.
    pub mesh: Option<usize>,
    pub rotation: Quaternion,
    pub scale: Vector3,
    pub translation: Vector3,
    pub name: Option<String>,
}

/// The draw calls of a list, as values.
pub open spec fn draws(calls: Seq<DrawCall>) -> Seq<ModelDraw> {
    Seq::new(calls.len(), |i: int| calls[i]@)
}

/// The draw calls of a list of sibling nodes under one parent transform:
/// those of each node with everything below it, in the order of the list.
pub open spec fn forest_draw_list(nodes: Seq<Node>, parent: Seq<Factor>) -> Seq<ModelDraw>
    decreases nodes,
{
    if nodes.len() == 0 {
        Seq::empty()
    } else {
        forest_draw_list(nodes.drop_last(), parent) + nodes.last().draw_list(parent)
    }
}

/// Drawing one more sibling appends its draw calls.
pub proof fn lemma_forest_draw_step(nodes: Seq<Node>, parent: Seq<Factor>, i: int)
    requires
        0 <= i < nodes.len(),
    ensures
        forest_draw_list(nodes.take(i + 1), parent) == forest_draw_list(nodes.take(i), parent)
            + nodes[i].draw_list(parent),
{
    assert(nodes.take(i + 1).drop_last() =~= nodes.take(i));
}

/// A copy of a list of factors.
fn copy_factors(factors: &Vec<Factor>) -> (copy: Vec<Factor>)
    ensures
        copy@ == factors@,
{
    let mut copy: Vec<Factor> = Vec::new();
    let mut i: usize = 0;
    while i < factors.len()
        invariant
            i <= factors.len(),
            copy@ == factors@.take(i as int),
        decreases factors.len() - i,
    {
        copy.push(factors[i]);
        i += 1;
    }
    copy
}

impl Node {
    /// The factors of the node's own transform: its matrix alone where that
    /// is not the identity, otherwise translation, then scale, then rotation.
    pub open spec fn local_factors(&self) -> Seq<Factor> {
        if !self.matrix.spec_is_identity() {
            seq![Factor::Matrix(self.matrix)]
        } else {
            seq![
                Factor::Translation(self.translation),
                Factor::Scale(self.scale),
                Factor::Rotation(self.rotation),
            ]
        }
    }

    /// The draw calls of the node and everything below it under the parent
    /// transform `parent`: the node's own call first, if it has a mesh, then
    /// those of its children in order. Each model matrix is the parent's
    /// followed by the node's own factors.
    pub open spec fn draw_list(self, parent: Seq<Factor>) -> Seq<ModelDraw>
        decreases self,
    {
        let model = parent + self.local_factors();
        let own = match self.mesh {
            Some(mesh) => seq![ModelDraw { mesh, model }],
            None => Seq::empty(),
        };
        own + forest_draw_list(self.children@, model)
    }

    /// The node that the document node describes, with everything below it.
    ///
    /// The transform fields are carried over, the rotation reordered to
    /// scalar first. A mesh is looked up in the scene's registry by its
    /// index and built from the document only where the registry has none
    /// under that index, so nodes that name one mesh share one registry
    /// entry. The children follow in order, over the same registry. The
    /// first mesh that cannot be built stops the construction with its
    /// error; the registry keeps what was built until then.
    pub fn from_gltf(g_node: &document::Node, document: &Document, scene: &mut Scene) -> (r: Result<
        Node,
        ParseError,
    >)
        ensures
            final(scene).nodes == old(scene).nodes,
            registry_grows(old(scene).meshes@, final(scene).meshes@, *document),
            is_prefix(final(scene).keys(), keys_after(*g_node, old(scene).keys())),
            old(scene).wf() ==> final(scene).wf(),
            match first_failure(
                *document,
                keys_after(*g_node, old(scene).keys()).skip(old(scene).keys().len() as int),
            ) {
                Some(e) => r == Err::<Node, ParseError>(e),
                None => {
                    &&& r is Ok
                    &&& final(scene).keys() == keys_after(*g_node, old(scene).keys())
                    &&& node_mirrors(r->Ok_0, *g_node, final(scene).keys())
                },
            },
        decreases g_node,
    {
        let ghost k0 = scene.keys();
        let ghost base = k0.len() as int;
        let ghost k1 = registered(k0, g_node.mesh);
        let ghost after = keys_after(*g_node, k0);
        proof {
            assert(k1.take(base) =~= k0);
            if k0.no_duplicates() {
                lemma_keys_after(*g_node, k0, 0);
            }
            lemma_forest_keys_extend(g_node.children@, k1);
            lemma_failure_split(*document, k1, after, base);
        }
        let matrix = Matrix4::from_array(g_node.matrix);
        let rotation = Quaternion::from_xyzw(g_node.rotation);
        let mut mesh: Option<usize> = None;
        match g_node.mesh {
            Some(index) => {
                match scene.resolve_mesh(index, document) {
                    Ok(h) => {
                        mesh = Some(h);
                    },
                    Err(e) => {
                        proof {
                            lemma_keys_extend(*g_node, k0);
                        }
                        return Err(e);
                    },
                }
            },
            None => {
                proof {
                    assert(scene.meshes@.take(scene.meshes@.len() as int) =~= scene.meshes@);
                }
            },
        }
        let mut children: Vec<Node> = Vec::new();
        let mut i: usize = 0;
        proof {
            assert(k1.take(k1.len() as int) =~= k1);
            let fresh = k1.skip(base);
            if k1 != k0 {
                assert(first_failure(*document, fresh.skip(1)) is None);
            }
        }
        while i < g_node.children.len()
            invariant
                i <= g_node.children.len(),
                k0 == old(scene).keys(),
                base == k0.len(),
                k1 == registered(k0, g_node.mesh),
                after == keys_after(*g_node, k0),
                k0.no_duplicates() ==> after.no_duplicates(),
                is_prefix(k0, k1),
                scene.nodes == old(scene).nodes,
                registry_grows(old(scene).meshes@, scene.meshes@, *document),
                scene.keys() == forest_keys_after(g_node.children@.take(i as int), k1),
                is_prefix(k1, scene.keys()),
                first_failure(*document, scene.keys().skip(base)) is None,
                match g_node.mesh {
                    Some(m) => mesh is Some && is_first_position(
                        scene.keys(),
                        m,
                        mesh->Some_0 as int,
                    ),
                    None => mesh is None,
                },
                children@.len() == i,
                forall|j: int|
                    0 <= j < i ==> node_mirrors(
                        #[trigger] children@[j],
                        g_node.children@[j],
                        scene.keys(),
                    ),
            decreases g_node.children.len() - i,
        {
            let ghost ki = scene.keys();
            let ghost mid = scene.meshes@;
            let ghost kn = keys_after(g_node.children@[i as int], ki);
            proof {
                lemma_forest_keys_step(g_node.children@, k1, i as int);
                lemma_keys_extend(g_node.children@[i as int], ki);
                lemma_prefix_transitive(k0, k1, ki);
                lemma_failure_split(*document, ki, kn, base);
                lemma_forest_keys_prefix(g_node.children@, k1, i + 1);
                lemma_prefix_transitive(k0, ki, kn);
                lemma_failure_split(*document, kn, after, base);
            }
            match Node::from_gltf(&g_node.children[i], document, scene) {
                Ok(child) => {
                    proof {
                        lemma_registry_grows_transitive(
                            old(scene).meshes@,
                            mid,
                            scene.meshes@,
                            *document,
                        );
                        lemma_prefix_transitive(k1, ki, kn);
                        if let Some(m) = g_node.mesh {
                            lemma_first_position_stable(ki, kn, m, mesh->Some_0 as int);
                        }
                        assert forall|j: int| 0 <= j < i implies node_mirrors(
                            #[trigger] children@[j],
                            g_node.children@[j],
                            kn,
                        ) by {
                            lemma_mirrors_stable(children@[j], g_node.children@[j], ki, kn);
                        }
                    }
                    children.push(child);
                },
                Err(e) => {
                    proof {
                        lemma_registry_grows_transitive(
                            old(scene).meshes@,
                            mid,
                            scene.meshes@,
                            *document,
                        );
                        lemma_prefix_transitive(scene.keys(), kn, after);
                        if k0.no_duplicates() {
                            lemma_prefix_distinct(scene.keys(), after);
                        }
                    }
                    return Err(e);
                },
            }
            i += 1;
        }
        proof {
            assert(g_node.children@.take(g_node.children@.len() as int) =~= g_node.children@);
            let all = scene.keys();
            assert(all.take(all.len() as int) =~= all);
        }
        let name = match &g_node.name {
            Some(text) => Some(text.clone()),
            None => None,
        };
        Ok(
            Node {
                children,
                matrix,
                mesh,
                rotation,
                scale: Vector3::from_array(g_node.scale),
                translation: Vector3::from_array(g_node.translation),
                name,
            },
        )
    }

    /// The factors of the node's own transform.
    pub fn local_transform(&self) -> (factors: Vec<Factor>)
        ensures
            factors@ == self.local_factors(),
    {
        let mut factors: Vec<Factor> = Vec::new();
        if !self.matrix.is_identity() {
            factors.push(Factor::Matrix(self.matrix));
        } else {
            factors.push(Factor::Translation(self.translation));
            factors.push(Factor::Scale(self.scale));
            factors.push(Factor::Rotation(self.rotation));
        }
        factors
    }

    /// The draw calls of the node and everything below it, parents before
    /// children and siblings in order, under the transform `model_matrix`.
    pub fn draw(&self, model_matrix: &Vec<Factor>) -> (calls: Vec<DrawCall>)
        ensures
            draws(calls@) == self.draw_list(model_matrix@),
    {
        let mut calls: Vec<DrawCall> = Vec::new();
        self.draw_into(model_matrix, &mut calls);
        assert(Seq::<ModelDraw>::empty() + self.draw_list(model_matrix@) =~= self.draw_list(
            model_matrix@,
        ));
        calls
    }

    /// Appends the draw calls of the node and everything below it to `calls`.
    pub fn draw_into(&self, model_matrix: &Vec<Factor>, calls: &mut Vec<DrawCall>)
        ensures
            draws(final(calls)@) == draws(old(calls)@) + self.draw_list(model_matrix@),
        decreases self,
    {
        let mut model = copy_factors(model_matrix);
        let local = self.local_transform();
        let mut k: usize = 0;
        while k < local.len()
            invariant
                k <= local.len(),
                model@ == model_matrix@ + local@.take(k as int),
            decreases local.len() - k,
        {
            model.push(local[k]);
            k += 1;
        }
        assert(local@.take(local.len() as int) =~= local@);
        let ghost own = match self.mesh {
            Some(mesh) => seq![ModelDraw { mesh, model: model@ }],
            None => Seq::empty(),
        };
        if let Some(mesh) = self.mesh {
            calls.push(DrawCall { mesh, model: copy_factors(&model) });
        }
        let mut i: usize = 0;
        while i < self.children.len()
            invariant
                i <= self.children.len(),
                draws(calls@) == draws(old(calls)@) + own + forest_draw_list(
                    self.children@.take(i as int),
                    model@,
                ),
            decreases self.children.len() - i,
        {
            self.children[i].draw_into(&model, calls);
            proof {
                lemma_forest_draw_step(self.children@, model@, i as int);
                assert(draws(calls@) =~= draws(old(calls)@) + own + forest_draw_list(
                    self.children@.take(i + 1),
                    model@,
                ));
            }
            i += 1;
        }
        assert(self.children@.take(self.children.len() as int) =~= self.children@);
    }
}

} // verus!
