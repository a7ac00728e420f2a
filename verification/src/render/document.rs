//! A parsed glTF document, reduced to what scene construction reads.
//!
//! Numbers are bit patterns, as in [`crate::render::math`]. Nodes own their
//! children, so a document is a forest by construction; meshes sit in one
//! table and nodes name them by position.

use vstd::prelude::*;
use crate::render::math::{ONE, ZERO};

verus! {

/// Why a document could not be turned into geometry.
#[derive(Clone, Copy, Debug, PartialEq, Eq, Structural)]
pub enum ParseError {
    /// A node names a mesh that the document does not hold.
    UnknownMesh,
    /// A primitive has no position stream.
    MissingPositions,
    /// A primitive has no normal stream.
    MissingNormals,
    /// A primitive has no index stream.
    MissingIndices,
    /// A primitive's position and normal streams differ in length.
    UnevenAttributes,
}

/// An index stream in the width the document stores it in.
#[derive(Debug, PartialEq, Eq)]
pub enum Indices {
    U8(Vec<u8>),
    U16(Vec<u16>),
    U32(Vec<u32>),
}

/// One indexed triangle list of a mesh.
#[derive(Debug, PartialEq, Eq)]
pub struct Primitive {
    pub positions: Option<Vec<[u32; 3]>>,
    pub normals: Option<Vec<[u32; 3]>>,
    pub indices: Option<Indices>,
}

/// A mesh definition: its primitives in document order.
#[derive(Debug, PartialEq, Eq)]
pub struct Mesh {
    pub primitives: Vec<Primitive>,
}

/// The transform of a node in the form the document gives it.
#[derive(Clone, Copy, Debug, PartialEq, Eq)]
pub enum Transform {
    /// A matrix, column by column.
    Matrix([u32; 16]),
    /// Translation, rotation with the vector part first, and scale.
    Decomposed { translation: [u32; 3], rotation: [u32; 4], scale: [u32; 3] },
}

/// A node of the document with the subtree below it.
#[derive(Debug, PartialEq, Eq)]
pub struct Node {
    /// The explicit transform, column by column; the identity where the
    /// document gives none.
    pub matrix: [u32; 16],
    pub translation: [u32; 3],
    /// The rotation, vector part first: `[x, y, z, w]`.
    pub rotation: [u32; 4],
    pub scale: [u32; 3],
    /// The position of the node's mesh in the document's mesh table.
    pub mesh: Option<usize>,
    pub children: Vec<Node>,
    pub name: Option<String>,
}

/// The mesh table and the root nodes of the scene to show.
#[derive(Debug, PartialEq, Eq)]
pub struct Document {
    pub meshes: Vec<Mesh>,
    pub nodes: Vec<Node>,
}

/// The elements of the identity matrix, column by column.
pub open spec fn identity_elements() -> Seq<u32> {
    seq![
        ONE, ZERO, ZERO, ZERO,
        ZERO, ONE, ZERO, ZERO,
        ZERO, ZERO, ONE, ZERO,
        ZERO, ZERO, ZERO, ONE,
    ]
}

impl Node {
    /// A node with the given transform. The form that the document does not
    /// give takes its default: the identity matrix, or no translation, no
    /// rotation and a scale of one.
    pub fn new(
        transform: Transform,
        mesh: Option<usize>,
        children: Vec<Node>,
        name: Option<String>,
    ) -> (g: Node)
        ensures
            g.mesh == mesh,
            g.children == children,
            g.name == name,
            match transform {
                Transform::Matrix(matrix) => {
                    &&& g.matrix == matrix
                    &&& g.translation@ == seq![ZERO, ZERO, ZERO]
                    &&& g.rotation@ == seq![ZERO, ZERO, ZERO, ONE]
                    &&& g.scale@ == seq![ONE, ONE, ONE]
                },
                Transform::Decomposed { translation, rotation, scale } => {
                    &&& g.matrix@ == identity_elements()
                    &&& g.translation == translation
                    &&& g.rotation == rotation
                    &&& g.scale == scale
                },
            },
    {
        match transform {
            Transform::Matrix(matrix) => Node {
                matrix,
                translation: [ZERO, ZERO, ZERO],
                rotation: [ZERO, ZERO, ZERO, ONE],
                scale: [ONE, ONE, ONE],
                mesh,
                children,
                name,
            },
            Transform::Decomposed { translation, rotation, scale } => Node {
                matrix: [
                    ONE, ZERO, ZERO, ZERO,
                    ZERO, ONE, ZERO, ZERO,
                    ZERO, ZERO, ONE, ZERO,
                    ZERO, ZERO, ZERO, ONE,
                ],
                translation,
                rotation,
                scale,
                mesh,
                children,
                name,
            },
        }
    }
}

impl Indices {
    /// The indices as unsigned 32-bit numbers, in order.
    pub open spec fn widened(self) -> Seq<u32> {
        match self {
            Indices::U8(v) => Seq::new(v@.len(), |i: int| v@[i] as u32),
            Indices::U16(v) => Seq::new(v@.len(), |i: int| v@[i] as u32),
            Indices::U32(v) => v@,
        }
    }

    /// Widens every index to 32 bits, keeping value and order.
    pub fn widen(&self) -> (wide: Vec<u32>)
        ensures
            wide@ == self.widened(),
    {
        let mut wide: Vec<u32> = Vec::new();
        match self {
            Indices::U8(v) => {
                let mut i: usize = 0;
                while i < v.len()
                    invariant
                        i <= v.len(),
                        wide@.len() == i,
                        forall|j: int| 0 <= j < i ==> wide@[j] == v@[j] as u32,
                    decreases v.len() - i,
                {
                    wide.push(v[i] as u32);
                    i += 1;
                }
            },
            Indices::U16(v) => {
                let mut i: usize = 0;
                while i < v.len()
                    invariant
                        i <= v.len(),
                        wide@.len() == i,
                        forall|j: int| 0 <= j < i ==> wide@[j] == v@[j] as u32,
                    decreases v.len() - i,
                {
                    wide.push(v[i] as u32);
                    i += 1;
                }
            },
            Indices::U32(v) => {
                let mut i: usize = 0;
                while i < v.len()
                    invariant
                        i <= v.len(),
                        wide@.len() == i,
                        forall|j: int| 0 <= j < i ==> wide@[j] == v@[j],
                    decreases v.len() - i,
                {
                    wide.push(v[i]);
                    i += 1;
                }
            },
        }
        wide
    }
}

/// Widening keeps every index: the three widths of one index list give the
/// same 32-bit list.
pub proof fn lemma_widths_agree(narrow: Vec<u8>, medium: Vec<u16>, wide: Vec<u32>)
    requires
        narrow@.len() == wide@.len(),
        medium@.len() == wide@.len(),
        forall|i: int| 0 <= i < wide@.len() ==> narrow@[i] == wide@[i] && medium@[i] == wide@[i],
    ensures
        Indices::U8(narrow).widened() == wide@,
        Indices::U16(medium).widened() == wide@,
        Indices::U32(wide).widened() == wide@,
{
}

} // verus!
