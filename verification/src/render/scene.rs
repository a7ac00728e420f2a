//! The scene: the registry of meshes, one per mesh definition in use, and
//! the root nodes built over it.

use vstd::prelude::*;
use crate::render::document;
use crate::render::document::{identity_elements, Document, ParseError};
use crate::render::math::{Matrix4, Quaternion, Vector3};
use crate::render::mesh::{first_primitive_error, mesh_mirrors, Mesh};
use crate::render::node::{draws, forest_draw_list, lemma_forest_draw_step, DrawCall, Factor, Node};

verus! {

/// The meshes in use and the root nodes of the scene.
#[derive(Debug, PartialEq, Eq)]
pub struct Scene {
    /// The registry: the meshes built so far, in the order in which the
    /// nodes first named them.
    pub meshes: Vec<Mesh>,
    /// The root nodes, in document order.
    pub nodes: Vec<Node>,
}

/// The mesh indices of a list of meshes, in order.
pub open spec fn keys_of(meshes: Seq<Mesh>) -> Seq<usize> {
    Seq::new(meshes.len(), |i: int| meshes[i].index)
}

/// `h` is the first position at which `key` stands in `keys`.
pub open spec fn is_first_position(keys: Seq<usize>, key: usize, h: int) -> bool {
    &&& 0 <= h < keys.len()
    &&& keys[h] == key
    &&& forall|j: int| 0 <= j < h ==> keys[j] != key
}

/// `short` is the beginning of `long`.
pub open spec fn is_prefix(short: Seq<usize>, long: Seq<usize>) -> bool {
    short.len() <= long.len() && long.take(short.len() as int) == short
}

/// The registry keys once a node naming `mesh` has been built: a mesh index
/// that is not registered yet is appended.
pub open spec fn registered(keys: Seq<usize>, mesh: Option<usize>) -> Seq<usize> {
    match mesh {
        Some(m) => if keys.contains(m) {
            keys
        } else {
            keys.push(m)
        },
        None => keys,
    }
}

/// The registry keys once `g` and everything below it have been built,
/// starting from `keys`: the node's own mesh first, then its children in
/// order.
pub open spec fn keys_after(g: document::Node, keys: Seq<usize>) -> Seq<usize>
    decreases g,
{
    forest_keys_after(g.children@, registered(keys, g.mesh))
}

/// The registry keys once the nodes of `gs` have been built in order,
/// starting from `keys`.
pub open spec fn forest_keys_after(gs: Seq<document::Node>, keys: Seq<usize>) -> Seq<usize>
    decreases gs,
{
    if gs.len() == 0 {
        keys
    } else {
        keys_after(gs.last(), forest_keys_after(gs.drop_last(), keys))
    }
}

/// The node is what the document node describes, over a registry with the
/// given keys: the transform fields are carried over with the rotation
/// reordered, the mesh is the first registry entry with the document node's
/// mesh index, and the children correspond one to one, in order.
pub open spec fn node_mirrors(n: Node, g: document::Node, keys: Seq<usize>) -> bool
    decreases g,
{
    &&& n.matrix == Matrix4::spec_from_array(g.matrix)
    &&& n.rotation == Quaternion::spec_from_xyzw(g.rotation)
    &&& n.scale == Vector3::spec_from_array(g.scale)
    &&& n.translation == Vector3::spec_from_array(g.translation)
    &&& n.name == g.name
    &&& match g.mesh {
        Some(m) => n.mesh is Some && is_first_position(keys, m, n.mesh->Some_0 as int),
        None => n.mesh is None,
    }
    &&& forest_mirrors(n.children@, g.children@, keys)
}

/// The nodes are what the document nodes describe, one to one and in order.
pub open spec fn forest_mirrors(ns: Seq<Node>, gs: Seq<document::Node>, keys: Seq<usize>) -> bool
    decreases gs,
{
    &&& ns.len() == gs.len()
    &&& forall|i: int| 0 <= i < gs.len() ==> node_mirrors(#[trigger] ns[i], gs[i], keys)
}

/// What keeps the mesh at `key` of the document's mesh table from being
/// built, if anything: that the table has no such entry, or the error of
/// its first faulty primitive.
pub open spec fn mesh_failure(document: Document, key: usize) -> Option<ParseError> {
    if key >= document.meshes@.len() {
        Some(ParseError::UnknownMesh)
    } else {
        first_primitive_error(document.meshes@[key as int].primitives@)
    }
}

/// The failure of the first of `keys` whose mesh cannot be built, if any.
pub open spec fn first_failure(document: Document, keys: Seq<usize>) -> Option<ParseError>
    decreases keys.len(),
{
    if keys.len() == 0 {
        None
    } else if mesh_failure(document, keys[0]) is Some {
        mesh_failure(document, keys[0])
    } else {
        first_failure(document, keys.skip(1))
    }
}

/// The registry `after` continues `before`: the meshes of `before` stand
/// unchanged at the beginning, and every mesh behind them is the mesh that
/// the document holds under its index.
pub open spec fn registry_grows(before: Seq<Mesh>, after: Seq<Mesh>, document: Document) -> bool {
    &&& before.len() <= after.len()
    &&& after.take(before.len() as int) == before
    &&& forall|h: int|
        before.len() <= h < after.len() ==> {
            &&& (#[trigger] after[h]).index < document.meshes@.len()
            &&& mesh_mirrors(after[h], document.meshes@[after[h].index as int], after[h].index)
        }
}

/// Building never removes or reorders registry entries.
pub proof fn lemma_keys_extend(g: document::Node, keys: Seq<usize>)
    ensures
        is_prefix(keys, keys_after(g, keys)),
    decreases g, 1int,
{
    let first = registered(keys, g.mesh);
    assert(is_prefix(keys, first)) by {
        assert(first.take(keys.len() as int) =~= keys);
    }
    lemma_forest_keys_extend(g.children@, first);
    lemma_prefix_transitive(keys, first, keys_after(g, keys));
}

/// Building a list of nodes never removes or reorders registry entries.
pub proof fn lemma_forest_keys_extend(gs: Seq<document::Node>, keys: Seq<usize>)
    ensures
        is_prefix(keys, forest_keys_after(gs, keys)),
    decreases gs, 0int,
{
    if gs.len() == 0 {
        assert(keys.take(keys.len() as int) =~= keys);
    } else {
        let before = forest_keys_after(gs.drop_last(), keys);
        lemma_forest_keys_extend(gs.drop_last(), keys);
        lemma_keys_extend(gs.last(), before);
        lemma_prefix_transitive(keys, before, forest_keys_after(gs, keys));
    }
}

/// The beginning of a beginning is a beginning.
pub proof fn lemma_prefix_transitive(a: Seq<usize>, b: Seq<usize>, c: Seq<usize>)
    requires
        is_prefix(a, b),
        is_prefix(b, c),
    ensures
        is_prefix(a, c),
{
    assert(c.take(a.len() as int) =~= b.take(a.len() as int));
}

/// The beginning of a list without repetitions has no repetitions.
pub proof fn lemma_prefix_distinct(short: Seq<usize>, long: Seq<usize>)
    requires
        is_prefix(short, long),
        long.no_duplicates(),
    ensures
        short.no_duplicates(),
{
    assert forall|i: int, j: int|
        0 <= i < short.len() && 0 <= j < short.len() && i != j implies short[i] != short[j] by {}
}

/// Building the first `i + 1` nodes of a list is building the first `i` and
/// then node `i`.
pub proof fn lemma_forest_keys_step(gs: Seq<document::Node>, keys: Seq<usize>, i: int)
    requires
        0 <= i < gs.len(),
    ensures
        forest_keys_after(gs.take(i + 1), keys) == keys_after(
            gs[i],
            forest_keys_after(gs.take(i), keys),
        ),
{
    assert(gs.take(i + 1).drop_last() =~= gs.take(i));
}

/// The keys after the first `i` nodes of a list begin the keys after all of
/// them.
pub proof fn lemma_forest_keys_prefix(gs: Seq<document::Node>, keys: Seq<usize>, i: int)
    requires
        0 <= i <= gs.len(),
    ensures
        is_prefix(forest_keys_after(gs.take(i), keys), forest_keys_after(gs, keys)),
    decreases gs.len() - i,
{
    if i == gs.len() {
        assert(gs.take(i) =~= gs);
        let all = forest_keys_after(gs, keys);
        assert(all.take(all.len() as int) =~= all);
    } else {
        lemma_forest_keys_step(gs, keys, i);
        lemma_keys_extend(gs[i], forest_keys_after(gs.take(i), keys));
        lemma_forest_keys_prefix(gs, keys, i + 1);
        lemma_prefix_transitive(
            forest_keys_after(gs.take(i), keys),
            forest_keys_after(gs.take(i + 1), keys),
            forest_keys_after(gs, keys),
        );
    }
}

/// The first failure of two lists joined is that of the first list, or
/// else that of the second.
pub proof fn lemma_first_failure_concat(document: Document, a: Seq<usize>, b: Seq<usize>)
    ensures
        first_failure(document, a + b) == if first_failure(document, a) is Some {
            first_failure(document, a)
        } else {
            first_failure(document, b)
        },
    decreases a.len(),
{
    if a.len() > 0 {
        assert((a + b).skip(1) =~= a.skip(1) + b);
        lemma_first_failure_concat(document, a.skip(1), b);
    }
}

/// A first position stays the first position when keys are appended.
pub proof fn lemma_first_position_stable(short: Seq<usize>, long: Seq<usize>, key: usize, h: int)
    requires
        is_prefix(short, long),
        is_first_position(short, key, h),
    ensures
        is_first_position(long, key, h),
{
    assert forall|j: int| 0 <= j <= h implies long[j] == short[j] by {}
}

/// A node that mirrors a document node over a registry still does so when
/// the registry has grown.
pub proof fn lemma_mirrors_stable(n: Node, g: document::Node, short: Seq<usize>, long: Seq<usize>)
    requires
        is_prefix(short, long),
        node_mirrors(n, g, short),
    ensures
        node_mirrors(n, g, long),
    decreases g,
{
    if let Some(m) = g.mesh {
        lemma_first_position_stable(short, long, m, n.mesh->Some_0 as int);
    }
    assert forall|i: int| 0 <= i < g.children@.len() implies node_mirrors(
        #[trigger] n.children@[i],
        g.children@[i],
        long,
    ) by {
        lemma_mirrors_stable(n.children@[i], g.children@[i], short, long);
    }
}

/// The part of a grown key list behind position `base` is the part of the
/// old list behind `base`, followed by what was appended.
pub proof fn lemma_skip_split(short: Seq<usize>, long: Seq<usize>, base: int)
    requires
        is_prefix(short, long),
        0 <= base <= short.len(),
    ensures
        long.skip(base) == short.skip(base) + long.skip(short.len() as int),
{
}

/// The first failure behind position `base` of a grown key list is the one
/// behind `base` of the old list, or else the first among what was appended.
pub proof fn lemma_failure_split(document: Document, short: Seq<usize>, long: Seq<usize>, base: int)
    requires
        is_prefix(short, long),
        0 <= base <= short.len(),
    ensures
        first_failure(document, long.skip(base)) == if first_failure(document, short.skip(base))
            is Some {
            first_failure(document, short.skip(base))
        } else {
            first_failure(document, long.skip(short.len() as int))
        },
{
    lemma_skip_split(short, long, base);
    lemma_first_failure_concat(document, short.skip(base), long.skip(short.len() as int));
}

/// A registry continues itself.
pub proof fn lemma_registry_grows_reflexive(meshes: Seq<Mesh>, document: Document)
    ensures
        registry_grows(meshes, meshes, document),
{
    assert(meshes.take(meshes.len() as int) =~= meshes);
}

/// What continues a continuation continues the registry it began with.
pub proof fn lemma_registry_grows_transitive(
    a: Seq<Mesh>,
    b: Seq<Mesh>,
    c: Seq<Mesh>,
    document: Document,
)
    requires
        registry_grows(a, b, document),
        registry_grows(b, c, document),
    ensures
        registry_grows(a, c, document),
{
    assert(c.take(a.len() as int) =~= b.take(a.len() as int));
    assert forall|h: int| a.len() <= h < c.len() implies {
        &&& (#[trigger] c[h]).index < document.meshes@.len()
        &&& mesh_mirrors(c[h], document.meshes@[c[h].index as int], c[h].index)
    } by {
        if h < b.len() {
            assert(c[h] == b[h]);
        }
    }
}

/// Which transform places a node: where the document node carries a matrix
/// other than the identity, the matrix alone, whatever the other fields
/// hold; where it carries the identity, its translation, then its scale,
/// then its rotation.
pub proof fn lemma_transform_selection(n: Node, g: document::Node, keys: Seq<usize>)
    requires
        node_mirrors(n, g, keys),
    ensures
        !Matrix4::spec_from_array(g.matrix).spec_is_identity() ==> n.local_factors() == seq![
            Factor::Matrix(Matrix4::spec_from_array(g.matrix)),
        ],
        Matrix4::spec_from_array(g.matrix).spec_is_identity() ==> n.local_factors() == seq![
            Factor::Translation(Vector3::spec_from_array(g.translation)),
            Factor::Scale(Vector3::spec_from_array(g.scale)),
            Factor::Rotation(Quaternion::spec_from_xyzw(g.rotation)),
        ],
        g.matrix@ == identity_elements() ==> Matrix4::spec_from_array(g.matrix).spec_is_identity(),
{
}

/// The document node or a node below it names the mesh with index `m`.
pub open spec fn names(g: document::Node, m: usize) -> bool
    decreases g,
{
    g.mesh == Some(m) || forest_names(g.children@, m)
}

/// One of the document nodes, or a node below one, names the mesh with
/// index `m`.
pub open spec fn forest_names(gs: Seq<document::Node>, m: usize) -> bool
    decreases gs,
{
    exists|i: int| 0 <= i < gs.len() && names(#[trigger] gs[i], m)
}

/// The path leads to a node of the forest: its first step picks a root,
/// every further step a child of the node reached so far.
pub open spec fn path_in(gs: Seq<document::Node>, path: Seq<int>) -> bool
    decreases path.len(),
{
    &&& path.len() >= 1
    &&& 0 <= path[0] < gs.len()
    &&& path.len() == 1 || path_in(gs[path[0]].children@, path.skip(1))
}

/// The document node that the path leads to.
pub open spec fn doc_at(gs: Seq<document::Node>, path: Seq<int>) -> document::Node
    decreases path.len(),
{
    if path.len() <= 1 {
        gs[path[0]]
    } else {
        doc_at(gs[path[0]].children@, path.skip(1))
    }
}

/// The scene node that the path leads to.
pub open spec fn node_at(ns: Seq<Node>, path: Seq<int>) -> Node
    decreases path.len(),
{
    if path.len() <= 1 {
        ns[path[0]]
    } else {
        node_at(ns[path[0]].children@, path.skip(1))
    }
}

/// Appending a key that is not there keeps the keys distinct and adds
/// exactly that key.
pub proof fn lemma_registered(keys: Seq<usize>, mesh: Option<usize>, m: usize)
    ensures
        keys.no_duplicates() ==> registered(keys, mesh).no_duplicates(),
        registered(keys, mesh).contains(m) <==> keys.contains(m) || mesh == Some(m),
{
    let after = registered(keys, mesh);
    if after != keys {
        let added = mesh->Some_0;
        assert(after[keys.len() as int] == added);
        assert forall|i: int| 0 <= i < keys.len() implies after[i] == keys[i] by {}
    }
}

/// Building a node keeps the registry keys distinct, and afterwards the
/// registry holds a key exactly if it held it before or the node, or a node
/// below it, names it.
pub proof fn lemma_keys_after(g: document::Node, keys: Seq<usize>, m: usize)
    ensures
        keys.no_duplicates() ==> keys_after(g, keys).no_duplicates(),
        keys_after(g, keys).contains(m) <==> keys.contains(m) || names(g, m),
    decreases g, 1int,
{
    lemma_registered(keys, g.mesh, m);
    lemma_forest_keys_after(g.children@, registered(keys, g.mesh), m);
}

/// Building a list of nodes keeps the registry keys distinct, and
/// afterwards the registry holds a key exactly if it held it before or one
/// of the nodes, or a node below one, names it.
pub proof fn lemma_forest_keys_after(gs: Seq<document::Node>, keys: Seq<usize>, m: usize)
    ensures
        keys.no_duplicates() ==> forest_keys_after(gs, keys).no_duplicates(),
        forest_keys_after(gs, keys).contains(m) <==> keys.contains(m) || forest_names(gs, m),
    decreases gs, 0int,
{
    if gs.len() > 0 {
        let front = gs.drop_last();
        lemma_forest_keys_after(front, keys, m);
        lemma_keys_after(gs.last(), forest_keys_after(front, keys), m);
        if forest_names(gs, m) {
            let i = choose|i: int| 0 <= i < gs.len() && names(#[trigger] gs[i], m);
            if i < gs.len() - 1 {
                assert(names(front[i], m));
            }
        }
    }
}

/// Corresponding nodes are reached by the same path: where a forest of
/// scene nodes mirrors a forest of document nodes, the scene node at a path
/// mirrors the document node at that path.
pub proof fn lemma_counterpart(
    ns: Seq<Node>,
    gs: Seq<document::Node>,
    keys: Seq<usize>,
    path: Seq<int>,
)
    requires
        forest_mirrors(ns, gs, keys),
        path_in(gs, path),
    ensures
        node_mirrors(node_at(ns, path), doc_at(gs, path), keys),
    decreases path.len(),
{
    if path.len() > 1 {
        lemma_counterpart(ns[path[0]].children@, gs[path[0]].children@, keys, path.skip(1));
    }
}

/// Nodes that name one mesh share one mesh: where two document nodes,
/// anywhere in the forest, carry the same mesh index, their scene nodes
/// hold the same registry position, and the mesh there has that index.
pub proof fn lemma_shared_mesh(
    ns: Seq<Node>,
    gs: Seq<document::Node>,
    keys: Seq<usize>,
    p: Seq<int>,
    q: Seq<int>,
)
    requires
        forest_mirrors(ns, gs, keys),
        path_in(gs, p),
        path_in(gs, q),
        doc_at(gs, p).mesh is Some,
        doc_at(gs, p).mesh == doc_at(gs, q).mesh,
    ensures
        node_at(ns, p).mesh is Some,
        node_at(ns, p).mesh == node_at(ns, q).mesh,
        0 <= node_at(ns, p).mesh->Some_0 < keys.len(),
        keys[node_at(ns, p).mesh->Some_0 as int] == doc_at(gs, p).mesh->Some_0,
{
    lemma_counterpart(ns, gs, keys, p);
    lemma_counterpart(ns, gs, keys, q);
}

/// After a build from an empty registry the registry holds one entry for
/// each mesh index that the document's nodes name, and no other.
pub proof fn lemma_one_mesh_per_index(gs: Seq<document::Node>, m: usize)
    ensures
        forest_keys_after(gs, Seq::empty()).no_duplicates(),
        forest_keys_after(gs, Seq::empty()).contains(m) <==> forest_names(gs, m),
{
    lemma_forest_keys_after(gs, Seq::empty(), m);
}

/// A list of keys has a failure exactly if the mesh of one of them cannot
/// be built.
pub proof fn lemma_first_failure(document: Document, keys: Seq<usize>)
    ensures
        first_failure(document, keys) is None <==> forall|i: int|
            0 <= i < keys.len() ==> mesh_failure(document, #[trigger] keys[i]) is None,
    decreases keys.len(),
{
    if keys.len() > 0 {
        let rest = keys.skip(1);
        lemma_first_failure(document, rest);
        if mesh_failure(document, keys[0]) is None {
            if first_failure(document, rest) is None {
                assert forall|i: int| 0 <= i < keys.len() implies mesh_failure(
                    document,
                    #[trigger] keys[i],
                ) is None by {
                    if i > 0 {
                        assert(keys[i] == rest[i - 1]);
                    }
                }
            }
        }
    }
}

/// A document can be built exactly if every mesh that one of its nodes
/// names can be built; meshes that no node names do not matter.
pub proof fn lemma_build_succeeds(document: Document)
    ensures
        first_failure(document, forest_keys_after(document.nodes@, Seq::empty())) is None
            <==> forall|m: usize| #[trigger]
            forest_names(document.nodes@, m) ==> mesh_failure(document, m) is None,
{
    let keys = forest_keys_after(document.nodes@, Seq::empty());
    lemma_first_failure(document, keys);
    if first_failure(document, keys) is None {
        assert forall|m: usize| #[trigger]
            forest_names(document.nodes@, m) implies mesh_failure(document, m) is None by {
            lemma_forest_keys_after(document.nodes@, Seq::empty(), m);
        }
    }
    if forall|m: usize| #[trigger]
        forest_names(document.nodes@, m) ==> mesh_failure(document, m) is None {
        assert forall|i: int| 0 <= i < keys.len() implies mesh_failure(
            document,
            #[trigger] keys[i],
        ) is None by {
            lemma_forest_keys_after(document.nodes@, Seq::empty(), keys[i]);
        }
    }
}

impl Scene {
    /// The mesh indices of the registry, in order.
    pub open spec fn keys(&self) -> Seq<usize> {
        keys_of(self.meshes@)
    }

    /// No mesh index stands twice in the registry.
    pub open spec fn wf(&self) -> bool {
        self.keys().no_duplicates()
    }

    /// A scene without meshes and nodes.
    pub fn new() -> (scene: Scene)
        ensures
            scene.meshes@.len() == 0,
            scene.nodes@.len() == 0,
            scene.wf(),
    {
        Scene { meshes: Vec::new(), nodes: Vec::new() }
    }

    /// The first registry position that holds the mesh with the given
    /// index, if there is one.
    pub fn find_mesh(&self, index: usize) -> (r: Option<usize>)
        ensures
            match r {
                Some(h) => is_first_position(self.keys(), index, h as int),
                None => !self.keys().contains(index),
            },
    {
        let mut h: usize = 0;
        while h < self.meshes.len()
            invariant
                h <= self.meshes.len(),
                forall|j: int| 0 <= j < h ==> self.keys()[j] != index,
            decreases self.meshes.len() - h,
        {
            if self.meshes[h].index == index {
                return Some(h);
            }
            h += 1;
        }
        None
    }

    /// The mesh at a registry position, if the registry is that long.
    pub fn mesh(&self, position: usize) -> (r: Option<&Mesh>)
        ensures
            match r {
                Some(mesh) => position < self.meshes@.len() && *mesh == self.meshes@[position as int],
                None => position >= self.meshes@.len(),
            },
    {
        if position < self.meshes.len() {
            Some(&self.meshes[position])
        } else {
            None
        }
    }

    /// The registry position of the mesh with the given index of the
    /// document's mesh table. A mesh that is registered already is found
    /// again; any other is built from the document and appended.
    pub fn resolve_mesh(&mut self, index: usize, document: &Document) -> (r: Result<
        usize,
        ParseError,
    >)
        ensures
            final(self).nodes == old(self).nodes,
            registry_grows(old(self).meshes@, final(self).meshes@, *document),
            old(self).wf() ==> final(self).wf(),
            match (if old(self).keys().contains(index) {
                None
            } else {
                mesh_failure(*document, index)
            }) {
                Some(e) => r == Err::<usize, ParseError>(e) && final(self).meshes == old(
                    self,
                ).meshes,
                None => {
                    &&& r is Ok
                    &&& final(self).keys() == registered(old(self).keys(), Some(index))
                    &&& is_first_position(final(self).keys(), index, r->Ok_0 as int)
                },
            },
    {
        proof {
            lemma_registry_grows_reflexive(self.meshes@, *document);
            lemma_registered(self.keys(), Some(index), index);
        }
        match self.find_mesh(index) {
            Some(h) => {
                Ok(h)
            },
            None => {
                if index >= document.meshes.len() {
                    return Err(ParseError::UnknownMesh);
                }
                match Mesh::from_gltf(&document.meshes[index], index) {
                    Ok(mesh) => {
                        let h: usize = self.meshes.len();
                        self.meshes.push(mesh);
                        proof {
                            assert(self.keys() =~= old(self).keys().push(index));
                            assert(self.meshes@.take(h as int) =~= old(self).meshes@);
                        }
                        Ok(h)
                    },
                    Err(e) => Err(e),
                }
            },
        }
    }

    /// The scene of a document: its root nodes built in order over one
    /// registry that starts empty. The first mesh that cannot be built stops
    /// the construction with its error.
    pub fn build(document: &Document) -> (r: Result<Scene, ParseError>)
        ensures
            match first_failure(*document, forest_keys_after(document.nodes@, Seq::empty())) {
                Some(e) => r == Err::<Scene, ParseError>(e),
                None => {
                    &&& r is Ok
                    &&& r->Ok_0.wf()
                    &&& r->Ok_0.keys() == forest_keys_after(document.nodes@, Seq::empty())
                    &&& registry_grows(Seq::empty(), r->Ok_0.meshes@, *document)
                    &&& forest_mirrors(r->Ok_0.nodes@, document.nodes@, r->Ok_0.keys())
                },
            },
    {
        let mut scene = Scene::new();
        let mut nodes: Vec<Node> = Vec::new();
        let ghost empty = Seq::<usize>::empty();
        let ghost after = forest_keys_after(document.nodes@, empty);
        let mut i: usize = 0;
        proof {
            assert(scene.meshes@ =~= Seq::<Mesh>::empty());
            lemma_registry_grows_reflexive(scene.meshes@, *document);
        }
        while i < document.nodes.len()
            invariant
                i <= document.nodes.len(),
                empty == Seq::<usize>::empty(),
                after == forest_keys_after(document.nodes@, empty),
                scene.nodes@.len() == 0,
                registry_grows(Seq::empty(), scene.meshes@, *document),
                scene.keys() == forest_keys_after(document.nodes@.take(i as int), empty),
                first_failure(*document, scene.keys()) is None,
                nodes@.len() == i,
                forall|j: int|
                    0 <= j < i ==> node_mirrors(
                        #[trigger] nodes@[j],
                        document.nodes@[j],
                        scene.keys(),
                    ),
            decreases document.nodes.len() - i,
        {
            let ghost ki = scene.keys();
            let ghost mid = scene.meshes@;
            let ghost kn = keys_after(document.nodes@[i as int], ki);
            proof {
                lemma_forest_keys_step(document.nodes@, empty, i as int);
                lemma_keys_extend(document.nodes@[i as int], ki);
                lemma_failure_split(*document, ki, kn, 0);
                lemma_forest_keys_prefix(document.nodes@, empty, i + 1);
                lemma_failure_split(*document, kn, after, 0);
                assert(ki.skip(0) =~= ki);
                assert(after.skip(0) =~= after);
            }
            match Node::from_gltf(&document.nodes[i], document, &mut scene) {
                Ok(node) => {
                    proof {
                        lemma_registry_grows_transitive(
                            Seq::empty(),
                            mid,
                            scene.meshes@,
                            *document,
                        );
                        assert forall|j: int| 0 <= j < i implies node_mirrors(
                            #[trigger] nodes@[j],
                            document.nodes@[j],
                            kn,
                        ) by {
                            lemma_mirrors_stable(nodes@[j], document.nodes@[j], ki, kn);
                        }
                    }
                    nodes.push(node);
                },
                Err(e) => {
                    return Err(e);
                },
            }
            i += 1;
        }
        proof {
            assert(document.nodes@.take(document.nodes@.len() as int) =~= document.nodes@);
            lemma_one_mesh_per_index(document.nodes@, 0);
        }
        scene.nodes = nodes;
        Ok(scene)
    }

    /// The draw calls of the whole scene under the transform
    /// `model_matrix`: those of the root nodes, in order.
    pub fn draw(&self, model_matrix: &Vec<Factor>) -> (calls: Vec<DrawCall>)
        ensures
            draws(calls@) == forest_draw_list(self.nodes@, model_matrix@),
    {
        let mut calls: Vec<DrawCall> = Vec::new();
        let mut i: usize = 0;
        while i < self.nodes.len()
            invariant
                i <= self.nodes.len(),
                draws(calls@) == forest_draw_list(self.nodes@.take(i as int), model_matrix@),
            decreases self.nodes.len() - i,
        {
            proof {
                lemma_forest_draw_step(self.nodes@, model_matrix@, i as int);
            }
            self.nodes[i].draw_into(model_matrix, &mut calls);
            i += 1;
        }
        assert(self.nodes@.take(self.nodes@.len() as int) =~= self.nodes@);
        calls
    }
}

} // verus!
