use gltf_scene::render::document;
use gltf_scene::render::document::{Document, Indices, ParseError, Transform};
use gltf_scene::render::math::{Matrix4, Quaternion, Vector3};
use gltf_scene::render::node::{model_uniform, DrawCall, Factor, Node};
use gltf_scene::render::scene::Scene;

fn bits(x: f32) -> u32 {
    x.to_bits()
}

fn identity() -> [u32; 16] {
    let mut m = [bits(0.0); 16];
    m[0] = bits(1.0);
    m[5] = bits(1.0);
    m[10] = bits(1.0);
    m[15] = bits(1.0);
    m
}

fn plain(mesh: Option<usize>, children: Vec<document::Node>) -> document::Node {
    document::Node {
        matrix: identity(),
        translation: [bits(0.0); 3],
        rotation: [bits(0.0), bits(0.0), bits(0.0), bits(1.0)],
        scale: [bits(1.0); 3],
        mesh,
        children,
        name: None,
    }
}

fn moved(mesh: Option<usize>, x: f32, y: f32, z: f32, children: Vec<document::Node>) -> document::Node {
    let mut g = plain(mesh, children);
    g.translation = [bits(x), bits(y), bits(z)];
    g
}

fn triangle() -> document::Primitive {
    document::Primitive {
        positions: Some(vec![[bits(0.0); 3], [bits(1.0), 0, 0], [0, bits(1.0), 0]]),
        normals: Some(vec![[0, 0, bits(1.0)]; 3]),
        indices: Some(Indices::U8(vec![0, 1, 2])),
    }
}

fn mesh_of(n: usize) -> document::Mesh {
    let mut primitives = Vec::new();
    for _ in 0..n {
        primitives.push(triangle());
    }
    document::Mesh { primitives }
}

fn broken_mesh() -> document::Mesh {
    let mut p = triangle();
    p.normals = None;
    document::Mesh { primitives: vec![p] }
}

fn translation(x: f32, y: f32, z: f32) -> Factor {
    Factor::Translation(Vector3 { x: bits(x), y: bits(y), z: bits(z) })
}

fn unit_scale() -> Factor {
    Factor::Scale(Vector3 { x: bits(1.0), y: bits(1.0), z: bits(1.0) })
}

fn no_rotation() -> Factor {
    Factor::Rotation(Quaternion { w: bits(1.0), x: bits(0.0), y: bits(0.0), z: bits(0.0) })
}

type Mat = [[f32; 4]; 4];

fn product(a: Mat, b: Mat) -> Mat {
    let mut r = [[0.0f32; 4]; 4];
    for c in 0..4 {
        for row in 0..4 {
            for k in 0..4 {
                r[c][row] += a[k][row] * b[c][k];
            }
        }
    }
    r
}

fn unit() -> Mat {
    let mut r = [[0.0f32; 4]; 4];
    for i in 0..4 {
        r[i][i] = 1.0;
    }
    r
}

fn matrix_of(f: &Factor) -> Mat {
    let n = f32::from_bits;
    match f {
        Factor::Matrix(m) => [
            [n(m.x.x), n(m.x.y), n(m.x.z), n(m.x.w)],
            [n(m.y.x), n(m.y.y), n(m.y.z), n(m.y.w)],
            [n(m.z.x), n(m.z.y), n(m.z.z), n(m.z.w)],
            [n(m.w.x), n(m.w.y), n(m.w.z), n(m.w.w)],
        ],
        Factor::Translation(t) => {
            let mut r = unit();
            r[3] = [n(t.x), n(t.y), n(t.z), 1.0];
            r
        }
        Factor::Scale(s) => {
            let mut r = unit();
            r[0][0] = n(s.x);
            r[1][1] = n(s.y);
            r[2][2] = n(s.z);
            r
        }
        Factor::Rotation(q) => {
            let (w, x, y, z) = (n(q.w), n(q.x), n(q.y), n(q.z));
            [
                [1.0 - 2.0 * (y * y + z * z), 2.0 * (x * y + w * z), 2.0 * (x * z - w * y), 0.0],
                [2.0 * (x * y - w * z), 1.0 - 2.0 * (x * x + z * z), 2.0 * (y * z + w * x), 0.0],
                [2.0 * (x * z + w * y), 2.0 * (y * z - w * x), 1.0 - 2.0 * (x * x + y * y), 0.0],
                [0.0, 0.0, 0.0, 1.0],
            ]
        }
    }
}

fn model_matrix(call: &DrawCall) -> Mat {
    let mut m = unit();
    for f in &call.model {
        m = product(m, matrix_of(f));
    }
    m
}

#[test]
fn nodes_with_one_mesh_index_share_one_mesh() {
    let d = Document {
        meshes: vec![mesh_of(1), mesh_of(2)],
        nodes: vec![
            plain(Some(1), vec![plain(Some(0), Vec::new()), plain(Some(1), Vec::new())]),
            plain(Some(0), vec![plain(None, vec![plain(Some(1), Vec::new())])]),
        ],
    };
    let s = Scene::build(&d).unwrap();
    assert_eq!(s.meshes.len(), 2);
    assert_eq!(s.meshes[0].index, 1);
    assert_eq!(s.meshes[1].index, 0);
    assert_eq!(s.meshes[0].primitives.len(), 2);
    assert_eq!(s.meshes[1].primitives.len(), 1);
    assert_eq!(s.nodes.len(), 2);
    assert_eq!(s.nodes[0].mesh, Some(0));
    assert_eq!(s.nodes[0].children[0].mesh, Some(1));
    assert_eq!(s.nodes[0].children[1].mesh, Some(0));
    assert_eq!(s.nodes[1].mesh, Some(1));
    assert_eq!(s.nodes[1].children[0].mesh, None);
    assert_eq!(s.nodes[1].children[0].children[0].mesh, Some(0));
}

#[test]
fn meshes_that_no_node_names_are_not_built() {
    let d = Document {
        meshes: vec![mesh_of(1), broken_mesh(), mesh_of(1)],
        nodes: vec![plain(Some(2), Vec::new()), plain(None, Vec::new())],
    };
    let s = Scene::build(&d).unwrap();
    assert_eq!(s.meshes.len(), 1);
    assert_eq!(s.meshes[0].index, 2);
    assert_eq!(s.nodes[0].mesh, Some(0));
    assert_eq!(s.nodes[1].mesh, None);
}

#[test]
fn empty_document_gives_an_empty_scene() {
    let s = Scene::build(&Document { meshes: Vec::new(), nodes: Vec::new() }).unwrap();
    assert!(s.meshes.is_empty());
    assert!(s.nodes.is_empty());
    assert!(s.draw(&Vec::new()).is_empty());
    let s = Scene::new();
    assert!(s.meshes.is_empty());
    assert!(s.nodes.is_empty());
}

#[test]
fn node_fields_are_carried_over() {
    let mut m = [0u32; 16];
    for i in 0..16 {
        m[i] = bits(i as f32 + 1.0);
    }
    let g = document::Node {
        matrix: m,
        translation: [bits(1.0), bits(2.0), bits(3.0)],
        rotation: [bits(1.0), bits(2.0), bits(3.0), bits(4.0)],
        scale: [bits(5.0), bits(6.0), bits(7.0)],
        mesh: None,
        children: vec![plain(None, Vec::new()), plain(None, Vec::new())],
        name: Some("root".to_string()),
    };
    let d = Document { meshes: Vec::new(), nodes: Vec::new() };
    let mut s = Scene::new();
    let n = Node::from_gltf(&g, &d, &mut s).unwrap();
    assert_eq!(n.matrix, Matrix4::from_array(m));
    assert_eq!(n.matrix.x.w, bits(4.0));
    assert_eq!(n.translation, Vector3 { x: bits(1.0), y: bits(2.0), z: bits(3.0) });
    assert_eq!(n.rotation, Quaternion { w: bits(4.0), x: bits(1.0), y: bits(2.0), z: bits(3.0) });
    assert_eq!(n.scale, Vector3 { x: bits(5.0), y: bits(6.0), z: bits(7.0) });
    assert_eq!(n.name, Some("root".to_string()));
    assert_eq!(n.mesh, None);
    assert_eq!(n.children.len(), 2);
    assert_eq!(n.children[0].name, None);
    assert!(s.meshes.is_empty());
    assert!(s.nodes.is_empty());
}

#[test]
fn node_reuses_a_mesh_that_the_scene_holds() {
    let d = Document { meshes: vec![mesh_of(1), mesh_of(1), mesh_of(3)], nodes: Vec::new() };
    let mut s = Scene::new();
    let a = Node::from_gltf(&plain(Some(2), Vec::new()), &d, &mut s).unwrap();
    let b = Node::from_gltf(&plain(Some(0), Vec::new()), &d, &mut s).unwrap();
    let c = Node::from_gltf(&plain(Some(2), vec![plain(Some(0), Vec::new())]), &d, &mut s).unwrap();
    assert_eq!(a.mesh, Some(0));
    assert_eq!(b.mesh, Some(1));
    assert_eq!(c.mesh, Some(0));
    assert_eq!(c.children[0].mesh, Some(1));
    assert_eq!(s.meshes.len(), 2);
    assert_eq!(s.meshes[0].index, 2);
    assert_eq!(s.meshes[0].primitives.len(), 3);
    assert_eq!(s.meshes[1].index, 0);
}

#[test]
fn mesh_lookup_by_index_and_by_position() {
    let d = Document { meshes: vec![mesh_of(1), mesh_of(1), mesh_of(1)], nodes: Vec::new() };
    let mut s = Scene::new();
    assert_eq!(s.find_mesh(1), None);
    assert_eq!(s.resolve_mesh(1, &d), Ok(0));
    assert_eq!(s.resolve_mesh(2, &d), Ok(1));
    assert_eq!(s.resolve_mesh(1, &d), Ok(0));
    assert_eq!(s.find_mesh(1), Some(0));
    assert_eq!(s.find_mesh(2), Some(1));
    assert_eq!(s.find_mesh(0), None);
    assert_eq!(s.mesh(1).map(|m| m.index), Some(2));
    assert_eq!(s.mesh(2).map(|m| m.index), None);
    assert_eq!(s.resolve_mesh(3, &d), Err(ParseError::UnknownMesh));
    assert_eq!(s.meshes.len(), 2);
}

#[test]
fn node_that_names_a_missing_mesh_is_refused() {
    let d = Document { meshes: vec![mesh_of(1)], nodes: vec![plain(Some(1), Vec::new())] };
    assert_eq!(Scene::build(&d), Err(ParseError::UnknownMesh));
}

#[test]
fn build_fails_with_the_first_failure_in_document_order() {
    let mut no_indices = triangle();
    no_indices.indices = None;
    let d = Document {
        meshes: vec![mesh_of(1), broken_mesh(), document::Mesh { primitives: vec![no_indices] }],
        nodes: vec![
            plain(Some(0), vec![plain(None, vec![plain(Some(2), Vec::new())])]),
            plain(Some(1), Vec::new()),
        ],
    };
    assert_eq!(Scene::build(&d), Err(ParseError::MissingIndices));
    let d = Document {
        meshes: vec![mesh_of(1), broken_mesh()],
        nodes: vec![plain(Some(1), vec![plain(Some(7), Vec::new())])],
    };
    assert_eq!(Scene::build(&d), Err(ParseError::MissingNormals));
}

#[test]
fn failed_node_leaves_the_meshes_built_so_far() {
    let d = Document { meshes: vec![mesh_of(1), broken_mesh()], nodes: Vec::new() };
    let mut s = Scene::new();
    let g = plain(Some(0), vec![plain(Some(1), Vec::new()), plain(Some(0), Vec::new())]);
    assert_eq!(Node::from_gltf(&g, &d, &mut s), Err(ParseError::MissingNormals));
    assert_eq!(s.meshes.len(), 1);
    assert_eq!(s.meshes[0].index, 0);
    assert!(s.nodes.is_empty());
}

#[test]
fn matrix_other_than_identity_is_used_alone() {
    let mut g = moved(None, 1.0, 2.0, 3.0, Vec::new());
    g.matrix[12] = bits(5.0);
    g.scale = [bits(2.0); 3];
    let d = Document { meshes: Vec::new(), nodes: Vec::new() };
    let n = Node::from_gltf(&g, &d, &mut Scene::new()).unwrap();
    assert_eq!(n.local_transform(), vec![Factor::Matrix(Matrix4::from_array(g.matrix))]);
}

#[test]
fn identity_matrix_gives_translation_scale_rotation() {
    let mut g = moved(None, 1.0, 2.0, 3.0, Vec::new());
    g.scale = [bits(2.0), bits(3.0), bits(4.0)];
    g.rotation = [bits(0.0), bits(1.0), bits(0.0), bits(0.0)];
    let d = Document { meshes: Vec::new(), nodes: Vec::new() };
    let n = Node::from_gltf(&g, &d, &mut Scene::new()).unwrap();
    assert_eq!(
        n.local_transform(),
        vec![
            translation(1.0, 2.0, 3.0),
            Factor::Scale(Vector3 { x: bits(2.0), y: bits(3.0), z: bits(4.0) }),
            Factor::Rotation(Quaternion { w: bits(0.0), x: bits(0.0), y: bits(1.0), z: bits(0.0) }),
        ]
    );
}

#[test]
fn child_transform_is_composed_after_the_parent() {
    let d = Document {
        meshes: vec![mesh_of(1)],
        nodes: vec![plain(Some(0), vec![moved(Some(0), 1.0, 0.0, 0.0, Vec::new())])],
    };
    let s = Scene::build(&d).unwrap();
    assert_eq!(s.meshes.len(), 1);
    let a = &s.nodes[0];
    let b = &a.children[0];
    assert_eq!(a.mesh, Some(0));
    assert_eq!(b.mesh, a.mesh);
    let calls = s.draw(&Vec::new());
    assert_eq!(calls.len(), 2);
    assert_eq!(calls[0].mesh, 0);
    assert_eq!(calls[0].model, vec![translation(0.0, 0.0, 0.0), unit_scale(), no_rotation()]);
    assert_eq!(calls[1].mesh, 0);
    assert_eq!(
        calls[1].model,
        vec![
            translation(0.0, 0.0, 0.0),
            unit_scale(),
            no_rotation(),
            translation(1.0, 0.0, 0.0),
            unit_scale(),
            no_rotation(),
        ]
    );
    assert_eq!(model_matrix(&calls[0]), unit());
    assert_eq!(model_matrix(&calls[1])[3], [1.0, 0.0, 0.0, 1.0]);
}

#[test]
fn child_of_a_moved_parent_moves_with_it() {
    let mut parent = moved(Some(0), 5.0, 5.0, 5.0, vec![moved(Some(0), 1.0, 0.0, 0.0, Vec::new())]);
    parent.matrix[12] = bits(10.0);
    let d = Document { meshes: vec![mesh_of(1)], nodes: vec![parent] };
    let s = Scene::build(&d).unwrap();
    let calls = s.nodes[0].draw(&vec![translation(0.0, 0.0, 2.0)]);
    assert_eq!(calls.len(), 2);
    assert_eq!(
        calls[0].model,
        vec![translation(0.0, 0.0, 2.0), Factor::Matrix(s.nodes[0].matrix)]
    );
    assert_eq!(
        calls[1].model,
        vec![
            translation(0.0, 0.0, 2.0),
            Factor::Matrix(s.nodes[0].matrix),
            translation(1.0, 0.0, 0.0),
            unit_scale(),
            no_rotation(),
        ]
    );
    assert_eq!(model_matrix(&calls[0])[3], [10.0, 0.0, 2.0, 1.0]);
    assert_eq!(model_matrix(&calls[1])[3], [11.0, 0.0, 2.0, 1.0]);
}

#[test]
fn draw_visits_parents_first_and_siblings_in_order() {
    let d = Document {
        meshes: vec![mesh_of(1), mesh_of(1), mesh_of(1), mesh_of(1)],
        nodes: vec![
            moved(
                Some(0),
                1.0,
                0.0,
                0.0,
                vec![
                    moved(Some(1), 2.0, 0.0, 0.0, vec![moved(Some(2), 3.0, 0.0, 0.0, Vec::new())]),
                    moved(None, 4.0, 0.0, 0.0, vec![moved(Some(3), 5.0, 0.0, 0.0, Vec::new())]),
                ],
            ),
            moved(Some(2), 6.0, 0.0, 0.0, Vec::new()),
        ],
    };
    let s = Scene::build(&d).unwrap();
    let calls = s.draw(&Vec::new());
    let meshes: Vec<usize> = calls.iter().map(|c| c.mesh).collect();
    assert_eq!(meshes, vec![0, 1, 2, 3, 2]);
    let reach: Vec<f32> = calls.iter().map(|c| model_matrix(c)[3][0]).collect();
    assert_eq!(reach, vec![1.0, 3.0, 6.0, 10.0, 6.0]);
    let lengths: Vec<usize> = calls.iter().map(|c| c.model.len()).collect();
    assert_eq!(lengths, vec![3, 6, 9, 9, 3]);
}

#[test]
fn node_without_mesh_draws_nothing_itself() {
    let d = Document { meshes: Vec::new(), nodes: vec![plain(None, vec![plain(None, Vec::new())])] };
    let s = Scene::build(&d).unwrap();
    assert!(s.draw(&Vec::new()).is_empty());
    assert!(s.nodes[0].draw(&Vec::new()).is_empty());
}

#[test]
fn draw_into_appends() {
    let d = Document { meshes: vec![mesh_of(1)], nodes: vec![plain(Some(0), Vec::new())] };
    let s = Scene::build(&d).unwrap();
    let mut calls = vec![DrawCall { mesh: 9, model: Vec::new() }];
    s.nodes[0].draw_into(&Vec::new(), &mut calls);
    assert_eq!(calls.len(), 2);
    assert_eq!(calls[0], DrawCall { mesh: 9, model: Vec::new() });
    assert_eq!(calls[1].mesh, 0);
}

#[test]
fn model_matrix_goes_to_the_uniform_called_model() {
    assert_eq!(model_uniform(), "model");
}

#[test]
fn document_node_given_as_matrix_has_default_parts() {
    let mut m = identity();
    m[13] = bits(3.0);
    let g = document::Node::new(Transform::Matrix(m), Some(2), Vec::new(), Some("a".to_string()));
    assert_eq!(g.matrix, m);
    assert_eq!(g.translation, [bits(0.0); 3]);
    assert_eq!(g.rotation, [bits(0.0), bits(0.0), bits(0.0), bits(1.0)]);
    assert_eq!(g.scale, [bits(1.0); 3]);
    assert_eq!(g.mesh, Some(2));
    assert!(g.children.is_empty());
    assert_eq!(g.name, Some("a".to_string()));
}

#[test]
fn document_node_given_in_parts_has_the_identity_matrix() {
    let parts = Transform::Decomposed {
        translation: [bits(1.0), bits(2.0), bits(3.0)],
        rotation: [bits(0.5), bits(0.5), bits(0.5), bits(0.5)],
        scale: [bits(2.0); 3],
    };
    let g = document::Node::new(parts, None, vec![plain(None, Vec::new())], None);
    assert_eq!(g.matrix, identity());
    assert_eq!(g.translation, [bits(1.0), bits(2.0), bits(3.0)]);
    assert_eq!(g.rotation, [bits(0.5); 4]);
    assert_eq!(g.scale, [bits(2.0); 3]);
    assert_eq!(g.mesh, None);
    assert_eq!(g.children.len(), 1);
    let d = Document { meshes: Vec::new(), nodes: Vec::new() };
    let n = Node::from_gltf(&g, &d, &mut Scene::new()).unwrap();
    assert_eq!(
        n.local_transform(),
        vec![
            translation(1.0, 2.0, 3.0),
            Factor::Scale(Vector3 { x: bits(2.0), y: bits(2.0), z: bits(2.0) }),
            Factor::Rotation(Quaternion { w: bits(0.5), x: bits(0.5), y: bits(0.5), z: bits(0.5) }),
        ]
    );
}
