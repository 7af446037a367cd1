use dungeon_crawler::model::gltf_file::{load_model_plan, plan_model, GltfOutline, ModelError, ModelPlan};
use dungeon_crawler::ui::utils::load_image;

fn names(v: &[Option<&str>]) -> Vec<Option<String>> {
    v.iter().map(|n| n.map(|s| s.to_string())).collect()
}

fn outline(mesh_names: &[Option<&str>]) -> GltfOutline {
    GltfOutline {
        node_children: vec![vec![1, 2], vec![], vec![3], vec![]],
        scene_roots: Some(vec![0]),
        skin_joints: vec![vec![1, 2]],
        node_lights: vec![false, true, false, true],
        mesh_names: names(mesh_names),
    }
}

fn planned(o: &GltfOutline) -> ModelPlan {
    match plan_model(o) {
        Ok(p) => p,
        Err(e) => panic!("unexpected error {:?}", e),
    }
}

#[test]
fn plan_orders_transforms_depth_first() {
    let p = planned(&outline(&[]));
    assert_eq!(p.transform_order, vec![(0, None), (1, Some(0)), (2, Some(0)), (3, Some(2))]);
}

#[test]
fn plan_lists_light_nodes() {
    let p = planned(&outline(&[]));
    assert_eq!(p.light_nodes, vec![1, 3]);
}

#[test]
fn plan_sorts_meshes_by_role() {
    let p = planned(&outline(&[
        Some("wall_col"),
        Some("torch_emit.001"),
        Some("wall_col.002"),
        Some("door_place"),
        Some("floor"),
        Some("pillar_col"),
        Some("brazier_emit"),
        None,
    ]));
    assert_eq!(p.emitter_meshes, vec![1, 6]);
    assert_eq!(p.placeholder_meshes, vec![3]);
    assert_eq!(p.collision_keys, vec!["wall".to_string(), "pillar".to_string()]);
    assert_eq!(p.collision_meshes, vec![vec![0, 2], vec![5]]);
}

#[test]
fn plan_rejects_too_many_joints() {
    let mut o = outline(&[]);
    o.skin_joints = vec![vec![0; 20], vec![0; 21], vec![0; 30]];
    assert_eq!(plan_model(&o).unwrap_err(), ModelError::TooManyJoints { skin: 1, count: 21 });
}

#[test]
fn plan_checks_joints_before_scene() {
    let mut o = outline(&[]);
    o.scene_roots = None;
    o.skin_joints = vec![vec![0; 25]];
    assert_eq!(plan_model(&o).unwrap_err(), ModelError::TooManyJoints { skin: 0, count: 25 });
}

#[test]
fn plan_needs_default_scene() {
    let mut o = outline(&[]);
    o.scene_roots = None;
    assert_eq!(plan_model(&o).unwrap_err(), ModelError::NoDefaultScene);
}

#[test]
fn plan_needs_a_forest() {
    let mut o = outline(&[]);
    o.node_children = vec![vec![1], vec![0]];
    assert_eq!(plan_model(&o).unwrap_err(), ModelError::NotAForest);
    o.node_children = vec![vec![5]];
    assert_eq!(plan_model(&o).unwrap_err(), ModelError::NotAForest);
}

#[test]
fn plan_rejects_unnamed_mesh_before_named() {
    let o = outline(&[Some("a"), None, Some("b")]);
    assert_eq!(plan_model(&o).unwrap_err(), ModelError::UnnamedMeshBeforeNamed);
    let p = planned(&outline(&[Some("a_emit"), None, None]));
    assert_eq!(p.emitter_meshes, vec![0]);
}

#[test]
fn load_plan_refuses_non_gltf_bytes() {
    assert_eq!(load_model_plan(b"not a model").unwrap_err(), ModelError::ImportFailed);
}

const SCENE: &str = r#"{
  "asset": {"version": "2.0"},
  "scene": 0,
  "scenes": [{"nodes": [0, 3]}],
  "nodes": [{"children": [1, 2]}, {}, {"mesh": 0}, {}],
  "buffers": [{"byteLength": 12, "uri": "data:application/octet-stream;base64,AAAAAAAAAAAAAAAA"}],
  "bufferViews": [{"buffer": 0, "byteLength": 12}],
  "accessors": [{"bufferView": 0, "componentType": 5126, "count": 1, "type": "VEC3", "min": [0, 0, 0], "max": [0, 0, 0]}],
  "meshes": [{"name": "torch_emit", "primitives": [{"attributes": {"POSITION": 0}}]}],
  "skins": [{"joints": [1, 2]}]
}"#;

#[test]
fn load_plan_reads_a_gltf_file() {
    let (o, p) = load_model_plan(SCENE.as_bytes()).unwrap();
    assert_eq!(o.node_children, vec![vec![1, 2], vec![], vec![], vec![]]);
    assert_eq!(o.scene_roots, Some(vec![0, 3]));
    assert_eq!(o.skin_joints, vec![vec![1, 2]]);
    assert_eq!(o.mesh_names, vec![Some("torch_emit".to_string())]);
    assert_eq!(p.transform_order, vec![(0, None), (1, Some(0)), (2, Some(0)), (3, None)]);
    assert_eq!(p.emitter_meshes, vec![0]);
    assert!(p.light_nodes.is_empty());
}

#[test]
fn load_plan_needs_a_default_scene() {
    let text = SCENE.replace("\"scene\": 0,", "");
    assert_eq!(load_model_plan(text.as_bytes()).unwrap_err(), ModelError::NoDefaultScene);
}

#[test]
fn load_image_refuses_non_image_bytes() {
    assert!(load_image(b"definitely not a png").is_none());
}

#[test]
fn load_image_decodes_png_to_rgba() {
    let source = image::RgbImage::from_raw(2, 1, vec![10, 20, 30, 40, 50, 60]).unwrap();
    let mut png: Vec<u8> = Vec::new();
    source.write_to(&mut std::io::Cursor::new(&mut png), image::ImageFormat::Png).unwrap();
    let (pixels, width, height) = load_image(&png).unwrap();
    assert_eq!((width, height), (2, 1));
    assert_eq!(pixels, vec![10, 20, 30, 255, 40, 50, 60, 255]);
}

#[test]
fn load_plan_resolves_no_buffer_uri() {
    let text = SCENE.replace("data:application/octet-stream;base64,AAAAAAAAAAAAAAAA", "%FF.bin");
    let (o, p) = load_model_plan(text.as_bytes()).unwrap();
    assert_eq!(o.mesh_names, vec![Some("torch_emit".to_string())]);
    assert_eq!(p.emitter_meshes, vec![0]);
}

#[test]
fn load_plan_refuses_attribute_without_accessor() {
    let text = SCENE.replace("\"POSITION\": 0", "\"POSITION\": 7");
    assert_eq!(load_model_plan(text.as_bytes()).unwrap_err(), ModelError::ImportFailed);
}

#[test]
fn load_plan_refuses_binary_header_shorter_than_itself() {
    let mut bytes: Vec<u8> = b"glTF".to_vec();
    bytes.extend_from_slice(&[2, 0, 0, 0, 4, 0, 0, 0]);
    bytes.extend_from_slice(&[0; 8]);
    assert_eq!(load_model_plan(&bytes).unwrap_err(), ModelError::ImportFailed);
    assert_eq!(load_model_plan(b"glTF").unwrap_err(), ModelError::ImportFailed);
}
