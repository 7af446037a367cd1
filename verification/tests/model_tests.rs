use dungeon_crawler::model::collision::group_triangles;
use dungeon_crawler::model::get_material;
use dungeon_crawler::model::graph::{build_graph_run_indices, is_node_forest, try_build_graph_run_indices};
use dungeon_crawler::model::material::rgba_pixels;
use dungeon_crawler::model::names::{
    collision_key, get_emitters, get_mesh_by_name, get_placeholders, has_word, mesh_roles, mesh_words, MeshRoles,
};
use dungeon_crawler::model::primitive::vertex_joints;
use dungeon_crawler::model::skin::Skin;

fn strings(v: &[&str]) -> Vec<String> {
    v.iter().map(|s| s.to_string()).collect()
}

#[test]
fn graph_run_order_is_depth_first() {
    // 0 -> [1, 2], 1 -> [3], 2 -> [], 3 -> [], 4 -> [0]? no: 4 is a second root
    let children = vec![vec![1, 2], vec![3], vec![], vec![], vec![]];
    let order = build_graph_run_indices(&[0, 4], &children);
    assert_eq!(order, vec![(0, None), (1, Some(0)), (3, Some(1)), (2, Some(0)), (4, None)]);
}

#[test]
fn graph_run_order_parents_first() {
    let children = vec![vec![3], vec![], vec![1, 0], vec![]];
    let order = build_graph_run_indices(&[2], &children);
    assert_eq!(order, vec![(2, None), (1, Some(2)), (0, Some(2)), (3, Some(0))]);
    for (k, (node, parent)) in order.iter().enumerate() {
        if let Some(p) = parent {
            let j = order.iter().position(|(n, _)| n == p).unwrap();
            assert!(j < k);
            assert!(children[*p].contains(node));
        }
    }
}

#[test]
fn graph_run_order_empty() {
    let children: Vec<Vec<usize>> = vec![vec![]];
    assert_eq!(build_graph_run_indices(&[], &children), vec![]);
}

#[test]
fn mesh_words_split_on_underscore_and_dot() {
    assert_eq!(mesh_words("wall_col.001"), strings(&["wall", "col", "001"]));
    assert_eq!(mesh_words("plain"), strings(&["plain"]));
    assert_eq!(mesh_words(""), strings(&[""]));
    assert_eq!(mesh_words("a__b."), strings(&["a", "", "b", ""]));
}

#[test]
fn mesh_roles_from_name() {
    assert_eq!(mesh_roles("wall_col"), MeshRoles { collision: true, emitter: false, placeholder: false });
    assert_eq!(mesh_roles("torch_emit.001"), MeshRoles { collision: false, emitter: true, placeholder: false });
    assert_eq!(mesh_roles("chest_place"), MeshRoles { collision: false, emitter: false, placeholder: true });
    assert_eq!(mesh_roles("collider"), MeshRoles { collision: false, emitter: false, placeholder: false });
    assert!(has_word("a.emit_col", "col"));
    assert!(!has_word("colx", "col"));
}

#[test]
fn collision_key_is_first_part() {
    assert_eq!(collision_key("tile-catacombs-1000_col"), "tile-catacombs-1000");
    assert_eq!(collision_key("wall.col"), "wall.col");
    assert_eq!(collision_key("_col"), "");
}

#[test]
fn mesh_lookup_by_name() {
    let names = strings(&["floor", "wall", "wall"]);
    assert_eq!(get_mesh_by_name(&names, "wall"), Some(1));
    assert_eq!(get_mesh_by_name(&names, "floor"), Some(0));
    assert_eq!(get_mesh_by_name(&names, "roof"), None);
}

#[test]
fn emitters_by_word() {
    let names = strings(&["torch_emit", "torchlight_emit", "brazier_emit.torch", "torch"]);
    assert_eq!(get_emitters(&names, "torch"), vec![0, 2, 3]);
    assert_eq!(get_emitters(&names, "emit"), vec![0, 1, 2]);
    assert_eq!(get_emitters(&names, "barrel"), Vec::<usize>::new());
}

#[test]
fn placeholders_by_substring() {
    let names = strings(&["door_place", "doorway_place", "chest_place"]);
    assert_eq!(get_placeholders(&names, "door"), vec![0, 1]);
    assert_eq!(get_placeholders(&names, ""), vec![0, 1, 2]);
    assert_eq!(get_placeholders(&names, "window"), Vec::<usize>::new());
}

#[test]
fn rgba_pads_three_channels() {
    let rgb = vec![1, 2, 3, 4, 5, 6];
    assert_eq!(rgba_pixels(&rgb, 2, 1), vec![1, 2, 3, 255, 4, 5, 6, 255]);
}

#[test]
fn rgba_pads_one_channel() {
    let grey = vec![10, 20, 30, 40];
    assert_eq!(
        rgba_pixels(&grey, 2, 2),
        vec![10, 255, 255, 255, 20, 255, 255, 255, 30, 255, 255, 255, 40, 255, 255, 255]
    );
}

#[test]
fn rgba_keeps_four_channels() {
    let rgba = vec![1, 2, 3, 4, 5, 6, 7, 8];
    assert_eq!(rgba_pixels(&rgba, 1, 2), rgba);
}

#[test]
fn rgba_pads_partial_last_chunk() {
    // 7 bytes for 2 pixels gives 3 channels; the leftover byte forms a short chunk
    let bytes = vec![1, 2, 3, 4, 5, 6, 7];
    assert_eq!(rgba_pixels(&bytes, 2, 1), vec![1, 2, 3, 255, 4, 5, 6, 255, 7, 255]);
}

#[test]
fn triangles_from_indices() {
    let positions = vec![(0, 0), (1, 0), (0, 1), (1, 1)];
    let indices = vec![0, 1, 2, 2, 1, 3];
    assert_eq!(
        group_triangles(&positions, &indices),
        vec![vec![(0, 0), (1, 0), (0, 1)], vec![(0, 1), (1, 0), (1, 1)]]
    );
    assert_eq!(group_triangles(&positions, &vec![]), Vec::<Vec<(i32, i32)>>::new());
}

#[test]
fn skin_pairs_matrices_with_nodes() {
    let skin = Skin::new(&vec!['a', 'b', 'c'], &vec![4, 7, 9]);
    assert_eq!(skin.joints.len(), 3);
    assert_eq!(skin.joints[1].inverse_bind_matrix, 'b');
    assert_eq!(skin.joints[1].node_id, 7);
    let short = Skin::new(&vec![1u8], &vec![5, 6]);
    assert_eq!(short.joints.len(), 1);
    assert_eq!(short.joints[0].node_id, 5);
}

#[test]
fn joints_widened_when_animated() {
    let read = vec![[1u16, 2, 3, 65535]];
    assert_eq!(vertex_joints(Some(&read), true, 5), vec![[1u32, 2, 3, 65535]]);
    assert_eq!(vertex_joints(Some(&read), false, 2), vec![[0u32; 4]; 2]);
    assert_eq!(vertex_joints(None, true, 3), vec![[0u32; 4]; 3]);
}

#[test]
fn material_lookup() {
    let materials = vec!["stone", "wood"];
    assert_eq!(get_material(&materials, Some(1)), Some(&"wood"));
    assert_eq!(get_material(&materials, None), None);
}

#[test]
fn forest_check_rejects_cycles_and_bad_indices() {
    let tree = vec![vec![1], vec![2], vec![]];
    assert!(is_node_forest(&[0], &tree));
    assert_eq!(try_build_graph_run_indices(&[0], &tree), Some(vec![(0, None), (1, Some(0)), (2, Some(1))]));
    let cycle = vec![vec![1], vec![0]];
    assert!(!is_node_forest(&[0], &cycle));
    assert_eq!(try_build_graph_run_indices(&[0], &cycle), None);
    let dangling = vec![vec![5]];
    assert!(!is_node_forest(&[0], &dangling));
    assert!(!is_node_forest(&[3], &tree));
    assert!(is_node_forest(&[], &cycle));
}
