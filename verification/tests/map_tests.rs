use dungeon_crawler::map::decor::{decor_lights, decor_parts, decor_source, pick_variant, tile_suffix};
use dungeon_crawler::map::edit_mode;
use dungeon_crawler::map::grid::{grid_coordinates, plan_map, TilePlan};
use dungeon_crawler::map::layout::{determine_block, determine_tile, TileKind};
use dungeon_crawler::map::tile::{TileState, TileStep};
use rand::rngs::StdRng;
use rand::SeedableRng;

fn rotate(p: [bool; 4], q: usize) -> [bool; 4] {
    let mut r = [false; 4];
    for i in 0..4 {
        r[i] = p[(i + 4 - q) % 4];
    }
    r
}

fn pattern(k: TileKind) -> [bool; 4] {
    match k {
        TileKind::DeadEnd => [true, false, false, false],
        TileKind::Corner => [true, true, false, false],
        TileKind::Straight => [true, false, true, false],
        TileKind::Junction => [true, true, true, false],
        TileKind::Crossing => [true, true, true, true],
        TileKind::Empty => [false, false, false, false],
    }
}

#[test]
fn determine_tile_table() {
    assert_eq!(determine_tile(&[true, false, false, false]), (TileKind::DeadEnd, 0));
    assert_eq!(determine_tile(&[false, true, false, false]), (TileKind::DeadEnd, 90));
    assert_eq!(determine_tile(&[false, false, true, false]), (TileKind::DeadEnd, 180));
    assert_eq!(determine_tile(&[false, false, false, true]), (TileKind::DeadEnd, 270));
    assert_eq!(determine_tile(&[true, true, false, false]), (TileKind::Corner, 0));
    assert_eq!(determine_tile(&[false, true, true, false]), (TileKind::Corner, 90));
    assert_eq!(determine_tile(&[false, false, true, true]), (TileKind::Corner, 180));
    assert_eq!(determine_tile(&[true, false, false, true]), (TileKind::Corner, 270));
    assert_eq!(determine_tile(&[true, false, true, false]), (TileKind::Straight, 0));
    assert_eq!(determine_tile(&[false, true, false, true]), (TileKind::Straight, 90));
    assert_eq!(determine_tile(&[true, true, true, false]), (TileKind::Junction, 0));
    assert_eq!(determine_tile(&[false, true, true, true]), (TileKind::Junction, 90));
    assert_eq!(determine_tile(&[true, false, true, true]), (TileKind::Junction, 180));
    assert_eq!(determine_tile(&[true, true, false, true]), (TileKind::Junction, 270));
    assert_eq!(determine_tile(&[true, true, true, true]), (TileKind::Crossing, 0));
    assert_eq!(determine_tile(&[false, false, false, false]), (TileKind::Empty, 0));
}

#[test]
fn determine_tile_rotation_reproduces_entrances() {
    for bits in 0..16u32 {
        let e = [bits & 8 != 0, bits & 4 != 0, bits & 2 != 0, bits & 1 != 0];
        let (kind, rotation) = determine_tile(&e);
        assert_eq!(rotation % 90, 0);
        assert!(rotation < 360);
        assert_eq!(rotate(pattern(kind), (rotation / 90) as usize), e);
    }
}

#[test]
fn tile_model_names() {
    assert_eq!(TileKind::DeadEnd.tile_model(), "tile-catacombs-1000");
    assert_eq!(TileKind::Corner.tile_model(), "tile-catacombs-1100");
    assert_eq!(TileKind::Straight.tile_model(), "tile-catacombs-1010");
    assert_eq!(TileKind::Junction.tile_model(), "tile-catacombs-1110");
    assert_eq!(TileKind::Crossing.tile_model(), "tile-catacombs-1111");
    assert_eq!(TileKind::Empty.tile_model(), "tile-empty");
    assert_eq!(TileKind::Junction.block_model(), "Room1110-1");
    assert_eq!(TileKind::Empty.block_model(), "Room1111-1");
}

#[test]
fn determine_block_table() {
    assert_eq!(determine_block(&vec![false, true, false, false]), (TileKind::DeadEnd, 90));
    assert_eq!(determine_block(&vec![true, false, false, true]), (TileKind::Corner, 270));
    assert_eq!(determine_block(&vec![false, true, false, true]), (TileKind::Straight, 90));
    assert_eq!(determine_block(&vec![true, false, true, true]), (TileKind::Junction, 0));
    assert_eq!(determine_block(&vec![true, true, true, true]), (TileKind::Crossing, 0));
    assert_eq!(determine_block(&vec![false, false, false, false]), (TileKind::Crossing, 0));
    assert_eq!(determine_block(&vec![true, false, true]), (TileKind::Crossing, 0));
    assert_eq!(determine_block(&vec![]), (TileKind::Crossing, 0));
}

#[test]
fn tile_suffix_takes_last_part() {
    assert_eq!(tile_suffix("tile-catacombs-1100"), "1100");
    assert_eq!(tile_suffix("tile-empty"), "empty");
    assert_eq!(tile_suffix("plain"), "plain");
    assert_eq!(tile_suffix("ends-"), "");
}

#[test]
fn decor_source_paths() {
    assert_eq!(decor_source("catacombs/1100"), Some("tiles/catacombs/1100.json".to_string()));
    assert_eq!(decor_source("edit"), Some("tiles/edit.json".to_string()));
    assert_eq!(decor_source("catacombs/empty"), None);
    assert_eq!(decor_source("tile-empty"), None);
}

#[test]
fn pick_variant_stays_in_range() {
    let mut rng = StdRng::seed_from_u64(7);
    assert_eq!(pick_variant(&mut rng, 0), None);
    for _ in 0..100 {
        let i = pick_variant(&mut rng, 3).unwrap();
        assert!(i < 3);
    }
    assert_eq!(pick_variant(&mut rng, 1), Some(0));
}

#[test]
fn pick_variant_depends_on_seed_only() {
    let mut a = StdRng::seed_from_u64(42);
    let mut b = StdRng::seed_from_u64(42);
    for _ in 0..20 {
        assert_eq!(pick_variant(&mut a, 5), pick_variant(&mut b, 5));
    }
}

#[test]
fn decor_lights_match_item_prefix() {
    let names = vec![
        "torch_light".to_string(),
        "torch2_light".to_string(),
        "wall_torch_a".to_string(),
        "torch".to_string(),
    ];
    assert_eq!(decor_lights(&names, "torch"), vec![0, 2]);
    assert_eq!(decor_lights(&names, "torch2"), vec![1]);
    assert_eq!(decor_lights(&names, "barrel"), Vec::<usize>::new());
}

#[test]
fn grid_coordinates_walk() {
    let cells = grid_coordinates(1);
    assert_eq!(cells, vec![(-1, -1), (-1, 0), (0, -1), (0, 0)]);
    assert_eq!(grid_coordinates(0), vec![]);
    let cells = grid_coordinates(3);
    assert_eq!(cells.len(), 36);
    assert_eq!(cells[0], (-3, -3));
    assert_eq!(cells[7], (-2, -2));
    assert_eq!(cells[35], (2, 2));
}

#[test]
fn grid_coordinates_cover_each_cell_once() {
    let g = 4usize;
    let cells = grid_coordinates(g);
    for tx in -(g as i32)..(g as i32) {
        for tz in -(g as i32)..(g as i32) {
            assert_eq!(cells.iter().filter(|c| **c == (tx, tz)).count(), 1);
        }
    }
}

#[test]
fn plan_map_uses_cells() {
    let generated = vec![
        vec![Some([true, false, false, false]), None],
        vec![Some([false, true, true, false]), Some([false, false, false, false])],
    ];
    let plans = plan_map(1, &generated);
    assert_eq!(
        plans,
        vec![
            TilePlan { x: -1, z: -1, kind: TileKind::DeadEnd, rotation: 0 },
            TilePlan { x: -1, z: 0, kind: TileKind::Empty, rotation: 0 },
            TilePlan { x: 0, z: -1, kind: TileKind::Corner, rotation: 90 },
            TilePlan { x: 0, z: 0, kind: TileKind::Empty, rotation: 0 },
        ]
    );
}

#[test]
fn edit_mode_reads_flag() {
    let args = |v: &[&str]| v.iter().map(|s| s.to_string()).collect::<Vec<String>>();
    assert_eq!(edit_mode(&args(&["game", "--edit", "tile-catacombs-1000"])), Some("tile-catacombs-1000".to_string()));
    assert_eq!(edit_mode(&args(&["game"])), None);
    assert_eq!(edit_mode(&args(&["game", "--edit"])), None);
    assert_eq!(edit_mode(&args(&["--edit", "a", "--edit", "b"])), Some("a".to_string()));
    assert_eq!(edit_mode(&args(&["game", "-edit", "a"])), None);
}

#[test]
fn tile_state_lifecycle() {
    let mut t: TileState<u32> = TileState::new();
    assert!(!t.is_active());
    assert_eq!(t.step(true), TileStep::Build);
    assert_eq!(t.step(false), TileStep::Keep);
    t.activate(vec![1, 2, 3]);
    assert!(t.is_active());
    assert_eq!(t.step(true), TileStep::Keep);
    assert_eq!(t.step(false), TileStep::Destroy);
    assert_eq!(t.take_entities(), Some(vec![1, 2, 3]));
    assert!(!t.is_active());
    assert_eq!(t.take_entities(), None);
}

#[test]
fn decor_parts_sorts_lights_and_emitters_by_item() {
    let decor = vec!["torch".to_string(), "brazier".to_string(), "barrel".to_string()];
    let lights = vec![
        "torch_light".to_string(),
        "brazier_light.001".to_string(),
        "torch_light.001".to_string(),
        "torchlight".to_string(),
    ];
    let emitters = vec!["torch_emit".to_string(), "brazier_emit.001".to_string(), "torches_emit".to_string()];
    let parts = decor_parts(&decor, &lights, &emitters);
    assert_eq!(parts.len(), 3);
    assert_eq!(parts[0].lights, vec![0, 2]);
    assert_eq!(parts[0].emitters, vec![0]);
    assert_eq!(parts[1].lights, vec![1]);
    assert_eq!(parts[1].emitters, vec![1]);
    assert!(parts[2].lights.is_empty());
    assert!(parts[2].emitters.is_empty());
}
