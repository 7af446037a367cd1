use dungeon_crawler::config::{time_step, MAX_JOINT_COUNT};
use dungeon_crawler::engine::lights::{fill_light_slots, MAX_LIGHTS};
use dungeon_crawler::engine::ModelInstance;
use std::time::Duration;

fn is_v4_uuid(s: &str) -> bool {
    let b: Vec<char> = s.chars().collect();
    b.len() == 36
        && b.iter().enumerate().all(|(i, c)| {
            if i == 8 || i == 13 || i == 18 || i == 23 {
                *c == '-'
            } else {
                c.is_ascii_digit() || ('a'..='f').contains(c)
            }
        })
        && b[14] == '4'
        && "89ab".contains(b[19])
}

#[test]
fn time_step_is_fiftieth_of_a_second() {
    assert_eq!(time_step(), Duration::from_millis(20));
    assert_eq!(time_step(), Duration::from_secs_f32(1.0 / 50.0));
    assert_eq!(MAX_JOINT_COUNT, 20);
}

#[test]
fn model_instances_get_distinct_uuid_keys() {
    let a = ModelInstance::new("model a", vec![1, 2]);
    let b = ModelInstance::new("model b", vec![3]);
    assert!(is_v4_uuid(&a.key));
    assert!(is_v4_uuid(&b.key));
    assert_ne!(a.key, b.key);
    assert_eq!(a.model, "model a");
    assert_eq!(a.nodes, vec![1, 2]);
}

#[test]
fn light_slots_fill_in_order() {
    let (count, slots) = fill_light_slots(&vec![5, 6, 7], 0);
    assert_eq!(count, 3);
    assert_eq!(slots.len(), MAX_LIGHTS);
    assert_eq!(&slots[..4], &[5, 6, 7, 0]);
    assert!(slots[3..].iter().all(|s| *s == 0));
}

#[test]
fn light_slots_truncate_but_count_all() {
    let visible: Vec<u32> = (0..40).collect();
    let (count, slots) = fill_light_slots(&visible, 99);
    assert_eq!(count, 40);
    assert_eq!(slots, (0..32).collect::<Vec<u32>>());
}
