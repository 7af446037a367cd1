use vstd::prelude::*;

verus! {

/// Number of light slots the lighting pass reads.
pub const MAX_LIGHTS: usize = 32;

/// Fills the lighting pass's slots with the visible lights in order, up to
/// `MAX_LIGHTS` of them, leaving the other slots `empty`, and reports how
/// many lights were visible (taken as a 32-bit signed number).
pub fn fill_light_slots<T: Copy>(visible: &Vec<T>, empty: T) -> (r: (i32, Vec<T>))
    ensures
        r.0 == visible@.len() as i32,
        r.1@.len() == MAX_LIGHTS,
        forall|i: int| 0 <= i < MAX_LIGHTS ==>
            #[trigger] r.1@[i] == if i < visible@.len() { visible@[i] } else { empty },
{
    let mut slots: Vec<T> = Vec::new();
    let mut i: usize = 0;
    while i < MAX_LIGHTS
        invariant
            i <= MAX_LIGHTS,
            slots@.len() == i,
            forall|k: int| 0 <= k < i ==>
                #[trigger] slots@[k] == if k < visible@.len() { visible@[k] } else { empty },
        decreases MAX_LIGHTS - i,
    {
        if i < visible.len() {
            slots.push(visible[i]);
        } else {
            slots.push(empty);
        }
        i = i + 1;
    }
    (visible.len() as i32, slots)
}

} // verus!
