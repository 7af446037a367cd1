use vstd::prelude::*;

verus! {

/// Groups an indexed triangle list into one three-point outline per
/// triangle, looking each index up in `positions`.
pub fn group_triangles<T: Copy>(positions: &Vec<T>, indices: &Vec<u32>) -> (polygons: Vec<Vec<T>>)
    requires
        indices@.len() % 3 == 0,
        forall|k: int| 0 <= k < indices@.len() ==> (#[trigger] indices@[k]) < positions@.len(),
    ensures
        polygons@.len() == indices@.len() / 3,
        forall|t: int| 0 <= t < polygons@.len() ==> (#[trigger] polygons@[t])@ == seq![
            positions@[indices@[3 * t] as int],
            positions@[indices@[3 * t + 1] as int],
            positions@[indices@[3 * t + 2] as int],
        ],
{
    let mut polygons: Vec<Vec<T>> = Vec::new();
    let mut i: usize = 0;
    while i < indices.len()
        invariant
            indices@.len() % 3 == 0,
            forall|k: int| 0 <= k < indices@.len() ==> (#[trigger] indices@[k]) < positions@.len(),
            i % 3 == 0,
            i <= indices@.len(),
            polygons@.len() == i / 3,
            forall|t: int| 0 <= t < polygons@.len() ==> (#[trigger] polygons@[t])@ == seq![
                positions@[indices@[3 * t] as int],
                positions@[indices@[3 * t + 1] as int],
                positions@[indices@[3 * t + 2] as int],
            ],
        decreases indices@.len() - i,
    {
        let a = positions[indices[i] as usize];
        let b = positions[indices[i + 1] as usize];
        let c = positions[indices[i + 2] as usize];
        let triangle: Vec<T> = vec![a, b, c];
        polygons.push(triangle);
        assert(3 * (i / 3) == i);
        i = i + 3;
    }
    polygons
}

} // verus!
