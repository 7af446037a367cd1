pub mod names;
pub mod graph;
pub mod material;
pub mod collision;
pub mod skin;
pub mod primitive;
pub mod gltf_file;

use vstd::prelude::*;

verus! {

/// The material a primitive refers to, if it refers to one.
pub fn get_material<T>(materials: &Vec<T>, material: Option<usize>) -> (r: Option<&T>)
    requires
        material matches Some(m) ==> m < materials@.len(),
    ensures
        material is None ==> r is None,
        material matches Some(m) ==> r == Some(&materials@[m as int]),
{
    match material {
        Some(m) => Some(&materials[m]),
        None => None,
    }
}

} // verus!
