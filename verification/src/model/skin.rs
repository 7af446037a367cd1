use crate::config::MAX_JOINT_COUNT;
use vstd::prelude::*;

verus! {

/// A joint of a skin: the node it follows and the matrix that takes the mesh
/// into the joint's bind pose.
#[derive(Clone, Copy, Debug)]
pub struct Joint<M> {
    pub inverse_bind_matrix: M,
    pub node_id: usize,
}

/// The joints that deform a skinned mesh, in the skin's joint order.
#[derive(Clone, Debug)]
pub struct Skin<M> {
    pub joints: Vec<Joint<M>>,
}

impl<M: Copy> Skin<M> {
    /// Pairs each inverse bind matrix with the joint node of the same
    /// position; a skin may have at most `MAX_JOINT_COUNT` joints.
    pub fn new(inverse_bind_matrices: &Vec<M>, node_ids: &Vec<usize>) -> (skin: Self)
        requires
            node_ids@.len() <= MAX_JOINT_COUNT,
        ensures
            skin.joints@.len() == if inverse_bind_matrices@.len() < node_ids@.len() {
                inverse_bind_matrices@.len()
            } else {
                node_ids@.len()
            },
            forall|i: int| 0 <= i < skin.joints@.len() ==>
                (#[trigger] skin.joints@[i]).inverse_bind_matrix == inverse_bind_matrices@[i]
                && skin.joints@[i].node_id == node_ids@[i],
    {
        let n = if inverse_bind_matrices.len() < node_ids.len() {
            inverse_bind_matrices.len()
        } else {
            node_ids.len()
        };
        let mut joints: Vec<Joint<M>> = Vec::new();
        let mut i: usize = 0;
        while i < n
            invariant
                n <= inverse_bind_matrices@.len(),
                n <= node_ids@.len(),
                i <= n,
                joints@.len() == i,
                forall|k: int| 0 <= k < i ==>
                    (#[trigger] joints@[k]).inverse_bind_matrix == inverse_bind_matrices@[k]
                    && joints@[k].node_id == node_ids@[k],
            decreases n - i,
        {
            joints.push(Joint { inverse_bind_matrix: inverse_bind_matrices[i], node_id: node_ids[i] });
            i = i + 1;
        }
        Skin { joints }
    }
}

} // verus!
