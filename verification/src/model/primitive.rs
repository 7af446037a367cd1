use vstd::prelude::*;

verus! {

/// Joint indices of one vertex widened to 32 bits.
pub open spec fn widened(j: [u16; 4]) -> Seq<u32> {
    seq![j[0] as u32, j[1] as u32, j[2] as u32, j[3] as u32]
}

/// Joint indices of a primitive's vertices: the 16-bit indices read from the
/// file, widened, when the primitive is animated (has both joints and
/// weights); otherwise `vertex_count` sets of zeros.
pub fn vertex_joints(read_joints: Option<&Vec<[u16; 4]>>, has_weights: bool, vertex_count: usize) -> (joints: Vec<[u32; 4]>)
    ensures
        read_joints matches Some(r) ==> has_weights ==> {
            &&& joints@.len() == r@.len()
            &&& forall|i: int| 0 <= i < r@.len() ==> (#[trigger] joints@[i])@ == widened(r@[i])
        },
        !(read_joints is Some && has_weights) ==> {
            &&& joints@.len() == vertex_count
            &&& forall|i: int| 0 <= i < vertex_count ==> (#[trigger] joints@[i])@ == seq![0u32, 0u32, 0u32, 0u32]
        },
{
    match read_joints {
        Some(read) if has_weights => {
            let mut joints: Vec<[u32; 4]> = Vec::new();
            let mut i: usize = 0;
            while i < read.len()
                invariant
                    i <= read@.len(),
                    joints@.len() == i,
                    forall|k: int| 0 <= k < i ==> (#[trigger] joints@[k])@ == widened(read@[k]),
                decreases read@.len() - i,
            {
                let j = read[i];
                let w: [u32; 4] = [j[0] as u32, j[1] as u32, j[2] as u32, j[3] as u32];
                assert(w@ =~= widened(j));
                joints.push(w);
                i = i + 1;
            }
            joints
        },
        _ => {
            let mut joints: Vec<[u32; 4]> = Vec::new();
            let mut i: usize = 0;
            while i < vertex_count
                invariant
                    i <= vertex_count,
                    joints@.len() == i,
                    forall|k: int| 0 <= k < i ==> (#[trigger] joints@[k])@ == seq![0u32, 0u32, 0u32, 0u32],
                decreases vertex_count - i,
            {
                let zero: [u32; 4] = [0, 0, 0, 0];
                assert(zero@ =~= seq![0u32, 0u32, 0u32, 0u32]);
                joints.push(zero);
                i = i + 1;
            }
            joints
        },
    }
}

} // verus!
