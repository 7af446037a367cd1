pub mod layout;
pub mod decor;
pub mod grid;
pub mod tile;

use crate::text::same_text;
use vstd::prelude::*;

verus! {

/// `p` is the first position of the `--edit` flag among `args`.
pub open spec fn is_first_edit_flag(args: Seq<String>, p: int) -> bool {
    &&& 0 <= p < args.len()
    &&& args[p]@ == "--edit"@
    &&& forall|q: int| 0 <= q < p ==> args[q]@ != "--edit"@
}

/// The tile to open in the editor: the argument right after the first
/// `--edit` flag of the command line, if there is one.
pub fn edit_mode(args: &Vec<String>) -> (tile: Option<String>)
    ensures
        tile matches Some(t) ==> exists|p: int| is_first_edit_flag(args@, p) && p + 1 < args@.len()
            && t@ == #[trigger] args@[p + 1]@,
        tile is None ==> forall|p: int| is_first_edit_flag(args@, p) ==> p + 1 >= args@.len(),
{
    let mut i: usize = 0;
    while i < args.len()
        invariant
            i <= args@.len(),
            forall|q: int| 0 <= q < i ==> args@[q]@ != "--edit"@,
        decreases args@.len() - i,
    {
        if same_text(args[i].as_str(), "--edit") {
            assert(is_first_edit_flag(args@, i as int));
            if i + 1 < args.len() {
                let t = args[i + 1].clone();
                assert(t@ == args@[i + 1]@);
                return Some(t);
            } else {
                assert forall|p: int| is_first_edit_flag(args@, p) implies p + 1 >= args@.len() by {
                    assert(p == i);
                }
                return None;
            }
        }
        i = i + 1;
    }
    None
}

} // verus!
