pub mod lights;

use vstd::prelude::*;

verus! {

/// A lowercase hexadecimal digit.
pub open spec fn is_lower_hex(c: char) -> bool {
    ('0' <= c && c <= '9') || ('a' <= c && c <= 'f')
}

/// Text of a random (version 4, RFC 4122 variant) UUID in hyphenated
/// lowercase form, such as `67e55044-10b1-426f-9247-bb680e5fe0c8`.
pub open spec fn is_v4_uuid_text(s: Seq<char>) -> bool {
    &&& s.len() == 36
    &&& forall|i: int| 0 <= i < 36 ==>
        if i == 8 || i == 13 || i == 18 || i == 23 {
            #[trigger] s[i] == '-'
        } else {
            is_lower_hex(s[i])
        }
    &&& s[14] == '4'
    &&& (s[19] == '8' || s[19] == '9' || s[19] == 'a' || s[19] == 'b')
}

/// Trusted: `uuid::Uuid::new_v4` followed by its `to_string`. `new_v4` masks
/// random bits to set version 4 and the RFC 4122 variant, and the string form
/// is the hyphenated lowercase one. Which UUID comes out is random and left
/// open; `new_v4` panics if the system gives no random bytes.
#[verifier::external_body]
fn fresh_model_key() -> (key: String)
    ensures
        is_v4_uuid_text(key@),
{
    uuid::Uuid::new_v4().to_string()
}

/// A model uploaded for drawing, with its own copy of the node hierarchy, kept
/// under a key that identifies it.
pub struct ModelInstance<M, N> {
    pub key: String,
    pub model: M,
    pub nodes: N,
}

impl<M, N> ModelInstance<M, N> {
    /// Registers a model instance under a fresh random key.
    pub fn new(model: M, nodes: N) -> (instance: Self)
        ensures
            instance.model == model,
            instance.nodes == nodes,
            is_v4_uuid_text(instance.key@),
    {
        let key = fresh_model_key();
        ModelInstance { key, model, nodes }
    }
}

} // verus!
