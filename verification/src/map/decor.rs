use crate::model::gltf_file::lists_exactly;
use crate::model::names::{get_emitters, name_words};
use crate::text::{contains_text, has_substring, one_of, split_by, split_pieces, texts};
use rand::rngs::StdRng;
use rand::Rng;
use vstd::prelude::*;

verus! {

/// The seeded random generator that lays out the map.
#[verifier::external_type_specification]
#[verifier::external_body]
pub struct ExStdRng(StdRng);

/// Trusted: `rand::Rng::gen_range` over `0..n` on a `StdRng`, which panics on
/// an empty range and otherwise returns a value of the range; which value
/// depends on the generator's state and is left open. The draw takes at least
/// one number from the generator (`UniformInt::sample_single_inclusive`),
/// and every number taken moves the generator's buffer index or refills the
/// buffer from the next block (`BlockRng::next_u32`, `next_u64`), so the generator's
/// state after the call differs from its state before.
#[verifier::external_body]
fn random_index(rng: &mut StdRng, n: usize) -> (i: usize)
    requires
        n > 0,
    ensures
        i < n,
        *final(rng) != *old(rng),
{
    rng.gen_range(0..n)
}

/// Last `-`-separated part of a tile model name, which names its decor set
/// (`tile-catacombs-1100` gives `1100`).
pub fn tile_suffix(name: &str) -> (suffix: String)
    ensures
        suffix@ == split_pieces(name@, one_of(seq!['-'])).last(),
{
    let seps: Vec<char> = vec!['-'];
    assert(seps@ =~= seq!['-']);
    let mut pieces = split_by(name, &seps);
    proof {
        crate::text::lemma_split_pieces_shape(name@, one_of(seq!['-']));
    }
    let last = pieces.len() - 1;
    assert(texts(pieces@)[last as int] == pieces@[last as int]@);
    pieces.swap_remove(last)
}

/// File that holds the decor variants of a tile; tiles whose name contains
/// `empty` have no decor and no file.
pub fn decor_source(tile: &str) -> (path: Option<String>)
    ensures
        path is None <==> has_substring(tile@, "empty"@),
        path matches Some(p) ==> p@ == "tiles/"@ + tile@ + ".json"@,
{
    if contains_text(tile, "empty") {
        return None;
    }
    let mut path = String::from_str("tiles/");
    path.append(tile);
    path.append(".json");
    Some(path)
}

/// Picks which of `variant_count` decor variants a tile gets, by a draw from
/// the map's generator; a tile with no variant gets none and draws nothing.
pub fn pick_variant(rng: &mut StdRng, variant_count: usize) -> (r: Option<usize>)
    ensures
        r is None <==> variant_count == 0,
        r matches Some(i) ==> i < variant_count,
        variant_count > 0 ==> *final(rng) != *old(rng),
        variant_count == 0 ==> *final(rng) == *old(rng),
{
    if variant_count > 0 {
        Some(random_index(rng, variant_count))
    } else {
        None
    }
}

/// Indices of the lights of a decor model, in order, that belong to the decor
/// item `decor_name`: those whose name contains the item's name followed by
/// `_`.
pub fn decor_lights(light_names: &Vec<String>, decor_name: &str) -> (r: Vec<usize>)
    ensures
        forall|j: int| 0 <= j < r@.len() ==> r@[j] < light_names@.len()
            && has_substring(light_names@[r@[j] as int]@, decor_name@ + "_"@),
        forall|j1: int, j2: int| 0 <= j1 < j2 < r@.len() ==> r@[j1] < r@[j2],
        forall|k: int| 0 <= k < light_names@.len() && has_substring(light_names@[k]@, decor_name@ + "_"@)
            ==> r@.contains(k as usize),
{
    let mut prefix = String::from_str(decor_name);
    prefix.append("_");
    let mut r: Vec<usize> = Vec::new();
    let mut i: usize = 0;
    while i < light_names.len()
        invariant
            prefix@ == decor_name@ + "_"@,
            i <= light_names.len(),
            forall|j: int| 0 <= j < r@.len() ==> r@[j] < i
                && has_substring(light_names@[r@[j] as int]@, decor_name@ + "_"@),
            forall|j1: int, j2: int| 0 <= j1 < j2 < r@.len() ==> r@[j1] < r@[j2],
            forall|k: int| 0 <= k < i && has_substring(light_names@[k]@, decor_name@ + "_"@)
                ==> r@.contains(k as usize),
        decreases light_names.len() - i,
    {
        let ghost before = r@;
        if contains_text(light_names[i].as_str(), prefix.as_str()) {
            r.push(i);
            assert(r@[r@.len() - 1] == i);
            assert forall|k: int| 0 <= k < i && has_substring(light_names@[k]@, decor_name@ + "_"@)
                implies r@.contains(k as usize) by {
                let j = choose|j: int| 0 <= j < before.len() && before[j] == k as usize;
                assert(r@[j] == before[j]);
            }
        }
        i = i + 1;
    }
    r
}

/// What a decor item brings into a built tile besides its own model: the
/// decor model's lights and particle emitters that belong to it, as indices
/// into the model's lists.
#[derive(Debug)]
pub struct DecorParts {
    pub lights: Vec<usize>,
    pub emitters: Vec<usize>,
}

/// The parts of each decor item of a tile, item by item, as a built tile
/// holds them: an item's lights are those whose name contains the item's
/// name followed by `_`, its emitters those with the item's name among the
/// words of their name.
pub fn decor_parts(decor_names: &Vec<String>, light_names: &Vec<String>, emitter_names: &Vec<String>) -> (r: Vec<DecorParts>)
    ensures
        r@.len() == decor_names@.len(),
        forall|d: int| 0 <= d < r@.len() ==> lists_exactly(
            (#[trigger] r@[d]).lights@,
            light_names@.len() as int,
            |k: int| has_substring(light_names@[k]@, decor_names@[d]@ + "_"@),
        ),
        forall|d: int| 0 <= d < r@.len() ==> lists_exactly(
            (#[trigger] r@[d]).emitters@,
            emitter_names@.len() as int,
            |k: int| name_words(emitter_names@[k]@).contains(decor_names@[d]@),
        ),
{
    let mut r: Vec<DecorParts> = Vec::new();
    let mut d: usize = 0;
    while d < decor_names.len()
        invariant
            d <= decor_names@.len(),
            r@.len() == d,
            forall|e: int| 0 <= e < d ==> lists_exactly(
                (#[trigger] r@[e]).lights@,
                light_names@.len() as int,
                |k: int| has_substring(light_names@[k]@, decor_names@[e]@ + "_"@),
            ),
            forall|e: int| 0 <= e < d ==> lists_exactly(
                (#[trigger] r@[e]).emitters@,
                emitter_names@.len() as int,
                |k: int| name_words(emitter_names@[k]@).contains(decor_names@[e]@),
            ),
        decreases decor_names@.len() - d,
    {
        let lights = decor_lights(light_names, decor_names[d].as_str());
        let emitters = get_emitters(emitter_names, decor_names[d].as_str());
        r.push(DecorParts { lights, emitters });
        d = d + 1;
    }
    r
}

} // verus!
