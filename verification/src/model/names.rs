use crate::text::{
    contains_text, has_substring, lemma_split_pieces_at, lemma_split_pieces_whole, one_of, same_text, split_by,
    split_pieces, texts,
};
use vstd::prelude::*;

verus! {

/// Characters that separate the words of a mesh name.
pub open spec fn word_separators() -> Seq<char> {
    seq!['_', '.']
}

/// Words of a mesh name: the pieces between `_` and `.`.
pub open spec fn name_words(name: Seq<char>) -> Seq<Seq<char>> {
    split_pieces(name, one_of(word_separators()))
}

/// `s` holds neither `_` nor `.`.
pub open spec fn has_no_separator(s: Seq<char>) -> bool {
    forall|j: int| 0 <= j < s.len() ==> #[trigger] s[j] != '_' && s[j] != '.'
}

/// A name without `_` or `.` is a single word: the whole name.
pub proof fn lemma_name_words_whole(name: Seq<char>)
    requires
        has_no_separator(name),
    ensures
        name_words(name) == seq![name],
{
    let sep = one_of(word_separators());
    assert forall|j: int| 0 <= j < name.len() implies !sep(#[trigger] name[j]) by {
        if word_separators().contains(name[j]) {
            let k = choose|k: int| 0 <= k < 2 && word_separators()[k] == name[j];
            assert(k == 0 || k == 1);
        }
    }
    lemma_split_pieces_whole(name, sep);
}

/// The words of a name split at `_` or `.` are the words before that
/// separator followed by the words after it.
pub proof fn lemma_name_words_split(x: Seq<char>, c: char, y: Seq<char>)
    requires
        c == '_' || c == '.',
    ensures
        name_words(x + seq![c] + y) == name_words(x) + name_words(y),
{
    let sep = one_of(word_separators());
    if c == '_' {
        assert(word_separators()[0] == c);
    } else {
        assert(word_separators()[1] == c);
    }
    assert(sep(c));
    lemma_split_pieces_at(x, c, y, sep);
}

/// Splits a mesh name into its words at `_` and `.`.
pub fn mesh_words(name: &str) -> (words: Vec<String>)
    ensures
        texts(words@) == name_words(name@),
{
    let seps: Vec<char> = vec!['_', '.'];
    assert(seps@ =~= word_separators());
    split_by(name, &seps)
}

/// Whether `word` is one of the words of `name`.
pub fn has_word(name: &str, word: &str) -> (r: bool)
    ensures
        r == name_words(name@).contains(word@),
{
    let words = mesh_words(name);
    let mut i: usize = 0;
    while i < words.len()
        invariant
            texts(words@) == name_words(name@),
            i <= words.len(),
            forall|k: int| 0 <= k < i ==> name_words(name@)[k] != word@,
        decreases words.len() - i,
    {
        assert(texts(words@)[i as int] == words@[i as int]@);
        if same_text(words[i].as_str(), word) {
            assert(name_words(name@)[i as int] == word@);
            return true;
        }
        i = i + 1;
    }
    assert(!name_words(name@).contains(word@)) by {
        if name_words(name@).contains(word@) {
            let k = choose|k: int| 0 <= k < name_words(name@).len() && name_words(name@)[k] == word@;
            assert(texts(words@).len() == words@.len());
        }
    }
    false
}

/// What a mesh of the model stands for, read from the words of its name:
/// `col` marks a collision outline, `emit` a particle emitter and `place` a
/// placeholder position.
#[derive(Clone, Copy, Debug, PartialEq, Eq, Structural)]
pub struct MeshRoles {
    pub collision: bool,
    pub emitter: bool,
    pub placeholder: bool,
}

/// Reads the roles of a mesh from its name.
pub fn mesh_roles(name: &str) -> (r: MeshRoles)
    ensures
        r.collision == name_words(name@).contains("col"@),
        r.emitter == name_words(name@).contains("emit"@),
        r.placeholder == name_words(name@).contains("place"@),
{
    MeshRoles {
        collision: has_word(name, "col"),
        emitter: has_word(name, "emit"),
        placeholder: has_word(name, "place"),
    }
}

/// Key under which a collision mesh's outlines are stored: the part of its
/// name before the first `_`.
pub fn collision_key(name: &str) -> (key: String)
    ensures
        key@ == split_pieces(name@, one_of(seq!['_']))[0],
{
    let seps: Vec<char> = vec!['_'];
    assert(seps@ =~= seq!['_']);
    let mut pieces = split_by(name, &seps);
    proof {
        crate::text::lemma_split_pieces_shape(name@, one_of(seq!['_']));
    }
    assert(texts(pieces@)[0] == pieces@[0]@);
    pieces.swap_remove(0)
}

/// Index of the first mesh called `name`, if there is one.
pub fn get_mesh_by_name(names: &Vec<String>, name: &str) -> (r: Option<usize>)
    ensures
        r is None <==> forall|k: int| 0 <= k < names@.len() ==> names@[k]@ != name@,
        r matches Some(i) ==> i < names@.len() && names@[i as int]@ == name@
            && forall|k: int| 0 <= k < i ==> names@[k]@ != name@,
{
    let mut i: usize = 0;
    while i < names.len()
        invariant
            i <= names.len(),
            forall|k: int| 0 <= k < i ==> names@[k]@ != name@,
        decreases names.len() - i,
    {
        if same_text(names[i].as_str(), name) {
            return Some(i);
        }
        i = i + 1;
    }
    None
}

/// Indices of the emitters, in order, that have `name` among the words of
/// their own name.
pub fn get_emitters(emitter_names: &Vec<String>, name: &str) -> (r: Vec<usize>)
    ensures
        forall|j: int| 0 <= j < r@.len() ==> r@[j] < emitter_names@.len()
            && name_words(emitter_names@[r@[j] as int]@).contains(name@),
        forall|j1: int, j2: int| 0 <= j1 < j2 < r@.len() ==> r@[j1] < r@[j2],
        forall|k: int| 0 <= k < emitter_names@.len() && name_words(emitter_names@[k]@).contains(name@)
            ==> r@.contains(k as usize),
{
    let mut r: Vec<usize> = Vec::new();
    let mut i: usize = 0;
    while i < emitter_names.len()
        invariant
            i <= emitter_names.len(),
            forall|j: int| 0 <= j < r@.len() ==> r@[j] < i
                && name_words(emitter_names@[r@[j] as int]@).contains(name@),
            forall|j1: int, j2: int| 0 <= j1 < j2 < r@.len() ==> r@[j1] < r@[j2],
            forall|k: int| 0 <= k < i && name_words(emitter_names@[k]@).contains(name@)
                ==> r@.contains(k as usize),
        decreases emitter_names.len() - i,
    {
        let ghost before = r@;
        if has_word(emitter_names[i].as_str(), name) {
            r.push(i);
            assert(r@[r@.len() - 1] == i);
            assert forall|k: int| 0 <= k < i && name_words(emitter_names@[k]@).contains(name@) implies r@.contains(k as usize) by {
                let j = choose|j: int| 0 <= j < before.len() && before[j] == k as usize;
                assert(r@[j] == before[j]);
            }
        }
        i = i + 1;
    }
    r
}

/// Indices of the placeholders, in order, whose name contains `mesh_name`.
pub fn get_placeholders(placeholder_names: &Vec<String>, mesh_name: &str) -> (r: Vec<usize>)
    ensures
        forall|j: int| 0 <= j < r@.len() ==> r@[j] < placeholder_names@.len()
            && has_substring(placeholder_names@[r@[j] as int]@, mesh_name@),
        forall|j1: int, j2: int| 0 <= j1 < j2 < r@.len() ==> r@[j1] < r@[j2],
        forall|k: int| 0 <= k < placeholder_names@.len() && has_substring(placeholder_names@[k]@, mesh_name@)
            ==> r@.contains(k as usize),
{
    let mut r: Vec<usize> = Vec::new();
    let mut i: usize = 0;
    while i < placeholder_names.len()
        invariant
            i <= placeholder_names.len(),
            forall|j: int| 0 <= j < r@.len() ==> r@[j] < i
                && has_substring(placeholder_names@[r@[j] as int]@, mesh_name@),
            forall|j1: int, j2: int| 0 <= j1 < j2 < r@.len() ==> r@[j1] < r@[j2],
            forall|k: int| 0 <= k < i && has_substring(placeholder_names@[k]@, mesh_name@)
                ==> r@.contains(k as usize),
        decreases placeholder_names.len() - i,
    {
        let ghost before = r@;
        if contains_text(placeholder_names[i].as_str(), mesh_name) {
            r.push(i);
            assert(r@[r@.len() - 1] == i);
            assert forall|k: int| 0 <= k < i && has_substring(placeholder_names@[k]@, mesh_name@) implies r@.contains(k as usize) by {
                let j = choose|j: int| 0 <= j < before.len() && before[j] == k as usize;
                assert(r@[j] == before[j]);
            }
        }
        i = i + 1;
    }
    r
}

} // verus!
