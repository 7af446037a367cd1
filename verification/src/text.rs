use vstd::prelude::*;

verus! {

/// Pieces of `s` between separators, as `str::split` yields them: `n`
/// separators give `n + 1` pieces, empty pieces included.
pub open spec fn split_pieces(s: Seq<char>, sep: spec_fn(char) -> bool) -> Seq<Seq<char>>
    decreases s.len(),
{
    if s.len() == 0 {
        seq![Seq::<char>::empty()]
    } else {
        let prev = split_pieces(s.drop_last(), sep);
        if sep(s.last()) {
            prev.push(Seq::<char>::empty())
        } else {
            prev.update(prev.len() - 1, prev.last().push(s.last()))
        }
    }
}

/// `pat` occurs in `s` as a contiguous run.
pub open spec fn has_substring(s: Seq<char>, pat: Seq<char>) -> bool {
    exists|i: int| 0 <= i && i + pat.len() <= s.len() && #[trigger] s.subrange(i, i + pat.len()) =~= pat
}

/// Characters of `s` as a vector.
pub fn chars_of(s: &str) -> (v: Vec<char>)
    ensures
        v@ == s@,
{
    let n = s.unicode_len();
    let mut v: Vec<char> = Vec::new();
    let mut i: usize = 0;
    while i < n
        invariant
            n == s@.len(),
            i <= n,
            v@ =~= s@.take(i as int),
        decreases n - i,
    {
        v.push(s.get_char(i));
        i = i + 1;
    }
    assert(s@.take(n as int) =~= s@);
    v
}

/// Whether two strings hold the same characters.
pub fn same_text(a: &str, b: &str) -> (r: bool)
    ensures
        r == (a@ == b@),
{
    let n = a.unicode_len();
    let m = b.unicode_len();
    if n != m {
        return false;
    }
    let mut i: usize = 0;
    while i < n
        invariant
            n == a@.len(),
            n == b@.len(),
            i <= n,
            a@.take(i as int) =~= b@.take(i as int),
        decreases n - i,
    {
        if a.get_char(i) != b.get_char(i) {
            assert(a@[i as int] != b@[i as int]);
            return false;
        }
        assert(a@.take(i + 1) =~= a@.take(i as int).push(a@[i as int]));
        assert(b@.take(i + 1) =~= b@.take(i as int).push(b@[i as int]));
        i = i + 1;
    }
    assert(a@.take(n as int) =~= a@);
    assert(b@.take(n as int) =~= b@);
    true
}

/// Whether `pat` occurs in `s`, as `str::contains` with a string pattern.
pub fn contains_text(s: &str, pat: &str) -> (r: bool)
    ensures
        r == has_substring(s@, pat@),
{
    let sv = chars_of(s);
    let pv = chars_of(pat);
    let n = sv.len();
    let m = pv.len();
    if m > n {
        return false;
    }
    let mut i: usize = 0;
    while i <= n - m
        invariant
            sv@ == s@,
            pv@ == pat@,
            n == sv@.len(),
            m == pv@.len(),
            m <= n,
            i <= n - m + 1,
            forall|k: int| 0 <= k < i ==> !(#[trigger] s@.subrange(k, k + m) =~= pat@),
        decreases n - m + 1 - i,
    {
        let mut j: usize = 0;
        let mut matched = true;
        while j < m
            invariant
                sv@ == s@,
                pv@ == pat@,
                n == sv@.len(),
                m == pv@.len(),
                i + m <= n,
                j <= m,
                matched ==> forall|t: int| 0 <= t < j ==> sv@[i + t] == pv@[t],
                !matched ==> exists|t: int| 0 <= t < m && sv@[i + t] != pv@[t],
            decreases m - j,
        {
            if sv[i + j] != pv[j] {
                matched = false;
            }
            j = j + 1;
        }
        if matched {
            assert(s@.subrange(i as int, i + m) =~= pat@);
            return true;
        }
        assert(!(s@.subrange(i as int, i + m) =~= pat@)) by {
            let t = choose|t: int| 0 <= t < m && sv@[i + t] != pv@[t];
            assert(s@.subrange(i as int, i + m)[t] != pat@[t]);
        }
        i = i + 1;
    }
    assert forall|k: int| 0 <= k && k + pat@.len() <= s@.len() implies !(#[trigger] s@.subrange(k, k + pat@.len()) =~= pat@) by {
        assert(k < i);
    }
    false
}


/// Character views of a list of strings.
pub open spec fn texts(v: Seq<String>) -> Seq<Seq<char>> {
    v.map_values(|w: String| w@)
}

/// Separator predicate for a list of separator characters.
pub open spec fn one_of(seps: Seq<char>) -> spec_fn(char) -> bool {
    |c: char| seps.contains(c)
}

/// Whether `c` is one of `seps`.
pub fn is_one_of(c: char, seps: &Vec<char>) -> (r: bool)
    ensures
        r == seps@.contains(c),
{
    let mut i: usize = 0;
    while i < seps.len()
        invariant
            i <= seps.len(),
            forall|k: int| 0 <= k < i ==> seps@[k] != c,
        decreases seps.len() - i,
    {
        if seps[i] == c {
            return true;
        }
        i = i + 1;
    }
    false
}

/// Splits `s` at every character of `seps`, as `str::split` with a set of
/// separator characters does.
pub fn split_by(s: &str, seps: &Vec<char>) -> (pieces: Vec<String>)
    ensures
        texts(pieces@) == split_pieces(s@, one_of(seps@)),
{
    let n = s.unicode_len();
    let mut pieces: Vec<String> = Vec::new();
    let mut start: usize = 0;
    let mut i: usize = 0;
    assert(s@.take(0) =~= Seq::<char>::empty());
    assert(texts(pieces@).push(s@.subrange(0, 0)) =~= split_pieces(s@.take(0), one_of(seps@)));
    while i < n
        invariant
            n == s@.len(),
            start <= i <= n,
            texts(pieces@).push(s@.subrange(start as int, i as int))
                =~= split_pieces(s@.take(i as int), one_of(seps@)),
        decreases n - i,
    {
        let c = s.get_char(i);
        let ghost prev = texts(pieces@);
        assert(s@.take(i + 1).drop_last() =~= s@.take(i as int));
        assert(s@.take(i + 1).last() == c);
        if is_one_of(c, seps) {
            let piece = String::from_str(s.substring_char(start, i));
            pieces.push(piece);
            assert(texts(pieces@) =~= prev.push(s@.subrange(start as int, i as int)));
            start = i + 1;
            assert(s@.subrange(start as int, i + 1) =~= Seq::<char>::empty());
        } else {
            assert(s@.subrange(start as int, i + 1) =~= s@.subrange(start as int, i as int).push(c));
        }
        i = i + 1;
    }
    let piece = String::from_str(s.substring_char(start, n));
    let ghost prev = texts(pieces@);
    pieces.push(piece);
    assert(texts(pieces@) =~= prev.push(s@.subrange(start as int, n as int)));
    assert(s@.take(n as int) =~= s@);
    pieces
}


/// Number of characters of `s` that are separators.
pub open spec fn separator_count(s: Seq<char>, sep: spec_fn(char) -> bool) -> nat
    decreases s.len(),
{
    if s.len() == 0 {
        0
    } else {
        separator_count(s.drop_last(), sep) + (if sep(s.last()) { 1nat } else { 0nat })
    }
}

/// Splitting yields one piece more than there are separators, and no piece
/// holds a separator.
pub proof fn lemma_split_pieces_shape(s: Seq<char>, sep: spec_fn(char) -> bool)
    ensures
        split_pieces(s, sep).len() == separator_count(s, sep) + 1,
        forall|k: int, j: int|
            0 <= k < split_pieces(s, sep).len() && 0 <= j < split_pieces(s, sep)[k].len()
                ==> !sep(#[trigger] split_pieces(s, sep)[k][j]),
    decreases s.len(),
{
    if s.len() > 0 {
        lemma_split_pieces_shape(s.drop_last(), sep);
        let prev = split_pieces(s.drop_last(), sep);
        let cur = split_pieces(s, sep);
        assert forall|k: int, j: int| 0 <= k < cur.len() && 0 <= j < cur[k].len() implies !sep(#[trigger] cur[k][j]) by {
            if !sep(s.last()) && k == prev.len() - 1 {
                if j < prev[k].len() {
                    assert(cur[k][j] == prev[k][j]);
                }
            } else if k < prev.len() {
                assert(cur[k] == prev[k]);
            }
        }
    }
}

/// Pieces put back together with `c` between each two.
pub open spec fn join_with(pieces: Seq<Seq<char>>, c: char) -> Seq<char>
    decreases pieces.len(),
{
    if pieces.len() == 0 {
        Seq::empty()
    } else if pieces.len() == 1 {
        pieces[0]
    } else {
        join_with(pieces.drop_last(), c) + seq![c] + pieces.last()
    }
}

proof fn lemma_join_extend_last(pieces: Seq<Seq<char>>, c: char, x: char)
    requires
        pieces.len() >= 1,
    ensures
        join_with(pieces.update(pieces.len() - 1, pieces.last().push(x)), c) =~= join_with(pieces, c).push(x),
{
    let updated = pieces.update(pieces.len() - 1, pieces.last().push(x));
    if pieces.len() > 1 {
        assert(updated.drop_last() =~= pieces.drop_last());
    }
}

/// Splitting at a single separator character loses nothing: joining the
/// pieces with that character gives back the string.
pub proof fn lemma_split_join(s: Seq<char>, c: char)
    ensures
        join_with(split_pieces(s, one_of(seq![c])), c) =~= s,
    decreases s.len(),
{
    if s.len() > 0 {
        let sep = one_of(seq![c]);
        let prev = split_pieces(s.drop_last(), sep);
        lemma_split_join(s.drop_last(), c);
        lemma_split_pieces_shape(s.drop_last(), sep);
        assert(seq![c].contains(s.last()) <==> s.last() == c) by {
            if s.last() == c {
                assert(seq![c][0] == c);
            }
        }
        if s.last() == c {
            let cur = prev.push(Seq::<char>::empty());
            assert(cur.drop_last() =~= prev);
            assert(s =~= s.drop_last() + seq![c]);
        } else {
            lemma_join_extend_last(prev, c, s.last());
            assert(s =~= s.drop_last().push(s.last()));
        }
    }
}

/// A text without separators is a single piece: itself.
pub proof fn lemma_split_pieces_whole(s: Seq<char>, sep: spec_fn(char) -> bool)
    requires
        forall|j: int| 0 <= j < s.len() ==> !sep(#[trigger] s[j]),
    ensures
        split_pieces(s, sep) == seq![s],
    decreases s.len(),
{
    if s.len() > 0 {
        let init = s.drop_last();
        assert forall|j: int| 0 <= j < init.len() implies !sep(#[trigger] init[j]) by {
            assert(init[j] == s[j]);
        }
        lemma_split_pieces_whole(init, sep);
        assert(!sep(s[s.len() - 1]));
        assert(init.push(s.last()) =~= s);
        assert(split_pieces(s, sep) =~= seq![s]);
    } else {
        assert(s =~= Seq::<char>::empty());
    }
}

/// Splitting at a separator between `x` and `y` gives the pieces of `x`
/// followed by the pieces of `y`.
pub proof fn lemma_split_pieces_at(x: Seq<char>, c: char, y: Seq<char>, sep: spec_fn(char) -> bool)
    requires
        sep(c),
    ensures
        split_pieces(x + seq![c] + y, sep) == split_pieces(x, sep) + split_pieces(y, sep),
    decreases y.len(),
{
    let s = x + seq![c] + y;
    if y.len() == 0 {
        assert(s.drop_last() =~= x);
        assert(s.last() == c);
        assert(split_pieces(x, sep).push(Seq::<char>::empty()) =~= split_pieces(x, sep) + seq![Seq::<char>::empty()]);
    } else {
        let y0 = y.drop_last();
        lemma_split_pieces_at(x, c, y0, sep);
        assert(s.drop_last() =~= x + seq![c] + y0);
        assert(s.last() == y.last());
        let px = split_pieces(x, sep);
        let py0 = split_pieces(y0, sep);
        lemma_split_pieces_shape(y0, sep);
        if sep(y.last()) {
            assert((px + py0).push(Seq::<char>::empty()) =~= px + py0.push(Seq::<char>::empty()));
        } else {
            let prev = px + py0;
            assert(prev.last() == py0.last());
            assert(prev.update(prev.len() - 1, prev.last().push(y.last()))
                =~= px + py0.update(py0.len() - 1, py0.last().push(y.last())));
        }
    }
}

} // verus!
