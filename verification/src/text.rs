//! Character-level text operations: prefixes, splitting at a separator as
//! `str::split` does, and the moves between `str`/`String` and `Vec<char>`.
use vstd::prelude::*;

verus! {

broadcast use vstd::string::group_string_axioms;

/// `p` is a prefix of `s`.
pub open spec fn is_prefix(p: Seq<char>, s: Seq<char>) -> bool {
    p.len() <= s.len() && s.subrange(0, p.len() as int) == p
}

/// `sep` occurs in `s` at position `i`.
pub open spec fn occurs_at(s: Seq<char>, sep: Seq<char>, i: int) -> bool {
    0 <= i && i + sep.len() <= s.len() && s.subrange(i, i + sep.len()) == sep
}

/// The pieces of `s`, starting with the piece that begins at `start`, when
/// occurrences of the non-empty `sep` are searched from position `i` on.
pub open spec fn split_scan(s: Seq<char>, sep: Seq<char>, start: int, i: int) -> Seq<Seq<char>>
    decreases s.len() + 1 - i,
{
    if sep.len() == 0 || i < start || start < 0 || i + sep.len() > s.len() {
        seq![s.subrange(start, s.len() as int)]
    } else if s.subrange(i, i + sep.len()) == sep {
        seq![s.subrange(start, i)] + split_scan(s, sep, i + sep.len(), i + sep.len())
    } else {
        split_scan(s, sep, start, i + 1)
    }
}

/// The pieces between the separators when `s` is split at every occurrence
/// of `sep`, leftmost first and without overlap. An empty separator stands
/// between any two characters and at both ends: "ab" gives "", "a", "b", "".
pub open spec fn split_on(s: Seq<char>, sep: Seq<char>) -> Seq<Seq<char>> {
    if sep.len() == 0 {
        seq![Seq::<char>::empty()] + Seq::new(s.len(), |k: int| seq![s[k]]) + seq![
            Seq::<char>::empty(),
        ]
    } else {
        split_scan(s, sep, 0, 0)
    }
}

/// The contents of each vector of characters.
pub open spec fn char_vecs_view(v: Seq<Vec<char>>) -> Seq<Seq<char>> {
    v.map_values(|x: Vec<char>| x@)
}

/// An ASCII character: one byte in UTF-8.
pub open spec fn is_ascii_char(c: char) -> bool {
    '\0' <= c <= '\u{7f}'
}

pub fn char_is_ascii(c: char) -> (r: bool)
    ensures
        r == is_ascii_char(c),
{
    c <= '\u{7f}'
}

/// Appends one character to a string (`String::push`).
#[verifier::external_body]
pub(crate) fn push_char(s: &mut String, c: char)
    ensures
        final(s)@ == old(s)@.push(c),
{
    s.push(c);
}

/// The characters of a string slice.
pub fn chars_of(s: &str) -> (r: Vec<char>)
    ensures
        r@ == s@,
{
    let mut r: Vec<char> = Vec::new();
    for c in it: s.chars()
        invariant
            r@ == it.seq().take(it.index()),
            it.seq() == s@,
    {
        r.push(c);
    }
    r
}

/// The string made of the characters `v[from..to]`.
pub fn string_of(v: &Vec<char>, from: usize, to: usize) -> (r: String)
    requires
        from <= to <= v.len(),
    ensures
        r@ == v@.subrange(from as int, to as int),
{
    let mut r = String::new();
    let mut k = from;
    while k < to
        invariant
            from <= k <= to <= v.len(),
            r@ == v@.subrange(from as int, k as int),
        decreases to - k,
    {
        push_char(&mut r, v[k]);
        k = k + 1;
        assert(r@ =~= v@.subrange(from as int, k as int));
    }
    r
}

/// The characters `v[from..to]`.
pub fn chars_range(v: &Vec<char>, from: usize, to: usize) -> (r: Vec<char>)
    requires
        from <= to <= v.len(),
    ensures
        r@ == v@.subrange(from as int, to as int),
{
    let mut r: Vec<char> = Vec::new();
    let mut k = from;
    while k < to
        invariant
            from <= k <= to <= v.len(),
            r@ == v@.subrange(from as int, k as int),
        decreases to - k,
    {
        r.push(v[k]);
        k = k + 1;
        assert(r@ =~= v@.subrange(from as int, k as int));
    }
    r
}

/// Whether `sep` occurs in `s` at position `i`.
pub fn occurs_at_exec(s: &Vec<char>, sep: &Vec<char>, i: usize) -> (r: bool)
    requires
        i + sep.len() <= s.len(),
    ensures
        r == occurs_at(s@, sep@, i as int),
{
    let mut k: usize = 0;
    while k < sep.len()
        invariant
            k <= sep.len(),
            i + sep.len() <= s.len(),
            forall|j: int| 0 <= j < k ==> s@[i + j] == sep@[j],
        decreases sep.len() - k,
    {
        if s[i + k] != sep[k] {
            assert(s@.subrange(i as int, i + sep.len())[k as int] != sep@[k as int]);
            return false;
        }
        k = k + 1;
    }
    assert(s@.subrange(i as int, i + sep.len()) =~= sep@);
    true
}

/// Whether two character sequences are equal.
pub fn chars_equal(a: &Vec<char>, b: &Vec<char>) -> (r: bool)
    ensures
        r == (a@ == b@),
{
    if a.len() != b.len() {
        return false;
    }
    let mut k: usize = 0;
    while k < a.len()
        invariant
            a.len() == b.len(),
            k <= a.len(),
            forall|j: int| 0 <= j < k ==> a@[j] == b@[j],
        decreases a.len() - k,
    {
        if a[k] != b[k] {
            return false;
        }
        k = k + 1;
    }
    assert(a@ =~= b@);
    true
}

/// Whether `p` is a prefix of `s`.
pub fn is_prefix_exec(p: &Vec<char>, s: &Vec<char>) -> (r: bool)
    ensures
        r == is_prefix(p@, s@),
{
    if p.len() > s.len() {
        false
    } else {
        let r = occurs_at_exec(s, p, 0);
        assert(s@.subrange(0, p.len() as int) == s@.subrange(0, 0 + p.len()));
        r
    }
}

/// Splits `s` at `sep` as `split_on` describes.
pub fn split_chars(s: &Vec<char>, sep: &Vec<char>) -> (r: Vec<Vec<char>>)
    ensures
        char_vecs_view(r@) == split_on(s@, sep@),
{
    let mut r: Vec<Vec<char>> = Vec::new();
    if sep.len() == 0 {
        r.push(Vec::new());
        let mut k: usize = 0;
        while k < s.len()
            invariant
                k <= s.len(),
                char_vecs_view(r@) =~= seq![Seq::<char>::empty()] + Seq::new(
                    k as nat,
                    |j: int| seq![s@[j]],
                ),
            decreases s.len() - k,
        {
            let mut one: Vec<char> = Vec::new();
            one.push(s[k]);
            assert(one@ =~= seq![s@[k as int]]);
            let ghost before = char_vecs_view(r@);
            r.push(one);
            assert(char_vecs_view(r@) =~= before.push(seq![s@[k as int]]));
            k = k + 1;
        }
        let ghost before = char_vecs_view(r@);
        r.push(Vec::new());
        assert(char_vecs_view(r@) =~= before.push(Seq::<char>::empty()));
        return r;
    }
    let mut start: usize = 0;
    let mut i: usize = 0;
    while sep.len() <= s.len() - i
        invariant
            sep.len() > 0,
            start <= i <= s.len(),
            char_vecs_view(r@) + split_scan(s@, sep@, start as int, i as int) == split_on(s@, sep@),
        decreases s.len() - i,
    {
        if occurs_at_exec(s, sep, i) {
            let piece = chars_range(s, start, i);
            let ghost before = char_vecs_view(r@);
            r.push(piece);
            assert(char_vecs_view(r@) =~= before + seq![s@.subrange(start as int, i as int)]);
            i = i + sep.len();
            start = i;
        } else {
            i = i + 1;
        }
    }
    let piece = chars_range(s, start, s.len());
    let ghost before = char_vecs_view(r@);
    r.push(piece);
    assert(char_vecs_view(r@) =~= before + seq![s@.subrange(start as int, s.len() as int)]);
    r
}

} // verus!

verus! {

/// The pieces joined back together with `sep` between each two.
pub open spec fn join(pieces: Seq<Seq<char>>, sep: Seq<char>) -> Seq<char>
    decreases pieces.len(),
{
    if pieces.len() == 0 {
        Seq::empty()
    } else if pieces.len() == 1 {
        pieces[0]
    } else {
        pieces[0] + sep + join(pieces.drop_first(), sep)
    }
}

proof fn lemma_split_scan_nonempty(s: Seq<char>, sep: Seq<char>, start: int, i: int)
    ensures
        split_scan(s, sep, start, i).len() >= 1,
    decreases s.len() + 1 - i,
{
    if sep.len() == 0 || i < start || start < 0 || i + sep.len() > s.len() {
    } else if s.subrange(i, i + sep.len()) == sep {
        lemma_split_scan_nonempty(s, sep, i + sep.len(), i + sep.len());
    } else {
        lemma_split_scan_nonempty(s, sep, start, i + 1);
    }
}

proof fn lemma_join_split_scan(s: Seq<char>, sep: Seq<char>, start: int, i: int)
    requires
        sep.len() > 0,
        0 <= start <= i <= s.len(),
    ensures
        join(split_scan(s, sep, start, i), sep) == s.subrange(start, s.len() as int),
    decreases s.len() + 1 - i,
{
    if i + sep.len() > s.len() {
    } else if s.subrange(i, i + sep.len()) == sep {
        let rest = split_scan(s, sep, i + sep.len(), i + sep.len());
        lemma_split_scan_nonempty(s, sep, i + sep.len(), i + sep.len());
        lemma_join_split_scan(s, sep, i + sep.len(), i + sep.len());
        let all = seq![s.subrange(start, i)] + rest;
        assert(all.drop_first() =~= rest);
        assert(all[0] == s.subrange(start, i));
        assert(s.subrange(start, i) + sep + s.subrange(i + sep.len(), s.len() as int) =~= s.subrange(
            start,
            s.len() as int,
        ));
    } else {
        lemma_join_split_scan(s, sep, start, i + 1);
    }
}

proof fn lemma_join_singletons(s: Seq<char>)
    ensures
        join(Seq::new(s.len(), |k: int| seq![s[k]]) + seq![Seq::<char>::empty()], Seq::empty()) == s,
    decreases s.len(),
{
    let pieces = Seq::new(s.len(), |k: int| seq![s[k]]) + seq![Seq::<char>::empty()];
    if s.len() == 0 {
        assert(pieces.len() == 1);
        assert(pieces[0] =~= s);
    } else {
        let t = s.drop_first();
        lemma_join_singletons(t);
        assert(pieces.drop_first() =~= Seq::new(t.len(), |k: int| seq![t[k]]) + seq![
            Seq::<char>::empty(),
        ]);
        assert(pieces[0] =~= seq![s[0]]);
        assert(seq![s[0]] + Seq::<char>::empty() + t =~= s);
    }
}

/// Joining the pieces of a split with the separator gives the text back.
pub proof fn law_join_undoes_split(s: Seq<char>, sep: Seq<char>)
    ensures
        join(split_on(s, sep), sep) == s,
{
    if sep.len() == 0 {
        let inner = Seq::new(s.len(), |k: int| seq![s[k]]) + seq![Seq::<char>::empty()];
        let all = split_on(s, sep);
        assert(all =~= seq![Seq::<char>::empty()] + inner);
        assert(all.drop_first() =~= inner);
        lemma_join_singletons(s);
        assert(Seq::<char>::empty() + sep + s =~= s);
    } else {
        lemma_join_split_scan(s, sep, 0, 0);
        assert(s.subrange(0, s.len() as int) =~= s);
    }
}

proof fn lemma_split_scan_no_occurrence(s: Seq<char>, sep: Seq<char>, start: int, i: int)
    requires
        sep.len() > 0,
        0 <= start <= i <= s.len(),
        forall|k: int| i <= k ==> !occurs_at(s, sep, k),
    ensures
        split_scan(s, sep, start, i) == seq![s.subrange(start, s.len() as int)],
    decreases s.len() + 1 - i,
{
    if i + sep.len() > s.len() {
    } else {
        assert(!occurs_at(s, sep, i));
        lemma_split_scan_no_occurrence(s, sep, start, i + 1);
    }
}

/// A text in which a non-empty separator does not occur is one piece.
pub proof fn law_split_without_separator(s: Seq<char>, sep: Seq<char>)
    requires
        sep.len() > 0,
        forall|k: int| !occurs_at(s, sep, k),
    ensures
        split_on(s, sep) == seq![s],
{
    lemma_split_scan_no_occurrence(s, sep, 0, 0);
    assert(s.subrange(0, s.len() as int) =~= s);
}

} // verus!

verus! {

/// `sep` occurs somewhere in `s`.
pub open spec fn contains(s: Seq<char>, sep: Seq<char>) -> bool {
    exists|k: int| occurs_at(s, sep, k)
}

proof fn lemma_no_occurrence_in_range(s: Seq<char>, sep: Seq<char>, start: int, end: int)
    requires
        sep.len() > 0,
        0 <= start <= end <= s.len(),
        forall|k: int| start <= k && k + sep.len() <= end ==> !occurs_at(s, sep, k),
    ensures
        !contains(s.subrange(start, end), sep),
{
    let piece = s.subrange(start, end);
    if contains(piece, sep) {
        let k = choose|k: int| occurs_at(piece, sep, k);
        assert(piece.subrange(k, k + sep.len()) =~= s.subrange(start + k, start + k + sep.len()));
        assert(occurs_at(s, sep, start + k));
    }
}

proof fn lemma_split_scan_pieces_clean(s: Seq<char>, sep: Seq<char>, start: int, i: int)
    requires
        sep.len() > 0,
        0 <= start <= i <= s.len(),
        forall|k: int| start <= k < i ==> !occurs_at(s, sep, k),
    ensures
        forall|j: int| 0 <= j < split_scan(s, sep, start, i).len() ==> !contains(
            #[trigger] split_scan(s, sep, start, i)[j],
            sep,
        ),
    decreases s.len() + 1 - i,
{
    let scan = split_scan(s, sep, start, i);
    if i + sep.len() > s.len() {
        lemma_no_occurrence_in_range(s, sep, start, s.len() as int);
        assert(scan =~= seq![s.subrange(start, s.len() as int)]);
        assert forall|j: int| 0 <= j < scan.len() implies !contains(#[trigger] scan[j], sep) by {
            assert(scan[j] == s.subrange(start, s.len() as int));
        }
    } else if s.subrange(i, i + sep.len()) == sep {
        lemma_no_occurrence_in_range(s, sep, start, i);
        let rest = split_scan(s, sep, i + sep.len(), i + sep.len());
        lemma_split_scan_pieces_clean(s, sep, i + sep.len(), i + sep.len());
        assert(scan =~= seq![s.subrange(start, i)] + rest);
        assert forall|j: int| 0 <= j < scan.len() implies !contains(#[trigger] scan[j], sep) by {
            if j > 0 {
                assert(scan[j] == rest[j - 1]);
            }
        }
    } else {
        assert(!occurs_at(s, sep, i));
        lemma_split_scan_pieces_clean(s, sep, start, i + 1);
        assert(scan == split_scan(s, sep, start, i + 1));
    }
}

/// No piece of a split holds the (non-empty) separator.
pub proof fn law_pieces_hold_no_separator(s: Seq<char>, sep: Seq<char>)
    requires
        sep.len() > 0,
    ensures
        forall|j: int| 0 <= j < split_on(s, sep).len() ==> !contains(#[trigger] split_on(s, sep)[j], sep),
{
    lemma_split_scan_pieces_clean(s, sep, 0, 0);
}

} // verus!
