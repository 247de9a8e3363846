//! Character sequences: searching for a pattern, splitting on it, comparing
//! texts, and writing decimal numerals.
//!
//! Specifications speak of `Seq<char>`, the view of `str` and `String`; the
//! executable functions work on slices of `char`.
use vstd::prelude::*;
use vstd::slice::{slice_subrange, slice_to_vec};
use vstd::utf8::{encode_utf8, encode_utf8_decode_utf8};

verus! {

/// `String::push`: the string afterwards is the string before with the one
/// character appended, as std documents it.
pub assume_specification[ String::push ](s: &mut String, ch: char)
    ensures
        final(s)@ == old(s)@.push(ch),
;

/// `pat` stands in `s` at index `i`.
pub open spec fn occurs_at(s: Seq<char>, pat: Seq<char>, i: int) -> bool {
    &&& 0 <= i
    &&& i + pat.len() <= s.len()
    &&& s.subrange(i, i + pat.len()) == pat
}

/// `pat` stands somewhere in `s`.
pub open spec fn contains(s: Seq<char>, pat: Seq<char>) -> bool {
    exists|i: int| occurs_at(s, pat, i)
}

/// `i` is the leftmost index at which `pat` stands in `s`.
pub open spec fn first_at(s: Seq<char>, pat: Seq<char>, i: int) -> bool {
    &&& occurs_at(s, pat, i)
    &&& forall|j: int| 0 <= j < i ==> !occurs_at(s, pat, j)
}

/// The index of the leftmost occurrence of `pat` in `s`, if there is one.
pub open spec fn find(s: Seq<char>, pat: Seq<char>) -> Option<int> {
    if exists|i: int| first_at(s, pat, i) {
        Some(choose|i: int| first_at(s, pat, i))
    } else {
        None
    }
}

/// The pieces of `s` between the occurrences of `pat`, taken from the left
/// without overlap. There is always at least one piece, and an empty pattern
/// splits nothing.
pub open spec fn split(s: Seq<char>, pat: Seq<char>) -> Seq<Seq<char>>
    decreases s.len(),
{
    match find(s, pat) {
        Some(i) if pat.len() > 0 => seq![s.take(i)] + split(s.skip(i + pat.len()), pat),
        _ => seq![s],
    }
}

/// What stands in `s` behind the leftmost occurrence of `pat`.
pub open spec fn after_first(s: Seq<char>, pat: Seq<char>) -> Option<Seq<char>> {
    match find(s, pat) {
        Some(i) => Some(s.skip(i + pat.len())),
        None => None,
    }
}

/// The decimal digit for `d`, which is below ten.
pub open spec fn digit(d: nat) -> char {
    if d == 0 {
        '0'
    } else if d == 1 {
        '1'
    } else if d == 2 {
        '2'
    } else if d == 3 {
        '3'
    } else if d == 4 {
        '4'
    } else if d == 5 {
        '5'
    } else if d == 6 {
        '6'
    } else if d == 7 {
        '7'
    } else if d == 8 {
        '8'
    } else {
        '9'
    }
}

/// The decimal numeral of `n`, without leading zeros.
pub open spec fn decimal(n: nat) -> Seq<char>
    decreases n,
{
    if n < 10 {
        seq![digit(n)]
    } else {
        decimal(n / 10).push(digit(n % 10))
    }
}

/// The text of a string that may be missing.
pub open spec fn text_of(s: Option<String>) -> Option<Seq<char>> {
    match s {
        Some(t) => Some(t@),
        None => None,
    }
}

/// The views of a vector of character vectors.
pub open spec fn rows(v: Seq<Vec<char>>) -> Seq<Seq<char>> {
    v.map_values(|r: Vec<char>| r@)
}

/// A split gives at least one piece.
pub proof fn lemma_split_nonempty(s: Seq<char>, pat: Seq<char>)
    ensures
        split(s, pat).len() >= 1,
{
}

/// A leftmost occurrence is the one that `find` gives.
pub proof fn lemma_find_some(s: Seq<char>, pat: Seq<char>, i: int)
    requires
        first_at(s, pat, i),
    ensures
        find(s, pat) == Some(i),
        contains(s, pat),
{
    let j = choose|j: int| first_at(s, pat, j);
    assert(j == i) by {
        if j < i {
        }
        if i < j {
        }
    }
}

/// Where the pattern stands somewhere, it stands somewhere first.
pub proof fn lemma_first_exists(s: Seq<char>, pat: Seq<char>, i: int)
    requires
        occurs_at(s, pat, i),
    ensures
        exists|j: int| 0 <= j <= i && first_at(s, pat, j),
    decreases i,
{
    if exists|j: int| 0 <= j < i && occurs_at(s, pat, j) {
        let j = choose|j: int| 0 <= j < i && occurs_at(s, pat, j);
        lemma_first_exists(s, pat, j);
    } else {
        assert(first_at(s, pat, i));
    }
}

/// `find` finds the pattern exactly where the pattern stands somewhere, and
/// then at its leftmost occurrence.
pub proof fn lemma_contains_find(s: Seq<char>, pat: Seq<char>)
    ensures
        contains(s, pat) <==> find(s, pat) is Some,
        find(s, pat) matches Some(i) ==> first_at(s, pat, i),
{
    if contains(s, pat) {
        let i = choose|i: int| occurs_at(s, pat, i);
        lemma_first_exists(s, pat, i);
    }
}

/// Where the pattern stands nowhere, `find` gives nothing.
pub proof fn lemma_find_none(s: Seq<char>, pat: Seq<char>)
    requires
        forall|i: int| !occurs_at(s, pat, i),
    ensures
        find(s, pat) is None,
        !contains(s, pat),
{
}

/// An occurrence behind the first `from` characters is an occurrence in the
/// whole, `from` places further on.
pub proof fn lemma_occurs_skip(s: Seq<char>, pat: Seq<char>, from: int, i: int)
    requires
        0 <= from <= s.len(),
        0 <= i,
    ensures
        occurs_at(s.skip(from), pat, i) <==> occurs_at(s, pat, from + i),
{
    if i + pat.len() <= s.len() - from {
        assert(s.skip(from).subrange(i, i + pat.len()) =~= s.subrange(
            from + i,
            from + i + pat.len(),
        ));
    }
}

/// Whether `pat` stands in `hay` at index `i`.
pub fn matches_at(hay: &[char], pat: &[char], i: usize) -> (r: bool)
    ensures
        r == occurs_at(hay@, pat@, i as int),
{
    if pat.len() > hay.len() || i > hay.len() - pat.len() {
        return false;
    }
    let mut k: usize = 0;
    while k < pat.len()
        invariant
            k <= pat.len(),
            i + pat.len() <= hay.len(),
            forall|j: int| 0 <= j < k ==> hay@[i + j] == pat@[j],
        decreases pat.len() - k,
    {
        if hay[i + k] != pat[k] {
            return false;
        }
        k += 1;
    }
    assert(hay@.subrange(i as int, i + pat.len()) =~= pat@);
    true
}

/// The index of the leftmost occurrence of `pat` in `hay` that starts at
/// `from` or later.
fn find_from(hay: &[char], pat: &[char], from: usize) -> (r: Option<usize>)
    requires
        from <= hay.len(),
    ensures
        match r {
            Some(i) => from <= i && find(hay@.skip(from as int), pat@) == Some(i - from),
            None => find(hay@.skip(from as int), pat@) is None,
        },
        r is Some <==> contains(hay@.skip(from as int), pat@),
{
    let ghost rest = hay@.skip(from as int);
    let mut i: usize = from;
    while i < hay.len()
        invariant
            from <= i <= hay.len(),
            rest == hay@.skip(from as int),
            forall|j: int| 0 <= j < i - from ==> !occurs_at(rest, pat@, j),
        decreases hay.len() - i,
    {
        let hit = matches_at(hay, pat, i);
        proof {
            lemma_occurs_skip(hay@, pat@, from as int, i - from);
        }
        if hit {
            proof {
                lemma_find_some(rest, pat@, i - from);
            }
            return Some(i);
        }
        i += 1;
    }
    let hit = matches_at(hay, pat, i);
    proof {
        lemma_occurs_skip(hay@, pat@, from as int, i - from);
    }
    if hit {
        proof {
            lemma_find_some(rest, pat@, i - from);
        }
        return Some(i);
    }
    proof {
        lemma_find_none(rest, pat@);
    }
    None
}

/// The index of the leftmost occurrence of `pat` in `hay`.
pub fn find_in(hay: &[char], pat: &[char]) -> (r: Option<usize>)
    ensures
        match r {
            Some(i) => find(hay@, pat@) == Some(i as int),
            None => find(hay@, pat@) is None,
        },
        r is Some <==> contains(hay@, pat@),
{
    assert(hay@.skip(0) =~= hay@);
    find_from(hay, pat, 0)
}

/// What stands in `hay` behind the leftmost occurrence of `pat`.
pub fn tail_after(hay: &[char], pat: &[char]) -> (r: Option<String>)
    ensures
        text_of(r) == after_first(hay@, pat@),
        r is Some <==> contains(hay@, pat@),
{
    match find_in(hay, pat) {
        Some(i) => {
            let end: usize = hay.len();
            Some(string_of(slice_subrange(hay, i + pat.len(), end)))
        },
        None => None,
    }
}

/// Splits `text` on `pat`.
pub fn split_on(text: &[char], pat: &[char]) -> (pieces: Vec<Vec<char>>)
    ensures
        rows(pieces@) == split(text@, pat@),
{
    let mut pieces: Vec<Vec<char>> = Vec::new();
    if pat.len() == 0 {
        pieces.push(slice_to_vec(text));
        return pieces;
    }
    let mut pos: usize = 0;
    assert(text@.skip(0) =~= text@);
    loop
        invariant_except_break
            pos <= text.len(),
            pat.len() > 0,
            split(text@, pat@) == rows(pieces@) + split(text@.skip(pos as int), pat@),
        ensures
            rows(pieces@) == split(text@, pat@),
        decreases text.len() - pos,
    {
        let ghost rest = text@.skip(pos as int);
        match find_from(text, pat, pos) {
            None => {
                pieces.push(slice_to_vec(slice_subrange(text, pos, text.len())));
                break ;
            },
            Some(i) => {
                pieces.push(slice_to_vec(slice_subrange(text, pos, i)));
                assert(rest.take(i - pos) =~= text@.subrange(pos as int, i as int));
                assert(rest.skip(i - pos + pat@.len()) =~= text@.skip(i + pat@.len()));
                pos = i + pat.len();
            },
        }
    }
    pieces
}

/// The characters of a string.
pub fn chars_of(s: &str) -> (v: Vec<char>)
    ensures
        v@ == s@,
{
    let mut v: Vec<char> = Vec::new();
    for c in it: s.chars()
        invariant
            it.seq() == s@,
            v@ == it.seq().take(it.index()),
    {
        v.push(c);
    }
    v
}

/// Appends the characters to `s`.
pub fn push_chars(s: &mut String, chars: &[char])
    ensures
        final(s)@ == old(s)@ + chars@,
{
    let mut i: usize = 0;
    while i < chars.len()
        invariant
            i <= chars.len(),
            s@ == old(s)@ + chars@.take(i as int),
        decreases chars.len() - i,
    {
        s.push(chars[i]);
        i += 1;
    }
}

/// The string made of the given characters.
pub fn string_of(chars: &[char]) -> (s: String)
    ensures
        s@ == chars@,
{
    let mut s = String::new();
    push_chars(&mut s, chars);
    s
}

/// Whether the characters are those of the string.
pub fn equals_str(chars: &[char], s: &str) -> (r: bool)
    ensures
        r == (chars@ == s@),
{
    let other = chars_of(s);
    if chars.len() != other.len() {
        return false;
    }
    let mut i: usize = 0;
    while i < chars.len()
        invariant
            i <= chars.len(),
            chars.len() == other.len(),
            other@ == s@,
            forall|j: int| 0 <= j < i ==> chars@[j] == other@[j],
        decreases chars.len() - i,
    {
        if chars[i] != other[i] {
            return false;
        }
        i += 1;
    }
    assert(chars@ =~= other@);
    true
}

/// Whether two strings hold the same characters.
pub fn same_text(a: &str, b: &str) -> (r: bool)
    ensures
        r == (a@ == b@),
{
    let x = a.as_bytes();
    let y = b.as_bytes();
    proof {
        encode_utf8_decode_utf8(a@);
        encode_utf8_decode_utf8(b@);
    }
    if x.len() != y.len() {
        return false;
    }
    let mut i: usize = 0;
    while i < x.len()
        invariant
            i <= x.len(),
            x.len() == y.len(),
            x@ == encode_utf8(a@),
            y@ == encode_utf8(b@),
            forall|j: int| 0 <= j < i ==> x@[j] == y@[j],
        decreases x.len() - i,
    {
        if x[i] != y[i] {
            return false;
        }
        i += 1;
    }
    assert(x@ =~= y@);
    true
}

/// The length of a string in bytes, which is that of its UTF-8 encoding.
pub fn byte_len(s: &str) -> (n: usize)
    ensures
        n == encode_utf8(s@).len(),
{
    s.as_bytes().len()
}

/// The decimal digit for `d`.
fn digit_char(d: usize) -> (c: char)
    requires
        d < 10,
    ensures
        c == digit(d as nat),
{
    match d {
        0 => '0',
        1 => '1',
        2 => '2',
        3 => '3',
        4 => '4',
        5 => '5',
        6 => '6',
        7 => '7',
        8 => '8',
        _ => '9',
    }
}

/// Appends the decimal numeral of `n` to `s`.
pub fn push_decimal(s: &mut String, n: usize)
    ensures
        final(s)@ == old(s)@ + decimal(n as nat),
    decreases n,
{
    if n >= 10 {
        push_decimal(s, n / 10);
    }
    s.push(digit_char(n % 10));
}

} // verus!
