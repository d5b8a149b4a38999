//! Character-level helpers shared by the title grammars.

use vstd::prelude::*;
use vstd::string::StringExecFns;

verus! {

/// Index of the first `c` in `s` at or after `from`; `s.len()` if there is none.
pub open spec fn find_char(s: Seq<char>, c: char, from: int) -> int
    decreases s.len() - from,
{
    if from < 0 || from >= s.len() {
        s.len() as int
    } else if s[from] == c {
        from
    } else {
        find_char(s, c, from + 1)
    }
}

/// `find_char` returns the least index at or after `from` that holds `c`.
pub proof fn lemma_find_char(s: Seq<char>, c: char, from: int)
    requires
        0 <= from <= s.len(),
    ensures
        from <= find_char(s, c, from) <= s.len(),
        find_char(s, c, from) < s.len() ==> s[find_char(s, c, from)] == c,
        forall|k: int| from <= k < find_char(s, c, from) ==> s[k] != c,
    decreases s.len() - from,
{
    if from < s.len() && s[from] != c {
        lemma_find_char(s, c, from + 1);
    }
}

/// The pieces of `s` from `from` on, cut at every `sep`. A text without `sep`
/// is one piece; two adjacent separators enclose an empty piece.
pub open spec fn split_from(s: Seq<char>, sep: char, from: int) -> Seq<Seq<char>>
    decreases s.len() - from,
{
    let cut = find_char(s, sep, from);
    if from < 0 || from > s.len() {
        Seq::empty()
    } else if cut >= s.len() {
        seq![s.subrange(from, s.len() as int)]
    } else {
        proof {
            lemma_find_char(s, sep, from);
        }
        seq![s.subrange(from, cut)] + split_from(s, sep, cut + 1)
    }
}

/// The pieces of `s`, cut at every `sep`.
pub open spec fn split(s: Seq<char>, sep: char) -> Seq<Seq<char>> {
    split_from(s, sep, 0)
}

/// A piece of a split text holds no separator, and nothing that the text
/// does not hold.
pub proof fn lemma_split_piece(s: Seq<char>, sep: char, from: int, i: int, k: int)
    requires
        0 <= from <= s.len(),
        0 <= i < split_from(s, sep, from).len(),
        0 <= k < split_from(s, sep, from)[i].len(),
    ensures
        split_from(s, sep, from)[i][k] != sep,
        s.contains(split_from(s, sep, from)[i][k]),
    decreases s.len() - from,
{
    lemma_find_char(s, sep, from);
    let cut = find_char(s, sep, from);
    if i == 0 {
    } else {
        lemma_split_piece(s, sep, cut + 1, i - 1, k);
    }
}

/// The characters of a string slice, in order.
pub fn to_chars(s: &str) -> (chars: Vec<char>)
    ensures
        chars@ == s@,
{
    let mut chars: Vec<char> = Vec::new();
    for c in it: s.chars()
        invariant
            chars@ == it.seq().take(it.index()),
            it.seq() == s@,
    {
        chars.push(c);
    }
    chars
}

/// `String::push`: appends one character to the end of the string.
#[verifier::external_body]
pub(crate) fn push_char(s: &mut String, c: char)
    ensures
        final(s)@ == old(s)@.push(c),
{
    s.push(c);
}

/// The characters `chars[from..to]` as a string.
pub fn substring(chars: &Vec<char>, from: usize, to: usize) -> (s: String)
    requires
        from <= to <= chars.len(),
    ensures
        s@ == chars@.subrange(from as int, to as int),
{
    let mut s = String::new();
    let mut i = from;
    while i < to
        invariant
            from <= i <= to <= chars.len(),
            s@ == chars@.subrange(from as int, i as int),
        decreases to - i,
    {
        push_char(&mut s, chars[i]);
        i += 1;
    }
    s
}

/// Position of the first `c` in `chars` at or after `from`.
pub fn position_of(chars: &Vec<char>, c: char, from: usize) -> (at: usize)
    requires
        from <= chars.len(),
    ensures
        at == find_char(chars@, c, from as int),
        from <= at <= chars.len(),
{
    let mut i = from;
    while i < chars.len() && chars[i] != c
        invariant
            from <= i <= chars.len(),
            find_char(chars@, c, from as int) == find_char(chars@, c, i as int),
        decreases chars.len() - i,
    {
        i += 1;
    }
    i
}

/// Whether two texts hold the same characters.
pub fn same_text(a: &str, b: &str) -> (same: bool)
    ensures
        same == (a@ == b@),
{
    String::from_str(a) == String::from_str(b)
}

/// The concatenation of two texts.
pub fn append_text(a: &str, b: &str) -> (s: String)
    ensures
        s@ == a@ + b@,
{
    let mut s = String::from_str(a);
    s.append(b);
    s
}

/// The texts that strings hold.
pub open spec fn texts(strings: Seq<String>) -> Seq<Seq<char>> {
    strings.map_values(|s: String| s@)
}

/// The pieces of `chars`, cut at every `sep`.
pub fn split_chars(chars: &Vec<char>, sep: char) -> (pieces: Vec<String>)
    ensures
        texts(pieces@) == split(chars@, sep),
        pieces.len() > 0,
{
    let mut pieces: Vec<String> = Vec::new();
    let mut from: usize = 0;
    loop
        invariant
            from <= chars.len(),
            split(chars@, sep) == texts(pieces@) + split_from(chars@, sep, from as int),
        decreases chars.len() - from,
    {
        let cut = position_of(chars, sep, from);
        let piece = substring(chars, from, cut);
        proof {
            lemma_find_char(chars@, sep, from as int);
        }
        pieces.push(piece);
        if cut >= chars.len() {
            return pieces;
        }
        from = cut + 1;
    }
}

} // verus!
