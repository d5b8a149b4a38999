//! The marker block of a window title:
//! `OPEN category ARROW_IN key=value (SEPARATOR key=value)* ARROW_OUT`.

use vstd::prelude::*;
use crate::error::ExtractError;
use crate::tags::{tags_view, title_match_key, TagValue};
use crate::text::{
    find_char, lemma_find_char, lemma_split_piece, position_of, split, split_from, substring,
    to_chars,
};

verus! {

/// Opens a marker block.
pub const OPEN: char = '\u{1F6E4}';

/// Stands between the category and the first group.
pub const ARROW_IN: char = '\u{1F81A}';

/// Stands between two groups.
pub const SEPARATOR: char = '\u{1F670}';

/// Closes a marker block.
pub const ARROW_OUT: char = '\u{1F818}';

/// A category is made of lowercase letters.
pub open spec fn is_category_char(c: char) -> bool {
    'a' <= c && c <= 'z'
}

/// A key is made of lowercase letters and digits.
pub open spec fn is_key_char(c: char) -> bool {
    ('a' <= c && c <= 'z') || ('0' <= c && c <= '9')
}

/// At `at` stands `OPEN`, then a category of `n` letters, then `ARROW_IN`.
pub open spec fn header_at(s: Seq<char>, at: int, n: int) -> bool {
    &&& 0 <= at
    &&& 2 <= n <= 5
    &&& at + n + 1 < s.len()
    &&& s[at] == OPEN
    &&& forall|k: int| at < k <= at + n ==> is_category_char(#[trigger] s[k])
    &&& s[at + n + 1] == ARROW_IN
}

/// The length of the category of the header at `at`; 0 where no header stands.
pub open spec fn category_len(s: Seq<char>, at: int) -> int {
    if header_at(s, at, 2) {
        2
    } else if header_at(s, at, 3) {
        3
    } else if header_at(s, at, 4) {
        4
    } else if header_at(s, at, 5) {
        5
    } else {
        0
    }
}

/// A marker block: its category, and the text between `ARROW_IN` and the
/// next `ARROW_OUT`.
pub struct MarkerBlock {
    pub category: Seq<char>,
    pub body: Seq<char>,
}

/// The block whose `OPEN` stands at `at`, if a header stands there and an
/// `ARROW_OUT` follows it.
pub open spec fn block_at(s: Seq<char>, at: int) -> Option<MarkerBlock> {
    let n = category_len(s, at);
    let end = find_char(s, ARROW_OUT, at + n + 2);
    if n > 0 && end < s.len() {
        Some(MarkerBlock { category: s.subrange(at + 1, at + 1 + n), body: s.subrange(at + n + 2, end) })
    } else {
        None
    }
}

/// The first block that opens at or after `from`.
pub open spec fn first_block(s: Seq<char>, from: int) -> Option<MarkerBlock>
    decreases s.len() - from,
{
    if from < 0 || from >= s.len() {
        None
    } else if block_at(s, from) is Some {
        block_at(s, from)
    } else {
        first_block(s, from + 1)
    }
}

/// One group `key=value`: a key of one or more key characters, `=`, and the
/// rest as the value.
pub open spec fn parse_pair(piece: Seq<char>) -> Option<(Seq<char>, Seq<char>)> {
    let eq = find_char(piece, '=', 0);
    if 0 < eq < piece.len() && (forall|k: int| 0 <= k < eq ==> is_key_char(#[trigger] piece[k])) {
        Some((piece.take(eq), piece.skip(eq + 1)))
    } else {
        None
    }
}

/// The pair that each of `pieces` reads as.
pub open spec fn pairs_of(pieces: Seq<Seq<char>>) -> Seq<(Seq<char>, Seq<char>)> {
    pieces.map_values(|piece: Seq<char>| parse_pair(piece).unwrap())
}

/// The pairs of a block's body, in order; `None` where one group is not a pair.
pub open spec fn block_pairs(body: Seq<char>) -> Option<Seq<(Seq<char>, Seq<char>)>> {
    let pieces = split(body, SEPARATOR);
    if forall|i: int| 0 <= i < pieces.len() ==> parse_pair(#[trigger] pieces[i]) is Some {
        Some(pairs_of(pieces))
    } else {
        None
    }
}

/// The tags of a block: one per pair, keyed by category and key.
pub open spec fn block_tags(category: Seq<char>, pairs: Seq<(Seq<char>, Seq<char>)>) -> Seq<
    (Seq<char>, Seq<char>),
> {
    pairs.map_values(|pair: (Seq<char>, Seq<char>)| (title_match_key(category, pair.0), pair.1))
}

/// What the marker block of a title gives: no tags where the title holds no
/// block, the tags of the first block where each of its groups is a pair, and
/// a failure where one is not.
pub open spec fn marker_tags(title: Seq<char>) -> Result<Seq<(Seq<char>, Seq<char>)>, ExtractError> {
    match first_block(title, 0) {
        None => Ok(Seq::empty()),
        Some(block) => match block_pairs(block.body) {
            None => Err(ExtractError::MalformedMarkerBlock),
            Some(pairs) => Ok(block_tags(block.category, pairs)),
        },
    }
}

/// Where a block opens at or after `from`, the first one opens at some place
/// from there on.
proof fn lemma_first_block(s: Seq<char>, from: int) -> (at: int)
    requires
        0 <= from,
        first_block(s, from) is Some,
    ensures
        from <= at < s.len(),
        first_block(s, from) == block_at(s, at),
    decreases s.len() - from,
{
    if block_at(s, from) is Some {
        from
    } else {
        lemma_first_block(s, from + 1)
    }
}

/// The value of a tag of a marker block holds neither a separator nor the
/// closing arrow.
pub proof fn law_marker_values_hold_no_glyph(title: Seq<char>, i: int, k: int)
    requires
        marker_tags(title) is Ok,
        0 <= i < marker_tags(title)->Ok_0.len(),
        0 <= k < marker_tags(title)->Ok_0[i].1.len(),
    ensures
        marker_tags(title)->Ok_0[i].1[k] != SEPARATOR,
        marker_tags(title)->Ok_0[i].1[k] != ARROW_OUT,
{
    let at = lemma_first_block(title, 0);
    let block = first_block(title, 0)->Some_0;
    let n = category_len(title, at);
    lemma_find_char(title, ARROW_OUT, at + n + 2);
    let pieces = split(block.body, SEPARATOR);
    let piece = pieces[i];
    let eq = find_char(piece, '=', 0);
    lemma_split_piece(block.body, SEPARATOR, 0, i, eq + 1 + k);
}

/// The category of a marker block is made of two to five lowercase letters,
/// and each key of one or more lowercase letters and digits.
pub proof fn law_marker_names_are_plain(title: Seq<char>)
    requires
        first_block(title, 0) is Some,
    ensures
        2 <= first_block(title, 0)->Some_0.category.len() <= 5,
        forall|k: int|
            0 <= k < first_block(title, 0)->Some_0.category.len() ==> is_category_char(
                #[trigger] first_block(title, 0)->Some_0.category[k],
            ),
        block_pairs(first_block(title, 0)->Some_0.body) matches Some(pairs) ==> forall|i: int|
            0 <= i < pairs.len() ==> (#[trigger] pairs[i]).0.len() > 0 && forall|k: int|
                0 <= k < pairs[i].0.len() ==> is_key_char(#[trigger] pairs[i].0[k]),
{
    lemma_first_block(title, 0);
}

fn is_category(c: char) -> (b: bool)
    ensures
        b == is_category_char(c),
{
    'a' <= c && c <= 'z'
}

fn is_key(c: char) -> (b: bool)
    ensures
        b == is_key_char(c),
{
    ('a' <= c && c <= 'z') || ('0' <= c && c <= '9')
}

/// The length of the category of the header at `at`; 0 where none stands.
fn category_length(chars: &Vec<char>, at: usize) -> (n: usize)
    ensures
        n == category_len(chars@, at as int),
        n == 0 || (2 <= n <= 5 && at + n + 1 < chars.len()),
{
    let len = chars.len();
    if at >= len || chars[at] != OPEN {
        return 0;
    }
    let mut run: usize = 0;
    while run < 6 && run + 1 < len - at && is_category(chars[at + 1 + run])
        invariant
            at < len == chars.len(),
            run <= 6,
            run < len - at,
            forall|k: int| at < k <= at + run ==> is_category_char(#[trigger] chars@[k]),
        decreases 6 - run,
    {
        run += 1;
    }
    let ghost s = chars@;
    assert(forall|n: int| 2 <= n <= 5 && n > run ==> !header_at(s, at as int, n)) by {
        assert forall|n: int| 2 <= n <= 5 && n > run implies !header_at(s, at as int, n) by {
        }
    }
    if 2 <= run && run <= 5 && run + 1 < len - at && chars[at + 1 + run] == ARROW_IN {
        run
    } else {
        0
    }
}

/// Where the first block of `chars` lies: the place of its `OPEN`, the length
/// of its category, and the place of its `ARROW_OUT`.
fn find_block(chars: &Vec<char>) -> (found: Option<(usize, usize, usize)>)
    ensures
        match found {
            None => first_block(chars@, 0) is None,
            Some((at, n, end)) => {
                &&& n == category_len(chars@, at as int)
                &&& 2 <= n <= 5
                &&& at + n + 2 <= end < chars.len()
                &&& end == find_char(chars@, ARROW_OUT, at + n + 2)
                &&& first_block(chars@, 0) == block_at(chars@, at as int)
                &&& block_at(chars@, at as int) is Some
            },
        },
{
    let mut at: usize = 0;
    while at < chars.len()
        invariant
            at <= chars.len(),
            first_block(chars@, 0) == first_block(chars@, at as int),
        decreases chars.len() - at,
    {
        let n = category_length(chars, at);
        if n > 0 {
            let end = position_of(chars, ARROW_OUT, at + n + 2);
            if end < chars.len() {
                return Some((at, n, end));
            }
        }
        at += 1;
    }
    None
}

/// The characters `chars[from..to]`.
fn slice_of(chars: &Vec<char>, from: usize, to: usize) -> (part: Vec<char>)
    requires
        from <= to <= chars.len(),
    ensures
        part@ == chars@.subrange(from as int, to as int),
{
    let mut part: Vec<char> = Vec::new();
    let mut i = from;
    while i < to
        invariant
            from <= i <= to <= chars.len(),
            part@ == chars@.subrange(from as int, i as int),
        decreases to - i,
    {
        part.push(chars[i]);
        i += 1;
    }
    part
}

/// Reads one group as `key=value`.
fn read_pair(piece: &Vec<char>) -> (pair: Option<(String, String)>)
    ensures
        match pair {
            None => parse_pair(piece@) is None,
            Some((key, value)) => parse_pair(piece@) == Some((key@, value@)),
        },
{
    let eq = position_of(piece, '=', 0);
    if eq == 0 || eq >= piece.len() {
        return None;
    }
    let mut k: usize = 0;
    while k < eq
        invariant
            k <= eq < piece.len(),
            eq == find_char(piece@, '=', 0),
            forall|j: int| 0 <= j < k ==> is_key_char(#[trigger] piece@[j]),
        decreases eq - k,
    {
        if !is_key(piece[k]) {
            return None;
        }
        k += 1;
    }
    let key = substring(piece, 0, eq);
    let value = substring(piece, eq + 1, piece.len());
    Some((key, value))
}

/// The category and the body of the first marker block of `title`.
pub fn marker_block(title: &str) -> (found: Option<(String, String)>)
    ensures
        match found {
            Some((category, body)) => first_block(title@, 0) == Some(
                MarkerBlock { category: category@, body: body@ },
            ),
            None => first_block(title@, 0) is None,
        },
{
    let chars = to_chars(title);
    match find_block(&chars) {
        None => None,
        Some((at, n, end)) => Some(
            (substring(&chars, at + 1, at + 1 + n), substring(&chars, at + n + 2, end)),
        ),
    }
}

/// The tags of the marker block of `title`: none where the title holds no
/// block; `MalformedMarkerBlock` where a group of the first block is not
/// `key=value`; else one tag per pair, in the order of the block.
pub fn title_marker_tags(title: &str) -> (result: Result<Vec<TagValue>, ExtractError>)
    ensures
        match result {
            Ok(tags) => marker_tags(title@) == Ok::<_, ExtractError>(tags_view(tags@)),
            Err(e) => marker_tags(title@) == Err::<Seq<(Seq<char>, Seq<char>)>, _>(e),
        },
{
    let (category, body) = match marker_block(title) {
        None => {
            assert(tags_view(Seq::<TagValue>::empty()) =~= Seq::empty());
            return Ok(Vec::new());
        },
        Some(block) => block,
    };
    let body = to_chars(body.as_str());
    let ghost pieces = split(body@, SEPARATOR);
    let mut tags: Vec<TagValue> = Vec::new();
    let mut from: usize = 0;
    let ghost mut done: Seq<Seq<char>> = Seq::empty();
    loop
        invariant
            from <= body.len(),
            pieces == split(body@, SEPARATOR),
            pieces == done + split_from(body@, SEPARATOR, from as int),
            forall|i: int| 0 <= i < done.len() ==> parse_pair(#[trigger] done[i]) is Some,
            tags_view(tags@) == block_tags(category@, pairs_of(done)),
            first_block(title@, 0) == Some(MarkerBlock { category: category@, body: body@ }),
        decreases body.len() - from,
    {
        let cut = position_of(&body, SEPARATOR, from);
        let piece = slice_of(&body, from, cut);
        proof {
            lemma_find_char(body@, SEPARATOR, from as int);
        }
        assert(pieces[done.len() as int] == piece@);
        match read_pair(&piece) {
            None => {
                return Err(ExtractError::MalformedMarkerBlock);
            },
            Some((key, value)) => {
                let tag = TagValue::title_match(category.as_str(), key.as_str(), value.as_str());
                let ghost before = tags@;
                tags.push(tag);
                proof {
                    assert(tags_view(tags@) =~= tags_view(before).push(tag@));
                    assert(pairs_of(done.push(piece@)) =~= pairs_of(done).push((key@, value@)));
                    assert(block_tags(category@, pairs_of(done).push((key@, value@)))
                        =~= block_tags(category@, pairs_of(done)).push(tag@));
                    done = done.push(piece@);
                }
            },
        }
        if cut >= body.len() {
            assert(pieces =~= done);
            return Ok(tags);
        }
        from = cut + 1;
    }
}

} // verus!
