//! The JSON object that a window title may hold.
//!
//! The object is looked for by its outline only: it opens with `{"` and
//! closes with `"}` whose quote is not escaped. What lies between is handed
//! to `serde_json`.

use vstd::prelude::*;
use vstd::string::StringExecFns;
use crate::tags::{tags_view, title_match_key, TagValue};
use crate::text::{find_char, position_of, substring, to_chars};

verus! {

/// What the tags read of a member's value: the text of a JSON string, or the
/// compact JSON text of any other value.
#[derive(Clone, Debug, PartialEq, Eq)]
pub enum JsonText {
    Str(String),
    Other(String),
}

/// One member of a JSON object.
#[derive(Clone, Debug, PartialEq, Eq)]
pub struct JsonMember {
    pub name: String,
    pub value: JsonText,
}

impl JsonText {
    /// The text that a tag carries for this value.
    pub open spec fn text(self) -> Seq<char> {
        match self {
            JsonText::Str(s) => s@,
            JsonText::Other(s) => s@,
        }
    }

    /// The text that a tag carries for this value.
    pub fn as_text(&self) -> (t: &str)
        ensures
            t@ == self.text(),
    {
        match self {
            JsonText::Str(s) => s.as_str(),
            JsonText::Other(s) => s.as_str(),
        }
    }
}

/// At `at` ends an object: a character that is no backslash, a quote, a brace.
pub open spec fn closes_at(s: Seq<char>, at: int) -> bool {
    0 <= at && at + 2 < s.len() && s[at] != '\\' && s[at + 1] == '"' && s[at + 2] == '}'
}

/// The last place in `lo..=hi` at which an object ends; -1 if there is none.
pub open spec fn last_close(s: Seq<char>, lo: int, hi: int) -> int
    decreases hi - lo + 1,
{
    if hi < lo {
        -1
    } else if closes_at(s, hi) {
        hi
    } else {
        last_close(s, lo, hi - 1)
    }
}

/// The candidate that opens at `at`: from `{"` to the last `"}` with an
/// unescaped quote, with no line break between the opening and the character
/// before that quote.
pub open spec fn candidate_at(s: Seq<char>, at: int) -> Option<Seq<char>> {
    let stop = find_char(s, '\n', at + 2);
    let close = last_close(s, at + 2, stop);
    if 0 <= at && at + 1 < s.len() && s[at] == '{' && s[at + 1] == '"' && close >= 0 {
        Some(s.subrange(at, close + 3))
    } else {
        None
    }
}

/// The first candidate that opens at or after `from`.
pub open spec fn first_candidate(s: Seq<char>, from: int) -> Option<Seq<char>>
    decreases s.len() - from,
{
    if from < 0 || from >= s.len() {
        None
    } else if candidate_at(s, from) is Some {
        candidate_at(s, from)
    } else {
        first_candidate(s, from + 1)
    }
}

/// The last place at which an object ends lies in the range and is such a
/// place.
proof fn lemma_last_close(s: Seq<char>, lo: int, hi: int)
    ensures
        last_close(s, lo, hi) >= 0 ==> lo <= last_close(s, lo, hi) <= hi && closes_at(
            s,
            last_close(s, lo, hi),
        ),
    decreases hi - lo + 1,
{
    if hi >= lo && !closes_at(s, hi) {
        lemma_last_close(s, lo, hi - 1);
    }
}

/// Where a candidate opens at or after `from`, the first one opens at some
/// place from there on.
proof fn lemma_first_candidate(s: Seq<char>, from: int) -> (at: int)
    requires
        0 <= from,
        first_candidate(s, from) is Some,
    ensures
        from <= at < s.len(),
        first_candidate(s, from) == candidate_at(s, at),
    decreases s.len() - from,
{
    if candidate_at(s, from) is Some {
        from
    } else {
        lemma_first_candidate(s, from + 1)
    }
}

/// A candidate opens with a brace and a quote, and closes with a quote that
/// no backslash stands before, and a brace.
pub proof fn law_candidate_outline(title: Seq<char>)
    requires
        first_candidate(title, 0) is Some,
    ensures
        ({
            let text = first_candidate(title, 0)->Some_0;
            &&& text.len() >= 5
            &&& text[0] == '{'
            &&& text[1] == '"'
            &&& text[text.len() - 3] != '\\'
            &&& text[text.len() - 2] == '"'
            &&& text[text.len() - 1] == '}'
        }),
{
    let at = lemma_first_candidate(title, 0);
    let stop = find_char(title, '\n', at + 2);
    lemma_last_close(title, at + 2, stop);
}

/// The members of the JSON object that `text` is, as `serde_json` reads it,
/// in the order in which it hands them out; `None` where `text` is not JSON
/// or is another kind of value.
pub uninterp spec fn json_object_members(text: Seq<char>) -> Option<Seq<JsonMember>>;

/// `serde_json::from_str` to a `serde_json::Value`: the members of the object
/// that `text` holds, each value a string's text or, through the `Display` of
/// `Value`, its compact JSON text. `None` where parsing fails or gives a value
/// that is no object.
#[verifier::external_body]
fn parse_object(text: &str) -> (parsed: Option<Vec<JsonMember>>)
    ensures
        match parsed {
            Some(members) => json_object_members(text@) == Some(members@),
            None => json_object_members(text@) is None,
        },
{
    match serde_json::from_str::<serde_json::Value>(text) {
        Ok(serde_json::Value::Object(object)) => Some(
            object.into_iter().map(|(name, value)| match value {
                serde_json::Value::String(s) => JsonMember { name, value: JsonText::Str(s) },
                other => JsonMember { name, value: JsonText::Other(other.to_string()) },
            }).collect(),
        ),
        _ => None,
    }
}

/// The place of the first member called `name` at or after `from`;
/// `members.len()` if there is none.
pub open spec fn member_at(members: Seq<JsonMember>, name: Seq<char>, from: int) -> int
    decreases members.len() - from,
{
    if from < 0 || from >= members.len() {
        members.len() as int
    } else if members[from].name@ == name {
        from
    } else {
        member_at(members, name, from + 1)
    }
}

/// The category of an object and the members that are reported under it.
/// The category is the member `t`, else the member `type`; that member is not
/// reported. An object with neither, but with a member `histdb`, has the
/// category `shell`. A category that is no string gives nothing.
pub open spec fn category_of(members: Seq<JsonMember>) -> Option<(Seq<char>, Seq<JsonMember>)> {
    let t = member_at(members, "t"@, 0);
    let ty = member_at(members, "type"@, 0);
    if t < members.len() {
        match members[t].value {
            JsonText::Str(category) => Some((category@, members.remove(t))),
            JsonText::Other(_) => None,
        }
    } else if ty < members.len() {
        match members[ty].value {
            JsonText::Str(category) => Some((category@, members.remove(ty))),
            JsonText::Other(_) => None,
        }
    } else if member_at(members, "histdb"@, 0) < members.len() {
        Some(("shell"@, members))
    } else {
        None
    }
}

/// One tag per member, keyed by category and member name.
pub open spec fn fields_tags(category: Seq<char>, members: Seq<JsonMember>) -> Seq<
    (Seq<char>, Seq<char>),
> {
    members.map_values(
        |member: JsonMember| (title_match_key(category, member.name@), member.value.text()),
    )
}

/// The tags of an object.
pub open spec fn member_tags(members: Seq<JsonMember>) -> Seq<(Seq<char>, Seq<char>)> {
    match category_of(members) {
        None => Seq::empty(),
        Some((category, rest)) => fields_tags(category, rest),
    }
}

/// The tags of the object in a title: those of the first candidate, where
/// `serde_json` reads it as an object.
pub open spec fn json_tags(title: Seq<char>) -> Seq<(Seq<char>, Seq<char>)> {
    match first_candidate(title, 0) {
        None => Seq::empty(),
        Some(text) => match json_object_members(text) {
            None => Seq::empty(),
            Some(members) => member_tags(members),
        },
    }
}

/// The place of the first member called `name`.
fn find_member(members: &Vec<JsonMember>, name: &str) -> (at: usize)
    ensures
        at == member_at(members@, name@, 0),
        at <= members.len(),
        at < members.len() ==> members[at as int].name@ == name@,
{
    let wanted = String::from_str(name);
    let mut i: usize = 0;
    while i < members.len() && members[i].name != wanted
        invariant
            i <= members.len(),
            wanted@ == name@,
            member_at(members@, name@, 0) == member_at(members@, name@, i as int),
        decreases members.len() - i,
    {
        i += 1;
    }
    i
}

/// The tags of the members of an object, as `member_tags` gives them.
pub fn embedded_tags(members: Vec<JsonMember>) -> (tags: Vec<TagValue>)
    ensures
        tags_view(tags@) == member_tags(members@),
{
    let mut members = members;
    let t = find_member(&members, "t");
    let ty = find_member(&members, "type");
    let category: String = if t < members.len() {
        match members.remove(t).value {
            JsonText::Str(category) => category,
            JsonText::Other(_) => {
                return Vec::new();
            },
        }
    } else if ty < members.len() {
        match members.remove(ty).value {
            JsonText::Str(category) => category,
            JsonText::Other(_) => {
                return Vec::new();
            },
        }
    } else if find_member(&members, "histdb") < members.len() {
        String::from_str("shell")
    } else {
        return Vec::new();
    };
    let mut tags: Vec<TagValue> = Vec::new();
    let mut i: usize = 0;
    while i < members.len()
        invariant
            i <= members.len(),
            tags_view(tags@) == fields_tags(category@, members@.take(i as int)),
        decreases members.len() - i,
    {
        let member = &members[i];
        let tag = TagValue::title_match(
            category.as_str(),
            member.name.as_str(),
            member.value.as_text(),
        );
        tags.push(tag);
        proof {
            assert(members@.take(i + 1) =~= members@.take(i as int).push(members@[i as int]));
            assert(fields_tags(category@, members@.take(i as int).push(members@[i as int]))
                =~= fields_tags(category@, members@.take(i as int)).push(tag@));
        }
        i += 1;
    }
    tags
}

/// The last place in `lo..=hi` at which an object ends.
fn find_last_close(chars: &Vec<char>, lo: usize, hi: usize) -> (at: Option<usize>)
    requires
        hi <= chars.len(),
    ensures
        match at {
            Some(j) => j == last_close(chars@, lo as int, hi as int) && lo <= j <= hi && j + 2
                < chars.len(),
            None => last_close(chars@, lo as int, hi as int) == -1,
        },
{
    let len = chars.len();
    let mut j = hi;
    loop
        invariant
            j <= hi <= len == chars.len(),
            last_close(chars@, lo as int, hi as int) == last_close(chars@, lo as int, j as int),
        decreases j,
    {
        if j < lo {
            return None;
        }
        if len - j > 2 && chars[j] != '\\' && chars[j + 1] == '"' && chars[j + 2] == '}' {
            return Some(j);
        }
        if j == 0 {
            assert(last_close(chars@, lo as int, -1) == -1);
            return None;
        }
        j -= 1;
    }
}

/// The first candidate in `chars`: where it opens, and the place of the
/// character before its closing quote.
fn find_candidate(chars: &Vec<char>) -> (found: Option<(usize, usize)>)
    ensures
        match found {
            None => first_candidate(chars@, 0) is None,
            Some((at, close)) => {
                &&& at + 2 <= close
                &&& close + 3 <= chars.len()
                &&& first_candidate(chars@, 0) == Some(chars@.subrange(at as int, close + 3))
            },
        },
{
    let len = chars.len();
    let mut at: usize = 0;
    while at < len
        invariant
            at <= len == chars.len(),
            first_candidate(chars@, 0) == first_candidate(chars@, at as int),
        decreases len - at,
    {
        if len - at > 1 && chars[at] == '{' && chars[at + 1] == '"' {
            let stop = position_of(chars, '\n', at + 2);
            match find_last_close(chars, at + 2, stop) {
                Some(close) => {
                    return Some((at, close));
                },
                None => {},
            }
        }
        at += 1;
    }
    None
}

/// The text in `title` that looks like a JSON object: the first candidate.
pub fn embedded_candidate(title: &str) -> (found: Option<String>)
    ensures
        match found {
            Some(text) => first_candidate(title@, 0) == Some(text@),
            None => first_candidate(title@, 0) is None,
        },
{
    let chars = to_chars(title);
    match find_candidate(&chars) {
        None => None,
        Some((at, close)) => Some(substring(&chars, at, close + 3)),
    }
}

/// The tags of the JSON object that `title` holds, as `json_tags` gives them.
pub fn title_json_tags(title: &str) -> (tags: Vec<TagValue>)
    ensures
        tags_view(tags@) == json_tags(title@),
{
    match embedded_candidate(title) {
        None => Vec::new(),
        Some(text) => match parse_object(text.as_str()) {
            None => Vec::new(),
            Some(members) => embedded_tags(members),
        },
    }
}

} // verus!
