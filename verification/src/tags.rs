//! Tags: the key/value facts extracted from one sample.

use vstd::prelude::*;
use vstd::string::StringExecFns;

verus! {

/// One extracted fact. A list of tags is ordered and may hold a key twice.
#[derive(Clone, Debug, PartialEq, Eq)]
pub struct TagValue {
    pub tag: String,
    pub value: String,
}

impl View for TagValue {
    type V = (Seq<char>, Seq<char>);

    open spec fn view(&self) -> (Seq<char>, Seq<char>) {
        (self.tag@, self.value@)
    }
}

/// The key/value pairs of a tag list, in order.
pub open spec fn tags_view(tags: Seq<TagValue>) -> Seq<(Seq<char>, Seq<char>)> {
    tags.map_values(|t: TagValue| t@)
}

/// The key under which a structured title field is reported:
/// `title-match-{category}-{field}`.
pub open spec fn title_match_key(category: Seq<char>, field: Seq<char>) -> Seq<char> {
    "title-match-"@ + category + "-"@ + field
}

impl TagValue {
    /// The tag `key` = `value`.
    pub fn new(key: &str, value: &str) -> (t: TagValue)
        ensures
            t@ == (key@, value@),
    {
        TagValue { tag: String::from_str(key), value: String::from_str(value) }
    }

    /// The tag `title-match-{category}-{field}` = `value`.
    pub fn title_match(category: &str, field: &str, value: &str) -> (t: TagValue)
        ensures
            t@ == (title_match_key(category@, field@), value@),
    {
        let mut key = String::from_str("title-match-");
        key.append(category);
        key.append("-");
        key.append(field);
        TagValue { tag: key, value: String::from_str(value) }
    }
}

} // verus!
