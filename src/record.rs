use vstd::prelude::*;

use crate::text::starts_with;

verus! {

/// Where a remote emoji's image comes from.
#[derive(Debug, Clone)]
pub enum EmojiSource {
    /// The emoji has an image of its own, at this URL.
    Image(String),
    /// The emoji is another name for the emoji named here.
    Alias(String),
}

/// One custom emoji of the remote workspace.
#[derive(Debug, Clone)]
pub struct EmojiRecord {
    pub name: String,
    pub source: EmojiSource,
}

/// The marker that the listing puts before an alias target.
pub open spec fn alias_marker() -> Seq<char> {
    seq!['a', 'l', 'i', 'a', 's', ':']
}

/// Whether a listing value names an alias target rather than an image URL.
pub open spec fn is_alias_value(value: Seq<char>) -> bool {
    alias_marker().len() <= value.len() && value.subrange(0, alias_marker().len() as int)
        == alias_marker()
}

/// The source that a listing value stands for, as (is an alias, text).
pub open spec fn source_of_value(value: Seq<char>) -> (bool, Seq<char>) {
    if is_alias_value(value) {
        (true, value.subrange(alias_marker().len() as int, value.len() as int))
    } else {
        (false, value)
    }
}

impl EmojiSource {
    pub open spec fn view_pair(&self) -> (bool, Seq<char>) {
        match self {
            EmojiSource::Image(url) => (false, url@),
            EmojiSource::Alias(target) => (true, target@),
        }
    }
}

impl EmojiRecord {
    /// Builds a record from one entry of the listing: the emoji's name and its
    /// value, which is either an image URL or `alias:` followed by a target name.
    pub fn from_listing_entry(name: String, value: &str) -> (r: EmojiRecord)
        ensures
            r.name@ == name@,
            r.source.view_pair() == source_of_value(value@),
    {
        let marker = "alias:";
        proof {
            reveal_strlit("alias:");
        }
        assert(marker@ == alias_marker());
        if starts_with(value, marker) {
            let n = value.unicode_len();
            let target = value.substring_char(6, n);
            EmojiRecord { name, source: EmojiSource::Alias(String::from_str(target)) }
        } else {
            EmojiRecord { name, source: EmojiSource::Image(String::from_str(value)) }
        }
    }

    /// Whether the record has an image of its own.
    pub fn is_image(&self) -> (r: bool)
        ensures
            r == !self.source.view_pair().0,
    {
        match &self.source {
            EmojiSource::Image(_) => true,
            EmojiSource::Alias(_) => false,
        }
    }
}

} // verus!
