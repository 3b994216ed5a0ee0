//! Translations of the texts that a game shows.

use vstd::prelude::*;
use vstd::string::StringExecFns;

verus! {

/// A text by its key.
#[derive(Clone, PartialEq, Eq, Debug)]
pub struct Translation {
    pub key: String,
    pub value: String,
}

/// The translations of one language.
#[derive(Clone, PartialEq, Eq, Debug)]
pub struct Translations {
    pub entries: Vec<Translation>,
}

/// Where the text for `key` stands among the first `upto` entries; of two
/// entries with the same key the later one counts.
pub open spec fn entry_at(entries: Seq<Translation>, key: Seq<char>, upto: int) -> Option<int>
    decreases upto,
{
    if upto <= 0 {
        None
    } else if entries[upto - 1].key@ == key {
        Some(upto - 1)
    } else {
        entry_at(entries, key, upto - 1)
    }
}

/// The text for `key`, or the key itself where no text is known.
pub open spec fn translated(entries: Seq<Translation>, key: Seq<char>) -> Seq<char> {
    match entry_at(entries, key, entries.len() as int) {
        Some(at) => entries[at].value@,
        None => key,
    }
}

/// Takes the translations as they were read.
pub fn load_translations(entries: Vec<Translation>) -> (translations: Translations)
    ensures
        translations.entries == entries,
{
    Translations { entries }
}

impl Translations {
    /// The text for `key` in this language; a key without text stands for
    /// itself.
    pub fn tr<'a>(&'a self, key: &'a str) -> (text: &'a str)
        ensures
            text@ == translated(self.entries@, key@),
    {
        let wanted = String::from_str(key);
        let mut i = self.entries.len();
        while i > 0
            invariant
                i <= self.entries@.len(),
                wanted@ == key@,
                entry_at(self.entries@, key@, self.entries@.len() as int) == entry_at(
                    self.entries@,
                    key@,
                    i as int,
                ),
            decreases i,
        {
            i = i - 1;
            if self.entries[i].key == wanted {
                return self.entries[i].value.as_str();
            }
        }
        key
    }
}

} // verus!
