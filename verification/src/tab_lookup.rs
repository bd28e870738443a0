//! How an adapter finds the tab that a selector names: among the tabs of the
//! connections that are open, then in the target's directory, which is read
//! anew once if the tab is in neither.

use vstd::prelude::*;
use crate::instructions::TabSelector;
use crate::cef::WebContent;

verus! {

/// Whether a regular expression has a match anywhere in a text, as the
/// `regex` crate finds it. It speaks of patterns that compile; of others it
/// says nothing that is used.
pub uninterp spec fn regex_finds(pattern: Seq<char>, text: Seq<char>) -> bool;

/// Compiles the pattern with `regex::Regex::new` and searches the text with
/// `Regex::is_match`. A pattern that does not compile gives the error's
/// message. Whether a pattern compiles is left open: it depends on a size
/// limit. For one that does, the answer is the one that the name stands for.
#[verifier::external_body]
pub(crate) fn pattern_matches(pattern: &str, text: &str) -> (r: Result<bool, String>)
    ensures
        r matches Ok(found) ==> found == regex_finds(pattern@, text@),
{
    regex::Regex::new(pattern).map(|re| re.is_match(text)).map_err(|e| e.to_string())
}

/// What is known of a tab that a connection reaches.
#[derive(Debug, Clone, PartialEq, Eq)]
pub struct TargetInfo {
    /// Identifier of the tab
    pub target_id: String,
    /// Title of the tab
    pub title: String,
    /// URL of the tab
    pub url: String,
    /// Identifier of the tab that opened it, if one did
    pub opener_id: Option<String>,
    /// Identifier of its browser context, if it has one
    pub browser_context_id: Option<String>,
}

/// Whether an optional text is there and is the given text.
pub open spec fn is_text(known: Option<String>, wanted: Seq<char>) -> bool {
    match known {
        Some(text) => text@ == wanted,
        None => false,
    }
}

fn same_text(known: &Option<String>, wanted: &String) -> (r: bool)
    ensures
        r == is_text(*known, wanted@),
{
    match known {
        Some(text) => *text == *wanted,
        None => false,
    }
}

impl TabSelector {
    /// Whether the selector asks for a pattern to be matched.
    pub open spec fn is_pattern(&self) -> bool {
        *self is TitleRegex || *self is UrlRegex
    }

    /// Whether the selector names the tab of a directory record: by its
    /// title, its URL or its identifier, exactly or by a pattern.
    pub open spec fn selects_record(&self, record: crate::cef::WebContentView) -> bool {
        match self {
            TabSelector::Title(title) => title@ == record.title,
            TabSelector::TitleRegex(pattern) => regex_finds(pattern@, record.title),
            TabSelector::Url(url) => url@ == record.url,
            TabSelector::UrlRegex(pattern) => regex_finds(pattern@, record.url),
            TabSelector::Id(id) => id@ == record.id,
        }
    }

    /// Whether the selector names a tab that a connection reaches. An
    /// identifier names the tab itself, the tabs that it opened and the tabs
    /// of the browser context.
    pub open spec fn selects_target(&self, info: TargetInfo) -> bool {
        match self {
            TabSelector::Title(title) => title@ == info.title@,
            TabSelector::TitleRegex(pattern) => regex_finds(pattern@, info.title@),
            TabSelector::Url(url) => url@ == info.url@,
            TabSelector::UrlRegex(pattern) => regex_finds(pattern@, info.url@),
            TabSelector::Id(id) => id@ == info.target_id@ || is_text(info.opener_id, id@) || is_text(
                info.browser_context_id,
                id@,
            ),
        }
    }

    /// Tells whether the selector names the tab of a directory record. Only
    /// a pattern can fail, with the message of the error.
    pub fn matches_record(&self, record: &WebContent) -> (r: Result<bool, String>)
        ensures
            r matches Ok(found) ==> found == self.selects_record(record@),
            r is Err ==> self.is_pattern(),
    {
        match self {
            TabSelector::Title(title) => Ok(String::from_str(record.title()) == *title),
            TabSelector::TitleRegex(pattern) => pattern_matches(pattern.as_str(), record.title()),
            TabSelector::Url(url) => Ok(String::from_str(record.url()) == *url),
            TabSelector::UrlRegex(pattern) => pattern_matches(pattern.as_str(), record.url()),
            TabSelector::Id(id) => Ok(String::from_str(record.id()) == *id),
        }
    }

    /// Tells whether the selector names a tab that a connection reaches.
    /// Only a pattern can fail, with the message of the error.
    pub fn matches_target(&self, info: &TargetInfo) -> (r: Result<bool, String>)
        ensures
            r matches Ok(found) ==> found == self.selects_target(*info),
            r is Err ==> self.is_pattern(),
    {
        match self {
            TabSelector::Title(title) => Ok(info.title == *title),
            TabSelector::TitleRegex(pattern) => pattern_matches(pattern.as_str(), info.title.as_str()),
            TabSelector::Url(url) => Ok(info.url == *url),
            TabSelector::UrlRegex(pattern) => pattern_matches(pattern.as_str(), info.url.as_str()),
            TabSelector::Id(id) => Ok(
                info.target_id == *id || same_text(&info.opener_id, id) || same_text(&info.browser_context_id, id),
            ),
        }
    }

    /// Finds the first record of the directory whose tab the selector
    /// names. The search ends at the first record that it names, or with the
    /// error of the first record at which the pattern failed.
    pub fn find_record(&self, directory: &Vec<WebContent>) -> (r: Result<Option<usize>, String>)
        ensures
            match r {
                Ok(Some(i)) => {
                    &&& i < directory@.len()
                    &&& self.selects_record(directory@[i as int]@)
                    &&& forall|j: int| 0 <= j < i ==> !self.selects_record(#[trigger] directory@[j]@)
                },
                Ok(None) => forall|j: int| 0 <= j < directory@.len() ==> !self.selects_record(#[trigger] directory@[j]@),
                Err(_) => self.is_pattern() && directory@.len() > 0,
            },
    {
        let mut i: usize = 0;
        while i < directory.len()
            invariant
                i <= directory@.len(),
                forall|j: int| 0 <= j < i ==> !self.selects_record(#[trigger] directory@[j]@),
            decreases directory@.len() - i,
        {
            match self.matches_record(&directory[i]) {
                Ok(found) => {
                    if found {
                        return Ok(Some(i));
                    }
                },
                Err(message) => {
                    return Err(message);
                },
            }
            i += 1;
        }
        Ok(None)
    }

    /// Finds the first of the tabs that connections reach which the
    /// selector names. The search ends at the first tab that it names, or
    /// with the error of the first tab at which the pattern failed.
    pub fn find_target(&self, targets: &Vec<TargetInfo>) -> (r: Result<Option<usize>, String>)
        ensures
            match r {
                Ok(Some(i)) => {
                    &&& i < targets@.len()
                    &&& self.selects_target(targets@[i as int])
                    &&& forall|j: int| 0 <= j < i ==> !self.selects_target(#[trigger] targets@[j])
                },
                Ok(None) => forall|j: int| 0 <= j < targets@.len() ==> !self.selects_target(#[trigger] targets@[j]),
                Err(_) => self.is_pattern() && targets@.len() > 0,
            },
    {
        let mut i: usize = 0;
        while i < targets.len()
            invariant
                i <= targets@.len(),
                forall|j: int| 0 <= j < i ==> !self.selects_target(#[trigger] targets@[j]),
            decreases targets@.len() - i,
        {
            match self.matches_target(&targets[i]) {
                Ok(found) => {
                    if found {
                        return Ok(Some(i));
                    }
                },
                Err(message) => {
                    return Err(message);
                },
            }
            i += 1;
        }
        Ok(None)
    }
}

/// Where a tab is looked for.
#[derive(Debug, Clone, Copy, PartialEq, Eq)]
pub enum Place {
    /// Among the tabs of the connections that are open
    Connections,
    /// In the target's directory
    Directory,
}

/// A search that is to be made.
#[derive(Debug, Clone, Copy, PartialEq, Eq)]
pub struct Search {
    /// Where to look
    pub place: Place,
    /// Whether the directory may still be read anew
    pub can_refresh: bool,
}

/// What to do next to find a tab.
#[derive(Debug, Clone, Copy, PartialEq, Eq)]
pub enum Lookup {
    /// Make this search.
    Look(Search),
    /// Read the directory anew.
    Refresh,
    /// The tab is found.
    Found,
    /// There is no such tab.
    Missing,
}

impl Search {
    /// The search that a lookup starts with.
    pub open spec fn first() -> Search {
        Search { place: Place::Connections, can_refresh: true }
    }

    /// What follows a search: nothing more if it found the tab; the
    /// directory after the connections; after the directory, reading it anew
    /// if that may still be done, else the tab is missing.
    pub open spec fn followed(self, found: bool) -> Lookup {
        if found {
            Lookup::Found
        } else {
            match self.place {
                Place::Connections => Lookup::Look(Search { place: Place::Directory, can_refresh: self.can_refresh }),
                Place::Directory => if self.can_refresh {
                    Lookup::Refresh
                } else {
                    Lookup::Missing
                },
            }
        }
    }

    /// What follows reading the directory anew: the whole search once more,
    /// without another reading, or the tab is missing if the reading failed.
    pub open spec fn refreshed(read: bool) -> Lookup {
        if read {
            Lookup::Look(Search { place: Place::Connections, can_refresh: false })
        } else {
            Lookup::Missing
        }
    }

    /// Starts a lookup.
    pub fn start() -> (r: Search)
        ensures
            r == Search::first(),
    {
        Search { place: Place::Connections, can_refresh: true }
    }

    /// Says what follows a search that found the tab or did not. A search
    /// that failed counts as one that did not find it.
    pub fn after(&self, found: bool) -> (r: Lookup)
        ensures
            r == self.followed(found),
    {
        if found {
            Lookup::Found
        } else {
            match self.place {
                Place::Connections => Lookup::Look(Search { place: Place::Directory, can_refresh: self.can_refresh }),
                Place::Directory => if self.can_refresh {
                    Lookup::Refresh
                } else {
                    Lookup::Missing
                },
            }
        }
    }

    /// Says what follows reading the directory anew.
    pub fn after_refresh(read: bool) -> (r: Lookup)
        ensures
            r == Search::refreshed(read),
    {
        if read {
            Lookup::Look(Search { place: Place::Connections, can_refresh: false })
        } else {
            Lookup::Missing
        }
    }

    /// A lookup reads the directory anew at most once: after a search that
    /// follows such a reading, no other reading is asked for, and where the
    /// directory does not hold the tab either, the tab is missing.
    pub proof fn lemma_one_refresh(found_in_connections: bool, found_in_directory: bool)
        ensures
            Search::refreshed(true) matches Lookup::Look(again) && !again.can_refresh && (again.followed(
                found_in_connections,
            ) matches Lookup::Look(last) ==> !(last.followed(found_in_directory) is Refresh)),
            !found_in_connections && !found_in_directory ==> (Search {
                place: Place::Directory,
                can_refresh: false,
            }).followed(found_in_directory) is Missing,
    {
    }
}

} // verus!
