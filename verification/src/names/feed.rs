//! The rename feed: its deltas, and the one authenticated GET that fetches
//! them since a cursor.

use vstd::prelude::*;

use crate::text::{append, opt_view, owned, strip_end, trim_end_char, Text};

verus! {

/// A single rename: the value as it used to be stored, and what it is now.
#[derive(Debug, Clone, PartialEq, Eq)]
pub struct Rename {
    pub old: String,
    pub current: String,
}

/// Everything that changed since a cursor. `now` is the cursor to store and
/// pass as the next `since`.
#[derive(Debug, Clone, PartialEq, Eq)]
pub struct NameDeltas {
    pub now: String,
    pub users: Vec<Rename>,
    pub groups: Vec<Rename>,
}

impl NameDeltas {
    /// No user and no group renames.
    pub fn is_empty(&self) -> (r: bool)
        ensures
            r == (self.users@.len() == 0 && self.groups@.len() == 0),
    {
        self.users.len() == 0 && self.groups.len() == 0
    }
}

/// The feed client's address and credential.
#[derive(Debug, Clone)]
pub struct NameFeed {
    pub base_url: String,
    pub token: String,
}

pub const FEED_PATH: &'static str = "/api/v3/forest_school/name_changes/";

/// The request a fetch makes.
#[derive(Debug, Clone, PartialEq, Eq)]
pub struct FeedRequest {
    pub url: String,
    pub authorization: String,
    /// `since=<cursor>` when a cursor is given.
    pub since: Option<String>,
}

impl NameFeed {
    /// A feed at `base_url` (trailing slashes dropped) authenticated by
    /// `token`.
    pub fn new<B: Text, T: Text>(base_url: B, token: T) -> (r: Self)
        ensures
            r.base_url@ == strip_end(base_url.text(), '/'),
            r.token@ == token.text(),
    {
        let b = base_url.into_string();
        NameFeed { base_url: trim_end_char(b.as_str(), '/'), token: token.into_string() }
    }

    /// The GET that fetches the deltas since `since`.
    pub fn request(&self, since: Option<&str>) -> (r: FeedRequest)
        ensures
            r.url@ == self.base_url@ + FEED_PATH@,
            r.authorization@ == "Bearer "@ + self.token@,
            opt_view(r.since) == crate::config::values::opt_str(since),
    {
        let mut url = self.base_url.clone();
        append(&mut url, FEED_PATH);
        let mut authorization = owned("Bearer ");
        append(&mut authorization, self.token.as_str());
        FeedRequest {
            url,
            authorization,
            since: match since {
                Some(s) => Some(owned(s)),
                None => None,
            },
        }
    }
}

} // verus!
