//! Keeping stored usernames and group names fresh against a rename feed:
//! the vocabulary, the feed's request and deltas, the rename statements,
//! and the sync cursor's overlap.

pub mod apply;
pub mod feed;
pub mod sync;
pub mod target;
