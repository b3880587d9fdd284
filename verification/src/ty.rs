//! Type definitions: the URL-set alias, the quiescence token, and the
//! buffer-to-text trait.

use vstd::prelude::*;

verus! {

/// A set of URLs, stored by their serializations.
pub type Urls = hashbrown::HashSet<String>;

/// Convert a fetched buffer to a string slice for parsing.
pub trait AsStr {
    /// Return the value as a string slice.
    fn as_str(&self) -> &str;
}

impl AsStr for String {
    fn as_str(&self) -> &str {
        String::as_str(self)
    }
}

/// Quiescence token: a reference counter. It counts the engine's own
/// permanent reference plus one reference per dispatched task whose outcome
/// has not yet been submitted back. The crawl is quiescent exactly when the
/// count is back to 1 and no work is queued.
pub struct Token {
    count: u64,
}

impl Token {
    /// The current reference count.
    pub closed spec fn spec_count(&self) -> nat {
        self.count as nat
    }

    /// A fresh token: only the engine's own reference is live.
    pub fn new() -> (r: Token)
        ensures
            r.spec_count() == 1,
    {
        Token { count: 1 }
    }

    /// Take one more reference, as each dispatched task does.
    pub fn acquire(&mut self)
        requires
            old(self).spec_count() < u64::MAX,
        ensures
            final(self).spec_count() == old(self).spec_count() + 1,
    {
        self.count = self.count + 1;
    }

    /// Release one reference, as each delivered task outcome does.
    pub fn release(&mut self)
        requires
            old(self).spec_count() >= 1,
        ensures
            final(self).spec_count() == old(self).spec_count() - 1,
    {
        self.count = self.count - 1;
    }

    /// Read the current count.
    pub fn count(&self) -> (r: u64)
        ensures
            r == self.spec_count(),
    {
        self.count
    }
}

} // verus!
