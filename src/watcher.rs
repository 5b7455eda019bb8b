use crate::task::Task;
use vstd::prelude::*;

verus! {

/// Why the task-definition source could not be read this cycle.
#[derive(Debug, Clone, Copy, PartialEq, Eq, Structural)]
pub enum SourceError {
    /// The source, or its modification time, could not be read.
    IoFailure,
    /// The source's content is malformed.
    ParseFailure,
}

/// What the watcher asks for after looking at the source's modification time.
#[derive(Debug, Clone, Copy, PartialEq, Eq, Structural)]
pub enum WatchAction {
    /// Nothing new; wait for the next poll.
    Idle,
    /// The source changed at `stamp`: read and parse it, then call
    /// [`Watcher::complete`].
    Reload { stamp: u128 },
}

/// The decision taken on an observed modification time.
pub open spec fn poll_action(last_seen: u128, observed: Result<u128, SourceError>) -> WatchAction {
    match observed {
        Ok(t) => if t > last_seen {
            WatchAction::Reload { stamp: t }
        } else {
            WatchAction::Idle
        },
        Err(_) => WatchAction::Idle,
    }
}

/// Detects changes to the task-definition source by its modification time and
/// decides when a batch of definitions is emitted. Read and parse failures are
/// swallowed: no batch is emitted and the next poll tries again.
pub struct Watcher {
    last_seen: u128,
}

impl Watcher {
    /// The modification time of the last content that was emitted.
    pub closed spec fn last_seen_view(&self) -> u128 {
        self.last_seen
    }

    /// A watcher that treats content up to `start` as already seen.
    pub fn new(start: u128) -> (r: Self)
        ensures
            r.last_seen_view() == start,
    {
        Watcher { last_seen: start }
    }

    pub fn last_seen(&self) -> (r: u128)
        ensures
            r == self.last_seen_view(),
    {
        self.last_seen
    }

    /// Reload only when the source's time is later than the last emitted
    /// content; an unreadable time means nothing to do this cycle.
    pub fn poll(&self, observed: Result<u128, SourceError>) -> (r: WatchAction)
        ensures
            r == poll_action(self.last_seen_view(), observed),
    {
        match observed {
            Ok(t) => if t > self.last_seen {
                WatchAction::Reload { stamp: t }
            } else {
                WatchAction::Idle
            },
            Err(_) => WatchAction::Idle,
        }
    }

    /// Takes the outcome of reading the source changed at `stamp`. Parsed
    /// content is emitted as a batch and its time remembered, but only when
    /// `stamp` is later than the last emitted content; a failure emits nothing
    /// and leaves the watcher as it was, so the next poll retries.
    pub fn complete(&mut self, stamp: u128, content: Result<Vec<Task>, SourceError>) -> (r: Option<Vec<Task>>)
        ensures
            match content {
                Ok(b) => if stamp > old(self).last_seen_view() {
                    r == Some(b) && final(self).last_seen_view() == stamp
                } else {
                    r is None && final(self).last_seen_view() == old(self).last_seen_view()
                },
                Err(_) => r is None && final(self).last_seen_view() == old(self).last_seen_view(),
            },
    {
        match content {
            Ok(batch) => if stamp > self.last_seen {
                self.last_seen = stamp;
                Some(batch)
            } else {
                None
            },
            Err(_) => None,
        }
    }
}

/// A poll that observes a time not later than the last emitted content asks
/// for nothing, so no batch is read or emitted. A poll does not change the
/// watcher, so every further poll at that time asks for nothing too.
pub proof fn unchanged_time_emits_nothing(w: Watcher, observed: u128)
    requires
        observed <= w.last_seen_view(),
    ensures
        poll_action(w.last_seen_view(), Ok(observed)) == WatchAction::Idle,
{
}

} // verus!
