//! The decisions of the purge command, which deletes the user's most
//! recent messages: a state machine that the caller drives by fetching and
//! deleting messages as each action asks.

use vstd::prelude::*;
use crate::number::{parse_u64, parse_unsigned};

verus! {

/// How many times the purge looks further back than the latest message
/// before it gives up.
pub const MAX_LOOKBACK: u64 = 100;

/// What the caller reports back to the purge.
pub enum PurgeEvent {
    /// The purge starts, or the deletions last asked for are done.
    Continue,
    /// The latest message of the channel was fetched: `None` when fetching
    /// failed or the channel is empty, else whether the user wrote it.
    Latest(Option<bool>),
    /// The most recent messages were fetched, newest first: for each,
    /// whether the user wrote it.
    Recent(Vec<bool>),
}

/// What the purge asks the caller to do next.
pub enum PurgeAction {
    /// Fetch the latest message of the channel and report it.
    FetchLatest,
    /// Delete the latest message, then continue.
    DeleteLatest,
    /// Fetch this many most recent messages and report them.
    FetchRecent(u64),
    /// Delete the reported recent messages at these positions, then
    /// continue.
    DeleteRecent(Vec<usize>),
    /// The purge is over.
    Finish,
}

/// The positions of `true` in `mine`, in increasing order.
pub open spec fn mine_positions(mine: Seq<bool>) -> Seq<usize>
    decreases mine.len(),
{
    if mine.len() == 0 {
        seq![]
    } else {
        let prev = mine_positions(mine.drop_last());
        if mine.last() {
            prev.push((mine.len() - 1) as usize)
        } else {
            prev
        }
    }
}

/// At most one position per message.
pub proof fn lemma_mine_positions_len(mine: Seq<bool>)
    ensures
        mine_positions(mine).len() <= mine.len(),
    decreases mine.len(),
{
    if mine.len() > 0 {
        lemma_mine_positions_len(mine.drop_last());
    }
}

/// The progress of one purge.
pub struct PurgeState {
    target: u64,
    deleted: u64,
    attempts: u64,
}

impl PurgeState {
    /// The number of messages to delete.
    pub closed spec fn target_spec(&self) -> u64 {
        self.target
    }

    /// The number of deletions asked for so far.
    pub closed spec fn deleted_spec(&self) -> u64 {
        self.deleted
    }

    /// How many messages the next look further back fetches; one more than
    /// the looks made so far.
    pub closed spec fn attempts_spec(&self) -> u64 {
        self.attempts
    }

    /// The state's invariant.
    pub open spec fn wf(&self) -> bool {
        1 <= self.attempts_spec() <= MAX_LOOKBACK + 1
    }

    /// A purge of `target` messages that has done nothing yet.
    pub fn new(target: u64) -> (r: Self)
        ensures
            r.wf(),
            r.target_spec() == target,
            r.deleted_spec() == 0,
            r.attempts_spec() == 1,
    {
        PurgeState { target, deleted: 0, attempts: 1 }
    }

    /// The number of deletions asked for so far.
    pub fn deleted(&self) -> (r: u64)
        ensures
            r == self.deleted_spec(),
    {
        self.deleted
    }

    /// The number of messages to delete.
    pub fn target(&self) -> (r: u64)
        ensures
            r == self.target_spec(),
    {
        self.target
    }

    /// How many messages the next look further back fetches.
    pub fn attempts(&self) -> (r: u64)
        ensures
            r == self.attempts_spec(),
    {
        self.attempts
    }

    /// The next action after `event`.
    ///
    /// Continuing, or a failed fetch of the latest message, asks for the
    /// latest message while fewer than `target` deletions were asked for,
    /// and finishes otherwise. A latest message of the user's is deleted.
    /// A latest message of someone else's makes the purge fetch the
    /// `attempts` most recent messages, unless it has already looked back
    /// `MAX_LOOKBACK` times, in which case it finishes. Of the recent
    /// messages, all of the user's are deleted, each counted as one
    /// deletion, and the next look reaches one message further.
    pub fn step(&mut self, event: PurgeEvent) -> (r: PurgeAction)
        requires
            old(self).wf(),
            event matches PurgeEvent::Latest(Some(true)) ==> old(self).deleted_spec()
                < old(self).target_spec(),
            event matches PurgeEvent::Recent(mine) ==> old(self).attempts_spec() <= MAX_LOOKBACK
                && old(self).deleted_spec() + mine.len() <= u64::MAX,
        ensures
            final(self).wf(),
            final(self).target_spec() == old(self).target_spec(),
            final(self).deleted_spec() >= old(self).deleted_spec(),
            final(self).attempts_spec() >= old(self).attempts_spec(),
            r matches PurgeAction::FetchRecent(n) ==> 1 <= n <= MAX_LOOKBACK,
            match event {
                PurgeEvent::Continue | PurgeEvent::Latest(None) => {
                    &&& final(self).deleted_spec() == old(self).deleted_spec()
                    &&& final(self).attempts_spec() == old(self).attempts_spec()
                    &&& if old(self).deleted_spec() < old(self).target_spec() {
                        r is FetchLatest
                    } else {
                        r is Finish
                    }
                },
                PurgeEvent::Latest(Some(true)) => {
                    &&& final(self).deleted_spec() == old(self).deleted_spec() + 1
                    &&& final(self).attempts_spec() == old(self).attempts_spec()
                    &&& r is DeleteLatest
                },
                PurgeEvent::Latest(Some(false)) => {
                    &&& final(self).deleted_spec() == old(self).deleted_spec()
                    &&& final(self).attempts_spec() == old(self).attempts_spec()
                    &&& if old(self).attempts_spec() > MAX_LOOKBACK {
                        r is Finish
                    } else {
                        r == PurgeAction::FetchRecent(old(self).attempts_spec())
                    }
                },
                PurgeEvent::Recent(mine) => {
                    &&& r matches PurgeAction::DeleteRecent(positions) && positions@
                        == mine_positions(mine@)
                    &&& final(self).deleted_spec() == old(self).deleted_spec()
                        + mine_positions(mine@).len()
                    &&& final(self).attempts_spec() == old(self).attempts_spec() + 1
                },
            },
    {
        match event {
            PurgeEvent::Continue | PurgeEvent::Latest(None) => {
                if self.deleted < self.target {
                    PurgeAction::FetchLatest
                } else {
                    PurgeAction::Finish
                }
            },
            PurgeEvent::Latest(Some(true)) => {
                self.deleted = self.deleted + 1;
                PurgeAction::DeleteLatest
            },
            PurgeEvent::Latest(Some(false)) => {
                if self.attempts > MAX_LOOKBACK {
                    PurgeAction::Finish
                } else {
                    PurgeAction::FetchRecent(self.attempts)
                }
            },
            PurgeEvent::Recent(mine) => {
                let mut positions: Vec<usize> = Vec::new();
                let mut i: usize = 0;
                assert(mine@.take(0) =~= Seq::<bool>::empty());
                while i < mine.len()
                    invariant
                        i <= mine.len(),
                        positions@ == mine_positions(mine@.take(i as int)),
                    decreases mine.len() - i,
                {
                    assert(mine@.take(i + 1).drop_last() =~= mine@.take(i as int));
                    if mine[i] {
                        positions.push(i);
                    }
                    i += 1;
                }
                assert(mine@.take(mine.len() as int) =~= mine@);
                proof {
                    lemma_mine_positions_len(mine@);
                }
                self.deleted = self.deleted + positions.len() as u64;
                self.attempts = self.attempts + 1;
                PurgeAction::DeleteRecent(positions)
            },
        }
    }
}

impl crate::plugins::PurgePlugin {
    /// How many messages the purge command deletes: with exactly one
    /// argument, its value; with any other number of arguments the command
    /// does nothing.
    pub fn target(&self, arguments: &Vec<String>) -> (r: Option<u64>)
        requires
            arguments.len() == 1 ==> parse_unsigned(arguments@[0]@, u64::MAX as nat) is Some,
        ensures
            arguments.len() == 1 ==> (r matches Some(n) && parse_unsigned(
                arguments@[0]@,
                u64::MAX as nat,
            ) == Some(n as nat)),
            arguments.len() != 1 ==> r is None,
    {
        if arguments.len() == 1 {
            match parse_u64(arguments[0].as_str()) {
                Some(n) => Some(n),
                None => None,
            }
        } else {
            None
        }
    }
}

} // verus!
