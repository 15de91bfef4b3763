//! Decision core of one create call against an external, durable store.
//! The caller performs the store operations (existence check, insert) and
//! feeds their outcomes back; every decision is taken here.

use vstd::prelude::*;
use crate::alphabet::id_from;
use crate::alphabet::make_id;
use crate::alphabet::valid_id;
use crate::config::Config;
use crate::errors::Error;
use crate::validate::validate_spec;
use crate::validate::validate_url;
use crate::validate::whitelist_view;

verus! {

/// Retry budget of one create call: candidates tried before the
/// identifier space is declared exhausted.
pub const MAX_ATTEMPTS: usize = 16;

/// What the caller observed when it asked the store to insert.
#[derive(Clone, Copy, Debug, PartialEq, Eq, Structural)]
pub enum InsertOutcome {
    Stored,
    DuplicateKey,
    Unavailable,
}

/// What a create call does next after an insert attempt.
#[derive(Clone, Copy, Debug, PartialEq, Eq, Structural)]
pub enum CreateVerdict {
    Done,
    Retry,
    GiveUp(Error),
}

/// One create call in progress: the identifier length and the attempts
/// that remain.
pub struct CreateFlow {
    id_length: usize,
    attempts_left: usize,
}

impl CreateFlow {
    pub closed spec fn id_length(self) -> usize {
        self.id_length
    }

    pub closed spec fn attempts_left(self) -> usize {
        self.attempts_left
    }

    /// Validate `url`; on success open a flow with a full retry budget.
    /// The validation verdict is exactly the validator's.
    pub fn begin(config: &Config, url: &str) -> (r: Result<CreateFlow, Error>)
        requires
            config.wf(),
        ensures
            match r {
                Ok(f) => validate_spec(whitelist_view(config.host_whitelist), url@) is Ok
                    && f.id_length() == config.id_length && f.attempts_left() == MAX_ATTEMPTS,
                Err(e) => Err::<(), Error>(e) == validate_spec(
                    whitelist_view(config.host_whitelist),
                    url@,
                ),
            },
    {
        match validate_url(url, &config.host_whitelist) {
            Err(e) => Err(e),
            Ok(()) => Ok(CreateFlow { id_length: config.id_length, attempts_left: MAX_ATTEMPTS }),
        }
    }

    /// The next candidate identifier, built from fresh random values, or
    /// `None` once the budget is spent (the call then fails with
    /// `IdSpaceExhausted`).
    pub fn next_candidate(&mut self, rand: &Vec<u64>) -> (r: Option<String>)
        requires
            old(self).id_length() <= rand.len(),
        ensures
            final(self).id_length() == old(self).id_length(),
            match r {
                Some(id) => old(self).attempts_left() > 0 && final(self).attempts_left() == old(
                    self,
                ).attempts_left() - 1 && id@ == id_from(rand@, 0, old(self).id_length() as nat)
                    && valid_id(id@, old(self).id_length() as nat),
                None => old(self).attempts_left() == 0 && final(self).attempts_left() == 0,
            },
    {
        if self.attempts_left == 0 {
            return None;
        }
        self.attempts_left = self.attempts_left - 1;
        Some(make_id(self.id_length, rand, 0))
    }

    /// What to do with an insert outcome: a duplicate key is a collision
    /// to retry, never surfaced; an unreachable store ends the call.
    pub fn after_insert(outcome: InsertOutcome) -> (v: CreateVerdict)
        ensures
            match outcome {
                InsertOutcome::Stored => v == CreateVerdict::Done,
                InsertOutcome::DuplicateKey => v == CreateVerdict::Retry,
                InsertOutcome::Unavailable => v == CreateVerdict::GiveUp(Error::StoreUnavailable),
            },
    {
        match outcome {
            InsertOutcome::Stored => CreateVerdict::Done,
            InsertOutcome::DuplicateKey => CreateVerdict::Retry,
            InsertOutcome::Unavailable => CreateVerdict::GiveUp(Error::StoreUnavailable),
        }
    }
}

} // verus!
