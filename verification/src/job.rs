//! The mining job and the state that holds the current one.

use crate::hexcode::{decode, is_hex};
use vstd::prelude::*;

verus! {

/// The longest challenge, in bytes: with its nonce it fills a preimage of
/// 64 bytes.
pub const MAX_CHALLENGE_LEN: usize = 56;

/// One mining target, as the job source describes it.
#[derive(Debug)]
pub struct Ticker {
    /// The challenge as hexadecimal text, in the job source's byte order.
    pub challenge: String,
    /// Where a solution found for this job is credited.
    pub current_location: String,
    /// How many leading nibbles of a hash must be zero.
    pub difficulty: i32,
    /// A label for display.
    pub ticker: String,
    /// The job source's identifier of the token.
    pub id: String,
}

/// Why a job cannot be mined.
#[derive(Debug, PartialEq, Eq, Clone, Copy)]
pub enum JobError {
    /// The challenge is not hexadecimal text.
    NotHex,
    /// The challenge has more than `MAX_CHALLENGE_LEN` bytes.
    TooLong,
    /// The difficulty is below zero.
    NegativeDifficulty,
}

impl Clone for Ticker {
    fn clone(&self) -> (copy: Ticker)
        ensures
            copy == *self,
    {
        Ticker {
            challenge: self.challenge.clone(),
            current_location: self.current_location.clone(),
            difficulty: self.difficulty,
            ticker: self.ticker.clone(),
            id: self.id.clone(),
        }
    }
}

impl Ticker {
    /// Whether the job can be mined: its challenge is hexadecimal text of
    /// at most `MAX_CHALLENGE_LEN` bytes and its difficulty is not negative.
    pub open spec fn minable(self) -> bool {
        &&& is_hex(self.challenge@)
        &&& self.challenge@.len() / 2 <= MAX_CHALLENGE_LEN
        &&& self.difficulty >= 0
    }

    /// What is wrong with the job, the challenge first; nothing where it
    /// can be mined.
    pub open spec fn fault(self) -> Option<JobError> {
        if !is_hex(self.challenge@) {
            Some(JobError::NotHex)
        } else if self.challenge@.len() / 2 > MAX_CHALLENGE_LEN {
            Some(JobError::TooLong)
        } else if self.difficulty < 0 {
            Some(JobError::NegativeDifficulty)
        } else {
            None
        }
    }

    /// Tells whether the job can be mined, and if not, why.
    pub fn check(&self) -> (verdict: Result<(), JobError>)
        ensures
            verdict is Ok <==> self.minable(),
            match verdict {
                Ok(_) => self.fault() is None,
                Err(error) => self.fault() == Some(error),
            },
    {
        match decode(self.challenge.as_str()) {
            None => Err(JobError::NotHex),
            Some(decoded) => {
                if decoded.len() > MAX_CHALLENGE_LEN {
                    Err(JobError::TooLong)
                } else if self.difficulty < 0 {
                    Err(JobError::NegativeDifficulty)
                } else {
                    Ok(())
                }
            },
        }
    }
}

/// The job that is currently mined; it can always be mined. A search works
/// on a copy of the state or of its job, so replacing the job never reaches
/// a search that has already started.
#[derive(Debug)]
pub struct WorkState {
    job: Ticker,
}

impl Clone for WorkState {
    fn clone(&self) -> (copy: WorkState)
        ensures
            copy.held() == self.held(),
    {
        proof {
            use_type_invariant(self);
        }
        WorkState { job: self.job.clone() }
    }
}

impl WorkState {
    #[verifier::type_invariant]
    spec fn holds_minable(self) -> bool {
        self.job.minable()
    }

    /// The job that the state holds.
    pub closed spec fn held(self) -> Ticker {
        self.job
    }

    /// Whether `fetched` takes the place of the held job: it is a job that
    /// can be mined and whose challenge differs from the held one. A failed
    /// fetch, a job that cannot be mined and the same challenge do not.
    pub open spec fn replaced_by(self, fetched: Option<Ticker>) -> bool {
        &&& fetched is Some
        &&& fetched.unwrap().minable()
        &&& fetched.unwrap().challenge@ != self.held().challenge@
    }

    /// The job held after `refresh`.
    pub open spec fn refreshed(self, fetched: Option<Ticker>) -> Ticker {
        if self.replaced_by(fetched) {
            fetched.unwrap()
        } else {
            self.held()
        }
    }

    /// A state that holds `job`, or why `job` cannot be mined.
    pub fn new(job: Ticker) -> (state: Result<WorkState, JobError>)
        ensures
            state is Ok <==> job.minable(),
            match state {
                Ok(made) => made.held() == job,
                Err(error) => job.fault() == Some(error),
            },
    {
        match job.check() {
            Ok(_) => Ok(WorkState { job }),
            Err(error) => Err(error),
        }
    }

    /// The held job.
    pub fn job(&self) -> (job: &Ticker)
        ensures
            *job == self.held(),
            job.minable(),
    {
        proof {
            use_type_invariant(self);
        }
        &self.job
    }

    /// A copy of the held job, frozen for one search.
    pub fn snapshot(&self) -> (job: Ticker)
        ensures
            job == self.held(),
            job.minable(),
    {
        proof {
            use_type_invariant(self);
        }
        self.job.clone()
    }

    /// Takes in the outcome of one fetch: `fetched` is the job that the
    /// source returned, or `None` where the fetch failed. The held job is
    /// replaced only by one that can be mined and has another challenge,
    /// which is then returned; anything else leaves the state as it was.
    pub fn refresh(&mut self, fetched: Option<Ticker>) -> (fresh: Option<Ticker>)
        ensures
            final(self).held() == old(self).refreshed(fetched),
            old(self).replaced_by(fetched) ==> fresh == fetched,
            !old(self).replaced_by(fetched) ==> fresh is None && *final(self) == *old(self),
            fetched is Some && !fetched.unwrap().minable() ==> fresh is None && *final(self)
                == *old(self),
    {
        match fetched {
            Some(job) => {
                match job.check() {
                    Ok(_) => {
                        if self.job.challenge != job.challenge {
                            self.job = job.clone();
                            Some(job)
                        } else {
                            None
                        }
                    },
                    Err(_) => None,
                }
            },
            None => None,
        }
    }
}

} // verus!
