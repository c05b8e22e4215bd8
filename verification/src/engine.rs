//! The state of one mining client and the steps that change it.

use crate::api::ApiClient;
use crate::job::{JobError, Ticker, WorkState};
use crate::stats::{outcome_of, outcome_spec, accepted_gain, rejected_gain, Stats, SubmitOutcome};
use vstd::prelude::*;

verus! {

/// All that a mining client holds: the current job, the counters, the job
/// source, and the ticker that it mines.
#[derive(Debug)]
pub struct Context {
    pub work: WorkState,
    pub stats: Stats,
    pub api_client: ApiClient,
    pub tick: String,
}

/// Why mining cannot start.
#[derive(Debug, PartialEq, Eq, Clone, Copy)]
pub enum StartError {
    /// The payout address is not one that can be read.
    BadAddress,
    /// The first fetch brought no job.
    NoJob,
    /// The first job cannot be mined, for the reason given.
    BadJob(JobError),
}

/// Why mining does not start, if it does not: a bad address comes first,
/// then a missing job, then a job that cannot be mined.
pub open spec fn start_fault(address_ok: bool, first: Option<Ticker>) -> Option<StartError> {
    if !address_ok {
        Some(StartError::BadAddress)
    } else if first is None {
        Some(StartError::NoJob)
    } else if first.unwrap().fault() is Some {
        Some(StartError::BadJob(first.unwrap().fault().unwrap()))
    } else {
        None
    }
}

/// Whether `ctx` is the context that mining starts with on `job`.
pub open spec fn starts_with(ctx: Context, job: Ticker, api_client: ApiClient, tick: String) -> bool {
    &&& ctx.work.held() == job
    &&& ctx.stats.accepted == 0
    &&& ctx.stats.rejected == 0
    &&& ctx.api_client == api_client
    &&& ctx.tick == tick
}

/// Whether `text` reads as a payout address: what `bitcoin` decides when it
/// parses `text` as an address of any network.
pub uninterp spec fn address_readable(text: Seq<char>) -> bool;

/// Calls `str::parse` for `bitcoin::Address<NetworkUnchecked>`. Trusted:
/// whether the parse succeeds depends on the characters of `text` alone.
#[verifier::external_body]
fn parse_address(text: &str) -> (ok: bool)
    ensures
        ok == address_readable(text@),
{
    text.parse::<bitcoin::Address<bitcoin::address::NetworkUnchecked>>().is_ok()
}

/// Whether `address` reads as a payout address.
pub fn address_is_valid(address: &str) -> (ok: bool)
    ensures
        ok == address_readable(address@),
{
    parse_address(address)
}

/// Decides whether mining starts, from `address_ok`, the verdict on the
/// payout address, and `first`, what the first fetch brought: a bad address
/// ends it, then a missing job does, then a job that cannot be mined;
/// otherwise mining starts on that job with counters at zero.
pub fn begin(
    address_ok: bool,
    first: Option<Ticker>,
    api_client: ApiClient,
    tick: String,
) -> (start: Result<Context, StartError>)
    ensures
        start is Ok <==> address_ok && first is Some && first.unwrap().minable(),
        match start {
            Ok(ctx) => starts_with(ctx, first.unwrap(), api_client, tick),
            Err(error) => start_fault(address_ok, first) == Some(error),
        },
{
    if !address_ok {
        return Err(StartError::BadAddress);
    }
    match first {
        None => Err(StartError::NoJob),
        Some(job) => {
            match WorkState::new(job) {
                Ok(work) => Ok(Context::new(work, api_client, tick)),
                Err(error) => Err(StartError::BadJob(error)),
            }
        },
    }
}

/// Starts a client that mines for the address of `api_client`: checks the
/// address and then takes `first`, what the first fetch brought, as
/// `begin` says.
pub fn start(first: Option<Ticker>, api_client: ApiClient, tick: String) -> (start: Result<
    Context,
    StartError,
>)
    ensures
        start is Ok <==> address_readable(api_client.address@) && first is Some
            && first.unwrap().minable(),
        match start {
            Ok(ctx) => starts_with(ctx, first.unwrap(), api_client, tick),
            Err(error) => start_fault(address_readable(api_client.address@), first) == Some(
                error,
            ),
        },
{
    let address_ok: bool = address_is_valid(api_client.address.as_str());
    begin(address_ok, first, api_client, tick)
}

impl Context {
    /// Whether `self` and `other` agree in all but the job and the counters.
    pub open spec fn same_source(self, other: Context) -> bool {
        self.api_client == other.api_client && self.tick == other.tick
    }

    /// The context that mining starts with: the first work, and counters
    /// at zero.
    pub fn new(work: WorkState, api_client: ApiClient, tick: String) -> (ctx: Context)
        ensures
            starts_with(ctx, work.held(), api_client, tick),
            ctx.work == work,
    {
        Context { work, stats: Stats::default(), api_client, tick }
    }
}

/// One refresh pass: takes in what a fetch brought (`None` where it
/// failed). The job is replaced only by one that can be mined and has
/// another challenge, which is then returned as new work. A failed fetch,
/// a job that cannot be mined and the same challenge change nothing.
pub fn update_work(ctx: &mut Context, fetched: Option<Ticker>) -> (fresh: Option<Ticker>)
    ensures
        final(ctx).work.held() == old(ctx).work.refreshed(fetched),
        final(ctx).stats == old(ctx).stats,
        final(ctx).same_source(*old(ctx)),
        old(ctx).work.replaced_by(fetched) ==> fresh == fetched,
        !old(ctx).work.replaced_by(fetched) ==> fresh is None && *final(ctx) == *old(ctx),
        fetched is Some && !fetched.unwrap().minable() ==> fresh is None && *final(ctx) == *old(
            ctx,
        ),
{
    ctx.work.refresh(fetched)
}

/// Takes in the reply to one submission and the refresh pass that follows
/// every submission: the reply is counted (accepted on status 201,
/// rejected on any other status, neither where the submission failed on
/// the way), and then `fetched`, what the fetch after it brought, goes
/// through `update_work`, whatever the reply was.
pub fn submit_work(
    ctx: &mut Context,
    reply: Result<(u16, String), String>,
    fetched: Option<Ticker>,
) -> (outcome: SubmitOutcome)
    requires
        outcome_spec(reply) is Accepted ==> old(ctx).stats.accepted < i64::MAX,
        outcome_spec(reply) is Rejected ==> old(ctx).stats.rejected < i64::MAX,
    ensures
        outcome == outcome_spec(reply),
        final(ctx).stats.accepted == old(ctx).stats.accepted + accepted_gain(outcome),
        final(ctx).stats.rejected == old(ctx).stats.rejected + rejected_gain(outcome),
        final(ctx).stats.accepted >= old(ctx).stats.accepted,
        final(ctx).stats.rejected >= old(ctx).stats.rejected,
        final(ctx).work.held() == old(ctx).work.refreshed(fetched),
        final(ctx).same_source(*old(ctx)),
{
    let outcome: SubmitOutcome = outcome_of(reply);
    ctx.stats.record(&outcome);
    let _ = update_work(ctx, fetched);
    outcome
}

} // verus!
