use vstd::prelude::*;
use crate::parse::{attr_match, attr_value, is_attr_value, first_sync_match, parse_sync_check, sync_readable, CharClass};
use crate::text::dec_value;

verus! {

/// What the sync loop does after one poll.
#[derive(Clone, Copy, Debug, PartialEq, Eq, Structural)]
pub enum SyncAction {
    /// The server ended the session: tell the user once and stop.
    Terminate,
    /// Nothing new: poll again at once.
    PollAgain,
    /// New data: fetch and dispatch it, then poll again.
    Fetch,
}

/// The two retcodes by which the server ends a session.
pub open spec fn is_terminal(retcode: u64) -> bool {
    retcode == 1100 || retcode == 1101
}

pub open spec fn step_of(retcode: u64, selector: u64) -> SyncAction {
    if is_terminal(retcode) {
        SyncAction::Terminate
    } else if selector == 0 {
        SyncAction::PollAgain
    } else {
        SyncAction::Fetch
    }
}

/// The loop's decision for one poll result.
pub fn sync_step(retcode: u64, selector: u64) -> (a: SyncAction)
    ensures
        a == step_of(retcode, selector),
{
    if retcode == 1100 || retcode == 1101 {
        SyncAction::Terminate
    } else if selector == 0 {
        SyncAction::PollAgain
    } else {
        SyncAction::Fetch
    }
}

/// The loop's decision for one poll response body; `None` when the body holds
/// no readable `retcode`/`selector` pair, a protocol error.
pub fn on_sync_response(body: &str) -> (a: Option<SyncAction>)
    ensures
        match a {
            Some(act) => exists|i: int| #[trigger] first_sync_match(body@, i) && sync_readable(body@, i)
                && act == step_of(
                    dec_value(body@.subrange(i + 9, crate::parse::retcode_end(body@, i))) as u64,
                    dec_value(body@.subrange(crate::parse::retcode_end(body@, i) + 12,
                        crate::parse::selector_end(body@, i))) as u64),
            None => forall|i: int| #[trigger] first_sync_match(body@, i) ==> !sync_readable(body@, i),
        },
{
    match parse_sync_check(body) {
        Some((rc, sel)) => {
            Some(sync_step(rc, sel))
        },
        None => None,
    }
}

/// Counts of what a run of the loop did.
pub struct SyncRun {
    pub polls: usize,
    pub fetches: usize,
    pub notices: usize,
}

/// Runs the loop's decisions over the poll results `codes` until one ends the
/// session: every poll counts once, every `Fetch` is one fetch-and-dispatch,
/// and a terminal retcode gives exactly one notice and ends the run.
pub fn run_sync(codes: &Vec<(u64, u64)>) -> (r: SyncRun)
    ensures
        r.polls <= codes@.len(),
        r.notices <= 1,
        r.notices == 1 ==> r.polls >= 1,
        r.notices == 1 <==> exists|i: int| 0 <= i < codes@.len() && #[trigger] is_terminal(codes@[i].0),
        r.notices == 1 ==> is_terminal(codes@[r.polls - 1].0)
            && forall|i: int| 0 <= i < r.polls - 1 ==> !is_terminal(#[trigger] codes@[i].0),
        r.notices == 0 ==> r.polls == codes@.len(),
        r.fetches == fetch_count(codes@.take(r.polls as int)),
{
    let mut polls: usize = 0;
    let mut fetches: usize = 0;
    while polls < codes.len()
        invariant
            polls <= codes@.len(),
            fetches <= polls,
            forall|i: int| 0 <= i < polls ==> !is_terminal(#[trigger] codes@[i].0),
            fetches == fetch_count(codes@.take(polls as int)),
        decreases codes.len() - polls,
    {
        let (rc, sel) = codes[polls];
        let act = sync_step(rc, sel);
        assert(codes@.take(polls + 1).drop_last() =~= codes@.take(polls as int));
        polls = polls + 1;
        match act {
            SyncAction::Terminate => {
                return SyncRun { polls, fetches, notices: 1 };
            },
            SyncAction::PollAgain => {},
            SyncAction::Fetch => {
                fetches = fetches + 1;
            },
        }
    }
    assert(forall|i: int| 0 <= i < codes@.len() ==> !is_terminal(#[trigger] codes@[i].0));
    SyncRun { polls, fetches, notices: 0 }
}

/// How many of the poll results `codes` ask for a fetch.
pub open spec fn fetch_count(codes: Seq<(u64, u64)>) -> nat
    decreases codes.len(),
{
    if codes.len() == 0 {
        0
    } else {
        fetch_count(codes.drop_last()) + if step_of(codes.last().0, codes.last().1)
            == SyncAction::Fetch { 1nat } else { 0nat }
    }
}

pub open spec fn uuid_name() -> Seq<char> {
    seq!['u', 'u', 'i', 'd']
}

pub open spec fn redirect_name() -> Seq<char> {
    seq!['r', 'e', 'd', 'i', 'r', 'e', 'c', 't', '_', 'u', 'r', 'i']
}

/// Reads the login token from the response `uuid = "<token>"`; `None` when absent.
pub fn parse_uuid(body: &str) -> (r: Option<String>)
    ensures
        r is None <==> forall|i: int| !attr_match(body@, uuid_name(), true, CharClass::IdChar, i),
        r matches Some(v) ==> is_attr_value(body@, uuid_name(), true, CharClass::IdChar, v@),
{
    proof { reveal_strlit("uuid"); }
    let name = "uuid";
    assert(name@ =~= uuid_name());
    attr_value(body, name, true, CharClass::IdChar)
}

/// Reads the redirect from the scan response `redirect_uri="<uri>"`; `None`
/// when absent.
pub fn parse_redirect(body: &str) -> (r: Option<String>)
    ensures
        r is None <==> forall|i: int| !attr_match(body@, redirect_name(), false, CharClass::NotQuote, i),
        r matches Some(v) ==> is_attr_value(body@, redirect_name(), false, CharClass::NotQuote, v@),
{
    proof { reveal_strlit("redirect_uri"); }
    let name = "redirect_uri";
    assert(name@ =~= redirect_name());
    attr_value(body, name, false, CharClass::NotQuote)
}

} // verus!
