use vstd::prelude::*;

use crate::event::{activity_reports, reports_match, ActivityEvent, DeltaUnderflowError};
use crate::game::Game;
use crate::remote::FetchError;
use crate::user::{ConfigError, User};

verus! {

/// Shortest pause between two polls of one account, in seconds, unless
/// another range is chosen.
pub const NAP_MIN_SECS: u64 = 60;

/// Bound, not reached, of the pause between two polls, in seconds, unless
/// another range is chosen.
pub const NAP_MAX_SECS: u64 = 95;

/// Relies on rand's `Rng::gen_range` over `thread_rng`: a value drawn from
/// `lo..hi`, which panics on an empty range.
#[verifier::external_body]
fn draw_between(lo: u64, hi: u64) -> (r: u64)
    requires
        lo < hi,
    ensures
        lo <= r < hi,
{
    rand::Rng::gen_range(&mut rand::thread_rng(), lo..hi)
}

/// The poll loop of one account. With no cached snapshot it has yet to
/// see its first successful poll; after that it compares each new snapshot
/// with the cached one.
#[derive(Debug)]
pub struct Watcher {
    pub user: User,
    pub cache: Option<Vec<Game>>,
    /// The pause before each poll is drawn from `pause_min_secs..pause_max_secs`.
    pub pause_min_secs: u64,
    pub pause_max_secs: u64,
}

/// What one poll does to a watcher: `before` receives `outcome`, becomes
/// `after` and reports `r`.
pub open spec fn poll_post(
    before: Watcher,
    outcome: Result<Vec<Game>, FetchError>,
    after: Watcher,
    r: Seq<Result<ActivityEvent, DeltaUnderflowError>>,
) -> bool {
    match outcome {
        Err(_) => after == before && r.len() == 0,
        Ok(s) => {
            &&& after.user == before.user
            &&& after.pause_min_secs == before.pause_min_secs
            &&& after.pause_max_secs == before.pause_max_secs
            &&& after.cache == Some(s)
            &&& match before.cache {
                None => r.len() == 0,
                Some(p) => reports_match(r, before.user.label_view(), p@, s@),
            }
        },
    }
}

impl Watcher {
    /// The range of pauses is not empty.
    pub open spec fn wf(&self) -> bool {
        self.pause_min_secs < self.pause_max_secs
    }

    /// A watcher that has yet to poll, with the default range of pauses.
    pub fn new(user: User) -> (r: Watcher)
        ensures
            r.wf(),
            r.user == user,
            r.cache is None,
            r.pause_min_secs == NAP_MIN_SECS,
            r.pause_max_secs == NAP_MAX_SECS,
    {
        Watcher { user, cache: None, pause_min_secs: NAP_MIN_SECS, pause_max_secs: NAP_MAX_SECS }
    }

    /// The same watcher with pauses drawn from `min_secs..max_secs`; `None`
    /// where that range is empty.
    pub fn with_pause_range(self, min_secs: u64, max_secs: u64) -> (r: Option<Watcher>)
        ensures
            r is Some <==> min_secs < max_secs,
            r matches Some(w) ==> {
                &&& w.wf()
                &&& w.user == self.user
                &&& w.cache == self.cache
                &&& w.pause_min_secs == min_secs
                &&& w.pause_max_secs == max_secs
            },
    {
        if min_secs < max_secs {
            Some(Watcher { pause_min_secs: min_secs, pause_max_secs: max_secs, ..self })
        } else {
            None
        }
    }

    /// The pause before the next poll, drawn anew each time so that the
    /// watchers of several accounts do not poll together; `None` once
    /// `cancelled` asks the loop to end.
    pub fn next_pause(&self, cancelled: bool) -> (r: Option<u64>)
        requires
            self.wf(),
        ensures
            r is None <==> cancelled,
            r matches Some(secs) ==> self.pause_min_secs <= secs < self.pause_max_secs,
    {
        if cancelled {
            None
        } else {
            Some(draw_between(self.pause_min_secs, self.pause_max_secs))
        }
    }

    /// Takes in the outcome of one poll. A failure changes nothing. The first
    /// snapshot only fills the cache; each later one is compared with the
    /// cached snapshot, which it then replaces.
    pub fn on_poll(&mut self, outcome: Result<Vec<Game>, FetchError>) -> (r: Vec<
        Result<ActivityEvent, DeltaUnderflowError>,
    >)
        ensures
            poll_post(*old(self), outcome, *final(self), r@),
    {
        match outcome {
            Err(_) => Vec::new(),
            Ok(s) => {
                let r = match &self.cache {
                    None => Vec::new(),
                    Some(p) => {
                        let label = self.user.label();
                        activity_reports(&label, p, &s)
                    },
                };
                self.cache = Some(s);
                r
            },
        }
    }
}

/// Makes one watcher for each account, in order, none of them with a cached
/// snapshot. With no account there is nothing to watch.
pub fn start_watchers(users: Vec<User>) -> (r: Result<Vec<Watcher>, ConfigError>)
    ensures
        r is Err <==> users@.len() == 0,
        r is Err ==> r->Err_0 == ConfigError::NoAccounts,
        r is Ok ==> {
            let ws = r->Ok_0@;
            &&& ws.len() == users@.len()
            &&& forall|i: int|
                0 <= i < ws.len() ==> (#[trigger] ws[i]).user == users@[i] && ws[i].cache is None
                    && ws[i].pause_min_secs == NAP_MIN_SECS && ws[i].pause_max_secs == NAP_MAX_SECS
        },
{
    if users.len() == 0 {
        return Err(ConfigError::NoAccounts);
    }
    let ghost all = users@;
    let mut rest = users;
    let mut ws: Vec<Watcher> = Vec::new();
    while rest.len() > 0
        invariant
            ws@.len() + rest@.len() == all.len(),
            rest@ == all.subrange(ws@.len() as int, all.len() as int),
            forall|i: int|
                0 <= i < ws@.len() ==> (#[trigger] ws@[i]).user == all[i] && ws@[i].cache is None
                    && ws@[i].pause_min_secs == NAP_MIN_SECS && ws@[i].pause_max_secs == NAP_MAX_SECS,
        decreases rest.len(),
    {
        let u = rest.remove(0);
        ws.push(Watcher::new(u));
    }
    Ok(ws)
}

/// A failed poll of one account leaves the watchers of all accounts as they
/// were, its own included, and reports nothing.
pub proof fn law_failure_isolated(
    ws: Seq<Watcher>,
    i: int,
    e: FetchError,
    after: Watcher,
    r: Seq<Result<ActivityEvent, DeltaUnderflowError>>,
)
    requires
        0 <= i < ws.len(),
        poll_post(ws[i], Err(e), after, r),
    ensures
        ws.update(i, after) == ws,
        r.len() == 0,
{
    assert(ws.update(i, after) =~= ws);
}

} // verus!
