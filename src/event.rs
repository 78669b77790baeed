use vstd::prelude::*;

use crate::delta::{changes, detect_changes, lemma_changes_sound, TitleChange};
use crate::game::Game;

verus! {

/// Activity observed on one title of one account.
#[derive(Debug)]
pub struct ActivityEvent {
    pub account_label: String,
    pub title_name: String,
    pub total_playtime_minutes: u32,
    /// Minutes played since the previous poll; `None` when the title was not
    /// in the previous snapshot, so that no difference can be taken.
    pub session_minutes: Option<u32>,
}

/// A title whose cumulative playtime went down between two polls, so that
/// no session length can be computed.
#[derive(Debug)]
pub struct DeltaUnderflowError {
    pub account_label: String,
    pub title_name: String,
    pub previous_minutes: u32,
    pub current_minutes: u32,
}

/// What one reported change of title `t` turns into, for the account shown
/// as `label`.
pub open spec fn report_for(
    r: Result<ActivityEvent, DeltaUnderflowError>,
    label: Seq<char>,
    t: Game,
    previous: Option<u32>,
) -> bool {
    match r {
        Ok(e) => {
            &&& e.account_label@ == label
            &&& e.title_name@ == t.name@
            &&& e.total_playtime_minutes == t.playtime_forever
            &&& match previous {
                None => e.session_minutes is None,
                Some(p) => p <= t.playtime_forever && e.session_minutes == Some(
                    (t.playtime_forever - p) as u32,
                ),
            }
        },
        Err(u) => {
            &&& u.account_label@ == label
            &&& u.title_name@ == t.name@
            &&& u.current_minutes == t.playtime_forever
            &&& previous == Some(u.previous_minutes)
            &&& u.previous_minutes > t.playtime_forever
        },
    }
}

/// `r` holds one report for each change between `prev` and `cur`, in order.
pub open spec fn reports_match(
    r: Seq<Result<ActivityEvent, DeltaUnderflowError>>,
    label: Seq<char>,
    prev: Seq<Game>,
    cur: Seq<Game>,
) -> bool {
    let cs = changes(prev, cur);
    &&& r.len() == cs.len()
    &&& forall|j: int|
        0 <= j < r.len() ==> report_for(
            #[trigger] r[j],
            label,
            cur[cs[j].index as int],
            cs[j].previous,
        )
}

/// Turns one change into an activity event, or into an underflow report
/// where the playtime went down.
pub fn report_change(label: &String, t: &Game, previous: Option<u32>) -> (r: Result<
    ActivityEvent,
    DeltaUnderflowError,
>)
    ensures
        report_for(r, label@, *t, previous),
{
    match previous {
        None => Ok(
            ActivityEvent {
                account_label: label.clone(),
                title_name: t.name.clone(),
                total_playtime_minutes: t.playtime_forever,
                session_minutes: None,
            },
        ),
        Some(p) => {
            if p <= t.playtime_forever {
                Ok(
                    ActivityEvent {
                        account_label: label.clone(),
                        title_name: t.name.clone(),
                        total_playtime_minutes: t.playtime_forever,
                        session_minutes: Some(t.playtime_forever - p),
                    },
                )
            } else {
                Err(
                    DeltaUnderflowError {
                        account_label: label.clone(),
                        title_name: t.name.clone(),
                        previous_minutes: p,
                        current_minutes: t.playtime_forever,
                    },
                )
            }
        },
    }
}

/// The reports of one poll of the account shown as `label`: one for each
/// change between the cached snapshot `prev` and the new snapshot `cur`.
pub fn activity_reports(label: &String, prev: &Vec<Game>, cur: &Vec<Game>) -> (r: Vec<
    Result<ActivityEvent, DeltaUnderflowError>,
>)
    ensures
        reports_match(r@, label@, prev@, cur@),
{
    let cs = detect_changes(prev, cur);
    let len = cur.len();
    proof {
        lemma_changes_sound(prev@, cur@);
    }
    let mut out: Vec<Result<ActivityEvent, DeltaUnderflowError>> = Vec::new();
    let mut j: usize = 0;
    while j < cs.len()
        invariant
            cs@ == changes(prev@, cur@),
            j <= cs@.len(),
            out@.len() == j,
            forall|k: int| 0 <= k < cs@.len() ==> (#[trigger] cs@[k]).index < len,
            len == cur@.len(),
            forall|k: int|
                0 <= k < j ==> report_for(
                    #[trigger] out@[k],
                    label@,
                    cur@[cs@[k].index as int],
                    cs@[k].previous,
                ),
        decreases cs.len() - j,
    {
        let c: TitleChange = cs[j];
        let rep = report_change(label, &cur[c.index], c.previous);
        out.push(rep);
        j = j + 1;
    }
    out
}

/// A title that the previous snapshot lacks yields an activity event without
/// a session length.
pub proof fn law_new_title_event(
    r: Seq<Result<ActivityEvent, DeltaUnderflowError>>,
    label: Seq<char>,
    s1: Seq<Game>,
    s2: Seq<Game>,
    k: int,
)
    requires
        reports_match(r, label, s1, s2),
        s2.len() <= usize::MAX,
        0 <= k < s2.len(),
        forall|i: int| 0 <= i < s1.len() ==> s1[i].app_id != s2[k].app_id,
    ensures
        exists|j: int|
            0 <= j < r.len() && (#[trigger] r[j]) is Ok && r[j]->Ok_0.session_minutes is None
                && r[j]->Ok_0.title_name@ == s2[k].name@ && r[j]->Ok_0.total_playtime_minutes
                == s2[k].playtime_forever,
{
    crate::delta::law_new_title_reported(s1, s2, k);
    let cs = changes(s1, s2);
    let c = TitleChange { index: k as usize, previous: None };
    let j = choose|j: int| 0 <= j < cs.len() && cs[j] == c;
    assert(report_for(r[j], label, s2[k], None));
}

} // verus!
