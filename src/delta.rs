use vstd::prelude::*;

use crate::game::Game;

verus! {

/// One difference between two consecutive snapshots: the title at `index` of
/// the current snapshot is new (`previous` is `None`) or its playtime moved
/// away from `previous`.
#[derive(Debug, Clone, Copy, PartialEq, Eq, Structural)]
pub struct TitleChange {
    pub index: usize,
    pub previous: Option<u32>,
}

/// No identifier occurs twice in a snapshot.
pub open spec fn unique_ids(s: Seq<Game>) -> bool {
    forall|i: int, j: int| 0 <= i < j < s.len() ==> s[i].app_id != s[j].app_id
}

/// The playtime that the first title with identifier `id` in `prev` holds,
/// or `None` where no title there has it.
pub open spec fn cached_playtime(prev: Seq<Game>, id: u32) -> Option<u32>
    decreases prev.len(),
{
    if prev.len() == 0 {
        None
    } else if prev[0].app_id == id {
        Some(prev[0].playtime_forever)
    } else {
        cached_playtime(prev.drop_first(), id)
    }
}

/// What the detector reports of one current title: `None` when it is
/// unchanged, `Some(None)` when it is new, `Some(Some(p))` when its previous
/// playtime `p` differs from the current one.
pub open spec fn change_of(prev: Seq<Game>, t: Game) -> Option<Option<u32>> {
    match cached_playtime(prev, t.app_id) {
        None => Some(None),
        Some(p) => if p == t.playtime_forever {
            None
        } else {
            Some(Some(p))
        },
    }
}

/// The changes between `prev` and `cur`, in the order of `cur`.
pub open spec fn changes(prev: Seq<Game>, cur: Seq<Game>) -> Seq<TitleChange>
    decreases cur.len(),
{
    if cur.len() == 0 {
        seq![]
    } else {
        let rest = changes(prev, cur.drop_last());
        match change_of(prev, cur.last()) {
            None => rest,
            Some(p) => rest.push(TitleChange { index: (cur.len() - 1) as usize, previous: p }),
        }
    }
}

/// Looks up the playtime of the first title with identifier `id`.
pub fn find_cached_playtime(prev: &Vec<Game>, id: u32) -> (r: Option<u32>)
    ensures
        r == cached_playtime(prev@, id),
{
    let mut j: usize = 0;
    assert(prev@.subrange(0, prev@.len() as int) =~= prev@);
    while j < prev.len()
        invariant
            j <= prev@.len(),
            cached_playtime(prev@, id) == cached_playtime(prev@.subrange(j as int, prev@.len() as int), id),
        decreases prev.len() - j,
    {
        let ghost rest = prev@.subrange(j as int, prev@.len() as int);
        assert(rest.drop_first() =~= prev@.subrange(j + 1, prev@.len() as int));
        if prev[j].app_id == id {
            return Some(prev[j].playtime_forever);
        }
        j = j + 1;
    }
    None
}

/// Compares two consecutive snapshots: every title of `cur` that is absent
/// from `prev`, or present there with another playtime, is reported, in the
/// order of `cur`.
pub fn detect_changes(prev: &Vec<Game>, cur: &Vec<Game>) -> (r: Vec<TitleChange>)
    ensures
        r@ == changes(prev@, cur@),
{
    let mut out: Vec<TitleChange> = Vec::new();
    let mut i: usize = 0;
    while i < cur.len()
        invariant
            i <= cur@.len(),
            out@ == changes(prev@, cur@.subrange(0, i as int)),
        decreases cur.len() - i,
    {
        let ghost next = cur@.subrange(0, i + 1);
        assert(next.drop_last() =~= cur@.subrange(0, i as int));
        assert(next.last() == cur@[i as int]);
        let t = &cur[i];
        match find_cached_playtime(prev, t.app_id) {
            None => {
                out.push(TitleChange { index: i, previous: None });
            },
            Some(p) => {
                if p != t.playtime_forever {
                    out.push(TitleChange { index: i, previous: Some(p) });
                }
            },
        }
        i = i + 1;
    }
    assert(cur@.subrange(0, cur@.len() as int) =~= cur@);
    out
}

/// In a snapshot without repeated identifiers, looking up a title's own
/// identifier yields that title's playtime.
pub proof fn lemma_cached_own_entry(s: Seq<Game>, k: int)
    requires
        unique_ids(s),
        0 <= k < s.len(),
    ensures
        cached_playtime(s, s[k].app_id) == Some(s[k].playtime_forever),
    decreases s.len(),
{
    if k > 0 {
        let rest = s.drop_first();
        assert(s[0].app_id != s[k].app_id);
        assert(rest[k - 1] == s[k]);
        lemma_cached_own_entry(rest, k - 1);
    }
}

/// An identifier that no title of `s` holds has no cached playtime.
pub proof fn lemma_cached_absent(s: Seq<Game>, id: u32)
    requires
        forall|i: int| 0 <= i < s.len() ==> s[i].app_id != id,
    ensures
        cached_playtime(s, id) == None::<u32>,
    decreases s.len(),
{
    if s.len() > 0 {
        let rest = s.drop_first();
        assert forall|i: int| 0 <= i < rest.len() implies rest[i].app_id != id by {
            assert(rest[i] == s[i + 1]);
        }
        lemma_cached_absent(rest, id);
    }
}

/// Unfolds `changes` over the prefix of `cur` one title longer.
pub proof fn lemma_changes_step(prev: Seq<Game>, cur: Seq<Game>, n: int)
    requires
        0 <= n < cur.len(),
        cur.len() <= usize::MAX,
    ensures
        changes(prev, cur.subrange(0, n + 1)) == match change_of(prev, cur[n]) {
            None => changes(prev, cur.subrange(0, n)),
            Some(p) => changes(prev, cur.subrange(0, n)).push(
                TitleChange { index: n as usize, previous: p },
            ),
        },
{
    let next = cur.subrange(0, n + 1);
    assert(next.drop_last() =~= cur.subrange(0, n));
    assert(next.last() == cur[n]);
}

/// Every reported change points into `cur` and says what `change_of` says of
/// that title.
pub proof fn lemma_changes_sound(prev: Seq<Game>, cur: Seq<Game>)
    requires
        cur.len() <= usize::MAX,
    ensures
        forall|j: int|
            0 <= j < changes(prev, cur).len() ==> {
                let c = #[trigger] changes(prev, cur)[j];
                &&& c.index < cur.len()
                &&& change_of(prev, cur[c.index as int]) == Some(c.previous)
            },
    decreases cur.len(),
{
    if cur.len() > 0 {
        let init = cur.drop_last();
        lemma_changes_sound(prev, init);
        assert forall|j: int| 0 <= j < changes(prev, cur).len() implies {
            let c = #[trigger] changes(prev, cur)[j];
            &&& c.index < cur.len()
            &&& change_of(prev, cur[c.index as int]) == Some(c.previous)
        } by {
            if j < changes(prev, init).len() {
                let c = changes(prev, init)[j];
                assert(changes(prev, cur)[j] == c);
                assert(cur[c.index as int] == init[c.index as int]);
            }
        }
    }
}

/// A title for which `change_of` reports something is listed among the
/// changes.
pub proof fn lemma_change_listed(prev: Seq<Game>, cur: Seq<Game>, k: int, p: Option<u32>)
    requires
        cur.len() <= usize::MAX,
        0 <= k < cur.len(),
        change_of(prev, cur[k]) == Some(p),
    ensures
        changes(prev, cur).contains(TitleChange { index: k as usize, previous: p }),
    decreases cur.len(),
{
    let c = TitleChange { index: k as usize, previous: p };
    let all = changes(prev, cur);
    if k == cur.len() - 1 {
        assert(all[all.len() - 1] == c);
    } else {
        let init = cur.drop_last();
        assert(init[k] == cur[k]);
        lemma_change_listed(prev, init, k, p);
        let j = choose|j: int| 0 <= j < changes(prev, init).len() && changes(prev, init)[j] == c;
        assert(all[j] == c);
    }
}

proof fn lemma_self_prefix_quiet(s: Seq<Game>, n: int)
    requires
        unique_ids(s),
        s.len() <= usize::MAX,
        0 <= n <= s.len(),
    ensures
        changes(s, s.subrange(0, n)) == Seq::<TitleChange>::empty(),
    decreases n,
{
    if n > 0 {
        lemma_self_prefix_quiet(s, n - 1);
        lemma_changes_step(s, s, n - 1);
        lemma_cached_own_entry(s, n - 1);
    } else {
        assert(s.subrange(0, 0).len() == 0);
    }
}

/// Comparing a snapshot with itself reports no change.
pub proof fn law_self_comparison_is_quiet(s: Seq<Game>)
    requires
        unique_ids(s),
        s.len() <= usize::MAX,
    ensures
        changes(s, s) == Seq::<TitleChange>::empty(),
{
    lemma_self_prefix_quiet(s, s.len() as int);
    assert(s.subrange(0, s.len() as int) =~= s);
}

proof fn lemma_single_increase_prefix(s1: Seq<Game>, s2: Seq<Game>, k: int, n: int)
    requires
        unique_ids(s1),
        s1.len() <= usize::MAX,
        s2.len() == s1.len(),
        0 <= k < s1.len(),
        0 <= n <= s1.len(),
        s2[k].app_id == s1[k].app_id,
        s2[k].playtime_forever > s1[k].playtime_forever,
        forall|i: int| 0 <= i < s1.len() && i != k ==> s2[i] == s1[i],
    ensures
        changes(s1, s2.subrange(0, n)) == (if n <= k {
            Seq::<TitleChange>::empty()
        } else {
            seq![TitleChange { index: k as usize, previous: Some(s1[k].playtime_forever) }]
        }),
    decreases n,
{
    if n > 0 {
        let c = TitleChange { index: k as usize, previous: Some(s1[k].playtime_forever) };
        lemma_single_increase_prefix(s1, s2, k, n - 1);
        lemma_changes_step(s1, s2, n - 1);
        lemma_cached_own_entry(s1, n - 1);
        if n - 1 == k {
            assert(Seq::<TitleChange>::empty().push(c) =~= seq![c]);
        }
    } else {
        assert(s2.subrange(0, 0).len() == 0);
    }
}

/// When the current snapshot differs from the previous one only by a higher
/// playtime of the title at `k`, exactly that title is reported, with its
/// previous playtime.
pub proof fn law_single_increase_reported(s1: Seq<Game>, s2: Seq<Game>, k: int)
    requires
        unique_ids(s1),
        s1.len() <= usize::MAX,
        s2.len() == s1.len(),
        0 <= k < s1.len(),
        s2[k].app_id == s1[k].app_id,
        s2[k].name == s1[k].name,
        s2[k].playtime_forever > s1[k].playtime_forever,
        forall|i: int| 0 <= i < s1.len() && i != k ==> s2[i] == s1[i],
    ensures
        changes(s1, s2) == seq![
            TitleChange { index: k as usize, previous: Some(s1[k].playtime_forever) },
        ],
{
    lemma_single_increase_prefix(s1, s2, k, s2.len() as int);
    assert(s2.subrange(0, s2.len() as int) =~= s2);
}

/// A title of the current snapshot whose identifier the previous snapshot
/// lacks is reported as new.
pub proof fn law_new_title_reported(s1: Seq<Game>, s2: Seq<Game>, k: int)
    requires
        s2.len() <= usize::MAX,
        0 <= k < s2.len(),
        forall|i: int| 0 <= i < s1.len() ==> s1[i].app_id != s2[k].app_id,
    ensures
        changes(s1, s2).contains(TitleChange { index: k as usize, previous: None }),
{
    lemma_cached_absent(s1, s2[k].app_id);
    lemma_change_listed(s1, s2, k, None);
}

} // verus!
