//! Active-user selection: group a machine's samples by user, pick the user
//! with the highest summed CPU, and report that user's busiest task.
//!
//! Ties between users with equal summed CPU go to the lexicographically
//! smallest user name; ties between a user's equally busy tasks go to the
//! earliest sample. Both rules make the selection deterministic.

use vstd::prelude::*;

use crate::model::{ActiveUser, ActiveUserView, ProcessView, Processes};
use crate::text::{lemma_lex_antisym, lemma_lex_refl, lemma_lex_total, lex_le, str_eq, str_lex_le};

verus! {

/// Summed CPU (in hundredths of a percent) of user `u`'s samples.
pub open spec fn user_total(s: Seq<ProcessView>, u: Seq<char>) -> int
    decreases s.len(),
{
    if s.len() == 0 {
        0
    } else {
        user_total(s.drop_last(), u) + if s.last().user == u {
            s.last().usage as int
        } else {
            0int
        }
    }
}

/// Number of samples attributed to user `u`.
pub open spec fn user_count(s: Seq<ProcessView>, u: Seq<char>) -> int
    decreases s.len(),
{
    if s.len() == 0 {
        0
    } else {
        user_count(s.drop_last(), u) + if s.last().user == u {
            1int
        } else {
            0int
        }
    }
}

/// Does any sample belong to user `u`?
pub open spec fn has_user(s: Seq<ProcessView>, u: Seq<char>) -> bool {
    exists|i: int| 0 <= i < s.len() && (#[trigger] s[i]).user == u
}

/// The highest CPU among user `u`'s samples, or `-1` if there are none.
pub open spec fn user_max_usage(s: Seq<ProcessView>, u: Seq<char>) -> int
    decreases s.len(),
{
    if s.len() == 0 {
        -1
    } else {
        let m = user_max_usage(s.drop_last(), u);
        if s.last().user == u && s.last().usage as int > m {
            s.last().usage as int
        } else {
            m
        }
    }
}

/// A user with no samples has zero total, zero count and no maximum.
pub proof fn lemma_absent_user(s: Seq<ProcessView>, u: Seq<char>)
    requires
        !has_user(s, u),
    ensures
        user_total(s, u) == 0,
        user_count(s, u) == 0,
        user_max_usage(s, u) == -1,
    decreases s.len(),
{
    if s.len() > 0 {
        assert(!has_user(s.drop_last(), u)) by {
            if has_user(s.drop_last(), u) {
                let i = choose|i: int|
                    0 <= i < s.drop_last().len() && (#[trigger] s.drop_last()[i]).user == u;
                assert(s[i].user == u);
            }
        }
        assert(s.last().user != u) by {
            if s.last().user == u {
                assert(s[s.len() - 1].user == u);
            }
        }
        lemma_absent_user(s.drop_last(), u);
    }
}

/// Bounds on the per-user figures.
pub proof fn lemma_user_figures_bounds(s: Seq<ProcessView>, u: Seq<char>)
    ensures
        0 <= user_total(s, u) <= s.len() * 0xFFFF_FFFF,
        0 <= user_count(s, u) <= s.len(),
        user_max_usage(s, u) <= 0xFFFF_FFFF,
        -1 <= user_max_usage(s, u),
    decreases s.len(),
{
    if s.len() > 0 {
        lemma_user_figures_bounds(s.drop_last(), u);
        assert((s.len() - 1) * 0xFFFF_FFFF + 0xFFFF_FFFF == s.len() * 0xFFFF_FFFF) by (nonlinear_arith);
    }
}

/// Every sample of user `u` is at or below the user's maximum.
pub proof fn lemma_user_max_dominates(s: Seq<ProcessView>, u: Seq<char>)
    ensures
        forall|i: int|
            0 <= i < s.len() && (#[trigger] s[i]).user == u ==> s[i].usage as int
                <= user_max_usage(s, u),
    decreases s.len(),
{
    if s.len() > 0 {
        lemma_user_max_dominates(s.drop_last(), u);
        assert forall|i: int|
            0 <= i < s.len() && (#[trigger] s[i]).user == u implies s[i].usage as int
            <= user_max_usage(s, u) by {
            if i < s.len() - 1 {
                assert(s.drop_last()[i] == s[i]);
            }
        }
    }
}

/// A user with samples has a sample that attains the maximum.
pub proof fn lemma_user_max_witness(s: Seq<ProcessView>, u: Seq<char>)
    requires
        has_user(s, u),
    ensures
        exists|i: int|
            0 <= i < s.len() && (#[trigger] s[i]).user == u && s[i].usage as int == user_max_usage(
                s,
                u,
            ),
    decreases s.len(),
{
    let m = user_max_usage(s, u);
    if s.last().user == u && s.last().usage as int > user_max_usage(s.drop_last(), u) {
        assert(s[s.len() - 1].user == u && s[s.len() - 1].usage as int == m);
    } else if s.last().user == u && !has_user(s.drop_last(), u) {
        lemma_absent_user(s.drop_last(), u);
        assert(s[s.len() - 1].user == u && s[s.len() - 1].usage as int == m);
    } else {
        assert(has_user(s.drop_last(), u)) by {
            let i = choose|i: int| 0 <= i < s.len() && (#[trigger] s[i]).user == u;
            if i == s.len() - 1 {
                assert(s.last().user == u);
                assert(s.last().usage as int <= user_max_usage(s.drop_last(), u));
                if !has_user(s.drop_last(), u) {
                    lemma_absent_user(s.drop_last(), u);
                }
            } else {
                assert(s.drop_last()[i].user == u);
            }
        }
        lemma_user_max_witness(s.drop_last(), u);
        let i = choose|i: int|
            0 <= i < s.drop_last().len() && (#[trigger] s.drop_last()[i]).user == u
                && s.drop_last()[i].usage as int == user_max_usage(s.drop_last(), u);
        assert(s[i].user == u && s[i].usage as int == m);
    }
}

/// `task` is the name of user `u`'s earliest sample attaining the maximum.
pub open spec fn is_task_of(s: Seq<ProcessView>, u: Seq<char>, task: Seq<char>) -> bool {
    exists|i: int|
        {
            &&& 0 <= i < s.len()
            &&& (#[trigger] s[i]).user == u
            &&& s[i].usage as int == user_max_usage(s, u)
            &&& s[i].name == task
            &&& forall|j: int|
                0 <= j < i && (#[trigger] s[j]).user == u ==> s[j].usage as int != user_max_usage(
                    s,
                    u,
                )
        }
}

/// Is `r` the active user of the samples `s`? Absent exactly when there are
/// no samples; otherwise the user with the highest summed CPU (ties to the
/// lexicographically smallest name), its sample count, and its busiest task.
pub open spec fn is_active_user(s: Seq<ProcessView>, r: Option<ActiveUserView>) -> bool {
    match r {
        Option::None => s.len() == 0,
        Option::Some(au) => {
            &&& s.len() > 0
            &&& has_user(s, au.user)
            &&& forall|u: Seq<char>|
                #[trigger] has_user(s, u) ==> user_total(s, u) <= user_total(s, au.user)
            &&& forall|u: Seq<char>|
                #[trigger] has_user(s, u) && user_total(s, u) == user_total(s, au.user)
                    ==> lex_le(au.user, u)
            &&& au.cores == user_count(s, au.user)
            &&& is_task_of(s, au.user, au.task)
        },
    }
}

/// The view of an optional [`ActiveUser`].
pub open spec fn active_user_view(r: Option<ActiveUser>) -> Option<ActiveUserView> {
    match r {
        Option::Some(au) => Option::Some(au@),
        Option::None => Option::None,
    }
}

/// At most one value satisfies [`is_active_user`]: re-running the selection
/// on the same samples always yields the same user, count and task.
pub proof fn lemma_active_user_unique(
    s: Seq<ProcessView>,
    r1: Option<ActiveUserView>,
    r2: Option<ActiveUserView>,
)
    requires
        is_active_user(s, r1),
        is_active_user(s, r2),
    ensures
        r1 == r2,
{
    match (r1, r2) {
        (Option::Some(a1), Option::Some(a2)) => {
            assert(user_total(s, a1.user) <= user_total(s, a2.user));
            assert(user_total(s, a2.user) <= user_total(s, a1.user));
            assert(lex_le(a1.user, a2.user));
            assert(lex_le(a2.user, a1.user));
            lemma_lex_antisym(a1.user, a2.user);
            assert(a1.user == a2.user);
            assert(a1.cores == a2.cores);
            let i1 = choose|i: int|
                {
                    &&& 0 <= i < s.len()
                    &&& (#[trigger] s[i]).user == a1.user
                    &&& s[i].usage as int == user_max_usage(s, a1.user)
                    &&& s[i].name == a1.task
                    &&& forall|j: int|
                        0 <= j < i && (#[trigger] s[j]).user == a1.user ==> s[j].usage as int
                            != user_max_usage(s, a1.user)
                };
            let i2 = choose|i: int|
                {
                    &&& 0 <= i < s.len()
                    &&& (#[trigger] s[i]).user == a2.user
                    &&& s[i].usage as int == user_max_usage(s, a2.user)
                    &&& s[i].name == a2.task
                    &&& forall|j: int|
                        0 <= j < i && (#[trigger] s[j]).user == a2.user ==> s[j].usage as int
                            != user_max_usage(s, a2.user)
                };
            assert(i1 == i2) by {
                if i1 < i2 {
                    assert(s[i1].usage as int != user_max_usage(s, a2.user));
                } else if i2 < i1 {
                    assert(s[i2].usage as int != user_max_usage(s, a1.user));
                }
            }
            assert(a1.task == a2.task);
            assert(a1 =~= a2);
        },
        (Option::Some(_), Option::None) => {},
        (Option::None, Option::Some(_)) => {},
        (Option::None, Option::None) => {},
    }
}

// ---------------------------------------------------------------------------
// Per-user statistics
// ---------------------------------------------------------------------------

/// View of [`UserStat`].
#[verifier::ext_equal]
pub struct UserStatView {
    pub user: Seq<char>,
    pub total: u64,
    pub count: u32,
}

/// Per-user aggregate over one machine's samples.
#[derive(PartialEq, Clone, Debug)]
pub struct UserStat {
    pub user: String,
    pub total: u64,
    pub count: u32,
}

impl View for UserStat {
    type V = UserStatView;

    open spec fn view(&self) -> UserStatView {
        UserStatView { user: self.user@, total: self.total, count: self.count }
    }
}

/// Groups the samples by user: one entry per distinct user, with that
/// user's summed CPU and sample count.
pub fn user_stats(procs: &Processes) -> (r: Vec<UserStat>)
    requires
        procs@.len() <= 0xFFFF_FFFF,
    ensures
        forall|k: int| 0 <= k < r@.len() ==> has_user(procs@, (#[trigger] r@[k])@.user),
        forall|k: int|
            0 <= k < r@.len() ==> (#[trigger] r@[k])@.total == user_total(procs@, r@[k]@.user)
                && r@[k]@.count == user_count(procs@, r@[k]@.user),
        forall|k: int, l: int| 0 <= k < l < r@.len() ==> (#[trigger] r@[k])@.user != (#[trigger] r@[l])@.user,
        forall|u: Seq<char>|
            #[trigger] has_user(procs@, u) ==> exists|k: int|
                0 <= k < r@.len() && (#[trigger] r@[k])@.user == u,
{
    let s = &procs.0;
    let ghost sv = procs@;
    let mut stats: Vec<UserStat> = Vec::new();
    let mut i: usize = 0;
    proof {
        assert(sv.subrange(0, 0) =~= Seq::<ProcessView>::empty());
        assert forall|u: Seq<char>| #[trigger] has_user(sv.subrange(0, 0), u) implies false by {
        }
    }
    while i < s.len()
        invariant
            0 <= i <= s.len(),
            s@.len() == sv.len(),
            sv == s@.map_values(|p: crate::model::Process| p@),
            sv.len() <= 0xFFFF_FFFF,
            forall|k: int| 0 <= k < stats@.len() ==> has_user(sv.subrange(0, i as int), (#[trigger] stats@[k])@.user),
            forall|k: int|
                0 <= k < stats@.len() ==> (#[trigger] stats@[k])@.total == user_total(
                    sv.subrange(0, i as int),
                    stats@[k]@.user,
                ) && stats@[k]@.count == user_count(sv.subrange(0, i as int), stats@[k]@.user),
            forall|k: int, l: int|
                0 <= k < l < stats@.len() ==> (#[trigger] stats@[k])@.user != (#[trigger] stats@[l])@.user,
            forall|u: Seq<char>|
                #[trigger] has_user(sv.subrange(0, i as int), u) ==> exists|k: int|
                    0 <= k < stats@.len() && (#[trigger] stats@[k])@.user == u,
        decreases s.len() - i,
    {
        let ghost pre = sv.subrange(0, i as int);
        let ghost cur = sv.subrange(0, i + 1);
        let ghost statsv = stats@;
        proof {
            assert(cur.drop_last() =~= pre);
            assert(cur.last() == sv[i as int]);
            assert(sv[i as int] == s@[i as int]@);
            lemma_user_figures_bounds(pre, sv[i as int].user);
        }
        // Find this sample's user among the stats gathered so far.
        let p = &s[i];
        let mut f: usize = 0;
        let mut found: bool = false;
        while f < stats.len() && !found
            invariant
                0 <= f <= stats@.len(),
                stats@ == statsv,
                found ==> f < stats@.len() && stats@[f as int]@.user == p@.user,
                !found ==> forall|k: int| 0 <= k < f ==> (#[trigger] stats@[k])@.user != p@.user,
            decreases stats@.len() - f + if found { 0int } else { 1int },
        {
            if str_eq(stats[f].user.as_str(), p.user.as_str()) {
                found = true;
            } else {
                f = f + 1;
            }
        }
        if found {
            let entry = stats.remove(f);
            let updated = UserStat {
                user: entry.user,
                total: entry.total + p.usage as u64,
                count: entry.count + 1,
            };
            stats.insert(f, updated);
            proof {
                assert(stats@ =~= statsv.update(f as int, stats@[f as int]));
            }
        } else {
            stats.push(
                UserStat { user: p.user.clone(), total: p.usage as u64, count: 1 },
            );
        }
        proof {
            let newstats = stats@;
            assert forall|k: int|
                0 <= k < newstats.len() implies has_user(cur, (#[trigger] newstats[k])@.user)
                && newstats[k]@.total == user_total(cur, newstats[k]@.user) && newstats[k]@.count
                == user_count(cur, newstats[k]@.user) by {
                if found {
                    if k == f {
                        assert(newstats[k]@.user == statsv[k]@.user);
                    } else {
                        assert(newstats[k] == statsv[k]);
                        assert(statsv[k]@.user != statsv[f as int]@.user);
                    }
                } else {
                    if k < statsv.len() {
                        assert(newstats[k] == statsv[k]);
                    } else {
                        assert(newstats[k]@.user == cur.last().user);
                        if has_user(pre, cur.last().user) {
                            let w = choose|w: int|
                                0 <= w < pre.len() && (#[trigger] pre[w]).user == cur.last().user;
                            assert(false);
                        }
                        lemma_absent_user(pre, cur.last().user);
                    }
                }
                if has_user(pre, newstats[k]@.user) {
                    let w = choose|w: int|
                        0 <= w < pre.len() && (#[trigger] pre[w]).user == newstats[k]@.user;
                    assert(cur[w].user == newstats[k]@.user);
                } else {
                    assert(cur[cur.len() - 1].user == cur.last().user);
                }
            }
            assert forall|u: Seq<char>|
                #[trigger] has_user(cur, u) implies exists|k: int|
                0 <= k < newstats.len() && (#[trigger] newstats[k])@.user == u by {
                let w = choose|w: int| 0 <= w < cur.len() && (#[trigger] cur[w]).user == u;
                if w < pre.len() {
                    assert(pre[w].user == u);
                    assert(has_user(pre, u));
                    let k = choose|k: int|
                        0 <= k < statsv.len() && (#[trigger] statsv[k])@.user == u;
                    if found {
                        if k == f {
                            assert(newstats[k]@.user == u);
                        } else {
                            assert(newstats[k]@.user == u);
                        }
                    } else {
                        assert(newstats[k]@.user == u);
                    }
                } else {
                    // the new sample's user
                    if found {
                        assert(newstats[f as int]@.user == u);
                    } else {
                        assert(newstats[newstats.len() - 1]@.user == u);
                    }
                }
            }
        }
        i = i + 1;
    }
    proof {
        assert(sv.subrange(0, s@.len() as int) =~= sv);
    }
    stats
}

// ---------------------------------------------------------------------------
// Selection
// ---------------------------------------------------------------------------

/// Selects the active user of a machine's samples: the user whose samples
/// sum to the highest CPU, with ties going to the lexicographically smallest
/// user name. Absent exactly when there are no samples.
pub fn active_user(procs: &Processes) -> (r: Option<ActiveUser>)
    requires
        procs@.len() <= 0xFFFF_FFFF,
    ensures
        is_active_user(procs@, active_user_view(r)),
        r is Some <==> procs@.len() > 0,
{
    let ghost sv = procs@;
    let stats = user_stats(procs);
    if stats.len() == 0 {
        proof {
            if sv.len() > 0 {
                assert(sv[0].user == sv[0].user);
                assert(has_user(sv, sv[0].user));
            }
        }
        return Option::None;
    }
    // Pick the best stat: highest total, ties to the lexicographically
    // smallest user name.
    let mut b: usize = 0;
    let mut k: usize = 1;
    proof {
        lemma_lex_refl(stats@[0]@.user);
    }
    while k < stats.len()
        invariant
            0 <= b < k <= stats@.len(),
            stats@.len() > 0,
            forall|j: int|
                0 <= j < k ==> (#[trigger] stats@[j])@.total <= stats@[b as int]@.total,
            forall|j: int|
                0 <= j < k && (#[trigger] stats@[j])@.total == stats@[b as int]@.total ==> lex_le(
                    stats@[b as int]@.user,
                    stats@[j]@.user,
                ),
        decreases stats@.len() - k,
    {
        let better = stats[k].total > stats[b].total || (stats[k].total == stats[b].total
            && !str_lex_le(stats[b].user.as_str(), stats[k].user.as_str()));
        proof {
            lemma_lex_total(stats@[b as int]@.user, stats@[k as int]@.user);
            lemma_lex_refl(stats@[k as int]@.user);
        }
        if better {
            proof {
                assert forall|j: int|
                    0 <= j < k + 1 && (#[trigger] stats@[j])@.total == stats@[k as int]@.total
                    implies lex_le(stats@[k as int]@.user, stats@[j]@.user) by {
                    if j < k {
                        crate::text::lemma_lex_trans(
                            stats@[k as int]@.user,
                            stats@[b as int]@.user,
                            stats@[j]@.user,
                        );
                    }
                }
            }
            b = k;
        }
        k = k + 1;
    }
    let ghost bu = stats@[b as int]@.user;
    proof {
        assert(has_user(sv, bu));
        assert forall|u: Seq<char>| #[trigger] has_user(sv, u) implies user_total(sv, u)
            <= user_total(sv, bu) by {
            let j = choose|j: int| 0 <= j < stats@.len() && (#[trigger] stats@[j])@.user == u;
        }
        assert forall|u: Seq<char>|
            #[trigger] has_user(sv, u) && user_total(sv, u) == user_total(sv, bu) implies lex_le(
            bu,
            u,
        ) by {
            let j = choose|j: int| 0 <= j < stats@.len() && (#[trigger] stats@[j])@.user == u;
            assert(stats@[j]@.total == stats@[b as int]@.total);
        }
    }
    // The best user's highest single-sample CPU.
    let s = &procs.0;
    let mut mx: u32 = 0;
    let mut seen: bool = false;
    let mut i: usize = 0;
    proof {
        assert(sv.subrange(0, 0) =~= Seq::<ProcessView>::empty());
    }
    while i < s.len()
        invariant
            0 <= i <= s.len(),
            sv == s@.map_values(|p: crate::model::Process| p@),
            stats@[b as int]@.user == bu,
            0 <= b < stats@.len(),
            seen <==> has_user(sv.subrange(0, i as int), bu),
            seen ==> mx as int == user_max_usage(sv.subrange(0, i as int), bu),
            !seen ==> user_max_usage(sv.subrange(0, i as int), bu) == -1,
        decreases s.len() - i,
    {
        let ghost pre = sv.subrange(0, i as int);
        let ghost cur = sv.subrange(0, i + 1);
        proof {
            assert(cur.drop_last() =~= pre);
            assert(cur.last() == sv[i as int]);
            if !has_user(pre, bu) {
                lemma_absent_user(pre, bu);
            }
        }
        if str_eq(s[i].user.as_str(), stats[b].user.as_str()) {
            if !seen || s[i].usage > mx {
                mx = s[i].usage;
            }
            seen = true;
            proof {
                assert(cur[i as int].user == bu);
                assert(has_user(cur, bu));
            }
        } else {
            proof {
                if has_user(cur, bu) {
                    let w = choose|w: int| 0 <= w < cur.len() && (#[trigger] cur[w]).user == bu;
                    if w == i as int {
                        assert(false);
                    } else {
                        assert(pre[w].user == bu);
                    }
                }
                if has_user(pre, bu) {
                    let w = choose|w: int| 0 <= w < pre.len() && (#[trigger] pre[w]).user == bu;
                    assert(cur[w].user == bu);
                }
            }
        }
        i = i + 1;
    }
    proof {
        assert(sv.subrange(0, s@.len() as int) =~= sv);
        assert(seen);
    }
    // The earliest sample of the best user attaining that maximum.
    let mut t: usize = 0;
    while t < s.len() && !(str_eq(s[t].user.as_str(), stats[b].user.as_str()) && s[t].usage == mx)
        invariant
            0 <= t <= s.len(),
            sv == s@.map_values(|p: crate::model::Process| p@),
            stats@[b as int]@.user == bu,
            0 <= b < stats@.len(),
            mx as int == user_max_usage(sv, bu),
            has_user(sv, bu),
            forall|j: int|
                0 <= j < t ==> !((#[trigger] sv[j]).user == bu && sv[j].usage == mx),
        decreases s.len() - t,
    {
        t = t + 1;
    }
    proof {
        if t == s@.len() {
            lemma_user_max_witness(sv, bu);
            let w = choose|w: int|
                0 <= w < sv.len() && (#[trigger] sv[w]).user == bu && sv[w].usage as int
                    == user_max_usage(sv, bu);
            assert(!(sv[w].user == bu && sv[w].usage == mx));
            assert(false);
        }
    }
    let task = s[t].name.clone();
    let best = &stats[b];
    let au = ActiveUser { user: best.user.clone(), cores: best.count, task };
    proof {
        lemma_user_max_dominates(sv, bu);
        assert forall|j: int|
            0 <= j < t && (#[trigger] sv[j]).user == bu implies sv[j].usage as int
            != user_max_usage(sv, bu) by {
            assert(!(sv[j].user == bu && sv[j].usage == mx));
        }
        assert(sv[t as int].user == bu && sv[t as int].usage as int == user_max_usage(sv, bu)
            && sv[t as int].name == au@.task);
        assert(is_task_of(sv, bu, au@.task));
        assert(sv.len() > 0) by {
            let w = choose|w: int| 0 <= w < sv.len() && (#[trigger] sv[w]).user == bu;
        }
    }
    Option::Some(au)
}

} // verus!
