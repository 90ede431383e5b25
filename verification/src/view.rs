//! The view-model shared by all viewers: per-machine rows with hotness and
//! active user, fleet-wide totals, and the fleet user ranking.

use vstd::prelude::*;

use crate::active::{
    active_user, active_user_view, has_user, is_active_user, user_count, user_stats, UserStat,
};
use crate::model::{
    spec_cpu_count, ActiveUser, ActiveUserView, ClusterData, ClusterUsage, CpuUsage, HostInfo,
    LoadAvg, MachineUsage, MachineUsageView, Memory, Owner, OwnerView, Process, ProcessView,
    Processes, Usage,
};
use crate::text::{lemma_lex_refl, lemma_lex_total, lemma_lex_trans, lex_le, str_lex_le};
use crate::PROCESS_USAGE_THRESHOLD_CENTI;
use vstd::arithmetic::div_mod::{
    lemma_div_is_ordered, lemma_div_multiples_vanish, lemma_fundamental_div_mod,
    lemma_mod_bound,
};

verus! {

/// The number of hotness buckets (gradient steps).
pub const HOTNESS_STEPS: u32 = 10;

// ---------------------------------------------------------------------------
// Hotness
// ---------------------------------------------------------------------------

/// The hotness bucket for a five-minute load average `five_centi` (in
/// hundredths) on `cores` cores: the load ratio is `five_centi / (100 *
/// cores)`, and the bucket is `round(ratio * (HOTNESS_STEPS - 1))`, clamped
/// to the bucket range. A machine without cores is treated as ratio zero.
///
/// `round(9 * f / (100 * c))` is computed as `floor((18 f + 100 c) / (200 c))`.
pub open spec fn spec_hotness_bucket(five_centi: int, cores: int) -> int {
    if cores <= 0 {
        0
    } else {
        let b = (18 * five_centi + 100 * cores) / (200 * cores);
        if b > 9 {
            9
        } else {
            b
        }
    }
}

/// Picks the hotness bucket of a machine.
pub fn hotness_bucket(load_five_centi: u64, cores: u32) -> (r: u32)
    ensures
        r == spec_hotness_bucket(load_five_centi as int, cores as int),
        r < HOTNESS_STEPS,
{
    if cores == 0 {
        return 0;
    }
    let num: u128 = 18 * (load_five_centi as u128) + 100 * (cores as u128);
    let den: u128 = 200 * (cores as u128);
    let b = num / den;
    if b > 9 {
        9
    } else {
        b as u32
    }
}

/// For two ratios `f1/(100 c1) <= f2/(100 c2)` (compared by cross
/// multiplication), the bucket of the first is at most the bucket of the
/// second: hotness is monotonic in the load ratio.
pub proof fn lemma_hotness_monotone(f1: int, c1: int, f2: int, c2: int)
    requires
        0 <= f1,
        0 <= f2,
        0 < c1,
        0 < c2,
        f1 * c2 <= f2 * c1,
    ensures
        spec_hotness_bucket(f1, c1) <= spec_hotness_bucket(f2, c2),
{
    let a = 18 * f1 + 100 * c1;
    let b = 200 * c1;
    let c = 18 * f2 + 100 * c2;
    let d = 200 * c2;
    assert(a * d <= c * b) by (nonlinear_arith)
        requires
            f1 * c2 <= f2 * c1,
            0 < c1,
            0 < c2,
            a == 18 * f1 + 100 * c1,
            b == 200 * c1,
            c == 18 * f2 + 100 * c2,
            d == 200 * c2,
    ;
    lemma_div_cross_ordered(a, b, c, d);
}

/// Floor division respects the order of rationals: if `a/b <= c/d` as exact
/// fractions, the integer quotients are ordered the same way.
proof fn lemma_div_cross_ordered(a: int, b: int, c: int, d: int)
    requires
        0 <= a,
        0 <= c,
        0 < b,
        0 < d,
        a * d <= c * b,
    ensures
        a / b <= c / d,
{
    let q = a / b;
    lemma_fundamental_div_mod(a, b);
    lemma_mod_bound(a, b);
    assert(b * q <= a);
    assert(q * d <= c) by (nonlinear_arith)
        requires
            b * q <= a,
            a * d <= c * b,
            0 < b,
            0 < d,
    ;
    lemma_div_multiples_vanish(q, d);
    lemma_div_is_ordered(d * q, c, d);
}

// ---------------------------------------------------------------------------
// Core counts and fleet totals
// ---------------------------------------------------------------------------

/// The sum of a sequence of per-core readings.
pub open spec fn spec_vec_sum(s: Seq<u32>) -> int
    decreases s.len(),
{
    if s.len() == 0 {
        0
    } else {
        spec_vec_sum(s.drop_last()) + s.last()
    }
}

/// The number of readings strictly above the usage threshold.
pub open spec fn spec_used_cores(s: Seq<u32>) -> int
    decreases s.len(),
{
    if s.len() == 0 {
        0
    } else {
        spec_used_cores(s.drop_last()) + if s.last() > PROCESS_USAGE_THRESHOLD_CENTI {
            1int
        } else {
            0int
        }
    }
}

proof fn lemma_vec_sum_bounds(s: Seq<u32>)
    ensures
        0 <= spec_vec_sum(s) <= s.len() * 0xFFFF_FFFF,
        0 <= spec_used_cores(s) <= s.len(),
    decreases s.len(),
{
    if s.len() > 0 {
        lemma_vec_sum_bounds(s.drop_last());
        assert((s.len() - 1) * 0xFFFF_FFFF + 0xFFFF_FFFF == s.len() * 0xFFFF_FFFF)
            by (nonlinear_arith);
    }
}

/// Sums the per-core readings of one machine.
pub fn vec_sum(v: &Vec<u32>) -> (r: u64)
    requires
        v@.len() <= 0xFFFF_FFFF,
    ensures
        r == spec_vec_sum(v@),
{
    let mut acc: u64 = 0;
    let mut i: usize = 0;
    proof {
        assert(v@.subrange(0, 0) =~= Seq::<u32>::empty());
    }
    while i < v.len()
        invariant
            0 <= i <= v@.len(),
            v@.len() <= 0xFFFF_FFFF,
            acc == spec_vec_sum(v@.subrange(0, i as int)),
        decreases v@.len() - i,
    {
        proof {
            assert(v@.subrange(0, i + 1).drop_last() =~= v@.subrange(0, i as int));
            assert(v@.subrange(0, i + 1).last() == v@[i as int]);
            lemma_vec_sum_bounds(v@.subrange(0, i as int));
            assert(i * 0xFFFF_FFFF + 0xFFFF_FFFF <= 0xFFFF_FFFF * 0xFFFF_FFFF)
                by (nonlinear_arith)
                requires
                    0 <= i <= 0xFFFF_FFFF - 1,
            ;
        }
        acc = acc + v[i] as u64;
        i = i + 1;
    }
    proof {
        assert(v@.subrange(0, v@.len() as int) =~= v@);
    }
    acc
}

/// Counts the cores of one machine that read strictly above the threshold.
pub fn used_cores(v: &Vec<u32>) -> (r: u32)
    requires
        v@.len() <= 0xFFFF_FFFF,
    ensures
        r == spec_used_cores(v@),
{
    let mut acc: u32 = 0;
    let mut i: usize = 0;
    proof {
        assert(v@.subrange(0, 0) =~= Seq::<u32>::empty());
    }
    while i < v.len()
        invariant
            0 <= i <= v@.len(),
            v@.len() <= 0xFFFF_FFFF,
            acc == spec_used_cores(v@.subrange(0, i as int)),
        decreases v@.len() - i,
    {
        proof {
            assert(v@.subrange(0, i + 1).drop_last() =~= v@.subrange(0, i as int));
            assert(v@.subrange(0, i + 1).last() == v@[i as int]);
            lemma_vec_sum_bounds(v@.subrange(0, i as int));
        }
        if v[i] > PROCESS_USAGE_THRESHOLD_CENTI {
            acc = acc + 1;
        }
        i = i + 1;
    }
    proof {
        assert(v@.subrange(0, v@.len() as int) =~= v@);
    }
    acc
}

/// The used/total core figures of one machine.
pub fn cpu_usage_of(cpus: &Vec<u32>) -> (r: CpuUsage)
    requires
        cpus@.len() <= 0xFFFF_FFFF,
    ensures
        r.used == spec_used_cores(cpus@),
        r.total == cpus@.len(),
{
    proof {
        lemma_vec_sum_bounds(cpus@);
    }
    CpuUsage { used: used_cores(cpus), total: cpus.len() as u32 }
}

/// The summed per-core readings of the whole cluster.
pub open spec fn spec_cpu_sum(c: Seq<MachineUsageView>) -> int
    decreases c.len(),
{
    if c.len() == 0 {
        0
    } else {
        spec_cpu_sum(c.drop_last()) + spec_vec_sum(c.last().usage.cpus)
    }
}

proof fn lemma_cpu_sum_bounds(c: Seq<MachineUsageView>)
    ensures
        0 <= spec_cpu_sum(c) <= spec_cpu_count(c) * 0xFFFF_FFFF,
        0 <= spec_cpu_count(c),
    decreases c.len(),
{
    if c.len() > 0 {
        lemma_cpu_sum_bounds(c.drop_last());
        lemma_vec_sum_bounds(c.last().usage.cpus);
        assert(spec_cpu_count(c.drop_last()) * 0xFFFF_FFFF + c.last().usage.cpus.len()
            * 0xFFFF_FFFF == spec_cpu_count(c) * 0xFFFF_FFFF) by (nonlinear_arith)
            requires
                spec_cpu_count(c) == spec_cpu_count(c.drop_last()) + c.last().usage.cpus.len(),
        ;
    }
}

proof fn lemma_cpu_count_mono(c: Seq<MachineUsageView>, i: int, j: int)
    requires
        0 <= i <= j <= c.len(),
    ensures
        spec_cpu_count(c.subrange(0, i)) <= spec_cpu_count(c.subrange(0, j)),
    decreases j - i,
{
    if i < j {
        lemma_cpu_count_mono(c, i, j - 1);
        assert(c.subrange(0, j).drop_last() =~= c.subrange(0, j - 1));
        lemma_vec_sum_bounds(c.subrange(0, j).last().usage.cpus);
    }
}

/// The fleet usage ratio: the summed per-core readings over
/// `10000 * total_cores`. With no cores in the fleet the ratio is zero.
#[derive(Clone, Copy, Debug, PartialEq, Eq, Structural)]
pub struct UsageRatio {
    pub used_centi: u64,
    pub total_cores: u32,
}

/// Computes the fleet-wide usage ratio figures.
pub fn total_usage(c: &ClusterUsage) -> (r: UsageRatio)
    requires
        spec_cpu_count(c@) <= 0xFFFF_FFFF,
    ensures
        r.used_centi == spec_cpu_sum(c@),
        r.total_cores == spec_cpu_count(c@),
{
    let ghost cv = c@;
    let mut acc: u64 = 0;
    let mut i: usize = 0;
    proof {
        assert(cv.subrange(0, 0) =~= Seq::<MachineUsageView>::empty());
    }
    while i < c.0.len()
        invariant
            0 <= i <= c.0@.len(),
            cv == c.0@.map_values(|m: MachineUsage| m@),
            spec_cpu_count(cv) <= 0xFFFF_FFFF,
            acc == spec_cpu_sum(cv.subrange(0, i as int)),
        decreases c.0@.len() - i,
    {
        proof {
            assert(cv.subrange(0, i + 1).drop_last() =~= cv.subrange(0, i as int));
            assert(cv.subrange(0, i + 1).last() == cv[i as int]);
            lemma_cpu_count_mono(cv, i + 1, cv.len() as int);
            assert(cv.subrange(0, cv.len() as int) =~= cv);
            lemma_cpu_sum_bounds(cv.subrange(0, i + 1));
            assert(spec_cpu_count(cv.subrange(0, i + 1)) * 0xFFFF_FFFF <= 0xFFFF_FFFF
                * 0xFFFF_FFFF) by (nonlinear_arith)
                requires
                    0 <= spec_cpu_count(cv.subrange(0, i + 1)) <= 0xFFFF_FFFF,
            ;
            lemma_vec_sum_bounds(cv[i as int].usage.cpus);
            assert(cv[i as int].usage.cpus.len() <= 0xFFFF_FFFF) by {
                lemma_cpu_sum_bounds(cv.subrange(0, i as int));
                assert(spec_cpu_count(cv.subrange(0, i + 1)) == spec_cpu_count(
                    cv.subrange(0, i as int),
                ) + cv[i as int].usage.cpus.len());
            }
        }
        let ms = vec_sum(&c.0[i].usage.cpus);
        acc = acc + ms;
        i = i + 1;
    }
    proof {
        assert(cv.subrange(0, cv.len() as int) =~= cv);
        lemma_cpu_sum_bounds(cv);
    }
    let cores = c.cpu_count();
    UsageRatio { used_centi: acc, total_cores: cores }
}

// ---------------------------------------------------------------------------
// Fleet user ranking
// ---------------------------------------------------------------------------

/// All samples of the fleet, in machine order.
pub open spec fn spec_flat_procs(c: Seq<MachineUsageView>) -> Seq<ProcessView>
    decreases c.len(),
{
    if c.len() == 0 {
        Seq::empty()
    } else {
        spec_flat_procs(c.drop_last()) + c.last().usage.processes
    }
}

/// Fleet-wide sample count of user `u`.
pub open spec fn fleet_count(c: Seq<MachineUsageView>, u: Seq<char>) -> int {
    user_count(spec_flat_procs(c), u)
}

/// Does user `u` have a sample anywhere in the fleet?
pub open spec fn fleet_has_user(c: Seq<MachineUsageView>, u: Seq<char>) -> bool {
    has_user(spec_flat_procs(c), u)
}

/// Does a user with `threads` samples stay in the ranking? The display
/// threshold is one percent of the fleet's cores; with no cores, no user is
/// excluded.
pub open spec fn qualifies(threads: int, total_cores: int) -> bool {
    total_cores == 0 || 100 * threads >= total_cores
}

/// View of [`RankEntry`].
#[verifier::ext_equal]
pub struct RankEntryView {
    pub user: Seq<char>,
    pub threads: u64,
}

/// One row of the fleet user ranking.
#[derive(PartialEq, Clone, Debug)]
pub struct RankEntry {
    pub user: String,
    pub threads: u64,
}

impl View for RankEntry {
    type V = RankEntryView;

    open spec fn view(&self) -> RankEntryView {
        RankEntryView { user: self.user@, threads: self.threads }
    }
}

/// Ranking order: higher sample count first, ties by ascending user name.
pub open spec fn rank_le(a: RankEntryView, b: RankEntryView) -> bool {
    a.threads > b.threads || (a.threads == b.threads && lex_le(a.user, b.user))
}

pub proof fn lemma_rank_total(a: RankEntryView, b: RankEntryView)
    ensures
        rank_le(a, b) || rank_le(b, a),
{
    lemma_lex_total(a.user, b.user);
}

pub proof fn lemma_rank_trans(a: RankEntryView, b: RankEntryView, c: RankEntryView)
    requires
        rank_le(a, b),
        rank_le(b, c),
    ensures
        rank_le(a, c),
{
    if a.threads == b.threads && b.threads == c.threads {
        lemma_lex_trans(a.user, b.user, c.user);
    }
}

/// Is `r` the fleet user ranking? Every entry is a fleet user with its exact
/// fleet-wide sample count, no user below the one-percent display threshold
/// appears, every qualifying user appears exactly once, and the entries are
/// sorted by descending count, then ascending user name.
pub open spec fn is_ranking(
    c: Seq<MachineUsageView>,
    total_cores: int,
    r: Seq<RankEntryView>,
) -> bool {
    &&& forall|k: int|
        0 <= k < r.len() ==> fleet_has_user(c, (#[trigger] r[k]).user) && r[k].threads
            == fleet_count(c, r[k].user) && qualifies(r[k].threads as int, total_cores)
    &&& forall|k: int, l: int|
        0 <= k < l < r.len() ==> (#[trigger] r[k]).user != (#[trigger] r[l]).user
    &&& forall|u: Seq<char>|
        #[trigger] fleet_has_user(c, u) && qualifies(fleet_count(c, u), total_cores)
            ==> exists|k: int| 0 <= k < r.len() && (#[trigger] r[k]).user == u
    &&& forall|k: int, l: int| 0 <= k < l < r.len() ==> rank_le(#[trigger] r[k], #[trigger] r[l])
}

proof fn lemma_flat_len_mono(c: Seq<MachineUsageView>, i: int, j: int)
    requires
        0 <= i <= j <= c.len(),
    ensures
        spec_flat_procs(c.subrange(0, i)).len() <= spec_flat_procs(c.subrange(0, j)).len(),
    decreases j - i,
{
    if i < j {
        lemma_flat_len_mono(c, i, j - 1);
        assert(c.subrange(0, j).drop_last() =~= c.subrange(0, j - 1));
    }
}

/// Decides [`rank_le`].
fn rank_le_exec(a: &RankEntry, b: &RankEntry) -> (r: bool)
    ensures
        r == rank_le(a@, b@),
{
    a.threads > b.threads || (a.threads == b.threads && str_lex_le(
        a.user.as_str(),
        b.user.as_str(),
    ))
}

/// Sorts ranking entries by [`rank_le`]; the result holds exactly the given
/// entries (as a multiset).
fn sort_rank(v: Vec<RankEntry>) -> (r: Vec<RankEntry>)
    ensures
        r@.map_values(|e: RankEntry| e@).to_multiset() == v@.map_values(
            |e: RankEntry| e@,
        ).to_multiset(),
        forall|k: int, l: int|
            0 <= k < l < r@.len() ==> rank_le((#[trigger] r@[k])@, (#[trigger] r@[l])@),
{
    broadcast use vstd::seq_lib::group_to_multiset_ensures;
    broadcast use vstd::multiset::group_multiset_axioms;

    let ghost origv = v@.map_values(|e: RankEntry| e@);
    let mut work = v;
    let mut out: Vec<RankEntry> = Vec::new();
    proof {
        assert(out@.map_values(|e: RankEntry| e@).to_multiset().add(
            work@.map_values(|e: RankEntry| e@).to_multiset(),
        ) =~= origv.to_multiset());
    }
    while work.len() > 0
        invariant
            out@.map_values(|e: RankEntry| e@).to_multiset().add(
                work@.map_values(|e: RankEntry| e@).to_multiset(),
            ) == origv.to_multiset(),
            forall|k: int, l: int|
                0 <= k < l < out@.len() ==> rank_le((#[trigger] out@[k])@, (#[trigger] out@[l])@),
            forall|k: int, j: int|
                0 <= k < out@.len() && 0 <= j < work@.len() ==> rank_le(
                    (#[trigger] out@[k])@,
                    (#[trigger] work@[j])@,
                ),
        decreases work@.len(),
    {
        // Find the least remaining entry.
        let mut m: usize = 0;
        let mut k: usize = 1;
        proof {
            lemma_rank_total(work@[0]@, work@[0]@);
        }
        while k < work.len()
            invariant
                0 <= m < k <= work@.len(),
                work@.len() > 0,
                forall|j: int| 0 <= j < k ==> rank_le(work@[m as int]@, (#[trigger] work@[j])@),
            decreases work@.len() - k,
        {
            proof {
                lemma_rank_total(work@[m as int]@, work@[k as int]@);
                lemma_rank_total(work@[k as int]@, work@[k as int]@);
            }
            if !rank_le_exec(&work[m], &work[k]) {
                proof {
                    assert forall|j: int| 0 <= j < k + 1 implies rank_le(
                        work@[k as int]@,
                        (#[trigger] work@[j])@,
                    ) by {
                        if j < k {
                            lemma_rank_trans(work@[k as int]@, work@[m as int]@, work@[j]@);
                        }
                    }
                }
                m = k;
            }
            k = k + 1;
        }
        let ghost workv = work@.map_values(|e: RankEntry| e@);
        let ghost outv = out@.map_values(|e: RankEntry| e@);
        let ghost xv = work@[m as int]@;
        let x = work.remove(m);
        out.push(x);
        proof {
            broadcast use vstd::multiset::group_multiset_axioms;

            vstd::seq_lib::to_multiset_build(outv, xv);
            vstd::seq_lib::to_multiset_remove(workv, m as int);
            vstd::seq_lib::to_multiset_contains(workv, xv);
            assert(work@.map_values(|e: RankEntry| e@) =~= workv.remove(m as int));
            assert(out@.map_values(|e: RankEntry| e@) =~= outv.push(xv));
            assert(workv.to_multiset().contains(xv)) by {
                assert(workv[m as int] == xv);
                assert(workv.contains(xv));
            }
            assert(outv.push(xv).to_multiset() =~= outv.to_multiset().insert(xv));
            assert(workv.remove(m as int).to_multiset() =~= workv.to_multiset().remove(xv)) by {
                assert(workv[m as int] == xv);
            }
            assert(outv.push(xv).to_multiset().add(workv.remove(m as int).to_multiset())
                =~= outv.to_multiset().add(workv.to_multiset()));
            assert forall|k2: int, j: int|
                0 <= k2 < out@.len() && 0 <= j < work@.len() implies rank_le(
                (#[trigger] out@[k2])@,
                (#[trigger] work@[j])@,
            ) by {
                let wj = workv.remove(m as int)[j];
                if j < m {
                    assert(wj == workv[j]);
                } else {
                    assert(wj == workv[j + 1]);
                }
                if k2 < outv.len() {
                    assert(out@[k2]@ == outv[k2]);
                } else {
                    assert(out@[k2]@ == xv);
                }
            }
            assert forall|k2: int, l: int|
                0 <= k2 < l < out@.len() implies rank_le(
                (#[trigger] out@[k2])@,
                (#[trigger] out@[l])@,
            ) by {
                if l == out@.len() - 1 {
                    assert(out@[l]@ == xv);
                    assert(rank_le(outv[k2], workv[m as int]));
                }
            }
        }
    }
    proof {
        assert(work@.map_values(|e: RankEntry| e@).to_multiset() =~= Seq::<
            RankEntryView,
        >::empty().to_multiset());
        assert(out@.map_values(|e: RankEntry| e@).to_multiset().add(
            Seq::<RankEntryView>::empty().to_multiset(),
        ) =~= out@.map_values(|e: RankEntry| e@).to_multiset());
    }
    out
}

/// The fleet user ranking.
#[derive(PartialEq, Clone, Debug)]
pub struct StatsView {
    pub entries: Vec<RankEntry>,
    pub total_cores: u32,
}

impl StatsView {
    /// Builds the fleet user ranking: per-user fleet-wide sample counts,
    /// the sub-one-percent users dropped, sorted by descending count and
    /// ascending user name.
    pub fn new(usage: &ClusterUsage) -> (r: StatsView)
        requires
            spec_flat_procs(usage@).len() <= 0xFFFF_FFFF,
            spec_cpu_count(usage@) <= 0xFFFF_FFFF,
        ensures
            r.total_cores == spec_cpu_count(usage@),
            is_ranking(usage@, r.total_cores as int, r.entries@.map_values(|e: RankEntry| e@)),
    {
        broadcast use vstd::seq_lib::group_to_multiset_ensures;
    broadcast use vstd::multiset::group_multiset_axioms;

        let ghost cv = usage@;
        // Flatten the fleet's samples.
        let mut flat: Vec<Process> = Vec::new();
        let mut i: usize = 0;
        proof {
            assert(cv.subrange(0, 0) =~= Seq::<MachineUsageView>::empty());
            assert(flat@.map_values(|p: Process| p@) =~= Seq::<ProcessView>::empty());
        }
        while i < usage.0.len()
            invariant
                0 <= i <= usage.0@.len(),
                cv == usage.0@.map_values(|m: MachineUsage| m@),
                spec_flat_procs(cv).len() <= 0xFFFF_FFFF,
                flat@.map_values(|p: Process| p@) == spec_flat_procs(cv.subrange(0, i as int)),
            decreases usage.0@.len() - i,
        {
            let machine = &usage.0[i];
            let mut j: usize = 0;
            proof {
                assert(cv.subrange(0, i + 1).drop_last() =~= cv.subrange(0, i as int));
                assert(cv.subrange(0, i + 1).last() == cv[i as int]);
                assert(machine.usage.processes@.subrange(0, 0) =~= Seq::<ProcessView>::empty());
                assert(flat@.map_values(|p: Process| p@) + Seq::<ProcessView>::empty()
                    =~= flat@.map_values(|p: Process| p@));
            }
            let ghost base = flat@.map_values(|p: Process| p@);
            while j < machine.usage.processes.0.len()
                invariant
                    0 <= j <= machine.usage.processes@.len(),
                    machine@ == cv[i as int],
                    0 <= i < cv.len(),
                    base == spec_flat_procs(cv.subrange(0, i as int)),
                    flat@.map_values(|p: Process| p@) == base + machine.usage.processes@.subrange(
                        0,
                        j as int,
                    ),
                decreases machine.usage.processes@.len() - j,
            {
                let ghost pre = flat@.map_values(|p: Process| p@);
                let p = &machine.usage.processes.0[j];
                flat.push(Process { name: p.name.clone(), user: p.user.clone(), usage: p.usage });
                proof {
                    assert(flat@.map_values(|q: Process| q@) =~= pre.push(flat@.last()@));
                    assert(flat@.last()@ == machine.usage.processes@[j as int]);
                    assert(pre.push(machine.usage.processes@[j as int]) =~= base
                        + machine.usage.processes@.subrange(0, j + 1));
                }
                j = j + 1;
            }
            proof {
                assert(machine.usage.processes@.subrange(
                    0,
                    machine.usage.processes@.len() as int,
                ) =~= machine.usage.processes@);
                assert(base + machine.usage.processes@ =~= spec_flat_procs(cv.subrange(0, i + 1)));
            }
            i = i + 1;
        }
        proof {
            assert(cv.subrange(0, cv.len() as int) =~= cv);
        }
        let flat = Processes(flat);
        let ghost flatv = spec_flat_procs(cv);
        proof {
            assert(flat@ == flatv);
        }
        let stats = user_stats(&flat);
        let total_cores = usage.cpu_count();
        // Keep the qualifying users.
        let mut kept: Vec<RankEntry> = Vec::new();
        let mut k: usize = 0;
        while k < stats.len()
            invariant
                0 <= k <= stats@.len(),
                flat@ == flatv,
                total_cores == spec_cpu_count(cv),
                forall|q: int| 0 <= q < stats@.len() ==> has_user(flatv, (#[trigger] stats@[q])@.user),
                forall|q: int|
                    0 <= q < stats@.len() ==> (#[trigger] stats@[q])@.count == user_count(
                        flatv,
                        stats@[q]@.user,
                    ),
                forall|q: int, l: int|
                    0 <= q < l < stats@.len() ==> (#[trigger] stats@[q])@.user
                        != (#[trigger] stats@[l])@.user,
                forall|u: Seq<char>|
                    #[trigger] has_user(flatv, u) ==> exists|q: int|
                        0 <= q < stats@.len() && (#[trigger] stats@[q])@.user == u,
                forall|e: int|
                    0 <= e < kept@.len() ==> has_user(flatv, (#[trigger] kept@[e])@.user)
                        && kept@[e]@.threads == user_count(flatv, kept@[e]@.user) && qualifies(
                        kept@[e]@.threads as int,
                        total_cores as int,
                    ),
                forall|e: int, f: int|
                    0 <= e < f < kept@.len() ==> (#[trigger] kept@[e])@.user
                        != (#[trigger] kept@[f])@.user,
                forall|q: int|
                    0 <= q < k && qualifies((#[trigger] stats@[q])@.count as int, total_cores as int)
                        ==> exists|e: int|
                        0 <= e < kept@.len() && (#[trigger] kept@[e])@.user == stats@[q]@.user,
                forall|e: int|
                    0 <= e < kept@.len() ==> exists|q: int|
                        0 <= q < k && (#[trigger] kept@[e])@.user == stats@[q]@.user,
            decreases stats@.len() - k,
        {
            let ghost keptv = kept@;
            let st = &stats[k];
            let qual = total_cores == 0 || 100 * (st.count as u64) >= total_cores as u64;
            if qual {
                kept.push(RankEntry { user: st.user.clone(), threads: st.count as u64 });
                proof {
                    assert(kept@[kept@.len() - 1]@.user == stats@[k as int]@.user);
                    assert forall|e: int, f: int|
                        0 <= e < f < kept@.len() implies (#[trigger] kept@[e])@.user
                        != (#[trigger] kept@[f])@.user by {
                        if f == kept@.len() - 1 {
                            let q = choose|q: int|
                                0 <= q < k && (#[trigger] keptv[e])@.user == stats@[q]@.user;
                            assert(kept@[e] == keptv[e]);
                            assert(stats@[q]@.user != stats@[k as int]@.user);
                        }
                    }
                    assert forall|q: int|
                        0 <= q < k + 1 && qualifies(
                            (#[trigger] stats@[q])@.count as int,
                            total_cores as int,
                        ) implies exists|e: int|
                        0 <= e < kept@.len() && (#[trigger] kept@[e])@.user == stats@[q]@.user by {
                        if q == k {
                            assert(kept@[kept@.len() - 1]@.user == stats@[q]@.user);
                        } else {
                            let e = choose|e: int|
                                0 <= e < keptv.len() && (#[trigger] keptv[e])@.user
                                    == stats@[q]@.user;
                            assert(kept@[e] == keptv[e]);
                            assert(kept@[e]@.user == stats@[q]@.user);
                        }
                    }
                }
            } else {
                proof {
                    assert forall|q: int|
                        0 <= q < k + 1 && qualifies(
                            (#[trigger] stats@[q])@.count as int,
                            total_cores as int,
                        ) implies exists|e: int|
                        0 <= e < kept@.len() && (#[trigger] kept@[e])@.user == stats@[q]@.user by {
                        if q < k {
                            let e = choose|e: int|
                                0 <= e < keptv.len() && (#[trigger] keptv[e])@.user
                                    == stats@[q]@.user;
                            assert(kept@[e]@.user == stats@[q]@.user);
                        }
                    }
                }
            }
            k = k + 1;
        }
        let entries = sort_rank(kept);
        let ghost keptv = entries@.map_values(|e: RankEntry| e@);
        proof {
            let sortedtm = keptv.to_multiset();
            assert forall|e: int|
                0 <= e < keptv.len() implies fleet_has_user(cv, (#[trigger] keptv[e]).user)
                && keptv[e].threads == fleet_count(cv, keptv[e].user) && qualifies(
                keptv[e].threads as int,
                total_cores as int,
            ) by {
                assert(sortedtm.contains(keptv[e]));
            }
            assert forall|e: int, f: int|
                0 <= e < f < keptv.len() implies (#[trigger] keptv[e]).user
                != (#[trigger] keptv[f]).user by {
                assert(sortedtm.contains(keptv[e]));
                assert(sortedtm.contains(keptv[f]));
                if keptv[e].user == keptv[f].user {
                    let ke = choose|q: int|
                        0 <= q < kept@.len() && (#[trigger] kept@[q])@ == keptv[e];
                    let kf = choose|q: int|
                        0 <= q < kept@.len() && (#[trigger] kept@[q])@ == keptv[f];
                    assert(kept@[ke]@.user == kept@[kf]@.user);
                    assert(ke == kf);
                    assert(keptv[e] == keptv[f]);
                    assert(keptv.to_multiset().count(keptv[e]) >= 2) by {
                        let dropped = keptv.remove(f);
                        assert(dropped[e] == keptv[e]);
                        assert(dropped.to_multiset().contains(dropped[e]));
                    }
                    assert(kept@.map_values(|x: RankEntry| x@).to_multiset().count(keptv[e])
                        >= 2);
                    let k1 = choose|q: int|
                        0 <= q < kept@.len() && (#[trigger] kept@[q])@ == keptv[e];
                    let m2 = kept@.map_values(|x: RankEntry| x@).remove(k1);
                    assert(m2.to_multiset().count(keptv[e]) >= 1);
                    assert(m2.to_multiset().contains(keptv[e]));
                    let k2 = choose|q: int| 0 <= q < m2.len() && #[trigger] m2[q] == keptv[e];
                    if k2 < k1 {
                        assert(kept@[k2]@ == keptv[e]);
                        assert(kept@[k2]@.user == kept@[k1]@.user);
                    } else {
                        assert(kept@[k2 + 1]@ == keptv[e]);
                        assert(kept@[k2 + 1]@.user == kept@[k1]@.user);
                    }
                    assert(false);
                }
            }
            assert forall|u: Seq<char>|
                #[trigger] fleet_has_user(cv, u) && qualifies(fleet_count(cv, u), total_cores as int)
                implies exists|e: int| 0 <= e < keptv.len() && (#[trigger] keptv[e]).user == u by {
                let q = choose|q: int|
                    0 <= q < stats@.len() && (#[trigger] stats@[q])@.user == u;
                let e = choose|e: int|
                    0 <= e < kept@.len() && (#[trigger] kept@[e])@.user == stats@[q]@.user;
                assert(kept@.map_values(|x: RankEntry| x@)[e] == kept@[e]@);
                assert(kept@.map_values(|x: RankEntry| x@).to_multiset().contains(kept@[e]@));
                assert(sortedtm.contains(kept@[e]@));
                let w = choose|w: int|
                    0 <= w < keptv.len() && #[trigger] keptv[w] == kept@[e]@;
                assert(keptv[w].user == u);
            }
        }
        StatsView { entries, total_cores }
    }
}

// ---------------------------------------------------------------------------
// Per-machine rows and the assembled view-model
// ---------------------------------------------------------------------------

/// View of [`MachineView`].
#[verifier::ext_equal]
pub struct MachineRowView {
    pub hostname: Seq<char>,
    pub owner: OwnerView,
    pub room: Seq<char>,
    pub cpu_usage: CpuUsage,
    pub load_avg: LoadAvg,
    pub mem: Memory,
    pub active_user: Option<ActiveUserView>,
    pub show_room: bool,
}

/// The display row of one machine.
#[derive(PartialEq, Clone, Debug)]
pub struct MachineView {
    pub hostname: String,
    pub owner: Owner,
    pub room: String,
    pub cpu_usage: CpuUsage,
    pub load_avg: LoadAvg,
    pub mem: Memory,
    pub active_user: Option<ActiveUser>,
    pub show_room: bool,
}

impl View for MachineView {
    type V = MachineRowView;

    open spec fn view(&self) -> MachineRowView {
        MachineRowView {
            hostname: self.hostname@,
            owner: self.owner@,
            room: self.room@,
            cpu_usage: self.cpu_usage,
            load_avg: self.load_avg,
            mem: self.mem,
            active_user: active_user_view(self.active_user),
            show_room: self.show_room,
        }
    }
}

/// Is `r` the display row of machine `m`?
pub open spec fn is_machine_row(m: MachineUsageView, show_room: bool, r: MachineRowView) -> bool {
    &&& r.hostname == m.definition.hostname
    &&& r.owner == m.definition.owner
    &&& r.room == m.definition.room
    &&& r.cpu_usage.used == spec_used_cores(m.usage.cpus)
    &&& r.cpu_usage.total == m.usage.cpus.len()
    &&& r.load_avg == m.usage.load_avg
    &&& r.mem == m.usage.mem
    &&& is_active_user(m.usage.processes, r.active_user)
    &&& r.show_room == show_room
}

impl MachineView {
    /// Builds the display row of one machine.
    pub fn new(machine: &MachineUsage, show_room: bool) -> (r: Self)
        requires
            machine@.usage.cpus.len() <= 0xFFFF_FFFF,
            machine@.usage.processes.len() <= 0xFFFF_FFFF,
        ensures
            is_machine_row(machine@, show_room, r@),
    {
        let cpu_usage = cpu_usage_of(&machine.usage.cpus);
        let au = active_user(&machine.usage.processes);
        MachineView {
            hostname: machine.definition.hostname.clone(),
            owner: machine.definition.owner.duplicate(),
            room: machine.definition.room.clone(),
            cpu_usage,
            load_avg: machine.usage.load_avg,
            mem: machine.usage.mem,
            active_user: au,
            show_room,
        }
    }
}

/// Row order: ascending hostname.
pub open spec fn row_le(a: MachineRowView, b: MachineRowView) -> bool {
    lex_le(a.hostname, b.hostname)
}

/// Is `rows` the display table of the cluster `c`: exactly one row per
/// machine (as a multiset: a permutation of a row-per-machine list), sorted
/// by hostname?
pub open spec fn is_machine_table(
    c: Seq<MachineUsageView>,
    show_room: bool,
    rows: Seq<MachineRowView>,
) -> bool {
    &&& rows.len() == c.len()
    &&& exists|rows0: Seq<MachineRowView>|
        {
            &&& (#[trigger] rows0.to_multiset()) == rows.to_multiset()
            &&& rows0.len() == c.len()
            &&& forall|k: int|
                0 <= k < c.len() ==> is_machine_row(#[trigger] c[k], show_room, rows0[k])
        }
    &&& forall|e: int|
        0 <= e < rows.len() ==> exists|j: int|
            0 <= j < c.len() && is_machine_row(#[trigger] c[j], show_room, #[trigger] rows[e])
    &&& forall|j: int|
        0 <= j < c.len() ==> exists|e: int|
            0 <= e < rows.len() && is_machine_row(#[trigger] c[j], show_room, #[trigger] rows[e])
    &&& forall|e: int, f: int|
        0 <= e < f < rows.len() ==> row_le(#[trigger] rows[e], #[trigger] rows[f])
}

/// Sorts machine rows by hostname; the result holds exactly the given rows
/// (as a multiset).
fn sort_rows(v: Vec<MachineView>) -> (r: Vec<MachineView>)
    ensures
        r@.map_values(|e: MachineView| e@).to_multiset() == v@.map_values(
            |e: MachineView| e@,
        ).to_multiset(),
        forall|k: int, l: int|
            0 <= k < l < r@.len() ==> row_le((#[trigger] r@[k])@, (#[trigger] r@[l])@),
{
    broadcast use vstd::seq_lib::group_to_multiset_ensures;
    broadcast use vstd::multiset::group_multiset_axioms;

    let ghost origv = v@.map_values(|e: MachineView| e@);
    let mut work = v;
    let mut out: Vec<MachineView> = Vec::new();
    proof {
        assert(out@.map_values(|e: MachineView| e@).to_multiset().add(
            work@.map_values(|e: MachineView| e@).to_multiset(),
        ) =~= origv.to_multiset());
    }
    while work.len() > 0
        invariant
            out@.map_values(|e: MachineView| e@).to_multiset().add(
                work@.map_values(|e: MachineView| e@).to_multiset(),
            ) == origv.to_multiset(),
            forall|k: int, l: int|
                0 <= k < l < out@.len() ==> row_le((#[trigger] out@[k])@, (#[trigger] out@[l])@),
            forall|k: int, j: int|
                0 <= k < out@.len() && 0 <= j < work@.len() ==> row_le(
                    (#[trigger] out@[k])@,
                    (#[trigger] work@[j])@,
                ),
        decreases work@.len(),
    {
        let mut m: usize = 0;
        let mut k: usize = 1;
        proof {
            lemma_lex_refl(work@[0]@.hostname);
        }
        while k < work.len()
            invariant
                0 <= m < k <= work@.len(),
                work@.len() > 0,
                forall|j: int| 0 <= j < k ==> row_le(work@[m as int]@, (#[trigger] work@[j])@),
            decreases work@.len() - k,
        {
            proof {
                lemma_lex_total(work@[m as int]@.hostname, work@[k as int]@.hostname);
                lemma_lex_refl(work@[k as int]@.hostname);
            }
            if !str_lex_le(work[m].hostname.as_str(), work[k].hostname.as_str()) {
                proof {
                    assert forall|j: int| 0 <= j < k + 1 implies row_le(
                        work@[k as int]@,
                        (#[trigger] work@[j])@,
                    ) by {
                        if j < k {
                            lemma_lex_trans(
                                work@[k as int]@.hostname,
                                work@[m as int]@.hostname,
                                work@[j]@.hostname,
                            );
                        }
                    }
                }
                m = k;
            }
            k = k + 1;
        }
        let ghost workv = work@.map_values(|e: MachineView| e@);
        let ghost outv = out@.map_values(|e: MachineView| e@);
        let ghost xv = work@[m as int]@;
        let x = work.remove(m);
        out.push(x);
        proof {
            broadcast use vstd::multiset::group_multiset_axioms;

            vstd::seq_lib::to_multiset_build(outv, xv);
            vstd::seq_lib::to_multiset_remove(workv, m as int);
            vstd::seq_lib::to_multiset_contains(workv, xv);
            assert(work@.map_values(|e: MachineView| e@) =~= workv.remove(m as int));
            assert(out@.map_values(|e: MachineView| e@) =~= outv.push(xv));
            assert(workv.to_multiset().contains(xv)) by {
                assert(workv[m as int] == xv);
                assert(workv.contains(xv));
            }
            assert(outv.push(xv).to_multiset() =~= outv.to_multiset().insert(xv));
            assert(workv.remove(m as int).to_multiset() =~= workv.to_multiset().remove(xv)) by {
                assert(workv[m as int] == xv);
            }
            assert(outv.push(xv).to_multiset().add(workv.remove(m as int).to_multiset())
                =~= outv.to_multiset().add(workv.to_multiset()));
            assert forall|k2: int, j: int|
                0 <= k2 < out@.len() && 0 <= j < work@.len() implies row_le(
                (#[trigger] out@[k2])@,
                (#[trigger] work@[j])@,
            ) by {
                let wj = workv.remove(m as int)[j];
                if j < m {
                    assert(wj == workv[j]);
                } else {
                    assert(wj == workv[j + 1]);
                }
                if k2 < outv.len() {
                    assert(out@[k2]@ == outv[k2]);
                } else {
                    assert(out@[k2]@ == xv);
                }
            }
            assert forall|k2: int, l: int|
                0 <= k2 < l < out@.len() implies row_le(
                (#[trigger] out@[k2])@,
                (#[trigger] out@[l])@,
            ) by {
                if l == out@.len() - 1 {
                    assert(out@[l]@ == xv);
                    assert(row_le(outv[k2], workv[m as int]));
                }
            }
        }
    }
    proof {
        broadcast use vstd::multiset::group_multiset_axioms;

        assert(work@.map_values(|e: MachineView| e@) =~= Seq::<MachineRowView>::empty());
        vstd::seq_lib::to_multiset_len(work@.map_values(|e: MachineView| e@));
        assert(out@.map_values(|e: MachineView| e@).to_multiset().add(
            work@.map_values(|e: MachineView| e@).to_multiset(),
        ) =~= out@.map_values(|e: MachineView| e@).to_multiset());
    }
    out
}

proof fn lemma_machine_bounds(c: Seq<MachineUsageView>, i: int)
    requires
        0 <= i < c.len(),
        spec_cpu_count(c) <= 0xFFFF_FFFF,
        spec_flat_procs(c).len() <= 0xFFFF_FFFF,
    ensures
        c[i].usage.cpus.len() <= 0xFFFF_FFFF,
        c[i].usage.processes.len() <= 0xFFFF_FFFF,
{
    lemma_cpu_count_mono(c, i + 1, c.len() as int);
    lemma_flat_len_mono(c, i + 1, c.len() as int);
    assert(c.subrange(0, c.len() as int) =~= c);
    assert(c.subrange(0, i + 1).drop_last() =~= c.subrange(0, i));
    assert(c.subrange(0, i + 1).last() == c[i]);
    lemma_cpu_sum_bounds(c.subrange(0, i));
}

/// The viewer's header: the viewing host and the fleet usage ratio.
#[derive(PartialEq, Clone, Debug)]
pub struct HeaderView {
    pub hostinfo: HostInfo,
    pub total_usage: UsageRatio,
}

impl HeaderView {
    /// Builds the header figures.
    pub fn new(hostinfo: HostInfo, usage: &ClusterUsage) -> (r: HeaderView)
        requires
            spec_cpu_count(usage@) <= 0xFFFF_FFFF,
        ensures
            r.hostinfo@ == hostinfo@,
            r.total_usage.used_centi == spec_cpu_sum(usage@),
            r.total_usage.total_cores == spec_cpu_count(usage@),
    {
        HeaderView { hostinfo, total_usage: total_usage(usage) }
    }
}

/// The viewer's notes: snapshot age and status flags.
#[derive(Clone, Copy, Debug, PartialEq, Eq, Structural)]
pub struct NotesView {
    pub last_update: u64,
    pub logged: bool,
    pub success: bool,
}

impl NotesView {
    /// Builds the notes from the snapshot's timestamp and the viewer flags.
    pub fn new(data: &ClusterData, logged: bool, success: bool) -> (r: NotesView)
        ensures
            r.last_update == data@.timestamp,
            r.logged == logged,
            r.success == success,
    {
        NotesView { last_update: data.timestamp, logged, success }
    }
}

/// The assembled view-model of one poll cycle.
#[derive(PartialEq, Clone, Debug)]
pub struct ClusterView {
    pub header: HeaderView,
    pub stats: StatsView,
    pub notes: NotesView,
    pub machines: Vec<MachineView>,
}

impl ClusterView {
    /// Builds the whole view-model: header figures, fleet user ranking,
    /// notes, and one row per machine, sorted by hostname.
    pub fn new(
        hostinfo: HostInfo,
        data: &ClusterData,
        logged: bool,
        success: bool,
        show_room: bool,
    ) -> (r: ClusterView)
        requires
            spec_cpu_count(data@.usage) <= 0xFFFF_FFFF,
            spec_flat_procs(data@.usage).len() <= 0xFFFF_FFFF,
        ensures
            r.header.hostinfo@ == hostinfo@,
            r.header.total_usage.used_centi == spec_cpu_sum(data@.usage),
            r.header.total_usage.total_cores == spec_cpu_count(data@.usage),
            r.stats.total_cores == spec_cpu_count(data@.usage),
            is_ranking(
                data@.usage,
                r.stats.total_cores as int,
                r.stats.entries@.map_values(|e: RankEntry| e@),
            ),
            r.notes.last_update == data@.timestamp,
            r.notes.logged == logged,
            r.notes.success == success,
            is_machine_table(
                data@.usage,
                show_room,
                r.machines@.map_values(|m: MachineView| m@),
            ),
    {
        let ghost cv = data@.usage;
        let header = HeaderView::new(hostinfo, &data.usage);
        let stats = StatsView::new(&data.usage);
        let notes = NotesView::new(data, logged, success);
        let mut rows: Vec<MachineView> = Vec::new();
        let mut i: usize = 0;
        proof {
            assert(rows@.map_values(|m: MachineView| m@) =~= Seq::<MachineRowView>::empty());
        }
        while i < data.usage.0.len()
            invariant
                0 <= i <= data.usage.0@.len(),
                cv == data.usage.0@.map_values(|m: MachineUsage| m@),
                spec_cpu_count(cv) <= 0xFFFF_FFFF,
                spec_flat_procs(cv).len() <= 0xFFFF_FFFF,
                rows@.len() == i,
                forall|e: int|
                    0 <= e < rows@.len() ==> is_machine_row(
                        cv[e],
                        show_room,
                        (#[trigger] rows@[e])@,
                    ),
            decreases data.usage.0@.len() - i,
        {
            proof {
                lemma_machine_bounds(cv, i as int);
            }
            let row = MachineView::new(&data.usage.0[i], show_room);
            rows.push(row);
            i = i + 1;
        }
        let machines = sort_rows(rows);
        proof {
            broadcast use vstd::multiset::group_multiset_axioms;

            let rowsv = rows@.map_values(|m: MachineView| m@);
            let outv = machines@.map_values(|m: MachineView| m@);
            vstd::seq_lib::to_multiset_len(rowsv);
            vstd::seq_lib::to_multiset_len(outv);
            assert(outv.len() == rowsv.len());
            assert forall|k: int| 0 <= k < cv.len() implies is_machine_row(
                #[trigger] cv[k],
                show_room,
                rowsv[k],
            ) by {
                assert(rowsv[k] == rows@[k]@);
            }
            assert(rowsv.to_multiset() == outv.to_multiset() && rowsv.len() == cv.len());
            assert forall|e: int|
                0 <= e < outv.len() implies exists|j: int|
                0 <= j < cv.len() && is_machine_row(#[trigger] cv[j], show_room, #[trigger] outv[e]) by {
                vstd::seq_lib::to_multiset_contains(outv, outv[e]);
                vstd::seq_lib::to_multiset_contains(rowsv, outv[e]);
                assert(outv.contains(outv[e]));
                assert(rowsv.contains(outv[e]));
                let w = choose|w: int| 0 <= w < rowsv.len() && rowsv[w] == outv[e];
                assert(rowsv[w] == rows@[w]@);
                assert(is_machine_row(cv[w], show_room, outv[e]));
            }
            assert forall|j: int|
                0 <= j < cv.len() implies exists|e: int|
                0 <= e < outv.len() && is_machine_row(#[trigger] cv[j], show_room, #[trigger] outv[e]) by {
                vstd::seq_lib::to_multiset_contains(rowsv, rowsv[j]);
                vstd::seq_lib::to_multiset_contains(outv, rowsv[j]);
                assert(rowsv.contains(rowsv[j]));
                assert(outv.contains(rowsv[j]));
                let w = choose|w: int| 0 <= w < outv.len() && outv[w] == rowsv[j];
                assert(is_machine_row(cv[j], show_room, outv[w]));
            }
        }
        ClusterView { header, stats, notes, machines }
    }
}

/// The rounded on-screen percentage for a ranking row: `100 * threads /
/// total_cores`, rounded to the nearest integer; absent when the fleet has
/// no cores.
pub fn display_percent(threads: u64, total_cores: u32) -> (r: Option<u64>)
    requires
        threads <= 0xFFFF_FFFF,
    ensures
        (r is Some) <==> total_cores > 0,
        r matches Option::Some(p) ==> p == (200 * (threads as int) + (total_cores as int)) / (2 * (
        total_cores as int)),
{
    if total_cores == 0 {
        return Option::None;
    }
    let num: u128 = 200 * (threads as u128) + total_cores as u128;
    let den: u128 = 2 * (total_cores as u128);
    let p = num / den;
    proof {
        assert(num / den <= num) by (nonlinear_arith)
            requires
                den >= 1,
                num >= 0,
        ;
    }
    Option::Some(p as u64)
}

} // verus!
