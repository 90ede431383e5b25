//! The orchestrator's aggregation step: pairing roster entries with the
//! per-machine gather outcomes, isolating failures, and reporting a
//! `(successes, total)` summary.
//!
//! The concurrent fan-out itself is outside work; what is verified here is
//! that whatever each unit of work returned, the aggregated snapshot holds
//! exactly the successful machines, in roster order.

use vstd::prelude::*;

use crate::model::{
    ClusterUsage, MachineDefinition, MachineDefinitionView, MachineUsage, MachineUsageView, Usage,
    UsageView,
};

verus! {

/// The gather report: how many machines answered, out of how many tried.
#[derive(Clone, Copy, Debug, PartialEq, Eq, Structural)]
pub struct GatherSummary {
    pub successes: usize,
    pub total: usize,
}

/// The view of one gather outcome.
pub open spec fn outcome_view(o: Option<Usage>) -> Option<UsageView> {
    match o {
        Option::Some(u) => Option::Some(u@),
        Option::None => Option::None,
    }
}

/// The number of successful outcomes.
pub open spec fn spec_success_count(outs: Seq<Option<UsageView>>) -> int
    decreases outs.len(),
{
    if outs.len() == 0 {
        0
    } else {
        spec_success_count(outs.drop_last()) + if outs.last() is Some {
            1int
        } else {
            0int
        }
    }
}

/// The aggregated entries: each roster machine whose gather succeeded,
/// paired with its snapshot, in roster order; failed machines are absent.
pub open spec fn spec_aggregate(
    defs: Seq<MachineDefinitionView>,
    outs: Seq<Option<UsageView>>,
) -> Seq<MachineUsageView>
    decreases defs.len(),
{
    if defs.len() == 0 || outs.len() == 0 {
        Seq::empty()
    } else {
        spec_aggregate(defs.drop_last(), outs.drop_last()) + match outs.last() {
            Option::Some(u) => seq![
                MachineUsageView { definition: defs.last(), usage: u },
            ],
            Option::None => Seq::empty(),
        }
    }
}

/// Aggregates the per-machine outcomes into a cluster snapshot. One entry
/// per successful machine, in roster order; failures are omitted, never
/// represented by empty data. The summary reports `(successes, total)`.
pub fn aggregate(roster: Vec<MachineDefinition>, outcomes: Vec<Option<Usage>>) -> (r: (
    ClusterUsage,
    GatherSummary,
))
    requires
        roster@.len() == outcomes@.len(),
    ensures
        r.0@ == spec_aggregate(
            roster@.map_values(|d: MachineDefinition| d@),
            outcomes@.map_values(|o: Option<Usage>| outcome_view(o)),
        ),
        r.1.total == roster@.len(),
        r.1.successes == spec_success_count(
            outcomes@.map_values(|o: Option<Usage>| outcome_view(o)),
        ),
        r.1.successes <= r.1.total,
{
    let ghost defsv = roster@.map_values(|d: MachineDefinition| d@);
    let ghost outsv = outcomes@.map_values(|o: Option<Usage>| outcome_view(o));
    let total = roster.len();
    let mut defs = roster;
    let mut outs = outcomes;
    let mut entries: Vec<MachineUsage> = Vec::new();
    let mut successes: usize = 0;
    let mut i: usize = 0;
    proof {
        assert(defsv.subrange(0, 0) =~= Seq::<MachineDefinitionView>::empty());
        assert(outsv.subrange(0, 0) =~= Seq::<Option<UsageView>>::empty());
        assert(entries@.map_values(|m: MachineUsage| m@) =~= Seq::<MachineUsageView>::empty());
    }
    while defs.len() > 0
        invariant
            defs@.len() == outs@.len(),
            i + defs@.len() == total,
            defsv.len() == total,
            outsv.len() == total,
            defsv.skip(i as int) == defs@.map_values(|d: MachineDefinition| d@),
            outsv.skip(i as int) == outs@.map_values(|o: Option<Usage>| outcome_view(o)),
            entries@.map_values(|m: MachineUsage| m@) == spec_aggregate(
                defsv.subrange(0, i as int),
                outsv.subrange(0, i as int),
            ),
            successes == spec_success_count(outsv.subrange(0, i as int)),
            successes <= i,
        decreases defs@.len(),
    {
        let ghost entriesv = entries@.map_values(|m: MachineUsage| m@);
        let ghost defs_pre = defs@;
        let ghost outs_pre = outs@;
        let d = defs.remove(0);
        let o = outs.remove(0);
        proof {
            assert(defsv.subrange(0, i + 1).drop_last() =~= defsv.subrange(0, i as int));
            assert(outsv.subrange(0, i + 1).drop_last() =~= outsv.subrange(0, i as int));
            assert(defsv.subrange(0, i + 1).last() == defsv[i as int]);
            assert(outsv.subrange(0, i + 1).last() == outsv[i as int]);
            assert(defsv.skip(i as int)[0] == defsv[i as int]);
            assert(outsv.skip(i as int)[0] == outsv[i as int]);
            assert(defs_pre.map_values(|x: MachineDefinition| x@)[0] == d@);
            assert(outs_pre.map_values(|x: Option<Usage>| outcome_view(x))[0] == outcome_view(o));
            assert(defsv[i as int] == d@);
            assert(outsv[i as int] == outcome_view(o));
            assert(defs@ == defs_pre.remove(0));
            assert forall|k: int| 0 <= k < defs@.len() implies defs@.map_values(
                |x: MachineDefinition| x@,
            )[k] == #[trigger] defsv.skip(i + 1)[k] by {
                assert(defs@[k] == defs_pre[k + 1]);
                assert(defs_pre.map_values(|x: MachineDefinition| x@)[k + 1] == defs_pre[k + 1]@);
                assert(defsv.skip(i as int)[k + 1] == defsv[i + 1 + k]);
                assert(defsv.skip(i + 1)[k] == defsv[i + 1 + k]);
            }
            assert(defs@.map_values(|x: MachineDefinition| x@) =~= defsv.skip(i + 1));
            assert forall|k: int| 0 <= k < outs@.len() implies outs@.map_values(
                |x: Option<Usage>| outcome_view(x),
            )[k] == #[trigger] outsv.skip(i + 1)[k] by {
                assert(outs@[k] == outs_pre[k + 1]);
                assert(outs_pre.map_values(|x: Option<Usage>| outcome_view(x))[k + 1]
                    == outcome_view(outs_pre[k + 1]));
                assert(outsv.skip(i as int)[k + 1] == outsv[i + 1 + k]);
                assert(outsv.skip(i + 1)[k] == outsv[i + 1 + k]);
            }
            assert(outs@.map_values(|x: Option<Usage>| outcome_view(x)) =~= outsv.skip(i + 1));
        }
        match o {
            Option::Some(usage) => {
                entries.push(MachineUsage { definition: d, usage });
                successes = successes + 1;
                proof {
                    assert(entries@.map_values(|m: MachineUsage| m@) =~= entriesv.push(
                        entries@.last()@,
                    ));
                    assert(entriesv + seq![entries@.last()@] =~= entriesv.push(entries@.last()@));
                }
            },
            Option::None => {
                proof {
                    assert(entriesv + Seq::<MachineUsageView>::empty() =~= entriesv);
                }
            },
        }
        i = i + 1;
    }
    proof {
        assert(defsv.subrange(0, total as int) =~= defsv);
        assert(outsv.subrange(0, total as int) =~= outsv);
    }
    (ClusterUsage(entries), GatherSummary { successes, total })
}

/// When every machine answers, the snapshot has one entry per roster
/// machine, in roster order, each carrying that machine's own snapshot.
pub proof fn lemma_aggregate_all_success(
    defs: Seq<MachineDefinitionView>,
    outs: Seq<Option<UsageView>>,
)
    requires
        defs.len() == outs.len(),
        forall|k: int| 0 <= k < outs.len() ==> (#[trigger] outs[k]) is Some,
    ensures
        spec_aggregate(defs, outs).len() == defs.len(),
        forall|k: int|
            0 <= k < defs.len() ==> (#[trigger] spec_aggregate(defs, outs)[k]).definition
                == defs[k] && spec_aggregate(defs, outs)[k].usage == outs[k].unwrap(),
    decreases defs.len(),
{
    if defs.len() > 0 {
        lemma_aggregate_all_success(defs.drop_last(), outs.drop_last());
        let pre = spec_aggregate(defs.drop_last(), outs.drop_last());
        let cur = spec_aggregate(defs, outs);
        assert(outs.last() is Some);
        assert(cur =~= pre.push(
            MachineUsageView { definition: defs.last(), usage: outs.last().unwrap() },
        ));
        assert forall|k: int|
            0 <= k < defs.len() implies (#[trigger] cur[k]).definition == defs[k] && cur[k].usage
            == outs[k].unwrap() by {
            if k < defs.len() - 1 {
                assert(cur[k] == pre[k]);
                assert(defs.drop_last()[k] == defs[k]);
                assert(outs.drop_last()[k] == outs[k]);
            }
        }
    }
}

/// When every machine answers and the roster names each hostname once, the
/// snapshot has one entry per roster machine, every entry's hostname is a
/// roster hostname, and no hostname appears twice.
pub proof fn lemma_aggregate_hostnames(
    defs: Seq<MachineDefinitionView>,
    outs: Seq<Option<UsageView>>,
)
    requires
        defs.len() == outs.len(),
        forall|k: int| 0 <= k < outs.len() ==> (#[trigger] outs[k]) is Some,
        forall|k: int, l: int|
            0 <= k < l < defs.len() ==> (#[trigger] defs[k]).hostname
                != (#[trigger] defs[l]).hostname,
    ensures
        spec_aggregate(defs, outs).len() == defs.len(),
        forall|k: int|
            0 <= k < defs.len() ==> (#[trigger] spec_aggregate(defs, outs)[k]).definition.hostname
                == defs[k].hostname,
        forall|k: int, l: int|
            0 <= k < l < defs.len() ==> (#[trigger] spec_aggregate(
                defs,
                outs,
            )[k]).definition.hostname != (#[trigger] spec_aggregate(
                defs,
                outs,
            )[l]).definition.hostname,
{
    lemma_aggregate_all_success(defs, outs);
}

/// With `k` of `n` machines failing, the snapshot has exactly `n - k`
/// entries: one per successful machine, whatever the failures did.
pub proof fn lemma_aggregate_partial(
    defs: Seq<MachineDefinitionView>,
    outs: Seq<Option<UsageView>>,
)
    requires
        defs.len() == outs.len(),
    ensures
        spec_aggregate(defs, outs).len() == spec_success_count(outs),
        0 <= spec_success_count(outs) <= outs.len(),
    decreases defs.len(),
{
    if defs.len() > 0 {
        lemma_aggregate_partial(defs.drop_last(), outs.drop_last());
    }
}

/// Every aggregated entry is a roster machine with its own successful
/// snapshot: aggregation invents nothing.
pub proof fn lemma_aggregate_entries_from_roster(
    defs: Seq<MachineDefinitionView>,
    outs: Seq<Option<UsageView>>,
)
    requires
        defs.len() == outs.len(),
    ensures
        forall|k: int|
            0 <= k < spec_aggregate(defs, outs).len() ==> exists|j: int|
                0 <= j < defs.len() && (#[trigger] spec_aggregate(defs, outs)[k]).definition
                    == defs[j] && outs[j] == Option::Some(spec_aggregate(defs, outs)[k].usage),
    decreases defs.len(),
{
    if defs.len() > 0 {
        lemma_aggregate_entries_from_roster(defs.drop_last(), outs.drop_last());
        let pre = spec_aggregate(defs.drop_last(), outs.drop_last());
        let cur = spec_aggregate(defs, outs);
        assert forall|k: int|
            0 <= k < cur.len() implies exists|j: int|
                0 <= j < defs.len() && (#[trigger] cur[k]).definition == defs[j] && outs[j]
                    == Option::Some(cur[k].usage) by {
            if k < pre.len() {
                assert(cur[k] == pre[k]);
                let j = choose|j: int|
                    0 <= j < defs.drop_last().len() && (#[trigger] pre[k]).definition
                        == defs.drop_last()[j] && outs.drop_last()[j] == Option::Some(
                        pre[k].usage,
                    );
                assert(defs.drop_last()[j] == defs[j]);
                assert(outs.drop_last()[j] == outs[j]);
            } else {
                assert(outs.last() is Some);
                assert(cur[k].definition == defs[defs.len() - 1]);
                assert(outs[defs.len() - 1] == Option::Some(cur[k].usage));
            }
        }
    }
}

} // verus!
