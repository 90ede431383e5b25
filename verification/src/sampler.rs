//! The local sampler's filtering pipeline: raw per-process observations from
//! the system probe are filtered and renamed by the policy to form the
//! samples of a machine's usage snapshot.

use vstd::prelude::*;

use crate::config::{spec_rename_lookup, Config, ConfigView};
use crate::model::{LoadAvg, Memory, Process, ProcessView, Processes, Usage, UsageView};
use crate::PROCESS_USAGE_THRESHOLD_CENTI;
use vstd::string::StringExecFns;

verus! {

/// View of [`RawProcess`].
#[verifier::ext_equal]
pub struct RawProcessView {
    pub pid: u32,
    pub name: Seq<char>,
    pub user: Option<Seq<char>>,
    pub usage: u32,
}

/// One raw per-process observation from the system probe: the process id,
/// its name, its owning user if the probe could resolve one, and its CPU
/// usage in hundredths of a percent.
#[derive(PartialEq, Clone, Debug)]
pub struct RawProcess {
    pub pid: u32,
    pub name: String,
    pub user: Option<String>,
    pub usage: u32,
}

impl View for RawProcess {
    type V = RawProcessView;

    open spec fn view(&self) -> RawProcessView {
        RawProcessView {
            pid: self.pid,
            name: self.name@,
            user: match self.user {
                Option::Some(ref u) => Option::Some(u@),
                Option::None => Option::None,
            },
            usage: self.usage,
        }
    }
}

/// The user name a raw observation is attributed to: the resolved name, or
/// the placeholder when the probe could not resolve one.
pub open spec fn resolved_user(user: Option<Seq<char>>) -> Seq<char> {
    match user {
        Option::Some(u) => u,
        Option::None => "?"@,
    }
}

/// Does the policy keep this observation? The invoking process itself (when
/// its pid is known), the ignored users and process names, and low usage are
/// all dropped; the ignore checks use the original (pre-rename) process name.
pub open spec fn keeps(cfg: ConfigView, own_pid: Option<u32>, p: RawProcessView) -> bool {
    &&& own_pid matches Option::Some(pid) ==> p.pid != pid
    &&& !cfg.ignored_users.contains(resolved_user(p.user))
    &&& !cfg.ignored_processes.contains(p.name)
    &&& p.usage >= PROCESS_USAGE_THRESHOLD_CENTI
}

/// The name under which a kept observation is stored: renamed to its
/// canonical name where the policy prescribes one.
pub open spec fn stored_name(cfg: ConfigView, name: Seq<char>) -> Seq<char> {
    match spec_rename_lookup(cfg.rename, name) {
        Option::Some(to) => to,
        Option::None => name,
    }
}

/// The sample stored for a kept observation.
pub open spec fn sample_of(cfg: ConfigView, p: RawProcessView) -> ProcessView {
    ProcessView {
        name: stored_name(cfg, p.name),
        user: resolved_user(p.user),
        usage: p.usage,
    }
}

/// The samples that the policy keeps, in observation order.
pub open spec fn spec_filter_samples(
    cfg: ConfigView,
    own_pid: Option<u32>,
    raw: Seq<RawProcessView>,
) -> Seq<ProcessView>
    decreases raw.len(),
{
    if raw.len() == 0 {
        Seq::empty()
    } else if keeps(cfg, own_pid, raw.last()) {
        spec_filter_samples(cfg, own_pid, raw.drop_last()).push(sample_of(cfg, raw.last()))
    } else {
        spec_filter_samples(cfg, own_pid, raw.drop_last())
    }
}

/// Every stored sample meets the usage threshold.
pub proof fn lemma_samples_above_threshold(
    cfg: ConfigView,
    own_pid: Option<u32>,
    raw: Seq<RawProcessView>,
)
    ensures
        forall|k: int|
            0 <= k < spec_filter_samples(cfg, own_pid, raw).len() ==> (#[trigger] spec_filter_samples(
                cfg,
                own_pid,
                raw,
            )[k]).usage >= PROCESS_USAGE_THRESHOLD_CENTI,
    decreases raw.len(),
{
    if raw.len() > 0 {
        lemma_samples_above_threshold(cfg, own_pid, raw.drop_last());
        let pre = spec_filter_samples(cfg, own_pid, raw.drop_last());
        let cur = spec_filter_samples(cfg, own_pid, raw);
        assert forall|k: int|
            0 <= k < cur.len() implies (#[trigger] cur[k]).usage
            >= PROCESS_USAGE_THRESHOLD_CENTI by {
            if keeps(cfg, own_pid, raw.last()) && k == pre.len() {
                assert(cur[k] == sample_of(cfg, raw.last()));
            } else {
                assert(cur[k] == pre[k]);
            }
        }
    }
}

/// Applies the policy to the raw observations of one probe read. `own_pid`
/// is the invoking sampler's process id, if it could be determined.
pub fn gather_samples(config: &Config, own_pid: Option<u32>, raw: &Vec<RawProcess>) -> (r: Processes)
    ensures
        r@ == spec_filter_samples(config@, own_pid, raw@.map_values(|p: RawProcess| p@)),
{
    let ghost rawv = raw@.map_values(|p: RawProcess| p@);
    let mut out: Vec<Process> = Vec::new();
    let mut i: usize = 0;
    proof {
        assert(rawv.subrange(0, 0) =~= Seq::<RawProcessView>::empty());
        assert(out@.map_values(|p: Process| p@) =~= Seq::<ProcessView>::empty());
    }
    while i < raw.len()
        invariant
            0 <= i <= raw.len(),
            rawv == raw@.map_values(|p: RawProcess| p@),
            out@.map_values(|p: Process| p@) == spec_filter_samples(
                config@,
                own_pid,
                rawv.subrange(0, i as int),
            ),
        decreases raw.len() - i,
    {
        proof {
            assert(rawv.subrange(0, i + 1).drop_last() =~= rawv.subrange(0, i as int));
            assert(rawv.subrange(0, i + 1).last() == rawv[i as int]);
        }
        let ghost outv = out@.map_values(|p: Process| p@);
        let entry = &raw[i];
        let is_own = match own_pid {
            Option::Some(pid) => entry.pid == pid,
            Option::None => false,
        };
        if !is_own {
            let user: String = match &entry.user {
                Option::Some(u) => u.clone(),
                Option::None => String::from_str("?"),
            };
            proof {
                assert(user@ == resolved_user(rawv[i as int].user));
            }
            let ignored = config.is_ignored_user(user.as_str()) || config.is_ignored_process(
                entry.name.as_str(),
            );
            if !ignored && entry.usage >= PROCESS_USAGE_THRESHOLD_CENTI {
                let name: String = match config.get_canonical_name(entry.name.as_str()) {
                    Option::Some(renamed) => renamed,
                    Option::None => entry.name.clone(),
                };
                proof {
                    assert(name@ == stored_name(config@, rawv[i as int].name));
                }
                out.push(Process { name, user, usage: entry.usage });
                proof {
                    assert(out@.map_values(|p: Process| p@) =~= outv.push(out@.last()@));
                }
            }
        }
        i = i + 1;
    }
    proof {
        assert(rawv.subrange(0, raw@.len() as int) =~= rawv);
    }
    Processes(out)
}

impl Usage {
    /// Builds a machine's usage snapshot from one probe read and the policy.
    /// `own_pid` is the process id of the invoking sampler, if known; it is
    /// always excluded from the samples.
    pub fn gather(
        config: &Config,
        own_pid: Option<u32>,
        raw: &Vec<RawProcess>,
        global_cpu_usage: u32,
        cpus: Vec<u32>,
        load_avg: LoadAvg,
        mem: Memory,
    ) -> (r: Usage)
        ensures
            r@ == (UsageView {
                global_cpu_usage,
                cpus: cpus@,
                load_avg,
                mem,
                processes: spec_filter_samples(
                    config@,
                    own_pid,
                    raw@.map_values(|p: RawProcess| p@),
                ),
            }),
    {
        let processes = gather_samples(config, own_pid, raw);
        Usage { global_cpu_usage, cpus, load_avg, mem, processes }
    }
}

} // verus!
