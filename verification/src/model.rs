//! Shared data model: machine identities, per-machine usage snapshots and the
//! aggregated cluster snapshot.
//!
//! Every type has a mathematical view built from `Seq` and plain integers;
//! the contracts of the rest of the crate are stated over these views.

use vstd::prelude::*;

use crate::text::{ends_with_lit, spec_trim, str_eq, trim_back, trim_end_of, trim_of};
use vstd::string::{StrSliceExecFns, StringExecFns};

verus! {

// ---------------------------------------------------------------------------
// Views
// ---------------------------------------------------------------------------

/// View of [`HostInfo`].
#[verifier::ext_equal]
pub struct HostInfoView {
    pub hostname: Seq<char>,
    pub user: Seq<char>,
    pub os: Seq<char>,
    pub os_version: Seq<char>,
}

/// View of [`Owner`].
#[verifier::ext_equal]
pub enum OwnerView {
    Member(Seq<char>),
    Visitor(Seq<char>),
    Student(Seq<char>),
    Reserve,
    Unowned,
}

/// View of [`MachineDefinition`].
#[verifier::ext_equal]
pub struct MachineDefinitionView {
    pub hostname: Seq<char>,
    pub owner: OwnerView,
    pub room: Seq<char>,
}

/// View of [`Process`].
#[verifier::ext_equal]
pub struct ProcessView {
    pub name: Seq<char>,
    pub user: Seq<char>,
    pub usage: u32,
}

/// View of [`Usage`].
#[verifier::ext_equal]
pub struct UsageView {
    pub global_cpu_usage: u32,
    pub cpus: Seq<u32>,
    pub load_avg: LoadAvg,
    pub mem: Memory,
    pub processes: Seq<ProcessView>,
}

/// View of [`MachineUsage`].
#[verifier::ext_equal]
pub struct MachineUsageView {
    pub definition: MachineDefinitionView,
    pub usage: UsageView,
}

/// View of [`ClusterData`].
#[verifier::ext_equal]
pub struct ClusterDataView {
    pub timestamp: u64,
    pub usage: Seq<MachineUsageView>,
}

/// View of [`ActiveUser`].
#[verifier::ext_equal]
pub struct ActiveUserView {
    pub user: Seq<char>,
    pub cores: u32,
    pub task: Seq<char>,
}

// ---------------------------------------------------------------------------
// Machine identity
// ---------------------------------------------------------------------------

/// Identity of the machine a viewer runs on.
#[derive(PartialEq, Clone, Debug)]
pub struct HostInfo {
    pub hostname: String,
    pub user: String,
    pub os: String,
    pub os_version: String,
}

impl View for HostInfo {
    type V = HostInfoView;

    open spec fn view(&self) -> HostInfoView {
        HostInfoView {
            hostname: self.hostname@,
            user: self.user@,
            os: self.os@,
            os_version: self.os_version@,
        }
    }
}

/// Who a machine belongs to, parsed from a free-text ownership note.
#[derive(PartialEq, Clone, Debug)]
pub enum Owner {
    Member(String),
    Visitor(String),
    Student(String),
    Reserve,
    Unowned,
}

impl View for Owner {
    type V = OwnerView;

    open spec fn view(&self) -> OwnerView {
        match self {
            Owner::Member(name) => OwnerView::Member(name@),
            Owner::Visitor(name) => OwnerView::Visitor(name@),
            Owner::Student(name) => OwnerView::Student(name@),
            Owner::Reserve => OwnerView::Reserve,
            Owner::Unowned => OwnerView::Unowned,
        }
    }
}

/// Does `s` end with the marker `m`?
pub open spec fn has_marker(s: Seq<char>, m: Seq<char>) -> bool {
    s.len() >= m.len() && s.subrange(s.len() - m.len(), s.len() as int) == m
}

/// The owner denoted by a free-text ownership note: the suffix markers
/// `(Student)` and `(Visitor)` and the literal `Reservation Required` are
/// recognised; an empty note means no owner; anything else is a member name.
pub open spec fn spec_owner_of_note(s: Seq<char>) -> OwnerView {
    let t = spec_trim(s);
    if t.len() == 0 {
        OwnerView::Unowned
    } else if t == "Reservation Required"@ {
        OwnerView::Reserve
    } else if has_marker(t, "(Student)"@) {
        OwnerView::Student(trim_back(t.subrange(0, t.len() - "(Student)"@.len())))
    } else if has_marker(t, "(Visitor)"@) {
        OwnerView::Visitor(trim_back(t.subrange(0, t.len() - "(Visitor)"@.len())))
    } else {
        OwnerView::Member(t)
    }
}

impl Owner {
    /// Parses a free-text ownership note. Unparseable notes become member
    /// names; this function never fails.
    pub fn from_note(s: &str) -> (r: Owner)
        ensures
            r@ == spec_owner_of_note(s@),
    {
        let t = trim_of(s);
        let tlen = t.unicode_len();
        if tlen == 0 {
            return Owner::Unowned;
        }
        if str_eq(t, "Reservation Required") {
            return Owner::Reserve;
        }
        let student = "(Student)";
        let visitor = "(Visitor)";
        proof {
            reveal_strlit("(Student)");
            reveal_strlit("(Visitor)");
        }
        if ends_with_lit(t, student) {
            let name = trim_end_of(t.substring_char(0, tlen - 9));
            return Owner::Student(name.to_owned());
        }
        if ends_with_lit(t, visitor) {
            let name = trim_end_of(t.substring_char(0, tlen - 9));
            return Owner::Visitor(name.to_owned());
        }
        Owner::Member(String::from_str(t))
    }

    /// An owner value with the same contents.
    pub fn duplicate(&self) -> (r: Owner)
        ensures
            r@ == self@,
    {
        match self {
            Owner::Member(name) => Owner::Member(name.clone()),
            Owner::Visitor(name) => Owner::Visitor(name.clone()),
            Owner::Student(name) => Owner::Student(name.clone()),
            Owner::Reserve => Owner::Reserve,
            Owner::Unowned => Owner::Unowned,
        }
    }
}

impl Default for Owner {
    fn default() -> (r: Self)
        ensures
            r@ == OwnerView::Unowned,
    {
        Owner::Unowned
    }
}

impl core::str::FromStr for Owner {
    type Err = ();

    /// Note parsing never fails; see [`Owner::from_note`].
    fn from_str(s: &str) -> core::result::Result<Self, Self::Err> {
        core::result::Result::Ok(Owner::from_note(s))
    }
}

/// Identity of a single machine.
#[derive(PartialEq, Clone, Debug)]
pub struct MachineDefinition {
    pub hostname: String,
    pub owner: Owner,
    pub room: String,
}

impl View for MachineDefinition {
    type V = MachineDefinitionView;

    open spec fn view(&self) -> MachineDefinitionView {
        MachineDefinitionView { hostname: self.hostname@, owner: self.owner@, room: self.room@ }
    }
}

/// Identity of a cluster of machines.
#[derive(PartialEq, Clone, Debug)]
pub struct ClusterDefinition(pub Vec<MachineDefinition>);

impl View for ClusterDefinition {
    type V = Seq<MachineDefinitionView>;

    open spec fn view(&self) -> Seq<MachineDefinitionView> {
        self.0@.map_values(|m: MachineDefinition| m@)
    }
}

// ---------------------------------------------------------------------------
// Usage data
// ---------------------------------------------------------------------------

/// Load averages over one, five and fifteen minutes, in hundredths.
#[derive(Clone, Copy, Debug, PartialEq, Eq, Structural, Default)]
pub struct LoadAvg {
    pub one: u64,
    pub five: u64,
    pub fifteen: u64,
}

/// Memory usage in bytes.
#[derive(Clone, Copy, Debug, PartialEq, Eq, Structural)]
pub struct Memory {
    pub total: u64,
    pub used: u64,
}

/// One observed (process, user) sample; `usage` is CPU in hundredths
/// of a percent.
#[derive(PartialEq, Clone, Debug)]
pub struct Process {
    pub name: String,
    pub user: String,
    pub usage: u32,
}

impl View for Process {
    type V = ProcessView;

    open spec fn view(&self) -> ProcessView {
        ProcessView { name: self.name@, user: self.user@, usage: self.usage }
    }
}

impl Process {
    pub fn new(name: String, user: String, usage: u32) -> (r: Self)
        ensures
            r@ == (ProcessView { name: name@, user: user@, usage }),
    {
        Process { name, user, usage }
    }
}

/// Per-process usage samples of a single machine.
#[derive(PartialEq, Clone, Debug)]
pub struct Processes(pub Vec<Process>);

impl View for Processes {
    type V = Seq<ProcessView>;

    open spec fn view(&self) -> Seq<ProcessView> {
        self.0@.map_values(|p: Process| p@)
    }
}

impl Processes {
    pub fn new(items: Vec<Process>) -> (r: Self)
        ensures
            r@ == items@.map_values(|p: Process| p@),
    {
        Processes(items)
    }

    pub fn len(&self) -> (n: usize)
        ensures
            n == self@.len(),
    {
        self.0.len()
    }
}

/// Usage snapshot of a single machine.
#[derive(PartialEq, Clone, Debug)]
pub struct Usage {
    pub global_cpu_usage: u32,
    pub cpus: Vec<u32>,
    pub load_avg: LoadAvg,
    pub mem: Memory,
    pub processes: Processes,
}

impl View for Usage {
    type V = UsageView;

    open spec fn view(&self) -> UsageView {
        UsageView {
            global_cpu_usage: self.global_cpu_usage,
            cpus: self.cpus@,
            load_avg: self.load_avg,
            mem: self.mem,
            processes: self.processes@,
        }
    }
}

/// Definition and usage snapshot of a single machine.
#[derive(PartialEq, Clone, Debug)]
pub struct MachineUsage {
    pub definition: MachineDefinition,
    pub usage: Usage,
}

impl View for MachineUsage {
    type V = MachineUsageView;

    open spec fn view(&self) -> MachineUsageView {
        MachineUsageView { definition: self.definition@, usage: self.usage@ }
    }
}

/// Usage snapshots for a cluster of machines.
#[derive(PartialEq, Clone, Debug)]
pub struct ClusterUsage(pub Vec<MachineUsage>);

impl View for ClusterUsage {
    type V = Seq<MachineUsageView>;

    open spec fn view(&self) -> Seq<MachineUsageView> {
        self.0@.map_values(|m: MachineUsage| m@)
    }
}

/// Sum of the per-machine core counts of a cluster.
pub open spec fn spec_cpu_count(cluster: Seq<MachineUsageView>) -> int
    decreases cluster.len(),
{
    if cluster.len() == 0 {
        0
    } else {
        spec_cpu_count(cluster.drop_last()) + cluster.last().usage.cpus.len()
    }
}

impl ClusterUsage {
    pub fn new(usages: Vec<MachineUsage>) -> (r: Self)
        ensures
            r@ == usages@.map_values(|m: MachineUsage| m@),
    {
        ClusterUsage(usages)
    }

    pub fn len(&self) -> (n: usize)
        ensures
            n == self@.len(),
    {
        self.0.len()
    }

    /// The total number of cores across the cluster, saturating at `u32::MAX`.
    pub fn cpu_count(&self) -> (n: u32)
        ensures
            spec_cpu_count(self@) <= u32::MAX ==> n == spec_cpu_count(self@),
            n <= spec_cpu_count(self@),
    {
        let mut cpu_count: u32 = 0;
        let mut i: usize = 0;
        while i < self.0.len()
            invariant
                i <= self.0.len(),
                spec_cpu_count(self@.subrange(0, i as int)) <= u32::MAX ==> cpu_count
                    == spec_cpu_count(self@.subrange(0, i as int)),
                cpu_count <= spec_cpu_count(self@.subrange(0, i as int)),
            decreases self.0.len() - i,
        {
            proof {
                assert(self@.subrange(0, i + 1).drop_last() =~= self@.subrange(0, i as int));
                assert(self@.subrange(0, i + 1).last() == self@[i as int]);
            }
            let cores = self.0[i].usage.cpus.len();
            let add: u32 = if cores > u32::MAX as usize {
                u32::MAX
            } else {
                cores as u32
            };
            cpu_count = if cpu_count > u32::MAX - add {
                u32::MAX
            } else {
                cpu_count + add
            };
            i = i + 1;
        }
        proof {
            assert(self@.subrange(0, self@.len() as int) =~= self@);
        }
        cpu_count
    }
}

/// The aggregated cluster snapshot that the orchestrator persists.
#[derive(PartialEq, Clone, Debug)]
pub struct ClusterData {
    pub timestamp: u64,
    pub usage: ClusterUsage,
}

impl View for ClusterData {
    type V = ClusterDataView;

    open spec fn view(&self) -> ClusterDataView {
        ClusterDataView { timestamp: self.timestamp, usage: self.usage@ }
    }
}

impl ClusterData {
    /// Creates a new [`ClusterData`] stamped with the given wall-clock time
    /// in seconds since the Unix epoch.
    pub fn new(usage: ClusterUsage, timestamp: u64) -> (r: Self)
        ensures
            r@.timestamp == timestamp,
            r@.usage == usage@,
    {
        ClusterData { timestamp, usage }
    }

    /// Returns the time stored in the timestamp, in seconds since the Unix
    /// epoch.
    pub fn time(&self) -> (t: u64)
        ensures
            t == self@.timestamp,
    {
        self.timestamp
    }
}

// ---------------------------------------------------------------------------
// Derived per-machine figures
// ---------------------------------------------------------------------------

/// Used and total core counts of one machine.
#[derive(Clone, Copy, Debug, PartialEq, Eq, Structural)]
pub struct CpuUsage {
    pub used: u32,
    pub total: u32,
}

/// The user whose processes consume the most CPU on a machine.
#[derive(PartialEq, Clone, Debug)]
pub struct ActiveUser {
    pub user: String,
    pub cores: u32,
    pub task: String,
}

impl View for ActiveUser {
    type V = ActiveUserView;

    open spec fn view(&self) -> ActiveUserView {
        ActiveUserView { user: self.user@, cores: self.cores, task: self.task@ }
    }
}

} // verus!
