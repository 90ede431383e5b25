use mu::active::active_user;
use mu::model::{
    ClusterData, ClusterUsage, HostInfo, LoadAvg, MachineDefinition, MachineUsage, Memory, Owner,
    Process, Processes, Usage,
};
use mu::view::{
    cpu_usage_of, display_percent, hotness_bucket, total_usage, ClusterView, StatsView,
};

fn usage_with(cpus: Vec<u32>, samples: Vec<(&str, &str, u32)>) -> Usage {
    let procs = samples
        .into_iter()
        .map(|(name, user, usage)| Process {
            name: String::from(name),
            user: String::from(user),
            usage,
        })
        .collect();
    Usage {
        global_cpu_usage: 1000,
        cpus,
        load_avg: LoadAvg { one: 100, five: 250, fifteen: 100 },
        mem: Memory { total: 64, used: 16 },
        processes: Processes(procs),
    }
}

fn machine(hostname: &str, usage: Usage) -> MachineUsage {
    MachineUsage {
        definition: MachineDefinition {
            hostname: String::from(hostname),
            owner: Owner::Unowned,
            room: String::from("lab"),
        },
        usage,
    }
}

fn host() -> HostInfo {
    HostInfo {
        hostname: String::from("viewer"),
        user: String::from("me"),
        os: String::from("Linux"),
        os_version: String::from("6.1"),
    }
}

#[test]
fn hotness_bucket_examples() {
    // no cores: ratio treated as zero
    assert_eq!(hotness_bucket(12345, 0), 0);
    // load 0.00 on 1 core
    assert_eq!(hotness_bucket(0, 1), 0);
    // load 1.00 on 1 core: ratio 1.0, bucket 9
    assert_eq!(hotness_bucket(100, 1), 9);
    // load 0.50 on 1 core: round(0.5 * 9) = round(4.5) = 5
    assert_eq!(hotness_bucket(50, 1), 5);
    // load 2.00 on 4 cores: ratio 0.5 again
    assert_eq!(hotness_bucket(200, 4), 5);
    // overloaded machine clamps to the hottest bucket
    assert_eq!(hotness_bucket(100000, 1), 9);
}

#[test]
fn hotness_bucket_is_monotonic_in_the_ratio() {
    // increasing load ratios never decrease the bucket
    let mut last = 0;
    for five in [0u64, 10, 30, 50, 80, 100, 140, 200, 500, 1000] {
        let b = hotness_bucket(five, 2);
        assert!(b >= last);
        last = b;
    }
}

#[test]
fn active_user_selection_is_idempotent() {
    let usage = usage_with(
        vec![5000, 5000],
        vec![("vim", "bob", 3000), ("ffmpeg", "ann", 2000), ("gcc", "ann", 2000)],
    );
    let first = active_user(&usage.processes);
    let second = active_user(&usage.processes);
    assert_eq!(first, second);
    // ann's 4000 beats bob's 3000; ann's busiest task is the earliest
    // sample attaining her maximum
    let au = first.unwrap();
    assert_eq!(au.user, "ann");
    assert_eq!(au.cores, 2);
    assert_eq!(au.task, "ffmpeg");
}

#[test]
fn active_user_tie_breaks_alphabetically() {
    let usage = usage_with(vec![], vec![("x", "zed", 4000), ("y", "amy", 4000)]);
    let au = active_user(&usage.processes).unwrap();
    assert_eq!(au.user, "amy");
}

#[test]
fn active_user_absent_without_samples() {
    let usage = usage_with(vec![1000], vec![]);
    assert!(active_user(&usage.processes).is_none());
}

#[test]
fn used_cores_counts_strictly_above_threshold() {
    let cu = cpu_usage_of(&vec![1000, 1001, 50000, 0]);
    assert_eq!(cu.used, 2);
    assert_eq!(cu.total, 4);
}

#[test]
fn fleet_total_usage_figures() {
    let cluster = ClusterUsage(vec![
        machine("m1", usage_with(vec![10000, 0], vec![])),
        machine("m2", usage_with(vec![5000], vec![])),
    ]);
    let ratio = total_usage(&cluster);
    assert_eq!(ratio.used_centi, 15000);
    assert_eq!(ratio.total_cores, 3);
    // the ratio itself is 15000 / (10000 * 3) = 0.5
}

#[test]
fn fleet_total_usage_with_no_cores() {
    let cluster = ClusterUsage(vec![machine("m1", usage_with(vec![], vec![]))]);
    let ratio = total_usage(&cluster);
    assert_eq!(ratio.used_centi, 0);
    assert_eq!(ratio.total_cores, 0);
}

#[test]
fn ranking_orders_by_count_and_name() {
    // users {alice: 4, bob: 4, carl: 1} over 10 total cores
    let cluster = ClusterUsage(vec![
        machine(
            "m1",
            usage_with(
                vec![0, 0, 0, 0, 0],
                vec![
                    ("a", "alice", 2000),
                    ("b", "alice", 2000),
                    ("c", "bob", 2000),
                    ("d", "carl", 2000),
                ],
            ),
        ),
        machine(
            "m2",
            usage_with(
                vec![0, 0, 0, 0, 0],
                vec![
                    ("e", "bob", 2000),
                    ("f", "alice", 2000),
                    ("g", "bob", 2000),
                    ("h", "bob", 2000),
                    ("i", "alice", 2000),
                ],
            ),
        ),
    ]);
    let stats = StatsView::new(&cluster);
    assert_eq!(stats.total_cores, 10);
    let ranking: Vec<(String, u64)> = stats
        .entries
        .iter()
        .map(|e| (e.user.clone(), e.threads))
        .collect();
    assert_eq!(
        ranking,
        vec![
            (String::from("alice"), 4),
            (String::from("bob"), 4),
            (String::from("carl"), 1),
        ]
    );
}

#[test]
fn ranking_excludes_users_below_one_percent() {
    // 150 cores; a user with one sample sits at 0.67% and is dropped
    let mut cpus = Vec::new();
    for _ in 0..150 {
        cpus.push(0u32);
    }
    let cluster = ClusterUsage(vec![machine(
        "m1",
        usage_with(
            cpus,
            vec![
                ("a", "busy", 2000),
                ("b", "busy", 2000),
                ("c", "quiet", 2000),
            ],
        ),
    )]);
    let stats = StatsView::new(&cluster);
    assert_eq!(stats.entries.len(), 1);
    assert_eq!(stats.entries[0].user, "busy");
    assert_eq!(stats.entries[0].threads, 2);
}

#[test]
fn display_percent_examples() {
    assert_eq!(display_percent(4, 10), Some(40));
    assert_eq!(display_percent(1, 150), Some(1));
    // no cores: no percentage can be shown
    assert_eq!(display_percent(4, 0), None);
}

#[test]
fn cluster_view_sorts_machines_by_hostname() {
    let cluster = ClusterUsage(vec![
        machine("zeus", usage_with(vec![1000], vec![])),
        machine("apollo", usage_with(vec![1000], vec![("vim", "ann", 2000)])),
        machine("hermes", usage_with(vec![1000], vec![])),
    ]);
    let data = ClusterData::new(cluster, 100);
    let view = ClusterView::new(host(), &data, true, true, true);
    let names: Vec<&str> = view.machines.iter().map(|m| m.hostname.as_str()).collect();
    assert_eq!(names, vec!["apollo", "hermes", "zeus"]);
    assert_eq!(view.notes.last_update, 100);
    assert!(view.notes.logged);
    assert!(view.notes.success);
    assert_eq!(view.header.hostinfo.hostname, "viewer");
    let apollo = &view.machines[0];
    assert_eq!(apollo.active_user.as_ref().unwrap().user, "ann");
    assert_eq!(apollo.cpu_usage.total, 1);
}
