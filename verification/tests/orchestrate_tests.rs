use mu::active::active_user;
use mu::model::{
    ClusterData, LoadAvg, MachineDefinition, Memory, Owner, Process, Processes, Usage,
};
use mu::orchestrate::{aggregate, GatherSummary};
use mu::roster::MachineDefinitions;

fn simple_usage(samples: Vec<(&str, &str, u32)>) -> Usage {
    let procs = samples
        .into_iter()
        .map(|(name, user, usage)| Process {
            name: String::from(name),
            user: String::from(user),
            usage,
        })
        .collect();
    Usage {
        global_cpu_usage: 1000,
        cpus: vec![2000, 500],
        load_avg: LoadAvg { one: 100, five: 100, fifteen: 100 },
        mem: Memory { total: 64, used: 16 },
        processes: Processes(procs),
    }
}

fn def(hostname: &str) -> MachineDefinition {
    MachineDefinition {
        hostname: String::from(hostname),
        owner: Owner::Unowned,
        room: String::from("lab"),
    }
}

#[test]
fn all_successful_gather_keeps_every_machine() {
    let roster = vec![def("m1"), def("m2"), def("m3")];
    let outcomes = vec![
        Some(simple_usage(vec![("a", "u", 2000)])),
        Some(simple_usage(vec![])),
        Some(simple_usage(vec![("b", "v", 3000)])),
    ];
    let (cluster, summary) = aggregate(roster, outcomes);
    assert_eq!(cluster.0.len(), 3);
    assert_eq!(cluster.0[0].definition.hostname, "m1");
    assert_eq!(cluster.0[1].definition.hostname, "m2");
    assert_eq!(cluster.0[2].definition.hostname, "m3");
    assert_eq!(summary, GatherSummary { successes: 3, total: 3 });
}

#[test]
fn failing_machines_are_absent_not_empty() {
    let roster = vec![def("m1"), def("m2"), def("m3"), def("m4")];
    let outcomes = vec![
        None,
        Some(simple_usage(vec![("a", "u", 2000)])),
        None,
        Some(simple_usage(vec![("b", "v", 3000)])),
    ];
    let (cluster, summary) = aggregate(roster, outcomes);
    assert_eq!(cluster.0.len(), 2);
    assert_eq!(cluster.0[0].definition.hostname, "m2");
    assert_eq!(cluster.0[1].definition.hostname, "m4");
    assert_eq!(summary, GatherSummary { successes: 2, total: 4 });
}

#[test]
fn all_failing_gather_is_empty() {
    let roster = vec![def("m1"), def("m2")];
    let (cluster, summary) = aggregate(roster, vec![None, None]);
    assert!(cluster.0.is_empty());
    assert_eq!(summary, GatherSummary { successes: 0, total: 2 });
}

#[test]
fn end_to_end_scenario() {
    // roster: m1 in lab owned by Ann (Student), m2 in lab unowned;
    // m1 returns one sample (python, ann, 55.0%); m2 fails to connect.
    let roster_text = "[lab]\nm1: Ann (Student)\nm2:\n";
    let roster: Vec<MachineDefinition> = MachineDefinitions::from_config_str(roster_text)
        .unwrap()
        .0
        .into_iter()
        .map(|e| e.into_model())
        .collect();
    assert_eq!(roster.len(), 2);

    let m1_usage = simple_usage(vec![("python", "ann", 5500)]);
    let outcomes = vec![Some(m1_usage), None];
    let (cluster, summary) = aggregate(roster, outcomes);

    assert_eq!(cluster.0.len(), 1);
    let entry = &cluster.0[0];
    assert_eq!(entry.definition.hostname, "m1");
    assert_eq!(entry.definition.owner, Owner::Student(String::from("Ann")));
    let au = active_user(&entry.usage.processes).unwrap();
    assert_eq!(au.user, "ann");
    assert_eq!(au.cores, 1);
    assert_eq!(au.task, "python");
    assert_eq!(summary, GatherSummary { successes: 1, total: 2 });
}

#[test]
fn cluster_data_keeps_the_given_timestamp() {
    let (cluster, _) = aggregate(vec![def("m1")], vec![Some(simple_usage(vec![]))]);
    let data = ClusterData::new(cluster, 1700000000);
    assert_eq!(data.timestamp, 1700000000);
    assert_eq!(data.time(), 1700000000);
    assert_eq!(data.usage.0.len(), 1);
}
