use mu::model::{
    ClusterData, ClusterUsage, LoadAvg, MachineDefinition, MachineUsage, Memory, Owner, Process,
    Processes, Usage,
};

fn sample_data() -> ClusterData {
    let m1 = MachineUsage {
        definition: MachineDefinition {
            hostname: String::from("m1"),
            owner: Owner::Student(String::from("Ann")),
            room: String::from("lab"),
        },
        usage: Usage {
            global_cpu_usage: 4217,
            cpus: vec![10000, 0, 555],
            load_avg: LoadAvg { one: 150, five: 250, fifteen: 99 },
            mem: Memory { total: 68719476736, used: 1234567 },
            processes: Processes(vec![
                Process {
                    name: String::from("python"),
                    user: String::from("ann"),
                    usage: 5500,
                },
                Process {
                    name: String::from("weird name\nwith newline"),
                    user: String::from("?"),
                    usage: 1000,
                },
            ]),
        },
    };
    let m2 = MachineUsage {
        definition: MachineDefinition {
            hostname: String::from("m2"),
            owner: Owner::Unowned,
            room: String::from(""),
        },
        usage: Usage {
            global_cpu_usage: 0,
            cpus: vec![],
            load_avg: LoadAvg { one: 0, five: 0, fifteen: 0 },
            mem: Memory { total: 0, used: 0 },
            processes: Processes(vec![]),
        },
    };
    ClusterData {
        timestamp: 1700000123,
        usage: ClusterUsage(vec![m1, m2]),
    }
}

#[test]
fn round_trip_preserves_every_field() {
    let data = sample_data();
    let text = data.serialize();
    let back = ClusterData::parse(text.as_str()).expect("round trip must parse");
    assert_eq!(back, data);
}

#[test]
fn round_trip_of_the_empty_snapshot() {
    let data = ClusterData {
        timestamp: 0,
        usage: ClusterUsage(vec![]),
    };
    let text = data.serialize();
    assert_eq!(text, "mu-cluster-snapshot\ntimestamp\n0\nmachines\n0\n");
    let back = ClusterData::parse(text.as_str()).unwrap();
    assert_eq!(back, data);
}

#[test]
fn owner_variants_survive_the_round_trip() {
    let owners = vec![
        Owner::Member(String::from("Ada")),
        Owner::Visitor(String::from("Van")),
        Owner::Student(String::from("Stu")),
        Owner::Reserve,
        Owner::Unowned,
    ];
    for owner in owners {
        let data = ClusterData {
            timestamp: 7,
            usage: ClusterUsage(vec![MachineUsage {
                definition: MachineDefinition {
                    hostname: String::from("h"),
                    owner: owner.clone(),
                    room: String::from("r"),
                },
                usage: Usage {
                    global_cpu_usage: 1,
                    cpus: vec![1],
                    load_avg: LoadAvg { one: 1, five: 2, fifteen: 3 },
                    mem: Memory { total: 2, used: 1 },
                    processes: Processes(vec![]),
                },
            }]),
        };
        let back = ClusterData::parse(data.serialize().as_str()).unwrap();
        assert_eq!(back.usage.0[0].definition.owner, owner);
    }
}

#[test]
fn parse_rejects_garbage() {
    assert!(ClusterData::parse("").is_none());
    assert!(ClusterData::parse("not a snapshot").is_none());
    assert!(ClusterData::parse("mu-cluster-snapshot\ntimestamp\nxyz\n").is_none());
}

#[test]
fn parse_rejects_truncated_input() {
    let text = sample_data().serialize();
    let cut = &text[..text.len() - 5];
    assert!(ClusterData::parse(cut).is_none());
}

#[test]
fn parse_rejects_trailing_junk() {
    let mut text = sample_data().serialize();
    text.push_str("extra\n");
    assert!(ClusterData::parse(text.as_str()).is_none());
}
