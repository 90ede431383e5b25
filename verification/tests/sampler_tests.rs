use mu::config::Config;
use mu::model::{LoadAvg, Memory, Process, Usage};
use mu::sampler::{gather_samples, RawProcess};
use mu::PROCESS_USAGE_THRESHOLD_CENTI;

fn raw(pid: u32, name: &str, user: &str, usage: u32) -> RawProcess {
    RawProcess {
        pid,
        name: String::from(name),
        user: Some(String::from(user)),
        usage,
    }
}

fn policy_ignoring_root() -> Config {
    Config::new(vec![String::from("root")], Vec::new(), Vec::new())
}

#[test]
fn filtering_example_scenario() {
    // policy {ignored_users: ["root"], threshold: 10%}; raw samples
    // (root, sshd, 50.0%), (ann, vim, 3.0%), (ann, ffmpeg, 80.0%)
    let cfg = policy_ignoring_root();
    let samples = vec![
        raw(10, "sshd", "root", 5000),
        raw(11, "vim", "ann", 300),
        raw(12, "ffmpeg", "ann", 8000),
    ];
    let kept = gather_samples(&cfg, Some(1), &samples);
    assert_eq!(
        kept.0,
        vec![Process {
            name: String::from("ffmpeg"),
            user: String::from("ann"),
            usage: 8000,
        }]
    );
}

#[test]
fn sampler_excludes_its_own_pid() {
    let cfg = Config::default();
    let samples = vec![raw(42, "sampler", "ann", 9999), raw(43, "vim", "ann", 9999)];
    let kept = gather_samples(&cfg, Some(42), &samples);
    assert_eq!(kept.0.len(), 1);
    assert_eq!(kept.0[0].name, "vim");
}

#[test]
fn sampler_threshold_is_inclusive() {
    let cfg = Config::default();
    let samples = vec![
        raw(1, "a", "u", PROCESS_USAGE_THRESHOLD_CENTI),
        raw(2, "b", "u", PROCESS_USAGE_THRESHOLD_CENTI - 1),
    ];
    let kept = gather_samples(&cfg, Some(0), &samples);
    assert_eq!(kept.0.len(), 1);
    assert_eq!(kept.0[0].name, "a");
}

#[test]
fn sampler_substitutes_placeholder_user() {
    let cfg = Config::default();
    let samples = vec![RawProcess {
        pid: 1,
        name: String::from("mystery"),
        user: None,
        usage: 5000,
    }];
    let kept = gather_samples(&cfg, Some(0), &samples);
    assert_eq!(kept.0[0].user, "?");
}

#[test]
fn sampler_renames_after_ignore_checks() {
    // the ignore check uses the original name; the stored sample the renamed one
    let cfg = Config::new(
        Vec::new(),
        vec![String::from("cc1plus")],
        vec![(String::from("x"), String::from("y")), (String::from("cc1plus"), String::from("gcc"))],
    );
    let samples = vec![raw(1, "cc1plus", "ann", 5000), raw(2, "x", "ann", 5000)];
    let kept = gather_samples(&cfg, Some(0), &samples);
    assert_eq!(kept.0.len(), 1);
    assert_eq!(kept.0[0].name, "y");
}

#[test]
fn usage_gather_assembles_the_snapshot() {
    let cfg = policy_ignoring_root();
    let samples = vec![raw(1, "ffmpeg", "ann", 8000), raw(2, "sshd", "root", 5000)];
    let load = LoadAvg { one: 150, five: 120, fifteen: 100 };
    let mem = Memory { total: 64, used: 32 };
    let usage = Usage::gather(&cfg, Some(0), &samples, 4200, vec![9000, 100], load, mem);
    assert_eq!(usage.global_cpu_usage, 4200);
    assert_eq!(usage.cpus, vec![9000, 100]);
    assert_eq!(usage.load_avg, load);
    assert_eq!(usage.mem, mem);
    assert_eq!(usage.processes.0.len(), 1);
    assert_eq!(usage.processes.0[0].user, "ann");
}

#[test]
fn sampler_without_a_known_pid_excludes_nothing() {
    let cfg = Config::default();
    let samples = vec![raw(42, "sampler", "ann", 9999), raw(43, "vim", "ann", 9999)];
    let kept = gather_samples(&cfg, None, &samples);
    assert_eq!(kept.0.len(), 2);
}
