use asitop::files::{
    is_powermetrics_file, new_timecode, powermetrics_args, powermetrics_path, timecode_at,
};
use std::time::{SystemTime, UNIX_EPOCH};

#[test]
fn paths_carry_the_timecode() {
    assert_eq!(powermetrics_path("1700000000"), "/tmp/asitop_powermetrics1700000000");
    assert_eq!(powermetrics_path(""), "/tmp/asitop_powermetrics");
}

#[test]
fn cleanup_recognises_what_a_run_writes() {
    let path = powermetrics_path(&new_timecode());
    let name = path.strip_prefix("/tmp/").unwrap();
    assert!(!name.contains('/'));
    assert!(is_powermetrics_file(name));
    assert!(is_powermetrics_file("asitop_powermetrics"));
    assert!(!is_powermetrics_file("asitop_powermetric"));
    assert!(!is_powermetrics_file("my_asitop_powermetrics1"));
    assert!(!is_powermetrics_file("Asitop_powermetrics1"));
}

#[test]
fn timecodes_are_seconds() {
    assert_eq!(timecode_at(Some(0)), "0");
    assert_eq!(timecode_at(Some(1_700_000_000)), "1700000000");
    assert_eq!(timecode_at(None), "0");
    assert_ne!(
        powermetrics_path(&timecode_at(Some(1))),
        powermetrics_path(&timecode_at(Some(11)))
    );
}

#[test]
fn timecode_follows_the_clock() {
    let before = SystemTime::now().duration_since(UNIX_EPOCH).unwrap().as_secs();
    let code: u64 = new_timecode().parse().unwrap();
    let after = SystemTime::now().duration_since(UNIX_EPOCH).unwrap().as_secs();
    assert!(before <= code && code <= after);
}

#[test]
fn arguments_of_a_run() {
    assert_eq!(
        powermetrics_args("123", 2000),
        vec![
            "nice",
            "-n",
            "10",
            "powermetrics",
            "--samplers",
            "cpu_power,gpu_power,thermal",
            "-o",
            "/tmp/asitop_powermetrics123",
            "-f",
            "plist",
            "-i",
            "2000",
        ]
    );
}
