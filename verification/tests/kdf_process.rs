use mm2_rtui::file_manager::required_files;
use mm2_rtui::kdf_process::{pids_found_message, running_pids, ProbeRun, MAX_PROBES};

#[test]
fn pids_are_read_from_pgrep_output() {
    assert_eq!(running_pids("1234\n5678\n"), vec!["1234".to_string(), "5678".to_string()]);
    assert_eq!(running_pids("  42  "), vec!["42".to_string()]);
    assert!(running_pids("").is_empty());
    assert!(running_pids(" \n ").is_empty());
    assert_eq!(running_pids("1\n\n2"), vec!["1".to_string(), "2".to_string()]);
}

#[test]
fn found_message_lists_pids() {
    let pids = vec!["1".to_string(), "22".to_string()];
    assert_eq!(pids_found_message(&pids), "Found 2 existing KDF process(es) with PID(s): 1, 22");
}

#[test]
fn required_files_with_mirrors() {
    let files = required_files();
    let names: Vec<&str> = files.iter().map(|f| f.name.as_str()).collect();
    assert_eq!(names, vec!["coins_config.json", "coins.json", "seed-nodes.json"]);
    assert!(files[1].primary_url.ends_with("/master/coins"));
    assert_eq!(files[2].fallback_url, "https://komodoplatform.github.io/coins/seed-nodes.json");
}

fn run(outcomes: &[bool]) -> ProbeRun {
    let mut r = ProbeRun::start();
    for &o in outcomes {
        if r.is_probing() {
            r = r.step(o);
        }
    }
    r
}

#[test]
fn probing_stops_at_the_first_awaited_outcome() {
    assert_eq!(MAX_PROBES, 5);
    assert_eq!(run(&[]), ProbeRun::Probing { done: 0 });
    assert_eq!(run(&[true]), ProbeRun::Reached { probes: 1 });
    assert_eq!(run(&[false, false, true, false]), ProbeRun::Reached { probes: 3 });
    assert_eq!(run(&[false, false]), ProbeRun::Probing { done: 2 });
}

#[test]
fn probing_gives_up_after_the_last_probe() {
    assert_eq!(run(&[false, false, false, false]), ProbeRun::Probing { done: 4 });
    assert_eq!(run(&[false; 5]), ProbeRun::Exhausted);
    assert_eq!(run(&[false, false, false, false, false, true]), ProbeRun::Exhausted);
    assert_eq!(run(&[false, false, false, false, true]), ProbeRun::Reached { probes: 5 });
    assert_eq!(ProbeRun::Exhausted.step(true), ProbeRun::Exhausted);
    assert_eq!(ProbeRun::Reached { probes: 2 }.step(false), ProbeRun::Reached { probes: 2 });
}
