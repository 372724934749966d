use siko::cli::finish_args;
use siko::cli::process_args;
use siko::cli::ArgKind;
use siko::cli::ArgsOutcome;

fn args(items: &[&str]) -> Vec<String> {
    items.iter().map(|s| s.to_string()).collect()
}

#[test]
fn flags_and_a_file() {
    let plan = process_args(&args(&["-m", "-i", "main.sk"]));
    assert_eq!(
        plan.kinds,
        vec![ArgKind::MeasureDurations, ArgKind::Visualize, ArgKind::Input]
    );
    assert!(plan.config.visualize);
    assert!(!plan.config.verbose);
    assert!(plan.measure_durations);
    assert_eq!(plan.std_path, "std");
    assert!(plan.file_given);
    assert!(plan.success);
}

#[test]
fn std_path_is_the_next_argument() {
    let plan = process_args(&args(&["-s", "lib", "a.sk", "-s", "other"]));
    assert_eq!(
        plan.kinds,
        vec![
            ArgKind::StdPath,
            ArgKind::Input,
            ArgKind::Input,
            ArgKind::StdPath,
            ArgKind::Input
        ]
    );
    assert_eq!(plan.std_path, "other");
    assert!(plan.success);
}

#[test]
fn missing_std_path() {
    let plan = process_args(&args(&["a.sk", "-s"]));
    assert_eq!(plan.kinds, vec![ArgKind::Input, ArgKind::MissingStdPath]);
    assert_eq!(plan.std_path, "std");
    assert!(plan.file_given);
    assert!(!plan.success);
}

#[test]
fn help_fails() {
    let plan = process_args(&args(&["-h"]));
    assert_eq!(plan.kinds, vec![ArgKind::Help]);
    assert!(!plan.success);
    assert!(!plan.file_given);
}

#[test]
fn no_arguments() {
    let plan = process_args(&args(&[]));
    assert!(plan.kinds.is_empty());
    assert!(plan.success);
    assert!(!plan.file_given);
    assert!(!plan.measure_durations);
    assert!(!plan.config.visualize);
}

#[test]
fn outcomes() {
    assert_eq!(finish_args(true, false), ArgsOutcome::ReportNoFile);
    assert_eq!(finish_args(false, false), ArgsOutcome::Stop);
    assert_eq!(finish_args(true, true), ArgsOutcome::AddStd);
    assert_eq!(finish_args(false, true), ArgsOutcome::Stop);
}
