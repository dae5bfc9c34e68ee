use frs::cli::empty_cli;
use frs::fs::{handle_error_to_user, is_selected, FileType, Flow};
use frs::stats::Stats;

#[test]
fn file_type_predicates() {
    assert!(FileType::File.is_file());
    assert!(!FileType::File.is_dir());
    assert!(FileType::Dir.is_dir());
    assert!(!FileType::Dir.is_symlink());
    assert!(FileType::SymLink.is_symlink());
    assert!(!FileType::SymLink.is_file());
}

#[test]
fn selection_follows_type_flags() {
    let mut cli = empty_cli();
    cli.file = true;
    assert!(is_selected(FileType::File, &cli));
    assert!(!is_selected(FileType::Dir, &cli));
    assert!(!is_selected(FileType::SymLink, &cli));
    cli.directory = true;
    assert!(is_selected(FileType::Dir, &cli));
}

#[test]
fn stop_handle_error_on_ok() {
    let cli = empty_cli();
    let files_result: Result<i32, String> = Ok(5);

    assert!(matches!(
        handle_error_to_user(files_result, cli.continue_on_error, &mut Stats::new(None)),
        Flow::Pass(5)
    ));
}

#[test]
fn continue_handle_error_on_ok() {
    let mut cli = empty_cli();
    cli.continue_on_error = true;
    let files_result: Result<i32, String> = Ok(5);

    assert!(matches!(
        handle_error_to_user(files_result, cli.continue_on_error, &mut Stats::new(None)),
        Flow::Pass(5)
    ));
}

#[test]
fn stop_handle_error_on_error() {
    let cli = empty_cli();
    let files_result: Result<(), String> = Err("./old".to_string());

    match handle_error_to_user(files_result, cli.continue_on_error, &mut Stats::new(None)) {
        Flow::Stop(error) => assert_eq!(error, "./old"),
        _ => panic!("the error must stop the run"),
    }
}

#[test]
fn continue_handle_error_on_error() {
    let mut cli = empty_cli();
    cli.continue_on_error = true;
    let files_result: Result<(), String> = Err("./old".to_string());
    let mut stats = Stats::new(None);
    stats.show_summary = true;

    match handle_error_to_user(files_result, cli.continue_on_error, &mut stats) {
        Flow::Skip(error) => assert_eq!(error, "./old"),
        _ => panic!("the error must be skipped"),
    }
    assert_eq!(stats.errors, 1);
}
