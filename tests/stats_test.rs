use frs::cli::empty_cli;
use frs::fs::FileType;
use frs::stats::{Stats, SummaryItem};

#[test]
fn cli_0_verbose() {
    let cli_opts = empty_cli();

    let mut stats = Stats::new(None);
    stats.set_cli_opts(&cli_opts);

    assert!(!stats.show_renames);
    assert!(!stats.show_summary);
}

#[test]
fn cli_1_verbose() {
    let mut cli_opts = empty_cli();
    cli_opts.verbose = 1;

    let mut stats = Stats::new(None);
    stats.set_cli_opts(&cli_opts);

    assert!(!stats.show_renames);
    assert!(stats.show_summary);
}

#[test]
fn cli_2_verbose() {
    let mut cli_opts = empty_cli();
    cli_opts.verbose = 2;

    let mut stats = Stats::new(None);
    stats.set_cli_opts(&cli_opts);

    assert!(stats.show_renames);
    assert!(stats.show_summary);
}

#[test]
fn not_count_error_without_summary() {
    let mut stats = Stats::new(None);

    stats.error();

    assert_eq!(stats.errors, 0);
    assert_eq!(stats.renamed_files, 0);
    assert_eq!(stats.renamed_directories, 0);
    assert_eq!(stats.renamed_symlinks, 0);
}

#[test]
fn count_error_with_summary() {
    let mut stats = Stats::new(None);
    stats.show_summary = true;

    stats.error();

    assert_eq!(stats.errors, 1);
    assert_eq!(stats.renamed_files, 0);
    assert_eq!(stats.renamed_directories, 0);
    assert_eq!(stats.renamed_symlinks, 0);
}

#[test]
fn not_count_file_without_summary() {
    let mut stats = Stats::new(None);

    stats.rename(0, FileType::File);

    assert_eq!(stats.errors, 0);
    assert_eq!(stats.renamed_files, 0);
    assert_eq!(stats.renamed_directories, 0);
    assert_eq!(stats.renamed_symlinks, 0);
}

#[test]
fn count_file_with_summary() {
    let mut stats = Stats::new(None);
    stats.show_summary = true;

    stats.rename(0, FileType::File);

    assert_eq!(stats.errors, 0);
    assert_eq!(stats.renamed_files, 1);
    assert_eq!(stats.renamed_directories, 0);
    assert_eq!(stats.renamed_symlinks, 0);
}

#[test]
fn has_no_output_as_empty() {
    let mut stats = Stats::new(None);
    stats.show_renames = true;

    assert!(!stats.has_output());
}

#[test]
fn has_no_output_as_dont_show_renames() {
    let mut stats = Stats::new(None);
    stats.renamed_files = 42;

    assert!(!stats.has_output());
}

#[test]
fn has_output_as_error() {
    let mut stats = Stats::new(None);
    stats.errors = 42;

    assert!(stats.has_output());
}

#[test]
fn has_output_as_renames() {
    let mut stats = Stats::new(None);
    stats.show_renames = true;
    stats.renamed_files = 42;

    assert!(stats.has_output());
}

#[test]
fn middle_column_of_terminal() {
    assert_eq!(Stats::new(Some(80)).middle_col, 38);
    assert_eq!(Stats::new(Some(3)).middle_col, 0);
    assert_eq!(Stats::new(None).middle_col, 0);
}

#[test]
fn icons_and_operation_mode_from_options() {
    let mut cli_opts = empty_cli();
    cli_opts.icons = true;
    cli_opts.dry_run = true;
    cli_opts.base_path = "some/dir".to_string();

    let mut stats = Stats::new(None);
    assert_eq!(stats.rename_arrow, "=>");
    stats.set_cli_opts(&cli_opts);

    assert_eq!(stats.operation_mode, "DRY-RUN");
    assert_eq!(stats.base_path, "some/dir");
    assert_eq!(stats.rename_arrow, "\u{21d2}");
    assert_eq!(stats.file_icon, "\u{f15b} ");
}

#[test]
fn rename_padding_lines_arrows_up() {
    let mut stats = Stats::new(Some(44));
    stats.show_renames = true;
    stats.show_summary = true;

    assert_eq!(stats.rename(5, FileType::File), Some(0));
    assert_eq!(stats.rename(3, FileType::Dir), Some(2));
    assert_eq!(stats.rename(30, FileType::SymLink), Some(0));
    assert_eq!(stats.max_indent, 30);
    assert_eq!(stats.rename(4, FileType::File), Some(16));
    assert_eq!(stats.renamed_files, 2);
    assert_eq!(stats.renamed_directories, 1);
    assert_eq!(stats.renamed_symlinks, 1);
}

#[test]
fn rename_without_shown_renames_has_no_padding() {
    let mut stats = Stats::new(Some(44));
    assert_eq!(stats.rename(5, FileType::File), None);
    assert_eq!(stats.max_indent, 0);
}

#[test]
fn error_count_saturates() {
    let mut stats = Stats::new(None);
    stats.show_summary = true;
    stats.errors = u32::MAX;
    stats.error();
    assert_eq!(stats.errors, u32::MAX);
}

#[test]
fn summary_lists_non_zero_counts_in_order() {
    let mut stats = Stats::new(None);
    stats.errors = 2;
    stats.renamed_symlinks = 7;
    assert_eq!(
        stats.summary(),
        vec![(SummaryItem::Errors, 2), (SummaryItem::Symlinks, 7)]
    );
}

#[test]
fn summary_without_counts_shows_no_actions() {
    let stats = Stats::new(None);
    assert_eq!(stats.summary(), vec![(SummaryItem::Actions, 0)]);
}
