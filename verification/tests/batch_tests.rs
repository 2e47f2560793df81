use modsync::batch::BatchCommand;
use modsync::batch::BatchRunner;
use modsync::batch::CopyResult;
use modsync::batch::HelperResult;
use modsync::schemas::Mod;

fn row(id: &str, checksum: Option<&str>) -> Mod {
    Mod { id: id.to_owned(), name: None, checksum: checksum.map(|c| c.to_owned()) }
}

fn expect_download(runner: &BatchRunner) -> String {
    match runner.current_command() {
        BatchCommand::Download { id } => id,
        _ => panic!("expected a download command"),
    }
}

fn expect_copy(runner: &BatchRunner) -> (String, bool) {
    match runner.current_command() {
        BatchCommand::Copy { id, compute_checksum } => (id, compute_checksum),
        _ => panic!("expected a copy command"),
    }
}

#[test]
fn one_spawn_failure_does_not_stop_the_batch() {
    let entries = vec![row("1", None), row("2", None), row("3", None)];
    let mut runner = BatchRunner::new(entries, false);

    assert_eq!(expect_download(&runner), "1");
    runner.report_download(HelperResult::Exited(0));
    assert_eq!(expect_copy(&runner), ("1".to_owned(), false));
    runner.report_copy(CopyResult::Copied { checksum: None });

    assert_eq!(expect_download(&runner), "2");
    runner.report_download(HelperResult::SpawnFailed);

    // the third entry is still attempted
    assert_eq!(expect_download(&runner), "3");
    runner.report_download(HelperResult::Exited(0));
    runner.report_copy(CopyResult::Copied { checksum: None });

    match runner.current_command() {
        BatchCommand::Finished { errors } => assert_eq!(errors, 1),
        _ => panic!("expected the run to be finished"),
    }
}

#[test]
fn nonzero_exit_counts_like_a_failed_spawn() {
    let entries = vec![row("1", None), row("2", None)];
    let mut runner = BatchRunner::new(entries, false);
    runner.report_download(HelperResult::Exited(3));
    assert_eq!(expect_download(&runner), "2");
    runner.report_download(HelperResult::Exited(7));
    match runner.current_command() {
        BatchCommand::Finished { errors } => assert_eq!(errors, 2),
        _ => panic!("expected the run to be finished"),
    }
}

#[test]
fn checksum_mismatch_is_counted_but_not_fatal() {
    let entries = vec![row("1", Some("want")), row("2", Some("want"))];
    let mut runner = BatchRunner::new(entries, true);

    runner.report_download(HelperResult::Exited(0));
    let (_, compute) = expect_copy(&runner);
    assert!(compute);
    runner.report_copy(CopyResult::Copied { checksum: Some("got".to_owned()) });

    assert_eq!(expect_download(&runner), "2");
    runner.report_download(HelperResult::Exited(0));
    runner.report_copy(CopyResult::Copied { checksum: Some("want".to_owned()) });

    match runner.current_command() {
        BatchCommand::Finished { errors } => assert_eq!(errors, 1),
        _ => panic!("expected the run to be finished"),
    }
}

#[test]
fn skipping_verification_ignores_checksums() {
    let entries = vec![row("1", Some("want"))];
    let mut runner = BatchRunner::new(entries, false);
    runner.report_download(HelperResult::Exited(0));
    let (_, compute) = expect_copy(&runner);
    assert!(!compute);
    runner.report_copy(CopyResult::Copied { checksum: None });
    match runner.current_command() {
        BatchCommand::Finished { errors } => assert_eq!(errors, 0),
        _ => panic!("expected the run to be finished"),
    }
}

#[test]
fn a_failed_copy_aborts_the_run() {
    let entries = vec![row("1", None), row("2", None)];
    let mut runner = BatchRunner::new(entries, false);
    runner.report_download(HelperResult::Exited(0));
    runner.report_copy(CopyResult::CopyFailed);
    match runner.current_command() {
        BatchCommand::Aborted { errors } => assert_eq!(errors, 0),
        _ => panic!("expected the run to be aborted"),
    }
}
