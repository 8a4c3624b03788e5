use lgit::commands::autosquash::run;
use lgit::commands::{MockCmd, Session};

#[test]
fn test_with_number_supplied() {
    let mut cmd = MockCmd::new();
    cmd.expect_exec(
        &[
            "-c",
            "sequence.editor=:",
            "rebase",
            "--interactive",
            "--autosquash",
            "HEAD~1",
        ],
        false,
        false,
        Ok(String::new()),
    );
    let mut cmd = Session::new(cmd);

    let result = run(&mut cmd, "HEAD~1", None, false);

    assert!(result.is_ok());
    assert!(cmd.into_inner().is_satisfied());
}

#[test]
fn test_with_base_supplied() {
    let mut cmd = MockCmd::new();
    cmd.expect_exec(
        &[
            "-c",
            "sequence.editor=:",
            "rebase",
            "--interactive",
            "--autosquash",
            "main",
        ],
        false,
        false,
        Ok(String::new()),
    );
    let mut cmd = Session::new(cmd);

    let result = run(&mut cmd, "main", None, false);

    assert!(result.is_ok());
    assert!(cmd.into_inner().is_satisfied());
}

#[test]
fn a_number_takes_the_place_of_the_base() {
    let mut cmd = MockCmd::new();
    cmd.expect_exec(
        &[
            "-c",
            "sequence.editor=:",
            "rebase",
            "--interactive",
            "--autosquash",
            "HEAD~12",
        ],
        true,
        false,
        Ok(String::new()),
    );
    let mut cmd = Session::new(cmd);

    assert_eq!(run(&mut cmd, "main", Some(12), true), Ok(()));
    assert!(cmd.into_inner().is_satisfied());
}

#[test]
fn autosquash_failure_has_its_message() {
    let mut cmd = MockCmd::new();
    cmd.expect_exec(
        &[
            "-c",
            "sequence.editor=:",
            "rebase",
            "--interactive",
            "--autosquash",
            "HEAD~0",
        ],
        false,
        false,
        Err(()),
    );
    let mut cmd = Session::new(cmd);

    assert_eq!(
        run(&mut cmd, "main", Some(0), false),
        Err(Some("Failed to auto squash commits".to_string()))
    );
    assert!(cmd.into_inner().is_satisfied());
}
