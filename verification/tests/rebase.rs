use lgit::commands::rebase::run;
use lgit::commands::{MockCmd, Session};

#[test]
fn test_run_success_without_stash() {
    let mut command = MockCmd::new();
    // stash check - no changes
    command.expect_exec(&["status", "--porcelain"], false, false, Ok(String::new()));
    // refresh_base - checkout base
    command.expect_exec(&["checkout", "main"], false, false, Ok(String::new()));
    // refresh_base - pull
    command.expect_exec(&["pull"], false, false, Ok(String::new()));
    // checkout back to the branch that was current
    command.expect_exec(&["checkout", "-"], false, false, Ok(String::new()));
    // rebase
    command.expect_exec(&["rebase", "main"], false, false, Ok(String::new()));
    let mut command = Session::new(command);

    let result = run(&mut command, "main", false);

    assert!(result.is_ok());
    assert_eq!(result, Ok("Rebased onto main".to_string()));
    assert!(command.into_inner().is_satisfied());
}

#[test]
fn test_run_success_with_stash() {
    let mut command = MockCmd::new();
    // stash check - has changes
    command.expect_exec(&["status", "--porcelain"], false, false, Ok("M file.txt".to_string()));
    // stash save
    command.expect_exec(
        &["stash", "-u"],
        false,
        false,
        Ok("Saved working directory".to_string()),
    );
    command.expect_exec(&["checkout", "main"], false, false, Ok(String::new()));
    command.expect_exec(&["pull"], false, false, Ok(String::new()));
    command.expect_exec(&["checkout", "-"], false, false, Ok(String::new()));
    command.expect_exec(&["rebase", "main"], false, false, Ok(String::new()));
    // unstash
    command.expect_exec(&["stash", "pop"], false, false, Ok("Applied stash".to_string()));
    let mut command = Session::new(command);

    let result = run(&mut command, "main", false);

    assert!(result.is_ok());
    assert!(command.into_inner().is_satisfied());
}

#[test]
fn test_run_stash_failure() {
    let mut command = MockCmd::new();
    command.expect_exec(&["status", "--porcelain"], false, false, Err(()));
    let mut command = Session::new(command);

    let result = run(&mut command, "main", false);

    assert!(result.is_err());
    assert!(command.into_inner().is_satisfied());
}

#[test]
fn test_run_refresh_base_failure() {
    let mut command = MockCmd::new();
    command.expect_exec(&["status", "--porcelain"], false, false, Ok(String::new()));
    command.expect_exec(&["checkout", "main"], false, false, Err(()));
    let mut command = Session::new(command);

    let result = run(&mut command, "main", false);

    assert!(result.is_err());
    assert_eq!(result, Err(Some("Failed to refresh base branch 'main'".to_string())));
    assert!(command.into_inner().is_satisfied());
}

#[test]
fn test_run_checkout_back_failure() {
    let mut command = MockCmd::new();
    command.expect_exec(&["status", "--porcelain"], false, false, Ok(String::new()));
    command.expect_exec(&["checkout", "main"], false, false, Ok(String::new()));
    command.expect_exec(&["pull"], false, false, Ok(String::new()));
    command.expect_exec(&["checkout", "-"], false, false, Err(()));
    let mut command = Session::new(command);

    let result = run(&mut command, "main", false);

    assert!(result.is_err());
    assert_eq!(
        result,
        Err(Some("Failed to checkout back to initial branch (git checkout -)".to_string()))
    );
    assert!(command.into_inner().is_satisfied());
}

#[test]
fn test_run_rebase_failure() {
    let mut command = MockCmd::new();
    command.expect_exec(&["status", "--porcelain"], false, false, Ok(String::new()));
    command.expect_exec(&["checkout", "main"], false, false, Ok(String::new()));
    command.expect_exec(&["pull"], false, false, Ok(String::new()));
    command.expect_exec(&["checkout", "-"], false, false, Ok(String::new()));
    command.expect_exec(&["rebase", "main"], false, false, Err(()));
    let mut command = Session::new(command);

    let result = run(&mut command, "main", false);

    assert!(result.is_err());
    assert_eq!(result, Err(Some("Failed to rebase onto 'main'".to_string())));
    assert!(command.into_inner().is_satisfied());
}

#[test]
fn rebase_failure_after_stash_issues_no_restore() {
    let mut command = MockCmd::new();
    command.expect_exec(&["status", "--porcelain"], true, false, Ok("M file.txt".to_string()));
    command.expect_exec(&["stash", "-u"], true, false, Ok(String::new()));
    command.expect_exec(&["checkout", "main"], true, false, Ok(String::new()));
    command.expect_exec(&["pull"], true, false, Ok(String::new()));
    command.expect_exec(&["checkout", "-"], true, false, Ok(String::new()));
    command.expect_exec(&["rebase", "main"], true, false, Err(()));
    let mut command = Session::new(command);

    assert!(run(&mut command, "main", true).is_err());
    assert!(command.into_inner().is_satisfied());
}
