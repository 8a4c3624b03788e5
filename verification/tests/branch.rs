use lgit::commands::branch::run;
use lgit::commands::{MockCmd, Session};

#[test]
fn test_run_with_master_branch() {
    let mut command = MockCmd::new();
    command.expect_exec(&["status", "--porcelain"], false, false, Ok(String::new()));
    command.expect_exec(&["checkout", "main"], false, false, Ok(String::new()));
    command.expect_exec(&["pull"], false, false, Ok(String::new()));
    command.expect_exec(&["checkout", "-b", "test"], false, false, Ok(String::new()));
    let mut command = Session::new(command);

    assert_eq!(
        run(&mut command, "test", "main", false),
        Ok("Created branch test".to_string())
    );
    assert!(command.into_inner().is_satisfied());
}

#[test]
fn branch_restores_what_it_stashed() {
    let mut command = MockCmd::new();
    command.expect_exec(&["status", "--porcelain"], false, false, Ok("?? new.txt\n".to_string()));
    command.expect_exec(&["stash", "-u"], false, false, Ok("Saved".to_string()));
    command.expect_exec(&["checkout", "develop"], false, false, Ok(String::new()));
    command.expect_exec(&["pull"], false, false, Ok(String::new()));
    command.expect_exec(&["checkout", "-b", "feature/x"], false, false, Ok(String::new()));
    command.expect_exec(&["stash", "pop"], false, false, Ok(String::new()));
    let mut command = Session::new(command);

    let summary = run(&mut command, "feature/x", "develop", false).unwrap();

    assert!(summary.contains("feature/x"));
    assert_eq!(summary, "Created branch feature/x");
    assert!(command.into_inner().is_satisfied());
}

#[test]
fn branch_leaves_the_stash_in_place_when_creation_fails() {
    let mut command = MockCmd::new();
    command.expect_exec(&["status", "--porcelain"], false, false, Ok(" M a\n".to_string()));
    command.expect_exec(&["stash", "-u"], false, false, Ok(String::new()));
    command.expect_exec(&["checkout", "main"], false, false, Ok(String::new()));
    command.expect_exec(&["pull"], false, false, Ok(String::new()));
    command.expect_exec(&["checkout", "-b", "taken"], false, false, Err(()));
    let mut command = Session::new(command);

    assert_eq!(
        run(&mut command, "taken", "main", false),
        Err(Some("Failed to create branch".to_string()))
    );
    assert!(command.into_inner().is_satisfied());
}

#[test]
fn branch_reports_each_early_failure() {
    let mut command = MockCmd::new();
    command.expect_exec(&["status", "--porcelain"], false, false, Err(()));
    let mut command = Session::new(command);
    assert_eq!(
        run(&mut command, "x", "main", false),
        Err(Some("Failed to retrieve branch status".to_string()))
    );
    assert!(command.into_inner().is_satisfied());

    let mut command = MockCmd::new();
    command.expect_exec(&["status", "--porcelain"], false, false, Ok("M a".to_string()));
    command.expect_exec(&["stash", "-u"], false, false, Err(()));
    let mut command = Session::new(command);
    assert_eq!(
        run(&mut command, "x", "main", false),
        Err(Some("Failed to stash changes".to_string()))
    );
    assert!(command.into_inner().is_satisfied());

    let mut command = MockCmd::new();
    command.expect_exec(&["status", "--porcelain"], false, false, Ok(String::new()));
    command.expect_exec(&["checkout", "main"], false, false, Ok(String::new()));
    command.expect_exec(&["pull"], false, false, Err(()));
    let mut command = Session::new(command);
    assert_eq!(
        run(&mut command, "x", "main", false),
        Err(Some("Failed to refresh base branch".to_string()))
    );
    assert!(command.into_inner().is_satisfied());

    let mut command = MockCmd::new();
    command.expect_exec(&["status", "--porcelain"], false, false, Ok("M a".to_string()));
    command.expect_exec(&["stash", "-u"], false, false, Ok(String::new()));
    command.expect_exec(&["checkout", "main"], false, false, Ok(String::new()));
    command.expect_exec(&["pull"], false, false, Ok(String::new()));
    command.expect_exec(&["checkout", "-b", "x"], false, false, Ok(String::new()));
    command.expect_exec(&["stash", "pop"], false, false, Err(()));
    let mut command = Session::new(command);
    assert_eq!(
        run(&mut command, "x", "main", false),
        Err(Some("Failed to unstash changes".to_string()))
    );
    assert!(command.into_inner().is_satisfied());
}
