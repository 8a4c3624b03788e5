use lgit::commands::delete_branch::{finish, get_branches, other_branches, run, Deletion};
use lgit::commands::{MockCmd, Session};

#[test]
fn test_get_branches_success() {
    let mut command = MockCmd::new();
    command.expect_exec(
        &["branch", "--format=%(refname:short)"],
        false,
        false,
        Ok("main\nfeature-1\nfeature-2\nbugfix-123".to_string()),
    );
    command.expect_exec(&["branch", "--show-current"], false, false, Ok("main".to_string()));
    let mut command = Session::new(command);

    let result = get_branches(&mut command, false);

    assert!(result.is_ok());
    let branches = result.unwrap();
    assert_eq!(branches.len(), 3);
    assert_eq!(branches[0], "feature-1");
    assert_eq!(branches[1], "feature-2");
    assert_eq!(branches[2], "bugfix-123");
    assert!(!branches.contains(&"main".to_string()));
    assert!(command.into_inner().is_satisfied());
}

#[test]
fn test_get_branches_failure() {
    let mut command = MockCmd::new();
    command.expect_exec(&["branch", "--format=%(refname:short)"], false, false, Err(()));
    let mut command = Session::new(command);

    let result = get_branches(&mut command, false);

    assert!(result.is_err());
    assert_eq!(result.unwrap_err(), "Failed to get list of local branches");
    assert!(command.into_inner().is_satisfied());
}

#[test]
fn test_get_branches_no_other_branches() {
    let mut command = MockCmd::new();
    command.expect_exec(
        &["branch", "--format=%(refname:short)"],
        false,
        false,
        Ok("main".to_string()),
    );
    command.expect_exec(&["branch", "--show-current"], false, false, Ok("main".to_string()));
    let mut command = Session::new(command);

    let result = get_branches(&mut command, false);

    assert!(result.is_err());
    assert_eq!(
        result.unwrap_err(),
        "No branches available for deletion (current branch is excluded)"
    );
    assert!(command.into_inner().is_satisfied());
}

#[test]
fn test_get_branches_with_verbose() {
    let mut command = MockCmd::new();
    command.expect_exec(
        &["branch", "--format=%(refname:short)"],
        true,
        false,
        Ok("main\ntest-branch".to_string()),
    );
    command.expect_exec(&["branch", "--show-current"], true, false, Ok("main".to_string()));
    let mut command = Session::new(command);

    let result = get_branches(&mut command, true);

    assert!(result.is_ok());
    let branches = result.unwrap();
    assert_eq!(branches.len(), 1);
    assert_eq!(branches[0], "test-branch");
    assert!(command.into_inner().is_satisfied());
}

#[test]
fn test_error_message_formatting() {
    // Test error message formatting with all failures
    let failed_deletions = vec!["branch1", "branch2"];
    let successful_deletions: Vec<&str> = vec![];

    let error_msg = format!(
        "Failed to delete {} branch(es): {}{}",
        failed_deletions.len(),
        failed_deletions.join(", "),
        if successful_deletions.is_empty() {
            String::new()
        } else {
            format!(
                " (successfully deleted {} others)",
                successful_deletions.len()
            )
        }
    );

    assert_eq!(error_msg, "Failed to delete 2 branch(es): branch1, branch2");

    // Test error message formatting with mixed results
    let successful_deletions = vec!["branch1"];
    let failed_deletions = vec!["branch2", "branch3"];

    let error_msg = format!(
        "Failed to delete {} branch(es): {}{}",
        failed_deletions.len(),
        failed_deletions.join(", "),
        if successful_deletions.is_empty() {
            String::new()
        } else {
            format!(
                " (successfully deleted {} others)",
                successful_deletions.len()
            )
        }
    );

    assert_eq!(
        error_msg,
        "Failed to delete 2 branch(es): branch2, branch3 (successfully deleted 1 others)"
    );
}

#[test]
fn test_deletion_with_mixed_results() {
    let mut command = MockCmd::new();

    // Setup branches
    command.expect_exec(
        &["branch", "--format=%(refname:short)"],
        false,
        false,
        Ok("main\nbranch1\nbranch2\nbranch3".to_string()),
    );
    command.expect_exec(&["branch", "--show-current"], false, false, Ok("main".to_string()));
    // The first branch is deleted, the others are not
    command.expect_exec(&["branch", "-d", "branch1"], false, false, Ok(String::new()));
    command.expect_exec(&["branch", "-d", "branch2"], false, false, Err(()));
    command.expect_exec(&["branch", "-d", "branch3"], false, false, Err(()));
    let mut command = Session::new(command);

    let branches = get_branches(&mut command, false).unwrap();
    assert_eq!(branches, vec!["branch1", "branch2", "branch3"]);

    let report = finish(&mut command, &branches, Ok(vec![0, 1, 2]), false, false).unwrap();
    assert!(command.into_inner().is_satisfied());

    let mut successful_deletions = Vec::new();
    let mut failed_deletions = Vec::new();
    for entry in &report {
        if entry.deleted {
            successful_deletions.push(entry.branch.as_str());
        } else {
            failed_deletions.push(entry.branch.as_str());
        }
    }

    // Verify error message format
    assert_eq!(successful_deletions, vec!["branch1"]);
    assert_eq!(failed_deletions, vec!["branch2", "branch3"]);

    let error_msg = format!(
        "Failed to delete {} branch(es): {}{}",
        failed_deletions.len(),
        failed_deletions.join(", "),
        if successful_deletions.is_empty() {
            String::new()
        } else {
            format!(
                " (successfully deleted {} others)",
                successful_deletions.len()
            )
        }
    );

    assert_eq!(
        error_msg,
        "Failed to delete 2 branch(es): branch2, branch3 (successfully deleted 1 others)"
    );
}

#[test]
fn each_deletion_is_reported_by_itself() {
    let branches = vec!["a".to_string(), "b".to_string(), "c".to_string()];
    let mut command = MockCmd::new();
    command.expect_exec(&["branch", "-D", "c"], false, false, Err(()));
    command.expect_exec(&["branch", "-D", "a"], false, false, Ok(String::new()));
    let mut command = Session::new(command);

    let report = finish(&mut command, &branches, Ok(vec![2, 0]), true, false).unwrap();

    assert!(command.into_inner().is_satisfied());
    assert_eq!(report.len(), 2);
    assert_eq!(report[0].branch, "c");
    assert!(!report[0].deleted);
    assert_eq!(
        report[0].message(),
        "Failed to delete branch c. Use --force to delete it."
    );
    assert_eq!(report[1].branch, "a");
    assert!(report[1].deleted);
    assert_eq!(report[1].message(), "Successfully deleted branch a");
    let alone = Deletion { branch: "x y".to_string(), deleted: true };
    assert_eq!(alone.message(), "Successfully deleted branch x y");
}

#[test]
fn no_selection_deletes_nothing() {
    let branches = vec!["a".to_string(), "b".to_string()];
    let mut command = Session::new(MockCmd::new());

    assert!(matches!(
        finish(&mut command, &branches, Ok(vec![]), false, false),
        Err(Some(message)) if message == "No branches selected from 2 available branches"
    ));
    assert!(matches!(
        finish(&mut command, &branches, Err("IO error: closed".to_string()), true, false),
        Err(Some(message)) if message == "Failed to get user selection: IO error: closed"
    ));
    assert!(command.into_inner().is_satisfied());
}

#[test]
fn a_position_that_is_not_there_deletes_nothing() {
    let branches = vec!["a".to_string(), "b".to_string()];
    let mut command = Session::new(MockCmd::new());

    assert!(matches!(
        finish(&mut command, &branches, Ok(vec![0, 2]), false, false),
        Err(Some(message)) if message == "Invalid branch selection index: 2"
    ));
    assert!(command.into_inner().is_satisfied());
}

#[test]
fn the_current_branch_and_blank_lines_are_no_candidates() {
    assert_eq!(
        other_branches("  main \n\n topic\nmain\n \t\nother  ", "main"),
        vec!["topic", "other"]
    );
    assert_eq!(other_branches("", "main"), Vec::<String>::new());
}

#[test]
fn delete_branch_run_reports_a_missing_current_branch() {
    let mut command = MockCmd::new();
    command.expect_exec(
        &["branch", "--format=%(refname:short)"],
        false,
        false,
        Ok("main\nx".to_string()),
    );
    command.expect_exec(&["branch", "--show-current"], false, false, Err(()));
    command.expect_exec(
        &["branch", "--format=%(refname:short)"],
        false,
        false,
        Ok("main\nx".to_string()),
    );
    command.expect_exec(&["branch", "--show-current"], false, false, Ok(" main\n".to_string()));
    let mut command = Session::new(command);

    assert_eq!(
        run(&mut command, false),
        Err(Some("Failed to get current branch".to_string()))
    );
    assert_eq!(run(&mut command, false), Ok(vec!["x".to_string()]));
    assert!(command.into_inner().is_satisfied());
}
