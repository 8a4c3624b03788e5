use lgit::commands::{MockCmd, Session};
use lgit::utils::{get_base, get_default_branch, refresh_base, search_branch, stash, unstash};

fn cmd_branch_not_found() -> MockCmd {
    let mut command = MockCmd::new();
    command.expect_exec(&["branch", "-l", "main"], false, false, Ok(String::new()));
    command
}

fn cmd_branch_main_found() -> MockCmd {
    let mut command = MockCmd::new();
    command.expect_exec(&["branch", "-l", "main"], false, false, Ok("* main".to_string()));
    command
}

fn cmd_default_branch_master_found() -> MockCmd {
    let mut command = cmd_branch_not_found();
    command.expect_exec(&["branch", "-l", "master"], false, false, Ok("* master".to_string()));
    command
}

fn cmd_checkout_main() -> MockCmd {
    let mut command = MockCmd::new();
    command.expect_exec(&["checkout", "main"], false, false, Ok(String::new()));
    command
}

#[test]
fn test_get_default_branch_main() {
    let mut command = Session::new(cmd_branch_main_found());
    let branch = get_default_branch(&mut command, false);

    assert_eq!(branch, Ok("main"));
    assert!(command.into_inner().is_satisfied());
}

#[test]
fn test_get_default_branch_master() {
    let mut command = Session::new(cmd_default_branch_master_found());
    let branch = get_default_branch(&mut command, false);

    assert_eq!(branch, Ok("master"));
    assert!(command.into_inner().is_satisfied());
}

#[test]
fn test_get_base_default_to_main() {
    let mut command = Session::new(cmd_branch_main_found());
    let base = get_base(&mut command, None, false);

    assert_eq!(base, Ok("main".to_string()));
    assert!(command.into_inner().is_satisfied());
}

#[test]
fn test_get_base_default_to_master() {
    let mut command = Session::new(cmd_default_branch_master_found());
    let base = get_base(&mut command, None, false);

    assert_eq!(base, Ok("master".to_string()));
    assert!(command.into_inner().is_satisfied());
}

#[test]
fn test_get_base_supplied_base() {
    let mut command = Session::new(MockCmd::new());
    let base = get_base(&mut command, Some("test".to_string()), false);

    assert_eq!(base, Ok("test".to_string()));
    assert!(command.into_inner().is_satisfied());
}

#[test]
fn test_refresh_base_success() {
    let mut command = cmd_checkout_main();
    command.expect_exec(&["pull"], false, false, Ok(String::new()));
    let mut command = Session::new(command);

    let result = refresh_base(&mut command, "main", false);

    assert!(result.is_ok());
    assert!(command.into_inner().is_satisfied());
}

#[test]
fn test_refresh_base_checkout_failure() {
    let mut command = MockCmd::new();
    command.expect_exec(&["checkout", "main"], false, false, Err(()));
    let mut command = Session::new(command);

    let result = refresh_base(&mut command, "main", false);

    assert!(result.is_err());
    assert!(command.into_inner().is_satisfied());
}

#[test]
fn test_refresh_base_pull_failure() {
    let mut command = cmd_checkout_main();
    command.expect_exec(&["pull"], false, false, Err(()));
    let mut command = Session::new(command);

    let result = refresh_base(&mut command, "main", false);

    assert!(result.is_err());
    assert!(command.into_inner().is_satisfied());
}

#[test]
fn test_search_branch_found() {
    let mut command = Session::new(cmd_branch_main_found());
    let result = search_branch(&mut command, "main", false);

    assert!(result.is_ok());
    assert!(command.into_inner().is_satisfied());
}

#[test]
fn test_search_branch_not_found() {
    let mut command = Session::new(cmd_branch_not_found());
    let result = search_branch(&mut command, "main", false);

    assert!(result.is_err());
    assert!(command.into_inner().is_satisfied());
}

#[test]
fn stash_leaves_a_clean_tree_alone() {
    let mut command = MockCmd::new();
    command.expect_exec(&["status", "--porcelain"], false, false, Ok(String::new()));
    let mut command = Session::new(command);

    assert_eq!(stash(&mut command, false), Ok(false));
    assert!(command.into_inner().is_satisfied());
}

#[test]
fn stash_saves_a_dirty_tree_once() {
    let mut command = MockCmd::new();
    command.expect_exec(&["status", "--porcelain"], true, false, Ok(" M file.txt\n".to_string()));
    command.expect_exec(&["stash", "-u"], true, false, Ok("Saved".to_string()));
    let mut command = Session::new(command);

    assert_eq!(stash(&mut command, true), Ok(true));
    assert!(command.into_inner().is_satisfied());
}

#[test]
fn unstash_reports_failure() {
    let mut command = MockCmd::new();
    command.expect_exec(&["stash", "pop"], false, false, Err(()));
    let mut command = Session::new(command);

    assert_eq!(unstash(&mut command, false), Err("Failed to unstash changes".to_string()));
    assert!(command.into_inner().is_satisfied());
}

#[test]
fn search_branch_tells_a_failed_listing_from_an_empty_one() {
    let mut command = MockCmd::new();
    command.expect_exec(&["branch", "-l", "topic"], false, false, Err(()));
    command.expect_exec(&["branch", "-l", "topic"], false, false, Ok(String::new()));
    command.expect_exec(&["branch", "-l", "topic"], false, false, Ok("  topic\n".to_string()));
    let mut command = Session::new(command);

    assert_eq!(
        search_branch(&mut command, "topic", false),
        Err("Failed to list branch".to_string())
    );
    assert_eq!(
        search_branch(&mut command, "topic", false),
        Err("Branch not found".to_string())
    );
    assert_eq!(search_branch(&mut command, "topic", false), Ok(()));
    assert!(command.into_inner().is_satisfied());
}

#[test]
fn neither_conventional_name_is_fatal() {
    let mut command = MockCmd::new();
    command.expect_exec(&["branch", "-l", "main"], false, false, Err(()));
    command.expect_exec(&["branch", "-l", "master"], false, false, Ok(String::new()));
    let mut command = Session::new(command);

    assert_eq!(
        get_base(&mut command, None, false),
        Err("Failed to determine default branch".to_string())
    );
    assert!(command.into_inner().is_satisfied());
}

#[test]
fn a_failed_stash_is_reported() {
    let mut command = MockCmd::new();
    command.expect_exec(&["status", "--porcelain"], false, false, Ok("?? x".to_string()));
    command.expect_exec(&["stash", "-u"], false, false, Err(()));
    command.expect_exec(&["status", "--porcelain"], false, false, Err(()));
    command.expect_exec(&["stash", "pop"], false, false, Ok(String::new()));
    let mut command = Session::new(command);

    assert_eq!(stash(&mut command, false), Err("Failed to stash changes".to_string()));
    assert_eq!(stash(&mut command, false), Err("Failed to retrieve branch status".to_string()));
    assert_eq!(unstash(&mut command, false), Ok(()));
    assert!(command.into_inner().is_satisfied());
}

#[test]
fn refresh_base_gives_the_base_back() {
    let mut command = MockCmd::new();
    command.expect_exec(&["checkout", "release/1.2"], true, false, Ok(String::new()));
    command.expect_exec(&["pull"], true, false, Ok("Already up to date.".to_string()));
    let mut command = Session::new(command);

    assert_eq!(refresh_base(&mut command, "release/1.2", true), Ok("release/1.2"));
    assert!(command.into_inner().is_satisfied());
}
