use lgit::commands::batch::{run_all, run_each};
use lgit::commands::choice::pick;
use lgit::commands::{echo, reply, Exec, MockCmd, Session};

#[test]
fn the_double_serves_its_script_in_order() {
    let mut mock = MockCmd::new();
    assert!(mock.is_satisfied());
    mock.expect_exec(&["a", "b"], false, false, Ok("first".to_string()));
    mock.expect_exec(&["c"], true, true, Err(()));
    assert!(!mock.is_satisfied());

    assert_eq!(mock.exec(&["a", "b"], false, false), Ok("first".to_string()));
    assert!(!mock.is_satisfied());
    assert_eq!(mock.exec(&["c"], true, true), Err(()));
    assert!(mock.is_satisfied());
}

#[test]
fn the_double_remembers_a_stray_call() {
    for (args, verbose, inherit) in [
        (vec!["a"], false, false),
        (vec!["a", "b", "c"], false, false),
        (vec!["a", "x"], false, false),
        (vec!["a", "b"], true, false),
        (vec!["a", "b"], false, true),
    ] {
        let mut mock = MockCmd::new();
        mock.expect_exec(&["a", "b"], false, false, Ok("text".to_string()));
        assert_eq!(mock.exec(&args, verbose, inherit), Err(()));
        assert!(!mock.is_satisfied());
        // Once strayed, nothing is served any more.
        assert_eq!(mock.exec(&["a", "b"], false, false), Err(()));
        assert!(!mock.is_satisfied());
    }

    let mut mock = MockCmd::new();
    assert_eq!(mock.exec(&["anything"], false, false), Err(()));
    assert!(!mock.is_satisfied());
}

#[test]
fn the_double_captures_nothing_from_inherited_streams() {
    let mut mock = MockCmd::new();
    mock.expect_exec(&["log"], false, true, Ok("not captured".to_string()));
    mock.expect_exec(&["log"], false, false, Ok("captured".to_string()));
    mock.expect_exec(&["log"], false, true, Err(()));

    assert_eq!(mock.exec(&["log"], false, true), Ok(String::new()));
    assert_eq!(mock.exec(&["log"], false, false), Ok("captured".to_string()));
    assert_eq!(mock.exec(&["log"], false, true), Err(()));
    assert!(mock.is_satisfied());
}

#[test]
fn the_session_passes_calls_through() {
    let mut mock = MockCmd::new();
    mock.expect_exec(&["version"], false, false, Ok("git version 2".to_string()));
    let mut session = Session::new(mock);

    assert_eq!(session.exec(&["version"], false, false), Ok("git version 2".to_string()));
    assert!(session.into_inner().is_satisfied());
}

#[test]
fn the_echo_names_the_tool_and_its_arguments() {
    assert_eq!(echo(&["status", "--short"]), "Executing: git status --short\n");
    assert_eq!(echo(&["commit", "-m", "two words"]), "Executing: git commit -m two words\n");
    assert_eq!(echo(&["pull"]), "Executing: git pull\n");
    assert_eq!(echo(&[]), "Executing: git \n");
}

#[test]
fn inherited_streams_never_yield_text() {
    assert_eq!(reply(true, true, "ignored".to_string()), Ok(String::new()));
    assert_eq!(reply(true, true, String::new()), Ok(String::new()));
    assert_eq!(reply(true, false, "ignored".to_string()), Err(()));
    assert_eq!(reply(false, true, "git version 2\n".to_string()), Ok("git version 2\n".to_string()));
    assert_eq!(reply(false, true, String::new()), Ok(String::new()));
    assert_eq!(reply(false, false, "partial".to_string()), Err(()));
}

#[test]
fn a_batch_stops_or_goes_on() {
    let items = vec!["a".to_string(), "b".to_string(), "c".to_string()];

    let mut mock = MockCmd::new();
    mock.expect_exec(&["branch", "-D", "a"], false, false, Ok(String::new()));
    mock.expect_exec(&["branch", "-D", "b"], false, false, Err(()));
    let mut session = Session::new(mock);
    assert_eq!(run_each(&mut session, &["branch", "-D"], &items, false), Some(1));
    assert!(session.into_inner().is_satisfied());

    let mut mock = MockCmd::new();
    mock.expect_exec(&["x", "a"], true, false, Ok(String::new()));
    mock.expect_exec(&["x", "b"], true, false, Ok(String::new()));
    mock.expect_exec(&["x", "c"], true, false, Ok(String::new()));
    let mut session = Session::new(mock);
    assert_eq!(run_each(&mut session, &["x"], &items, true), None);
    assert!(session.into_inner().is_satisfied());

    let mut mock = MockCmd::new();
    mock.expect_exec(&["branch", "-d", "a"], false, false, Err(()));
    mock.expect_exec(&["branch", "-d", "b"], false, false, Ok(String::new()));
    mock.expect_exec(&["branch", "-d", "c"], false, false, Err(()));
    let mut session = Session::new(mock);
    assert_eq!(
        run_all(&mut session, &["branch", "-d"], &items, false),
        vec![false, true, false]
    );
    assert!(session.into_inner().is_satisfied());

    let mut session = Session::new(MockCmd::new());
    assert_eq!(run_each(&mut session, &["x"], &vec![], false), None);
    assert_eq!(run_all(&mut session, &["x"], &vec![], false), Vec::<bool>::new());
    assert!(session.into_inner().is_satisfied());
}

#[test]
fn picking_by_position() {
    let items = vec!["a".to_string(), "b".to_string(), "c".to_string()];

    assert_eq!(pick(&items, &vec![2, 0, 2]), Ok(vec!["c".to_string(), "a".to_string(), "c".to_string()]));
    assert_eq!(pick(&items, &vec![]), Ok(vec![]));
    assert_eq!(pick(&items, &vec![1, 3, 9]), Err(3));
    assert_eq!(pick(&vec![], &vec![0]), Err(0));
}
