use lgit::cli::{Args, Commands, DEFAULT_NUMBER};
use lgit::commands::delete_branch::Deletion;
use lgit::commands::{MockCmd, Session};
use lgit::dispatch::{
    dispatch, render, render_deletions, resume_many, resume_one, AskMany, AskOne, Many, One,
    Report, Step,
};

fn done(step: Step) -> Report {
    match step {
        Step::Done(report) => report,
        _ => panic!("the verb should be over"),
    }
}

fn lines(text: &[&str]) -> Vec<String> {
    text.iter().map(|line| line.to_string()).collect()
}

#[test]
fn no_verb_points_to_the_help() {
    let mut command = Session::new(MockCmd::new());

    let report = done(dispatch(&mut command, Args { verbose: false, command: None }));

    assert_eq!(report.code, 1);
    assert!(report.out.is_empty());
    assert_eq!(
        report.err,
        lines(&["No command specified, please run with --help for more info"])
    );
    assert!(command.into_inner().is_satisfied());
}

#[test]
fn branch_resolves_the_base_first() {
    let mut command = MockCmd::new();
    command.expect_exec(&["branch", "-l", "main"], false, false, Ok(String::new()));
    command.expect_exec(&["branch", "-l", "master"], false, false, Ok("  master\n".to_string()));
    command.expect_exec(&["status", "--porcelain"], false, false, Ok(String::new()));
    command.expect_exec(&["checkout", "master"], false, false, Ok(String::new()));
    command.expect_exec(&["pull"], false, false, Ok(String::new()));
    command.expect_exec(&["checkout", "-b", "topic"], false, false, Ok(String::new()));
    let mut command = Session::new(command);

    let args = Args {
        verbose: false,
        command: Some(Commands::Branch { name: "topic".to_string(), base: None }),
    };
    let report = done(dispatch(&mut command, args));

    assert_eq!(report.code, 0);
    assert_eq!(report.out, lines(&["Created branch topic"]));
    assert!(report.err.is_empty());
    assert!(command.into_inner().is_satisfied());
}

#[test]
fn no_default_branch_ends_the_verb_before_it_starts() {
    let mut command = MockCmd::new();
    command.expect_exec(&["branch", "-l", "main"], true, false, Ok(String::new()));
    command.expect_exec(&["branch", "-l", "master"], true, false, Err(()));
    let mut command = Session::new(command);

    let args = Args { verbose: true, command: Some(Commands::Rebase { base: None }) };
    let report = done(dispatch(&mut command, args));

    assert_eq!(report.code, 1);
    assert_eq!(report.err, lines(&["Failed to determine default branch"]));
    assert!(command.into_inner().is_satisfied());
}

#[test]
fn an_explicit_base_is_not_probed() {
    let mut command = MockCmd::new();
    command.expect_exec(&["status", "--porcelain"], false, false, Ok(String::new()));
    command.expect_exec(&["checkout", "develop"], false, false, Ok(String::new()));
    command.expect_exec(&["pull"], false, false, Ok(String::new()));
    command.expect_exec(&["checkout", "-"], false, false, Ok(String::new()));
    command.expect_exec(&["rebase", "develop"], false, false, Ok(String::new()));
    command.expect_exec(
        &["-c", "sequence.editor=:", "rebase", "--interactive", "--autosquash", "HEAD~3"],
        false,
        false,
        Ok(String::new()),
    );
    let mut command = Session::new(command);

    let args = Args {
        verbose: false,
        command: Some(Commands::Rebase { base: Some("develop".to_string()) }),
    };
    let report = done(dispatch(&mut command, args));
    assert_eq!(report.code, 0);
    assert_eq!(report.out, lines(&["Rebased onto develop"]));

    let args = Args {
        verbose: false,
        command: Some(Commands::Autosquash { number: Some(3), base: Some("develop".to_string()) }),
    };
    let report = done(dispatch(&mut command, args));
    assert_eq!(report.code, 0);
    assert!(report.out.is_empty());
    assert!(command.into_inner().is_satisfied());
}

#[test]
fn autosquash_resolves_a_base_only_without_a_number() {
    let mut command = MockCmd::new();
    command.expect_exec(
        &["-c", "sequence.editor=:", "rebase", "--interactive", "--autosquash", "HEAD~2"],
        false,
        false,
        Ok(String::new()),
    );
    command.expect_exec(&["branch", "-l", "main"], false, false, Ok("* main".to_string()));
    command.expect_exec(
        &["-c", "sequence.editor=:", "rebase", "--interactive", "--autosquash", "main"],
        false,
        false,
        Err(()),
    );
    let mut command = Session::new(command);

    let args = Args {
        verbose: false,
        command: Some(Commands::Autosquash { number: Some(2), base: None }),
    };
    let report = done(dispatch(&mut command, args));
    assert_eq!(report.code, 0);

    let args = Args {
        verbose: false,
        command: Some(Commands::Autosquash { number: None, base: None }),
    };
    let report = done(dispatch(&mut command, args));
    assert_eq!(report.code, 1);
    assert_eq!(report.err, lines(&["Failed to auto squash commits"]));
    assert!(command.into_inner().is_satisfied());
}

#[test]
fn the_fallback_fails_without_a_message() {
    let mut command = MockCmd::new();
    command.expect_exec(&["frobnicate", "--now"], false, true, Err(()));
    let mut command = Session::new(command);

    let args = Args {
        verbose: false,
        command: Some(Commands::External(lines(&["frobnicate", "--now"]))),
    };
    let report = done(dispatch(&mut command, args));

    assert_eq!(report.code, 1);
    assert!(report.out.is_empty());
    assert!(report.err.is_empty());
    assert!(command.into_inner().is_satisfied());
}

#[test]
fn prune_prints_its_report() {
    let mut command = MockCmd::new();
    command.expect_exec(&["fetch", "--prune"], false, false, Ok(String::new()));
    command.expect_exec(
        &["branch", "-vv"],
        false,
        false,
        Ok("  old 123 [origin/old: gone] x\n".to_string()),
    );
    let mut command = Session::new(command);

    let args = Args { verbose: false, command: Some(Commands::DeleteBranches { dry_run: true }) };
    let report = done(dispatch(&mut command, args));

    assert_eq!(report.code, 0);
    assert_eq!(report.out, lines(&["Deleted branch old"]));
    assert!(command.into_inner().is_satisfied());
}

#[test]
fn checkout_asks_and_is_resumed() {
    let mut command = MockCmd::new();
    command.expect_exec(&["remote"], false, false, Ok("origin\n".to_string()));
    command.expect_exec(
        &["branch", "-r", "--format", "%(refname)"],
        false,
        false,
        Ok("refs/remotes/origin/HEAD\nrefs/remotes/origin/b\nrefs/remotes/origin/a\n".to_string()),
    );
    command.expect_exec(&["checkout", "a"], false, false, Ok(String::new()));
    let mut command = Session::new(command);

    let args = Args {
        verbose: false,
        command: Some(Commands::Checkout { name: None, remote: true, all: false }),
    };
    let ask = match dispatch(&mut command, args) {
        Step::ChooseOne(ask) => ask,
        _ => panic!("the verb should wait for a choice"),
    };
    assert!(matches!(ask.verb, One::Checkout));
    assert_eq!(ask.prompt(), "Which branch to checkout?");
    assert_eq!(ask.preselected(), 0);
    assert_eq!(ask.items, lines(&["a", "b"]));

    let report = resume_one(&mut command, ask, Ok(0));
    assert_eq!(report.code, 0);
    assert!(command.into_inner().is_satisfied());
}

#[test]
fn checkout_with_a_name_is_over_at_once() {
    let mut command = MockCmd::new();
    command.expect_exec(&["checkout", "gone"], false, false, Err(()));
    let mut command = Session::new(command);

    let args = Args {
        verbose: false,
        command: Some(Commands::Checkout {
            name: Some("gone".to_string()),
            remote: false,
            all: false,
        }),
    };
    let report = done(dispatch(&mut command, args));

    assert_eq!(report.code, 1);
    assert_eq!(report.err, lines(&["Failed to checkout branch 'gone'"]));
    assert!(command.into_inner().is_satisfied());
}

#[test]
fn fixup_asks_and_is_resumed() {
    let mut command = MockCmd::new();
    command.expect_exec(
        &["log", "--format=%h %s", "-n", "25"],
        true,
        false,
        Ok("abc One\ndef Two".to_string()),
    );
    command.expect_exec(&["commit", "--fixup", "def"], true, false, Ok(String::new()));
    let mut command = Session::new(command);

    let args = Args { verbose: true, command: Some(Commands::Fixup { number: DEFAULT_NUMBER }) };
    let ask = match dispatch(&mut command, args) {
        Step::ChooseOne(ask) => ask,
        _ => panic!("the verb should wait for a choice"),
    };
    assert!(matches!(ask.verb, One::Fixup));
    assert!(ask.verbose);
    assert_eq!(ask.prompt(), "Which commit you want to fix?");

    let report = resume_one(&mut command, ask, Ok(1));
    assert_eq!(report.code, 0);
    assert!(command.into_inner().is_satisfied());

    let mut idle = Session::new(MockCmd::new());
    let ask = AskOne { verb: One::Fixup, items: lines(&["abc One"]), verbose: false };
    let report = resume_one(&mut idle, ask, Err("read interrupted".to_string()));
    assert_eq!(report.code, 1);
    assert_eq!(report.err, lines(&["Failed to select commit: read interrupted"]));
    assert!(idle.into_inner().is_satisfied());
}

#[test]
fn cherry_pick_asks_and_is_resumed() {
    let mut command = MockCmd::new();
    command.expect_exec(
        &["log", "dev", "--pretty=format:%h %s", "-n 3"],
        false,
        false,
        Ok("c3 Three\nb2 Two\na1 One".to_string()),
    );
    command.expect_exec(&["cherry-pick", "a1"], false, false, Ok(String::new()));
    command.expect_exec(&["cherry-pick", "c3"], false, false, Ok(String::new()));
    let mut command = Session::new(command);

    let args = Args {
        verbose: false,
        command: Some(Commands::CherryPick { branch: "dev".to_string(), number: 3 }),
    };
    let ask = match dispatch(&mut command, args) {
        Step::ChooseMany(ask) => ask,
        _ => panic!("the verb should wait for a choice"),
    };
    assert_eq!(
        ask.prompt(),
        "Select commits to cherry-pick (use space to select, enter to confirm)"
    );

    let report = resume_many(&mut command, ask, Ok(vec![0, 2]));
    assert_eq!(report.code, 0);
    assert!(report.out.is_empty() && report.err.is_empty());
    assert!(command.into_inner().is_satisfied());
}

#[test]
fn delete_branch_reports_each_branch_on_its_channel() {
    let mut command = MockCmd::new();
    command.expect_exec(
        &["branch", "--format=%(refname:short)"],
        false,
        false,
        Ok("main\none\ntwo\nthree\n".to_string()),
    );
    command.expect_exec(&["branch", "--show-current"], false, false, Ok("main\n".to_string()));
    command.expect_exec(&["branch", "-D", "one"], false, false, Ok(String::new()));
    command.expect_exec(&["branch", "-D", "two"], false, false, Err(()));
    command.expect_exec(&["branch", "-D", "three"], false, false, Ok(String::new()));
    let mut command = Session::new(command);

    let args = Args { verbose: false, command: Some(Commands::DeleteBranch { force: true }) };
    let ask = match dispatch(&mut command, args) {
        Step::ChooseMany(ask) => ask,
        _ => panic!("the verb should wait for a choice"),
    };
    assert!(matches!(ask.verb, Many::DeleteBranch { force: true }));
    assert_eq!(
        ask.prompt(),
        "Select branches to delete (use space to select, enter to confirm)"
    );
    assert_eq!(ask.items, lines(&["one", "two", "three"]));

    let report = resume_many(&mut command, ask, Ok(vec![0, 1, 2]));
    assert_eq!(report.code, 0);
    assert_eq!(
        report.out,
        lines(&["Successfully deleted branch one", "Successfully deleted branch three"])
    );
    assert_eq!(
        report.err,
        lines(&["Failed to delete branch two. Use --force to delete it."])
    );
    assert!(command.into_inner().is_satisfied());

    let mut idle = Session::new(MockCmd::new());
    let ask = AskMany {
        verb: Many::DeleteBranch { force: false },
        items: lines(&["one"]),
        verbose: false,
    };
    let report = resume_many(&mut idle, ask, Ok(vec![]));
    assert_eq!(report.code, 1);
    assert_eq!(report.err, lines(&["No branches selected from 1 available branches"]));
}

#[test]
fn a_failed_listing_ends_an_asking_verb() {
    let mut command = MockCmd::new();
    command.expect_exec(&["log", "--format=%h %s", "-n", "2"], false, false, Err(()));
    command.expect_exec(&["log", "x", "--pretty=format:%h %s", "-n 2"], false, false, Err(()));
    command.expect_exec(&["branch", "--format=%(refname:short)"], false, false, Err(()));
    command.expect_exec(&["remote"], false, false, Err(()));
    let mut command = Session::new(command);

    let verbs = vec![
        (Commands::Fixup { number: 2 }, "Failed to fetch git log (last 2 commits)"),
        (
            Commands::CherryPick { branch: "x".to_string(), number: 2 },
            "Failed to get commit history",
        ),
        (Commands::DeleteBranch { force: false }, "Failed to get list of local branches"),
        (
            Commands::Checkout { name: None, remote: false, all: false },
            "Failed to get git remotes (check network connection)",
        ),
    ];
    for (verb, message) in verbs {
        let report = done(dispatch(&mut command, Args { verbose: false, command: Some(verb) }));
        assert_eq!(report.code, 1);
        assert_eq!(report.err, lines(&[message]));
    }
    assert!(command.into_inner().is_satisfied());
}

#[test]
fn rendering_by_outcome() {
    let report = render(Ok(Some("done".to_string())));
    assert_eq!((report.code, report.out, report.err), (0, lines(&["done"]), lines(&[])));
    let report = render(Ok(None));
    assert_eq!((report.code, report.out, report.err), (0, lines(&[]), lines(&[])));
    let report = render(Err(Some("broken".to_string())));
    assert_eq!((report.code, report.out, report.err), (1, lines(&[]), lines(&["broken"])));
    let report = render(Err(None));
    assert_eq!((report.code, report.out, report.err), (1, lines(&[]), lines(&[])));

    let report = render_deletions(&vec![
        Deletion { branch: "a".to_string(), deleted: false },
        Deletion { branch: "b".to_string(), deleted: true },
        Deletion { branch: "c".to_string(), deleted: false },
    ]);
    assert_eq!(report.code, 0);
    assert_eq!(report.out, lines(&["Successfully deleted branch b"]));
    assert_eq!(
        report.err,
        lines(&[
            "Failed to delete branch a. Use --force to delete it.",
            "Failed to delete branch c. Use --force to delete it.",
        ])
    );
}
