//! The dispatcher: from the validated command line to the verb, and from the
//! verb's outcome to what is shown and how the process exits.
//!
//! A verb that needs a choice made at the terminal does not make it. The
//! dispatcher hands back the list to choose from, and is resumed with the
//! answer.

use crate::cli::{Args, Commands};
use crate::commands::{
    after, autosquash, branch, checkout, cherry_pick, delete_branch, delete_branches, ending, fixup,
    git_fallback, heard, lemma_since_add, lemma_start, performed, rebase, then, Exec, Plan, Reply,
    Session,
};
use crate::commands::choice::{answer_of, answers_of};
use crate::commands::delete_branch::{deletion_line, Deletion};
use crate::text::texts;
use crate::utils::{base_plan, found, get_base, lemma_base_plan_frame, probe};
use crate::views::{failure, option_text, summary};
use vstd::prelude::*;

verus! {

/// What a finished verb leaves for the process to do: the lines for the
/// output, the lines for the error channel, and the exit code.
pub struct Report {
    pub code: i32,
    pub out: Vec<String>,
    pub err: Vec<String>,
}

/// A report as the plans speak of it.
pub struct Shown {
    pub code: int,
    pub out: Seq<Seq<char>>,
    pub err: Seq<Seq<char>>,
}

impl Report {
    /// The report with its lines as texts.
    pub open spec fn view(&self) -> Shown {
        Shown { code: self.code as int, out: texts(self.out@), err: texts(self.err@) }
    }
}

/// Success exits with zero and prints the summary, where there is one.
/// Failure exits with one and prints the message, where there is one, to the
/// error channel.
pub open spec fn shown(outcome: Result<Option<Seq<char>>, Option<Seq<char>>>) -> Shown {
    match outcome {
        Ok(Some(text)) => Shown { code: 0, out: seq![text], err: seq![] },
        Ok(None) => Shown { code: 0, out: seq![], err: seq![] },
        Err(Some(message)) => Shown { code: 1, out: seq![], err: seq![message] },
        Err(None) => Shown { code: 1, out: seq![], err: seq![] },
    }
}

/// A verb's outcome with its summary and message as texts.
pub open spec fn outcome_of(outcome: Result<Option<String>, Option<String>>) -> Result<
    Option<Seq<char>>,
    Option<Seq<char>>,
> {
    match outcome {
        Ok(text) => Ok(option_text(text)),
        Err(message) => Err(option_text(message)),
    }
}

/// The report for a verb's outcome.
pub fn render(outcome: Result<Option<String>, Option<String>>) -> (report: Report)
    ensures
        report@ == shown(outcome_of(outcome)),
{
    let mut out: Vec<String> = Vec::new();
    let mut err: Vec<String> = Vec::new();
    let code: i32 = match outcome {
        Ok(text) => {
            match text {
                Some(text) => {
                    out.push(text);
                },
                None => {},
            }
            0
        },
        Err(message) => {
            match message {
                Some(message) => {
                    err.push(message);
                },
                None => {},
            }
            1
        },
    };
    let report = Report { code, out, err };
    assert(report@.out =~= shown(outcome_of(outcome)).out);
    assert(report@.err =~= shown(outcome_of(outcome)).err);
    report
}

/// The lines of the branches that fared as `deleted` says, in their order.
pub open spec fn lines_for(report: Seq<(Seq<char>, bool)>, deleted: bool) -> Seq<Seq<char>>
    decreases report.len(),
{
    if report.len() == 0 {
        seq![]
    } else if report.last().1 == deleted {
        lines_for(report.drop_last(), deleted).push(deletion_line(report.last().0, deleted))
    } else {
        lines_for(report.drop_last(), deleted)
    }
}

/// Each deleted branch is reported on the output and each that could not be
/// deleted on the error channel; the exit code is zero either way.
pub open spec fn deletions_shown(report: Seq<(Seq<char>, bool)>) -> Shown {
    Shown { code: 0, out: lines_for(report, true), err: lines_for(report, false) }
}

/// What became of each chosen branch.
pub open spec fn fates(report: Seq<Deletion>) -> Seq<(Seq<char>, bool)> {
    Seq::new(report.len(), |k: int| report[k]@)
}

/// The report for the deletions of chosen branches.
pub fn render_deletions(report: &Vec<Deletion>) -> (shown: Report)
    ensures
        shown@ == deletions_shown(fates(report@)),
{
    let mut out: Vec<String> = Vec::new();
    let mut err: Vec<String> = Vec::new();
    let mut i: usize = 0;
    while i < report.len()
        invariant
            i <= report@.len(),
            texts(out@) == lines_for(fates(report@).take(i as int), true),
            texts(err@) == lines_for(fates(report@).take(i as int), false),
        decreases report@.len() - i,
    {
        proof {
            let upto = fates(report@).take(i + 1);
            assert(upto.drop_last() =~= fates(report@).take(i as int));
        }
        let line = report[i].message();
        if report[i].deleted {
            out.push(line);
        } else {
            err.push(line);
        }
        i += 1;
    }
    assert(fates(report@).take(report@.len() as int) =~= fates(report@));
    Report { code: 0, out, err }
}

/// The verbs that ask for one entry of a list.
pub enum One {
    Checkout,
    Fixup,
}

/// The verbs that ask for any number of entries of a list.
pub enum Many {
    CherryPick,
    DeleteBranch { force: bool },
}

/// A verb that waits for one entry of `items` to be chosen.
pub struct AskOne {
    pub verb: One,
    pub items: Vec<String>,
    pub verbose: bool,
}

/// A verb that waits for some entries of `items` to be chosen.
pub struct AskMany {
    pub verb: Many,
    pub items: Vec<String>,
    pub verbose: bool,
}

impl AskOne {
    /// The entry on which the list opens: the first.
    pub fn preselected(&self) -> (at: usize)
        ensures
            at == 0,
    {
        0
    }

    /// What the person at the terminal is asked.
    pub fn prompt(&self) -> (text: &'static str)
        ensures
            text@ == match self.verb {
                One::Checkout => "Which branch to checkout?"@,
                One::Fixup => "Which commit you want to fix?"@,
            },
    {
        match self.verb {
            One::Checkout => "Which branch to checkout?",
            One::Fixup => "Which commit you want to fix?",
        }
    }
}

impl AskMany {
    /// What the person at the terminal is asked.
    pub fn prompt(&self) -> (text: &'static str)
        ensures
            text@ == match self.verb {
                Many::CherryPick =>
                    "Select commits to cherry-pick (use space to select, enter to confirm)"@,
                Many::DeleteBranch { .. } =>
                    "Select branches to delete (use space to select, enter to confirm)"@,
            },
    {
        match self.verb {
            Many::CherryPick =>
                "Select commits to cherry-pick (use space to select, enter to confirm)",
            Many::DeleteBranch { .. } =>
                "Select branches to delete (use space to select, enter to confirm)",
        }
    }
}

/// Where a verb stands after the dispatcher ran it as far as it goes without
/// a choice.
pub enum Step {
    Done(Report),
    ChooseOne(AskOne),
    ChooseMany(AskMany),
}

/// A step as the plans speak of it.
#[allow(inconsistent_fields)]
pub enum Next {
    Done(Shown),
    ChooseOne { verb: One, items: Seq<Seq<char>>, verbose: bool },
    ChooseMany { verb: Many, items: Seq<Seq<char>>, verbose: bool },
}

impl Step {
    /// The step with its lists as sequences of texts.
    pub open spec fn view(&self) -> Next {
        match self {
            Step::Done(report) => Next::Done(report@),
            Step::ChooseOne(ask) => Next::ChooseOne {
                verb: ask.verb,
                items: texts(ask.items@),
                verbose: ask.verbose,
            },
            Step::ChooseMany(ask) => Next::ChooseMany {
                verb: ask.verb,
                items: texts(ask.items@),
                verbose: ask.verbose,
            },
        }
    }
}

/// The end of a verb that reports nothing on success.
pub open spec fn quietly(outcome: Result<(), Option<Seq<char>>>) -> Next {
    Next::Done(
        shown(
            match outcome {
                Ok(_) => Ok(None),
                Err(e) => Err(e),
            },
        ),
    )
}

/// The end of a verb that reports a summary on success.
pub open spec fn aloud(outcome: Result<Seq<char>, Option<Seq<char>>>) -> Next {
    Next::Done(
        shown(
            match outcome {
                Ok(text) => Ok(Some(text)),
                Err(e) => Err(e),
            },
        ),
    )
}

/// The end of a verb for which the base cannot be resolved.
pub open spec fn no_base(message: Seq<char>) -> Next {
    Next::Done(shown(Err(Some(message))))
}

/// What the dispatcher does for a command line: resolve the base where the
/// verb works from one, then run the verb as far as it goes without a
/// choice. An autosquash over a number of commits works from no base.
/// Without a verb, nothing is run and the user is pointed to the help.
pub open spec fn dispatch_plan(replies: Seq<Reply>, args: Args) -> Plan<Next> {
    let verbose = args.verbose;
    match args.command {
        None => Plan {
            calls: seq![],
            result: Next::Done(
                shown(Err(Some("No command specified, please run with --help for more info"@))),
            ),
        },
        Some(Commands::Autosquash { number, base }) => if number is Some {
            let verb = autosquash::autosquash_plan(replies, Seq::empty(), number, verbose);
            ending(verb, quietly(verb.result))
        } else {
            let resolve = base_plan(replies, option_text(base), verbose);
            match resolve.result {
                Err(e) => ending(resolve, no_base(e)),
                Ok(name) => then(resolve, {
                    let verb = autosquash::autosquash_plan(
                        after(replies, resolve),
                        name,
                        number,
                        verbose,
                    );
                    ending(verb, quietly(verb.result))
                }),
            }
        },
        Some(Commands::Branch { name, base }) => {
            let resolve = base_plan(replies, option_text(base), verbose);
            match resolve.result {
                Err(e) => ending(resolve, no_base(e)),
                Ok(from) => then(resolve, {
                    let verb = branch::branch_plan(after(replies, resolve), name@, from, verbose);
                    ending(verb, aloud(verb.result))
                }),
            }
        },
        Some(Commands::Rebase { base }) => {
            let resolve = base_plan(replies, option_text(base), verbose);
            match resolve.result {
                Err(e) => ending(resolve, no_base(e)),
                Ok(onto) => then(resolve, {
                    let verb = rebase::rebase_plan(after(replies, resolve), onto, verbose);
                    ending(verb, aloud(verb.result))
                }),
            }
        },
        Some(Commands::Checkout { name, remote, all }) => {
            let verb = checkout::run_plan(replies, option_text(name), remote, all, verbose);
            ending(
                verb,
                match verb.result {
                    Ok(None) => Next::Done(shown(Ok(None))),
                    Ok(Some(items)) => Next::ChooseOne { verb: One::Checkout, items, verbose },
                    Err(e) => Next::Done(shown(Err(e))),
                },
            )
        },
        Some(Commands::DeleteBranches { dry_run }) => {
            let verb = delete_branches::prune_plan(replies, dry_run, verbose);
            ending(
                verb,
                Next::Done(
                    shown(
                        match verb.result {
                            Ok(text) => Ok(Some(text)),
                            Err(e) => Err(Some(e)),
                        },
                    ),
                ),
            )
        },
        Some(Commands::Fixup { number }) => {
            let verb = fixup::log_plan(replies, number, verbose);
            ending(
                verb,
                match verb.result {
                    Ok(items) => Next::ChooseOne { verb: One::Fixup, items, verbose },
                    Err(e) => Next::Done(shown(Err(Some(e)))),
                },
            )
        },
        Some(Commands::CherryPick { branch, number }) => {
            let verb = cherry_pick::commits_plan(replies, branch@, number, verbose);
            ending(
                verb,
                match verb.result {
                    Ok(items) => Next::ChooseMany { verb: Many::CherryPick, items, verbose },
                    Err(e) => Next::Done(shown(Err(Some(e)))),
                },
            )
        },
        Some(Commands::DeleteBranch { force }) => {
            let verb = delete_branch::branches_plan(replies, verbose);
            ending(
                verb,
                match verb.result {
                    Ok(items) => Next::ChooseMany {
                        verb: Many::DeleteBranch { force },
                        items,
                        verbose,
                    },
                    Err(e) => Next::Done(shown(Err(Some(e)))),
                },
            )
        },
        Some(Commands::External(raw)) => {
            let verb = git_fallback::passthrough_plan(replies, texts(raw@), verbose);
            ending(verb, quietly(verb.result))
        },
    }
}

fn quiet(outcome: Result<(), Option<String>>) -> (step: Step)
    ensures
        step@ == quietly(failure(outcome)),
{
    Step::Done(
        render(
            match outcome {
                Ok(_) => Ok(None),
                Err(e) => Err(e),
            },
        ),
    )
}

fn loud(outcome: Result<String, Option<String>>) -> (step: Step)
    ensures
        step@ == aloud(summary(outcome)),
{
    Step::Done(
        render(
            match outcome {
                Ok(text) => Ok(Some(text)),
                Err(e) => Err(e),
            },
        ),
    )
}

fn failed(message: String) -> (step: Step)
    ensures
        step@ == no_base(message@),
{
    Step::Done(render(Err(Some(message))))
}

/// Runs the verb of a command line as far as it goes without a choice.
pub fn dispatch<T: Exec>(command: &mut Session<T>, args: Args) -> (step: Step)
    ensures
        performed(
            old(command).history(),
            final(command).history(),
            dispatch_plan(heard(old(command).history(), final(command).history()), args),
            step@,
        ),
{
    let ghost h0 = command.history();
    let verbose = args.verbose;
    match args.command {
        None => {
            proof {
                lemma_start(h0);
            }
            failed("No command specified, please run with --help for more info".to_owned())
        },
        Some(Commands::Autosquash { number, base }) => {
            if number.is_some() {
                // The rewrite goes back a number of commits: no base is read.
                return quiet(autosquash::run(command, "", number, verbose));
            }
            let ghost wanted = option_text(base);
            let resolved = get_base(command, base, verbose);
            let ghost h1 = command.history();
            match resolved {
                Err(e) => failed(e),
                Ok(name) => {
                    let outcome = autosquash::run(command, name.as_str(), number, verbose);
                    proof {
                        lemma_since_add(h0, h1, command.history());
                        lemma_base_plan_frame(
                            heard(h0, h1),
                            heard(h1, command.history()),
                            wanted,
                            verbose,
                        );
                    }
                    quiet(outcome)
                },
            }
        },
        Some(Commands::Branch { name, base }) => {
            let ghost wanted = option_text(base);
            let resolved = get_base(command, base, verbose);
            let ghost h1 = command.history();
            match resolved {
                Err(e) => failed(e),
                Ok(from) => {
                    let outcome = branch::run(command, name.as_str(), from.as_str(), verbose);
                    proof {
                        lemma_since_add(h0, h1, command.history());
                        lemma_base_plan_frame(
                            heard(h0, h1),
                            heard(h1, command.history()),
                            wanted,
                            verbose,
                        );
                    }
                    loud(outcome)
                },
            }
        },
        Some(Commands::Rebase { base }) => {
            let ghost wanted = option_text(base);
            let resolved = get_base(command, base, verbose);
            let ghost h1 = command.history();
            match resolved {
                Err(e) => failed(e),
                Ok(onto) => {
                    let outcome = rebase::run(command, onto.as_str(), verbose);
                    proof {
                        lemma_since_add(h0, h1, command.history());
                        lemma_base_plan_frame(
                            heard(h0, h1),
                            heard(h1, command.history()),
                            wanted,
                            verbose,
                        );
                    }
                    loud(outcome)
                },
            }
        },
        Some(Commands::Checkout { name, remote, all }) => {
            match checkout::run(command, name, remote, all, verbose) {
                Ok(checkout::Checkout::Done) => Step::Done(render(Ok(None))),
                Ok(checkout::Checkout::Choose(items)) => Step::ChooseOne(
                    AskOne { verb: One::Checkout, items, verbose },
                ),
                Err(e) => Step::Done(render(Err(e))),
            }
        },
        Some(Commands::DeleteBranches { dry_run }) => {
            match delete_branches::delete_branches(command, dry_run, verbose) {
                Ok(text) => Step::Done(render(Ok(Some(text)))),
                Err(e) => Step::Done(render(Err(Some(e)))),
            }
        },
        Some(Commands::Fixup { number }) => {
            match fixup::get_log(command, number, verbose) {
                Ok(items) => Step::ChooseOne(AskOne { verb: One::Fixup, items, verbose }),
                Err(e) => Step::Done(render(Err(Some(e)))),
            }
        },
        Some(Commands::CherryPick { branch, number }) => {
            match cherry_pick::get_commits(command, branch.as_str(), number, verbose) {
                Ok(items) => Step::ChooseMany(AskMany { verb: Many::CherryPick, items, verbose }),
                Err(e) => Step::Done(render(Err(Some(e)))),
            }
        },
        Some(Commands::DeleteBranch { force }) => {
            match delete_branch::get_branches(command, verbose) {
                Ok(items) => Step::ChooseMany(
                    AskMany { verb: Many::DeleteBranch { force }, items, verbose },
                ),
                Err(e) => Step::Done(render(Err(Some(e)))),
            }
        },
        Some(Commands::External(raw)) => {
            quiet(git_fallback::run(command, raw.as_slice(), verbose))
        },
    }
}

/// What a verb that waited for one entry does with the answer.
pub open spec fn resume_one_plan(
    replies: Seq<Reply>,
    verb: One,
    items: Seq<Seq<char>>,
    verbose: bool,
    answer: Result<int, Seq<char>>,
) -> Plan<Shown> {
    match verb {
        One::Checkout => {
            let rest = checkout::finish_plan(replies, items, answer, verbose);
            ending(rest, shown(match rest.result {
                Ok(_) => Ok(None),
                Err(e) => Err(e),
            }))
        },
        One::Fixup => {
            let rest = fixup::finish_plan(replies, items, answer, verbose);
            ending(rest, shown(match rest.result {
                Ok(_) => Ok(None),
                Err(e) => Err(e),
            }))
        },
    }
}

/// Completes a verb that waited for one entry to be chosen. A prompt that
/// failed or was abandoned is an answer too: `Err` with what went wrong.
pub fn resume_one<T: Exec>(
    command: &mut Session<T>,
    ask: AskOne,
    answer: Result<usize, String>,
) -> (report: Report)
    ensures
        performed(
            old(command).history(),
            final(command).history(),
            resume_one_plan(
                heard(old(command).history(), final(command).history()),
                ask.verb,
                texts(ask.items@),
                ask.verbose,
                answer_of(answer),
            ),
            report@,
        ),
{
    let outcome = match ask.verb {
        One::Checkout => checkout::finish(command, &ask.items, answer, ask.verbose),
        One::Fixup => fixup::finish(command, &ask.items, answer, ask.verbose),
    };
    render(
        match outcome {
            Ok(_) => Ok(None),
            Err(e) => Err(e),
        },
    )
}

/// What a verb that waited for any number of entries does with the answer.
pub open spec fn resume_many_plan(
    replies: Seq<Reply>,
    verb: Many,
    items: Seq<Seq<char>>,
    verbose: bool,
    answer: Result<Seq<int>, Seq<char>>,
) -> Plan<Shown> {
    match verb {
        Many::CherryPick => {
            let rest = cherry_pick::finish_plan(replies, items, answer, verbose);
            ending(rest, shown(match rest.result {
                Ok(_) => Ok(None),
                Err(e) => Err(e),
            }))
        },
        Many::DeleteBranch { force } => {
            let rest = delete_branch::finish_plan(replies, items, answer, force, verbose);
            ending(
                rest,
                match rest.result {
                    Ok(report) => deletions_shown(report),
                    Err(e) => shown(Err(e)),
                },
            )
        },
    }
}

/// Completes a verb that waited for entries to be chosen. A prompt that
/// failed or was abandoned is an answer too: `Err` with what went wrong.
pub fn resume_many<T: Exec>(
    command: &mut Session<T>,
    ask: AskMany,
    answer: Result<Vec<usize>, String>,
) -> (report: Report)
    ensures
        performed(
            old(command).history(),
            final(command).history(),
            resume_many_plan(
                heard(old(command).history(), final(command).history()),
                ask.verb,
                texts(ask.items@),
                ask.verbose,
                answers_of(answer),
            ),
            report@,
        ),
{
    match ask.verb {
        Many::CherryPick => {
            let outcome = cherry_pick::finish(command, &ask.items, answer, ask.verbose);
            render(
                match outcome {
                    Ok(_) => Ok(None),
                    Err(e) => Err(e),
                },
            )
        },
        Many::DeleteBranch { force } => {
            match delete_branch::finish(command, &ask.items, answer, force, ask.verbose) {
                Ok(report) => render_deletions(&report),
                Err(e) => render(Err(e)),
            }
        },
    }
}

/// Whether the verb of a command line works from a base that it was not given.
pub open spec fn needs_default_base(args: Args) -> bool {
    match args.command {
        Some(Commands::Autosquash { number, base }) => number is None && base is None,
        Some(Commands::Branch { base, .. }) => base is None,
        Some(Commands::Rebase { base }) => base is None,
        _ => false,
    }
}

/// Where no base is given and neither conventional name exists, the verb
/// ends after the two probes, before any call that changes anything, with
/// the message that no default could be determined.
pub proof fn lemma_no_default_ends_the_verb(replies: Seq<Reply>, args: Args)
    requires
        needs_default_base(args),
        !found(replies[0]),
        !found(replies[1]),
    ensures
        dispatch_plan(replies, args).calls == seq![
            probe("main"@, args.verbose),
            probe("master"@, args.verbose),
        ],
        dispatch_plan(replies, args).result == Next::Done(
            Shown { code: 1, out: seq![], err: seq!["Failed to determine default branch"@] },
        ),
{
}

/// Without a choice to make, a failure is reported on the error channel with
/// a code other than zero, and success with code zero and nothing on the
/// error channel.
pub proof fn lemma_shown(outcome: Result<Option<Seq<char>>, Option<Seq<char>>>)
    ensures
        outcome is Ok <==> shown(outcome).code == 0,
        outcome is Ok ==> shown(outcome).err.len() == 0,
        outcome is Err ==> shown(outcome).out.len() == 0,
        outcome matches Err(Some(message)) ==> shown(outcome).err == seq![message],
        outcome matches Ok(Some(text)) ==> shown(outcome).out == seq![text],
{
}

} // verus!
