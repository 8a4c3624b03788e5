//! Deleting local branches chosen from the list of those that are not checked out.

use crate::commands::{
    captured, fails_fast, heard, lemma_start, performed, single, then, with_message, Exec, Plan,
    Reply, Session,
};
use crate::commands::batch::{all_plan, calls_on, run_all};
use crate::commands::choice::{answers_of, chosen, pick, positions, stray};
use crate::text::{
    chain, chain3, decimal, decimal_of, lines, lines_of, same, strs, texts, trim, trimmed,
};
use crate::views::{list_or_err, list_or_failure};
use vstd::prelude::*;

verus! {

/// The branches that may be deleted: the lines of the listing without the
/// white space around them, in their order, without the empty ones and
/// without the current branch.
pub open spec fn others(lines: Seq<Seq<char>>, current: Seq<char>) -> Seq<Seq<char>>
    decreases lines.len(),
{
    if lines.len() == 0 {
        seq![]
    } else {
        let name = trimmed(lines.last());
        if name.len() == 0 || name == current {
            others(lines.drop_last(), current)
        } else {
            others(lines.drop_last(), current).push(name)
        }
    }
}

/// Each of the others is the trimmed form of a line of the listing, is not
/// empty and is not the current branch.
pub proof fn lemma_others(lines: Seq<Seq<char>>, current: Seq<char>)
    ensures
        forall|k: int|
            0 <= k < others(lines, current).len() ==> {
                let name = #[trigger] others(lines, current)[k];
                &&& name.len() > 0
                &&& name != current
                &&& exists|at: int| 0 <= at < lines.len() && trimmed(#[trigger] lines[at]) == name
            },
    decreases lines.len(),
{
    if lines.len() > 0 {
        let earlier = lines.drop_last();
        lemma_others(earlier, current);
        assert forall|k: int| 0 <= k < others(lines, current).len() implies {
            let name = #[trigger] others(lines, current)[k];
            &&& name.len() > 0
            &&& name != current
            &&& exists|at: int| 0 <= at < lines.len() && trimmed(#[trigger] lines[at]) == name
        } by {
            let name = others(lines, current)[k];
            if k < others(earlier, current).len() {
                assert(name == others(earlier, current)[k]);
                let at = choose|at: int|
                    0 <= at < earlier.len() && trimmed(#[trigger] earlier[at]) == name;
                assert(trimmed(lines[at]) == name);
            } else {
                assert(trimmed(lines[lines.len() - 1]) == name);
            }
        }
    }
}

/// The branches of a listing that may be deleted while `current` is checked out.
pub fn other_branches(listing: &str, current: &str) -> (out: Vec<String>)
    ensures
        texts(out@) == others(lines_of(listing@), current@),
{
    let listed = lines(listing);
    let mut out: Vec<String> = Vec::new();
    let mut i: usize = 0;
    while i < listed.len()
        invariant
            i <= listed@.len(),
            texts(out@) == others(texts(listed@).take(i as int), current@),
        decreases listed@.len() - i,
    {
        let name = trim(listed[i].as_str());
        proof {
            let upto = texts(listed@).take(i + 1);
            assert(upto.drop_last() =~= texts(listed@).take(i as int));
        }
        if !name.as_str().is_empty() && !same(name.as_str(), current) {
            out.push(name);
        }
        i += 1;
    }
    assert(texts(listed@).take(listed@.len() as int) =~= texts(listed@));
    out
}

/// List the local branches by their short names, ask which one is current,
/// and give the others. That there are no others is an error.
pub open spec fn branches_plan(replies: Seq<Reply>, verbose: bool) -> Plan<
    Result<Seq<Seq<char>>, Seq<char>>,
> {
    let list = captured(seq!["branch"@, "--format=%(refname:short)"@], verbose);
    let show = captured(seq!["branch"@, "--show-current"@], verbose);
    match replies[0] {
        Err(_) => single(list, Err("Failed to get list of local branches"@)),
        Ok(listing) => then(
            single(list, ()),
            single(
                show,
                match replies[1] {
                    Err(_) => Err("Failed to get current branch"@),
                    Ok(current) => {
                        let found = others(lines_of(listing), trimmed(current));
                        if found.len() == 0 {
                            Err("No branches available for deletion (current branch is excluded)"@)
                        } else {
                            Ok(found)
                        }
                    },
                },
            ),
        ),
    }
}

/// The local branches other than the current one.
pub fn get_branches<T: Exec>(command: &mut Session<T>, verbose: bool) -> (r: Result<
    Vec<String>,
    String,
>)
    ensures
        performed(
            old(command).history(),
            final(command).history(),
            branches_plan(heard(old(command).history(), final(command).history()), verbose),
            list_or_err(r),
        ),
{
    let ghost h0 = command.history();
    proof {
        lemma_start(h0);
    }
    let list: [&str; 2] = ["branch", "--format=%(refname:short)"];
    assert(strs(list@) =~= seq!["branch"@, "--format=%(refname:short)"@]);
    let output = match command.step(Ghost(h0), &list, verbose, false) {
        Ok(text) => text,
        Err(_) => {
            return Err("Failed to get list of local branches".to_owned());
        },
    };
    let show: [&str; 2] = ["branch", "--show-current"];
    assert(strs(show@) =~= seq!["branch"@, "--show-current"@]);
    let current_branch = match command.step(Ghost(h0), &show, verbose, false) {
        Ok(text) => trim(text.as_str()),
        Err(_) => {
            return Err("Failed to get current branch".to_owned());
        },
    };
    let branches = other_branches(output.as_str(), current_branch.as_str());
    if branches.len() == 0 {
        return Err("No branches available for deletion (current branch is excluded)".to_owned());
    }
    Ok(branches)
}

/// The verb up to the choice: the branches to choose from.
pub fn run<T: Exec>(command: &mut Session<T>, verbose: bool) -> (r: Result<
    Vec<String>,
    Option<String>,
>)
    ensures
        performed(
            old(command).history(),
            final(command).history(),
            with_message(
                branches_plan(heard(old(command).history(), final(command).history()), verbose),
            ),
            list_or_failure(r),
        ),
{
    match get_branches(command, verbose) {
        Ok(branches) => Ok(branches),
        Err(e) => Err(Some(e)),
    }
}

/// The line that reports what became of a chosen branch.
pub open spec fn deletion_line(branch: Seq<char>, deleted: bool) -> Seq<char> {
    if deleted {
        "Successfully deleted branch "@ + branch
    } else {
        "Failed to delete branch "@ + branch + ". Use --force to delete it."@
    }
}

/// What became of one chosen branch.
pub struct Deletion {
    pub branch: String,
    pub deleted: bool,
}

impl Deletion {
    /// The branch and whether it was deleted.
    pub open spec fn view(&self) -> (Seq<char>, bool) {
        (self.branch@, self.deleted)
    }

    /// The line that reports this branch: for the output where it was
    /// deleted, for the error channel where it was not.
    pub fn message(&self) -> (text: String)
        ensures
            text@ == deletion_line(self.branch@, self.deleted),
    {
        if self.deleted {
            chain("Successfully deleted branch ", self.branch.as_str())
        } else {
            chain3("Failed to delete branch ", self.branch.as_str(), ". Use --force to delete it.")
        }
    }
}

/// The flag that deletes: the one that insists where `force` is set, else
/// the one that refuses to delete what is not merged.
pub open spec fn delete_flag(force: bool) -> Seq<char> {
    if force {
        "-D"@
    } else {
        "-d"@
    }
}

/// What is reported where nothing was chosen.
pub open spec fn none_selected(available: nat) -> Seq<char> {
    "No branches selected from "@ + decimal_of(available) + " available branches"@
}

/// What is reported where the selection names a position that the list does not have.
pub open spec fn invalid_selection(at: int) -> Seq<char> {
    "Invalid branch selection index: "@ + decimal_of(at as nat)
}

/// Delete every chosen branch, in the order of the selection. A deletion
/// that fails does not stop the others; each branch is reported by itself.
/// No call at all where the prompt failed or was abandoned, where nothing
/// was chosen, or where a position is chosen that the list does not have.
pub open spec fn finish_plan(
    replies: Seq<Reply>,
    branches: Seq<Seq<char>>,
    answer: Result<Seq<int>, Seq<char>>,
    force: bool,
    verbose: bool,
) -> Plan<Result<Seq<(Seq<char>, bool)>, Option<Seq<char>>>> {
    match answer {
        Err(e) => Plan { calls: seq![], result: Err(Some("Failed to get user selection: "@ + e)) },
        Ok(selection) => if selection.len() == 0 {
            Plan { calls: seq![], result: Err(Some(none_selected(branches.len()))) }
        } else {
            match stray(selection, branches.len(), 0) {
                Some(at) => Plan { calls: seq![], result: Err(Some(invalid_selection(at))) },
                None => {
                    let names = chosen(branches, selection);
                    let all = all_plan(
                        replies,
                        calls_on(seq!["branch"@, delete_flag(force)], names, verbose),
                    );
                    Plan {
                        calls: all.calls,
                        result: Ok(Seq::new(names.len(), |k: int| (names[k], all.result[k]))),
                    }
                },
            }
        },
    }
}

/// The verb's outcome: on success what became of each chosen branch.
pub open spec fn report_of(r: Result<Vec<Deletion>, Option<String>>) -> Result<
    Seq<(Seq<char>, bool)>,
    Option<Seq<char>>,
> {
    match r {
        Ok(report) => Ok(Seq::new(report@.len(), |k: int| report@[k]@)),
        Err(Some(e)) => Err(Some(e@)),
        Err(None) => Err(None),
    }
}

/// Completes the verb once the choice among `branches` is made.
#[verifier::loop_isolation(false)]
pub fn finish<T: Exec>(
    command: &mut Session<T>,
    branches: &Vec<String>,
    answer: Result<Vec<usize>, String>,
    force: bool,
    verbose: bool,
) -> (r: Result<Vec<Deletion>, Option<String>>)
    ensures
        performed(
            old(command).history(),
            final(command).history(),
            finish_plan(
                heard(old(command).history(), final(command).history()),
                texts(branches@),
                answers_of(answer),
                force,
                verbose,
            ),
            report_of(r),
        ),
{
    proof {
        lemma_start(command.history());
    }
    let selection = match answer {
        Ok(selection) => selection,
        Err(e) => {
            return Err(Some(chain("Failed to get user selection: ", e.as_str())));
        },
    };
    if selection.len() == 0 {
        let available = decimal(branches.len() as u64);
        return Err(
            Some(chain3("No branches selected from ", available.as_str(), " available branches")),
        );
    }
    let names = match pick(branches, &selection) {
        Ok(names) => names,
        Err(at) => {
            let number = decimal(at as u64);
            return Err(Some(chain("Invalid branch selection index: ", number.as_str())));
        },
    };
    let done = if force {
        let head: [&str; 2] = ["branch", "-D"];
        assert(strs(head@) =~= seq!["branch"@, "-D"@]);
        run_all(command, &head, &names, verbose)
    } else {
        let head: [&str; 2] = ["branch", "-d"];
        assert(strs(head@) =~= seq!["branch"@, "-d"@]);
        run_all(command, &head, &names, verbose)
    };
    let mut report: Vec<Deletion> = Vec::new();
    let mut k: usize = 0;
    while k < done.len()
        invariant
            k <= done@.len(),
            done@.len() == names@.len(),
            report@.len() == k,
            forall|j: int| 0 <= j < k ==> report@[j]@ == (names@[j]@, done@[j]),
        decreases done@.len() - k,
    {
        report.push(Deletion { branch: names[k].clone(), deleted: done[k] });
        k += 1;
    }
    proof {
        let wanted = chosen(texts(branches@), positions(selection@));
        let all = all_plan(
            heard(old(command).history(), command.history()),
            calls_on(seq!["branch"@, delete_flag(force)], wanted, verbose),
        );
        let told = report_of(Ok(report))->Ok_0;
        assert(told =~= Seq::new(wanted.len(), |k: int| (wanted[k], all.result[k]))) by {
            assert forall|j: int| 0 <= j < told.len() implies told[j] == (
                wanted[j],
                all.result[j],
            ) by {
                assert(report@[j]@ == (names@[j]@, done@[j]));
                assert(texts(names@)[j] == wanted[j]);
            }
        }
    }
    Ok(report)
}

/// The listing ends at the first call that fails.
pub proof fn lemma_listing_fails_fast(replies: Seq<Reply>, verbose: bool)
    ensures
        fails_fast(replies, branches_plan(replies, verbose)),
{
}

} // verus!
