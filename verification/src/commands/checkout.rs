//! Switching branches: to a branch named by the caller, or to one chosen from
//! the list of those that there are.

use crate::commands::{
    captured, fails_fast, heard, lemma_start, performed, single, then, Call, Exec, Plan, Reply,
    Session,
};
use crate::commands::choice::answer_of;
use crate::order::{
    ascending, insert_ascending, inserted, lemma_ascending_no_duplicates, lemma_inserted,
};
use crate::text::{
    chain, chain3, decimal, decimal_of, lines, lines_of, same, strip_prefix, strs, texts, trim,
    trimmed, without_prefix,
};
use crate::views::{failure, list_or_err, option_text, text_or_err};
use vstd::prelude::*;

verus! {

/// The prefix under which the branches of `remote` are listed.
pub open spec fn remote_prefix(remote: Seq<char>) -> Seq<char> {
    "refs/remotes/"@ + remote + "/"@
}

/// `line` once the prefix of each remote, taken in turn, is stripped from it.
pub open spec fn without_remotes(line: Seq<char>, remotes: Seq<Seq<char>>) -> Seq<char>
    decreases remotes.len(),
{
    if remotes.len() == 0 {
        line
    } else {
        without_prefix(without_remotes(line, remotes.drop_last()), remote_prefix(remotes.last()))
    }
}

/// The branch name that a line of the listing stands for: the full reference
/// name without the prefix of a remote, without the prefix of local branches,
/// without white space around it.
pub open spec fn branch_name(line: Seq<char>, remotes: Seq<Seq<char>>) -> Seq<char> {
    trimmed(without_prefix(without_remotes(line, remotes), "refs/heads/"@))
}

/// The candidates that the lines of a listing give: their branch names in
/// ascending order, each once, without the symbolic `HEAD`.
pub open spec fn candidates(lines: Seq<Seq<char>>, remotes: Seq<Seq<char>>) -> Seq<Seq<char>>
    decreases lines.len(),
{
    if lines.len() == 0 {
        seq![]
    } else {
        let earlier = candidates(lines.drop_last(), remotes);
        let name = branch_name(lines.last(), remotes);
        if name == "HEAD"@ {
            earlier
        } else {
            inserted(earlier, name)
        }
    }
}

/// Whether some line of the listing stands for the branch `name`.
pub open spec fn listed(lines: Seq<Seq<char>>, remotes: Seq<Seq<char>>, name: Seq<char>) -> bool {
    exists|k: int| 0 <= k < lines.len() && branch_name(#[trigger] lines[k], remotes) == name
}

/// The candidates stand in ascending order, none is listed twice, and they
/// are exactly the branch names of the lines, `HEAD` left out.
pub proof fn lemma_candidates(lines: Seq<Seq<char>>, remotes: Seq<Seq<char>>)
    ensures
        ascending(candidates(lines, remotes)),
        candidates(lines, remotes).no_duplicates(),
        forall|name: Seq<char>|
            #[trigger] candidates(lines, remotes).contains(name) <==> (name != "HEAD"@ && listed(
                lines,
                remotes,
                name,
            )),
    decreases lines.len(),
{
    if lines.len() > 0 {
        let earlier_lines = lines.drop_last();
        let earlier = candidates(earlier_lines, remotes);
        let last = branch_name(lines.last(), remotes);
        lemma_candidates(earlier_lines, remotes);
        lemma_inserted(earlier, last);
        lemma_ascending_no_duplicates(candidates(lines, remotes));
        assert forall|name: Seq<char>|
            #[trigger] candidates(lines, remotes).contains(name) <==> (name != "HEAD"@ && listed(
                lines,
                remotes,
                name,
            )) by {
            assert(earlier.contains(name) <==> (name != "HEAD"@ && listed(
                earlier_lines,
                remotes,
                name,
            )));
            assert(inserted(earlier, last).contains(name) <==> (name == last || earlier.contains(
                name,
            )));
            if listed(earlier_lines, remotes, name) {
                let k = choose|k: int|
                    0 <= k < earlier_lines.len() && branch_name(
                        #[trigger] earlier_lines[k],
                        remotes,
                    ) == name;
                assert(branch_name(lines[k], remotes) == name);
                assert(listed(lines, remotes, name));
            }
            if name == last {
                assert(branch_name(lines[lines.len() - 1], remotes) == name);
                assert(listed(lines, remotes, name));
            }
            if listed(lines, remotes, name) {
                let k = choose|k: int|
                    0 <= k < lines.len() && branch_name(#[trigger] lines[k], remotes) == name;
                if k < lines.len() - 1 {
                    assert(branch_name(earlier_lines[k], remotes) == name);
                    assert(listed(earlier_lines, remotes, name));
                } else {
                    assert(name == last);
                }
            }
        }
    } else {
        assert forall|name: Seq<char>|
            #[trigger] candidates(lines, remotes).contains(name) <==> (name != "HEAD"@ && listed(
                lines,
                remotes,
                name,
            )) by {
            assert(candidates(lines, remotes) =~= Seq::<Seq<char>>::empty());
        }
    }
}

fn clean(line: &str, remotes: &Vec<String>) -> (name: String)
    ensures
        name@ == branch_name(line@, texts(remotes@)),
{
    let mut name = line.to_owned();
    let mut i: usize = 0;
    while i < remotes.len()
        invariant
            i <= remotes@.len(),
            name@ == without_remotes(line@, texts(remotes@).take(i as int)),
        decreases remotes@.len() - i,
    {
        let prefix = chain3("refs/remotes/", remotes[i].as_str(), "/");
        proof {
            let upto = texts(remotes@).take(i + 1);
            assert(upto.drop_last() =~= texts(remotes@).take(i as int));
        }
        name = strip_prefix(name.as_str(), prefix.as_str());
        i += 1;
    }
    assert(texts(remotes@).take(remotes@.len() as int) =~= texts(remotes@));
    let local = strip_prefix(name.as_str(), "refs/heads/");
    trim(local.as_str())
}

/// The candidates that a listing gives, where `remotes` holds one remote per line.
pub fn list_candidates(remotes: &str, listing: &str) -> (out: Vec<String>)
    ensures
        texts(out@) == candidates(lines_of(listing@), lines_of(remotes@)),
{
    let remotes = lines(remotes);
    let listed = lines(listing);
    let mut out: Vec<String> = Vec::new();
    let mut i: usize = 0;
    while i < listed.len()
        invariant
            i <= listed@.len(),
            texts(out@) == candidates(texts(listed@).take(i as int), texts(remotes@)),
        decreases listed@.len() - i,
    {
        let name = clean(listed[i].as_str(), &remotes);
        proof {
            let upto = texts(listed@).take(i + 1);
            assert(upto.drop_last() =~= texts(listed@).take(i as int));
        }
        if !same(name.as_str(), "HEAD") {
            insert_ascending(&mut out, name);
        }
        i += 1;
    }
    assert(texts(listed@).take(listed@.len() as int) =~= texts(listed@));
    out
}

/// The listing call for the scope asked for: all branches where `all` is set,
/// else the remote ones where `remote` is set, else the local ones.
pub open spec fn listing_call(remote: bool, all: bool, verbose: bool) -> Call {
    if all {
        captured(seq!["branch"@, "-a"@, "--format"@, "%(refname)"@], verbose)
    } else if remote {
        captured(seq!["branch"@, "-r"@, "--format"@, "%(refname)"@], verbose)
    } else {
        captured(seq!["branch"@, "--format"@, "%(refname)"@], verbose)
    }
}

/// What is reported where the listing call fails.
pub open spec fn listing_failed(remote: bool, all: bool) -> Seq<char> {
    if all {
        "Failed to list all branches (local and remote)"@
    } else if remote {
        "Failed to list remote branches"@
    } else {
        "Failed to list local branches"@
    }
}

/// What is reported where the listing holds no candidate.
pub open spec fn nothing_found(remote: bool, all: bool) -> Seq<char> {
    if all {
        "No branches (local and remote) found"@
    } else if remote {
        "No remote branches found"@
    } else {
        "No local branches found"@
    }
}

/// List the remotes, list the branches of the scope, and give the candidates.
/// An empty list of candidates is an error that names the scope.
pub open spec fn branches_plan(replies: Seq<Reply>, remote: bool, all: bool, verbose: bool) -> Plan<
    Result<Seq<Seq<char>>, Seq<char>>,
> {
    let list_remotes = captured(seq!["remote"@], verbose);
    match replies[0] {
        Err(_) => single(
            list_remotes,
            Err("Failed to get git remotes (check network connection)"@),
        ),
        Ok(remotes) => then(
            single(list_remotes, ()),
            single(
                listing_call(remote, all, verbose),
                match replies[1] {
                    Err(_) => Err(listing_failed(remote, all)),
                    Ok(listing) => {
                        let found = candidates(lines_of(listing), lines_of(remotes));
                        if found.len() == 0 {
                            Err(nothing_found(remote, all))
                        } else {
                            Ok(found)
                        }
                    },
                },
            ),
        ),
    }
}

/// The branches to choose from.
pub fn get_branches<T: Exec>(
    command: &mut Session<T>,
    remote: bool,
    all: bool,
    verbose: bool,
) -> (r: Result<Vec<String>, String>)
    ensures
        performed(
            old(command).history(),
            final(command).history(),
            branches_plan(
                heard(old(command).history(), final(command).history()),
                remote,
                all,
                verbose,
            ),
            list_or_err(r),
        ),
{
    let ghost h0 = command.history();
    proof {
        lemma_start(h0);
    }
    let list_remotes: [&str; 1] = ["remote"];
    assert(strs(list_remotes@) =~= seq!["remote"@]);
    let remotes = match command.step(Ghost(h0), &list_remotes, verbose, false) {
        Ok(text) => text,
        Err(_) => {
            return Err("Failed to get git remotes (check network connection)".to_owned());
        },
    };
    let listed = if all {
        let args: [&str; 4] = ["branch", "-a", "--format", "%(refname)"];
        assert(strs(args@) =~= seq!["branch"@, "-a"@, "--format"@, "%(refname)"@]);
        command.step(Ghost(h0), &args, verbose, false)
    } else if remote {
        let args: [&str; 4] = ["branch", "-r", "--format", "%(refname)"];
        assert(strs(args@) =~= seq!["branch"@, "-r"@, "--format"@, "%(refname)"@]);
        command.step(Ghost(h0), &args, verbose, false)
    } else {
        let args: [&str; 3] = ["branch", "--format", "%(refname)"];
        assert(strs(args@) =~= seq!["branch"@, "--format"@, "%(refname)"@]);
        command.step(Ghost(h0), &args, verbose, false)
    };
    let listing = match listed {
        Ok(text) => text,
        Err(_) => {
            return Err(
                if all {
                    "Failed to list all branches (local and remote)".to_owned()
                } else if remote {
                    "Failed to list remote branches".to_owned()
                } else {
                    "Failed to list local branches".to_owned()
                },
            );
        },
    };
    let branches = list_candidates(remotes.as_str(), listing.as_str());
    if branches.len() == 0 {
        return Err(
            if all {
                "No branches (local and remote) found".to_owned()
            } else if remote {
                "No remote branches found".to_owned()
            } else {
                "No local branches found".to_owned()
            },
        );
    }
    Ok(branches)
}

/// What is reported where the switch fails.
pub open spec fn checkout_failed(branch: Seq<char>) -> Seq<char> {
    "Failed to checkout branch '"@ + branch + "'"@
}

/// One call: the switch.
pub open spec fn checkout_plan(replies: Seq<Reply>, branch: Seq<char>, verbose: bool) -> Plan<
    Result<(), Option<Seq<char>>>,
> {
    single(
        captured(seq!["checkout"@, branch], verbose),
        if replies[0] is Ok {
            Ok(())
        } else {
            Err(Some(checkout_failed(branch)))
        },
    )
}

/// Switches to `branch`.
pub fn do_checkout<T: Exec>(command: &mut Session<T>, branch: &str, verbose: bool) -> (r: Result<
    (),
    Option<String>,
>)
    ensures
        performed(
            old(command).history(),
            final(command).history(),
            checkout_plan(
                heard(old(command).history(), final(command).history()),
                branch@,
                verbose,
            ),
            failure(r),
        ),
{
    let ghost h0 = command.history();
    proof {
        lemma_start(h0);
    }
    let args: [&str; 2] = ["checkout", branch];
    assert(strs(args@) =~= seq!["checkout"@, branch@]);
    match command.step(Ghost(h0), &args, verbose, false) {
        Ok(_) => Ok(()),
        Err(_) => Err(Some(chain3("Failed to checkout branch '", branch, "'"))),
    }
}

/// How far the verb got without a choice: it is done, or it waits for one
/// among the candidates it holds.
pub enum Checkout {
    Done,
    Choose(Vec<String>),
}

impl Checkout {
    /// The candidates that wait for the choice, if the verb is not done.
    pub open spec fn view(&self) -> Option<Seq<Seq<char>>> {
        match self {
            Checkout::Done => None,
            Checkout::Choose(branches) => Some(texts(branches@)),
        }
    }
}

/// With a name, the switch and nothing else. Without one, the listing, after
/// which the verb waits for the choice.
pub open spec fn run_plan(
    replies: Seq<Reply>,
    name: Option<Seq<char>>,
    remote: bool,
    all: bool,
    verbose: bool,
) -> Plan<Result<Option<Seq<Seq<char>>>, Option<Seq<char>>>> {
    match name {
        Some(branch) => {
            let switch = checkout_plan(replies, branch, verbose);
            Plan {
                calls: switch.calls,
                result: match switch.result {
                    Ok(_) => Ok(None),
                    Err(e) => Err(e),
                },
            }
        },
        None => {
            let list = branches_plan(replies, remote, all, verbose);
            Plan {
                calls: list.calls,
                result: match list.result {
                    Ok(found) => Ok(Some(found)),
                    Err(e) => Err(Some(e)),
                },
            }
        },
    }
}

/// The verb's outcome: on success how far it got.
pub open spec fn progress(r: Result<Checkout, Option<String>>) -> Result<
    Option<Seq<Seq<char>>>,
    Option<Seq<char>>,
> {
    match r {
        Ok(state) => Ok(state@),
        Err(Some(e)) => Err(Some(e@)),
        Err(None) => Err(None),
    }
}

/// The verb as far as it goes without a choice.
pub fn run<T: Exec>(
    command: &mut Session<T>,
    name: Option<String>,
    remote: bool,
    all: bool,
    verbose: bool,
) -> (r: Result<Checkout, Option<String>>)
    ensures
        performed(
            old(command).history(),
            final(command).history(),
            run_plan(
                heard(old(command).history(), final(command).history()),
                option_text(name),
                remote,
                all,
                verbose,
            ),
            progress(r),
        ),
{
    match name {
        Some(branch) => match do_checkout(command, branch.as_str(), verbose) {
            Ok(_) => Ok(Checkout::Done),
            Err(e) => Err(e),
        },
        None => match get_branches(command, remote, all, verbose) {
            Ok(branches) => Ok(Checkout::Choose(branches)),
            Err(e) => Err(Some(e)),
        },
    }
}

/// The branch that the answer stands for. A prompt that failed or was
/// abandoned, and a position that the list does not have, are errors.
pub open spec fn chosen_branch(branches: Seq<Seq<char>>, answer: Result<int, Seq<char>>) -> Result<
    Seq<char>,
    Seq<char>,
> {
    match answer {
        Err(e) => Err("Failed to select branch: "@ + e),
        Ok(at) => if 0 <= at < branches.len() {
            Ok(branches[at])
        } else {
            Err("Invalid branch selection index: "@ + decimal_of(at as nat))
        },
    }
}

/// The branch that the answer stands for.
pub fn select_branch(branches: &Vec<String>, answer: Result<usize, String>) -> (r: Result<
    String,
    String,
>)
    ensures
        text_or_err(r) == chosen_branch(texts(branches@), answer_of(answer)),
{
    match answer {
        Err(e) => Err(chain("Failed to select branch: ", e.as_str())),
        Ok(at) => {
            if at < branches.len() {
                Ok(branches[at].clone())
            } else {
                let number = decimal(at as u64);
                Err(chain("Invalid branch selection index: ", number.as_str()))
            }
        },
    }
}

/// The switch to the chosen branch; no call where the answer names none.
pub open spec fn finish_plan(
    replies: Seq<Reply>,
    branches: Seq<Seq<char>>,
    answer: Result<int, Seq<char>>,
    verbose: bool,
) -> Plan<Result<(), Option<Seq<char>>>> {
    match chosen_branch(branches, answer) {
        Err(e) => Plan { calls: seq![], result: Err(Some(e)) },
        Ok(branch) => checkout_plan(replies, branch, verbose),
    }
}

/// Completes the verb once the choice among `branches` is made.
pub fn finish<T: Exec>(
    command: &mut Session<T>,
    branches: &Vec<String>,
    answer: Result<usize, String>,
    verbose: bool,
) -> (r: Result<(), Option<String>>)
    ensures
        performed(
            old(command).history(),
            final(command).history(),
            finish_plan(
                heard(old(command).history(), final(command).history()),
                texts(branches@),
                answer_of(answer),
                verbose,
            ),
            failure(r),
        ),
{
    match select_branch(branches, answer) {
        Err(e) => {
            proof {
                lemma_start(command.history());
            }
            Err(Some(e))
        },
        Ok(branch) => do_checkout(command, branch.as_str(), verbose),
    }
}

/// The listing ends at the first call that fails.
pub proof fn lemma_listing_fails_fast(replies: Seq<Reply>, remote: bool, all: bool, verbose: bool)
    ensures
        fails_fast(replies, branches_plan(replies, remote, all, verbose)),
{
}

} // verus!
