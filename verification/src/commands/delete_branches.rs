//! Pruning: deleting every local branch whose remote counterpart is gone.

use crate::commands::{
    captured, fails_fast, heard, lemma_since_add, lemma_start, performed, with_message, Call, Exec,
    Plan, Reply, Session,
};
use crate::commands::batch::{calls_on, each_plan, lemma_each_plan, run_each};
use crate::text::{
    chain, chain3, contains, first_token, first_token_of, is_space, join, joined,
    lemma_first_token, lemma_next_word_bounds, lines, lines_of, occurs_at, occurs_in, starts_with,
    strs, texts,
};
use crate::views::{summary, text_or_err};
use vstd::prelude::*;

verus! {

/// Whether a line of the tracking listing is that of the current branch:
/// a leading `*` marks it.
pub open spec fn is_current(line: Seq<char>) -> bool {
    "*"@.is_prefix_of(line)
}

/// Whether the tracking information on a line carries the tag of a remote
/// that is gone.
pub open spec fn has_gone_tag(line: Seq<char>) -> bool {
    occurs_in(line, ": gone]"@)
}

/// Whether a line of the tracking listing stands for a branch to prune: it
/// carries the tag and is not the line of the current branch.
pub open spec fn is_gone(line: Seq<char>) -> bool {
    !is_current(line) && has_gone_tag(line)
}

/// The branch that a line of the listing names: its leading token.
pub open spec fn name_on(line: Seq<char>) -> Seq<char> {
    match first_token_of(line) {
        Some(name) => name,
        None => Seq::empty(),
    }
}

/// The branches to prune, in the order of the listing.
pub open spec fn gone_names(lines: Seq<Seq<char>>) -> Seq<Seq<char>>
    decreases lines.len(),
{
    if lines.len() == 0 {
        seq![]
    } else if is_gone(lines.last()) {
        gone_names(lines.drop_last()).push(name_on(lines.last()))
    } else {
        gone_names(lines.drop_last())
    }
}

/// A line that carries the tag names a branch: the tag itself begins with a
/// character that is no white space, so the line has a leading token.
pub proof fn lemma_gone_line_names_a_branch(line: Seq<char>)
    requires
        has_gone_tag(line),
    ensures
        first_token_of(line) is Some,
{
    reveal_strlit(": gone]");
    let at = choose|at: int| occurs_at(line, ": gone]"@, at);
    assert(line.subrange(at, at + 7)[0] == ':');
    assert(!is_space(line[at]));
    lemma_next_word_bounds(line, 0);
}

/// Each branch to prune is named by a line that carries the tag and is not
/// the line of the current branch, and its name is not empty.
pub proof fn lemma_gone_names(lines: Seq<Seq<char>>)
    ensures
        forall|k: int|
            0 <= k < gone_names(lines).len() ==> {
                let name = #[trigger] gone_names(lines)[k];
                &&& name.len() > 0
                &&& exists|at: int|
                    0 <= at < lines.len() && is_gone(#[trigger] lines[at]) && first_token_of(
                        lines[at],
                    ) == Some(name)
            },
    decreases lines.len(),
{
    if lines.len() > 0 {
        let earlier = lines.drop_last();
        lemma_gone_names(earlier);
        if is_gone(lines.last()) {
            lemma_gone_line_names_a_branch(lines.last());
            lemma_first_token(lines.last());
        }
        assert forall|k: int| 0 <= k < gone_names(lines).len() implies {
            let name = #[trigger] gone_names(lines)[k];
            &&& name.len() > 0
            &&& exists|at: int|
                0 <= at < lines.len() && is_gone(#[trigger] lines[at]) && first_token_of(
                    lines[at],
                ) == Some(name)
        } by {
            let name = gone_names(lines)[k];
            if k < gone_names(earlier).len() {
                assert(name == gone_names(earlier)[k]);
                let at = choose|at: int|
                    0 <= at < earlier.len() && is_gone(#[trigger] earlier[at]) && first_token_of(
                        earlier[at],
                    ) == Some(name);
                assert(lines[at] == earlier[at]);
            } else {
                assert(lines[lines.len() - 1] == lines.last());
            }
        }
    }
}

/// The branches that a tracking listing shows as gone.
pub fn gone_branches(listing: &str) -> (names: Vec<String>)
    ensures
        texts(names@) == gone_names(lines_of(listing@)),
{
    let listed = lines(listing);
    let mut names: Vec<String> = Vec::new();
    let mut i: usize = 0;
    while i < listed.len()
        invariant
            i <= listed@.len(),
            texts(names@) == gone_names(texts(listed@).take(i as int)),
        decreases listed@.len() - i,
    {
        let line = listed[i].as_str();
        proof {
            let upto = texts(listed@).take(i + 1);
            assert(upto.drop_last() =~= texts(listed@).take(i as int));
        }
        if !starts_with(line, "*") && contains(line, ": gone]") {
            match first_token(line) {
                Some(name) => {
                    names.push(name);
                },
                None => {
                    proof {
                        lemma_gone_line_names_a_branch(line@);
                    }
                },
            }
        }
        i += 1;
    }
    assert(texts(listed@).take(listed@.len() as int) =~= texts(listed@));
    names
}

/// One line of the report for each branch.
pub open spec fn deleted_lines(names: Seq<Seq<char>>) -> Seq<Seq<char>> {
    Seq::new(names.len(), |k: int| "Deleted branch "@ + names[k])
}

/// The report: the branches in the order of the listing, or that there was
/// nothing to delete.
pub open spec fn report_of(names: Seq<Seq<char>>) -> Seq<char> {
    if names.len() == 0 {
        "No branches to delete"@
    } else {
        joined(deleted_lines(names), "\n"@)
    }
}

/// The report on the branches that were, or in a dry run would be, deleted.
pub fn report(names: &Vec<String>) -> (text: String)
    ensures
        text@ == report_of(texts(names@)),
{
    if names.len() == 0 {
        return "No branches to delete".to_owned();
    }
    let mut entries: Vec<String> = Vec::new();
    let mut i: usize = 0;
    while i < names.len()
        invariant
            i <= names@.len(),
            entries@.len() == i,
            forall|k: int| 0 <= k < i ==> entries@[k]@ == "Deleted branch "@ + names@[k]@,
        decreases names@.len() - i,
    {
        entries.push(chain("Deleted branch ", names[i].as_str()));
        i += 1;
    }
    assert(texts(entries@) =~= deleted_lines(texts(names@)));
    join(&entries, "\n")
}

/// The call that fetches and prunes what is gone at the remote.
pub open spec fn fetch_call(verbose: bool) -> Call {
    captured(seq!["fetch"@, "--prune"@], verbose)
}

/// The call that lists the branches with their tracking information.
pub open spec fn tracking_call(verbose: bool) -> Call {
    captured(seq!["branch"@, "-vv"@], verbose)
}

/// Fetch with pruning, list the branches with their tracking information,
/// and, unless this is a dry run, force-delete each branch that is gone, in
/// the order of the listing, up to the first deletion that fails.
pub open spec fn prune_plan(replies: Seq<Reply>, dry_run: bool, verbose: bool) -> Plan<
    Result<Seq<char>, Seq<char>>,
> {
    if replies[0] is Err {
        Plan {
            calls: seq![fetch_call(verbose)],
            result: Err("Failed to fetch and prune from remote (check network connection)"@),
        }
    } else {
        match replies[1] {
            Err(_) => Plan {
                calls: seq![fetch_call(verbose), tracking_call(verbose)],
                result: Err("Failed to get branch information with tracking details"@),
            },
            Ok(listing) => {
                let names = gone_names(lines_of(listing));
                if dry_run {
                    Plan {
                        calls: seq![fetch_call(verbose), tracking_call(verbose)],
                        result: Ok(report_of(names)),
                    }
                } else {
                    let deletions = each_plan(
                        replies.skip(2),
                        calls_on(seq!["branch"@, "-D"@], names, verbose),
                    );
                    Plan {
                        calls: seq![fetch_call(verbose), tracking_call(verbose)] + deletions.calls,
                        result: match deletions.result {
                            Some(k) => Err("Failed to delete branch '"@ + names[k] + "'"@),
                            None => Ok(report_of(names)),
                        },
                    }
                }
            },
        }
    }
}

/// Prunes the branches whose remote is gone and gives the report.
pub fn delete_branches<T: Exec>(command: &mut Session<T>, dry_run: bool, verbose: bool) -> (r:
    Result<String, String>)
    ensures
        performed(
            old(command).history(),
            final(command).history(),
            prune_plan(heard(old(command).history(), final(command).history()), dry_run, verbose),
            text_or_err(r),
        ),
{
    let ghost h0 = command.history();
    proof {
        lemma_start(h0);
    }
    let fetch: [&str; 2] = ["fetch", "--prune"];
    assert(strs(fetch@) =~= seq!["fetch"@, "--prune"@]);
    if command.step(Ghost(h0), &fetch, verbose, false).is_err() {
        return Err("Failed to fetch and prune from remote (check network connection)".to_owned());
    }
    let tracking: [&str; 2] = ["branch", "-vv"];
    assert(strs(tracking@) =~= seq!["branch"@, "-vv"@]);
    let listing = match command.step(Ghost(h0), &tracking, verbose, false) {
        Ok(text) => text,
        Err(_) => {
            return Err("Failed to get branch information with tracking details".to_owned());
        },
    };
    let names = gone_branches(listing.as_str());
    if !dry_run {
        let ghost h2 = command.history();
        let delete: [&str; 2] = ["branch", "-D"];
        assert(strs(delete@) =~= seq!["branch"@, "-D"@]);
        let failed = run_each(command, &delete, &names, verbose);
        proof {
            lemma_since_add(h0, h2, command.history());
        }
        match failed {
            Some(k) => {
                return Err(chain3("Failed to delete branch '", names[k].as_str(), "'"));
            },
            None => {},
        }
    }
    Ok(report(&names))
}

/// The verb as the dispatcher calls it: the report on success, the message on failure.
pub fn run<T: Exec>(command: &mut Session<T>, dry_run: bool, verbose: bool) -> (r: Result<
    String,
    Option<String>,
>)
    ensures
        performed(
            old(command).history(),
            final(command).history(),
            with_message(
                prune_plan(
                    heard(old(command).history(), final(command).history()),
                    dry_run,
                    verbose,
                ),
            ),
            summary(r),
        ),
{
    match delete_branches(command, dry_run, verbose) {
        Ok(text) => Ok(text),
        Err(e) => Err(Some(e)),
    }
}

/// The call that deletes the branch `name`, merged or not.
pub open spec fn deletion_call(name: Seq<char>, verbose: bool) -> Call {
    captured(seq!["branch"@, "-D"@, name], verbose)
}

/// A dry run only reads: whatever comes back, it issues the fetch and, where
/// that succeeded, the listing, and no deletion. Two dry runs in which the
/// fetch fares alike therefore issue the same calls.
pub proof fn lemma_dry_run_only_reads(first: Seq<Reply>, second: Seq<Reply>, verbose: bool)
    ensures
        prune_plan(first, true, verbose).calls == if first[0] is Ok {
            seq![fetch_call(verbose), tracking_call(verbose)]
        } else {
            seq![fetch_call(verbose)]
        },
        forall|name: Seq<char>|
            !prune_plan(first, true, verbose).calls.contains(
                #[trigger] deletion_call(name, verbose),
            ),
        (first[0] is Ok <==> second[0] is Ok) ==> prune_plan(first, true, verbose).calls
            == prune_plan(second, true, verbose).calls,
{
    let calls = prune_plan(first, true, verbose).calls;
    assert forall|name: Seq<char>| !calls.contains(#[trigger] deletion_call(name, verbose)) by {
        assert forall|j: int| 0 <= j < calls.len() implies calls[j] != deletion_call(
            name,
            verbose,
        ) by {
            assert(calls[j].args.len() == 2);
            assert(deletion_call(name, verbose).args.len() == 3);
        }
    }
}

/// Outside a dry run, the deletions are those of the branches that are gone,
/// in the order of the listing, none left out unless an earlier one failed.
pub proof fn lemma_prune_deletes_in_listing_order(
    replies: Seq<Reply>,
    listing: Seq<char>,
    verbose: bool,
)
    requires
        replies.len() >= 2,
        replies[0] is Ok,
        replies[1] == Ok::<Seq<char>, ()>(listing),
    ensures
        ({
            let names = gone_names(lines_of(listing));
            let plan = prune_plan(replies, false, verbose);
            &&& 2 <= plan.calls.len() <= 2 + names.len()
            &&& plan.calls[0] == fetch_call(verbose)
            &&& plan.calls[1] == tracking_call(verbose)
            &&& forall|k: int|
                2 <= k < plan.calls.len() ==> #[trigger] plan.calls[k] == deletion_call(
                    names[k - 2],
                    verbose,
                )
            &&& plan.result is Ok ==> plan.calls.len() == 2 + names.len()
        }),
{
    let names = gone_names(lines_of(listing));
    let deletions = calls_on(seq!["branch"@, "-D"@], names, verbose);
    let each = each_plan(replies.skip(2), deletions);
    let plan = prune_plan(replies, false, verbose);
    lemma_each_plan(replies.skip(2), deletions);
    assert(plan.calls == seq![fetch_call(verbose), tracking_call(verbose)] + each.calls);
    assert forall|k: int| 2 <= k < plan.calls.len() implies #[trigger] plan.calls[k]
        == deletion_call(names[k - 2], verbose) by {
        assert(plan.calls[k] == each.calls[k - 2]);
        assert(each.calls[k - 2] == deletions[k - 2]);
        assert(seq!["branch"@, "-D"@].push(names[k - 2]) =~= seq!["branch"@, "-D"@, names[k - 2]]);
    }
}

/// The verb ends at the first call that fails, and gives its report only
/// where every call succeeded.
pub proof fn lemma_prune_fails_fast(replies: Seq<Reply>, dry_run: bool, verbose: bool)
    requires
        prune_plan(replies, dry_run, verbose).calls.len() <= replies.len(),
    ensures
        fails_fast(replies, prune_plan(replies, dry_run, verbose)),
{
    if replies[0] is Ok && !dry_run {
        match replies[1] {
            Ok(listing) => {
                let names = gone_names(lines_of(listing));
                let deletions = calls_on(seq!["branch"@, "-D"@], names, verbose);
                let each = each_plan(replies.skip(2), deletions);
                let plan = prune_plan(replies, dry_run, verbose);
                lemma_each_plan(replies.skip(2), deletions);
                assert forall|k: int| 0 <= k < plan.calls.len() - 1 implies #[trigger] replies[k]
                    is Ok by {
                    if k >= 2 {
                        assert(replies[k] == replies.skip(2)[k - 2]);
                    }
                }
                if plan.result is Ok && plan.calls.len() > 2 {
                    assert(replies[plan.calls.len() - 1] == replies.skip(2)[plan.calls.len() - 3]);
                }
            },
            Err(_) => {},
        }
    }
}

} // verus!
