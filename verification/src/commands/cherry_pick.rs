//! Cherry-picking commits chosen from the log of another branch.

use crate::commands::{
    captured, fails_fast, heard, lemma_start, performed, single, with_message, Call, Exec, Plan,
    Reply, Session,
};
use crate::commands::batch::{calls_on, each_plan, lemma_each_plan, run_each};
use crate::commands::choice::{answers_of, chosen, lemma_stray, pick, stray};
use crate::text::{
    chain, decimal, decimal_of, first_token, first_token_of, lines, lines_of, strs, texts,
};
use crate::views::{failure, list_if_any, list_or_err, list_or_failure};
use vstd::prelude::*;

verus! {

/// One call: the last `number` entries of the log of `branch`, one per line,
/// newest first, each a short identifier followed by the subject.
pub open spec fn commits_plan(
    replies: Seq<Reply>,
    branch: Seq<char>,
    number: u32,
    verbose: bool,
) -> Plan<Result<Seq<Seq<char>>, Seq<char>>> {
    single(
        captured(
            seq!["log"@, branch, "--pretty=format:%h %s"@, "-n "@ + decimal_of(number as nat)],
            verbose,
        ),
        match replies[0] {
            Ok(log) => Ok(lines_of(log)),
            Err(_) => Err("Failed to get commit history"@),
        },
    )
}

/// The last `number` entries of the log of `branch`, newest first.
pub fn get_commits<T: Exec>(
    command: &mut Session<T>,
    branch: &str,
    number: u32,
    verbose: bool,
) -> (r: Result<Vec<String>, String>)
    ensures
        performed(
            old(command).history(),
            final(command).history(),
            commits_plan(
                heard(old(command).history(), final(command).history()),
                branch@,
                number,
                verbose,
            ),
            list_or_err(r),
        ),
{
    let ghost h0 = command.history();
    proof {
        lemma_start(h0);
    }
    let count = chain("-n ", decimal(number as u64).as_str());
    let args: [&str; 4] = ["log", branch, "--pretty=format:%h %s", count.as_str()];
    assert(strs(args@) =~= seq![
        "log"@,
        branch@,
        "--pretty=format:%h %s"@,
        "-n "@ + decimal_of(number as nat),
    ]);
    match command.step(Ghost(h0), &args, verbose, false) {
        Ok(log) => Ok(lines(log.as_str())),
        Err(_) => Err("Failed to get commit history".to_owned()),
    }
}

/// The verb up to the choice: the log entries to choose from.
pub fn run<T: Exec>(
    command: &mut Session<T>,
    branch: &str,
    number: u32,
    verbose: bool,
) -> (r: Result<Vec<String>, Option<String>>)
    ensures
        performed(
            old(command).history(),
            final(command).history(),
            with_message(
                commits_plan(
                    heard(old(command).history(), final(command).history()),
                    branch@,
                    number,
                    verbose,
                ),
            ),
            list_or_failure(r),
        ),
{
    match get_commits(command, branch, number, verbose) {
        Ok(entries) => Ok(entries),
        Err(e) => Err(Some(e)),
    }
}

/// The identifiers of the entries, in their order: the leading token of
/// each. `None` where an entry has no token.
pub open spec fn identifiers(entries: Seq<Seq<char>>) -> Option<Seq<Seq<char>>>
    decreases entries.len(),
{
    if entries.len() == 0 {
        Some(seq![])
    } else {
        match (identifiers(entries.drop_last()), first_token_of(entries.last())) {
            (Some(earlier), Some(sha)) => Some(earlier.push(sha)),
            _ => None,
        }
    }
}

/// The identifiers of the entries, in their order.
pub fn identifiers_of(entries: &Vec<String>) -> (r: Option<Vec<String>>)
    ensures
        list_if_any(r) == identifiers(texts(entries@)),
{
    let ghost all = texts(entries@);
    let mut shas: Vec<String> = Vec::new();
    let mut i: usize = 0;
    while i < entries.len()
        invariant
            i <= entries@.len(),
            all == texts(entries@),
            identifiers(all.take(i as int)) == Some(texts(shas@)),
        decreases entries@.len() - i,
    {
        proof {
            let upto = all.take(i + 1);
            assert(upto.drop_last() =~= all.take(i as int));
        }
        match first_token(entries[i].as_str()) {
            Some(sha) => {
                shas.push(sha);
            },
            None => {
                proof {
                    lemma_identifiers_fail(all, i + 1);
                }
                return None;
            },
        }
        i += 1;
    }
    assert(all.take(all.len() as int) =~= all);
    Some(shas)
}

/// Where the identifiers of the first `upto` entries cannot all be had,
/// those of all the entries cannot either.
proof fn lemma_identifiers_fail(entries: Seq<Seq<char>>, upto: int)
    requires
        0 <= upto <= entries.len(),
        identifiers(entries.take(upto)) is None,
    ensures
        identifiers(entries) is None,
    decreases entries.len() - upto,
{
    if upto < entries.len() {
        assert(entries.take(upto + 1).drop_last() =~= entries.take(upto));
        lemma_identifiers_fail(entries, upto + 1);
    } else {
        assert(entries.take(upto) =~= entries);
    }
}

/// The list in the opposite order.
pub fn reversed(list: Vec<String>) -> (out: Vec<String>)
    ensures
        texts(out@) == texts(list@).reverse(),
{
    let ghost all = texts(list@);
    let mut list = list;
    let mut out: Vec<String> = Vec::new();
    while list.len() > 0
        invariant
            texts(out@) + texts(list@).reverse() == all.reverse(),
        decreases list@.len(),
    {
        let ghost done = texts(out@);
        let ghost left = texts(list@);
        let last = list.pop().unwrap();
        out.push(last);
        assert(texts(out@) + texts(list@).reverse() =~= done + left.reverse()) by {
            assert(texts(list@) =~= left.drop_last());
            assert(texts(out@) =~= done.push(left.last()));
        }
    }
    out
}

/// What is reported where the selection names a position that the list does not have.
pub open spec fn invalid_selection(at: int) -> Seq<char> {
    "Invalid commit selection index: "@ + decimal_of(at as nat)
}

/// Pick the chosen commits one by one, against the order of the selection,
/// up to the first pick that fails. As the log lists the newest commit
/// first, the oldest of the chosen commits is picked first. No call at all
/// where the prompt failed or was abandoned, where nothing was chosen, where
/// a position is chosen that the list does not have, or where a chosen entry
/// has no identifier.
pub open spec fn finish_plan(
    replies: Seq<Reply>,
    commits: Seq<Seq<char>>,
    answer: Result<Seq<int>, Seq<char>>,
    verbose: bool,
) -> Plan<Result<(), Option<Seq<char>>>> {
    match answer {
        Err(_) => Plan { calls: seq![], result: Err(Some("Failed to get user input"@)) },
        Ok(selection) => if selection.len() == 0 {
            Plan { calls: seq![], result: Err(Some("No commits selected"@)) }
        } else {
            match stray(selection, commits.len(), 0) {
                Some(at) => Plan { calls: seq![], result: Err(Some(invalid_selection(at))) },
                None => match identifiers(chosen(commits, selection)) {
                    None => Plan {
                        calls: seq![],
                        result: Err(Some("Failed to parse commits format"@)),
                    },
                    Some(shas) => {
                        let each = each_plan(
                            replies,
                            calls_on(seq!["cherry-pick"@], shas.reverse(), verbose),
                        );
                        Plan {
                            calls: each.calls,
                            result: if each.result is Some {
                                Err(Some("Failed to cherry-pick commit"@))
                            } else {
                                Ok(())
                            },
                        }
                    },
                },
            }
        },
    }
}

/// Completes the verb once the choice among `commits` is made.
pub fn finish<T: Exec>(
    command: &mut Session<T>,
    commits: &Vec<String>,
    answer: Result<Vec<usize>, String>,
    verbose: bool,
) -> (r: Result<(), Option<String>>)
    ensures
        performed(
            old(command).history(),
            final(command).history(),
            finish_plan(
                heard(old(command).history(), final(command).history()),
                texts(commits@),
                answers_of(answer),
                verbose,
            ),
            failure(r),
        ),
{
    proof {
        lemma_start(command.history());
    }
    let selection = match answer {
        Ok(selection) => selection,
        Err(_) => {
            return Err(Some("Failed to get user input".to_owned()));
        },
    };
    if selection.len() == 0 {
        return Err(Some("No commits selected".to_owned()));
    }
    let entries = match pick(commits, &selection) {
        Ok(entries) => entries,
        Err(at) => {
            let number = decimal(at as u64);
            return Err(Some(chain("Invalid commit selection index: ", number.as_str())));
        },
    };
    let shas = match identifiers_of(&entries) {
        Some(shas) => reversed(shas),
        None => {
            return Err(Some("Failed to parse commits format".to_owned()));
        },
    };
    let head: [&str; 1] = ["cherry-pick"];
    assert(strs(head@) =~= seq!["cherry-pick"@]);
    match run_each(command, &head, &shas, verbose) {
        Some(_) => Err(Some("Failed to cherry-pick commit".to_owned())),
        None => Ok(()),
    }
}

/// The call that picks the commit `sha`.
pub open spec fn pick_call(sha: Seq<char>, verbose: bool) -> Call {
    captured(seq!["cherry-pick"@, sha], verbose)
}

/// The identifiers are those of the entries, one for each, in their order.
pub proof fn lemma_identifiers(entries: Seq<Seq<char>>)
    ensures
        identifiers(entries) matches Some(shas) ==> {
            &&& shas.len() == entries.len()
            &&& forall|k: int|
                0 <= k < entries.len() ==> first_token_of(entries[k]) == Some(#[trigger] shas[k])
        },
    decreases entries.len(),
{
    if entries.len() > 0 {
        lemma_identifiers(entries.drop_last());
    }
}

/// With nothing chosen, nothing is picked and the verb fails. Else the picks
/// are those of the chosen entries against the order of the selection: the
/// entry chosen last is picked first, the one chosen before it second. None
/// is left out unless an earlier pick failed.
pub proof fn lemma_picks_oldest_first(
    replies: Seq<Reply>,
    commits: Seq<Seq<char>>,
    selection: Seq<int>,
    verbose: bool,
)
    ensures
        selection.len() == 0 ==> finish_plan(replies, commits, Ok(selection), verbose) == (Plan {
            calls: Seq::<Call>::empty(),
            result: Err::<(), Option<Seq<char>>>(Some("No commits selected"@)),
        }),
        ({
            let plan = finish_plan(replies, commits, Ok(selection), verbose);
            let last = selection.len() - 1;
            &&& plan.calls.len() <= selection.len()
            &&& forall|j: int|
                selection.len() - plan.calls.len() <= j < selection.len() ==> {
                    &&& 0 <= #[trigger] selection[j] < commits.len()
                    &&& first_token_of(commits[selection[j]]) is Some
                    &&& plan.calls[last - j] == pick_call(
                        first_token_of(commits[selection[j]])->0,
                        verbose,
                    )
                }
            &&& plan.result is Ok ==> plan.calls.len() == selection.len()
        }),
{
    let plan = finish_plan(replies, commits, Ok(selection), verbose);
    let last = selection.len() - 1;
    lemma_stray(selection, commits.len(), 0);
    if selection.len() > 0 && stray(selection, commits.len(), 0) is None {
        let entries = chosen(commits, selection);
        lemma_identifiers(entries);
        match identifiers(entries) {
            Some(shas) => {
                let calls = calls_on(seq!["cherry-pick"@], shas.reverse(), verbose);
                lemma_each_plan(replies, calls);
                assert(plan.calls == each_plan(replies, calls).calls);
                assert(calls.len() == selection.len());
                assert(plan.result is Ok ==> each_plan(replies, calls).result is None);
                assert forall|j: int|
                    selection.len() - plan.calls.len() <= j < selection.len() implies {
                    &&& 0 <= #[trigger] selection[j] < commits.len()
                    &&& first_token_of(commits[selection[j]]) is Some
                    &&& plan.calls[last - j] == pick_call(
                        first_token_of(commits[selection[j]])->0,
                        verbose,
                    )
                } by {
                    let k = last - j;
                    assert(plan.calls[k] == calls[k]);
                    assert(shas.reverse()[k] == shas[j]);
                    assert(first_token_of(entries[j]) == Some(shas[j]));
                    assert(entries[j] == commits[selection[j]]);
                    assert(seq!["cherry-pick"@].push(shas[j]) =~= seq!["cherry-pick"@, shas[j]]);
                }
            },
            None => {},
        }
    }
}

/// The picking ends at the first pick that fails, and succeeds only where
/// every pick succeeded.
pub proof fn lemma_picks_fail_fast(
    replies: Seq<Reply>,
    commits: Seq<Seq<char>>,
    answer: Result<Seq<int>, Seq<char>>,
    verbose: bool,
)
    ensures
        fails_fast(replies, finish_plan(replies, commits, answer, verbose)),
{
    match answer {
        Ok(selection) => {
            if selection.len() > 0 && stray(selection, commits.len(), 0) is None {
                match identifiers(chosen(commits, selection)) {
                    Some(shas) => {
                        lemma_each_plan(
                            replies,
                            calls_on(seq!["cherry-pick"@], shas.reverse(), verbose),
                        );
                    },
                    None => {},
                }
            }
        },
        Err(_) => {},
    }
}

} // verus!
