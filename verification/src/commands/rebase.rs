//! Rebasing the current branch onto the latest base.

use crate::commands::{
    after, captured, ending, fails_fast, heard, lemma_since_add, lemma_start, performed, single,
    then, Exec, Plan, Reply, Session,
};
use crate::text::{chain, chain3, strs};
use crate::utils::{
    lemma_helpers_fail_fast, lemma_refresh_plan_frame, lemma_stash_plan_frame, refresh_base,
    refresh_plan, restore_call, stash, stash_plan, unstash, unstash_plan,
};
use crate::views::{summary, text_err};
use vstd::prelude::*;

verus! {

/// What is reported once the branch is rebased.
pub open spec fn rebased(base: Seq<char>) -> Seq<char> {
    "Rebased onto "@ + base
}

/// Switch to the base, pull it, switch back to the branch that was current,
/// and rebase it onto the base. The first failure ends the sequence.
pub open spec fn onto_plan(replies: Seq<Reply>, base: Seq<char>, verbose: bool) -> Plan<
    Result<(), Seq<char>>,
> {
    let refresh = refresh_plan(replies, base, verbose);
    if refresh.result is Err {
        ending(refresh, Err("Failed to refresh base branch '"@ + base + "'"@))
    } else {
        then(refresh, {
            let replies = after(replies, refresh);
            let back = captured(seq!["checkout"@, "-"@], verbose);
            let rebase = captured(seq!["rebase"@, base], verbose);
            if replies[0] is Err {
                single(back, Err("Failed to checkout back to initial branch (git checkout -)"@))
            } else {
                then(
                    single(back, ()),
                    single(
                        rebase,
                        if replies[1] is Err {
                            Err("Failed to rebase onto '"@ + base + "'"@)
                        } else {
                            Ok(())
                        },
                    ),
                )
            }
        })
    }
}

/// Rebases onto the refreshed base, leaving the stash alone.
pub fn rebase_onto<T: Exec>(command: &mut Session<T>, base: &str, verbose: bool) -> (r: Result<
    (),
    String,
>)
    ensures
        performed(
            old(command).history(),
            final(command).history(),
            onto_plan(heard(old(command).history(), final(command).history()), base@, verbose),
            text_err(r),
        ),
{
    let ghost h0 = command.history();
    let refreshed = refresh_base(command, base, verbose);
    let ghost h1 = command.history();
    if refreshed.is_err() {
        return Err(chain3("Failed to refresh base branch '", base, "'"));
    }
    proof {
        lemma_start(h1);
    }
    let back: [&str; 2] = ["checkout", "-"];
    assert(strs(back@) =~= seq!["checkout"@, "-"@]);
    let returned = command.step(Ghost(h1), &back, verbose, false);
    proof {
        lemma_since_add(h0, h1, command.history());
        lemma_refresh_plan_frame(heard(h0, h1), heard(h1, command.history()), base@, verbose);
    }
    if returned.is_err() {
        return Err("Failed to checkout back to initial branch (git checkout -)".to_owned());
    }
    let rebase: [&str; 2] = ["rebase", base];
    assert(strs(rebase@) =~= seq!["rebase"@, base@]);
    let done = command.step(Ghost(h1), &rebase, verbose, false);
    proof {
        lemma_since_add(h0, h1, command.history());
        lemma_refresh_plan_frame(heard(h0, h1), heard(h1, command.history()), base@, verbose);
    }
    if done.is_err() {
        return Err(chain3("Failed to rebase onto '", base, "'"));
    }
    Ok(())
}

/// The sequence of [`onto_plan`] reads no reply beyond those to its own calls.
pub proof fn lemma_onto_plan_frame(
    own: Seq<Reply>,
    later: Seq<Reply>,
    base: Seq<char>,
    verbose: bool,
)
    requires
        onto_plan(own, base, verbose).calls.len() <= own.len(),
    ensures
        onto_plan(own + later, base, verbose) == onto_plan(own, base, verbose),
{
    lemma_refresh_plan_frame(own, later, base, verbose);
    let refresh = refresh_plan(own, base, verbose);
    assert(after(own + later, refresh) =~= after(own, refresh) + later);
}

/// Stash if needed, rebase onto the refreshed base, then restore what was
/// stashed. The first failure ends the verb; what was stashed then stays
/// stashed.
pub open spec fn rebase_plan(replies: Seq<Reply>, base: Seq<char>, verbose: bool) -> Plan<
    Result<Seq<char>, Option<Seq<char>>>,
> {
    let guard = stash_plan(replies, verbose);
    match guard.result {
        Err(e) => ending(guard, Err(Some(e))),
        Ok(stashed) => then(guard, {
            let replies = after(replies, guard);
            let onto = onto_plan(replies, base, verbose);
            match onto.result {
                Err(e) => ending(onto, Err(Some(e))),
                Ok(_) => if !stashed {
                    ending(onto, Ok(rebased(base)))
                } else {
                    then(onto, {
                        let restore = unstash_plan(after(replies, onto), verbose);
                        match restore.result {
                            Err(e) => ending(restore, Err(Some(e))),
                            Ok(_) => ending(restore, Ok(rebased(base))),
                        }
                    })
                },
            }
        }),
    }
}

/// Rebases the current branch onto the latest `base` and reports it.
pub fn run<T: Exec>(command: &mut Session<T>, base: &str, verbose: bool) -> (r: Result<
    String,
    Option<String>,
>)
    ensures
        performed(
            old(command).history(),
            final(command).history(),
            rebase_plan(heard(old(command).history(), final(command).history()), base@, verbose),
            summary(r),
        ),
{
    let ghost h0 = command.history();
    let unsaved_changes = match stash(command, verbose) {
        Ok(found) => found,
        Err(e) => {
            return Err(Some(e));
        },
    };
    let ghost h1 = command.history();
    let moved = rebase_onto(command, base, verbose);
    let ghost h2 = command.history();
    proof {
        lemma_since_add(h0, h1, h2);
        lemma_stash_plan_frame(heard(h0, h1), heard(h1, h2), verbose);
    }
    match moved {
        Ok(_) => {},
        Err(e) => {
            return Err(Some(e));
        },
    }
    if unsaved_changes {
        let restored = unstash(command, verbose);
        let ghost h3 = command.history();
        proof {
            lemma_since_add(h1, h2, h3);
            lemma_since_add(h0, h1, h3);
            lemma_stash_plan_frame(heard(h0, h1), heard(h1, h3), verbose);
            lemma_onto_plan_frame(heard(h1, h2), heard(h2, h3), base@, verbose);
        }
        match restored {
            Ok(_) => {},
            Err(e) => {
                return Err(Some(e));
            },
        }
    }
    Ok(chain("Rebased onto ", base))
}

/// The call that restores the stash is issued only where one was created,
/// and then only after everything else succeeded.
pub proof fn lemma_restore_only_after_stash(replies: Seq<Reply>, base: Seq<char>, verbose: bool)
    ensures
        rebase_plan(replies, base, verbose).calls.contains(restore_call(verbose)) ==> {
            &&& stash_plan(replies, verbose).result == Ok::<bool, Seq<char>>(true)
            &&& onto_plan(after(replies, stash_plan(replies, verbose)), base, verbose).result is Ok
            &&& rebase_plan(replies, base, verbose).calls.last() == restore_call(verbose)
        },
{
    reveal_strlit("stash");
    reveal_strlit("status");
    reveal_strlit("checkout");
    reveal_strlit("rebase");
    reveal_strlit("pull");
    reveal_strlit("pop");
    reveal_strlit("-u");
    let restore = restore_call(verbose);
    let plan = rebase_plan(replies, base, verbose);
    let guard = stash_plan(replies, verbose);
    let onto = onto_plan(after(replies, guard), base, verbose);
    assert forall|k: int| 0 <= k < guard.calls.len() implies guard.calls[k] != restore by {
        assert(guard.calls[k].args[0].len() != restore.args[0].len() || guard.calls[k].args[1].len()
            != restore.args[1].len());
    }
    assert forall|k: int| 0 <= k < onto.calls.len() implies onto.calls[k] != restore by {
        assert(onto.calls[k].args[0].len() != restore.args[0].len());
    }
    if plan.calls.contains(restore) {
        let k = choose|k: int| 0 <= k < plan.calls.len() && plan.calls[k] == restore;
        if guard.result is Ok {
            if k < guard.calls.len() {
                assert(plan.calls[k] == guard.calls[k]);
            } else if k < guard.calls.len() + onto.calls.len() {
                assert(plan.calls[k] == onto.calls[k - guard.calls.len()]);
            }
        } else {
            assert(plan.calls[k] == guard.calls[k]);
        }
    }
}

/// Rebasing onto the refreshed base ends at the first call that fails.
pub proof fn lemma_onto_fails_fast(replies: Seq<Reply>, base: Seq<char>, verbose: bool)
    requires
        onto_plan(replies, base, verbose).calls.len() <= replies.len(),
    ensures
        fails_fast(replies, onto_plan(replies, base, verbose)),
{
    lemma_helpers_fail_fast(replies, base, verbose);
}

/// The verb ends at the first call that fails, and reports success only
/// where every call succeeded.
pub proof fn lemma_rebase_fails_fast(replies: Seq<Reply>, base: Seq<char>, verbose: bool)
    requires
        rebase_plan(replies, base, verbose).calls.len() <= replies.len(),
    ensures
        fails_fast(replies, rebase_plan(replies, base, verbose)),
{
    lemma_helpers_fail_fast(replies, base, verbose);
    let guard = stash_plan(replies, verbose);
    if guard.result is Ok {
        let rest = after(replies, guard);
        let onto = onto_plan(rest, base, verbose);
        lemma_onto_fails_fast(rest, base, verbose);
        lemma_helpers_fail_fast(after(rest, onto), base, verbose);
        let plan = rebase_plan(replies, base, verbose);
        assert forall|k: int| 0 <= k < plan.calls.len() - 1 implies #[trigger] replies[k] is Ok by {
            if k >= guard.calls.len() {
                assert(replies[k] == rest[k - guard.calls.len()]);
                if k >= guard.calls.len() + onto.calls.len() {
                    assert(replies[k] == after(rest, onto)[k - guard.calls.len()
                        - onto.calls.len()]);
                }
            }
        }
        if plan.result is Ok {
            let last = plan.calls.len() - 1;
            assert(replies[last] == rest[last - guard.calls.len()]);
            if last >= guard.calls.len() + onto.calls.len() {
                assert(replies[last] == after(rest, onto)[last - guard.calls.len()
                    - onto.calls.len()]);
            }
        }
    }
}

} // verus!
