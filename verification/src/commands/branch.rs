//! Creating a branch from the latest base.

use crate::commands::{
    after, captured, ending, fails_fast, heard, lemma_since_add, lemma_start, performed, single,
    then, Exec, Plan, Reply, Session,
};
use crate::text::{chain, occurs_at, strs};
use crate::utils::{
    lemma_helpers_fail_fast, lemma_refresh_plan_frame, lemma_stash_plan_frame, refresh_base,
    refresh_plan, restore_call, stash, stash_plan, unstash, unstash_plan,
};
use crate::views::{summary, text_err};
use vstd::prelude::*;

verus! {

/// What is reported once the branch stands.
pub open spec fn created(name: Seq<char>) -> Seq<char> {
    "Created branch "@ + name
}

/// Switch to the base, pull it, create the branch there and switch to it.
/// The first failure ends the sequence.
pub open spec fn create_plan(
    replies: Seq<Reply>,
    name: Seq<char>,
    base: Seq<char>,
    verbose: bool,
) -> Plan<Result<(), Seq<char>>> {
    let refresh = refresh_plan(replies, base, verbose);
    if refresh.result is Err {
        ending(refresh, Err("Failed to refresh base branch"@))
    } else {
        then(
            refresh,
            single(
                captured(seq!["checkout"@, "-b"@, name], verbose),
                if after(replies, refresh)[0] is Err {
                    Err("Failed to create branch"@)
                } else {
                    Ok(())
                },
            ),
        )
    }
}

/// Creates the branch from the refreshed base, leaving the stash alone.
pub fn create_from<T: Exec>(command: &mut Session<T>, name: &str, base: &str, verbose: bool) -> (r:
    Result<(), String>)
    ensures
        performed(
            old(command).history(),
            final(command).history(),
            create_plan(
                heard(old(command).history(), final(command).history()),
                name@,
                base@,
                verbose,
            ),
            text_err(r),
        ),
{
    let ghost h0 = command.history();
    let refreshed = refresh_base(command, base, verbose);
    let ghost h1 = command.history();
    if refreshed.is_err() {
        return Err("Failed to refresh base branch".to_owned());
    }
    proof {
        lemma_start(h1);
    }
    let create: [&str; 3] = ["checkout", "-b", name];
    assert(strs(create@) =~= seq!["checkout"@, "-b"@, name@]);
    let made = command.step(Ghost(h1), &create, verbose, false);
    proof {
        lemma_since_add(h0, h1, command.history());
        lemma_refresh_plan_frame(heard(h0, h1), heard(h1, command.history()), base@, verbose);
    }
    if made.is_err() {
        return Err("Failed to create branch".to_owned());
    }
    Ok(())
}

/// The sequence of [`create_plan`] reads no reply beyond those to its own calls.
pub proof fn lemma_create_plan_frame(
    own: Seq<Reply>,
    later: Seq<Reply>,
    name: Seq<char>,
    base: Seq<char>,
    verbose: bool,
)
    requires
        create_plan(own, name, base, verbose).calls.len() <= own.len(),
    ensures
        create_plan(own + later, name, base, verbose) == create_plan(own, name, base, verbose),
{
    lemma_refresh_plan_frame(own, later, base, verbose);
    let refresh = refresh_plan(own, base, verbose);
    assert(after(own + later, refresh) =~= after(own, refresh) + later);
}

/// Stash if needed, create the branch from the refreshed base, then restore
/// what was stashed. The first failure ends the verb; what was stashed then
/// stays stashed.
pub open spec fn branch_plan(
    replies: Seq<Reply>,
    name: Seq<char>,
    base: Seq<char>,
    verbose: bool,
) -> Plan<Result<Seq<char>, Option<Seq<char>>>> {
    let guard = stash_plan(replies, verbose);
    match guard.result {
        Err(e) => ending(guard, Err(Some(e))),
        Ok(stashed) => then(guard, {
            let replies = after(replies, guard);
            let create = create_plan(replies, name, base, verbose);
            match create.result {
                Err(e) => ending(create, Err(Some(e))),
                Ok(_) => if !stashed {
                    ending(create, Ok(created(name)))
                } else {
                    then(create, {
                        let restore = unstash_plan(after(replies, create), verbose);
                        match restore.result {
                            Err(e) => ending(restore, Err(Some(e))),
                            Ok(_) => ending(restore, Ok(created(name))),
                        }
                    })
                },
            }
        }),
    }
}

/// Creates the branch `name` from the latest `base` and reports it.
pub fn run<T: Exec>(command: &mut Session<T>, name: &str, base: &str, verbose: bool) -> (r: Result<
    String,
    Option<String>,
>)
    ensures
        performed(
            old(command).history(),
            final(command).history(),
            branch_plan(
                heard(old(command).history(), final(command).history()),
                name@,
                base@,
                verbose,
            ),
            summary(r),
        ),
{
    let ghost h0 = command.history();
    let unsaved_changes = match stash(command, verbose) {
        Ok(found) => found,
        Err(e) => {
            return Err(Some(e));
        },
    };
    let ghost h1 = command.history();
    let made = create_from(command, name, base, verbose);
    let ghost h2 = command.history();
    proof {
        lemma_since_add(h0, h1, h2);
        lemma_stash_plan_frame(heard(h0, h1), heard(h1, h2), verbose);
    }
    match made {
        Ok(_) => {},
        Err(e) => {
            return Err(Some(e));
        },
    }
    if unsaved_changes {
        let restored = unstash(command, verbose);
        let ghost h3 = command.history();
        proof {
            lemma_since_add(h1, h2, h3);
            lemma_since_add(h0, h1, h3);
            lemma_stash_plan_frame(heard(h0, h1), heard(h1, h3), verbose);
            lemma_create_plan_frame(heard(h1, h2), heard(h2, h3), name@, base@, verbose);
        }
        match restored {
            Ok(_) => {},
            Err(e) => {
                return Err(Some(e));
            },
        }
    }
    Ok(chain("Created branch ", name))
}

/// Where the verb succeeds, what it reports holds the name of the new branch
/// exactly as it was given: the report is `Created branch ` followed by it.
pub proof fn lemma_summary_names_the_branch(
    replies: Seq<Reply>,
    name: Seq<char>,
    base: Seq<char>,
    verbose: bool,
)
    ensures
        branch_plan(replies, name, base, verbose).result matches Ok(text) ==> text == created(name)
            && occurs_at(text, name, "Created branch "@.len() as int),
{
    assert(created(name).subrange(
        "Created branch "@.len() as int,
        "Created branch "@.len() as int + name.len(),
    ) =~= name);
}

/// The call that restores the stash is issued only where one was created,
/// and then only after everything else succeeded.
pub proof fn lemma_restore_only_after_stash(
    replies: Seq<Reply>,
    name: Seq<char>,
    base: Seq<char>,
    verbose: bool,
)
    ensures
        branch_plan(replies, name, base, verbose).calls.contains(restore_call(verbose)) ==> {
            &&& stash_plan(replies, verbose).result == Ok::<bool, Seq<char>>(true)
            &&& create_plan(
                after(replies, stash_plan(replies, verbose)),
                name,
                base,
                verbose,
            ).result is Ok
            &&& branch_plan(replies, name, base, verbose).calls.last() == restore_call(verbose)
        },
{
    reveal_strlit("stash");
    reveal_strlit("status");
    reveal_strlit("checkout");
    reveal_strlit("pull");
    reveal_strlit("pop");
    reveal_strlit("-u");
    let restore = restore_call(verbose);
    let plan = branch_plan(replies, name, base, verbose);
    let guard = stash_plan(replies, verbose);
    let create = create_plan(after(replies, guard), name, base, verbose);
    assert forall|k: int| 0 <= k < guard.calls.len() implies guard.calls[k] != restore by {
        assert(guard.calls[k].args[0].len() != restore.args[0].len() || guard.calls[k].args[1].len()
            != restore.args[1].len());
    }
    assert forall|k: int| 0 <= k < create.calls.len() implies create.calls[k] != restore by {
        assert(create.calls[k].args[0].len() != restore.args[0].len());
    }
    if plan.calls.contains(restore) {
        let k = choose|k: int| 0 <= k < plan.calls.len() && plan.calls[k] == restore;
        if guard.result is Ok {
            if k < guard.calls.len() {
                assert(plan.calls[k] == guard.calls[k]);
            } else if k < guard.calls.len() + create.calls.len() {
                assert(plan.calls[k] == create.calls[k - guard.calls.len()]);
            }
        } else {
            assert(plan.calls[k] == guard.calls[k]);
        }
    }
}

/// Creating the branch from the refreshed base ends at the first call that
/// fails.
pub proof fn lemma_create_fails_fast(
    replies: Seq<Reply>,
    name: Seq<char>,
    base: Seq<char>,
    verbose: bool,
)
    requires
        create_plan(replies, name, base, verbose).calls.len() <= replies.len(),
    ensures
        fails_fast(replies, create_plan(replies, name, base, verbose)),
{
    lemma_helpers_fail_fast(replies, base, verbose);
}

/// The verb ends at the first call that fails, and reports success only
/// where every call succeeded.
pub proof fn lemma_branch_fails_fast(
    replies: Seq<Reply>,
    name: Seq<char>,
    base: Seq<char>,
    verbose: bool,
)
    requires
        branch_plan(replies, name, base, verbose).calls.len() <= replies.len(),
    ensures
        fails_fast(replies, branch_plan(replies, name, base, verbose)),
{
    lemma_helpers_fail_fast(replies, base, verbose);
    let guard = stash_plan(replies, verbose);
    if guard.result is Ok {
        let rest = after(replies, guard);
        let create = create_plan(rest, name, base, verbose);
        lemma_create_fails_fast(rest, name, base, verbose);
        lemma_helpers_fail_fast(after(rest, create), base, verbose);
        let plan = branch_plan(replies, name, base, verbose);
        assert forall|k: int| 0 <= k < plan.calls.len() - 1 implies #[trigger] replies[k] is Ok by {
            if k >= guard.calls.len() {
                assert(replies[k] == rest[k - guard.calls.len()]);
                if k >= guard.calls.len() + create.calls.len() {
                    assert(replies[k] == after(rest, create)[k - guard.calls.len()
                        - create.calls.len()]);
                }
            }
        }
        if plan.result is Ok {
            let last = plan.calls.len() - 1;
            assert(replies[last] == rest[last - guard.calls.len()]);
            if last >= guard.calls.len() + create.calls.len() {
                assert(replies[last] == after(rest, create)[last - guard.calls.len()
                    - create.calls.len()]);
            }
        }
    }
}

} // verus!
