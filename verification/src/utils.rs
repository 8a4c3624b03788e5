//! The base resolver and the stash guard: the two helpers that the verbs which
//! switch branches share.

use crate::commands::{
    captured, fails_fast, heard, lemma_since_add, lemma_start, performed, Call, Exec, Plan, Reply,
    Session,
};
use crate::text::strs;
use crate::views::{name_or_err, option_text, outcome, text_err, text_or_err};
use vstd::prelude::*;

verus! {

/// The status call of the stash guard.
pub open spec fn status_call(verbose: bool) -> Call {
    captured(seq!["status"@, "--porcelain"@], verbose)
}

/// The call that creates a stash.
pub open spec fn save_call(verbose: bool) -> Call {
    captured(seq!["stash"@, "-u"@], verbose)
}

/// The call that restores a stash.
pub open spec fn restore_call(verbose: bool) -> Call {
    captured(seq!["stash"@, "pop"@], verbose)
}

/// Whether the status that came back shows changes.
pub open spec fn dirty(replies: Seq<Reply>) -> bool {
    replies[0] matches Ok(report) && report.len() > 0
}

/// The stash guard's plan: ask for the status; where it reports nothing, stop
/// with `false`; otherwise stash, untracked files included, and stop with `true`.
pub open spec fn stash_plan(replies: Seq<Reply>, verbose: bool) -> Plan<Result<bool, Seq<char>>> {
    if replies[0] is Err {
        Plan {
            calls: seq![status_call(verbose)],
            result: Err("Failed to retrieve branch status"@),
        }
    } else if !dirty(replies) {
        Plan { calls: seq![status_call(verbose)], result: Ok(false) }
    } else {
        Plan {
            calls: seq![status_call(verbose), save_call(verbose)],
            result: if replies[1] is Ok {
                Ok(true)
            } else {
                Err("Failed to stash changes"@)
            },
        }
    }
}

/// Stashes the local changes, if there are any, and says whether it did.
pub fn stash<T: Exec>(command: &mut Session<T>, verbose: bool) -> (r: Result<bool, String>)
    ensures
        performed(
            old(command).history(),
            final(command).history(),
            stash_plan(heard(old(command).history(), final(command).history()), verbose),
            text_err(r),
        ),
{
    let ghost h0 = command.history();
    proof {
        lemma_start(h0);
    }
    let status_args: [&str; 2] = ["status", "--porcelain"];
    assert(strs(status_args@) =~= seq!["status"@, "--porcelain"@]);
    match command.step(Ghost(h0), &status_args, verbose, false) {
        Err(_) => Err("Failed to retrieve branch status".to_owned()),
        Ok(report) => {
            if report.as_str().is_empty() {
                Ok(false)
            } else {
                let save_args: [&str; 2] = ["stash", "-u"];
                assert(strs(save_args@) =~= seq!["stash"@, "-u"@]);
                match command.step(Ghost(h0), &save_args, verbose, false) {
                    Ok(_) => Ok(true),
                    Err(_) => Err("Failed to stash changes".to_owned()),
                }
            }
        },
    }
}

/// Restoring what the stash guard put away: one call.
pub open spec fn unstash_plan(replies: Seq<Reply>, verbose: bool) -> Plan<Result<(), Seq<char>>> {
    Plan {
        calls: seq![restore_call(verbose)],
        result: if replies[0] is Ok {
            Ok(())
        } else {
            Err("Failed to unstash changes"@)
        },
    }
}

/// Restores what the stash guard put away.
pub fn unstash<T: Exec>(command: &mut Session<T>, verbose: bool) -> (r: Result<(), String>)
    ensures
        performed(
            old(command).history(),
            final(command).history(),
            unstash_plan(heard(old(command).history(), final(command).history()), verbose),
            text_err(r),
        ),
{
    let ghost h0 = command.history();
    proof {
        lemma_start(h0);
    }
    let args: [&str; 2] = ["stash", "pop"];
    assert(strs(args@) =~= seq!["stash"@, "pop"@]);
    match command.step(Ghost(h0), &args, verbose, false) {
        Ok(_) => Ok(()),
        Err(_) => Err("Failed to unstash changes".to_owned()),
    }
}

/// Whether a reply to an existence probe shows the branch: the listing
/// succeeded and printed something.
pub open spec fn found(reply: Reply) -> bool {
    reply matches Ok(listing) && listing.len() > 0
}

/// The existence probe for the branch of exactly that name.
pub open spec fn probe(branch: Seq<char>, verbose: bool) -> Call {
    captured(seq!["branch"@, "-l"@, branch], verbose)
}

/// One call: the existence probe. An empty listing means that the branch is not there.
pub open spec fn search_plan(replies: Seq<Reply>, branch: Seq<char>, verbose: bool) -> Plan<
    Result<(), Seq<char>>,
> {
    Plan {
        calls: seq![probe(branch, verbose)],
        result: match replies[0] {
            Err(_) => Err("Failed to list branch"@),
            Ok(listing) => if listing.len() == 0 {
                Err("Branch not found"@)
            } else {
                Ok(())
            },
        },
    }
}

/// Probes for the branch of exactly that name.
pub fn search_branch<T: Exec>(command: &mut Session<T>, branch: &str, verbose: bool) -> (r: Result<
    (),
    String,
>)
    ensures
        performed(
            old(command).history(),
            final(command).history(),
            search_plan(heard(old(command).history(), final(command).history()), branch@, verbose),
            text_err(r),
        ),
        r is Ok <==> found(heard(old(command).history(), final(command).history())[0]),
{
    let ghost h0 = command.history();
    proof {
        lemma_start(h0);
    }
    let args: [&str; 3] = ["branch", "-l", branch];
    assert(strs(args@) =~= seq!["branch"@, "-l"@, branch@]);
    match command.step(Ghost(h0), &args, verbose, false) {
        Err(_) => Err("Failed to list branch".to_owned()),
        Ok(listing) => {
            if listing.as_str().is_empty() {
                Err("Branch not found".to_owned())
            } else {
                Ok(())
            }
        },
    }
}

/// The base resolver's probing: `main` first, `master` only where `main` is
/// not there, and no third name.
pub open spec fn default_branch_plan(replies: Seq<Reply>, verbose: bool) -> Plan<
    Result<Seq<char>, Seq<char>>,
> {
    if found(replies[0]) {
        Plan { calls: seq![probe("main"@, verbose)], result: Ok("main"@) }
    } else {
        Plan {
            calls: seq![probe("main"@, verbose), probe("master"@, verbose)],
            result: if found(replies[1]) {
                Ok("master"@)
            } else {
                Err("Failed to determine default branch"@)
            },
        }
    }
}

/// The conventional name of the main branch that exists in this repository.
pub fn get_default_branch<T: Exec>(command: &mut Session<T>, verbose: bool) -> (r: Result<
    &'static str,
    String,
>)
    ensures
        performed(
            old(command).history(),
            final(command).history(),
            default_branch_plan(heard(old(command).history(), final(command).history()), verbose),
            name_or_err(r),
        ),
{
    let ghost h0 = command.history();
    if search_branch(command, "main", verbose).is_ok() {
        return Ok("main");
    }
    let ghost h1 = command.history();
    let second = search_branch(command, "master", verbose);
    proof {
        lemma_since_add(h0, h1, command.history());
    }
    if second.is_ok() {
        return Ok("master");
    }
    Err("Failed to determine default branch".to_owned())
}

/// The base resolver: an explicit base is taken as it stands, without a
/// single call; without one, the probing decides.
pub open spec fn base_plan(replies: Seq<Reply>, base: Option<Seq<char>>, verbose: bool) -> Plan<
    Result<Seq<char>, Seq<char>>,
> {
    match base {
        Some(name) => Plan { calls: seq![], result: Ok(name) },
        None => default_branch_plan(replies, verbose),
    }
}

/// The base branch to work from. `Err` is the fatal case in which no base was
/// given and neither conventional name exists.
pub fn get_base<T: Exec>(command: &mut Session<T>, base: Option<String>, verbose: bool) -> (r:
    Result<String, String>)
    ensures
        performed(
            old(command).history(),
            final(command).history(),
            base_plan(
                heard(old(command).history(), final(command).history()),
                option_text(base),
                verbose,
            ),
            text_or_err(r),
        ),
{
    match base {
        Some(name) => {
            proof {
                lemma_start(command.history());
            }
            Ok(name)
        },
        None => match get_default_branch(command, verbose) {
            Ok(name) => Ok(name.to_owned()),
            Err(e) => Err(e),
        },
    }
}

/// Switching to the base and bringing it up to date: two calls, the second
/// only after the first succeeded.
pub open spec fn refresh_plan(replies: Seq<Reply>, base: Seq<char>, verbose: bool) -> Plan<
    Result<(), ()>,
> {
    let switch = captured(seq!["checkout"@, base], verbose);
    let pull = captured(seq!["pull"@], verbose);
    if replies[0] is Err {
        Plan { calls: seq![switch], result: Err(()) }
    } else {
        Plan {
            calls: seq![switch, pull],
            result: if replies[1] is Ok {
                Ok(())
            } else {
                Err(())
            },
        }
    }
}

/// Switches to `base` and pulls it.
pub fn refresh_base<'a, T: Exec>(command: &mut Session<T>, base: &'a str, verbose: bool) -> (r:
    Result<&'a str, ()>)
    ensures
        performed(
            old(command).history(),
            final(command).history(),
            refresh_plan(heard(old(command).history(), final(command).history()), base@, verbose),
            outcome(r),
        ),
        r matches Ok(name) ==> name@ == base@,
{
    let ghost h0 = command.history();
    proof {
        lemma_start(h0);
    }
    let switch: [&str; 2] = ["checkout", base];
    assert(strs(switch@) =~= seq!["checkout"@, base@]);
    if command.step(Ghost(h0), &switch, verbose, false).is_err() {
        return Err(());
    }
    let pull: [&str; 1] = ["pull"];
    assert(strs(pull@) =~= seq!["pull"@]);
    match command.step(Ghost(h0), &pull, verbose, false) {
        Ok(_) => Ok(base),
        Err(_) => Err(()),
    }
}

/// A stash guard's plan reads no reply beyond those to its own calls.
pub proof fn lemma_stash_plan_frame(own: Seq<Reply>, later: Seq<Reply>, verbose: bool)
    requires
        stash_plan(own, verbose).calls.len() <= own.len(),
    ensures
        stash_plan(own + later, verbose) == stash_plan(own, verbose),
{
}

/// A refresh reads no reply beyond those to its own calls.
pub proof fn lemma_refresh_plan_frame(
    own: Seq<Reply>,
    later: Seq<Reply>,
    base: Seq<char>,
    verbose: bool,
)
    requires
        refresh_plan(own, base, verbose).calls.len() <= own.len(),
    ensures
        refresh_plan(own + later, base, verbose) == refresh_plan(own, base, verbose),
{
}

/// The base resolver reads no reply beyond those to its own calls.
pub proof fn lemma_base_plan_frame(
    own: Seq<Reply>,
    later: Seq<Reply>,
    base: Option<Seq<char>>,
    verbose: bool,
)
    requires
        base_plan(own, base, verbose).calls.len() <= own.len(),
    ensures
        base_plan(own + later, base, verbose) == base_plan(own, base, verbose),
{
}

/// The stash guard on a clean tree answers `false` and issues nothing but
/// the status call. On a dirty tree it issues the status call and the call
/// that creates the stash, once, and answers `true` where that call
/// succeeds. It answers `true` in no other case.
pub proof fn lemma_stash_guard(replies: Seq<Reply>, verbose: bool)
    ensures
        replies[0] is Ok && !dirty(replies) ==> stash_plan(replies, verbose) == (Plan {
            calls: seq![status_call(verbose)],
            result: Ok::<bool, Seq<char>>(false),
        }),
        dirty(replies) ==> stash_plan(replies, verbose).calls == seq![
            status_call(verbose),
            save_call(verbose),
        ],
        dirty(replies) && replies[1] is Ok ==> stash_plan(replies, verbose).result == Ok::<
            bool,
            Seq<char>,
        >(true),
        stash_plan(replies, verbose).result == Ok::<bool, Seq<char>>(true) ==> dirty(replies)
            && stash_plan(replies, verbose).calls.contains(save_call(verbose)),
        !dirty(replies) ==> !stash_plan(replies, verbose).calls.contains(save_call(verbose)),
{
    reveal_strlit("status");
    reveal_strlit("stash");
    assert(status_call(verbose) != save_call(verbose)) by {
        assert(status_call(verbose).args[0].len() != save_call(verbose).args[0].len());
    }
    if dirty(replies) {
        assert(stash_plan(replies, verbose).calls[1] == save_call(verbose));
    }
}

/// With an explicit base the resolver issues no call and returns that base
/// as it stands. Without one, where only `master` is there, it returns
/// `master`; where neither conventional name is there, it fails, and it
/// never probes a third name.
pub proof fn lemma_base_resolver(replies: Seq<Reply>, base: Option<Seq<char>>, verbose: bool)
    ensures
        base matches Some(name) ==> base_plan(replies, base, verbose) == (Plan {
            calls: Seq::<Call>::empty(),
            result: Ok::<Seq<char>, Seq<char>>(name),
        }),
        base is None && found(replies[0]) ==> base_plan(replies, base, verbose).result == Ok::<
            Seq<char>,
            Seq<char>,
        >("main"@),
        base is None && !found(replies[0]) && found(replies[1]) ==> base_plan(
            replies,
            base,
            verbose,
        ).result == Ok::<Seq<char>, Seq<char>>("master"@),
        base is None && !found(replies[0]) && !found(replies[1]) ==> base_plan(
            replies,
            base,
            verbose,
        ).result == Err::<Seq<char>, Seq<char>>("Failed to determine default branch"@),
        forall|k: int|
            0 <= k < base_plan(replies, base, verbose).calls.len() ==> {
                let call = #[trigger] base_plan(replies, base, verbose).calls[k];
                call == probe("main"@, verbose) || call == probe("master"@, verbose)
            },
{
}

/// The stash guard, the restoring of the stash and the refreshing of the
/// base each end at the first call that fails.
pub proof fn lemma_helpers_fail_fast(replies: Seq<Reply>, base: Seq<char>, verbose: bool)
    ensures
        fails_fast(replies, stash_plan(replies, verbose)),
        fails_fast(replies, unstash_plan(replies, verbose)),
        fails_fast(replies, refresh_plan(replies, base, verbose)),
{
}

} // verus!
