//! Running one call per item of a list: up to the first failure, or all of
//! them whatever comes back.

use crate::commands::{
    calls_of, captured, heard, lemma_start, performed, since, Call, Exec, Plan, Reply, Session,
};
use crate::text::{strs, texts};
use crate::views::position;
use vstd::prelude::*;

verus! {

/// The first position from `from` on, below `limit`, whose reply reports
/// failure; `limit` where there is none.
pub open spec fn first_failure(replies: Seq<Reply>, from: int, limit: int) -> int
    decreases limit - from,
{
    if from >= limit {
        limit
    } else if replies[from] is Err {
        from
    } else {
        first_failure(replies, from + 1, limit)
    }
}

/// Where the replies before `stop` report success and the one at `stop`, if
/// `stop` is below the limit, reports failure, `stop` is the first failure.
pub proof fn lemma_first_failure(replies: Seq<Reply>, from: int, limit: int, stop: int)
    requires
        from <= stop <= limit,
        forall|k: int| from <= k < stop ==> replies[k] is Ok,
        stop < limit ==> replies[stop] is Err,
    ensures
        first_failure(replies, from, limit) == stop,
    decreases stop - from,
{
    if from < stop {
        lemma_first_failure(replies, from + 1, limit, stop);
    }
}

/// The first failure lies between `from` and the limit, with nothing but
/// success before it.
pub proof fn lemma_first_failure_is_first(replies: Seq<Reply>, from: int, limit: int)
    requires
        from <= limit,
    ensures
        from <= first_failure(replies, from, limit) <= limit,
        forall|k: int| from <= k < first_failure(replies, from, limit) ==> replies[k] is Ok,
        first_failure(replies, from, limit) < limit ==> replies[first_failure(
            replies,
            from,
            limit,
        )] is Err,
    decreases limit - from,
{
    if from < limit && replies[from] is Ok {
        lemma_first_failure_is_first(replies, from + 1, limit);
    }
}

/// The plan that issues `calls` one after another and stops after the first
/// that fails. Its result is the position of the call that failed, if one did.
pub open spec fn each_plan(replies: Seq<Reply>, calls: Seq<Call>) -> Plan<Option<int>> {
    let stop = first_failure(replies, 0, calls.len() as int);
    if stop < calls.len() {
        Plan { calls: calls.take(stop + 1), result: Some(stop) }
    } else {
        Plan { calls, result: None }
    }
}

/// The calls issued one after another are a leading part of `calls`: all of
/// them where none fails, else those up to the first that fails.
pub proof fn lemma_each_plan(replies: Seq<Reply>, calls: Seq<Call>)
    ensures
        ({
            let plan = each_plan(replies, calls);
            &&& plan.calls.len() <= calls.len()
            &&& forall|k: int| 0 <= k < plan.calls.len() ==> #[trigger] plan.calls[k] == calls[k]
            &&& plan.result is None ==> plan.calls.len() == calls.len()
            &&& plan.result matches Some(at) ==> at == plan.calls.len() - 1 && replies[at] is Err
            &&& forall|k: int|
                0 <= k < plan.calls.len() && plan.result != Some(k) ==> #[trigger] replies[k] is Ok
        }),
{
    lemma_first_failure_is_first(replies, 0, calls.len() as int);
}

/// The plan that issues all of `calls`, whatever comes back. Its result says
/// of each call whether it succeeded.
pub open spec fn all_plan(replies: Seq<Reply>, calls: Seq<Call>) -> Plan<Seq<bool>> {
    Plan { calls, result: Seq::new(calls.len(), |k: int| replies[k] is Ok) }
}

/// The capturing calls that run the arguments `head` on each item in turn.
pub open spec fn calls_on(head: Seq<Seq<char>>, items: Seq<Seq<char>>, verbose: bool) -> Seq<
    Call,
> {
    Seq::new(items.len(), |k: int| captured(head.push(items[k]), verbose))
}

fn args_on<'a>(head: &[&'a str], item: &'a str) -> (args: Vec<&'a str>)
    ensures
        strs(args@) == strs(head@).push(item@),
{
    let mut args: Vec<&'a str> = Vec::new();
    let mut i: usize = 0;
    while i < head.len()
        invariant
            i <= head@.len(),
            args@.len() == i,
            forall|k: int| 0 <= k < i ==> args@[k]@ == head@[k]@,
        decreases head@.len() - i,
    {
        args.push(head[i]);
        i += 1;
    }
    args.push(item);
    args
}

/// Runs `head` on each item in turn, stopping after the first failure.
pub fn run_each<T: Exec>(
    command: &mut Session<T>,
    head: &[&str],
    items: &Vec<String>,
    verbose: bool,
) -> (failed: Option<usize>)
    ensures
        performed(
            old(command).history(),
            final(command).history(),
            each_plan(
                heard(old(command).history(), final(command).history()),
                calls_on(strs(head@), texts(items@), verbose),
            ),
            position(failed),
        ),
{
    let ghost h0 = command.history();
    let ghost calls = calls_on(strs(head@), texts(items@), verbose);
    proof {
        lemma_start(h0);
    }
    let mut i: usize = 0;
    while i < items.len()
        invariant
            i <= items@.len(),
            h0 == old(command).history(),
            h0.is_prefix_of(command.history()),
            calls == calls_on(strs(head@), texts(items@), verbose),
            calls_of(since(h0, command.history())) == calls.take(i as int),
            heard(h0, command.history()).len() == i,
            forall|k: int| 0 <= k < i ==> heard(h0, command.history())[k] is Ok,
        decreases items@.len() - i,
    {
        let ghost earlier = heard(h0, command.history());
        let args = args_on(head, items[i].as_str());
        let reply = command.step(Ghost(h0), args.as_slice(), verbose, false);
        proof {
            assert forall|k: int| 0 <= k < i implies heard(h0, command.history())[k] is Ok by {
                assert(heard(h0, command.history())[k] == earlier[k]);
            }
        }
        if reply.is_err() {
            proof {
                lemma_first_failure(heard(h0, command.history()), 0, calls.len() as int, i as int);
            }
            return Some(i);
        }
        i += 1;
    }
    proof {
        lemma_first_failure(
            heard(h0, command.history()),
            0,
            calls.len() as int,
            calls.len() as int,
        );
    }
    None
}

/// Runs `head` on every item, whatever comes back, and says which succeeded.
pub fn run_all<T: Exec>(
    command: &mut Session<T>,
    head: &[&str],
    items: &Vec<String>,
    verbose: bool,
) -> (done: Vec<bool>)
    ensures
        performed(
            old(command).history(),
            final(command).history(),
            all_plan(
                heard(old(command).history(), final(command).history()),
                calls_on(strs(head@), texts(items@), verbose),
            ),
            done@,
        ),
{
    let ghost h0 = command.history();
    let ghost calls = calls_on(strs(head@), texts(items@), verbose);
    proof {
        lemma_start(h0);
    }
    let mut done: Vec<bool> = Vec::new();
    let mut i: usize = 0;
    while i < items.len()
        invariant
            i <= items@.len(),
            h0.is_prefix_of(command.history()),
            calls == calls_on(strs(head@), texts(items@), verbose),
            calls_of(since(h0, command.history())) == calls.take(i as int),
            heard(h0, command.history()).len() == i,
            done@.len() == i,
            forall|k: int| 0 <= k < i ==> done@[k] == (heard(h0, command.history())[k] is Ok),
        decreases items@.len() - i,
    {
        let args = args_on(head, items[i].as_str());
        let reply = command.step(Ghost(h0), args.as_slice(), verbose, false);
        proof {
            assert(calls.take(i as int).push(calls[i as int]) =~= calls.take(i + 1));
        }
        done.push(reply.is_ok());
        i += 1;
    }
    proof {
        assert(calls.take(calls.len() as int) =~= calls);
    }
    done
}

} // verus!
