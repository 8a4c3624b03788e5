//! The executor through which every verb reaches the tool, and the record of
//! what passed through it.
//!
//! A verb never inspects the tool beyond the success or failure of a call and,
//! for a capturing call, the text it printed. What a verb does is therefore a
//! function of the replies it gets: its *plan*. Each verb's contract names its
//! plan, and a [`Session`] witnesses that the calls a verb issued are those of
//! its plan for the replies that came back.

use crate::text::{chain3, joined, strs};
use vstd::prelude::*;

pub use self::mock::MockCmd;

pub mod autosquash;
pub mod batch;
pub mod branch;
pub mod checkout;
pub mod cherry_pick;
pub mod choice;
pub mod delete_branch;
pub mod delete_branches;
pub mod fixup;
pub mod git_fallback;
pub mod mock;
pub mod rebase;

verus! {

/// One invocation of the tool.
pub struct Call {
    /// The argument vector, handed to the tool as it stands.
    pub args: Seq<Seq<char>>,
    /// Whether the invocation is echoed before it runs.
    pub verbose: bool,
    /// Whether the tool writes to the caller's own streams instead of being captured.
    pub inherit_stdio: bool,
}

/// What came back from one invocation: the captured text, or the failure marker.
pub type Reply = Result<Seq<char>, ()>;

/// An invocation together with what came back.
pub struct Exchange {
    pub call: Call,
    pub reply: Reply,
}

/// What a verb does for given replies: the calls it issues, in order, and what it returns.
pub struct Plan<R> {
    pub calls: Seq<Call>,
    pub result: R,
}

/// The plan that stops where `plan` stops, with another result.
pub open spec fn ending<A, B>(plan: Plan<A>, result: B) -> Plan<B> {
    Plan { calls: plan.calls, result }
}

/// `first` carried out, and then `rest`.
pub open spec fn then<A, B>(first: Plan<A>, rest: Plan<B>) -> Plan<B> {
    Plan { calls: first.calls + rest.calls, result: rest.result }
}

/// The replies that are left for what follows `first`.
pub open spec fn after<A>(replies: Seq<Reply>, first: Plan<A>) -> Seq<Reply> {
    replies.skip(first.calls.len() as int)
}

/// The plan of a single call whose reply decides nothing but the result.
pub open spec fn single<R>(call: Call, result: R) -> Plan<R> {
    Plan { calls: seq![call], result }
}

/// Whether a plan ends at the first failure and succeeds only where nothing
/// failed: every call but the last was answered with success, and so was
/// the last where the plan's result is success.
pub open spec fn fails_fast<A, E>(replies: Seq<Reply>, plan: Plan<Result<A, E>>) -> bool {
    &&& forall|k: int| 0 <= k < plan.calls.len() - 1 ==> #[trigger] replies[k] is Ok
    &&& plan.result is Ok && plan.calls.len() > 0 ==> replies[plan.calls.len() - 1] is Ok
}

/// A capturing invocation.
pub open spec fn captured(args: Seq<Seq<char>>, verbose: bool) -> Call {
    Call { args, verbose, inherit_stdio: false }
}

/// The plan whose failure carries its message as a verb's failure does.
pub open spec fn with_message<A>(plan: Plan<Result<A, Seq<char>>>) -> Plan<
    Result<A, Option<Seq<char>>>,
> {
    Plan {
        calls: plan.calls,
        result: match plan.result {
            Ok(a) => Ok(a),
            Err(e) => Err(Some(e)),
        },
    }
}

/// What an executor returned, as a reply.
pub open spec fn reply_of(r: Result<String, ()>) -> Reply {
    match r {
        Ok(text) => Ok(text@),
        Err(_) => Err(()),
    }
}

/// The calls of a stretch of exchanges, in order.
pub open spec fn calls_of(t: Seq<Exchange>) -> Seq<Call> {
    Seq::new(t.len(), |i: int| t[i].call)
}

/// The replies of a stretch of exchanges, in order.
pub open spec fn replies_of(t: Seq<Exchange>) -> Seq<Reply> {
    Seq::new(t.len(), |i: int| t[i].reply)
}

/// The exchanges that `after` holds beyond `before`.
pub open spec fn since(before: Seq<Exchange>, after: Seq<Exchange>) -> Seq<Exchange> {
    after.skip(before.len() as int)
}

/// The replies received between the two moments.
pub open spec fn heard(before: Seq<Exchange>, after: Seq<Exchange>) -> Seq<Reply> {
    replies_of(since(before, after))
}

/// Between the two moments exactly the calls of `plan` were issued, nothing
/// recorded earlier was touched, and `result` is the plan's.
pub open spec fn performed<R>(
    before: Seq<Exchange>,
    after: Seq<Exchange>,
    plan: Plan<R>,
    result: R,
) -> bool {
    &&& before.is_prefix_of(after)
    &&& calls_of(since(before, after)) =~= plan.calls
    &&& result =~~= plan.result
}

/// Whether a reply carries no text: it is failure, or success with empty text.
pub open spec fn silent(reply: Reply) -> bool {
    reply matches Ok(text) ==> text.len() == 0
}

/// The capability to run the tool once: `args` is the argument vector,
/// `verbose` asks for an echo of the invocation, `inherit_stdio` connects the
/// tool to the caller's own streams. `Err` stands for any non-zero exit.
/// With inherited streams nothing is captured, so success comes with empty
/// text.
pub trait Exec {
    fn exec(&mut self, args: &[&str], verbose: bool, inherit_stdio: bool) -> (r: Result<String, ()>)
        ensures
            inherit_stdio ==> silent(reply_of(r)),
    ;
}

/// An executor together with the record of every exchange made through it.
pub struct Session<T: Exec> {
    cmd: T,
    log: Ghost<Seq<Exchange>>,
}

impl<T: Exec> Session<T> {
    /// Every exchange so far, oldest first.
    pub closed spec fn history(&self) -> Seq<Exchange> {
        self.log@
    }

    /// The executor in the state in which the exchanges so far left it.
    pub closed spec fn executor(&self) -> T {
        self.cmd
    }

    /// A session in which nothing has happened yet.
    pub fn new(cmd: T) -> (s: Self)
        ensures
            s.history() == Seq::<Exchange>::empty(),
            s.executor() == cmd,
    {
        Session { cmd, log: Ghost(Seq::empty()) }
    }

    /// Ends the session and gives the executor back.
    pub fn into_inner(self) -> (cmd: T)
        ensures
            cmd == self.executor(),
    {
        self.cmd
    }

    /// Runs the tool once and records the exchange.
    pub fn exec(&mut self, args: &[&str], verbose: bool, inherit_stdio: bool) -> (r: Result<
        String,
        (),
    >)
        ensures
            final(self).history() == old(self).history().push(
                Exchange {
                    call: Call { args: strs(args@), verbose, inherit_stdio },
                    reply: reply_of(r),
                },
            ),
            inherit_stdio ==> silent(reply_of(r)),
    {
        let r = self.cmd.exec(args, verbose, inherit_stdio);
        proof {
            self.log@ = self.log@.push(
                Exchange {
                    call: Call { args: strs(args@), verbose, inherit_stdio },
                    reply: reply_of(r),
                },
            );
        }
        r
    }

    /// Runs the tool once, keeping account of what happened since an earlier moment.
    pub(crate) fn step(
        &mut self,
        before: Ghost<Seq<Exchange>>,
        args: &[&str],
        verbose: bool,
        inherit_stdio: bool,
    ) -> (r: Result<String, ()>)
        requires
            before@.is_prefix_of(old(self).history()),
        ensures
            before@.is_prefix_of(final(self).history()),
            old(self).history().is_prefix_of(final(self).history()),
            calls_of(since(before@, final(self).history())) == calls_of(
                since(before@, old(self).history()),
            ).push(Call { args: strs(args@), verbose, inherit_stdio }),
            heard(before@, final(self).history()) == heard(before@, old(self).history()).push(
                reply_of(r),
            ),
            calls_of(since(old(self).history(), final(self).history())) == seq![
                Call { args: strs(args@), verbose, inherit_stdio },
            ],
            heard(old(self).history(), final(self).history()) == seq![reply_of(r)],
    {
        let ghost now = self.history();
        let r = self.exec(args, verbose, inherit_stdio);
        proof {
            lemma_next(before@, now, self.history().last());
            lemma_first(now, self.history().last());
        }
        r
    }
}

/// Nothing has happened since a moment at that moment.
pub proof fn lemma_start(before: Seq<Exchange>)
    ensures
        before.is_prefix_of(before),
        since(before, before) == Seq::<Exchange>::empty(),
        calls_of(since(before, before)) == Seq::<Call>::empty(),
        heard(before, before) == Seq::<Reply>::empty(),
{
    assert(since(before, before) =~= Seq::<Exchange>::empty());
    assert(calls_of(since(before, before)) =~= Seq::<Call>::empty());
    assert(heard(before, before) =~= Seq::<Reply>::empty());
}

/// The first exchange after `before` is all that happened since.
pub proof fn lemma_first(before: Seq<Exchange>, e: Exchange)
    ensures
        before.is_prefix_of(before.push(e)),
        since(before, before.push(e)) == seq![e],
        calls_of(since(before, before.push(e))) == seq![e.call],
        heard(before, before.push(e)) == seq![e.reply],
{
    assert(since(before, before.push(e)) =~= seq![e]);
    assert(calls_of(seq![e]) =~= seq![e.call]);
    assert(replies_of(seq![e]) =~= seq![e.reply]);
}

/// One more exchange extends what happened since `before` by that exchange.
pub proof fn lemma_next(before: Seq<Exchange>, now: Seq<Exchange>, e: Exchange)
    requires
        before.is_prefix_of(now),
    ensures
        before.is_prefix_of(now.push(e)),
        since(before, now.push(e)) == since(before, now).push(e),
        calls_of(since(before, now.push(e))) == calls_of(since(before, now)).push(e.call),
        heard(before, now.push(e)) == heard(before, now).push(e.reply),
{
    assert(since(before, now.push(e)) =~= since(before, now).push(e));
    assert(calls_of(since(before, now).push(e)) =~= calls_of(since(before, now)).push(e.call));
    assert(replies_of(since(before, now).push(e)) =~= replies_of(since(before, now)).push(
        e.reply,
    ));
}

/// What happened since `before` is what happened up to `middle` followed by
/// what happened from there on.
pub proof fn lemma_since_add(before: Seq<Exchange>, middle: Seq<Exchange>, now: Seq<Exchange>)
    requires
        before.is_prefix_of(middle),
        middle.is_prefix_of(now),
    ensures
        before.is_prefix_of(now),
        since(before, now) == since(before, middle) + since(middle, now),
        calls_of(since(before, now)) == calls_of(since(before, middle)) + calls_of(
            since(middle, now),
        ),
        heard(before, now) == heard(before, middle) + heard(middle, now),
        heard(before, now).skip(since(before, middle).len() as int) == heard(middle, now),
{
    assert(since(before, now) =~= since(before, middle) + since(middle, now));
    assert(heard(before, now).skip(since(before, middle).len() as int) =~= heard(middle, now));
    assert(calls_of(since(before, middle) + since(middle, now)) =~= calls_of(
        since(before, middle),
    ) + calls_of(since(middle, now)));
    assert(replies_of(since(before, middle) + since(middle, now)) =~= replies_of(
        since(before, middle),
    ) + replies_of(since(middle, now)));
}

/// The line that announces an invocation where an echo is asked for.
pub open spec fn echo_of(args: Seq<Seq<char>>) -> Seq<char> {
    "Executing: git "@ + joined(args, " "@) + "\n"@
}

/// The echo of an invocation, for an executor that runs the tool for real.
pub fn echo(args: &[&str]) -> (line: String)
    ensures
        line@ == echo_of(strs(args@)),
{
    let mut list = String::new();
    let mut i: usize = 0;
    while i < args.len()
        invariant
            i <= args@.len(),
            list@ == joined(strs(args@).take(i as int), " "@),
        decreases args@.len() - i,
    {
        let ghost done = strs(args@).take(i as int);
        let ghost next = strs(args@).take(i + 1);
        if i > 0 {
            list.append(" ");
        }
        list.append(args[i]);
        proof {
            assert(next.drop_last() =~= done);
            if i == 0 {
                assert(list@ =~= next[0]);
            }
        }
        i += 1;
    }
    assert(strs(args@).take(args@.len() as int) =~= strs(args@));
    chain3("Executing: git ", list.as_str(), "\n")
}

/// What an invocation yields, given how the tool exited and what it printed
/// while captured: failure for any non-zero exit; on success the captured
/// text, which is empty where the tool wrote to the caller's own streams.
pub open spec fn yield_of(inherit_stdio: bool, success: bool, output: Seq<char>) -> Reply {
    if !success {
        Err(())
    } else if inherit_stdio {
        Ok(Seq::empty())
    } else {
        Ok(output)
    }
}

/// The reply of an executor, given how the tool exited and what it printed
/// while captured. With inherited streams it is failure or success with
/// empty text, never text.
pub fn reply(inherit_stdio: bool, success: bool, output: String) -> (r: Result<String, ()>)
    ensures
        reply_of(r) == yield_of(inherit_stdio, success, output@),
        inherit_stdio ==> silent(reply_of(r)),
{
    if !success {
        Err(())
    } else if inherit_stdio {
        Ok(String::new())
    } else {
        Ok(output)
    }
}

} // verus!
