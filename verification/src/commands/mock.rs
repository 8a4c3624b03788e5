//! A scripted executor, to stand in for the tool.

use crate::commands::{reply, reply_of, yield_of, Call, Exec, Reply};
use crate::text::{same, strs, texts};
use vstd::prelude::*;

verus! {

/// What a scripted executor answers where the script holds `reply` for a
/// call: that reply, without its text where the call inherits the streams.
pub open spec fn scripted(inherit_stdio: bool, reply: Result<String, ()>) -> Reply {
    match reply {
        Ok(text) => yield_of(inherit_stdio, true, text@),
        Err(_) => Err(()),
    }
}

/// One exchange that a scripted executor is to serve.
pub struct Expectation {
    pub args: Vec<String>,
    pub verbose: bool,
    pub inherit_stdio: bool,
    pub reply: Result<String, ()>,
}

impl Expectation {
    /// The call that is expected.
    pub open spec fn call(&self) -> Call {
        Call { args: texts(self.args@), verbose: self.verbose, inherit_stdio: self.inherit_stdio }
    }
}

/// A scripted executor: it serves a list of expected exchanges, strictly in
/// order. A call that is not the next expected one is answered with failure
/// and remembered as a stray.
pub struct MockCmd {
    expected: Vec<Expectation>,
    served: usize,
    strayed: bool,
}

fn same_args(expected: &Vec<String>, args: &[&str]) -> (b: bool)
    ensures
        b == (texts(expected@) == strs(args@)),
{
    if expected.len() != args.len() {
        assert(texts(expected@).len() != strs(args@).len());
        return false;
    }
    let mut i: usize = 0;
    while i < expected.len()
        invariant
            i <= expected@.len(),
            expected@.len() == args@.len(),
            forall|k: int| 0 <= k < i ==> expected@[k]@ == args@[k]@,
        decreases expected@.len() - i,
    {
        if !same(expected[i].as_str(), args[i]) {
            assert(texts(expected@)[i as int] != strs(args@)[i as int]);
            return false;
        }
        i += 1;
    }
    assert(texts(expected@) =~= strs(args@));
    true
}

fn answer(inherit_stdio: bool, scripted_reply: &Result<String, ()>) -> (r: Result<String, ()>)
    ensures
        reply_of(r) == scripted(inherit_stdio, *scripted_reply),
{
    match scripted_reply {
        Ok(text) => reply(inherit_stdio, true, text.clone()),
        Err(_) => Err(()),
    }
}

impl MockCmd {
    /// The expected calls, in the order in which they are to come.
    pub closed spec fn script(&self) -> Seq<Call> {
        Seq::new(self.expected@.len(), |i: int| self.expected@[i].call())
    }

    /// The replies that go with the expected calls.
    pub closed spec fn replies(&self) -> Seq<Reply> {
        Seq::new(
            self.expected@.len(),
            |i: int| scripted(self.expected@[i].inherit_stdio, self.expected@[i].reply),
        )
    }

    /// How many of the expected calls have come.
    pub closed spec fn served(&self) -> nat {
        self.served as nat
    }

    /// Whether a call came that was not the next expected one.
    pub closed spec fn strayed(&self) -> bool {
        self.strayed
    }

    /// A double with an empty script.
    pub fn new() -> (m: Self)
        ensures
            m.script() == Seq::<Call>::empty(),
            m.replies() == Seq::<Reply>::empty(),
            m.served() == 0,
            !m.strayed(),
    {
        let m = MockCmd { expected: Vec::new(), served: 0, strayed: false };
        m
    }

    /// Adds one exchange to the end of the script. Text scripted for a call
    /// that inherits the streams is not handed out: such a call captures
    /// nothing.
    pub fn expect_exec(
        &mut self,
        args: &[&str],
        verbose: bool,
        inherit_stdio: bool,
        reply: Result<String, ()>,
    )
        ensures
            final(self).script() == old(self).script().push(
                Call { args: strs(args@), verbose, inherit_stdio },
            ),
            final(self).replies() == old(self).replies().push(scripted(inherit_stdio, reply)),
            final(self).served() == old(self).served(),
            final(self).strayed() == old(self).strayed(),
    {
        let mut owned: Vec<String> = Vec::new();
        let mut i: usize = 0;
        while i < args.len()
            invariant
                i <= args@.len(),
                owned@.len() == i,
                forall|k: int| 0 <= k < i ==> owned@[k]@ == args@[k]@,
            decreases args@.len() - i,
        {
            owned.push(args[i].to_owned());
            i += 1;
        }
        assert(texts(owned@) =~= strs(args@));
        self.expected.push(Expectation { args: owned, verbose, inherit_stdio, reply });
    }

    /// Whether every expected call came, in order, and no other call did.
    pub fn is_satisfied(&self) -> (b: bool)
        ensures
            b == (!self.strayed() && self.served() == self.script().len()),
    {
        !self.strayed && self.served == self.expected.len()
    }
}

impl Exec for MockCmd {
    fn exec(&mut self, args: &[&str], verbose: bool, inherit_stdio: bool) -> (r: Result<String, ()>)
        ensures
            final(self).script() == old(self).script(),
            final(self).replies() == old(self).replies(),
            ({
                let at = old(self).served() as int;
                if !old(self).strayed() && at < old(self).script().len() && old(self).script()[at]
                    == (Call { args: strs(args@), verbose, inherit_stdio }) {
                    &&& reply_of(r) == old(self).replies()[at]
                    &&& final(self).served() == at + 1
                    &&& !final(self).strayed()
                } else {
                    &&& r is Err
                    &&& final(self).served() == at
                    &&& final(self).strayed()
                }
            }),
    {
        if !self.strayed && self.served < self.expected.len() {
            let next = &self.expected[self.served];
            if next.verbose == verbose && next.inherit_stdio == inherit_stdio && same_args(
                &next.args,
                args,
            ) {
                let r = answer(inherit_stdio, &next.reply);
                self.served = self.served + 1;
                return r;
            }
        }
        self.strayed = true;
        Err(())
    }
}

} // verus!
