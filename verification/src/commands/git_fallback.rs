//! Passing on what is no verb of this tool's own.

use crate::commands::{heard, lemma_start, performed, single, Call, Exec, Plan, Reply, Session};
use crate::text::{strs, texts};
use crate::views::failure;
use vstd::prelude::*;

verus! {

/// One call: the arguments as they came, with the tool writing to the
/// caller's own streams. Its exit status alone decides, and a failure
/// carries no message.
pub open spec fn passthrough_plan(replies: Seq<Reply>, args: Seq<Seq<char>>, verbose: bool) -> Plan<
    Result<(), Option<Seq<char>>>,
> {
    single(
        Call { args, verbose, inherit_stdio: true },
        if replies[0] is Ok {
            Ok(())
        } else {
            Err(None)
        },
    )
}

/// Passes `args` on to the tool as they came.
pub fn run<T: Exec>(cmd: &mut Session<T>, args: &[String], verbose: bool) -> (r: Result<
    (),
    Option<String>,
>)
    ensures
        performed(
            old(cmd).history(),
            final(cmd).history(),
            passthrough_plan(
                heard(old(cmd).history(), final(cmd).history()),
                texts(args@),
                verbose,
            ),
            failure(r),
        ),
{
    let ghost h0 = cmd.history();
    proof {
        lemma_start(h0);
    }
    let mut str_args: Vec<&str> = Vec::new();
    let mut i: usize = 0;
    while i < args.len()
        invariant
            i <= args@.len(),
            str_args@.len() == i,
            forall|k: int| 0 <= k < i ==> str_args@[k]@ == args@[k]@,
        decreases args@.len() - i,
    {
        str_args.push(args[i].as_str());
        i += 1;
    }
    assert(strs(str_args@) =~= texts(args@));
    match cmd.step(Ghost(h0), str_args.as_slice(), verbose, true) {
        Ok(_) => Ok(()),
        Err(_) => Err(None),
    }
}

} // verus!
