//! Folding fixup commits into the commits they fix.

use crate::commands::{captured, heard, lemma_start, performed, single, Exec, Plan, Reply, Session};
use crate::text::{chain, decimal, decimal_of, strs};
use crate::views::failure;
use vstd::prelude::*;

verus! {

/// What the rewrite works back to: the last `number` commits where a number
/// is given, else the base.
pub open spec fn target(base: Seq<char>, number: Option<u32>) -> Seq<char> {
    match number {
        Some(n) => "HEAD~"@ + decimal_of(n as nat),
        None => base,
    }
}

/// One call: an interactive rebase that applies the fixups by itself, with
/// the sequence editor set to do nothing so that no editor opens.
pub open spec fn autosquash_plan(
    replies: Seq<Reply>,
    base: Seq<char>,
    number: Option<u32>,
    verbose: bool,
) -> Plan<Result<(), Option<Seq<char>>>> {
    single(
        captured(
            seq![
                "-c"@,
                "sequence.editor=:"@,
                "rebase"@,
                "--interactive"@,
                "--autosquash"@,
                target(base, number),
            ],
            verbose,
        ),
        if replies[0] is Ok {
            Ok(())
        } else {
            Err(Some("Failed to auto squash commits"@))
        },
    )
}

/// Folds the fixup commits into the commits they fix.
pub fn run<T: Exec>(cmd: &mut Session<T>, base: &str, number: Option<u32>, verbose: bool) -> (r:
    Result<(), Option<String>>)
    ensures
        performed(
            old(cmd).history(),
            final(cmd).history(),
            autosquash_plan(
                heard(old(cmd).history(), final(cmd).history()),
                base@,
                number,
                verbose,
            ),
            failure(r),
        ),
{
    let ghost h0 = cmd.history();
    proof {
        lemma_start(h0);
    }
    let onto = match number {
        Some(n) => chain("HEAD~", decimal(n as u64).as_str()),
        None => base.to_owned(),
    };
    let args: [&str; 6] = [
        "-c",
        "sequence.editor=:",
        "rebase",
        "--interactive",
        "--autosquash",
        onto.as_str(),
    ];
    assert(strs(args@) =~= seq![
        "-c"@,
        "sequence.editor=:"@,
        "rebase"@,
        "--interactive"@,
        "--autosquash"@,
        target(base@, number),
    ]);
    match cmd.step(Ghost(h0), &args, verbose, false) {
        Ok(_) => Ok(()),
        Err(_) => Err(Some("Failed to auto squash commits".to_owned())),
    }
}

/// With a number, the base plays no part in what the verb does.
pub proof fn lemma_number_overrides_base(
    replies: Seq<Reply>,
    base: Seq<char>,
    other: Seq<char>,
    number: u32,
    verbose: bool,
)
    ensures
        autosquash_plan(replies, base, Some(number), verbose) == autosquash_plan(
            replies,
            other,
            Some(number),
            verbose,
        ),
{
}

} // verus!
