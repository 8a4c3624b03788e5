//! Committing as a fixup of a commit chosen from the log.

use crate::commands::{
    captured, heard, lemma_start, performed, single, with_message, Exec, Plan, Reply, Session,
};
use crate::commands::choice::answer_of;
use crate::text::{
    chain, chain3, decimal, decimal_of, first_token, first_token_of, lines, lines_of, strs, texts,
};
use crate::views::{failure, list_or_err, list_or_failure, text_or_err};
use vstd::prelude::*;

verus! {

/// What is reported where the log cannot be had.
pub open spec fn log_failed(number: u32) -> Seq<char> {
    "Failed to fetch git log (last "@ + decimal_of(number as nat) + " commits)"@
}

/// One call: the last `number` entries of the log, one per line, each a short
/// identifier followed by the subject.
pub open spec fn log_plan(replies: Seq<Reply>, number: u32, verbose: bool) -> Plan<
    Result<Seq<Seq<char>>, Seq<char>>,
> {
    single(
        captured(seq!["log"@, "--format=%h %s"@, "-n"@, decimal_of(number as nat)], verbose),
        match replies[0] {
            Ok(log) => Ok(lines_of(log)),
            Err(_) => Err(log_failed(number)),
        },
    )
}

/// The last `number` entries of the log, newest first.
pub fn get_log<T: Exec>(command: &mut Session<T>, number: u32, verbose: bool) -> (r: Result<
    Vec<String>,
    String,
>)
    ensures
        performed(
            old(command).history(),
            final(command).history(),
            log_plan(heard(old(command).history(), final(command).history()), number, verbose),
            list_or_err(r),
        ),
{
    let ghost h0 = command.history();
    proof {
        lemma_start(h0);
    }
    let count = decimal(number as u64);
    let args: [&str; 4] = ["log", "--format=%h %s", "-n", count.as_str()];
    assert(strs(args@) =~= seq!["log"@, "--format=%h %s"@, "-n"@, decimal_of(number as nat)]);
    match command.step(Ghost(h0), &args, verbose, false) {
        Ok(log) => Ok(lines(log.as_str())),
        Err(_) => Err(chain3("Failed to fetch git log (last ", count.as_str(), " commits)")),
    }
}

/// The verb up to the choice: the log entries to choose from.
pub fn run<T: Exec>(command: &mut Session<T>, number: u32, verbose: bool) -> (r: Result<
    Vec<String>,
    Option<String>,
>)
    ensures
        performed(
            old(command).history(),
            final(command).history(),
            with_message(
                log_plan(heard(old(command).history(), final(command).history()), number, verbose),
            ),
            list_or_failure(r),
        ),
{
    match get_log(command, number, verbose) {
        Ok(entries) => Ok(entries),
        Err(e) => Err(Some(e)),
    }
}

/// The identifier of the commit that the answer stands for: the leading token
/// of the chosen entry. A prompt that failed or was abandoned, a position
/// that the list does not have, and an entry without a token are errors.
pub open spec fn chosen_commit(options: Seq<Seq<char>>, answer: Result<int, Seq<char>>) -> Result<
    Seq<char>,
    Seq<char>,
> {
    match answer {
        Err(e) => Err("Failed to select commit: "@ + e),
        Ok(at) => if 0 <= at < options.len() {
            match first_token_of(options[at]) {
                Some(sha) => Ok(sha),
                None => Err("Failed to parse commits format"@),
            }
        } else {
            Err("Invalid commit selection index: "@ + decimal_of(at as nat))
        },
    }
}

/// The identifier of the commit that the answer stands for.
pub fn get_sha(options: &Vec<String>, answer: Result<usize, String>) -> (r: Result<String, String>)
    ensures
        text_or_err(r) == chosen_commit(texts(options@), answer_of(answer)),
{
    match answer {
        Err(e) => Err(chain("Failed to select commit: ", e.as_str())),
        Ok(at) => {
            if at < options.len() {
                match first_token(options[at].as_str()) {
                    Some(sha) => Ok(sha),
                    None => Err("Failed to parse commits format".to_owned()),
                }
            } else {
                let number = decimal(at as u64);
                Err(chain("Invalid commit selection index: ", number.as_str()))
            }
        },
    }
}

/// The fixup commit against the chosen commit; no call where the answer names none.
pub open spec fn finish_plan(
    replies: Seq<Reply>,
    options: Seq<Seq<char>>,
    answer: Result<int, Seq<char>>,
    verbose: bool,
) -> Plan<Result<(), Option<Seq<char>>>> {
    match chosen_commit(options, answer) {
        Err(e) => Plan { calls: seq![], result: Err(Some(e)) },
        Ok(sha) => single(
            captured(seq!["commit"@, "--fixup"@, sha], verbose),
            if replies[0] is Ok {
                Ok(())
            } else {
                Err(Some("Failed to fixup commit '"@ + sha + "'"@))
            },
        ),
    }
}

/// Completes the verb once the choice among `options` is made.
pub fn finish<T: Exec>(
    command: &mut Session<T>,
    options: &Vec<String>,
    answer: Result<usize, String>,
    verbose: bool,
) -> (r: Result<(), Option<String>>)
    ensures
        performed(
            old(command).history(),
            final(command).history(),
            finish_plan(
                heard(old(command).history(), final(command).history()),
                texts(options@),
                answer_of(answer),
                verbose,
            ),
            failure(r),
        ),
{
    let ghost h0 = command.history();
    proof {
        lemma_start(h0);
    }
    let commit = match get_sha(options, answer) {
        Ok(sha) => sha,
        Err(e) => {
            return Err(Some(e));
        },
    };
    let args: [&str; 3] = ["commit", "--fixup", commit.as_str()];
    assert(strs(args@) =~= seq!["commit"@, "--fixup"@, commit@]);
    match command.step(Ghost(h0), &args, verbose, false) {
        Ok(_) => Ok(()),
        Err(_) => Err(Some(chain3("Failed to fixup commit '", commit.as_str(), "'"))),
    }
}

} // verus!
