//! Decision logic of the supervised helper process.
//!
//! The caller owns the pseudo-console, the reader thread and the channels;
//! this module decides everything else: how the argument vector becomes the
//! command line, what to do with each outcome of a non-blocking read, how a
//! raw output line is cleaned before delivery, and what an exit status means.

use vstd::prelude::*;
use crate::error::Error;
use crate::schemas::str_seq_view;

verus! {

/// What remains of a byte sequence once ANSI/terminal escape sequences are
/// stripped, as the strip-ansi-escapes crate computes it.
pub uninterp spec fn strip_ansi_of(data: Seq<u8>) -> Seq<u8>;

/// The permissive UTF-8 reading of a byte sequence (invalid sequences
/// replaced, never rejected), as std's lossy conversion computes it.
pub uninterp spec fn lossy_of(data: Seq<u8>) -> Seq<char>;

/// A character sequence with surrounding whitespace removed, as str::trim
/// computes it.
pub uninterp spec fn trim_of(s: Seq<char>) -> Seq<char>;

/// Relies on strip_ansi_escapes::strip: the result is a function of the
/// input bytes alone.
#[verifier::external_body]
fn strip_ansi(data: &Vec<u8>) -> (r: Vec<u8>)
    ensures
        r@ == strip_ansi_of(data@),
{
    strip_ansi_escapes::strip(data.as_slice())
}

/// Relies on String::from_utf8_lossy: the result is a function of the input
/// bytes alone, and valid UTF-8 input is decoded unchanged.
#[verifier::external_body]
fn utf8_lossy(data: &Vec<u8>) -> (r: String)
    ensures
        r@ == lossy_of(data@),
        vstd::utf8::valid_utf8(data@) ==> vstd::utf8::encode_utf8(r@) == data@,
{
    String::from_utf8_lossy(data.as_slice()).into_owned()
}

/// Relies on str::trim: the result is the input without leading and trailing
/// whitespace, a function of the input alone and never longer than it.
#[verifier::external_body]
fn trim_str(s: &String) -> (r: String)
    ensures
        r@ == trim_of(s@),
        r@.len() <= s@.len(),
{
    s.trim().to_owned()
}

/// What a raw output line looks like once delivered: escape sequences
/// stripped, bytes decoded permissively, surrounding whitespace removed.
pub open spec fn cleaned_line(raw: Seq<u8>) -> Seq<char> {
    trim_of(lossy_of(strip_ansi_of(raw)))
}

/// Clean one raw line of helper output.  Returns the line to forward, or
/// nothing if the line is empty once cleaned.
pub fn process_output_line(raw: &Vec<u8>) -> (r: Option<String>)
    ensures
        match r {
            Some(line) => line@ == cleaned_line(raw@) && cleaned_line(raw@).len() > 0,
            None => cleaned_line(raw@).len() == 0,
        },
{
    let stripped = strip_ansi(raw);
    let decoded = utf8_lossy(&stripped);
    let trimmed = trim_str(&decoded);
    if trimmed.as_str().is_empty() {
        None
    } else {
        Some(trimmed)
    }
}

/// The outcome of one non-blocking read from the helper's console output.
pub enum ReadEvent {
    /// No data was ready yet.
    WouldBlock,
    /// The read failed outright.
    ReadError,
    /// The stream is finished.
    EndOfStream,
    /// One raw line was read.
    Data(Vec<u8>),
}

/// What the reader loop does next.
pub enum ReadAction {
    /// Sleep briefly, then read again.
    SleepRetry,
    /// Leave the loop.
    Stop,
    /// Hand this cleaned, non-empty line to the output channel.
    Forward(String),
    /// The line was empty once cleaned; read on without forwarding.
    DropLine,
}

/// One step of the reader loop: what to do with the outcome of one read.
///
/// The caller performs the action and, after every step, also leaves the
/// loop if cancellation has been signalled meanwhile.
pub fn reader_step(event: ReadEvent) -> (a: ReadAction)
    ensures
        match event {
            ReadEvent::WouldBlock => a matches ReadAction::SleepRetry,
            ReadEvent::ReadError => a matches ReadAction::Stop,
            ReadEvent::EndOfStream => a matches ReadAction::Stop,
            ReadEvent::Data(raw) => if cleaned_line(raw@).len() > 0 {
                a matches ReadAction::Forward(line) && line@ == cleaned_line(raw@)
            } else {
                a matches ReadAction::DropLine
            },
        },
{
    match event {
        ReadEvent::WouldBlock => ReadAction::SleepRetry,
        ReadEvent::ReadError => ReadAction::Stop,
        ReadEvent::EndOfStream => ReadAction::Stop,
        ReadEvent::Data(raw) => match process_output_line(&raw) {
            Some(line) => ReadAction::Forward(line),
            None => ReadAction::DropLine,
        },
    }
}

/// The command line handed to the pseudo-console layer: every argument of
/// the vector, each preceded by a single space.
pub open spec fn command_line(args: Seq<Seq<char>>) -> Seq<char>
    decreases args.len(),
{
    if args.len() == 0 {
        Seq::empty()
    } else {
        command_line(args.drop_last()) + seq![' '] + args.last()
    }
}

/// Fold an argument vector into the single command line the console layer
/// expects.
pub fn build_command(args: &Vec<String>) -> (r: String)
    ensures
        r@ == command_line(str_seq_view(args@)),
{
    let ghost all = str_seq_view(args@);
    let mut r = String::new();
    let mut i: usize = 0;
    while i < args.len()
        invariant
            i <= args.len(),
            all == str_seq_view(args@),
            r@ == command_line(all.take(i as int)),
        decreases args.len() - i,
    {
        r.append(" ");
        r.append(args[i].as_str());
        proof {
            reveal_strlit(" ");
            assert(" "@ =~= seq![' ']);
            let taken = all.take(i + 1);
            assert(taken.drop_last() =~= all.take(i as int));
            assert(taken.last() == args@[i as int]@);
        }
        i = i + 1;
    }
    proof {
        assert(all.take(all.len() as int) =~= all);
    }
    r
}

/// Interpret the exit status of the supervised helper: code 0 succeeds, any
/// other code fails carrying that code.
pub fn wait_result(exit_code: u32) -> (r: Result<(), Error>)
    ensures
        exit_code == 0 <==> r matches Ok(_),
        exit_code != 0 ==> (r matches Err(e) && e matches Error::WorkerExitCode(c) && c
            == exit_code),
{
    if exit_code == 0 {
        Ok(())
    } else {
        Err(Error::WorkerExitCode(exit_code))
    }
}

} // verus!
