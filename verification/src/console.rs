//! Early console output.
//!
//! The console is reached through the SBI debug console, one byte per call.
//! Line feeds are preceded by carriage returns for terminals attached to
//! QEMU's serial console. Writing a string alternates firmware calls with
//! decisions, so the decisions stand here as a small state machine: the
//! caller performs each [`ConsoleAction::WriteByte`] and hands the firmware's
//! answer back through [`ConsoleWrite::complete`], until the writer reports
//! [`ConsoleAction::Finished`].

use vstd::prelude::*;
use vstd::string::StringSliceAdditionalSpecFns;
pub use crate::sbi::Error;

verus! {

/// ASCII line feed.
pub const LINE_FEED: u8 = 10;

/// ASCII carriage return.
pub const CARRIAGE_RETURN: u8 = 13;

/// What the console receives for one byte of text.
pub open spec fn console_byte(byte: u8) -> Seq<u8> {
    if byte == LINE_FEED {
        seq![CARRIAGE_RETURN, LINE_FEED]
    } else {
        seq![byte]
    }
}

/// What the console receives for `text`: its bytes in order, each line feed
/// preceded by a carriage return.
pub open spec fn console_output(text: Seq<u8>) -> Seq<u8>
    decreases text.len(),
{
    if text.len() == 0 {
        Seq::empty()
    } else {
        console_output(text.drop_last()) + console_byte(text.last())
    }
}

/// The number of line feeds in `text`.
pub open spec fn line_feeds(text: Seq<u8>) -> nat
    decreases text.len(),
{
    if text.len() == 0 {
        0
    } else {
        line_feeds(text.drop_last()) + if text.last() == LINE_FEED {
            1nat
        } else {
            0nat
        }
    }
}

/// Returns the bytes that the console receives for `text`.
pub fn console_bytes(text: &str) -> (bytes: Vec<u8>)
    ensures
        bytes@ == console_output(text.spec_bytes()),
{
    let input = text.as_bytes();
    let mut bytes: Vec<u8> = Vec::new();
    let mut i: usize = 0;
    while i < input.len()
        invariant
            i <= input@.len(),
            input@ == text.spec_bytes(),
            bytes@ == console_output(input@.take(i as int)),
        decreases input@.len() - i,
    {
        let byte = input[i];
        assert(input@.take(i + 1).drop_last() == input@.take(i as int));
        if byte == LINE_FEED {
            bytes.push(CARRIAGE_RETURN);
        }
        bytes.push(byte);
        i = i + 1;
    }
    assert(input@.take(i as int) == input@);
    bytes
}

/// The next thing a console writer asks of its caller.
#[derive(Clone, Copy, Debug, PartialEq, Eq)]
pub enum ConsoleAction {
    /// Write this byte through the SBI debug console and report the result.
    WriteByte(u8),
    /// The write is over, with this outcome.
    Finished(Result<(), Error>),
}

/// The abstract state of a console write: the bytes to send, how many of
/// them the firmware has accepted, and the error that stopped it, if any.
pub struct ConsoleWriteModel {
    pub output: Seq<u8>,
    pub written: nat,
    pub failure: Option<Error>,
}

/// The action a writer in state `model` asks for.
pub open spec fn action_for(model: ConsoleWriteModel) -> ConsoleAction {
    match model.failure {
        Some(error) => ConsoleAction::Finished(Err(error)),
        None => if model.written < model.output.len() {
            ConsoleAction::WriteByte(model.output[model.written as int])
        } else {
            ConsoleAction::Finished(Ok(()))
        },
    }
}

/// The state after the firmware answers `result`: an accepted byte moves the
/// writer on, a failure stops it for good; an answer that no pending byte
/// asked for changes nothing.
pub open spec fn after_result(model: ConsoleWriteModel, result: Result<(), Error>) -> ConsoleWriteModel {
    if model.failure is None && model.written < model.output.len() {
        match result {
            Ok(()) => ConsoleWriteModel { written: model.written + 1, ..model },
            Err(error) => ConsoleWriteModel { failure: Some(error), ..model },
        }
    } else {
        model
    }
}

/// A write of one string to the early console, in progress.
pub struct ConsoleWrite {
    output: Vec<u8>,
    written: usize,
    failure: Option<Error>,
}

impl View for ConsoleWrite {
    type V = ConsoleWriteModel;

    closed spec fn view(&self) -> ConsoleWriteModel {
        ConsoleWriteModel { output: self.output@, written: self.written as nat, failure: self.failure }
    }
}

impl ConsoleWrite {
    /// The writer never counts more accepted bytes than it has to send.
    #[verifier::type_invariant]
    closed spec fn within_output(self) -> bool {
        self.written <= self.output@.len()
    }

    /// Returns the action the caller must perform next.
    pub fn next_action(&self) -> (action: ConsoleAction)
        ensures
            action == action_for(self@),
    {
        match self.failure {
            Some(error) => ConsoleAction::Finished(Err(error)),
            None => if self.written < self.output.len() {
                ConsoleAction::WriteByte(self.output[self.written])
            } else {
                ConsoleAction::Finished(Ok(()))
            },
        }
    }

    /// Records the firmware's answer to the last [`ConsoleAction::WriteByte`].
    pub fn complete(&mut self, result: Result<(), Error>)
        ensures
            final(self)@ == after_result(old(self)@, result),
    {
        proof {
            use_type_invariant(&*self);
        }
        if self.failure.is_none() && self.written < self.output.len() {
            match result {
                Ok(()) => {
                    self.written = self.written + 1;
                },
                Err(error) => {
                    self.failure = Some(error);
                },
            }
        }
    }
}

/// Starts writing a UTF-8 string through the early console.
///
/// The returned writer asks for every byte of `text` in order, a carriage
/// return before each line feed, and stops at the first byte the firmware
/// refuses, reporting that error.
pub fn write_str(text: &str) -> (writer: ConsoleWrite)
    ensures
        writer@ == (ConsoleWriteModel {
            output: console_output(text.spec_bytes()),
            written: 0,
            failure: None,
        }),
{
    ConsoleWrite { output: console_bytes(text), written: 0, failure: None }
}

/// The state reached from `model` when the firmware answers `results`, in
/// order, to the writer's successive requests.
pub open spec fn drive(model: ConsoleWriteModel, results: Seq<Result<(), Error>>) -> ConsoleWriteModel
    decreases results.len(),
{
    if results.len() == 0 {
        model
    } else {
        drive(after_result(model, results[0]), results.drop_first())
    }
}

/// `count` successful answers.
pub open spec fn accepted(count: nat) -> Seq<Result<(), Error>> {
    Seq::new(count, |i: int| Ok::<(), Error>(()))
}

/// The state of a writer that has just started on `output`.
pub open spec fn fresh(output: Seq<u8>) -> ConsoleWriteModel {
    ConsoleWriteModel { output, written: 0, failure: None }
}

/// Every line feed that reaches the console comes right after a carriage
/// return.
pub proof fn lemma_line_feed_after_carriage_return(text: Seq<u8>)
    ensures
        forall|i: int|
            0 <= i < console_output(text).len() && #[trigger] console_output(text)[i] == LINE_FEED
                ==> i > 0 && console_output(text)[i - 1] == CARRIAGE_RETURN,
    decreases text.len(),
{
    if text.len() > 0 {
        lemma_line_feed_after_carriage_return(text.drop_last());
        let prefix = console_output(text.drop_last());
        let tail = console_byte(text.last());
        assert forall|i: int|
            0 <= i < console_output(text).len() && #[trigger] console_output(text)[i] == LINE_FEED
            implies i > 0 && console_output(text)[i - 1] == CARRIAGE_RETURN by {
            assert(console_output(text) == prefix + tail);
            if i < prefix.len() {
                assert(prefix[i] == LINE_FEED);
            }
        }
    }
}

/// The console receives one byte per byte of text plus one carriage return
/// per line feed.
pub proof fn lemma_console_output_length(text: Seq<u8>)
    ensures
        console_output(text).len() == text.len() + line_feeds(text),
    decreases text.len(),
{
    if text.len() > 0 {
        lemma_console_output_length(text.drop_last());
    }
}

/// Writing two texts one after the other sends what writing their
/// concatenation sends.
pub proof fn lemma_console_output_append(first: Seq<u8>, second: Seq<u8>)
    ensures
        console_output(first + second) == console_output(first) + console_output(second),
    decreases second.len(),
{
    if second.len() == 0 {
        assert(first + second == first);
        assert(console_output(second) == Seq::<u8>::empty());
    } else {
        assert((first + second).drop_last() == first + second.drop_last());
        assert((first + second).last() == second.last());
        lemma_console_output_append(first, second.drop_last());
    }
}

/// Text without line feeds reaches the console unchanged.
pub proof fn lemma_console_output_plain(text: Seq<u8>)
    requires
        line_feeds(text) == 0,
    ensures
        console_output(text) == text,
    decreases text.len(),
{
    if text.len() > 0 {
        lemma_console_output_plain(text.drop_last());
        assert(text.drop_last().push(text.last()) == text);
    }
}

/// A writer that has failed stays failed, whatever answers follow.
pub proof fn lemma_failure_is_final(model: ConsoleWriteModel, results: Seq<Result<(), Error>>)
    requires
        model.failure is Some,
    ensures
        drive(model, results) == model,
        action_for(drive(model, results)) == ConsoleAction::Finished(Err(model.failure->0)),
    decreases results.len(),
{
    if results.len() > 0 {
        lemma_failure_is_final(after_result(model, results[0]), results.drop_first());
    }
}

/// Each accepted byte moves a writer that has not failed one byte on.
pub proof fn lemma_drive_accepted(model: ConsoleWriteModel, count: nat)
    requires
        model.failure is None,
        model.written + count <= model.output.len(),
    ensures
        drive(model, accepted(count)) == (ConsoleWriteModel {
            written: model.written + count,
            ..model
        }),
    decreases count,
{
    if count > 0 {
        assert(accepted(count)[0] == Ok::<(), Error>(()));
        assert(accepted(count).drop_first() == accepted((count - 1) as nat));
        lemma_drive_accepted(after_result(model, Ok(())), (count - 1) as nat);
    }
}

/// When the firmware accepts every byte, a writer asks for exactly the bytes
/// of its output, in order, and then finishes successfully.
pub proof fn lemma_write_all_accepted(output: Seq<u8>, count: nat)
    requires
        count <= output.len(),
    ensures
        drive(fresh(output), accepted(count)) == (ConsoleWriteModel {
            output,
            written: count,
            failure: None,
        }),
        count < output.len() ==> action_for(drive(fresh(output), accepted(count)))
            == ConsoleAction::WriteByte(output[count as int]),
        count == output.len() ==> action_for(drive(fresh(output), accepted(count)))
            == ConsoleAction::Finished(Ok(())),
{
    lemma_drive_accepted(fresh(output), count);
}

/// When the firmware refuses a byte after accepting the `count` before it,
/// the writer finishes with that error and asks for nothing more.
pub proof fn lemma_write_stops_at_first_failure(
    output: Seq<u8>,
    count: nat,
    error: Error,
    rest: Seq<Result<(), Error>>,
)
    requires
        count < output.len(),
    ensures
        drive(fresh(output), accepted(count).push(Err(error)) + rest) == (ConsoleWriteModel {
            output,
            written: count,
            failure: Some(error),
        }),
        action_for(drive(fresh(output), accepted(count).push(Err(error)) + rest))
            == ConsoleAction::Finished(Err(error)),
{
    lemma_drive_concat(fresh(output), accepted(count), seq![Err(error)] + rest);
    assert(accepted(count).push(Err(error)) + rest == accepted(count) + (seq![Err(error)] + rest));
    lemma_drive_accepted(fresh(output), count);
    let stopped = ConsoleWriteModel { output, written: count, failure: Some(error) };
    let answers = seq![Err(error)] + rest;
    assert(answers[0] == Err::<(), Error>(error));
    assert(answers.drop_first() == rest);
    lemma_failure_is_final(stopped, rest);
}

/// Answering `first` and then `second` is answering their concatenation.
pub proof fn lemma_drive_concat(
    model: ConsoleWriteModel,
    first: Seq<Result<(), Error>>,
    second: Seq<Result<(), Error>>,
)
    ensures
        drive(model, first + second) == drive(drive(model, first), second),
    decreases first.len(),
{
    if first.len() == 0 {
        assert(first + second == second);
    } else {
        assert((first + second)[0] == first[0]);
        assert((first + second).drop_first() == first.drop_first() + second);
        lemma_drive_concat(after_result(model, first[0]), first.drop_first(), second);
    }
}

} // verus!
