//! The shell of the execution server: the lines that a command is sent in,
//! and what is made of the bytes that the terminal gives back.

use crate::text::{lines_of, split_lines, texts};
use vstd::prelude::*;
use vstd::utf8::{decode_utf8, valid_utf8};

verus! {

/// The byte that starts an escape sequence.
pub const ESCAPE: u8 = 0x1b;

/// The byte that follows it in a control sequence: `[`.
pub const BRACKET: u8 = 0x5b;

/// Whether `byte` is a parameter of a control sequence: a digit or `;`.
pub open spec fn is_parameter(byte: u8) -> bool {
    (0x30 <= byte <= 0x39) || byte == 0x3b
}

/// Whether `byte` ends a control sequence: one of `@` to `~`.
pub open spec fn is_final(byte: u8) -> bool {
    0x40 <= byte <= 0x7e
}

/// The index behind the parameters that start at `from`.
pub open spec fn parameters_end(bytes: Seq<u8>, from: int) -> int
    decreases bytes.len() - from,
{
    if 0 <= from < bytes.len() && is_parameter(bytes[from]) {
        parameters_end(bytes, from + 1)
    } else {
        from
    }
}

/// The index behind the control sequence that starts at `at`, where one
/// does: the escape byte, `[`, any parameters, and a final byte.
pub open spec fn sequence_end(bytes: Seq<u8>, at: int) -> Option<int> {
    if 0 <= at && at + 1 < bytes.len() && bytes[at] == ESCAPE && bytes[at + 1] == BRACKET {
        let end = parameters_end(bytes, at + 2);
        if end < bytes.len() && is_final(bytes[end]) {
            Some(end + 1)
        } else {
            None
        }
    } else {
        None
    }
}

/// The parameters end at or behind their start, within the bytes.
pub proof fn lemma_parameters_end(bytes: Seq<u8>, from: int)
    requires
        0 <= from <= bytes.len(),
    ensures
        from <= parameters_end(bytes, from) <= bytes.len(),
    decreases bytes.len() - from,
{
    if from < bytes.len() && is_parameter(bytes[from]) {
        lemma_parameters_end(bytes, from + 1);
    }
}

/// The bytes from `at` on without their control sequences, read from left
/// to right: where a control sequence starts it is passed over, and every
/// other byte is kept.
pub open spec fn stripped_from(bytes: Seq<u8>, at: int) -> Seq<u8>
    decreases bytes.len() - at,
    via stripped_from_ends
{
    if at < 0 || at >= bytes.len() {
        Seq::empty()
    } else {
        match sequence_end(bytes, at) {
            Some(end) => stripped_from(bytes, end),
            None => seq![bytes[at]] + stripped_from(bytes, at + 1),
        }
    }
}

#[via_fn]
proof fn stripped_from_ends(bytes: Seq<u8>, at: int) {
    if 0 <= at && at + 1 < bytes.len() {
        lemma_parameters_end(bytes, at + 2);
    }
}

/// The bytes without their control sequences.
pub open spec fn stripped(bytes: Seq<u8>) -> Seq<u8> {
    stripped_from(bytes, 0)
}

/// Bytes among which there is no escape byte are kept from any index on.
proof fn lemma_plain_bytes_stay_from(bytes: Seq<u8>, at: int)
    requires
        0 <= at <= bytes.len(),
        forall|i: int| 0 <= i < bytes.len() ==> bytes[i] != ESCAPE,
    ensures
        stripped_from(bytes, at) == bytes.skip(at),
    decreases bytes.len() - at,
{
    if at < bytes.len() {
        lemma_plain_bytes_stay_from(bytes, at + 1);
        assert(seq![bytes[at]] + bytes.skip(at + 1) == bytes.skip(at));
    }
}

/// Bytes among which there is no escape byte are left as they are.
pub proof fn lemma_plain_bytes_stay(bytes: Seq<u8>)
    requires
        forall|i: int| 0 <= i < bytes.len() ==> bytes[i] != ESCAPE,
    ensures
        stripped(bytes) == bytes,
{
    lemma_plain_bytes_stay_from(bytes, 0);
    assert(bytes.skip(0) == bytes);
}

/// Takes the control sequences out of `bytes`.
pub fn strip_escape_sequences(bytes: &[u8]) -> (clean: Vec<u8>)
    ensures
        clean@ == stripped(bytes@),
{
    let mut clean: Vec<u8> = Vec::new();
    let mut at: usize = 0;
    while at < bytes.len()
        invariant
            at <= bytes.len(),
            stripped(bytes@) == clean@ + stripped_from(bytes@, at as int),
        decreases bytes.len() - at,
    {
        let ghost rest = stripped_from(bytes@, at as int);
        let mut end: usize = at;
        let mut found = false;
        if bytes.len() - at >= 2 && bytes[at] == ESCAPE && bytes[at + 1] == BRACKET {
            end = at + 2;
            while end < bytes.len() && ((0x30 <= bytes[end] && bytes[end] <= 0x39) || bytes[end]
                == 0x3b)
                invariant
                    at + 2 <= end <= bytes.len(),
                    parameters_end(bytes@, at + 2) == parameters_end(bytes@, end as int),
                decreases bytes.len() - end,
            {
                end += 1;
            }
            if end < bytes.len() && 0x40 <= bytes[end] && bytes[end] <= 0x7e {
                found = true;
                end += 1;
            }
        }
        if found {
            assert(sequence_end(bytes@, at as int) == Some(end as int));
            at = end;
        } else {
            assert(sequence_end(bytes@, at as int) is None);
            let ghost before = clean@;
            clean.push(bytes[at]);
            assert(clean@ + stripped_from(bytes@, at + 1) =~= before + rest) by {
                assert(rest == seq![bytes@[at as int]] + stripped_from(bytes@, at + 1));
            }
            at += 1;
        }
    }
    assert(clean@ + stripped_from(bytes@, at as int) =~= clean@);
    clean
}

/// What `String::from_utf8_lossy` makes of `bytes`: the text they spell,
/// with the replacement character in place of what is no UTF-8.
pub uninterp spec fn utf8_lossy(bytes: Seq<u8>) -> Seq<char>;

/// Calls `String::from_utf8_lossy` and takes the text as a `String`. The
/// same bytes always give the same text, and bytes that are UTF-8 give the
/// text that they spell.
#[verifier::external_body]
fn decode_lossy(bytes: &[u8]) -> (text: String)
    ensures
        text@ == utf8_lossy(bytes@),
        valid_utf8(bytes@) ==> text@ == decode_utf8(bytes@),
{
    String::from_utf8_lossy(bytes).into_owned()
}

/// The output of a command as text: the bytes without their control
/// sequences, decoded.
pub open spec fn output_text(bytes: Seq<u8>) -> Seq<char> {
    utf8_lossy(stripped(bytes))
}

/// One run of a command in the shell: the lines to send, how many of them
/// were sent, and the bytes that came back so far.
#[derive(Debug)]
pub struct Run {
    lines: Vec<String>,
    sent: usize,
    output: Vec<u8>,
}

/// A `Run` as mathematical values.
pub struct RunView {
    pub lines: Seq<Seq<char>>,
    pub sent: nat,
    pub output: Seq<u8>,
}

impl View for Run {
    type V = RunView;

    closed spec fn view(&self) -> RunView {
        RunView { lines: texts(self.lines@), sent: self.sent as nat, output: self.output@ }
    }
}

impl Run {
    /// The run of the command `input`: its lines are sent one by one.
    pub fn new(input: &str) -> (run: Run)
        ensures
            run@ == (RunView { lines: lines_of(input@), sent: 0, output: Seq::empty() }),
    {
        Run { lines: split_lines(input), sent: 0, output: Vec::new() }
    }

    /// The next line to send to the shell, if any is left.
    pub fn next_line(&mut self) -> (line: Option<String>)
        ensures
            final(self)@.lines == old(self)@.lines,
            final(self)@.output == old(self)@.output,
            match line {
                Some(text) => {
                    &&& old(self)@.sent < old(self)@.lines.len()
                    &&& text@ == old(self)@.lines[old(self)@.sent as int]
                    &&& final(self)@.sent == old(self)@.sent + 1
                },
                None => {
                    &&& old(self)@.sent >= old(self)@.lines.len()
                    &&& final(self)@.sent == old(self)@.sent
                },
            },
    {
        if self.sent < self.lines.len() {
            let line = self.lines[self.sent].clone();
            self.sent = self.sent + 1;
            Some(line)
        } else {
            None
        }
    }

    /// Takes bytes that the terminal gave back.
    pub fn receive(&mut self, data: &[u8])
        ensures
            final(self)@ == (RunView { output: old(self)@.output + data@, ..old(self)@ }),
    {
        let mut i: usize = 0;
        while i < data.len()
            invariant
                i <= data.len(),
                self.sent == old(self).sent,
                self.lines == old(self).lines,
                self.output@ == old(self).output@ + data@.take(i as int),
            decreases data.len() - i,
        {
            self.output.push(data[i]);
            assert(data@.take(i + 1) =~= data@.take(i as int).push(data@[i as int]));
            i += 1;
        }
        assert(data@.take(data.len() as int) =~= data@);
    }

    /// Ends the run: what came back, as text.
    pub fn finish(self) -> (output: String)
        ensures
            output@ == output_text(self@.output),
            valid_utf8(stripped(self@.output)) ==> output@ == decode_utf8(
                stripped(self@.output),
            ),
    {
        clean_output(self.output.as_slice())
    }
}

/// The output of a command as text. Where what is left of the bytes is
/// UTF-8, it is the text that they spell.
pub fn clean_output(bytes: &[u8]) -> (output: String)
    ensures
        output@ == output_text(bytes@),
        valid_utf8(stripped(bytes@)) ==> output@ == decode_utf8(stripped(bytes@)),
{
    let clean = strip_escape_sequences(bytes);
    decode_lossy(clean.as_slice())
}

} // verus!
