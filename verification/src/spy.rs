//! The connection spy: transparent observation of byte-stream operations.
//!
//! A [`SpyStream`] wraps the transport under the protocol layer. Every read
//! and write outcome is turned into a diagnostic record, and the observer
//! hands the outcome itself back unchanged — the contracts prove that
//! observation never alters data, byte counts, errors, or readiness, so the
//! protocol layer behaves identically with or without the spy attached.
//! The unverifiable plumbing (polling the underlying socket, emitting the
//! records to a logger) stays outside the crate.

use vstd::prelude::*;

verus! {

/// One hexadecimal digit, lower case.
pub open spec fn hex_digit_spec(n: int) -> u8 {
    if n < 10 {
        (0x30 + n) as u8
    } else {
        (0x57 + n) as u8
    }
}

/// A display-escaped form of one byte: printable ASCII stands for itself,
/// backslash, newline, carriage return and tab have two-character escapes,
/// every other byte is rendered as a backslash-x hex pair.
pub open spec fn escape_byte(b: u8) -> Seq<u8> {
    if b == 0x5c {
        seq![0x5cu8, 0x5cu8]
    } else if b == 0x0a {
        seq![0x5cu8, 0x6eu8]
    } else if b == 0x0d {
        seq![0x5cu8, 0x72u8]
    } else if b == 0x09 {
        seq![0x5cu8, 0x74u8]
    } else if 0x20 <= b && b <= 0x7e {
        seq![b]
    } else {
        seq![0x5cu8, 0x78u8, hex_digit_spec(b as int / 16), hex_digit_spec(b as int % 16)]
    }
}

/// The display-escaped form of a byte string.
pub open spec fn escape_bytes_spec(s: Seq<u8>) -> Seq<u8>
    decreases s.len(),
{
    if s.len() == 0 {
        Seq::empty()
    } else {
        escape_bytes_spec(s.drop_last()) + escape_byte(s.last())
    }
}

/// One hexadecimal digit, lower case.
fn hex_digit(n: u8) -> (r: u8)
    requires
        n < 16,
    ensures
        r == hex_digit_spec(n as int),
{
    if n < 10 {
        0x30 + n
    } else {
        0x57 + n
    }
}

/// Renders a byte string in its display-escaped form, for diagnostics.
pub fn escape_bytes(data: &Vec<u8>) -> (r: Vec<u8>)
    ensures
        r@ == escape_bytes_spec(data@),
{
    let n = data.len();
    let mut r: Vec<u8> = Vec::new();
    proof {
        assert(data@.take(0) =~= Seq::<u8>::empty());
    }
    let mut i: usize = 0;
    while i < n
        invariant
            n == data@.len(),
            0 <= i <= n,
            r@ == escape_bytes_spec(data@.take(i as int)),
        decreases n - i,
    {
        let b = data[i];
        if b == 0x5c {
            r.push(0x5c);
            r.push(0x5c);
        } else if b == 0x0a {
            r.push(0x5c);
            r.push(0x6e);
        } else if b == 0x0d {
            r.push(0x5c);
            r.push(0x72);
        } else if b == 0x09 {
            r.push(0x5c);
            r.push(0x74);
        } else if 0x20 <= b && b <= 0x7e {
            r.push(b);
        } else {
            r.push(0x5c);
            r.push(0x78);
            r.push(hex_digit(b / 16));
            r.push(hex_digit(b % 16));
        }
        proof {
            assert(data@.take(i + 1).drop_last() =~= data@.take(i as int));
            assert(data@.take(i + 1).last() == b);
            assert(r@ =~= escape_bytes_spec(data@.take(i as int)) + escape_byte(b));
        }
        i = i + 1;
    }
    proof {
        assert(data@.take(n as int) =~= data@);
    }
    r
}

/// The outcome of one read operation on the underlying stream: it finished
/// and filled some bytes, it failed with an error, or the stream was not
/// ready yet.
pub enum ReadOutcome {
    Done,
    Failed { message: Vec<u8> },
    NotReady,
}

/// The outcome of one write operation on the underlying stream.
pub enum WriteOutcome {
    Done { count: usize },
    Failed { message: Vec<u8> },
    NotReady,
}

/// One diagnostic record produced by the spy.
pub enum SpyRecord {
    ReadData { rendered: Vec<u8> },
    ReadError { message: Vec<u8> },
    ReadNotReady,
    WroteBytes { count: usize },
    WriteError { message: Vec<u8> },
    WriteNotReady,
}

/// A byte stream with an observer attached. The wrapped transport is the
/// single field; the observers below decide what gets logged and prove
/// that the observed outcome is passed through untouched.
pub struct SpyStream<IO>(pub IO);

impl<IO> SpyStream<IO> {
    /// Observes one read outcome: a finished read is logged with the
    /// display-escaped bytes that were filled, a failure with its message,
    /// a not-ready outcome as such. The outcome comes back unchanged.
    pub fn observe_read(&self, outcome: ReadOutcome, filled: &Vec<u8>) -> (r: (
        ReadOutcome,
        SpyRecord,
    ))
        ensures
            r.0 == outcome,
            match outcome {
                ReadOutcome::Done => r.1 matches SpyRecord::ReadData { rendered } && rendered@
                    == escape_bytes_spec(filled@),
                ReadOutcome::Failed { message } => r.1 matches SpyRecord::ReadError {
                    message: m,
                } && m@ == message@,
                ReadOutcome::NotReady => r.1 == SpyRecord::ReadNotReady,
            },
    {
        match outcome {
            ReadOutcome::Done => {
                let record = SpyRecord::ReadData { rendered: escape_bytes(filled) };
                (ReadOutcome::Done, record)
            },
            ReadOutcome::Failed { message } => {
                let record = SpyRecord::ReadError { message: crate::ascii::clone_bytes(&message) };
                (ReadOutcome::Failed { message }, record)
            },
            ReadOutcome::NotReady => (ReadOutcome::NotReady, SpyRecord::ReadNotReady),
        }
    }

    /// Observes one write outcome: a finished write is logged with the
    /// byte count alone, a failure with its message, a not-ready outcome
    /// as such. The outcome comes back unchanged.
    pub fn observe_write(&self, outcome: WriteOutcome) -> (r: (WriteOutcome, SpyRecord))
        ensures
            r.0 == outcome,
            match outcome {
                WriteOutcome::Done { count } => r.1 == (SpyRecord::WroteBytes { count }),
                WriteOutcome::Failed { message } => r.1 matches SpyRecord::WriteError {
                    message: m,
                } && m@ == message@,
                WriteOutcome::NotReady => r.1 == SpyRecord::WriteNotReady,
            },
    {
        match outcome {
            WriteOutcome::Done { count } => {
                (WriteOutcome::Done { count }, SpyRecord::WroteBytes { count })
            },
            WriteOutcome::Failed { message } => {
                let record = SpyRecord::WriteError { message: crate::ascii::clone_bytes(&message) };
                (WriteOutcome::Failed { message }, record)
            },
            WriteOutcome::NotReady => (WriteOutcome::NotReady, SpyRecord::WriteNotReady),
        }
    }
}

} // verus!
