//! Whether the terminal reads images from shared memory.
//!
//! A small image is offered through shared memory, and the answer of the terminal is awaited for a
//! while. Times are nanoseconds of one clock.
use vstd::prelude::*;

use super::super::kgfx::tracker::{duration_since, since};

verus! {

/// How long an answer is awaited.
pub const PROBE_TIMEOUT: u64 = 800_000_000;

/// The number of the image that is offered.
pub const PROBE_IMAGE_ID: u32 = 1;

/// How many nanoseconds a millisecond has.
pub const MILLISECOND: u64 = 1_000_000;

/// How images reach the terminal.
#[derive(Clone, Copy, Debug, PartialEq, Eq, Structural)]
pub enum TransferMode {
    SharedMemory,
    Chunked,
}

/// What happened while an answer was awaited.
#[derive(Debug)]
pub enum ProbeEvent {
    /// The clock was read.
    Clock { now: u64 },
    /// Waiting for input failed.
    PollFailed,
    /// No input came in time.
    NoInput,
    /// Reading the input failed.
    ReadFailed,
    /// Input came; none at all at its end.
    Input { bytes: Vec<u8> },
    /// The input so far was looked at: no answer yet, or an answer that agrees or refuses.
    Parsed { answer: Option<bool> },
}

/// What to do next.
#[derive(Clone, Copy, Debug, PartialEq, Eq, Structural)]
pub enum ProbeStep {
    /// Read the clock.
    ReadClock,
    /// Wait for input, so many milliseconds at most.
    Poll { timeout_ms: i32 },
    /// Look for an answer in the input so far.
    Parse,
    /// It is over: no answer, or one that agrees or refuses.
    Done { answer: Option<bool> },
    /// It is over: the system failed.
    Failed,
}

/// A wait for an answer.
pub struct ResponseReader {
    buffer: Vec<u8>,
    start: u64,
    timeout: u64,
}

/// A wait for an answer.
pub struct ReaderView {
    pub buffer: Seq<u8>,
    pub start: u64,
    pub timeout: u64,
}

impl View for ResponseReader {
    type V = ReaderView;

    closed spec fn view(&self) -> ReaderView {
        ReaderView { buffer: self.buffer@, start: self.start, timeout: self.timeout }
    }
}

impl ReaderView {
    /// How long to wait for input at a time, in milliseconds; none where the time is over.
    pub open spec fn wait(self, now: u64) -> Option<int> {
        let elapsed = since(now, self.start);
        if elapsed >= self.timeout {
            None
        } else {
            let ms = (self.timeout - elapsed) / 1_000_000;
            Some(
                if ms > i32::MAX {
                    i32::MAX as int
                } else {
                    ms
                },
            )
        }
    }

    /// The wait after an event, and what to do next.
    pub open spec fn after(self, event: ProbeEvent) -> (ReaderView, ProbeStep) {
        match event {
            ProbeEvent::Clock { now } => match self.wait(now) {
                Some(ms) => (self, ProbeStep::Poll { timeout_ms: ms as i32 }),
                None => (self, ProbeStep::Done { answer: None }),
            },
            ProbeEvent::PollFailed => (self, ProbeStep::Failed),
            ProbeEvent::NoInput => (self, ProbeStep::Done { answer: None }),
            ProbeEvent::ReadFailed => (self, ProbeStep::Failed),
            ProbeEvent::Input { bytes } => if bytes@.len() == 0 {
                (self, ProbeStep::Done { answer: None })
            } else {
                (ReaderView { buffer: self.buffer + bytes@, ..self }, ProbeStep::Parse)
            },
            ProbeEvent::Parsed { answer } => match answer {
                Some(_) => (self, ProbeStep::Done { answer }),
                None => (self, ProbeStep::ReadClock),
            },
        }
    }
}

impl ResponseReader {
    /// A wait that starts now.
    pub fn new(timeout: u64, start: u64) -> (r: Self)
        ensures
            r@ == (ReaderView { buffer: Seq::empty(), start, timeout }),
    {
        let r = ResponseReader { buffer: Vec::new(), start, timeout };
        assert(r@.buffer =~= Seq::empty());
        r
    }

    /// The input so far.
    pub fn buffer(&self) -> (r: &Vec<u8>)
        ensures
            r@ == self@.buffer,
    {
        &self.buffer
    }

    /// What to do after an event.
    pub fn read_response_with_timeout(&mut self, event: ProbeEvent) -> (r: ProbeStep)
        ensures
            (final(self)@, r) == old(self)@.after(event),
    {
        match event {
            ProbeEvent::Clock { now } => {
                let elapsed = duration_since(now, self.start);
                if elapsed >= self.timeout {
                    ProbeStep::Done { answer: None }
                } else {
                    let ms = (self.timeout - elapsed) / MILLISECOND;
                    if ms > i32::MAX as u64 {
                        ProbeStep::Poll { timeout_ms: i32::MAX }
                    } else {
                        ProbeStep::Poll { timeout_ms: ms as i32 }
                    }
                }
            },
            ProbeEvent::PollFailed => ProbeStep::Failed,
            ProbeEvent::NoInput => ProbeStep::Done { answer: None },
            ProbeEvent::ReadFailed => ProbeStep::Failed,
            ProbeEvent::Input { bytes } => {
                if bytes.len() == 0 {
                    ProbeStep::Done { answer: None }
                } else {
                    let mut more = bytes;
                    self.buffer.append(&mut more);
                    ProbeStep::Parse
                }
            },
            ProbeEvent::Parsed { answer } => match answer {
                Some(_) => ProbeStep::Done { answer },
                None => ProbeStep::ReadClock,
            },
        }
    }
}

/// Whether the terminal reads shared memory: it does only where it says so.
pub fn probe_shared_memory(end: ProbeStep) -> (r: Option<bool>)
    ensures
        r == (match end {
            ProbeStep::Done { answer } => Some(answer == Some(true)),
            _ => None,
        }),
{
    match end {
        ProbeStep::Done { answer } => Some(
            match answer {
                Some(ok) => ok,
                None => false,
            },
        ),
        _ => None,
    }
}

/// How images reach the terminal: through shared memory only where the terminal is known to read it.
pub fn probe_capabilities(outcome: Option<bool>) -> (r: TransferMode)
    ensures
        r == (if outcome == Some(true) {
            TransferMode::SharedMemory
        } else {
            TransferMode::Chunked
        }),
{
    match outcome {
        Some(true) => TransferMode::SharedMemory,
        _ => TransferMode::Chunked,
    }
}

/// No wait for input goes beyond the time that is left.
pub proof fn law_wait_ends_in_time(reader: ReaderView, now: u64)
    ensures
        match reader.wait(now) {
            Some(ms) => 0 <= ms <= i32::MAX && since(now, reader.start) + ms * MILLISECOND
                <= reader.timeout,
            None => since(now, reader.start) >= reader.timeout,
        },
{
}

/// The bytes that came, all of them.
pub open spec fn all_input(chunks: Seq<Seq<u8>>, n: nat) -> Seq<u8>
    decreases n,
{
    if n == 0 || n > chunks.len() {
        Seq::empty()
    } else {
        all_input(chunks, (n - 1) as nat) + chunks[n - 1]
    }
}

/// The wait after some input came, part by part.
pub open spec fn after_input(reader: ReaderView, chunks: Seq<Vec<u8>>, n: nat) -> ReaderView
    decreases n,
{
    if n == 0 || n > chunks.len() {
        reader
    } else {
        after_input(reader, chunks, (n - 1) as nat).after(
            ProbeEvent::Input { bytes: chunks[n - 1] },
        ).0
    }
}

/// An answer is looked for in all the input that came, however it was cut into parts.
pub proof fn law_input_is_kept(reader: ReaderView, chunks: Seq<Vec<u8>>, n: nat)
    requires
        reader.buffer.len() == 0,
        n <= chunks.len(),
    ensures
        after_input(reader, chunks, n).buffer == all_input(
            chunks.map_values(|c: Vec<u8>| c@),
            n,
        ),
    decreases n,
{
    if n > 0 {
        law_input_is_kept(reader, chunks, (n - 1) as nat);
        let views = chunks.map_values(|c: Vec<u8>| c@);
        assert(views[n - 1] == chunks[n - 1]@);
        let before = after_input(reader, chunks, (n - 1) as nat).buffer;
        assert(before + chunks[n - 1]@ =~= all_input(views, n));
    } else {
        assert(reader.buffer =~= Seq::empty());
    }
}

} // verus!
