//! The ELM327 conversation: how a command goes on the wire, how a reply is
//! gathered up to the `>` prompt, how the line is drained after a reset,
//! and the set-up script.
use vstd::prelude::*;
use vstd::utf8::{valid_utf8, decode_utf8};
use vstd::string::StringSliceAdditionalSpecFns;
use crate::text::{clean_elm_text, cleaned_reply};
use crate::snapshot::elapsed_ms;

verus! {

/// How the serial port to the adapter is opened: device path, baud rate
/// and read timeout.
pub struct ObdConfig {
    pub dev: String,
    pub baud: u32,
    pub timeout_ms: u64,
}

/// The prompt byte `>` that ends every reply.
pub const PROMPT: u8 = 0x3E;

/// How long a command may take to be answered.
pub const REPLY_TIMEOUT_MS: u64 = 900;

/// The text `String::from_utf8_lossy` makes of the bytes.
pub uninterp spec fn utf8_lossy(bytes: Seq<u8>) -> Seq<char>;

/// `String::from_utf8_lossy`: the bytes read as UTF-8, each invalid
/// sequence replaced by U+FFFD. Valid UTF-8 comes back as the text it
/// encodes; what an invalid sequence becomes is only named, not stated.
#[verifier::external_body]
fn decode_utf8_lossy(bytes: &[u8]) -> (s: String)
    ensures
        s@ == utf8_lossy(bytes@),
        valid_utf8(bytes@) ==> s@ == decode_utf8(bytes@),
{
    String::from_utf8_lossy(bytes).into_owned()
}

/// The bytes to write for a command: its text, then a carriage return.
pub fn command_line(cmd: &str) -> (r: Vec<u8>)
    ensures
        r@ == cmd.spec_bytes().push(0x0D),
{
    let mut v = vstd::slice::slice_to_vec(cmd.as_bytes());
    v.push(0x0D);
    v
}

/// What one read of the serial port gave.
pub enum SerialRead<'a> {
    /// Bytes arrived (possibly none).
    Data(&'a [u8]),
    /// The read timed out without bytes.
    TimedOut,
    /// The read failed.
    Failed,
}

/// Where gathering a reply stands after a read.
#[derive(Debug)]
pub enum PromptStep {
    /// No prompt yet: read again.
    Pending,
    /// The prompt came: the cleaned reply.
    Complete(String),
    /// The port failed.
    Failed,
}

/// Gathers the bytes of one reply until the prompt arrives.
pub struct PromptReader {
    buf: Vec<u8>,
    seen_prompt: bool,
    start_ms: u64,
    max_wait_ms: u64,
}

impl PromptReader {
    /// The bytes gathered so far.
    pub closed spec fn received(&self) -> Seq<u8> {
        self.buf@
    }

    /// When gathering began.
    pub closed spec fn started(&self) -> u64 {
        self.start_ms
    }

    /// How long gathering may take.
    pub closed spec fn max_wait(&self) -> u64 {
        self.max_wait_ms
    }

    /// The internal prompt flag agrees with the bytes.
    pub closed spec fn wf(&self) -> bool {
        self.seen_prompt == self.buf@.contains(PROMPT)
    }

    /// Starts gathering a reply at `start_ms`.
    pub fn new(start_ms: u64, max_wait_ms: u64) -> (r: PromptReader)
        ensures
            r.wf(),
            r.received() == Seq::<u8>::empty(),
            r.started() == start_ms,
            r.max_wait() == max_wait_ms,
    {
        PromptReader { buf: Vec::new(), seen_prompt: false, start_ms, max_wait_ms }
    }

    /// Whether more than the allowed time has passed at `now_ms`.
    pub fn expired(&self, now_ms: u64) -> (r: bool)
        ensures
            r == (elapsed_ms(self.started(), now_ms) > self.max_wait()),
    {
        now_ms.saturating_sub(self.start_ms) > self.max_wait_ms
    }

    /// Takes one read into account. Bytes are added to the reply; once the
    /// reply holds the prompt it is complete, and comes back cleaned. A
    /// timed-out read changes nothing; a failed one ends the reply.
    pub fn on_read(&mut self, ev: SerialRead) -> (r: PromptStep)
        requires
            old(self).wf(),
        ensures
            final(self).wf(),
            final(self).started() == old(self).started(),
            final(self).max_wait() == old(self).max_wait(),
            match ev {
                SerialRead::Data(chunk) => {
                    &&& final(self).received() == old(self).received() + chunk@
                    &&& final(self).received().contains(PROMPT) ==> (r matches PromptStep::Complete(
                        t,
                    ) && t@ == cleaned_reply(utf8_lossy(final(self).received())))
                    &&& !final(self).received().contains(PROMPT) ==> r is Pending
                },
                SerialRead::TimedOut => final(self).received() == old(self).received()
                    && r is Pending,
                SerialRead::Failed => final(self).received() == old(self).received() && r is Failed,
            },
    {
        match ev {
            SerialRead::Data(chunk) => {
                let ghost before = self.buf@;
                let ghost s0 = self.start_ms;
                let ghost m0 = self.max_wait_ms;
                let mut i: usize = 0;
                while i < chunk.len()
                    invariant
                        i <= chunk.len(),
                        self.buf@ == before + chunk@.take(i as int),
                        self.seen_prompt == self.buf@.contains(PROMPT),
                        self.start_ms == s0,
                        self.max_wait_ms == m0,
                    decreases chunk.len() - i,
                {
                    let b: u8 = chunk[i];
                    let ghost prev = self.buf@;
                    self.buf.push(b);
                    if b == PROMPT {
                        self.seen_prompt = true;
                        assert(self.buf@[self.buf@.len() - 1] == PROMPT);
                    }
                    proof {
                        assert(chunk@.take(i + 1) =~= chunk@.take(i as int).push(b));
                        assert(self.buf@ =~= prev.push(b));
                        if self.buf@.contains(PROMPT) && b != PROMPT {
                            let k = choose|k: int| 0 <= k < self.buf@.len() && self.buf@[k] == PROMPT;
                            assert(prev[k] == PROMPT);
                        }
                        if prev.contains(PROMPT) {
                            let k = choose|k: int| 0 <= k < prev.len() && prev[k] == PROMPT;
                            assert(self.buf@[k] == PROMPT);
                        }
                    }
                    i = i + 1;
                }
                assert(chunk@.take(chunk@.len() as int) =~= chunk@);
                if self.seen_prompt {
                    let text = decode_utf8_lossy(self.buf.as_slice());
                    PromptStep::Complete(clean_elm_text(text.as_str()))
                } else {
                    PromptStep::Pending
                }
            },
            SerialRead::TimedOut => PromptStep::Pending,
            SerialRead::Failed => PromptStep::Failed,
        }
    }
}

/// Reads whatever the adapter still sends for a while after a reset, and
/// counts it.
pub struct Drain {
    pub start_ms: u64,
    pub duration_ms: u64,
    pub drained: u64,
}

impl Drain {
    /// Starts draining at `start_ms` for `duration_ms`.
    pub fn new(start_ms: u64, duration_ms: u64) -> (r: Drain)
        ensures
            r.start_ms == start_ms,
            r.duration_ms == duration_ms,
            r.drained == 0,
    {
        Drain { start_ms, duration_ms, drained: 0 }
    }

    /// Whether draining goes on at `now_ms`: less than the duration has
    /// passed.
    pub fn running(&self, now_ms: u64) -> (r: bool)
        ensures
            r == (elapsed_ms(self.start_ms, now_ms) < self.duration_ms),
    {
        now_ms.saturating_sub(self.start_ms) < self.duration_ms
    }

    /// Takes one read into account; whether draining goes on. Bytes are
    /// counted, a timed-out read changes nothing, a failed read stops.
    pub fn on_read(&mut self, ev: SerialRead) -> (r: bool)
        requires
            ev matches SerialRead::Data(chunk) ==> old(self).drained + chunk@.len() <= u64::MAX,
        ensures
            final(self).start_ms == old(self).start_ms,
            final(self).duration_ms == old(self).duration_ms,
            match ev {
                SerialRead::Data(chunk) => r && final(self).drained == old(self).drained
                    + chunk@.len(),
                SerialRead::TimedOut => r && final(self).drained == old(self).drained,
                SerialRead::Failed => !r && final(self).drained == old(self).drained,
            },
    {
        match ev {
            SerialRead::Data(chunk) => {
                self.drained = self.drained + chunk.len() as u64;
                true
            },
            SerialRead::TimedOut => true,
            SerialRead::Failed => false,
        }
    }
}

/// The commands of the set-up script.
#[derive(Debug, Clone, Copy, PartialEq, Eq, Structural)]
pub enum ElmCommand {
    /// `ATZ`: reset.
    Reset,
    /// `ATE0`: echo off.
    EchoOff,
    /// `ATL0`: line feeds off.
    LinefeedsOff,
    /// `ATS0`: spaces off.
    SpacesOff,
    /// `ATH0`: headers off.
    HeadersOff,
    /// `ATSP0`: protocol chosen automatically.
    AutoProtocol,
    /// `ATAT1`: adaptive timing on.
    AdaptiveTiming,
    /// `ATST0A`: reply timeout of 10 units of about 4 ms; not part of the
    /// set-up script.
    ReplyTimeout,
}

/// The text of a set-up command.
pub open spec fn command_text(c: ElmCommand) -> Seq<char> {
    match c {
        ElmCommand::Reset => seq!['A', 'T', 'Z'],
        ElmCommand::EchoOff => seq!['A', 'T', 'E', '0'],
        ElmCommand::LinefeedsOff => seq!['A', 'T', 'L', '0'],
        ElmCommand::SpacesOff => seq!['A', 'T', 'S', '0'],
        ElmCommand::HeadersOff => seq!['A', 'T', 'H', '0'],
        ElmCommand::AutoProtocol => seq!['A', 'T', 'S', 'P', '0'],
        ElmCommand::AdaptiveTiming => seq!['A', 'T', 'A', 'T', '1'],
        ElmCommand::ReplyTimeout => seq!['A', 'T', 'S', 'T', '0', 'A'],
    }
}

impl ElmCommand {
    /// The command's text.
    pub fn text(&self) -> (r: String)
        ensures
            r@ == command_text(*self),
    {
        let t: Vec<char> = match self {
            ElmCommand::Reset => vec!['A', 'T', 'Z'],
            ElmCommand::EchoOff => vec!['A', 'T', 'E', '0'],
            ElmCommand::LinefeedsOff => vec!['A', 'T', 'L', '0'],
            ElmCommand::SpacesOff => vec!['A', 'T', 'S', '0'],
            ElmCommand::HeadersOff => vec!['A', 'T', 'H', '0'],
            ElmCommand::AutoProtocol => vec!['A', 'T', 'S', 'P', '0'],
            ElmCommand::AdaptiveTiming => vec!['A', 'T', 'A', 'T', '1'],
            ElmCommand::ReplyTimeout => vec!['A', 'T', 'S', 'T', '0', 'A'],
        };
        let mut r = String::new();
        crate::text::push_range(&mut r, &t, 0, t.len());
        assert(t@.subrange(0, t@.len() as int) =~= t@);
        assert(r@ =~= command_text(*self));
        r
    }
}

/// One step of the set-up script.
#[derive(Debug, Clone, Copy, PartialEq, Eq, Structural)]
pub enum InitStep {
    /// Send a command and wait for its reply; a failure ends the set-up.
    Send(ElmCommand),
    /// Sleep this many milliseconds.
    Pause(u64),
    /// Drain the line for this many milliseconds, whatever comes.
    Drain(u64),
}

/// The set-up script: reset, give the adapter time, drain what it printed,
/// then turn echo, line feeds, spaces and headers off, choose the protocol
/// automatically and turn adaptive timing on.
pub open spec fn init_script() -> Seq<InitStep> {
    seq![
        InitStep::Send(ElmCommand::Reset),
        InitStep::Pause(800),
        InitStep::Drain(300),
        InitStep::Send(ElmCommand::EchoOff),
        InitStep::Send(ElmCommand::LinefeedsOff),
        InitStep::Send(ElmCommand::SpacesOff),
        InitStep::Send(ElmCommand::HeadersOff),
        InitStep::Send(ElmCommand::AutoProtocol),
        InitStep::Send(ElmCommand::AdaptiveTiming),
    ]
}

/// The set-up script, in order.
pub fn init_steps() -> (r: Vec<InitStep>)
    ensures
        r@ == init_script(),
{
    let r = vec![
        InitStep::Send(ElmCommand::Reset),
        InitStep::Pause(800),
        InitStep::Drain(300),
        InitStep::Send(ElmCommand::EchoOff),
        InitStep::Send(ElmCommand::LinefeedsOff),
        InitStep::Send(ElmCommand::SpacesOff),
        InitStep::Send(ElmCommand::HeadersOff),
        InitStep::Send(ElmCommand::AutoProtocol),
        InitStep::Send(ElmCommand::AdaptiveTiming),
    ];
    assert(r@ =~= init_script());
    r
}

} // verus!
