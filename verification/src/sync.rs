//! The messages between the agent and the init process of a container.
//!
//! A message starts with a type, four bytes in network order. A data message goes
//! on with a length in the same form and that many bytes. A failure message goes on
//! with an error text up to the end of the stream.
use vstd::prelude::*;
use vstd::utf8::{decode_utf8, encode_utf8, encode_utf8_decode_utf8, encode_utf8_valid_utf8, valid_utf8};

use crate::text::push_u64;

verus! {

/// Acknowledgement.
pub const SYNC_SUCCESS: i32 = 1;

/// Failure of the child.
pub const SYNC_FAILED: i32 = 2;

/// Data.
pub const SYNC_DATA: i32 = 3;

/// The size of the pieces in which an error text is read.
pub const DATA_SIZE: usize = 100;

/// The size of a type and of a length.
pub const MSG_SIZE: usize = 4;

/// `String::from_utf8` succeeds exactly on valid UTF-8 and then holds the characters
/// that the bytes encode.
#[verifier::external_body]
pub(crate) fn utf8_text(bytes: Vec<u8>) -> (r: Option<String>)
    ensures
        r is Some <==> valid_utf8(bytes@),
        r matches Some(s) ==> s@ == decode_utf8(bytes@),
{
    String::from_utf8(bytes).ok()
}

/// A number below 2^32 in two's complement.
pub open spec fn signed(n: int) -> int {
    if n >= 0x8000_0000 {
        n - 0x1_0000_0000
    } else {
        n
    }
}

/// The four bytes of a number in network order.
pub open spec fn be_bytes(n: int) -> Seq<u8> {
    let u = if n < 0 {
        n + 0x1_0000_0000
    } else {
        n
    };
    seq![
        (u / 0x100_0000) as u8,
        (u / 0x1_0000 % 0x100) as u8,
        (u / 0x100 % 0x100) as u8,
        (u % 0x100) as u8,
    ]
}

/// The number that four bytes in network order write.
pub open spec fn be_value(b: Seq<u8>) -> int {
    signed(b[0] * 0x100_0000 + b[1] * 0x1_0000 + b[2] * 0x100 + b[3])
}

/// Reading what was written gives the number back.
pub proof fn law_be_round_trip(n: i32)
    ensures
        be_value(be_bytes(n as int)) == n,
{
}

/// The length field of a payload: its length modulo 2^32, in two's complement.
pub open spec fn length_field(n: int) -> int {
    signed(n % 0x1_0000_0000)
}

fn push_be(out: &mut Vec<u8>, n: i32)
    ensures
        final(out)@ == old(out)@ + be_bytes(n as int),
{
    let u: u32 = if n < 0 {
        (n as i64 + 0x1_0000_0000) as u32
    } else {
        n as u32
    };
    out.push((u / 0x100_0000) as u8);
    out.push((u / 0x1_0000 % 0x100) as u8);
    out.push((u / 0x100 % 0x100) as u8);
    out.push((u % 0x100) as u8);
    proof {
        assert(out@ =~= old(out)@ + be_bytes(n as int));
    }
}

fn take_be(b: &[u8]) -> (r: i32)
    requires
        b.len() == 4,
    ensures
        r == be_value(b@),
{
    let n: i64 = b[0] as i64 * 0x100_0000 + b[1] as i64 * 0x1_0000 + b[2] as i64 * 0x100
        + b[3] as i64;
    if n >= 0x8000_0000 {
        (n - 0x1_0000_0000) as i32
    } else {
        n as i32
    }
}

fn push_bytes(out: &mut Vec<u8>, data: &[u8])
    ensures
        final(out)@ == old(out)@ + data@,
{
    let ghost before = out@;
    let mut i: usize = 0;
    while i < data.len()
        invariant
            i <= data.len(),
            out@ == before + data@.take(i as int),
        decreases data.len() - i,
    {
        out.push(data[i]);
        i += 1;
        proof {
            assert(out@ =~= before + data@.take(i as int));
        }
    }
    proof {
        assert(data@.take(data@.len() as int) =~= data@);
    }
}

/// The bytes of a message.
pub open spec fn frame(msg_type: int, data: Seq<u8>) -> Seq<u8> {
    be_bytes(msg_type) + (if msg_type == SYNC_DATA {
        be_bytes(length_field(data.len() as int)) + data
    } else if msg_type == SYNC_FAILED {
        data
    } else {
        Seq::empty()
    })
}

/// The bytes that the child sends for a message.
pub fn write_sync(msg_type: i32, data: &[u8]) -> (r: Vec<u8>)
    ensures
        r@ == frame(msg_type as int, data@),
{
    let mut out: Vec<u8> = Vec::new();
    push_be(&mut out, msg_type);
    if msg_type == SYNC_DATA {
        let low: u32 = (data.len() as u64 % 0x1_0000_0000) as u32;
        let length: i32 = if low >= 0x8000_0000 {
            (low as i64 - 0x1_0000_0000) as i32
        } else {
            low as i32
        };
        push_be(&mut out, length);
        push_bytes(&mut out, data);
    } else if msg_type == SYNC_FAILED {
        push_bytes(&mut out, data);
    }
    proof {
        assert(out@ =~= frame(msg_type as int, data@));
    }
    out
}

/// Why a message could not be exchanged.
#[derive(Debug)]
pub enum SyncError {
    /// The stream ended early.
    Short { expected: usize, got: usize },
    /// The stream ended within the type of a message to the parent.
    ShortHeader { got: usize },
    /// The message has a type that the receiver does not take.
    Unexpected,
    /// The child failed, with its error text.
    Child(String),
    /// The error text of the child is not UTF-8.
    NotText,
    /// The parent does not send messages of this type.
    Unsupported,
}

/// A `SyncError` with its text as a sequence.
pub enum SyncErrorView {
    Short(int, int),
    ShortHeader(int),
    Unexpected,
    Child(Seq<char>),
    NotText,
    Unsupported,
}

impl View for SyncError {
    type V = SyncErrorView;

    open spec fn view(&self) -> SyncErrorView {
        match *self {
            SyncError::Short { expected, got } => SyncErrorView::Short(expected as int, got as int),
            SyncError::ShortHeader { got } => SyncErrorView::ShortHeader(got as int),
            SyncError::Unexpected => SyncErrorView::Unexpected,
            SyncError::Child(s) => SyncErrorView::Child(s@),
            SyncError::NotText => SyncErrorView::NotText,
            SyncError::Unsupported => SyncErrorView::Unsupported,
        }
    }
}

impl SyncErrorView {
    /// The text of the error in the process with the given pid.
    pub open spec fn text(self, pid: nat) -> Seq<char> {
        match self {
            SyncErrorView::Short(expected, got) => "invalid read count expect "@
                + crate::text::decimal(expected as nat) + " get "@ + crate::text::decimal(
                got as nat,
            ),
            SyncErrorView::ShortHeader(got) => "process: "@ + crate::text::decimal(pid)
                + " failed to receive async message from peer: got msg length: "@
                + crate::text::decimal(got as nat) + ", expected: 4"@,
            SyncErrorView::Unexpected => "error in receive sync message"@,
            SyncErrorView::Child(s) => s,
            SyncErrorView::NotText => "receive error message from child process failed"@,
            SyncErrorView::Unsupported => "unsupported parent-to-child sync message"@,
        }
    }
}

impl SyncError {
    /// The text of the error in the process with the given pid.
    pub fn message(&self, pid: u32) -> (r: String)
        ensures
            r@ == self@.text(pid as nat),
    {
        match self {
            SyncError::Short { expected, got } => {
                let mut s = "invalid read count expect ".to_owned();
                push_u64(&mut s, *expected as u64);
                s.append(" get ");
                push_u64(&mut s, *got as u64);
                s
            },
            SyncError::ShortHeader { got } => {
                let mut s = "process: ".to_owned();
                push_u64(&mut s, pid as u64);
                s.append(" failed to receive async message from peer: got msg length: ");
                push_u64(&mut s, *got as u64);
                s.append(", expected: 4");
                s
            },
            SyncError::Unexpected => "error in receive sync message".to_owned(),
            SyncError::Child(s) => s.clone(),
            SyncError::NotText => "receive error message from child process failed".to_owned(),
            SyncError::Unsupported => "unsupported parent-to-child sync message".to_owned(),
        }
    }
}

/// The bytes that the parent sends for a message. It sends data and
/// acknowledgements only.
pub fn write_async(msg_type: i32, data: &[u8]) -> (r: Result<Vec<u8>, SyncError>)
    ensures
        match r {
            Ok(out) => (msg_type == SYNC_SUCCESS || msg_type == SYNC_DATA) && out@ == frame(
                msg_type as int,
                data@,
            ),
            Err(e) => msg_type != SYNC_SUCCESS && msg_type != SYNC_DATA && e@
                == SyncErrorView::Unsupported,
        },
{
    if msg_type != SYNC_SUCCESS && msg_type != SYNC_DATA {
        return Err(SyncError::Unsupported);
    }
    Ok(write_sync(msg_type, data))
}

/// How a read or a write on a pipe went.
#[derive(Debug)]
pub enum PipeEvent {
    /// Bytes that were read; none at the end of the stream.
    Read(Vec<u8>),
    /// The number of bytes that were written.
    Wrote(usize),
    /// The call was interrupted.
    Interrupted,
    /// The call failed with an error number.
    Failed(i32),
}

/// What follows from an event on a pipe.
#[derive(Clone, Copy, Debug, PartialEq, Eq, Structural)]
pub enum PipeStep {
    /// Call again.
    Again,
    /// Enough was read or written, or the stream ended.
    Stop,
    /// Give up with the error number.
    Fail(i32),
}

/// A read of a given number of bytes in progress.
#[derive(Debug)]
pub struct ReadCount {
    pub want: usize,
    pub buf: Vec<u8>,
}

impl ReadCount {
    /// Whether no more was read than asked for.
    pub open spec fn wf(self) -> bool {
        self.buf@.len() <= self.want
    }

    /// A read before its first call.
    pub fn new(want: usize) -> (r: ReadCount)
        ensures
            r.wf(),
            r.want == want,
            r.buf@ == Seq::<u8>::empty(),
    {
        ReadCount { want, buf: Vec::new() }
    }

    /// Takes the result of one call. An interrupted call is made again, and a read
    /// ends when enough has come or the stream has ended.
    pub fn step(&mut self, event: PipeEvent) -> (r: PipeStep)
        requires
            old(self).wf(),
            event matches PipeEvent::Read(b) ==> b@.len() <= old(self).want - old(
                self,
            ).buf@.len(),
            event !is Wrote,
        ensures
            final(self).wf(),
            final(self).want == old(self).want,
            match event {
                PipeEvent::Read(b) => {
                    &&& final(self).buf@ == old(self).buf@ + b@
                    &&& r == if final(self).buf@.len() == old(self).want || b@.len() == 0 {
                        PipeStep::Stop
                    } else {
                        PipeStep::Again
                    }
                },
                PipeEvent::Interrupted => final(self).buf@ == old(self).buf@ && r == PipeStep::Again,
                PipeEvent::Failed(e) => final(self).buf@ == old(self).buf@ && r == PipeStep::Fail(e),
                PipeEvent::Wrote(_) => true,
            },
    {
        match event {
            PipeEvent::Read(b) => {
                push_bytes(&mut self.buf, b.as_slice());
                if self.buf.len() == self.want || b.len() == 0 {
                    PipeStep::Stop
                } else {
                    PipeStep::Again
                }
            },
            PipeEvent::Interrupted => PipeStep::Again,
            PipeEvent::Failed(e) => PipeStep::Fail(e),
            PipeEvent::Wrote(_) => PipeStep::Again,
        }
    }

    /// The bytes of a read that must be complete.
    pub fn exact(self) -> (r: Result<Vec<u8>, SyncError>)
        requires
            self.wf(),
        ensures
            match r {
                Ok(b) => self.buf@.len() == self.want && b@ == self.buf@,
                Err(e) => self.buf@.len() != self.want && e@ == SyncErrorView::Short(
                    self.want as int,
                    self.buf@.len() as int,
                ),
            },
    {
        if self.buf.len() != self.want {
            Err(SyncError::Short { expected: self.want, got: self.buf.len() })
        } else {
            Ok(self.buf)
        }
    }
}

/// A write of given bytes in progress.
#[derive(Debug)]
pub struct WriteCount {
    pub buf: Vec<u8>,
    pub done: usize,
}

impl WriteCount {
    /// Whether no more was written than there is.
    pub open spec fn wf(self) -> bool {
        self.done <= self.buf@.len()
    }

    /// A write before its first call.
    pub fn new(buf: Vec<u8>) -> (r: WriteCount)
        ensures
            r.wf(),
            r.buf == buf,
            r.done == 0,
    {
        WriteCount { buf, done: 0 }
    }

    /// Takes the result of one call. An interrupted call is made again, and a write
    /// ends when everything went out.
    pub fn step(&mut self, event: PipeEvent) -> (r: PipeStep)
        requires
            old(self).wf(),
            event matches PipeEvent::Wrote(n) ==> n <= old(self).buf@.len() - old(self).done,
            event !is Read,
        ensures
            final(self).wf(),
            final(self).buf@ == old(self).buf@,
            match event {
                PipeEvent::Wrote(n) => {
                    &&& final(self).done == old(self).done + n
                    &&& r == if final(self).done == old(self).buf@.len() {
                        PipeStep::Stop
                    } else {
                        PipeStep::Again
                    }
                },
                PipeEvent::Interrupted => final(self).done == old(self).done && r
                    == PipeStep::Again,
                PipeEvent::Failed(e) => final(self).done == old(self).done && r == PipeStep::Fail(e),
                PipeEvent::Read(_) => true,
            },
    {
        match event {
            PipeEvent::Wrote(n) => {
                assert(self.done <= self.buf.len());
                self.done = self.done + n;
                if self.done == self.buf.len() {
                    PipeStep::Stop
                } else {
                    PipeStep::Again
                }
            },
            PipeEvent::Interrupted => PipeStep::Again,
            PipeEvent::Failed(e) => PipeStep::Fail(e),
            PipeEvent::Read(_) => PipeStep::Again,
        }
    }
}

/// Who receives a message.
#[derive(Clone, Copy, Debug, PartialEq, Eq, Structural)]
pub enum Side {
    /// The init process.
    Child,
    /// The agent.
    Parent,
}

/// Where a receiver stands in a message.
#[derive(Clone, Copy, Debug, PartialEq, Eq, Structural)]
pub enum ReaderState {
    /// Before the type.
    Header,
    /// Before the length.
    Length,
    /// Before the payload of the given length.
    Payload(usize),
    /// Within an error text.
    Failure,
}

/// What a receiver makes of the bytes that came.
#[derive(Debug)]
pub enum Received {
    /// More bytes are needed.
    More,
    /// The message is complete.
    Data(Vec<u8>),
    /// The message is refused, or tells of a failure.
    Error(SyncError),
}

/// A `Received` over sequences.
pub enum ReceivedView {
    More,
    Data(Seq<u8>),
    Error(SyncErrorView),
}

impl View for Received {
    type V = ReceivedView;

    open spec fn view(&self) -> ReceivedView {
        match *self {
            Received::More => ReceivedView::More,
            Received::Data(b) => ReceivedView::Data(b@),
            Received::Error(e) => ReceivedView::Error(e@),
        }
    }
}

/// What an error text of the child comes to.
pub open spec fn failure_of(text: Seq<u8>) -> ReceivedView {
    if valid_utf8(text) {
        ReceivedView::Error(SyncErrorView::Child(decode_utf8(text)))
    } else {
        ReceivedView::Error(SyncErrorView::NotText)
    }
}

/// What follows the type of a message: the state in which more is needed, or the
/// result.
pub open spec fn after_type(side: Side, msg_type: int) -> (ReaderState, ReceivedView) {
    if msg_type == SYNC_SUCCESS {
        (ReaderState::Header, ReceivedView::Data(Seq::empty()))
    } else if msg_type == SYNC_DATA {
        (ReaderState::Length, ReceivedView::More)
    } else if msg_type == SYNC_FAILED && side == Side::Parent {
        (ReaderState::Failure, ReceivedView::More)
    } else {
        (ReaderState::Header, ReceivedView::Error(SyncErrorView::Unexpected))
    }
}

/// A receiver of one message.
#[derive(Debug)]
pub struct SyncReader {
    pub side: Side,
    pub state: ReaderState,
    pub failure: Vec<u8>,
}

impl SyncReader {
    /// A receiver before the first byte.
    pub fn new(side: Side) -> (r: SyncReader)
        ensures
            r.side == side,
            r.state == ReaderState::Header,
            r.failure@ == Seq::<u8>::empty(),
    {
        SyncReader { side, state: ReaderState::Header, failure: Vec::new() }
    }

    /// How many bytes the receiver asks for next.
    pub open spec fn wanted(self) -> usize {
        match self.state {
            ReaderState::Header => MSG_SIZE,
            ReaderState::Length => MSG_SIZE,
            ReaderState::Payload(n) => n,
            ReaderState::Failure => DATA_SIZE,
        }
    }

    /// Tells how many bytes to read next.
    pub fn want(&self) -> (r: usize)
        ensures
            r == self.wanted(),
    {
        match self.state {
            ReaderState::Header => MSG_SIZE,
            ReaderState::Length => MSG_SIZE,
            ReaderState::Payload(n) => n,
            ReaderState::Failure => DATA_SIZE,
        }
    }

    /// Takes the bytes of a read of the wanted size, fewer at the end of the stream.
    /// A length has to be complete in a message to the parent, and is not negative.
    pub fn feed(&mut self, chunk: Vec<u8>) -> (r: Received)
        requires
            chunk@.len() <= old(self).wanted(),
            old(self).state == ReaderState::Length && chunk@.len() == 4 ==> be_value(chunk@) >= 0,
            old(self).state == ReaderState::Length && old(self).side == Side::Parent
                ==> chunk@.len() == 4,
        ensures
            final(self).side == old(self).side,
            old(self).state == ReaderState::Header ==> final(self).failure@ == old(self).failure@
                && (if chunk@.len() < 4 {
                r@ == ReceivedView::Error(
                    if old(self).side == Side::Child {
                        SyncErrorView::Short(4, chunk@.len() as int)
                    } else {
                        SyncErrorView::ShortHeader(chunk@.len() as int)
                    },
                )
            } else {
                (final(self).state, r@) == after_type(old(self).side, be_value(chunk@))
            }),
            old(self).state == ReaderState::Length ==> (if chunk@.len() < 4 {
                r@ == ReceivedView::Error(SyncErrorView::Short(4, chunk@.len() as int))
            } else {
                r@ == ReceivedView::More && final(self).state == ReaderState::Payload(
                    be_value(chunk@) as usize,
                )
            }),
            old(self).state is Payload ==> (if old(self).side == Side::Child && chunk@.len() < old(
                self,
            ).wanted() {
                r@ == ReceivedView::Error(
                    SyncErrorView::Short(old(self).wanted() as int, chunk@.len() as int),
                )
            } else {
                r@ == ReceivedView::Data(chunk@)
            }),
            old(self).state == ReaderState::Failure ==> final(self).failure@ == old(self).failure@
                + chunk@ && (if chunk@.len() == DATA_SIZE {
                r@ == ReceivedView::More && final(self).state == ReaderState::Failure
            } else {
                r@ == failure_of(final(self).failure@)
            }),
    {
        match self.state {
            ReaderState::Header => {
                if chunk.len() < 4 {
                    return match self.side {
                        Side::Child => Received::Error(
                            SyncError::Short { expected: MSG_SIZE, got: chunk.len() },
                        ),
                        Side::Parent => Received::Error(
                            SyncError::ShortHeader { got: chunk.len() },
                        ),
                    };
                }
                let msg: i32 = take_be(chunk.as_slice());
                if msg == SYNC_SUCCESS {
                    let empty: Vec<u8> = Vec::new();
                    Received::Data(empty)
                } else if msg == SYNC_DATA {
                    self.state = ReaderState::Length;
                    Received::More
                } else if msg == SYNC_FAILED && self.side == Side::Parent {
                    self.state = ReaderState::Failure;
                    Received::More
                } else {
                    Received::Error(SyncError::Unexpected)
                }
            },
            ReaderState::Length => {
                if chunk.len() < 4 {
                    return Received::Error(
                        SyncError::Short { expected: MSG_SIZE, got: chunk.len() },
                    );
                }
                let n: i32 = take_be(chunk.as_slice());
                self.state = ReaderState::Payload(n as usize);
                Received::More
            },
            ReaderState::Payload(n) => {
                if self.side == Side::Child && chunk.len() < n {
                    return Received::Error(SyncError::Short { expected: n, got: chunk.len() });
                }
                Received::Data(chunk)
            },
            ReaderState::Failure => {
                push_bytes(&mut self.failure, chunk.as_slice());
                if chunk.len() == DATA_SIZE {
                    return Received::More;
                }
                let mut text: Vec<u8> = Vec::new();
                push_bytes(&mut text, self.failure.as_slice());
                proof {
                    assert(text@ =~= self.failure@);
                }
                match utf8_text(text) {
                    Some(s) => Received::Error(SyncError::Child(s)),
                    None => Received::Error(SyncError::NotText),
                }
            },
        }
    }
}

/// The first `n` bytes of a stream, or all of it where it is shorter.
pub open spec fn up_to(s: Seq<u8>, n: int) -> Seq<u8> {
    if n <= s.len() {
        s.take(n)
    } else {
        s
    }
}

/// What a receiver makes of a stream that ends after the given bytes.
pub open spec fn received(side: Side, s: Seq<u8>) -> ReceivedView {
    if s.len() < 4 {
        ReceivedView::Error(
            if side == Side::Child {
                SyncErrorView::Short(4, s.len() as int)
            } else {
                SyncErrorView::ShortHeader(s.len() as int)
            },
        )
    } else {
        let rest = s.skip(4);
        match after_type(side, be_value(s.take(4))) {
            (ReaderState::Length, ReceivedView::More) => if rest.len() < 4 {
                ReceivedView::Error(SyncErrorView::Short(4, rest.len() as int))
            } else {
                let n = be_value(rest.take(4));
                let payload = up_to(rest.skip(4), n);
                if side == Side::Child && payload.len() < n {
                    ReceivedView::Error(SyncErrorView::Short(n, payload.len() as int))
                } else {
                    ReceivedView::Data(payload)
                }
            },
            (ReaderState::Failure, ReceivedView::More) => failure_of(rest),
            (_, v) => v,
        }
    }
}

/// Whether the length of a data message, where there is one, can be read: it is
/// complete in a message to the parent, and not negative.
pub open spec fn readable(side: Side, s: Seq<u8>) -> bool {
    s.len() >= 4 && be_value(s.take(4)) == SYNC_DATA ==> {
        &&& side == Side::Parent ==> s.len() >= 8
        &&& s.len() >= 8 ==> be_value(s.skip(4).take(4)) >= 0
    }
}

fn slice_up_to(s: &[u8], from: usize, n: usize) -> (r: Vec<u8>)
    requires
        from <= s.len(),
    ensures
        r@ == up_to(s@.skip(from as int), n as int),
{
    let to: usize = if n <= s.len() - from {
        from + n
    } else {
        s.len()
    };
    let mut v: Vec<u8> = Vec::new();
    let mut i: usize = from;
    while i < to
        invariant
            from <= i <= to <= s.len(),
            v@ == s@.subrange(from as int, i as int),
        decreases to - i,
    {
        v.push(s[i]);
        i += 1;
    }
    proof {
        assert(v@ =~= up_to(s@.skip(from as int), n as int));
    }
    v
}

/// Receives one message from a stream that ends after the given bytes.
fn receive(side: Side, stream: &[u8]) -> (r: Received)
    requires
        readable(side, stream@),
    ensures
        r@ == received(side, stream@),
        r@ !is More,
{
    let mut reader = SyncReader::new(side);
    let chunk = slice_up_to(stream, 0, 4);
    proof {
        assert(stream@.skip(0) =~= stream@);
    }
    let first = reader.feed(chunk);
    match first {
        Received::More => {},
        _ => {
            return first;
        },
    }
    if reader.state == ReaderState::Length {
        let chunk = slice_up_to(stream, 4, 4);
        let second = reader.feed(chunk);
        match second {
            Received::More => {},
            _ => {
                return second;
            },
        }
        proof {
            assert(stream@.skip(8) =~= stream@.skip(4).skip(4));
        }
        let want: usize = reader.want();
        let chunk = slice_up_to(stream, 8, want);
        return reader.feed(chunk);
    }
    let ghost rest = stream@.skip(4);
    let mut at: usize = 4;
    proof {
        assert(rest.take(0) =~= Seq::<u8>::empty());
    }
    loop
        invariant
            4 <= at <= stream@.len(),
            rest == stream@.skip(4),
            reader.state == ReaderState::Failure,
            reader.failure@ == rest.take(at - 4),
            received(side, stream@) == failure_of(rest),
        decreases stream@.len() - at,
    {
        let chunk = slice_up_to(stream, at, DATA_SIZE);
        let n: usize = chunk.len();
        proof {
            assert(rest.take(at - 4) + chunk@ =~= rest.take(at - 4 + n));
        }
        let step = reader.feed(chunk);
        match step {
            Received::More => {
                assert(at + n <= stream.len());
                at = at + n;
            },
            _ => {
                proof {
                    assert(rest.take(at - 4 + n) =~= rest);
                }
                return step;
            },
        }
    }
}

/// What the child makes of a stream that ends after the given bytes.
pub fn read_sync(stream: &[u8]) -> (r: Result<Vec<u8>, SyncError>)
    requires
        readable(Side::Child, stream@),
    ensures
        match r {
            Ok(data) => received(Side::Child, stream@) == ReceivedView::Data(data@),
            Err(e) => received(Side::Child, stream@) == ReceivedView::Error(e@),
        },
{
    match receive(Side::Child, stream) {
        Received::Data(data) => Ok(data),
        Received::Error(e) => Err(e),
        Received::More => Err(SyncError::Unexpected),
    }
}

/// What the parent makes of a stream that ends after the given bytes.
pub fn read_async(stream: &[u8]) -> (r: Result<Vec<u8>, SyncError>)
    requires
        readable(Side::Parent, stream@),
    ensures
        match r {
            Ok(data) => received(Side::Parent, stream@) == ReceivedView::Data(data@),
            Err(e) => received(Side::Parent, stream@) == ReceivedView::Error(e@),
        },
{
    match receive(Side::Parent, stream) {
        Received::Data(data) => Ok(data),
        Received::Error(e) => Err(e),
        Received::More => Err(SyncError::Unexpected),
    }
}

/// What the parent sends reaches the child: the payload of a data message, and
/// nothing for an acknowledgement.
pub proof fn law_parent_messages_reach_child(data: Seq<u8>, rest: Seq<u8>)
    requires
        data.len() <= i32::MAX,
    ensures
        received(Side::Child, frame(SYNC_DATA as int, data) + rest) == ReceivedView::Data(data),
        received(Side::Child, frame(SYNC_SUCCESS as int, data) + rest) == ReceivedView::Data(
            Seq::empty(),
        ),
{
    lemma_data_received(Side::Child, data, rest);
    lemma_success_received(Side::Child, data, rest);
}

/// What the child sends reaches the parent: data and acknowledgements, and the
/// text of a failure, which ends the stream.
pub proof fn law_child_messages_reach_parent(data: Seq<u8>, rest: Seq<u8>, error: Seq<char>)
    requires
        data.len() <= i32::MAX,
    ensures
        received(Side::Parent, frame(SYNC_DATA as int, data) + rest) == ReceivedView::Data(data),
        received(Side::Parent, frame(SYNC_SUCCESS as int, data) + rest) == ReceivedView::Data(
            Seq::empty(),
        ),
        received(Side::Parent, frame(SYNC_FAILED as int, encode_utf8(error)))
            == ReceivedView::Error(SyncErrorView::Child(error)),
{
    lemma_data_received(Side::Parent, data, rest);
    lemma_success_received(Side::Parent, data, rest);
    let text = encode_utf8(error);
    let s = frame(SYNC_FAILED as int, text);
    law_be_round_trip(SYNC_FAILED);
    assert(s.take(4) =~= be_bytes(SYNC_FAILED as int));
    assert(s.skip(4) =~= text);
    encode_utf8_valid_utf8(error);
    encode_utf8_decode_utf8(error);
}

/// The child takes no failure message.
pub proof fn law_child_refuses_failures(data: Seq<u8>)
    ensures
        received(Side::Child, frame(SYNC_FAILED as int, data)) == ReceivedView::Error(
            SyncErrorView::Unexpected,
        ),
{
    let s = frame(SYNC_FAILED as int, data);
    law_be_round_trip(SYNC_FAILED);
    assert(s.take(4) =~= be_bytes(SYNC_FAILED as int));
}

proof fn lemma_data_received(side: Side, data: Seq<u8>, rest: Seq<u8>)
    requires
        data.len() <= i32::MAX,
    ensures
        received(side, frame(SYNC_DATA as int, data) + rest) == ReceivedView::Data(data),
{
    let s = frame(SYNC_DATA as int, data) + rest;
    let n = data.len() as i32;
    law_be_round_trip(SYNC_DATA);
    law_be_round_trip(n);
    assert(length_field(data.len() as int) == n);
    assert(s.take(4) =~= be_bytes(SYNC_DATA as int));
    assert(s.skip(4).take(4) =~= be_bytes(n as int));
    assert(s.skip(4).skip(4).take(data.len() as int) =~= data);
}

proof fn lemma_success_received(side: Side, data: Seq<u8>, rest: Seq<u8>)
    ensures
        received(side, frame(SYNC_SUCCESS as int, data) + rest) == ReceivedView::Data(Seq::empty()),
{
    let s = frame(SYNC_SUCCESS as int, data) + rest;
    law_be_round_trip(SYNC_SUCCESS);
    assert(s.take(4) =~= be_bytes(SYNC_SUCCESS as int));
}

} // verus!
