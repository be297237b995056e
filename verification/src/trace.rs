//! Traces: the context that comes with a request, and what goes to the host.
use vstd::prelude::*;

use crate::mount::comma_joined;
use crate::strmap::StrMap;
use crate::text::views;

verus! {

/// The port on which the host takes traces.
pub const DEFAULT_PORT: u32 = 10240;

/// The context id of the host.
pub const DEFAULT_CID: u32 = 2;

/// The bytes in front of a span.
pub const HEADER_SIZE: usize = 8;

fn join_commas(parts: &Vec<String>) -> (r: String)
    ensures
        r@ == comma_joined(views(parts@)),
{
    let ghost all = views(parts@);
    let mut s = String::new();
    let mut i: usize = 0;
    proof {
        assert(s@ =~= comma_joined(all.take(0)));
    }
    while i < parts.len()
        invariant
            i <= parts.len(),
            all == views(parts@),
            s@ == comma_joined(all.take(i as int)),
        decreases parts.len() - i,
    {
        let ghost was = s@;
        if i > 0 {
            s.push(',');
        }
        s.append(parts[i].as_str());
        proof {
            let longer = all.take(i + 1);
            assert(longer.drop_last() =~= all.take(i as int));
            assert(longer.last() == parts@[i as int]@);
            if i == 0 {
                assert(was =~= Seq::<char>::empty());
                assert(longer[0] == parts@[0]@);
                assert(s@ =~= parts@[0]@);
            }
            assert(s@ =~= comma_joined(longer));
        }
        i += 1;
    }
    proof {
        assert(all.take(all.len() as int) =~= all);
    }
    s
}

/// The context that the metadata of a request carries: the values of a key with commas
/// between them.
pub open spec fn carrier(metadata: Seq<(String, Vec<String>)>) -> Map<Seq<char>, Seq<char>>
    decreases metadata.len(),
{
    if metadata.len() == 0 {
        Map::empty()
    } else {
        carrier(metadata.drop_last()).insert(
            metadata.last().0@,
            comma_joined(views(metadata.last().1@)),
        )
    }
}

/// The characters of the values of a map.
pub open spec fn map_text(m: Map<Seq<char>, String>) -> Map<Seq<char>, Seq<char>> {
    m.map_values(|s: String| s@)
}

/// Takes the context out of the metadata of a request.
pub fn extract_carrier_from_ttrpc(metadata: &Vec<(String, Vec<String>)>) -> (r: StrMap<String>)
    ensures
        map_text(r@) == carrier(metadata@),
{
    let mut out: StrMap<String> = StrMap::new();
    let mut i: usize = 0;
    proof {
        assert(metadata@.take(0) =~= Seq::<(String, Vec<String>)>::empty());
        assert(map_text(out@) =~= carrier(metadata@.take(0)));
    }
    while i < metadata.len()
        invariant
            i <= metadata.len(),
            map_text(out@) == carrier(metadata@.take(i as int)),
        decreases metadata.len() - i,
    {
        proof {
            assert(metadata@.take(i + 1).drop_last() =~= metadata@.take(i as int));
            assert(metadata@.take(i + 1).last() == metadata@[i as int]);
        }
        let ghost was = out@;
        let value = join_commas(&metadata[i].1);
        out.insert(metadata[i].0.clone(), value);
        proof {
            assert(map_text(out@) =~= map_text(was).insert(metadata@[i as int].0@, value@));
        }
        i += 1;
    }
    proof {
        assert(metadata@.take(metadata@.len() as int) =~= metadata@);
    }
    out
}

/// The bytes of a number in network order.
pub open spec fn be_bytes(n: nat, width: nat) -> Seq<u8>
    decreases width,
{
    if width == 0 {
        Seq::empty()
    } else {
        be_bytes(n / 256, (width - 1) as nat).push((n % 256) as u8)
    }
}

/// The number that bytes in network order write.
pub open spec fn be_value(bytes: Seq<u8>) -> nat
    decreases bytes.len(),
{
    if bytes.len() == 0 {
        0
    } else {
        be_value(bytes.drop_last()) * 256 + bytes.last() as nat
    }
}

fn push_be(out: &mut Vec<u8>, n: u64, width: usize)
    ensures
        final(out)@ == old(out)@ + be_bytes(n as nat, width as nat),
    decreases width,
{
    if width > 0 {
        push_be(out, n / 256, width - 1);
        let ghost was = out@;
        out.push((n % 256) as u8);
    }
    proof {
        assert(out@ =~= old(out)@ + be_bytes(n as nat, width as nat));
    }
}

/// A span on its way to the host: the length of its bytes in eight bytes of network
/// order, and the bytes.
pub open spec fn span_frame(payload: Seq<u8>) -> Seq<u8> {
    be_bytes(payload.len(), HEADER_SIZE as nat) + payload
}

/// Frames a span for the host.
pub fn write_span(payload: &Vec<u8>) -> (r: Vec<u8>)
    ensures
        r@ == span_frame(payload@),
{
    let mut out: Vec<u8> = Vec::new();
    push_be(&mut out, payload.len() as u64, HEADER_SIZE);
    let ghost head = out@;
    let mut i: usize = 0;
    proof {
        assert(head =~= be_bytes(payload@.len(), HEADER_SIZE as nat));
        assert(out@ =~= head + payload@.take(0));
    }
    while i < payload.len()
        invariant
            i <= payload.len(),
            out@ == head + payload@.take(i as int),
        decreases payload.len() - i,
    {
        out.push(payload[i]);
        i += 1;
        proof {
            assert(out@ =~= head + payload@.take(i as int));
        }
    }
    proof {
        assert(payload@.take(payload@.len() as int) =~= payload@);
    }
    out
}

proof fn lemma_be_round_trip(n: nat, width: nat)
    requires
        n < vstd::arithmetic::power::pow(256, width),
    ensures
        be_bytes(n, width).len() == width,
        be_value(be_bytes(n, width)) == n,
    decreases width,
{
    if width == 0 {
        vstd::arithmetic::power::lemma_pow0(256);
    } else {
        let w = (width - 1) as nat;
        vstd::arithmetic::power::lemma_pow_adds(256, w, 1);
        vstd::arithmetic::power::lemma_pow1(256);
        assert(n / 256 < vstd::arithmetic::power::pow(256, w)) by (nonlinear_arith)
            requires
                n < vstd::arithmetic::power::pow(256, w) * 256,
        ;
        lemma_be_round_trip(n / 256, w);
        let b = be_bytes(n, width);
        assert(b.drop_last() =~= be_bytes(n / 256, w));
        assert(n == (n / 256) * 256 + n % 256) by (nonlinear_arith);
    }
}

/// The host can tell where a span ends: the header holds the length of what follows, and
/// what follows is the span.
pub proof fn law_frames_can_be_read(payload: Seq<u8>)
    requires
        payload.len() <= u64::MAX,
    ensures
        ({
            let frame = span_frame(payload);
            &&& frame.len() == HEADER_SIZE + payload.len()
            &&& be_value(frame.take(HEADER_SIZE as int)) == payload.len()
            &&& frame.skip(HEADER_SIZE as int) == payload
        }),
{
    let head = be_bytes(payload.len(), 8);
    assert(vstd::arithmetic::power::pow(256, 8) == 0x1_0000_0000_0000_0000) by {
        reveal_with_fuel(vstd::arithmetic::power::pow, 9);
    }
    lemma_be_round_trip(payload.len(), 8);
    assert(span_frame(payload).take(8) =~= head);
    assert(span_frame(payload).skip(8) =~= payload);
}

/// What an export does next.
#[derive(Clone, Copy, Debug, PartialEq, Eq, Structural)]
pub enum ExportStep {
    /// Connect to the host, then send.
    Connect,
    /// Send the batch.
    Send,
}

/// Why an export fails.
#[derive(Clone, Copy, Debug, PartialEq, Eq, Structural)]
pub enum ExportFault {
    /// There is no connection to the host.
    Connection,
    /// The batch could not be sent.
    Io,
}

/// Sends traces to the host.
#[derive(Clone, Copy, Debug, PartialEq, Eq, Structural)]
pub struct Exporter {
    /// Whether there is a connection.
    pub connected: bool,
}

impl Exporter {
    /// An exporter without a connection.
    pub fn new() -> (r: Exporter)
        ensures
            !r.connected,
    {
        Exporter { connected: false }
    }

    /// Begins an export: a connection that is there is used.
    pub fn begin(&self) -> (r: ExportStep)
        ensures
            r == if self.connected {
                ExportStep::Send
            } else {
                ExportStep::Connect
            },
    {
        if self.connected {
            ExportStep::Send
        } else {
            ExportStep::Connect
        }
    }

    /// Takes what came of connecting: an export without a connection fails.
    pub fn connect(&mut self, ok: bool) -> (r: Result<(), ExportFault>)
        ensures
            (*final(self), r) == old(self).after_connect(ok),
    {
        self.connected = ok;
        if ok {
            Ok(())
        } else {
            Err(ExportFault::Connection)
        }
    }

    /// Takes what came of sending a batch: a connection that failed is dropped, and the
    /// export fails.
    pub fn sent(&mut self, ok: bool) -> (r: Result<(), ExportFault>)
        ensures
            (*final(self), r) == old(self).after_send(ok),
    {
        if ok {
            Ok(())
        } else {
            self.connected = false;
            Err(ExportFault::Io)
        }
    }

    /// The exporter and the answer after connecting.
    pub open spec fn after_connect(self, ok: bool) -> (Exporter, Result<(), ExportFault>) {
        (
            Exporter { connected: ok },
            if ok {
                Ok(())
            } else {
                Err(ExportFault::Connection)
            },
        )
    }

    /// The exporter and the answer after sending a batch.
    pub open spec fn after_send(self, ok: bool) -> (Exporter, Result<(), ExportFault>) {
        if ok {
            (self, Ok(()))
        } else {
            (Exporter { connected: false }, Err(ExportFault::Io))
        }
    }

    /// The exporter and the answer after an export: it connects where it must, and sends
    /// where it has a connection.
    pub open spec fn exported(self, connects: bool, sends: bool) -> (
        Exporter,
        Result<(), ExportFault>,
    ) {
        if self.connected {
            self.after_send(sends)
        } else if self.after_connect(connects).1 is Err {
            self.after_connect(connects)
        } else {
            self.after_connect(connects).0.after_send(sends)
        }
    }

    /// Drops the connection.
    pub fn shutdown(&mut self)
        ensures
            !final(self).connected,
    {
        self.connected = false;
    }
}

/// An export succeeds just where there is a connection, old or new, and the batch was sent.
/// Each other outcome is answered with its error, and leaves no connection: the next export
/// connects anew.
pub proof fn law_failed_exports_are_answered(e: Exporter, connects: bool, sends: bool)
    ensures
        ({
            let (after, answer) = e.exported(connects, sends);
            &&& answer is Ok <==> (e.connected || connects) && sends
            &&& answer == Err::<(), ExportFault>(ExportFault::Connection) <==> !e.connected
                && !connects
            &&& answer == Err::<(), ExportFault>(ExportFault::Io) <==> (e.connected || connects)
                && !sends
            &&& after.connected <==> answer is Ok
        }),
{
}

} // verus!
