//! What goes over the pipes between the processes, and over the wire to the host.
use vstd::prelude::*;
use vstd::utf8::{decode_utf8, valid_utf8};

use crate::guest_io::{first_record, record_part, without_end, Budget, StreamError};
use crate::mount::comma_joined;
use crate::sync::{
    after_type, be_bytes, be_value, frame, received, ReaderState, ReceivedView, Side,
    SyncErrorView,
};
use crate::text::views;
use crate::trace::{carrier, span_frame};

verus! {

/// A number goes out with its highest byte first.
pub proof fn law_the_highest_byte_goes_first(n: i32)
    ensures
        ({
            let b = be_bytes(n as int);
            &&& b.len() == 4
            &&& (b[0] * 0x100_0000 + b[1] * 0x1_0000 + b[2] * 0x100 + b[3] - n) % 0x1_0000_0000 == 0
        }),
{
}

/// What four bytes write is read with the highest first, with a sign.
pub proof fn law_the_highest_byte_is_read_first(a: u8, b: u8, c: u8, d: u8)
    ensures
        ({
            let n = be_value(seq![a, b, c, d]);
            &&& (a * 0x100_0000 + b * 0x1_0000 + c * 0x100 + d - n) % 0x1_0000_0000 == 0
            &&& -0x8000_0000 <= n < 0x8000_0000
        }),
{
}

/// How messages are framed: an acknowledgement is the number 1 alone, a failure the number 2
/// and its text, and data the number 3, the length and the bytes.
pub proof fn law_how_messages_are_framed(data: Seq<u8>)
    requires
        data.len() <= i32::MAX,
    ensures
        frame(1, data) == seq![0u8, 0u8, 0u8, 1u8],
        frame(2, data) == seq![0u8, 0u8, 0u8, 2u8] + data,
        frame(3, data) == seq![0u8, 0u8, 0u8, 3u8] + be_bytes(data.len() as int) + data,
{
    assert(be_bytes(1) =~= seq![0u8, 0u8, 0u8, 1u8]);
    assert(be_bytes(2) =~= seq![0u8, 0u8, 0u8, 2u8]);
    assert(be_bytes(3) =~= seq![0u8, 0u8, 0u8, 3u8]);
    assert(frame(1, data) =~= seq![0u8, 0u8, 0u8, 1u8]);
    assert(frame(3, data) =~= seq![0u8, 0u8, 0u8, 3u8] + be_bytes(data.len() as int) + data);
}

/// What the type of a message leads to: only the parent takes failures, and no one takes a
/// type that is not known.
pub proof fn law_what_a_type_leads_to(side: Side, t: int)
    ensures
        after_type(side, 1) == (ReaderState::Header, ReceivedView::Data(Seq::empty())),
        after_type(side, 3) == (ReaderState::Length, ReceivedView::More),
        after_type(Side::Parent, 2) == (ReaderState::Failure, ReceivedView::More),
        after_type(Side::Child, 2) == (
            ReaderState::Header,
            ReceivedView::Error(SyncErrorView::Unexpected),
        ),
        t != 1 && t != 2 && t != 3 ==> after_type(side, t) == (
            ReaderState::Header,
            ReceivedView::Error(SyncErrorView::Unexpected),
        ),
{
}

/// A stream that ends within the type is an error that tells how much came; a child takes no
/// data that is cut short, and a parent takes what came of it.
pub proof fn law_what_becomes_of_messages_cut_short(s: Seq<u8>, n: i32, payload: Seq<u8>)
    ensures
        s.len() < 4 ==> received(Side::Child, s) == ReceivedView::Error(
            SyncErrorView::Short(4, s.len() as int),
        ),
        s.len() < 4 ==> received(Side::Parent, s) == ReceivedView::Error(
            SyncErrorView::ShortHeader(s.len() as int),
        ),
        0 <= n && payload.len() < n ==> received(
            Side::Child,
            be_bytes(3) + be_bytes(n as int) + payload,
        ) == ReceivedView::Error(SyncErrorView::Short(n as int, payload.len() as int)),
        0 <= n && payload.len() < n ==> received(
            Side::Parent,
            be_bytes(3) + be_bytes(n as int) + payload,
        ) == ReceivedView::Data(payload),
{
    let m = be_bytes(3) + be_bytes(n as int) + payload;
    crate::sync::law_be_round_trip(3);
    crate::sync::law_be_round_trip(n);
    assert(m.take(4) =~= be_bytes(3));
    assert(m.skip(4).take(4) =~= be_bytes(n as int));
    assert(m.skip(4).skip(4) =~= payload);
}

/// A span goes out behind eight bytes with its length, the highest byte first.
pub proof fn law_how_spans_are_framed(payload: Seq<u8>)
    requires
        payload.len() <= u64::MAX,
    ensures
        ({
            let f = span_frame(payload);
            let n = payload.len();
            &&& f.len() == 8 + n
            &&& f[0] == n / 0x100_0000_0000_0000 % 256
            &&& f[1] == n / 0x1_0000_0000_0000 % 256
            &&& f[2] == n / 0x100_0000_0000 % 256
            &&& f[3] == n / 0x1_0000_0000 % 256
            &&& f[4] == n / 0x100_0000 % 256
            &&& f[5] == n / 0x1_0000 % 256
            &&& f[6] == n / 0x100 % 256
            &&& f[7] == n % 256
            &&& f.skip(8) == payload
        }),
{
    let n = payload.len();
    let f = span_frame(payload);
    lemma_lowest_byte_last(n, 8);
    lemma_lowest_byte_last(n / 0x100, 7);
    lemma_lowest_byte_last(n / 0x1_0000, 6);
    lemma_lowest_byte_last(n / 0x100_0000, 5);
    lemma_lowest_byte_last(n / 0x1_0000_0000, 4);
    lemma_lowest_byte_last(n / 0x100_0000_0000, 3);
    lemma_lowest_byte_last(n / 0x1_0000_0000_0000, 2);
    lemma_lowest_byte_last(n / 0x100_0000_0000_0000, 1);
    lemma_division_goes_on(n);
    assert(crate::trace::be_bytes(n, 8).len() == 8);
    assert(f.skip(8) =~= payload);
}

/// The lowest byte of a number comes last, behind those of what is left of it.
proof fn lemma_lowest_byte_last(n: nat, width: nat)
    requires
        width > 0,
    ensures
        ({
            let b = crate::trace::be_bytes(n, width);
            let rest = crate::trace::be_bytes(n / 256, (width - 1) as nat);
            &&& b.len() == rest.len() + 1
            &&& b.len() == width
            &&& b[width - 1] == n % 256
            &&& forall|i: int| 0 <= i < width - 1 ==> #[trigger] b[i] == rest[i]
        }),
    decreases width,
{
    if width > 1 {
        lemma_lowest_byte_last(n / 256, (width - 1) as nat);
    } else {
        assert(crate::trace::be_bytes(n / 256, 0).len() == 0);
    }
}

proof fn lemma_division_goes_on(n: nat)
    ensures
        n / 0x100 / 256 == n / 0x1_0000,
        n / 0x1_0000 / 256 == n / 0x100_0000,
        n / 0x100_0000 / 256 == n / 0x1_0000_0000,
        n / 0x1_0000_0000 / 256 == n / 0x100_0000_0000,
        n / 0x100_0000_0000 / 256 == n / 0x1_0000_0000_0000,
        n / 0x1_0000_0000_0000 / 256 == n / 0x100_0000_0000_0000,
{
}

/// The context holds under each key the values of its last entry, with commas between them,
/// and nothing under a key that has none.
pub proof fn law_the_last_entry_of_a_key_is_carried(
    metadata: Seq<(String, Vec<String>)>,
    i: int,
    key: Seq<char>,
)
    requires
        -1 <= i < metadata.len(),
        i >= 0 ==> metadata[i].0@ == key,
        forall|j: int| i < j < metadata.len() ==> (#[trigger] metadata[j]).0@ != key,
    ensures
        carrier(metadata).contains_key(key) <==> i >= 0,
        i >= 0 ==> carrier(metadata)[key] == comma_joined(views(metadata[i].1@)),
    decreases metadata.len(),
{
    if metadata.len() > 0 {
        let front = metadata.drop_last();
        if i < metadata.len() - 1 {
            assert forall|j: int| i < j < front.len() implies (#[trigger] front[j]).0@ != key by {
                assert(front[j] == metadata[j]);
            }
            law_the_last_entry_of_a_key_is_carried(front, i, key);
            assert(metadata[metadata.len() - 1].0@ != key);
        }
    }
}

/// A record goes up to the first line feed and with it; a stream without one is one record.
pub proof fn law_a_record_ends_at_its_line_feed(line: Seq<u8>, rest: Seq<u8>)
    requires
        !line.contains(10u8),
    ensures
        record_part(line.push(10u8) + rest) == line.push(10u8),
        record_part(line) == line,
    decreases line.len(),
{
    let s = line.push(10u8) + rest;
    if line.len() == 0 {
        assert(s.take(1) =~= line.push(10u8));
        assert(line =~= Seq::empty());
    } else {
        let tail = line.skip(1);
        assert(line.contains(line[0]));
        assert(!tail.contains(10u8)) by {
            if tail.contains(10u8) {
                let i = tail.index_of(10u8);
                assert(line[i + 1] == 10u8);
            }
        }
        law_a_record_ends_at_its_line_feed(tail, rest);
        assert(s.skip(1) =~= tail.push(10u8) + rest);
        assert(seq![line[0]] + tail.push(10u8) =~= line.push(10u8));
        assert(seq![line[0]] + tail =~= line);
    }
}

/// A record loses its line feed, and a carriage return in front of it; nothing else.
pub proof fn law_what_a_record_loses(line: Seq<u8>)
    requires
        line.len() == 0 || (line.last() != 10 && line.last() != 13),
    ensures
        without_end(line) == line,
        without_end(line.push(10)) == line,
        without_end(line.push(13).push(10)) == line,
{
    assert(line.push(10).drop_last() =~= line);
    assert(line.push(13).push(10).drop_last() =~= line.push(13));
    assert(line.push(13).drop_last() =~= line);
}

/// What the first record of a stream comes to: nothing at the end of the stream, an error
/// where it is longer than the limit, line feed and all, or where it is no text, and else the
/// text of the line.
pub proof fn law_what_a_record_comes_to(line: Seq<u8>, rest: Seq<u8>, limit: nat)
    requires
        !line.contains(10u8),
        line.len() == 0 || line.last() != 13,
    ensures
        first_record(Seq::empty(), limit) == Ok::<Option<Seq<char>>, StreamError>(None),
        first_record(line.push(10u8) + rest, limit) == if line.len() + 1 > limit {
            Err::<Option<Seq<char>>, StreamError>(StreamError::RecordTooLong)
        } else if !valid_utf8(line) {
            Err::<Option<Seq<char>>, StreamError>(StreamError::NotText)
        } else {
            Ok::<Option<Seq<char>>, StreamError>(Some(decode_utf8(line)))
        },
{
    law_a_record_ends_at_its_line_feed(line, rest);
    if line.len() > 0 {
        assert(line.contains(line.last()));
    }
    law_what_a_record_loses(line);
}

/// A record that is accepted uses up one record and its bytes; a new window has nothing used
/// up and the same limits.
pub proof fn law_what_a_record_uses_up(b: Budget, bytes: int, seconds: int)
    requires
        b.wf(),
        bytes >= 0,
        b.judged(bytes, seconds).1,
    ensures
        ({
            let after = b.judged(bytes, seconds).0;
            let r = if seconds >= 1 {
                0
            } else {
                b.records as int
            };
            let n = if seconds >= 1 {
                0
            } else {
                b.bytes as int
            };
            &&& after.records == r + 1
            &&& after.bytes == n + bytes
            &&& after.max_records == b.max_records
            &&& after.max_bytes == b.max_bytes
        }),
{
}

/// The failure of a child is its text, and bytes that are no text are told as such.
pub proof fn law_what_a_failure_says(text: Seq<u8>)
    ensures
        valid_utf8(text) ==> crate::sync::failure_of(text) == ReceivedView::Error(
            SyncErrorView::Child(decode_utf8(text)),
        ),
        !valid_utf8(text) ==> crate::sync::failure_of(text) == ReceivedView::Error(
            SyncErrorView::NotText,
        ),
{
}

/// The sizes and codes of what is exchanged, and the times for which it is waited.
pub proof fn law_sizes_and_times_of_exchanges()
    ensures
        crate::sync::SYNC_SUCCESS == 1 && crate::sync::SYNC_FAILED == 2 && crate::sync::SYNC_DATA
            == 3,
        crate::sync::MSG_SIZE == 4 && crate::sync::DATA_SIZE == 100,
        crate::trace::HEADER_SIZE == 8 && crate::trace::DEFAULT_PORT == 10240
            && crate::trace::DEFAULT_CID == 2,
        crate::create::MAX_TERMINATION_MSG == 4096,
        crate::shared_mounts::READY_TIMEOUT_MS == 100 * crate::shared_mounts::READY_POLL_MS,
        crate::shared_mounts::READY_POLL_MS == 100,
        crate::rpc::DRAIN_DEADLINE_MS == 500,
        crate::signal::SIGKILL == 9 && crate::signal::SIGTERM == 15,
        crate::mount::MOUNT_DIR_PERM == 0o755 && crate::mount::MOUNT_FILE_PERM == 0o644,
{
}

} // verus!
