//! Bounds on what a guest sends: the length of a record, and how much comes in a second.
use vstd::prelude::*;
use vstd::utf8::{decode_utf8, valid_utf8};

use crate::sync::utf8_text;

verus! {

/// Why a stream of a guest is given up.
#[derive(Clone, Copy, Debug, PartialEq, Eq, Structural)]
pub enum StreamError {
    RecordTooLong,
    NotText,
    TooFast,
}

impl StreamError {
    /// The text of the error.
    pub fn message(self) -> (r: String)
        ensures
            r@ == match self {
                StreamError::RecordTooLong => "guest record exceeds byte limit"@,
                StreamError::NotText => "invalid UTF-8 guest record"@,
                StreamError::TooFast => "guest stream rate limit exceeded"@,
            },
    {
        match self {
            StreamError::RecordTooLong => "guest record exceeds byte limit".to_owned(),
            StreamError::NotText => "invalid UTF-8 guest record".to_owned(),
            StreamError::TooFast => "guest stream rate limit exceeded".to_owned(),
        }
    }
}

/// The part of some bytes that belongs to the record at their start: up to the first line
/// feed and with it, or all of them where there is none.
pub open spec fn record_part(bytes: Seq<u8>) -> Seq<u8>
    decreases bytes.len(),
{
    if bytes.len() == 0 {
        bytes
    } else if bytes[0] == 10 {
        bytes.take(1)
    } else {
        seq![bytes[0]] + record_part(bytes.skip(1))
    }
}

/// Whether some bytes hold the end of a record.
pub open spec fn has_end(bytes: Seq<u8>) -> bool {
    exists|i: int| 0 <= i < bytes.len() && #[trigger] bytes[i] == 10
}

/// A record without the line feed at its end, and without a carriage return in front of
/// that.
pub open spec fn without_end(record: Seq<u8>) -> Seq<u8> {
    let a = if record.len() > 0 && record.last() == 10 {
        record.drop_last()
    } else {
        record
    };
    if a.len() > 0 && a.last() == 13 {
        a.drop_last()
    } else {
        a
    }
}

/// What the first record of a stream comes to. A stream that is at its end has none.
pub open spec fn first_record(stream: Seq<u8>, limit: nat) -> Result<
    Option<Seq<char>>,
    StreamError,
> {
    let record = record_part(stream);
    if stream.len() == 0 {
        Ok(None)
    } else if record.len() > limit {
        Err(StreamError::RecordTooLong)
    } else if !valid_utf8(without_end(record)) {
        Err(StreamError::NotText)
    } else {
        Ok(Some(decode_utf8(without_end(record))))
    }
}

/// A record that is being read.
#[derive(Debug)]
pub struct LineReader {
    pub line: Vec<u8>,
    pub limit: usize,
}

/// What a piece of the stream brings.
#[derive(Clone, Copy, Debug, PartialEq, Eq, Structural)]
pub enum LineStep {
    /// So many bytes were taken, and the record goes on.
    More(usize),
    /// So many bytes were taken, and the record is complete.
    Complete(usize),
}

fn part_len(bytes: &[u8]) -> (r: usize)
    ensures
        r <= bytes@.len(),
        r == record_part(bytes@).len(),
        record_part(bytes@) == bytes@.take(r as int),
        r > 0 && bytes@[r - 1] == 10 <==> has_end(bytes@),
{
    let mut i: usize = 0;
    proof {
        assert(bytes@.skip(0) =~= bytes@);
        assert(bytes@.take(0) + record_part(bytes@) =~= record_part(bytes@));
    }
    while i < bytes.len()
        invariant
            i <= bytes.len(),
            record_part(bytes@) == bytes@.take(i as int) + record_part(bytes@.skip(i as int)),
            forall|k: int| 0 <= k < i ==> #[trigger] bytes@[k] != 10,
        decreases bytes.len() - i,
    {
        let ghost rest = bytes@.skip(i as int);
        proof {
            assert(rest[0] == bytes@[i as int]);
            assert(rest.skip(1) =~= bytes@.skip(i + 1));
        }
        if bytes[i] == 10 {
            proof {
                assert(record_part(bytes@) =~= bytes@.take(i + 1));
                assert(bytes@[i as int] == 10);
            }
            return i + 1;
        }
        proof {
            assert(bytes@.take(i as int) + record_part(rest) =~= bytes@.take(i + 1) + record_part(
                bytes@.skip(i + 1),
            ));
        }
        i += 1;
    }
    proof {
        assert(bytes@.skip(i as int) =~= Seq::<u8>::empty());
        assert(record_part(bytes@) =~= bytes@.take(i as int));
    }
    i
}

impl LineReader {
    /// Whether no more was taken than may be.
    pub open spec fn wf(self) -> bool {
        self.line@.len() <= self.limit
    }

    /// A reader before the first byte of a record.
    pub fn new(limit: usize) -> (r: LineReader)
        ensures
            r.wf(),
            r.line@.len() == 0,
            r.limit == limit,
    {
        LineReader { line: Vec::new(), limit }
    }

    /// Takes what belongs to the record from the next piece of the stream, which is not
    /// empty. A record that would be too long is given up before it is stored.
    pub fn take(&mut self, available: &[u8]) -> (r: Result<LineStep, StreamError>)
        requires
            old(self).wf(),
        ensures
            final(self).wf(),
            final(self).limit == old(self).limit,
            ({
                let part = record_part(available@);
                match r {
                    Err(e) => e == StreamError::RecordTooLong && old(self).line@.len() + part.len()
                        > old(self).limit && final(self).line@ == old(self).line@,
                    Ok(step) => {
                        &&& old(self).line@.len() + part.len() <= old(self).limit
                        &&& final(self).line@ == old(self).line@ + part
                        &&& step == if has_end(available@) {
                            LineStep::Complete(part.len() as usize)
                        } else {
                            LineStep::More(part.len() as usize)
                        }
                    },
                }
            }),
    {
        let n: usize = part_len(available);
        if n > self.limit - self.line.len() {
            return Err(StreamError::RecordTooLong);
        }
        let ghost before = self.line@;
        let mut i: usize = 0;
        proof {
            assert(available@.take(0) =~= Seq::<u8>::empty());
            assert(before + available@.take(0) =~= before);
        }
        while i < n
            invariant
                i <= n <= available@.len(),
                self.limit == old(self).limit,
                before.len() + n <= self.limit,
                self.line@ == before + available@.take(i as int),
            decreases n - i,
        {
            self.line.push(available[i]);
            proof {
                assert(self.line@ =~= before + available@.take(i + 1));
            }
            i += 1;
        }
        if n > 0 && available[n - 1] == 10 {
            Ok(LineStep::Complete(n))
        } else {
            Ok(LineStep::More(n))
        }
    }

    /// Ends the record that was taken; nothing was where the stream was at its end.
    pub fn finish(self) -> (r: Result<Option<String>, StreamError>)
        ensures
            if self.line@.len() == 0 {
                r == Ok::<Option<String>, StreamError>(None)
            } else if !valid_utf8(without_end(self.line@)) {
                r == Err::<Option<String>, StreamError>(StreamError::NotText)
            } else {
                r matches Ok(Some(s)) && s@ == decode_utf8(without_end(self.line@))
            },
    {
        let mut line = self.line;
        if line.len() == 0 {
            return Ok(None);
        }
        let ghost whole = line@;
        if line[line.len() - 1] == 10 {
            line.pop();
            proof {
                assert(line@ =~= whole.drop_last());
            }
        }
        let ghost stripped = line@;
        if line.len() > 0 && line[line.len() - 1] == 13 {
            line.pop();
            proof {
                assert(line@ =~= stripped.drop_last());
            }
        }
        match utf8_text(line) {
            Some(s) => Ok(Some(s)),
            None => Err(StreamError::NotText),
        }
    }
}

/// Reads the first record of a stream that is there as a whole. The number tells how many
/// bytes were taken.
pub fn read_line(stream: &[u8], limit: usize) -> (r: (Result<Option<String>, StreamError>, usize))
    ensures
        match r.0 {
            Ok(Some(s)) => first_record(stream@, limit as nat) == Ok::<
                Option<Seq<char>>,
                StreamError,
            >(Some(s@)),
            Ok(None) => first_record(stream@, limit as nat) == Ok::<
                Option<Seq<char>>,
                StreamError,
            >(None),
            Err(e) => first_record(stream@, limit as nat) == Err::<
                Option<Seq<char>>,
                StreamError,
            >(e),
        },
        r.1 == if record_part(stream@).len() > limit {
            0
        } else {
            record_part(stream@).len()
        },
{
    let mut reader = LineReader::new(limit);
    if stream.len() == 0 {
        return (reader.finish(), 0);
    }
    let taken: usize = match reader.take(stream) {
        Err(e) => {
            return (Err(e), 0);
        },
        Ok(LineStep::More(n)) => n,
        Ok(LineStep::Complete(n)) => n,
    };
    proof {
        assert(reader.line@ =~= record_part(stream@));
        lemma_part_nonempty(stream@);
    }
    (reader.finish(), taken)
}

proof fn lemma_part_nonempty(bytes: Seq<u8>)
    requires
        bytes.len() > 0,
    ensures
        record_part(bytes).len() > 0,
{
}

/// The pieces in which a stream arrives do not matter: what the first of two pieces does
/// not end, the second goes on with.
pub proof fn law_records_do_not_depend_on_pieces(a: Seq<u8>, b: Seq<u8>)
    ensures
        has_end(a) ==> record_part(a + b) == record_part(a),
        !has_end(a) ==> record_part(a + b) == a + record_part(b) && record_part(a) == a,
        has_end(a + b) == (has_end(a) || has_end(b)),
    decreases a.len(),
{
    assert(has_end(a + b) == (has_end(a) || has_end(b))) by {
        if has_end(a) {
            let i = choose|i: int| 0 <= i < a.len() && #[trigger] a[i] == 10;
            assert((a + b)[i] == 10);
        }
        if has_end(b) {
            let i = choose|i: int| 0 <= i < b.len() && #[trigger] b[i] == 10;
            assert((a + b)[a.len() + i] == 10);
        }
        if has_end(a + b) {
            let i = choose|i: int| 0 <= i < (a + b).len() && #[trigger] (a + b)[i] == 10;
            if i < a.len() {
                assert(a[i] == 10);
            } else {
                assert(b[i - a.len()] == 10);
            }
        }
    }
    if a.len() == 0 {
        assert(a + b =~= b);
        assert(a + record_part(b) =~= record_part(b));
    } else {
        let rest = a.skip(1);
        law_records_do_not_depend_on_pieces(rest, b);
        assert((a + b).skip(1) =~= rest + b);
        assert((a + b)[0] == a[0]);
        if a[0] == 10 {
            assert((a + b).take(1) =~= a.take(1));
        } else {
            assert(has_end(a) == has_end(rest)) by {
                if has_end(a) {
                    let i = choose|i: int| 0 <= i < a.len() && #[trigger] a[i] == 10;
                    assert(rest[i - 1] == 10);
                }
                if has_end(rest) {
                    let i = choose|i: int| 0 <= i < rest.len() && #[trigger] rest[i] == 10;
                    assert(a[i + 1] == 10);
                }
            }
            assert(seq![a[0]] + rest =~= a);
            assert(seq![a[0]] + (rest + record_part(b)) =~= a + record_part(b));
        }
    }
}

/// A record that is handed out holds no more bytes than the limit allows.
pub proof fn law_records_are_bounded(stream: Seq<u8>, limit: nat)
    requires
        first_record(stream, limit) matches Ok(Some(_)),
    ensures
        record_part(stream).len() <= limit,
        without_end(record_part(stream)).len() <= limit,
{
}

/// A budget of records and bytes for a window of time, and what of it is spent.
#[derive(Clone, Copy, Debug, PartialEq, Eq, Structural)]
pub struct Budget {
    pub records: usize,
    pub bytes: usize,
    pub max_records: usize,
    pub max_bytes: usize,
}

impl Budget {
    /// Whether no more was spent than there is.
    pub open spec fn wf(self) -> bool {
        self.records <= self.max_records && self.bytes <= self.max_bytes
    }

    /// The budget at the start of a window.
    pub open spec fn fresh(self) -> Budget {
        Budget { records: 0, bytes: 0, ..self }
    }

    /// The budget in the window that counts.
    pub open spec fn current(self, renewed: bool) -> Budget {
        if renewed {
            self.fresh()
        } else {
            self
        }
    }

    /// The budget so many seconds after its window began: a window lasts one second.
    pub open spec fn at(self, seconds: int) -> Budget {
        self.current(seconds >= 1)
    }

    /// Whether a record of so many bytes is within the budget.
    pub open spec fn allows(self, bytes: int) -> bool {
        self.records < self.max_records && self.bytes + bytes <= self.max_bytes
    }

    /// The budget after a record of so many bytes.
    pub open spec fn after(self, bytes: int) -> Budget {
        Budget {
            records: (self.records + 1) as usize,
            bytes: (self.bytes + bytes) as usize,
            ..self
        }
    }

    /// What becomes of the budget with a record of so many bytes, so many seconds after
    /// the window began, and whether the record is within it.
    pub open spec fn judged(self, bytes: int, seconds: int) -> (Budget, bool) {
        let now = self.at(seconds);
        if now.allows(bytes) {
            (now.after(bytes), true)
        } else {
            (now, false)
        }
    }

    /// Spends a record of so many bytes, so many whole seconds after the window began. From
    /// one second on a new window begins.
    pub fn spend(&mut self, bytes: usize, seconds: u64) -> (r: Result<(), StreamError>)
        requires
            old(self).wf(),
        ensures
            final(self).wf(),
            (*final(self), r is Ok) == old(self).judged(bytes as int, seconds as int),
            r matches Err(e) ==> e == StreamError::TooFast,
    {
        if seconds >= 1 {
            self.records = 0;
            self.bytes = 0;
        }
        if self.records >= self.max_records || bytes > self.max_bytes - self.bytes {
            return Err(StreamError::TooFast);
        }
        self.records = self.records + 1;
        self.bytes = self.bytes + bytes;
        Ok(())
    }
}

/// A point in time.
#[verifier::external_type_specification]
#[verifier::external_body]
pub struct ExInstant(std::time::Instant);

/// `Instant::now` gives the present. Nothing is stated of it.
#[verifier::external_body]
fn now() -> (r: std::time::Instant) {
    std::time::Instant::now()
}

/// `Instant::elapsed` gives the time since an instant, of which the whole seconds are
/// taken. Nothing is stated of them.
#[verifier::external_body]
fn seconds_since(start: &std::time::Instant) -> (r: u64) {
    start.elapsed().as_secs()
}

/// A budget that is renewed every second.
#[derive(Debug)]
pub struct RateLimit {
    start: std::time::Instant,
    budget: Budget,
}

impl RateLimit {
    #[verifier::type_invariant]
    spec fn within(self) -> bool {
        self.budget.wf()
    }

    /// What is spent in the window that began last.
    pub closed spec fn spent(self) -> Budget {
        self.budget
    }

    /// A budget of which nothing is spent.
    pub fn new(max_records: usize, max_bytes: usize) -> (r: RateLimit)
        ensures
            r.spent() == (Budget { records: 0, bytes: 0, max_records, max_bytes }),
    {
        RateLimit { start: now(), budget: Budget { records: 0, bytes: 0, max_records, max_bytes } }
    }

    /// When the window began.
    pub closed spec fn began(self) -> std::time::Instant {
        self.start
    }

    /// Spends a record of so many bytes. A second after the window began, a new one
    /// begins. How many seconds have passed, the clock tells.
    pub fn check(&mut self, bytes: usize) -> (r: Result<(), StreamError>)
        ensures
            final(self).spent().wf(),
            exists|seconds: u64|
                {
                    &&& (final(self).spent(), r is Ok) == #[trigger] old(self).spent().judged(
                        bytes as int,
                        seconds as int,
                    )
                    &&& seconds < 1 ==> final(self).began() == old(self).began()
                },
            r matches Err(e) ==> e == StreamError::TooFast,
    {
        proof {
            use_type_invariant(&*self);
        }
        let seconds: u64 = seconds_since(&self.start);
        let ghost before = old(self).spent();
        let mut budget = self.budget;
        let r = budget.spend(bytes, seconds);
        if seconds >= 1 {
            self.start = now();
        }
        self.budget = budget;
        proof {
            assert((self.spent(), r is Ok) == before.judged(bytes as int, seconds as int));
        }
        r
    }
}

/// A window lasts one second. Within it a record is accepted just where there is a record
/// left and room for its bytes, and one that is refused uses nothing up; from one second on
/// the judgement is that of a budget of which nothing is spent.
pub proof fn law_a_window_lasts_one_second(b: Budget, bytes: int, seconds: int)
    requires
        b.wf(),
        bytes >= 0,
    ensures
        seconds < 1 ==> {
            &&& b.judged(bytes, seconds).1 <==> b.records < b.max_records && b.bytes + bytes
                <= b.max_bytes
            &&& !b.judged(bytes, seconds).1 ==> b.judged(bytes, seconds).0 == b
        },
        seconds >= 1 ==> b.judged(bytes, seconds) == b.fresh().judged(bytes, 0),
        b.judged(bytes, seconds).0.wf(),
{
}

/// The bytes of some records.
pub open spec fn total(sizes: Seq<int>) -> int
    decreases sizes.len(),
{
    if sizes.len() == 0 {
        0
    } else {
        total(sizes.drop_last()) + sizes.last()
    }
}

/// The budget after several records in one window, where all of them are allowed.
pub open spec fn after_all(b: Budget, sizes: Seq<int>) -> Option<Budget>
    decreases sizes.len(),
{
    if sizes.len() == 0 {
        Some(b)
    } else {
        match after_all(b, sizes.drop_last()) {
            Some(c) => if sizes.last() >= 0 && c.allows(sizes.last()) {
                Some(c.after(sizes.last()))
            } else {
                None
            },
            None => None,
        }
    }
}

/// The records that are allowed in one window are no more than its budget of records, and
/// their bytes no more than its budget of bytes.
pub proof fn law_a_window_keeps_its_budget(b: Budget, sizes: Seq<int>)
    requires
        b.wf(),
        after_all(b.fresh(), sizes) is Some,
    ensures
        sizes.len() <= b.max_records,
        total(sizes) <= b.max_bytes,
        ({
            let c = after_all(b.fresh(), sizes)->0;
            c.records == sizes.len() && c.bytes == total(sizes) && c.max_records == b.max_records
                && c.max_bytes == b.max_bytes
        }),
    decreases sizes.len(),
{
    if sizes.len() > 0 {
        law_a_window_keeps_its_budget(b, sizes.drop_last());
    }
}

} // verus!
