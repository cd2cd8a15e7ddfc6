//! The shared communication bus, modelled as an explicit transport.
//!
//! Two independent devices (the scale ADC and the NFC reader) live on one
//! bus, so every driver operation is specified down to the select/write/
//! read/deselect steps it performs.  A [`SimBus`] carries:
//!
//! * a script of replies (`replies`) that read steps consume in order — a
//!   reply is either payload bytes or a transport fault;
//! * a script of busy-pin samples (`busy`) for drivers that poll a readiness
//!   signal;
//! * a log (`log`) of every bus step taken, which is the observable record
//!   that the serialization property is stated over.
//!
//! An exhausted reply script yields all-`0xFF` bytes — the behaviour of a
//! floating input line — and an exhausted busy script reads as "busy".
//!
//! The well-formedness invariant [`SimBus::wf`] pins the one property the
//! whole crate relies on: the log is always a concatenation of *complete*
//! transactions.  Every driver operation appends whole transactions only, so
//! the multi-step traffic of one device can never interleave with the
//! other's.

use vstd::prelude::*;

verus! {

/// One step of bus traffic, as recorded in the transaction log.
#[derive(Debug, Clone)]
pub enum BusEvent {
    /// Chip select asserted: a transaction begins.
    Select,
    /// Bytes written to the selected device.
    Write(Vec<u8>),
    /// The given number of bytes clocked out of the selected device.
    Read(usize),
    /// Chip select released: the transaction ends.
    Deselect,
}

/// One scripted answer to a read step.
#[derive(Debug, Clone)]
pub enum BusReply {
    /// The bytes the device puts on the line.
    Data(Vec<u8>),
    /// A transport fault: the transfer itself fails.
    Fault,
}

/// The simulated shared bus: scripted replies, scripted busy-pin samples,
/// and the recorded step log.
#[derive(Debug)]
pub struct SimBus {
    /// Replies that read steps consume, in order.
    pub replies: Vec<BusReply>,
    /// Index of the next unconsumed reply; never exceeds `replies.len()`.
    pub cursor: usize,
    /// Busy-pin samples (true = busy), consumed in order.
    pub busy: Vec<bool>,
    /// Index of the next unconsumed busy sample.
    pub busy_cursor: usize,
    /// Every bus step taken so far.
    pub log: Vec<BusEvent>,
}

/// Holds from position `i` onward when the rest of the log closes every open
/// transaction and opens none inside another; `inside` says whether a
/// transaction is open when position `i` is reached.
pub open spec fn spec_serialized_suffix(log: Seq<BusEvent>, i: int, inside: bool) -> bool
    decreases log.len() - i,
{
    if i < 0 {
        false
    } else if i >= log.len() {
        !inside
    } else {
        match log[i] {
            BusEvent::Select => !inside && spec_serialized_suffix(log, i + 1, true),
            BusEvent::Deselect => inside && spec_serialized_suffix(log, i + 1, false),
            _ => inside && spec_serialized_suffix(log, i + 1, inside),
        }
    }
}

/// A log is serialized when it is a concatenation of complete transactions:
/// every `Select` is matched by a later `Deselect` before the next `Select`,
/// and no write or read stands outside a transaction.
pub open spec fn spec_serialized(log: Seq<BusEvent>) -> bool {
    spec_serialized_suffix(log, 0, false)
}

/// The events `[from, to)` form exactly one complete transaction.
pub open spec fn spec_txn_shape(log: Seq<BusEvent>, from: int, to: int) -> bool {
    &&& 0 <= from
    &&& from + 2 <= to <= log.len()
    &&& log[from] is Select
    &&& log[to - 1] is Deselect
    &&& forall|i: int|
        from < i < to - 1 ==> !((#[trigger] log[i]) is Select) && !(log[i] is Deselect)
}

/// One complete write transaction stands at position `i` of the log:
/// select, exactly the frame `cmd`, deselect.
pub open spec fn spec_cmd_txn_at(log: Seq<BusEvent>, i: int, cmd: Seq<u8>) -> bool {
    &&& 0 <= i
    &&& i + 3 <= log.len()
    &&& log[i] is Select
    &&& (log[i + 1] matches BusEvent::Write(c) && c@ == cmd)
    &&& log[i + 2] is Deselect
}

/// One complete read transaction stands at position `i` of the log:
/// select, a read of exactly `len` bytes, deselect.
pub open spec fn spec_read_txn_at(log: Seq<BusEvent>, i: int, len: nat) -> bool {
    &&& 0 <= i
    &&& i + 3 <= log.len()
    &&& log[i] is Select
    &&& (log[i + 1] matches BusEvent::Read(l) && l == len)
    &&& log[i + 2] is Deselect
}

/// A write transaction inside a preserved prefix stays where it was.
pub proof fn lemma_cmd_txn_at_preserved(a: Seq<BusEvent>, full: Seq<BusEvent>, i: int, cmd: Seq<u8>)
    requires
        a.len() <= full.len(),
        full.take(a.len() as int) == a,
        spec_cmd_txn_at(a, i, cmd),
    ensures
        spec_cmd_txn_at(full, i, cmd),
{
    assert(full.take(a.len() as int)[i] == full[i]);
    assert(full.take(a.len() as int)[i + 1] == full[i + 1]);
    assert(full.take(a.len() as int)[i + 2] == full[i + 2]);
}

/// A read transaction inside a preserved prefix stays where it was.
pub proof fn lemma_read_txn_at_preserved(a: Seq<BusEvent>, full: Seq<BusEvent>, i: int, len: nat)
    requires
        a.len() <= full.len(),
        full.take(a.len() as int) == a,
        spec_read_txn_at(a, i, len),
    ensures
        spec_read_txn_at(full, i, len),
{
    assert(full.take(a.len() as int)[i] == full[i]);
    assert(full.take(a.len() as int)[i + 1] == full[i + 1]);
    assert(full.take(a.len() as int)[i + 2] == full[i + 2]);
}

/// The all-`0xFF` byte sequence a floating line reads as.
pub open spec fn spec_fill_ff(len: nat) -> Seq<u8> {
    Seq::new(len, |i: int| 0xFFu8)
}

/// A scripted payload fitted to the length of the read step that consumes
/// it: surplus bytes are not clocked out, missing bytes read as `0xFF`.
pub open spec fn spec_fit(d: Seq<u8>, len: nat) -> Seq<u8> {
    if d.len() >= len {
        d.take(len as int)
    } else {
        d + spec_fill_ff((len - d.len()) as nat)
    }
}

/// What a read step of `len` bytes returns when the next unconsumed reply is
/// at position `k`: `None` on a transport fault, otherwise the fitted
/// payload, with an exhausted script reading as all `0xFF`.
pub open spec fn spec_read_result(replies: Seq<BusReply>, k: int, len: nat) -> Option<Seq<u8>> {
    if 0 <= k < replies.len() {
        match replies[k] {
            BusReply::Fault => None,
            BusReply::Data(d) => Some(spec_fit(d@, len)),
        }
    } else {
        Some(spec_fill_ff(len))
    }
}

/// Where the reply cursor stands after one read step from position `k`.
pub open spec fn spec_next_cursor(replies: Seq<BusReply>, k: int) -> int {
    if 0 <= k < replies.len() {
        k + 1
    } else {
        k
    }
}

/// The busy-pin level a driver samples at position `k` of the busy script:
/// an exhausted script reads as busy, the behaviour of a stuck or unwired
/// pin.
pub open spec fn spec_busy_at(busy: Seq<bool>, k: int) -> bool {
    if 0 <= k < busy.len() {
        busy[k]
    } else {
        true
    }
}

/// Where the busy cursor stands after one sample from position `k`.
pub open spec fn spec_next_busy_cursor(busy: Seq<bool>, k: int) -> int {
    if 0 <= k < busy.len() {
        k + 1
    } else {
        k
    }
}

/// Every write event from position `from` onward starts with the command
/// byte `b` — the shape of the traffic one driver operation is allowed to
/// put on the bus.
pub open spec fn spec_writes_start_with(log: Seq<BusEvent>, from: int, b: u8) -> bool {
    forall|i: int|
        from <= i < log.len() ==> ((#[trigger] log[i]) matches BusEvent::Write(c) ==> c@.len() > 0
            && c@[0] == b)
}

/// No write event stands from position `from` onward.
pub open spec fn spec_no_writes(log: Seq<BusEvent>, from: int) -> bool {
    forall|i: int| from <= i < log.len() ==> !((#[trigger] log[i]) is Write)
}

/// Every write event from position `from` onward carries exactly the frame
/// `cmd`.
pub open spec fn spec_writes_are(log: Seq<BusEvent>, from: int, cmd: Seq<u8>) -> bool {
    forall|i: int|
        from <= i < log.len() ==> ((#[trigger] log[i]) matches BusEvent::Write(c) ==> c@ == cmd)
}

/// The exact-frame shape of a region survives extension when the added part
/// has the same shape.
pub proof fn lemma_writes_are_extend(a: Seq<BusEvent>, full: Seq<BusEvent>, from: int, cmd: Seq<u8>)
    requires
        0 <= from <= a.len() <= full.len(),
        full.take(a.len() as int) == a,
        spec_writes_are(a, from, cmd),
        spec_writes_are(full, a.len() as int, cmd),
    ensures
        spec_writes_are(full, from, cmd),
{
    assert forall|i: int| from <= i < full.len() implies ((#[trigger] full[i])
        matches BusEvent::Write(c) ==> c@ == cmd) by {
        if i < a.len() {
            assert(full.take(a.len() as int)[i] == full[i]);
        }
    }
}

/// Prefixes chain: if `mid` extends `early` and `late` extends `mid`, then
/// `late` extends `early`.
pub proof fn lemma_prefix_chain(early: Seq<BusEvent>, mid: Seq<BusEvent>, late: Seq<BusEvent>)
    requires
        early.len() <= mid.len() <= late.len(),
        mid.take(early.len() as int) == early,
        late.take(mid.len() as int) == mid,
    ensures
        late.take(early.len() as int) == early,
{
    assert forall|i: int| 0 <= i < early.len() implies late.take(early.len() as int)[i]
        == early[i] by {
        assert(late.take(mid.len() as int)[i] == late[i]);
        assert(mid.take(early.len() as int)[i] == mid[i]);
    }
    assert(late.take(early.len() as int) =~= early);
}

/// The write-shape of a region survives extension when the added part has
/// the same shape.
pub proof fn lemma_writes_start_with_extend(a: Seq<BusEvent>, full: Seq<BusEvent>, from: int, b: u8)
    requires
        0 <= from <= a.len() <= full.len(),
        full.take(a.len() as int) == a,
        spec_writes_start_with(a, from, b),
        spec_writes_start_with(full, a.len() as int, b),
    ensures
        spec_writes_start_with(full, from, b),
{
    assert forall|i: int| from <= i < full.len() implies ((#[trigger] full[i])
        matches BusEvent::Write(c) ==> c@.len() > 0 && c@[0] == b) by {
        if i < a.len() {
            assert(full.take(a.len() as int)[i] == full[i]);
        }
    }
}

/// A serialized log stays serialized when one complete transaction is
/// appended to it.
pub proof fn lemma_append_txn_serialized(full: Seq<BusEvent>, from: int)
    requires
        spec_serialized(full.take(from)),
        spec_txn_shape(full, from, full.len() as int),
    ensures
        spec_serialized(full),
{
    lemma_txn_walk(full, from, from + 1, full.len() as int);
    assert(spec_serialized_suffix(full, from, false));
    lemma_suffix_extend(full.take(from), full, 0, false);
}

/// Composition law: two serialized histories in sequence form a serialized
/// history.  This is the sense in which the bus serializes its devices: each
/// driver operation contributes a block of complete transactions, and no
/// interleaving can arise from running one operation after another.
pub proof fn lemma_serialized_append(a: Seq<BusEvent>, b: Seq<BusEvent>)
    requires
        spec_serialized(a),
        spec_serialized(b),
    ensures
        spec_serialized(a + b),
{
    lemma_suffix_shift(a, b, 0, false);
    assert((a + b).take(a.len() as int) =~= a);
    lemma_suffix_extend(a, a + b, 0, false);
}

/// Inside one transaction body, walking forward reaches the closing
/// `Deselect` with the transaction still open.
proof fn lemma_txn_walk(full: Seq<BusEvent>, f: int, i: int, to: int)
    requires
        spec_txn_shape(full, f, to),
        f < i <= to - 1,
        to == full.len(),
    ensures
        spec_serialized_suffix(full, i, true),
    decreases to - i,
{
    if i == to - 1 {
        assert(full[i] is Deselect);
        assert(spec_serialized_suffix(full, to, false));
    } else {
        assert(!(full[i] is Select) && !(full[i] is Deselect));
        lemma_txn_walk(full, f, i + 1, to);
    }
}

/// A suffix proof over a prefix carries over to any extension whose added
/// part is itself serialized from the prefix's end.
proof fn lemma_suffix_extend(a: Seq<BusEvent>, full: Seq<BusEvent>, i: int, inside: bool)
    requires
        0 <= i <= a.len(),
        a.len() <= full.len(),
        full.take(a.len() as int) == a,
        spec_serialized_suffix(a, i, inside),
        spec_serialized_suffix(full, a.len() as int, false),
    ensures
        spec_serialized_suffix(full, i, inside),
    decreases a.len() - i,
{
    if i < a.len() {
        assert(full[i] == a[i]) by {
            assert(full.take(a.len() as int)[i] == full[i]);
        }
        match a[i] {
            BusEvent::Select => lemma_suffix_extend(a, full, i + 1, true),
            BusEvent::Deselect => lemma_suffix_extend(a, full, i + 1, false),
            _ => lemma_suffix_extend(a, full, i + 1, inside),
        }
    }
}

/// Positions in a concatenation that lie past the first part line up with
/// positions in the second part.
proof fn lemma_suffix_shift(a: Seq<BusEvent>, b: Seq<BusEvent>, j: int, inside: bool)
    requires
        0 <= j <= b.len(),
        spec_serialized_suffix(b, j, inside),
    ensures
        spec_serialized_suffix(a + b, a.len() + j, inside),
    decreases b.len() - j,
{
    if j < b.len() {
        assert((a + b)[a.len() + j] == b[j]);
        match b[j] {
            BusEvent::Select => lemma_suffix_shift(a, b, j + 1, true),
            BusEvent::Deselect => lemma_suffix_shift(a, b, j + 1, false),
            _ => lemma_suffix_shift(a, b, j + 1, inside),
        }
    }
}

impl SimBus {
    /// The bus invariant: cursors stay within their scripts and the log is a
    /// concatenation of complete transactions.
    pub open spec fn wf(self) -> bool {
        &&& self.cursor <= self.replies.len()
        &&& self.busy_cursor <= self.busy.len()
        &&& spec_serialized(self.log@)
    }

    /// A bus with the given scripts and an empty log.
    pub fn new(replies: Vec<BusReply>, busy: Vec<bool>) -> (bus: SimBus)
        ensures
            bus.wf(),
            bus.replies == replies,
            bus.busy == busy,
            bus.cursor == 0,
            bus.busy_cursor == 0,
            bus.log@.len() == 0,
    {
        SimBus { replies, cursor: 0, busy, busy_cursor: 0, log: Vec::new() }
    }

    /// Sample the busy pin once, consuming one scripted sample; an exhausted
    /// script reads as busy.
    pub fn sample_busy(&mut self) -> (b: bool)
        ensures
            b == spec_busy_at(old(self).busy@, old(self).busy_cursor as int),
            final(self).busy_cursor == spec_next_busy_cursor(
                old(self).busy@,
                old(self).busy_cursor as int,
            ),
            final(self).busy == old(self).busy,
            final(self).replies == old(self).replies,
            final(self).cursor == old(self).cursor,
            final(self).log == old(self).log,
    {
        if self.busy_cursor < self.busy.len() {
            let b = self.busy[self.busy_cursor];
            self.busy_cursor = self.busy_cursor + 1;
            b
        } else {
            true
        }
    }

    /// One write transaction: select, write `cmd`, deselect.
    pub fn txn_write(&mut self, cmd: &Vec<u8>)
        requires
            old(self).wf(),
        ensures
            final(self).wf(),
            final(self).log@.len() == old(self).log@.len() + 3,
            final(self).log@.take(old(self).log@.len() as int) == old(self).log@,
            spec_txn_shape(final(self).log@, old(self).log@.len() as int, final(self).log@.len() as int),
            spec_cmd_txn_at(final(self).log@, old(self).log@.len() as int, cmd@),
            final(self).log@[old(self).log@.len() as int] is Select,
            (final(self).log@[old(self).log@.len() as int + 1] matches BusEvent::Write(c) && c@ == cmd@),
            final(self).log@[old(self).log@.len() as int + 2] is Deselect,
            final(self).replies == old(self).replies,
            final(self).cursor == old(self).cursor,
            final(self).busy == old(self).busy,
            final(self).busy_cursor == old(self).busy_cursor,
    {
        let ghost old_log = self.log@;
        self.log.push(BusEvent::Select);
        self.log.push(BusEvent::Write(clone_bytes(cmd)));
        self.log.push(BusEvent::Deselect);
        proof {
            assert(self.log@.take(old_log.len() as int) =~= old_log);
            lemma_append_txn_serialized(self.log@, old_log.len() as int);
        }
    }

    /// One empty transaction: select, then deselect at once.  Drivers use
    /// this as a benign wiring self-test pulse.
    pub fn txn_pulse(&mut self)
        requires
            old(self).wf(),
        ensures
            final(self).wf(),
            final(self).log@.len() == old(self).log@.len() + 2,
            final(self).log@.take(old(self).log@.len() as int) == old(self).log@,
            final(self).log@[old(self).log@.len() as int] is Select,
            final(self).log@[old(self).log@.len() as int + 1] is Deselect,
            final(self).replies == old(self).replies,
            final(self).cursor == old(self).cursor,
            final(self).busy == old(self).busy,
            final(self).busy_cursor == old(self).busy_cursor,
    {
        let ghost old_log = self.log@;
        self.log.push(BusEvent::Select);
        self.log.push(BusEvent::Deselect);
        proof {
            assert(self.log@.take(old_log.len() as int) =~= old_log);
            assert(spec_txn_shape(self.log@, old_log.len() as int, self.log@.len() as int));
            lemma_append_txn_serialized(self.log@, old_log.len() as int);
        }
    }

    /// One read transaction: select, clock out `len` bytes, deselect.
    /// Returns `None` on a scripted transport fault.
    pub fn txn_read(&mut self, len: usize) -> (r: Option<Vec<u8>>)
        requires
            old(self).wf(),
        ensures
            final(self).wf(),
            final(self).log@.len() == old(self).log@.len() + 3,
            final(self).log@.take(old(self).log@.len() as int) == old(self).log@,
            spec_txn_shape(final(self).log@, old(self).log@.len() as int, final(self).log@.len() as int),
            spec_read_txn_at(final(self).log@, old(self).log@.len() as int, len as nat),
            final(self).log@[old(self).log@.len() as int] is Select,
            final(self).log@[old(self).log@.len() as int + 1] == BusEvent::Read(len),
            final(self).log@[old(self).log@.len() as int + 2] is Deselect,
            match r {
                Some(v) => spec_read_result(old(self).replies@, old(self).cursor as int, len as nat)
                    == Some(v@),
                None => spec_read_result(old(self).replies@, old(self).cursor as int, len as nat)
                    is None,
            },
            r matches Some(v) ==> v@.len() == len,
            final(self).cursor == spec_next_cursor(old(self).replies@, old(self).cursor as int),
            final(self).replies == old(self).replies,
            final(self).busy == old(self).busy,
            final(self).busy_cursor == old(self).busy_cursor,
    {
        let ghost old_log = self.log@;
        self.log.push(BusEvent::Select);
        self.log.push(BusEvent::Read(len));
        self.log.push(BusEvent::Deselect);
        proof {
            assert(self.log@.take(old_log.len() as int) =~= old_log);
            lemma_append_txn_serialized(self.log@, old_log.len() as int);
        }
        if self.cursor < self.replies.len() {
            let r: Option<Vec<u8>> = match &self.replies[self.cursor] {
                BusReply::Fault => None,
                BusReply::Data(d) => Some(fit_bytes(d, len)),
            };
            self.cursor = self.cursor + 1;
            r
        } else {
            Some(fill_ff(len))
        }
    }
}

/// Copy a byte vector (the log keeps its own copy of written bytes).
fn clone_bytes(b: &Vec<u8>) -> (r: Vec<u8>)
    ensures
        r@ == b@,
{
    let mut r: Vec<u8> = Vec::new();
    let mut i: usize = 0;
    while i < b.len()
        invariant
            i <= b.len(),
            r@ == b@.take(i as int),
        decreases b.len() - i,
    {
        r.push(b[i]);
        proof {
            assert(r@ =~= b@.take(i + 1));
        }
        i = i + 1;
    }
    proof {
        assert(b@.take(b@.len() as int) =~= b@);
    }
    r
}

/// An all-`0xFF` vector of the given length.
fn fill_ff(len: usize) -> (r: Vec<u8>)
    ensures
        r@ == spec_fill_ff(len as nat),
{
    let mut r: Vec<u8> = Vec::new();
    let mut i: usize = 0;
    while i < len
        invariant
            i <= len,
            r@ == spec_fill_ff(i as nat),
        decreases len - i,
    {
        r.push(0xFF);
        proof {
            assert(r@ =~= spec_fill_ff((i + 1) as nat));
        }
        i = i + 1;
    }
    r
}

/// Fit a scripted payload to a read length: truncate surplus, pad missing
/// bytes with `0xFF`.
fn fit_bytes(d: &Vec<u8>, len: usize) -> (r: Vec<u8>)
    ensures
        r@ == spec_fit(d@, len as nat),
        r@.len() == len,
{
    let mut r: Vec<u8> = Vec::new();
    let mut i: usize = 0;
    while i < len
        invariant
            i <= len,
            r@.len() == i,
            forall|j: int| 0 <= j < i ==> r@[j] == spec_fit(d@, len as nat)[j],
        decreases len - i,
    {
        if i < d.len() {
            r.push(d[i]);
        } else {
            r.push(0xFF);
        }
        i = i + 1;
    }
    proof {
        assert(r@ =~= spec_fit(d@, len as nat));
    }
    r
}

} // verus!
