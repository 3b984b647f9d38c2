//! The DPI-evasion transport core.
//!
//! A TLS ClientHello is the one record a censoring middlebox can read in
//! plaintext: it carries the server name. The `Detour` write state machine
//! intercepts exactly that record and replays it as two smaller, individually
//! well-formed TLS records, so that neither record alone contains the whole
//! ClientHello. Every other write, and every read, passes through unchanged.
//!
//! The machine is driven from the outside: the caller asks what to do with a
//! buffer (`write_begin`), performs the underlying write itself, and reports
//! how many bytes the raw stream accepted (`write_advance`) or that it failed
//! (`write_error`).

use vstd::prelude::*;
use vstd::slice::slice_to_vec;

verus! {

/// A buffer is a TLS ClientHello record when it is long enough to carry the
/// 5-byte record header plus a handshake type byte, its content type is
/// `0x16` (handshake) and its handshake message type is `0x01` (ClientHello).
pub open spec fn is_client_hello(b: Seq<u8>) -> bool {
    b.len() >= 6 && b[0] == 0x16 && b[5] == 0x01
}

/// A record can be bisected when its payload is large enough to split
/// meaningfully and the whole record respects the TLS record size ceiling,
/// so that both halves do too.
pub open spec fn can_split(b: Seq<u8>) -> bool {
    12 <= b.len() <= 65540
}

/// A length field as it appears on the wire: two bytes, big-endian.
pub open spec fn be16(n: int) -> Seq<u8> {
    seq![(n / 256) as u8, (n % 256) as u8]
}

/// Payload length of the first half of a bisected record.
pub open spec fn half_payload(b: Seq<u8>) -> int {
    (b.len() - 5) / 2
}

/// First record of the split: the original content type and protocol version,
/// a recomputed length field, and the first half of the payload.
pub open spec fn first_fragment(b: Seq<u8>) -> Seq<u8> {
    b.subrange(0, 3) + be16(half_payload(b)) + b.subrange(5, 5 + half_payload(b))
}

/// Second record of the split: same header bytes, its own length field, and
/// the rest of the payload.
pub open spec fn second_fragment(b: Seq<u8>) -> Seq<u8> {
    b.subrange(0, 3) + be16(b.len() - 5 - half_payload(b))
        + b.subrange(5 + half_payload(b), b.len() as int)
}

/// The records that replace one intercepted ClientHello on the wire. A record
/// too small (or too large) to bisect is passed on unmodified as a single
/// degenerate fragment rather than rejected.
pub open spec fn fragment_plan(b: Seq<u8>) -> Seq<Seq<u8>> {
    if can_split(b) {
        seq![first_fragment(b), second_fragment(b)]
    } else {
        seq![b]
    }
}

/// Every plan consists of at least one fragment and no fragment is empty.
pub open spec fn plan_wf(pl: Seq<Seq<u8>>) -> bool {
    pl.len() > 0 && forall|i: int| 0 <= i < pl.len() ==> pl[i].len() > 0
}

/// All bytes of a plan, in wire order.
pub open spec fn concat_bytes(pl: Seq<Seq<u8>>) -> Seq<u8>
    decreases pl.len(),
{
    if pl.len() == 0 {
        Seq::empty()
    } else {
        concat_bytes(pl.drop_last()) + pl.last()
    }
}

/// Extending the concatenation by one more fragment.
pub proof fn lemma_concat_take_succ(pl: Seq<Seq<u8>>, i: int)
    requires
        0 <= i < pl.len(),
    ensures
        concat_bytes(pl.take(i + 1)) == concat_bytes(pl.take(i)) + pl[i],
{
    let t = pl.take(i + 1);
    assert(t.drop_last() =~= pl.take(i));
    assert(concat_bytes(t) == concat_bytes(t.drop_last()) + t.last());
}

/// A fragment plan is never empty and never holds an empty record.
pub proof fn lemma_fragment_plan_wf(b: Seq<u8>)
    requires
        b.len() > 0,
    ensures
        plan_wf(fragment_plan(b)),
{
    if can_split(b) {
        assert(first_fragment(b).len() == 5 + half_payload(b));
        assert(second_fragment(b).len() == b.len() - half_payload(b));
    }
}

/// Bisecting a TLS record yields two records that copy the original
/// content type and protocol version, carry length fields that match their
/// own payloads, and whose payloads concatenate back to the original payload.
/// Both respect the TLS record size bounds, and together they are exactly
/// five bytes (one duplicated header) longer than the original record.
pub proof fn lemma_split_preserves_record(b: Seq<u8>)
    requires
        can_split(b),
    ensures
        first_fragment(b).subrange(0, 3) == b.subrange(0, 3),
        second_fragment(b).subrange(0, 3) == b.subrange(0, 3),
        first_fragment(b).subrange(3, 5) == be16(first_fragment(b).len() - 5),
        second_fragment(b).subrange(3, 5) == be16(second_fragment(b).len() - 5),
        first_fragment(b).skip(5) + second_fragment(b).skip(5) == b.skip(5),
        first_fragment(b).len() + second_fragment(b).len() == b.len() + 5,
        5 <= first_fragment(b).len() <= 65540,
        5 <= second_fragment(b).len() <= 65540,
{
    let f1 = first_fragment(b);
    let f2 = second_fragment(b);
    let half = half_payload(b);
    assert(f1.len() == 5 + half);
    assert(f2.len() == 5 + (b.len() - 5 - half));
    assert(f1.subrange(0, 3) =~= b.subrange(0, 3));
    assert(f2.subrange(0, 3) =~= b.subrange(0, 3));
    assert(f1.subrange(3, 5) =~= be16(half));
    assert(f2.subrange(3, 5) =~= be16(b.len() - 5 - half));
    assert(f1.skip(5) =~= b.subrange(5, 5 + half));
    assert(f2.skip(5) =~= b.subrange(5 + half, b.len() as int));
    assert(f1.skip(5) + f2.skip(5) =~= b.skip(5));
}

/// Whether a buffer about to be written is a TLS ClientHello record.
pub fn is_hello(data: &[u8]) -> (hello: bool)
    ensures
        hello == is_client_hello(data@),
{
    data.len() >= 6 && data[0] == 0x16 && data[5] == 0x01
}

/// Split one TLS record into the records that will replace it on the wire:
/// two bisected halves, or the record itself when it is too small or too
/// large to bisect. The planner splits whatever record it is handed; only
/// the write state machine decides which writes are intercepted at all.
pub fn fragmentate(data: &[u8]) -> (plan: Vec<Vec<u8>>)
    ensures
        plan.deep_view() == fragment_plan(data@),
{
    let n = data.len();
    if n < 12 || n > 65540 {
        let whole = slice_to_vec(data);
        let mut plan: Vec<Vec<u8>> = Vec::new();
        plan.push(whole);
        assert(plan.deep_view() =~~= fragment_plan(data@));
        plan
    } else {
        let payload = n - 5;
        let half = payload / 2;
        let rest = payload - half;

        let mut f1: Vec<u8> = Vec::new();
        f1.push(data[0]);
        f1.push(data[1]);
        f1.push(data[2]);
        f1.push((half / 256) as u8);
        f1.push((half % 256) as u8);
        assert(f1@ =~= data@.subrange(0, 3) + be16(half as int));
        let mut i: usize = 0;
        while i < half
            invariant
                n == data@.len(),
                12 <= n <= 65540,
                half == half_payload(data@),
                i <= half,
                f1@ == data@.subrange(0, 3) + be16(half as int) + data@.subrange(5, 5 + i as int),
            decreases half - i,
        {
            f1.push(data[5 + i]);
            assert(f1@ =~= data@.subrange(0, 3) + be16(half as int)
                + data@.subrange(5, 5 + (i + 1) as int));
            i = i + 1;
        }
        assert(f1@ =~= first_fragment(data@));

        let mut f2: Vec<u8> = Vec::new();
        f2.push(data[0]);
        f2.push(data[1]);
        f2.push(data[2]);
        f2.push((rest / 256) as u8);
        f2.push((rest % 256) as u8);
        assert(f2@ =~= data@.subrange(0, 3) + be16(rest as int));
        let mut j: usize = 0;
        while j < rest
            invariant
                n == data@.len(),
                12 <= n <= 65540,
                half == half_payload(data@),
                rest == n - 5 - half,
                j <= rest,
                f2@ == data@.subrange(0, 3) + be16(rest as int)
                    + data@.subrange(5 + half as int, 5 + half as int + j as int),
            decreases rest - j,
        {
            f2.push(data[5 + half + j]);
            assert(f2@ =~= data@.subrange(0, 3) + be16(rest as int)
                + data@.subrange(5 + half as int, 5 + half as int + (j + 1) as int));
            j = j + 1;
        }
        assert(f2@ =~= second_fragment(data@));

        let mut plan: Vec<Vec<u8>> = Vec::new();
        plan.push(f1);
        plan.push(f2);
        assert(plan.deep_view() =~~= fragment_plan(data@));
        plan
    }
}

/// The fragments computed from one intercepted write, together with the
/// index of the fragment currently being flushed.
#[derive(Debug)]
pub struct Fragment {
    pub frags: Vec<Vec<u8>>,
    pub index: usize,
}

impl Fragment {
    /// The fragments as mathematical byte sequences.
    pub open spec fn plan(self) -> Seq<Seq<u8>> {
        self.frags.deep_view()
    }

    pub open spec fn wf(self) -> bool {
        self.index <= self.plan().len() && plan_wf(self.plan())
    }

    /// Compute the plan for one intercepted ClientHello record, positioned
    /// at its first fragment.
    pub fn from_whole(data: &[u8]) -> (frag: Fragment)
        requires
            is_client_hello(data@),
        ensures
            frag.plan() == fragment_plan(data@),
            frag.index == 0,
            frag.wf(),
    {
        proof {
            lemma_fragment_plan_wf(data@);
        }
        Fragment { frags: fragmentate(data), index: 0 }
    }

    /// The fragment currently being flushed, or `None` once all are done.
    pub fn data(&self) -> (d: Option<&Vec<u8>>)
        ensures
            match d {
                Some(v) => self.index < self.plan().len() && v@ == self.plan()[self.index as int],
                None => self.index >= self.plan().len(),
            },
    {
        if self.index < self.frags.len() {
            Some(&self.frags[self.index])
        } else {
            None
        }
    }

    /// Advance to the next fragment; true while one is left to send.
    pub fn next(&mut self) -> (more: bool)
        requires
            old(self).index < old(self).plan().len(),
        ensures
            final(self).frags == old(self).frags,
            final(self).index == old(self).index + 1,
            more == (final(self).index < final(self).plan().len()),
    {
        let len = self.frags.len();
        self.index = self.index + 1;
        self.index < len
    }
}

/// Where the write state machine stands: passing writes through, or in the
/// middle of replaying one intercepted ClientHello as several records.
/// `offset` counts the bytes of the current fragment already accepted by the
/// raw stream; `total` is the length of the original, unfragmented record,
/// which is what the caller will be told it consumed.
#[derive(Debug)]
pub enum DetourState {
    Normal,
    Sending { frag: Fragment, offset: usize, total: usize },
}

impl DetourState {
    pub open spec fn is_normal(self) -> bool {
        self matches DetourState::Normal
    }

    /// The plan being flushed (empty when passing through).
    pub open spec fn plan(self) -> Seq<Seq<u8>> {
        match self {
            DetourState::Normal => Seq::empty(),
            DetourState::Sending { frag, .. } => frag.plan(),
        }
    }

    /// Index of the fragment currently being flushed.
    pub open spec fn cursor(self) -> int {
        match self {
            DetourState::Normal => 0,
            DetourState::Sending { frag, .. } => frag.index as int,
        }
    }

    /// Bytes of the current fragment already accepted by the raw stream.
    pub open spec fn offset(self) -> int {
        match self {
            DetourState::Normal => 0,
            DetourState::Sending { offset, .. } => offset as int,
        }
    }

    /// Length of the original record, to be reported on completion.
    pub open spec fn total(self) -> int {
        match self {
            DetourState::Normal => 0,
            DetourState::Sending { total, .. } => total as int,
        }
    }

    pub open spec fn wf(self) -> bool {
        match self {
            DetourState::Normal => true,
            DetourState::Sending { frag, offset, .. } => {
                &&& frag.wf()
                &&& frag.index < frag.plan().len()
                &&& offset < frag.plan()[frag.index as int].len()
            },
        }
    }

    /// All plan bytes the raw stream has accepted so far, in wire order.
    pub open spec fn sent_bytes(self) -> Seq<u8> {
        concat_bytes(self.plan().take(self.cursor())) + self.plan()[self.cursor()].take(
            self.offset(),
        )
    }

    /// The bytes of the current fragment still to be written.
    pub open spec fn pending_chunk(self) -> Seq<u8> {
        self.plan()[self.cursor()].skip(self.offset())
    }
}

/// What the caller must do with the buffer it asked to write.
#[derive(Debug)]
pub enum WriteStep {
    /// Not a ClientHello: hand the buffer to the raw stream unchanged and
    /// report the raw stream's result verbatim.
    Forward,
    /// A ClientHello was intercepted and its plan captured; nothing was
    /// written. Report "not ready" and present the same buffer again.
    Captured,
    /// Mid-replay: write exactly these bytes (the remainder of the current
    /// fragment) to the raw stream, then report what it said.
    Chunk(Vec<u8>),
}

/// What the caller reports upward after the raw stream accepted `n` bytes.
#[derive(Debug)]
pub enum WriteOutcome {
    /// The replay is not finished: report "not ready" and come back.
    Pending,
    /// Every fragment is fully flushed: report this many bytes consumed —
    /// the length of the original record, not the larger physical total.
    Done(usize),
}

/// A byte-stream decorator around an owned raw stream `sock`. Reads, flushes
/// and shutdowns pass through; writes run the interception state machine.
pub struct Detour<T> {
    pub sock: T,
    pub state: DetourState,
}

impl<T> Detour<T> {
    pub fn new(sock: T) -> (d: Detour<T>)
        ensures
            d.sock == sock,
            d.state.is_normal(),
    {
        Detour { sock, state: DetourState::Normal }
    }

    /// Decide what one write call does. In `Normal` state a non-ClientHello
    /// buffer is forwarded untouched; a ClientHello is captured as a fragment
    /// plan without touching the raw stream. While a plan is being flushed,
    /// the buffer is ignored and the remainder of the current fragment is
    /// handed out to be written.
    pub fn write_begin(&mut self, buf: &[u8]) -> (step: WriteStep)
        requires
            old(self).state.wf(),
        ensures
            final(self).sock == old(self).sock,
            final(self).state.wf(),
            old(self).state.is_normal() && !is_client_hello(buf@) ==> {
                &&& step matches WriteStep::Forward
                &&& final(self).state == old(self).state
            },
            old(self).state.is_normal() && is_client_hello(buf@) ==> {
                &&& step matches WriteStep::Captured
                &&& !final(self).state.is_normal()
                &&& final(self).state.plan() == fragment_plan(buf@)
                &&& final(self).state.cursor() == 0
                &&& final(self).state.offset() == 0
                &&& final(self).state.total() == buf@.len()
                &&& final(self).state.sent_bytes() == Seq::<u8>::empty()
            },
            !old(self).state.is_normal() ==> {
                &&& final(self).state == old(self).state
                &&& step matches WriteStep::Chunk(c) && c@ == old(self).state.pending_chunk()
            },
    {
        match &self.state {
            DetourState::Normal => {
                if !is_hello(buf) {
                    WriteStep::Forward
                } else {
                    let frag = Fragment::from_whole(buf);
                    proof {
                        assert(fragment_plan(buf@).take(0) =~= Seq::<Seq<u8>>::empty());
                        assert(fragment_plan(buf@)[0].take(0) =~= Seq::<u8>::empty());
                    }
                    self.state = DetourState::Sending { frag, offset: 0, total: buf.len() };
                    assert(self.state.sent_bytes() =~= Seq::<u8>::empty());
                    WriteStep::Captured
                }
            },
            DetourState::Sending { frag, offset, .. } => {
                let cur: &Vec<u8> = &frag.frags[frag.index];
                let mut chunk: Vec<u8> = Vec::new();
                let mut i: usize = *offset;
                while i < cur.len()
                    invariant
                        *offset <= i <= cur@.len(),
                        chunk@ == cur@.subrange(*offset as int, i as int),
                    decreases cur@.len() - i,
                {
                    chunk.push(cur[i]);
                    assert(chunk@ =~= cur@.subrange(*offset as int, (i + 1) as int));
                    i = i + 1;
                }
                assert(chunk@ =~= self.state.pending_chunk());
                WriteStep::Chunk(chunk)
            },
        }
    }

    /// Record that the raw stream accepted `n` bytes of the chunk handed out
    /// by `write_begin`. Partial writes stay on the same fragment; a fully
    /// flushed fragment advances the cursor; flushing the last fragment
    /// returns to `Normal` and reports the original record length consumed.
    pub fn write_advance(&mut self, n: usize) -> (res: WriteOutcome)
        requires
            old(self).state.wf(),
            !old(self).state.is_normal(),
            n <= old(self).state.pending_chunk().len(),
        ensures
            final(self).sock == old(self).sock,
            final(self).state.wf(),
            res matches WriteOutcome::Done(consumed) ==> {
                &&& consumed == old(self).state.total()
                &&& final(self).state.is_normal()
                &&& old(self).state.sent_bytes() + old(self).state.pending_chunk()
                    == concat_bytes(old(self).state.plan())
                &&& n == old(self).state.pending_chunk().len()
            },
            res matches WriteOutcome::Pending ==> {
                &&& !final(self).state.is_normal()
                &&& final(self).state.plan() == old(self).state.plan()
                &&& final(self).state.total() == old(self).state.total()
                &&& final(self).state.sent_bytes() == old(self).state.sent_bytes()
                    + old(self).state.pending_chunk().take(n as int)
            },
            (res matches WriteOutcome::Done(_)) <==> (n == old(self).state.pending_chunk().len()
                && old(self).state.cursor() == old(self).state.plan().len() - 1),
    {
        let mut state = DetourState::Normal;
        core::mem::swap(&mut self.state, &mut state);
        match state {
            DetourState::Normal => {
                // Ruled out by the precondition: there is nothing to advance.
                assert(false);
                WriteOutcome::Pending
            },
            DetourState::Sending { frag, offset, total } => {
                let ghost pl = frag.plan();
                let ghost cur = frag.index as int;
                let fraglen = frag.frags[frag.index].len();
                let newoff = offset + n;
                if newoff < fraglen {
                    self.state = DetourState::Sending { frag, offset: newoff, total };
                    assert(self.state.sent_bytes() =~= concat_bytes(pl.take(cur))
                        + pl[cur].take(offset as int) + pl[cur].skip(offset as int).take(n as int));
                    WriteOutcome::Pending
                } else {
                    let mut frag = frag;
                    let more = frag.next();
                    proof {
                        lemma_concat_take_succ(pl, cur);
                        assert(pl[cur].take(offset as int) + pl[cur].skip(offset as int)
                            =~= pl[cur]);
                    }
                    if more {
                        self.state = DetourState::Sending { frag, offset: 0, total };
                        assert(self.state.sent_bytes() =~= concat_bytes(pl.take(cur))
                            + pl[cur].take(offset as int) + pl[cur].skip(offset as int).take(
                            n as int,
                        ));
                        WriteOutcome::Pending
                    } else {
                        assert(pl.take(cur + 1) =~= pl);
                        WriteOutcome::Done(total)
                    }
                }
            },
        }
    }

    /// The raw stream failed mid-replay (or mid-anything): the stream is
    /// considered broken, so drop any fragment state and return to `Normal`
    /// rather than resend stale bytes later.
    pub fn write_error(&mut self)
        ensures
            final(self).sock == old(self).sock,
            final(self).state.is_normal(),
    {
        self.state = DetourState::Normal;
    }
}

} // verus!
