//! Framing of records on a byte stream: each record is byte-stuffed so that
//! it holds no zero byte (consistent overhead byte stuffing) and is followed
//! by a single zero byte, the frame delimiter. A reader that joins a stream
//! mid-frame resynchronises at the next zero.
//!
//! Encoding is postcard's. Decoding is written here: postcard unstuffs only
//! inside its typed deserialisers (`from_bytes_cobs`, `CobsAccumulator`),
//! which need a serde type, while the reader below works on plain bytes and
//! leaves deserialisation to its caller.
use postcard::ser_flavors::{AllocVec, Cobs, Flavor};
use vstd::prelude::*;

verus! {

/// The end of the run of non-zero bytes of `p` that starts at `j`, cut at
/// 254 bytes.
pub open spec fn run_from(p: Seq<u8>, j: int) -> int
    decreases p.len() - j,
{
    if j < 0 || j >= 254 || j >= p.len() || p[j] == 0 {
        j
    } else {
        run_from(p, j + 1)
    }
}

/// The number of leading non-zero bytes of `p`, at most 254.
pub open spec fn run_len(p: Seq<u8>) -> int {
    run_from(p, 0)
}

pub proof fn lemma_run(p: Seq<u8>, j: int)
    requires
        0 <= j <= 254,
        j <= p.len(),
        forall|t: int| 0 <= t < j ==> p[t] != 0,
    ensures
        j <= run_from(p, j) <= 254,
        run_from(p, j) <= p.len(),
        forall|t: int| 0 <= t < run_from(p, j) ==> p[t] != 0,
        run_from(p, j) == p.len() || run_from(p, j) == 254 || p[run_from(p, j)] == 0,
    decreases p.len() - j,
{
    if !(j >= 254 || j >= p.len() || p[j] == 0) {
        lemma_run(p, j + 1);
    }
}

/// The byte-stuffed form of `p`: each run of up to 254 non-zero bytes is
/// preceded by one more than its length; a run that ends at a zero byte of
/// `p` stands for the run and that zero; a full run of 254 bytes (code 255)
/// stands for the run alone and is always followed by another block, empty
/// (code 1) at the end.
pub open spec fn cobs_encode(p: Seq<u8>) -> Seq<u8>
    decreases p.len(),
{
    let k = run_len(p);
    proof {
        lemma_run(p, 0);
    }
    if k >= 254 {
        seq![255u8] + p.take(254) + cobs_encode(p.skip(254))
    } else if k >= p.len() {
        seq![(k + 1) as u8] + p
    } else {
        seq![(k + 1) as u8] + p.take(k) + cobs_encode(p.skip(k + 1))
    }
}

pub open spec fn no_zero(s: Seq<u8>) -> bool {
    forall|t: int| 0 <= t < s.len() ==> s[t] != 0
}

/// The bytes that a stuffed sequence stands for, or none when it is not a
/// well-formed stuffed sequence.
pub open spec fn cobs_decode(e: Seq<u8>) -> Option<Seq<u8>>
    decreases e.len(),
{
    if e.len() == 0 {
        None
    } else {
        let c = e[0] as int;
        if c == 0 || c > e.len() || !no_zero(e.subrange(1, c)) {
            None
        } else if c == e.len() {
            Some(e.subrange(1, c))
        } else {
            match cobs_decode(e.skip(c)) {
                None => None,
                Some(rest) => Some(
                    e.subrange(1, c) + (if c < 255 { seq![0u8] } else { Seq::empty() }) + rest,
                ),
            }
        }
    }
}

/// A record framed for the wire: stuffed, then the zero delimiter.
pub open spec fn frame_of(p: Seq<u8>) -> Seq<u8> {
    cobs_encode(p).push(0u8)
}

/// The index of the first zero byte of `s`, or its length when it has none.
pub open spec fn first_zero(s: Seq<u8>) -> int
    decreases s.len(),
{
    if s.len() == 0 {
        0
    } else if s[0] == 0 {
        0
    } else {
        1 + first_zero(s.skip(1))
    }
}

/// The first record of a byte stream and the bytes after its delimiter, or
/// none when the stream holds no delimiter or the first frame is malformed.
pub open spec fn decode_first_frame(s: Seq<u8>) -> Option<(Seq<u8>, Seq<u8>)> {
    let z = first_zero(s);
    if z >= s.len() {
        None
    } else {
        match cobs_decode(s.take(z)) {
            None => None,
            Some(p) => Some((p, s.skip(z + 1))),
        }
    }
}

pub proof fn lemma_first_zero(s: Seq<u8>)
    ensures
        0 <= first_zero(s) <= s.len(),
        forall|t: int| 0 <= t < first_zero(s) ==> s[t] != 0,
        first_zero(s) < s.len() ==> s[first_zero(s)] == 0,
    decreases s.len(),
{
    if s.len() > 0 && s[0] != 0 {
        lemma_first_zero(s.skip(1));
        assert forall|t: int| 0 <= t < first_zero(s) implies s[t] != 0 by {
            if t > 0 {
                assert(s[t] == s.skip(1)[t - 1]);
            }
        }
        if first_zero(s) < s.len() {
            assert(s[first_zero(s)] == s.skip(1)[first_zero(s) - 1]);
        }
    }
}

pub proof fn lemma_first_zero_at(s: Seq<u8>, z: int)
    requires
        0 <= z < s.len(),
        s[z] == 0,
        forall|t: int| 0 <= t < z ==> s[t] != 0,
    ensures
        first_zero(s) == z,
    decreases s.len(),
{
    if z > 0 {
        assert forall|t: int| 0 <= t < z - 1 implies s.skip(1)[t] != 0 by {
            assert(s.skip(1)[t] == s[t + 1]);
        }
        lemma_first_zero_at(s.skip(1), z - 1);
    }
}

/// The stuffed form of a sequence is never empty and holds no zero byte.
pub proof fn lemma_encode_no_zero(p: Seq<u8>)
    ensures
        cobs_encode(p).len() >= 1,
        no_zero(cobs_encode(p)),
    decreases p.len(),
{
    let k = run_len(p);
    lemma_run(p, 0);
    let e = cobs_encode(p);
    if k >= 254 {
        let r = p.skip(254);
        lemma_encode_no_zero(r);
        assert forall|t: int| 0 <= t < e.len() implies e[t] != 0 by {
            if 1 <= t < 255 {
                assert(e[t] == p[t - 1]);
            } else if t >= 255 {
                assert(e[t] == cobs_encode(r)[t - 255]);
            }
        }
    } else if k >= p.len() {
        assert forall|t: int| 0 <= t < e.len() implies e[t] != 0 by {
            if t > 0 {
                assert(e[t] == p[t - 1]);
            }
        }
    } else {
        let r = p.skip(k + 1);
        lemma_encode_no_zero(r);
        assert forall|t: int| 0 <= t < e.len() implies e[t] != 0 by {
            if 1 <= t < k + 1 {
                assert(e[t] == p[t - 1]);
            } else if t >= k + 1 {
                assert(e[t] == cobs_encode(r)[t - k - 1]);
            }
        }
    }
}

/// Decoding undoes encoding.
pub proof fn lemma_decode_encode(p: Seq<u8>)
    ensures
        cobs_decode(cobs_encode(p)) == Some(p),
    decreases p.len(),
{
    let k = run_len(p);
    lemma_run(p, 0);
    let e = cobs_encode(p);
    if k >= 254 {
        let r = p.skip(254);
        lemma_decode_encode(r);
        lemma_encode_no_zero(r);
        assert(e.subrange(1, 255) =~= p.take(254));
        assert(e.skip(255) =~= cobs_encode(r));
        assert(p.take(254) + Seq::<u8>::empty() + r =~= p);
    } else if k >= p.len() {
        assert(e.subrange(1, k + 1) =~= p);
    } else {
        let r = p.skip(k + 1);
        lemma_decode_encode(r);
        lemma_encode_no_zero(r);
        assert(e.subrange(1, k + 1) =~= p.take(k));
        assert(e.skip(k + 1) =~= cobs_encode(r));
        assert(p.take(k) + seq![0u8] + r =~= p);
    }
}

/// Framing round trip: the first frame read from a framed record followed
/// by any bytes is that record, and what is left is exactly those bytes.
pub proof fn lemma_frame_round_trip(p: Seq<u8>, rest: Seq<u8>)
    ensures
        decode_first_frame(frame_of(p) + rest) == Some((p, rest)),
{
    let e = cobs_encode(p);
    let s = frame_of(p) + rest;
    lemma_encode_no_zero(p);
    lemma_decode_encode(p);
    assert forall|t: int| 0 <= t < e.len() implies s[t] != 0 by {
        assert(s[t] == e[t]);
    }
    assert(s[e.len() as int] == 0);
    lemma_first_zero_at(s, e.len() as int);
    assert(s.take(e.len() as int) =~= e);
    assert(s.skip(e.len() as int + 1) =~= rest);
}

/// Appends `src[from..to]` to `out`.
fn extend_from(out: &mut Vec<u8>, src: &[u8], from: usize, to: usize)
    requires
        from <= to <= src@.len(),
    ensures
        final(out)@ == old(out)@ + src@.subrange(from as int, to as int),
{
    let mut t: usize = from;
    while t < to
        invariant
            from <= t <= to <= src@.len(),
            out@ == old(out)@ + src@.subrange(from as int, t as int),
        decreases to - t,
    {
        out.push(src[t]);
        proof {
            assert(src@.subrange(from as int, t + 1) =~= src@.subrange(from as int, t as int).push(src@[t as int]));
        }
        t += 1;
    }
}

/// Relies on postcard's `ser_flavors::Cobs` over `ser_flavors::AllocVec`:
/// the bytes fed to it come out stuffed, each full run of 254 non-zero bytes
/// followed by a new block, then the zero delimiter. On an `AllocVec` no step
/// fails.
#[verifier::external_body]
fn postcard_cobs_frame(payload: &[u8]) -> (r: Vec<u8>)
    ensures
        r@ == frame_of(payload@),
{
    let mut flavor = match Cobs::try_new(AllocVec::new()) {
        Ok(f) => f,
        Err(_) => return Vec::new(),
    };
    if flavor.try_extend(payload).is_err() {
        return Vec::new();
    }
    flavor.finalize().unwrap_or_default()
}

/// Frames a record: stuffs it and appends the zero delimiter.
pub fn encode_frame(payload: &[u8]) -> (r: Vec<u8>)
    ensures
        r@ == frame_of(payload@),
{
    postcard_cobs_frame(payload)
}

pub open spec fn prefix_then(o: Seq<u8>, r: Option<Seq<u8>>) -> Option<Seq<u8>> {
    match r {
        None => None,
        Some(x) => Some(o + x),
    }
}

/// Unstuffs `e`: the bytes it stands for, or none when it is malformed.
pub fn cobs_decode_bytes(e: &[u8]) -> (r: Option<Vec<u8>>)
    ensures
        match r {
            Some(v) => cobs_decode(e@) == Some(v@),
            None => cobs_decode(e@) is None,
        },
{
    let n = e.len();
    if n == 0 {
        return None;
    }
    let mut out: Vec<u8> = Vec::new();
    let mut i: usize = 0;
    assert(e@.skip(0) =~= e@);
    assert(out@ + e@ =~= e@);
    while i < n
        invariant
            n == e@.len(),
            0 <= i < n,
            cobs_decode(e@) == prefix_then(out@, cobs_decode(e@.skip(i as int))),
        decreases n - i,
    {
        let ghost s = e@.skip(i as int);
        let c = e[i] as usize;
        assert(s[0] == e@[i as int]);
        if c == 0 || c > n - i {
            assert(cobs_decode(s) is None);
            return None;
        }
        let mut t: usize = 1;
        while t < c
            invariant
                n == e@.len(),
                0 <= i < n,
                1 <= c <= n - i,
                1 <= t <= c,
                s == e@.skip(i as int),
                s.len() == n - i,
                s[0] as int == c as int,
                cobs_decode(e@) == prefix_then(out@, cobs_decode(s)),
                forall|u: int| 1 <= u < t ==> s[u] != 0,
            decreases c - t,
        {
            if e[i + t] == 0 {
                proof {
                    assert(s[t as int] == e@[i + t]);
                    assert(s.subrange(1, c as int)[t - 1] == 0);
                    assert(!no_zero(s.subrange(1, c as int)));
                    assert(cobs_decode(s) is None);
                }
                return None;
            }
            t += 1;
        }
        proof {
            assert(no_zero(s.subrange(1, c as int)));
            assert(s.subrange(1, c as int) =~= e@.subrange(i + 1, i + c));
        }
        let ghost before = out@;
        extend_from(&mut out, e, i + 1, i + c);
        if c == n - i {
            return Some(out);
        }
        if c < 255 {
            out.push(0u8);
        }
        proof {
            assert(s.skip(c as int) =~= e@.skip(i + c));
            let sep = if c < 255 { seq![0u8] } else { Seq::<u8>::empty() };
            assert(out@ =~= before + s.subrange(1, c as int) + sep);
            match cobs_decode(e@.skip(i + c)) {
                None => {},
                Some(rest) => {
                    assert(before + (s.subrange(1, c as int) + sep + rest) =~= out@ + rest);
                },
            }
        }
        i = i + c;
    }
    None
}

/// What feeding bytes to a frame accumulator gave, over plain sequences.
pub enum FeedView {
    Consumed,
    OverFull(Seq<u8>),
    Corrupt(Seq<u8>),
    Frame(Seq<u8>, Seq<u8>),
}

/// What feeding bytes to a frame accumulator gave.
pub enum FeedResult {
    /// Every byte was taken in; no frame is complete yet.
    Consumed,
    /// A frame did not fit in the accumulator and was dropped; these bytes
    /// of the input were not looked at.
    OverFull(Vec<u8>),
    /// A complete frame was malformed and was dropped; these bytes of the
    /// input follow its delimiter.
    Corrupt(Vec<u8>),
    /// A complete frame: the record it held and the bytes of the input that
    /// follow its delimiter.
    Frame { payload: Vec<u8>, remaining: Vec<u8> },
}

impl View for FeedResult {
    type V = FeedView;

    open spec fn view(&self) -> FeedView {
        match self {
            FeedResult::Consumed => FeedView::Consumed,
            FeedResult::OverFull(rest) => FeedView::OverFull(rest@),
            FeedResult::Corrupt(rest) => FeedView::Corrupt(rest@),
            FeedResult::Frame { payload, remaining } => FeedView::Frame(payload@, remaining@),
        }
    }
}

/// The accumulator's contents and the result after feeding `input` to an
/// accumulator holding `buf` with room for `capacity` bytes.
pub open spec fn feed_spec(buf: Seq<u8>, capacity: int, input: Seq<u8>) -> (Seq<u8>, FeedView) {
    let z = first_zero(input);
    if input.len() == 0 {
        (buf, FeedView::Consumed)
    } else if z < input.len() {
        if buf.len() + z + 1 <= capacity {
            match cobs_decode(buf + input.take(z)) {
                Some(p) => (Seq::empty(), FeedView::Frame(p, input.skip(z + 1))),
                None => (Seq::empty(), FeedView::Corrupt(input.skip(z + 1))),
            }
        } else {
            (Seq::empty(), FeedView::OverFull(input.skip(z + 1)))
        }
    } else if buf.len() + input.len() > capacity {
        (Seq::empty(), FeedView::OverFull(input.skip(capacity - buf.len())))
    } else {
        (buf + input, FeedView::Consumed)
    }
}

/// A rolling accumulator that collects the bytes of a stream until a frame
/// is complete. It holds at most `capacity` bytes, the delimiter included.
pub struct FrameAccumulator {
    buf: Vec<u8>,
    capacity: usize,
}

impl FrameAccumulator {
    /// The bytes of the frame being collected.
    pub closed spec fn buffered(&self) -> Seq<u8> {
        self.buf@
    }

    pub closed spec fn capacity_view(&self) -> int {
        self.capacity as int
    }

    pub closed spec fn wf(&self) -> bool {
        self.buf@.len() <= self.capacity
    }

    pub fn new(capacity: usize) -> (r: FrameAccumulator)
        ensures
            r.wf(),
            r.buffered() == Seq::<u8>::empty(),
            r.capacity_view() == capacity,
    {
        FrameAccumulator { buf: Vec::new(), capacity }
    }

    /// Takes in bytes of the stream, up to and including the first
    /// delimiter among them.
    pub fn feed(&mut self, input: &[u8]) -> (r: FeedResult)
        requires
            old(self).wf(),
        ensures
            final(self).wf(),
            final(self).capacity_view() == old(self).capacity_view(),
            (final(self).buffered(), r@) == feed_spec(old(self).buffered(), old(self).capacity_view(), input@),
    {
        let n = input.len();
        if n == 0 {
            return FeedResult::Consumed;
        }
        let mut z: usize = 0;
        while z < n && input[z] != 0
            invariant
                n == input@.len(),
                0 <= z <= n,
                forall|t: int| 0 <= t < z ==> input@[t] != 0,
            decreases n - z,
        {
            z += 1;
        }
        proof {
            if z < n {
                lemma_first_zero_at(input@, z as int);
            } else {
                lemma_first_zero(input@);
                if first_zero(input@) < n {
                    assert(input@[first_zero(input@)] == 0);
                }
            }
        }
        let mut rest: Vec<u8> = Vec::new();
        if z < n {
            extend_from(&mut rest, input, z + 1, n);
            assert(rest@ =~= input@.skip(z + 1));
            if z + 1 <= self.capacity - self.buf.len() {
                extend_from(&mut self.buf, input, 0, z);
                let decoded = cobs_decode_bytes(self.buf.as_slice());
                self.buf = Vec::new();
                match decoded {
                    Some(payload) => FeedResult::Frame { payload, remaining: rest },
                    None => FeedResult::Corrupt(rest),
                }
            } else {
                self.buf = Vec::new();
                FeedResult::OverFull(rest)
            }
        } else if n > self.capacity - self.buf.len() {
            let start = self.capacity - self.buf.len();
            extend_from(&mut rest, input, start, n);
            assert(rest@ =~= input@.skip(start as int));
            self.buf = Vec::new();
            FeedResult::OverFull(rest)
        } else {
            extend_from(&mut self.buf, input, 0, n);
            assert(input@.subrange(0, n as int) =~= input@);
            FeedResult::Consumed
        }
    }
}

/// Reading a framed record followed by any bytes through an empty
/// accumulator with room for the frame yields the record, and what is left
/// is exactly the bytes that followed.
pub proof fn lemma_feed_round_trip(p: Seq<u8>, rest: Seq<u8>, capacity: int)
    requires
        frame_of(p).len() <= capacity,
    ensures
        feed_spec(Seq::empty(), capacity, frame_of(p) + rest) == (Seq::<u8>::empty(), FeedView::Frame(p, rest)),
{
    let e = cobs_encode(p);
    let s = frame_of(p) + rest;
    lemma_encode_no_zero(p);
    lemma_decode_encode(p);
    assert forall|t: int| 0 <= t < e.len() implies s[t] != 0 by {
        assert(s[t] == e[t]);
    }
    assert(s[e.len() as int] == 0);
    lemma_first_zero_at(s, e.len() as int);
    assert(Seq::<u8>::empty() + s.take(e.len() as int) =~= e);
    assert(s.skip(e.len() as int + 1) =~= rest);
}

} // verus!
