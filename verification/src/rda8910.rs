//! RDA8910 / UIS8910DM (Air724UG) download protocol: HDLC-escaped FDL
//! frames guarded by a 16-bit word checksum, the PDL frames of the ROM
//! stage, and the private PAC firmware container.

use vstd::prelude::*;
use crate::bytes::{be_u16_at, contains_run, find_run, le_u32_at, push_u32_be, read_u32_le, u32_be, le_u16_at, push_all, push_u16_be, push_u16_le, push_u32_le, read_u16_be, read_u16_le, u16_be, u16_le, u32_le};
use crate::ccm4211::opt_seq;
use crate::ports::{
    accepts, filter_accepts, find_port_by_vid_pid, has_port_named, is_first, name_views, names_where, none_match,
    port_names_where, port_type_is, port_type_is_at, usb_is, usb_is_at, PortFilter, SerialPortInfo, SerialPortType,
};
use crate::checksum::{fdl_checksum_spec, lemma_word_sum_fits, word_sum_from};

pub use crate::checksum::fdl_checksum;

verus! {

pub const HDLC_FLAG: u8 = 0x7E;
pub const HDLC_ESCAPE: u8 = 0x7D;
pub const HDLC_ESCAPE_MASK: u8 = 0x20;

pub const BSL_CMD_CONNECT: u16 = 0x00;
pub const BSL_CMD_START_DATA: u16 = 0x01;
pub const BSL_CMD_MIDST_DATA: u16 = 0x02;
pub const BSL_CMD_END_DATA: u16 = 0x03;
pub const BSL_CMD_EXEC_DATA: u16 = 0x04;
pub const BSL_CMD_NORMAL_RESET: u16 = 0x05;
pub const BSL_CMD_CHANGE_BAUD: u16 = 0x09;

pub const BSL_REP_ACK: u16 = 0x80;
pub const BSL_REP_VER: u16 = 0x81;
pub const BSL_REP_INVALID_CMD: u16 = 0x82;
pub const BSL_REP_OPERATION_FAILED: u16 = 0x84;
pub const BSL_REP_NOT_SUPPORT_BAUDRATE: u16 = 0x85;
pub const BSL_REP_DOWN_NOT_START: u16 = 0x86;
pub const BSL_REP_DOWN_DEST_ERROR: u16 = 0x89;
pub const BSL_REP_DOWN_SIZE_ERROR: u16 = 0x8A;
pub const BSL_REP_VERIFY_ERROR: u16 = 0x8B;
pub const BSL_REP_SEC_VERIFY_ERROR: u16 = 0xAA;

/// The unescaped FDL packet before its checksum: type and size big endian,
/// then the data.
pub open spec fn fdl_body(pkt_type: u16, data: Seq<u8>) -> Seq<u8> {
    u16_be(pkt_type) + u16_be(data.len() as u16) + data
}

/// The unescaped FDL packet with its little-endian checksum appended.
pub open spec fn fdl_packet(pkt_type: u16, data: Seq<u8>) -> Seq<u8> {
    fdl_body(pkt_type, data) + u16_le(fdl_checksum_spec(fdl_body(pkt_type, data)))
}

/// The checksum of the packet can be computed without overflow.
pub open spec fn fdl_fits(pkt_type: u16, data: Seq<u8>) -> bool {
    word_sum_from(fdl_body(pkt_type, data), 0) <= u32::MAX
}

/// HDLC escaping of one byte.
pub open spec fn hdlc_escape_byte(b: u8) -> Seq<u8> {
    if b == HDLC_FLAG || b == HDLC_ESCAPE {
        seq![HDLC_ESCAPE, b ^ HDLC_ESCAPE_MASK]
    } else {
        seq![b]
    }
}

/// HDLC escaping of a byte sequence.
pub open spec fn hdlc_escape(s: Seq<u8>) -> Seq<u8>
    decreases s.len(),
{
    if s.len() == 0 {
        seq![]
    } else {
        hdlc_escape(s.drop_last()) + hdlc_escape_byte(s.last())
    }
}

/// An FDL frame without its closing flag.
pub open spec fn fdl_frame_no_tail_spec(pkt_type: u16, data: Seq<u8>) -> Seq<u8> {
    seq![HDLC_FLAG] + hdlc_escape(fdl_packet(pkt_type, data))
}

/// A complete FDL frame.
pub open spec fn fdl_frame_spec(pkt_type: u16, data: Seq<u8>) -> Seq<u8> {
    fdl_frame_no_tail_spec(pkt_type, data) + seq![HDLC_FLAG]
}

/// Any packet of at most 131068 data bytes has a checksum that fits
/// (the sum of its 16-bit words stays below 2^32).
pub proof fn lemma_fdl_fits_small(pkt_type: u16, data: Seq<u8>)
    requires
        data.len() <= 131068,
    ensures
        fdl_fits(pkt_type, data),
{
    lemma_word_sum_fits(fdl_body(pkt_type, data));
}

/// Builds an FDL frame without the closing 0x7E: type and size big endian,
/// data, checksum little endian, all HDLC-escaped after an opening 0x7E.
pub fn fdl_frame_no_tail(pkt_type: u16, data: &[u8]) -> (frame: Vec<u8>)
    requires
        fdl_fits(pkt_type, data@),
    ensures
        frame@ == fdl_frame_no_tail_spec(pkt_type, data@),
{
    let mut body: Vec<u8> = Vec::new();
    push_u16_be(&mut body, pkt_type);
    push_u16_be(&mut body, data.len() as u16);
    push_all(&mut body, data);
    assert(body@ =~= fdl_body(pkt_type, data@));
    let crc = fdl_checksum(body.as_slice());
    push_u16_le(&mut body, crc);
    let mut frame: Vec<u8> = Vec::new();
    frame.push(HDLC_FLAG);
    let mut i: usize = 0;
    while i < body.len()
        invariant
            i <= body@.len(),
            body@ == fdl_packet(pkt_type, data@),
            frame@ == seq![HDLC_FLAG] + hdlc_escape(body@.subrange(0, i as int)),
        decreases body@.len() - i,
    {
        let b = body[i];
        if b == HDLC_FLAG || b == HDLC_ESCAPE {
            frame.push(HDLC_ESCAPE);
            frame.push(b ^ HDLC_ESCAPE_MASK);
        } else {
            frame.push(b);
        }
        proof {
            let s = body@.subrange(0, i as int + 1);
            assert(s.drop_last() =~= body@.subrange(0, i as int));
        }
        i = i + 1;
        assert(frame@ =~= seq![HDLC_FLAG] + hdlc_escape(body@.subrange(0, i as int)));
    }
    assert(body@.subrange(0, body@.len() as int) =~= body@);
    frame
}

/// Builds a complete FDL frame (opening and closing 0x7E).
pub fn fdl_frame(pkt_type: u16, data: &[u8]) -> (frame: Vec<u8>)
    requires
        fdl_fits(pkt_type, data@),
    ensures
        frame@ == fdl_frame_spec(pkt_type, data@),
{
    let mut frame = fdl_frame_no_tail(pkt_type, data);
    frame.push(HDLC_FLAG);
    frame
}

/// State of the byte-wise FDL receiver.
#[derive(PartialEq, Eq, Structural, Clone, Copy)]
pub enum RxState {
    Start,
    Run,
    Escape,
    End,
}

/// Receiver state as plain values: (state, unescaped bytes so far).
pub type HdlcRx = (RxState, Seq<u8>);

/// A received packet as plain values: (type, data).
pub type FdlPacket = (u16, Seq<u8>);

/// After a byte was stored: the packet is complete once the buffer holds
/// the 4-byte head, `size` data bytes and the 2-byte checksum.
pub open spec fn hdlc_after_byte(state: RxState, buf: Seq<u8>) -> HdlcRx {
    if buf.len() >= 6 && buf.len() == 6 + be_u16_at(buf, 2) {
        (RxState::End, buf)
    } else {
        (state, buf)
    }
}

/// A complete packet: its type and data when the checksum matches.
pub open spec fn hdlc_finish(buf: Seq<u8>) -> Option<FdlPacket> {
    if buf.len() < 6 {
        None
    } else if fdl_checksum_spec(buf.subrange(0, buf.len() - 2)) != le_u16_at(buf, buf.len() - 2) {
        None
    } else {
        Some((be_u16_at(buf, 0), buf.subrange(4, 4 + be_u16_at(buf, 2))))
    }
}

/// One received byte.
pub open spec fn hdlc_step(st: HdlcRx, b: u8) -> (HdlcRx, Option<FdlPacket>) {
    let buf = st.1;
    match st.0 {
        RxState::Start => if b == HDLC_FLAG {
            ((RxState::Run, seq![]), None)
        } else {
            (st, None)
        },
        RxState::End => if b == HDLC_FLAG {
            ((RxState::Run, seq![]), hdlc_finish(buf))
        } else {
            ((RxState::Start, buf), None)
        },
        RxState::Run => if b == HDLC_FLAG {
            ((RxState::Run, seq![]), None)
        } else if b == HDLC_ESCAPE {
            ((RxState::Escape, buf), None)
        } else {
            (hdlc_after_byte(RxState::Run, buf.push(b)), None)
        },
        RxState::Escape => (hdlc_after_byte(RxState::Run, buf.push(b ^ HDLC_ESCAPE_MASK)), None),
    }
}

/// Reachable receiver states: the buffer never outgrows its packet.
pub open spec fn hdlc_wf(st: HdlcRx) -> bool {
    &&& st.1.len() <= 65541
    &&& (st.0 == RxState::Run || st.0 == RxState::Escape) ==> (st.1.len() < 6 || st.1.len() < 6
        + be_u16_at(st.1, 2))
    &&& st.0 == RxState::End ==> st.1.len() >= 6 && st.1.len() == 6 + be_u16_at(st.1, 2)
}

/// Feeding a byte sequence: the final state and the packets, in order.
pub open spec fn hdlc_feed(st: HdlcRx, data: Seq<u8>) -> (HdlcRx, Seq<FdlPacket>)
    decreases data.len(),
{
    if data.len() == 0 {
        (st, seq![])
    } else {
        let prev = hdlc_feed(st, data.drop_last());
        let next = hdlc_step(prev.0, data.last());
        (next.0, prev.1 + opt_seq(next.1))
    }
}

/// Every step of the receiver keeps its state well formed.
pub proof fn lemma_hdlc_step_wf(st: HdlcRx, b: u8)
    requires
        hdlc_wf(st),
    ensures
        hdlc_wf(hdlc_step(st, b).0),
{
    let buf = st.1;
    if st.0 == RxState::Run || st.0 == RxState::Escape {
        let nb = buf.push(if st.0 == RxState::Run { b } else { b ^ HDLC_ESCAPE_MASK });
        if buf.len() >= 6 {
            assert(nb[2] == buf[2] && nb[3] == buf[3]);
        }
        assert(be_u16_at(nb, 2) <= 65535);
    }
}

/// Byte-wise FDL receiver (mirrors the chip's `fdlEngineProcess`).
pub struct HdlcReceiver {
    state: RxState,
    buf: Vec<u8>,
}

impl HdlcReceiver {
    /// The receiver state as plain values.
    pub closed spec fn model(&self) -> HdlcRx {
        (self.state, self.buf@)
    }

    pub fn new() -> (r: Self)
        ensures
            r.model() == (RxState::Start, Seq::<u8>::empty()),
            hdlc_wf(r.model()),
    {
        let r = Self { state: RxState::Start, buf: Vec::new() };
        assert(r.buf@ =~= Seq::<u8>::empty());
        r
    }

    /// Feeds one byte; returns the packet type and data once a complete
    /// packet with a matching checksum has been closed by 0x7E.
    pub fn feed(&mut self, b: u8) -> (r: Option<(u16, Vec<u8>)>)
        requires
            hdlc_wf(old(self).model()),
        ensures
            final(self).model() == hdlc_step(old(self).model(), b).0,
            hdlc_wf(final(self).model()),
            match r {
                Some(p) => hdlc_step(old(self).model(), b).1 == Some((p.0, p.1@)),
                None => hdlc_step(old(self).model(), b).1 is None,
            },
    {
        proof {
            lemma_hdlc_step_wf(self.model(), b);
        }
        match self.state {
            RxState::Start => {
                if b == HDLC_FLAG {
                    self.state = RxState::Run;
                    self.buf.clear();
                }
            },
            RxState::End => {
                if b == HDLC_FLAG {
                    let result = self.finish_packet();
                    self.state = RxState::Run;
                    self.buf.clear();
                    return result;
                }
                self.state = RxState::Start;
            },
            RxState::Run => {
                if b == HDLC_FLAG {
                    self.buf.clear();
                } else if b == HDLC_ESCAPE {
                    self.state = RxState::Escape;
                } else {
                    self.buf.push(b);
                    self.after_byte();
                }
            },
            RxState::Escape => {
                self.buf.push(b ^ HDLC_ESCAPE_MASK);
                self.state = RxState::Run;
                self.after_byte();
            },
        }
        None
    }

    /// Enters End once the buffer holds head, data and checksum.
    fn after_byte(&mut self)
        ensures
            final(self).model() == hdlc_after_byte(old(self).model().0, old(self).model().1),
    {
        if self.buf.len() >= 6 {
            let size = read_u16_be(self.buf.as_slice(), 2) as usize;
            if self.buf.len() == 4 + size + 2 {
                self.state = RxState::End;
            }
        }
    }

    /// Checks and extracts a complete packet.
    fn finish_packet(&self) -> (r: Option<(u16, Vec<u8>)>)
        requires
            hdlc_wf(self.model()),
            self.model().0 == RxState::End,
        ensures
            match r {
                Some(p) => hdlc_finish(self.model().1) == Some((p.0, p.1@)),
                None => hdlc_finish(self.model().1) is None,
            },
    {
        let len = self.buf.len();
        if len < 6 {
            return None;
        }
        let data = self.buf.as_slice();
        let got = read_u16_le(data, len - 2);
        proof {
            lemma_word_sum_fits(data@.subrange(0, len - 2));
        }
        if fdl_checksum(&data[0..len - 2]) != got {
            return None;
        }
        let pkt_type = read_u16_be(data, 0);
        let size = read_u16_be(data, 2) as usize;
        let mut d: Vec<u8> = Vec::new();
        push_all(&mut d, &data[4..4 + size]);
        Some((pkt_type, d))
    }
}


/// Feeding a stream in two pieces gives the same final state and the same
/// packets, in order, as feeding it at once.
pub proof fn lemma_hdlc_feed_append(st: HdlcRx, a: Seq<u8>, b: Seq<u8>)
    ensures
        hdlc_feed(st, a + b) == (
            hdlc_feed(hdlc_feed(st, a).0, b).0,
            hdlc_feed(st, a).1 + hdlc_feed(hdlc_feed(st, a).0, b).1,
        ),
    decreases b.len(),
{
    if b.len() == 0 {
        assert(a + b =~= a);
        assert(hdlc_feed(st, a).1 + hdlc_feed(hdlc_feed(st, a).0, b).1 =~= hdlc_feed(st, a).1);
    } else {
        lemma_hdlc_feed_append(st, a, b.drop_last());
        assert((a + b).drop_last() =~= a + b.drop_last());
        assert((a + b).last() == b.last());
        let mid = hdlc_feed(st, a);
        let x = hdlc_feed(mid.0, b.drop_last());
        let y = hdlc_step(x.0, b.last());
        assert(hdlc_feed(st, a + b).1 =~= (mid.1 + x.1) + opt_seq(y.1));
        assert(hdlc_feed(mid.0, b).1 =~= x.1 + opt_seq(y.1));
        assert((mid.1 + x.1) + opt_seq(y.1) =~= mid.1 + (x.1 + opt_seq(y.1)));
    }
}

proof fn lemma_hdlc_feed_one(st: HdlcRx, x: u8)
    ensures
        hdlc_feed(st, seq![x]) == (hdlc_step(st, x).0, opt_seq(hdlc_step(st, x).1)),
{
    assert(seq![x].drop_last() =~= Seq::<u8>::empty());
    assert(seq![x].last() == x);
    assert(hdlc_feed(st, Seq::<u8>::empty()) == (st, Seq::<FdlPacket>::empty()));
    assert(Seq::<FdlPacket>::empty() + opt_seq(hdlc_step(st, x).1) =~= opt_seq(hdlc_step(st, x).1));
}

proof fn lemma_hdlc_feed_two(st: HdlcRx, x: u8, y: u8)
    ensures
        hdlc_feed(st, seq![x, y]) == (
            hdlc_step(hdlc_step(st, x).0, y).0,
            opt_seq(hdlc_step(st, x).1) + opt_seq(hdlc_step(hdlc_step(st, x).0, y).1),
        ),
{
    assert(seq![x, y].drop_last() =~= seq![x]);
    assert(seq![x, y].last() == y);
    lemma_hdlc_feed_one(st, x);
}

/// Inside a frame, the escaped first `j` bytes of a packet leave exactly
/// those bytes in the buffer; the receiver enters End with the last byte.
proof fn lemma_hdlc_feed_prefix(p: Seq<u8>, j: int)
    requires
        p.len() >= 6,
        p.len() == 6 + be_u16_at(p, 2),
        0 <= j <= p.len(),
    ensures
        hdlc_feed((RxState::Run, Seq::<u8>::empty()), hdlc_escape(p.subrange(0, j))) == (
            (if j < p.len() { RxState::Run } else { RxState::End }, p.subrange(0, j)),
            Seq::<FdlPacket>::empty(),
        ),
    decreases j,
{
    let st0: HdlcRx = (RxState::Run, Seq::<u8>::empty());
    if j == 0 {
        assert(p.subrange(0, 0) =~= Seq::<u8>::empty());
        assert(hdlc_escape(Seq::<u8>::empty()) =~= Seq::<u8>::empty());
    } else {
        lemma_hdlc_feed_prefix(p, j - 1);
        let q = p.subrange(0, j - 1);
        let b = p[j - 1];
        assert(p.subrange(0, j).drop_last() =~= q);
        assert(p.subrange(0, j).last() == b);
        lemma_hdlc_feed_append(st0, hdlc_escape(q), hdlc_escape_byte(b));
        let st: HdlcRx = (RxState::Run, q);
        let nq = q.push(b);
        assert(nq =~= p.subrange(0, j));
        if nq.len() >= 6 {
            assert(nq[2] == p[2] && nq[3] == p[3]);
        }
        if b == HDLC_FLAG || b == HDLC_ESCAPE {
            lemma_hdlc_feed_two(st, HDLC_ESCAPE, b ^ HDLC_ESCAPE_MASK);
            assert((b ^ 0x20u8) ^ 0x20u8 == b) by (bit_vector);
        } else {
            lemma_hdlc_feed_one(st, b);
        }
        assert(Seq::<FdlPacket>::empty() + Seq::<FdlPacket>::empty() =~= Seq::<FdlPacket>::empty());
    }
}

/// A frame built by `fdl_frame`, fed byte by byte to a fresh receiver,
/// yields exactly one packet carrying the type and data it was built from.
pub proof fn lemma_fdl_frame_roundtrip(pkt_type: u16, data: Seq<u8>)
    requires
        data.len() <= 65535,
    ensures
        hdlc_feed((RxState::Start, Seq::<u8>::empty()), fdl_frame_spec(pkt_type, data)) == (
            (RxState::Run, Seq::<u8>::empty()),
            seq![(pkt_type, data)],
        ),
        hdlc_feed((RxState::Start, Seq::<u8>::empty()), fdl_frame_no_tail_spec(pkt_type, data)).1 == Seq::<
            FdlPacket,
        >::empty(),
{
    lemma_fdl_fits_small(pkt_type, data);
    let body = fdl_body(pkt_type, data);
    let cs = fdl_checksum_spec(body);
    let p = fdl_packet(pkt_type, data);
    let n = p.len();
    let fresh: HdlcRx = (RxState::Start, Seq::<u8>::empty());
    let run0: HdlcRx = (RxState::Run, Seq::<u8>::empty());
    crate::bytes::lemma_u16_le_roundtrip(pkt_type);
    crate::bytes::lemma_u16_le_roundtrip(data.len() as u16);
    crate::bytes::lemma_u16_le_roundtrip(cs);
    assert(p[0] == u16_be(pkt_type)[0] && p[1] == u16_be(pkt_type)[1]);
    assert(p[2] == u16_be(data.len() as u16)[0] && p[3] == u16_be(data.len() as u16)[1]);
    assert(be_u16_at(p, 0) == pkt_type);
    assert(be_u16_at(p, 2) == data.len());
    assert(n == 6 + data.len());
    // opening flag
    lemma_hdlc_feed_one(fresh, HDLC_FLAG);
    // escaped packet
    lemma_hdlc_feed_prefix(p, n as int);
    assert(p.subrange(0, n as int) =~= p);
    lemma_hdlc_feed_append(fresh, seq![HDLC_FLAG], hdlc_escape(p));
    assert(Seq::<FdlPacket>::empty() + Seq::<FdlPacket>::empty() =~= Seq::<FdlPacket>::empty());
    let a = fdl_frame_no_tail_spec(pkt_type, data);
    assert(hdlc_feed(fresh, a) == ((RxState::End, p), Seq::<FdlPacket>::empty()));
    // closing flag
    lemma_hdlc_feed_one((RxState::End, p), HDLC_FLAG);
    lemma_hdlc_feed_append(fresh, a, seq![HDLC_FLAG]);
    // the packet checks and parses back
    assert(p.subrange(0, n - 2) =~= body);
    assert(p[n - 2] == u16_le(cs)[0] && p[n - 1] == u16_le(cs)[1]);
    assert(le_u16_at(p, n - 2) == cs);
    assert(p.subrange(4, 4 + be_u16_at(p, 2)) =~= data);
    assert(hdlc_finish(p) == Some((pkt_type, data)));
    assert(Seq::<FdlPacket>::empty() + seq![(pkt_type, data)] =~= seq![(pkt_type, data)]);
}


proof fn lemma_feed_count_monotone(st: HdlcRx, s: Seq<u8>, k: int, m: int)
    requires
        0 <= k <= m <= s.len(),
    ensures
        hdlc_feed(st, s.take(k)).1.len() <= hdlc_feed(st, s.take(m)).1.len(),
    decreases m - k,
{
    if k < m {
        lemma_feed_count_monotone(st, s, k, m - 1);
        assert(s.take(m).drop_last() =~= s.take(m - 1));
    }
}

/// A frame built by `fdl_frame`, fed byte by byte to a fresh receiver:
/// no byte before the closing flag completes a packet, and the closing
/// flag completes the packet with the type and data the frame was built
/// from.
pub proof fn lemma_fdl_frame_bytewise(pkt_type: u16, data: Seq<u8>)
    requires
        data.len() <= 65535,
    ensures
        ({
            let f = fdl_frame_spec(pkt_type, data);
            let fresh: HdlcRx = (RxState::Start, Seq::<u8>::empty());
            &&& forall|k: int|
                0 <= k < f.len() - 1 ==> (#[trigger] hdlc_step(hdlc_feed(fresh, f.take(k)).0, f[k])).1 is None
            &&& hdlc_step(hdlc_feed(fresh, f.take(f.len() - 1)).0, f[f.len() - 1]).1 == Some((pkt_type, data))
        }),
{
    let f = fdl_frame_spec(pkt_type, data);
    let a = fdl_frame_no_tail_spec(pkt_type, data);
    let fresh: HdlcRx = (RxState::Start, Seq::<u8>::empty());
    lemma_fdl_frame_roundtrip(pkt_type, data);
    let n = f.len();
    assert(f.take(n - 1) =~= a);
    assert(f.take(n as int) =~= f);
    assert(f.drop_last() =~= a);
    let last = hdlc_step(hdlc_feed(fresh, a).0, f[n - 1]);
    assert(hdlc_feed(fresh, f).1 == hdlc_feed(fresh, a).1 + opt_seq(last.1));
    assert(Seq::<FdlPacket>::empty() + opt_seq(last.1) =~= opt_seq(last.1));
    assert(opt_seq(last.1) == seq![(pkt_type, data)]);
    match last.1 {
        Some(x) => {
            assert(seq![x][0] == seq![(pkt_type, data)][0]);
        },
        None => {
            assert(Seq::<FdlPacket>::empty().len() == 0);
        },
    }
    assert(last.1 == Some((pkt_type, data)));
    assert forall|k: int| 0 <= k < n - 1 implies (#[trigger] hdlc_step(hdlc_feed(fresh, f.take(k)).0, f[k])).1 is None by {
        lemma_feed_count_monotone(fresh, f, k + 1, n - 1);
        assert(f.take(k + 1).drop_last() =~= f.take(k));
        assert(f.take(k + 1).last() == f[k]);
    }
}

/// Diagnostic text of a reply code.
pub open spec fn reply_text(code: u16) -> &'static str {
    if code == BSL_REP_ACK {
        "ACK 成功"
    } else if code == BSL_REP_VER {
        "版本应答"
    } else if code == BSL_REP_INVALID_CMD {
        "无效指令"
    } else if code == BSL_REP_OPERATION_FAILED {
        "操作失败"
    } else if code == BSL_REP_NOT_SUPPORT_BAUDRATE {
        "波特率不支持"
    } else if code == BSL_REP_DOWN_NOT_START {
        "未开始下载"
    } else if code == BSL_REP_DOWN_DEST_ERROR {
        "目标地址错误"
    } else if code == BSL_REP_DOWN_SIZE_ERROR {
        "下载大小超限"
    } else if code == BSL_REP_VERIFY_ERROR {
        "数据校验错误"
    } else if code == BSL_REP_SEC_VERIFY_ERROR {
        "安全启动校验失败"
    } else {
        "未知应答"
    }
}

/// Human-readable description of a reply code (for diagnostics).
pub fn describe_reply(code: u16) -> (r: &'static str)
    ensures
        r == reply_text(code),
{
    if code == BSL_REP_ACK {
        "ACK 成功"
    } else if code == BSL_REP_VER {
        "版本应答"
    } else if code == BSL_REP_INVALID_CMD {
        "无效指令"
    } else if code == BSL_REP_OPERATION_FAILED {
        "操作失败"
    } else if code == BSL_REP_NOT_SUPPORT_BAUDRATE {
        "波特率不支持"
    } else if code == BSL_REP_DOWN_NOT_START {
        "未开始下载"
    } else if code == BSL_REP_DOWN_DEST_ERROR {
        "目标地址错误"
    } else if code == BSL_REP_DOWN_SIZE_ERROR {
        "下载大小超限"
    } else if code == BSL_REP_VERIFY_ERROR {
        "数据校验错误"
    } else if code == BSL_REP_SEC_VERIFY_ERROR {
        "安全启动校验失败"
    } else {
        "未知应答"
    }
}

/// Has an AT port answered "OK" somewhere in `acc`?
pub fn at_ok_received(acc: &[u8]) -> (r: bool)
    ensures
        r == contains_run(acc@, seq![0x4Fu8, 0x4Bu8]),
{
    let ok: [u8; 2] = [0x4F, 0x4B];
    assert(ok@ =~= seq![0x4Fu8, 0x4Bu8]);
    find_run(acc, &ok)
}


pub const INIT_BAUD: u32 = 115200;
/// Baud rate value sent with FDL CHANGE_BAUD.
pub const FDL_CHANGE_BAUD: u32 = 4000000;
/// Base of the SPI NOR flash: physical address = base + partition offset.
pub const SPI_FLASH_BASE: u32 = 0x6000_0000;
pub const FDL1_RAM_ADDR: u32 = 0x8000C0;
pub const FDL2_RAM_ADDR: u32 = 0x810000;
/// Payload length of one PDL MID_DATA packet (ROM to FDL1).
pub const PDL_CHUNK_LEN: usize = 2048;
/// Payload length of one MIDST packet while loading FDL2.
pub const FDL2_PACKET_LEN: usize = 0x210;
/// Payload length of one MIDST packet while writing flash.
pub const FLASH_PACKET_LEN: usize = 0x3000;

pub const LOGIC_ERASE_NV: u32 = 0xFE000001;
pub const LOGIC_PHASECHECK: u32 = 0xFE000002;
pub const LOGIC_FIXED_NV: u32 = 0xFE000003;
pub const LOGIC_PREPACK: u32 = 0xFE000004;

pub const PDL_TAG: u8 = 0xAE;
pub const PDL_FLOWID: u8 = 0xFF;
pub const PDL_CMD_CONNECT: u32 = 0;
pub const PDL_CMD_START_DATA: u32 = 4;
pub const PDL_CMD_MID_DATA: u32 = 5;
pub const PDL_CMD_END_DATA: u32 = 6;
pub const PDL_CMD_EXEC_DATA: u32 = 7;
pub const PDL_RESP_ACK: u32 = 0;

/// PDL frame header: tag, payload length little endian, flow id, two zeros.
pub open spec fn pdl_header_spec(payload_len: u32) -> Seq<u8> {
    seq![PDL_TAG] + u32_le(payload_len) + seq![PDL_FLOWID, 0u8, 0u8]
}

/// Builds a PDL frame header (sent in a USB write of its own).
pub fn pdl_header(payload_len: u32) -> (h: Vec<u8>)
    ensures
        h@ == pdl_header_spec(payload_len),
{
    let mut h: Vec<u8> = Vec::new();
    h.push(PDL_TAG);
    push_u32_le(&mut h, payload_len);
    h.push(PDL_FLOWID);
    h.push(0);
    h.push(0);
    assert(h@ =~= pdl_header_spec(payload_len));
    h
}

/// PDL command payload: command little endian, then its arguments.
pub fn pdl_cmd_payload(cmd: u32, extra: &[u8]) -> (p: Vec<u8>)
    ensures
        p@ == u32_le(cmd) + extra@,
{
    let mut p: Vec<u8> = Vec::new();
    push_u32_le(&mut p, cmd);
    push_all(&mut p, extra);
    assert(p@ =~= u32_le(cmd) + extra@);
    p
}

/// Arguments of PDL START_DATA: load address and length little endian,
/// then the marker "PDL1" and a NUL.
pub fn pdl_start_args(addr: u32, len: u32) -> (a: Vec<u8>)
    ensures
        a@ == u32_le(addr) + u32_le(len) + seq![0x50u8, 0x44u8, 0x4Cu8, 0x31u8, 0u8],
{
    let mut a: Vec<u8> = Vec::new();
    push_u32_le(&mut a, addr);
    push_u32_le(&mut a, len);
    a.push(0x50);
    a.push(0x44);
    a.push(0x4C);
    a.push(0x31);
    a.push(0);
    assert(a@ =~= u32_le(addr) + u32_le(len) + seq![0x50u8, 0x44u8, 0x4Cu8, 0x31u8, 0u8]);
    a
}

/// Payload of PDL MID_DATA number `idx`: command, index and length little
/// endian, then the chunk.
pub fn pdl_mid_payload(idx: u32, chunk: &[u8]) -> (p: Vec<u8>)
    requires
        chunk@.len() <= u32::MAX,
    ensures
        p@ == u32_le(PDL_CMD_MID_DATA) + u32_le(idx) + u32_le(chunk@.len() as u32) + chunk@,
{
    let mut p: Vec<u8> = Vec::new();
    push_u32_le(&mut p, PDL_CMD_MID_DATA);
    push_u32_le(&mut p, idx);
    push_u32_le(&mut p, chunk.len() as u32);
    push_all(&mut p, chunk);
    assert(p@ =~= u32_le(PDL_CMD_MID_DATA) + u32_le(idx) + u32_le(chunk@.len() as u32) + chunk@);
    p
}

/// Arguments of PDL END_DATA: eight zeros and the fixed trailer 1C 3C 6E 06.
pub fn pdl_end_args() -> (a: Vec<u8>)
    ensures
        a@ == seq![0u8, 0u8, 0u8, 0u8, 0u8, 0u8, 0u8, 0u8, 0x1Cu8, 0x3Cu8, 0x6Eu8, 0x06u8],
{
    let a: Vec<u8> = vec![0, 0, 0, 0, 0, 0, 0, 0, 0x1C, 0x3C, 0x6E, 0x06];
    assert(a@ =~= seq![0u8, 0u8, 0u8, 0u8, 0u8, 0u8, 0u8, 0u8, 0x1Cu8, 0x3Cu8, 0x6Eu8, 0x06u8]);
    a
}

/// Payload of PDL EXEC_DATA: the command and eight zeros (not acknowledged).
pub fn pdl_exec_payload() -> (p: Vec<u8>)
    ensures
        p@ == u32_le(PDL_CMD_EXEC_DATA) + seq![0u8, 0u8, 0u8, 0u8, 0u8, 0u8, 0u8, 0u8],
{
    let zeros: [u8; 8] = [0; 8];
    assert(zeros@ =~= seq![0u8, 0u8, 0u8, 0u8, 0u8, 0u8, 0u8, 0u8]);
    pdl_cmd_payload(PDL_CMD_EXEC_DATA, &zeros)
}

/// One byte of a PDL reply: bytes before the tag are skipped; twelve
/// bytes make a reply whose flow id is byte 5 and whose response code is
/// bytes 8..12 little endian.
pub open spec fn pdl_reply_step(buf: Seq<u8>, b: u8) -> (Seq<u8>, Option<(u8, u32)>) {
    if buf.len() == 0 && b != PDL_TAG {
        (buf, None)
    } else if buf.len() + 1 >= 12 {
        (Seq::<u8>::empty(), Some((buf.push(b)[5], le_u32_at(buf.push(b), 8))))
    } else {
        (buf.push(b), None)
    }
}

/// Byte-wise receiver of PDL replies.
pub struct PdlReplyReceiver {
    buf: Vec<u8>,
}

impl PdlReplyReceiver {
    /// The bytes of the reply received so far.
    pub closed spec fn pending(&self) -> Seq<u8> {
        self.buf@
    }

    pub fn new() -> (r: Self)
        ensures
            r.pending() == Seq::<u8>::empty(),
    {
        let r = Self { buf: Vec::new() };
        assert(r.buf@ =~= Seq::<u8>::empty());
        r
    }

    /// Feeds one byte; returns (flow id, response code) once twelve bytes
    /// starting with the tag have arrived.
    pub fn feed(&mut self, b: u8) -> (r: Option<(u8, u32)>)
        requires
            old(self).pending().len() < 12,
        ensures
            (final(self).pending(), r) == pdl_reply_step(old(self).pending(), b),
            final(self).pending().len() < 12,
    {
        if self.buf.len() == 0 && b != PDL_TAG {
            return None;
        }
        self.buf.push(b);
        if self.buf.len() >= 12 {
            let flowid = self.buf[5];
            let resp = read_u32_le(self.buf.as_slice(), 8);
            self.buf.clear();
            return Some((flowid, resp));
        }
        None
    }
}

/// A PDL reply acknowledges a command when it carries the flow id and ACK.
pub fn pdl_reply_ok(flowid: u8, resp: u32) -> (r: bool)
    ensures
        r == (flowid == PDL_FLOWID && resp == PDL_RESP_ACK),
{
    flowid == PDL_FLOWID && resp == PDL_RESP_ACK
}

/// Data sent by FDL transfers has even length: an odd image gets a zero.
pub fn pad_even(data: &[u8]) -> (v: Vec<u8>)
    ensures
        v@ == if data@.len() % 2 == 0 { data@ } else { data@.push(0u8) },
{
    let mut v: Vec<u8> = Vec::new();
    push_all(&mut v, data);
    assert(v@ =~= data@);
    if data.len() % 2 != 0 {
        v.push(0);
    }
    v
}

/// Arguments of FDL START_DATA: target address and total length, big endian.
pub fn fdl_start_args(addr: u32, len: u32) -> (a: Vec<u8>)
    ensures
        a@ == u32_be(addr) + u32_be(len),
{
    let mut a: Vec<u8> = Vec::new();
    push_u32_be(&mut a, addr);
    push_u32_be(&mut a, len);
    assert(a@ =~= u32_be(addr) + u32_be(len));
    a
}

/// Arguments of FDL CHANGE_BAUD: the nominal baud rate, big endian.
pub fn fdl_change_baud_args() -> (a: Vec<u8>)
    ensures
        a@ == u32_be(FDL_CHANGE_BAUD),
{
    let mut a: Vec<u8> = Vec::new();
    push_u32_be(&mut a, FDL_CHANGE_BAUD);
    assert(a@ =~= u32_be(FDL_CHANGE_BAUD));
    a
}

/// The "host fast" reboot-to-download frame: AD 00 04 FD 03 44 52 E8.
pub fn host_fast_reboot_frame() -> (f: [u8; 8])
    ensures
        f@ == seq![0xADu8, 0x00u8, 0x04u8, 0xFDu8, 0x03u8, 0x44u8, 0x52u8, 0xE8u8],
{
    let f: [u8; 8] = [0xAD, 0x00, 0x04, 0xFD, 0x03, 0x44, 0x52, 0xE8];
    assert(f@ =~= seq![0xADu8, 0x00u8, 0x04u8, 0xFDu8, 0x03u8, 0x44u8, 0x52u8, 0xE8u8]);
    f
}

/// The DIAG reboot-to-download frame: 0x7E, queue 1 and length 8 as u32
/// little endian, command 5 (system), sub-command 0x42, 0x7E.
pub fn diag_reboot_frame() -> (f: [u8; 12])
    ensures
        f@ == seq![0x7Eu8] + u32_le(1) + u32_le(8) + seq![0x05u8, 0x42u8, 0x7Eu8],
{
    let f: [u8; 12] = [0x7E, 0x01, 0x00, 0x00, 0x00, 0x08, 0x00, 0x00, 0x00, 0x05, 0x42, 0x7E];
    assert(f@ =~= seq![0x7Eu8] + u32_le(1) + u32_le(8) + seq![0x05u8, 0x42u8, 0x7Eu8]);
    f
}

/// The AT probe sent to find the AT port: "AT\r\n".
pub fn at_probe_command() -> (c: [u8; 4])
    ensures
        c@ == seq![0x41u8, 0x54u8, 0x0Du8, 0x0Au8],
{
    let c: [u8; 4] = [0x41, 0x54, 0x0D, 0x0A];
    assert(c@ =~= seq![0x41u8, 0x54u8, 0x0Du8, 0x0Au8]);
    c
}

/// The AT fallback that reboots into download mode: "AT*DOWNLOAD=1\r\n".
pub fn at_download_command() -> (c: [u8; 15])
    ensures
        c@ == seq![0x41u8, 0x54u8, 0x2Au8, 0x44u8, 0x4Fu8, 0x57u8, 0x4Eu8, 0x4Cu8, 0x4Fu8, 0x41u8, 0x44u8, 0x3Du8, 0x31u8, 0x0Du8, 0x0Au8],
{
    let c: [u8; 15] = [0x41, 0x54, 0x2A, 0x44, 0x4F, 0x57, 0x4E, 0x4C, 0x4F, 0x41, 0x44, 0x3D, 0x31, 0x0D, 0x0A];
    assert(c@ =~= seq![0x41u8, 0x54u8, 0x2Au8, 0x44u8, 0x4Fu8, 0x57u8, 0x4Eu8, 0x4Cu8, 0x4Fu8, 0x41u8, 0x44u8, 0x3Du8, 0x31u8, 0x0Du8, 0x0Au8]);
    c
}

/// A partition target is a flash address or one of the logical partitions.
pub fn valid_flash_addr(addr: u32) -> (r: bool)
    ensures
        r == (addr >= SPI_FLASH_BASE || addr == LOGIC_ERASE_NV || addr == LOGIC_PHASECHECK
            || addr == LOGIC_FIXED_NV || addr == LOGIC_PREPACK),
{
    addr >= SPI_FLASH_BASE || addr == LOGIC_ERASE_NV || addr == LOGIC_PHASECHECK || addr == LOGIC_FIXED_NV
        || addr == LOGIC_PREPACK
}

/// Script partition address: the PAC's LUA entry when it has one, else the
/// offset from the firmware description above the flash base (if that fits).
pub fn choose_script_addr(pac_lua_addr: Option<u32>, info_script_offset: u32) -> (r: Option<u32>)
    ensures
        r == match pac_lua_addr {
            Some(a) => Some(a),
            None => if info_script_offset + SPI_FLASH_BASE <= u32::MAX {
                Some((info_script_offset + SPI_FLASH_BASE) as u32)
            } else {
                None
            },
        },
{
    match pac_lua_addr {
        Some(a) => Some(a),
        None => info_script_offset.checked_add(SPI_FLASH_BASE),
    }
}


/// Size of the PAC file header.
pub const PAC_HEADER_SIZE: usize = 2124;
/// Size of one PAC file-entry header.
pub const PAC_FILE_HEADER_SIZE: usize = 2580;
pub const PAC_MAGIC: u32 = 0xFFFAFFFA;

/// One file entry of a PAC package.
#[derive(Debug, Clone)]
pub struct PacFileEntry {
    pub id: String,
    pub name: String,
    pub size: u32,
    pub addr: u32,
    pub flag: u32,
    pub omit: u32,
    pub check: u32,
    pub data: Option<Vec<u8>>,
}

/// A parsed PAC package.
#[derive(Debug)]
pub struct PacFile {
    pub version: String,
    pub prd_name: String,
    pub prd_version: String,
    pub files: Vec<PacFileEntry>,
}

/// Why a PAC package was refused.
#[derive(Debug, Clone, Copy, PartialEq, Eq, Structural)]
pub enum PacError {
    /// Shorter than the package header (the length found).
    TooSmall(usize),
    /// The header's magic is not 0xFFFAFFFA (the magic found).
    BadMagic(u32),
    /// A file-entry header runs past the end (its offset).
    FileHeaderOutOfBounds(u64),
}

/// The UTF-16 code units of a little-endian field, up to the first NUL or
/// the last whole unit.
pub open spec fn utf16_units(b: Seq<u8>) -> Seq<u16>
    decreases b.len(),
{
    if b.len() < 2 {
        seq![]
    } else if le_u16_at(b, 0) == 0 {
        seq![]
    } else {
        seq![le_u16_at(b, 0)] + utf16_units(b.subrange(2, b.len() as int))
    }
}

/// A UTF-16 leading (high) surrogate.
pub open spec fn is_high_surrogate(u: u16) -> bool {
    0xD800 <= u <= 0xDBFF
}

/// A UTF-16 trailing (low) surrogate.
pub open spec fn is_low_surrogate(u: u16) -> bool {
    0xDC00 <= u <= 0xDFFF
}

/// What `String::from_utf16_lossy` makes of a sequence of code units: a
/// high surrogate followed by a low one decodes to the character the pair
/// encodes; any other surrogate to U+FFFD; every other unit to itself.
pub open spec fn utf16_lossy(units: Seq<u16>) -> Seq<char>
    decreases units.len(),
{
    if units.len() == 0 {
        seq![]
    } else if units.len() >= 2 && is_high_surrogate(units[0]) && is_low_surrogate(units[1]) {
        seq![(0x10000 + (units[0] - 0xD800) * 0x400 + (units[1] - 0xDC00)) as char] + utf16_lossy(
            units.subrange(2, units.len() as int),
        )
    } else if is_high_surrogate(units[0]) || is_low_surrogate(units[0]) {
        seq!['\u{FFFD}'] + utf16_lossy(units.drop_first())
    } else {
        seq![units[0] as char] + utf16_lossy(units.drop_first())
    }
}

/// Calls `String::from_utf16_lossy`: decodes UTF-16, replacing unpaired
/// surrogates with U+FFFD (see `utf16_lossy`).
#[verifier::external_body]
fn string_from_utf16_lossy(units: &[u16]) -> (s: String)
    ensures
        s@ == utf16_lossy(units@),
{
    String::from_utf16_lossy(units)
}

/// Decodes a fixed-size UTF-16LE field into a String (stops at the first NUL).
pub fn dec_utf16le(b: &[u8]) -> (s: String)
    ensures
        s@ == utf16_lossy(utf16_units(b@)),
{
    let n = b.len();
    let mut units: Vec<u16> = Vec::new();
    let mut i: usize = 0;
    assert(b@.subrange(0, n as int) =~= b@);
    assert(units@ + utf16_units(b@) =~= utf16_units(b@));
    while i < n && n - i >= 2
        invariant
            n == b@.len(),
            i <= n,
            units@ + utf16_units(b@.subrange(i as int, n as int)) == utf16_units(b@),
        decreases n - i,
    {
        let ghost rest = b@.subrange(i as int, n as int);
        let u = read_u16_le(b, i);
        assert(le_u16_at(rest, 0) == u);
        if u == 0 {
            assert(utf16_units(rest) =~= Seq::<u16>::empty());
            assert(units@ + Seq::<u16>::empty() =~= units@);
            return string_from_utf16_lossy(units.as_slice());
        }
        assert(rest.subrange(2, rest.len() as int) =~= b@.subrange(i + 2, n as int));
        units.push(u);
        proof {
            let t = utf16_units(b@.subrange(i + 2, n as int));
            assert(utf16_units(rest) == seq![u] + t);
        }
        i = i + 2;
    }
    assert(utf16_units(b@.subrange(i as int, n as int)) =~= Seq::<u16>::empty());
    assert(units@ + Seq::<u16>::empty() =~= units@);
    string_from_utf16_lossy(units.as_slice())
}


/// Number of file entries declared by a PAC header.
pub open spec fn pac_file_count(data: Seq<u8>) -> u32 {
    le_u32_at(data, 1076)
}

/// Offset of the first file-entry header declared by a PAC header.
pub open spec fn pac_file_offset(data: Seq<u8>) -> u32 {
    le_u32_at(data, 1080)
}

/// Offset of the header of file entry `i`.
pub open spec fn pac_entry_offset(data: Seq<u8>, i: int) -> int {
    pac_file_offset(data) + i * 2580
}

/// `e` is the entry described by the file-entry header at offset `c`:
/// UTF-16 id and name, size, flag, check, data offset, omit and address
/// little endian; its data when it lies inside the package.
pub open spec fn pac_entry_ok(e: PacFileEntry, data: Seq<u8>, c: int) -> bool {
    let fh = data.subrange(c, c + 2580);
    let size = le_u32_at(fh, 1540);
    let start = le_u32_at(fh, 1552);
    &&& e.id@ == utf16_lossy(utf16_units(fh.subrange(4, 516)))
    &&& e.name@ == utf16_lossy(utf16_units(fh.subrange(516, 1028)))
    &&& e.size == size
    &&& e.flag == le_u32_at(fh, 1544)
    &&& e.check == le_u32_at(fh, 1548)
    &&& e.omit == le_u32_at(fh, 1556)
    &&& e.addr == le_u32_at(fh, 1564)
    &&& match e.data {
        Some(v) => start + size <= data.len() && v@ == data.subrange(start as int, start + size),
        None => start + size > data.len(),
    }
}

/// All declared file-entry headers before entry `k` lie inside the package.
pub open spec fn pac_headers_fit(data: Seq<u8>, k: int) -> bool {
    forall|j: int| 0 <= j < k ==> #[trigger] pac_entry_offset(data, j) + 2580 <= data.len()
}

/// Copies `data[start..end]`.
fn copy_range(data: &[u8], start: usize, end: usize) -> (v: Vec<u8>)
    requires
        start <= end <= data@.len(),
    ensures
        v@ == data@.subrange(start as int, end as int),
{
    let mut v: Vec<u8> = Vec::new();
    push_all(&mut v, &data[start..end]);
    assert(v@ =~= data@.subrange(start as int, end as int));
    v
}

/// Parses the entry whose header starts at `c`.
fn parse_pac_entry(data: &[u8], c: usize) -> (e: PacFileEntry)
    requires
        c + 2580 <= data@.len(),
    ensures
        pac_entry_ok(e, data@, c as int),
{
    let n = data.len();
    let fh = &data[c..c + PAC_FILE_HEADER_SIZE];
    assert(fh@ == data@.subrange(c as int, c + 2580));
    let id = dec_utf16le(&fh[4..516]);
    let name = dec_utf16le(&fh[516..1028]);
    let size = read_u32_le(fh, 1540);
    let flag = read_u32_le(fh, 1544);
    let check = read_u32_le(fh, 1548);
    let start = read_u32_le(fh, 1552);
    let omit = read_u32_le(fh, 1556);
    let addr = read_u32_le(fh, 1564);
    let end: u64 = start as u64 + size as u64;
    let body = if end <= data.len() as u64 {
        Some(copy_range(data, start as usize, end as usize))
    } else {
        None
    };
    PacFileEntry { id, name, size, addr, flag, omit, check, data: body }
}

/// Parses an RDA PAC package (little-endian integers, UTF-16LE strings).
pub fn parse_pac(data: &[u8]) -> (r: Result<PacFile, PacError>)
    ensures
        match r {
            Ok(pac) => {
                &&& data@.len() >= PAC_HEADER_SIZE
                &&& le_u32_at(data@, 2116) == PAC_MAGIC
                &&& pac_headers_fit(data@, pac_file_count(data@) as int)
                &&& pac.version@ == utf16_lossy(utf16_units(data@.subrange(0, 48)))
                &&& pac.prd_name@ == utf16_lossy(utf16_units(data@.subrange(52, 564)))
                &&& pac.prd_version@ == utf16_lossy(utf16_units(data@.subrange(564, 1076)))
                &&& pac.files@.len() == pac_file_count(data@)
                &&& forall|i: int|
                    0 <= i < pac.files@.len() ==> pac_entry_ok(
                        #[trigger] pac.files@[i],
                        data@,
                        pac_entry_offset(data@, i),
                    )
            },
            Err(PacError::TooSmall(n)) => data@.len() < PAC_HEADER_SIZE && n == data@.len(),
            Err(PacError::BadMagic(m)) => data@.len() >= PAC_HEADER_SIZE && m == le_u32_at(data@, 2116)
                && m != PAC_MAGIC,
            Err(PacError::FileHeaderOutOfBounds(c)) => {
                &&& data@.len() >= PAC_HEADER_SIZE
                &&& le_u32_at(data@, 2116) == PAC_MAGIC
                &&& exists|k: int|
                    0 <= k < pac_file_count(data@) && c == pac_entry_offset(data@, k)
                        && #[trigger] pac_entry_offset(data@, k) + 2580 > data@.len()
                        && pac_headers_fit(data@, k)
            },
        },
{
    let n = data.len();
    if n < PAC_HEADER_SIZE {
        return Err(PacError::TooSmall(n));
    }
    let version = dec_utf16le(&data[0..48]);
    let prd_name = dec_utf16le(&data[52..564]);
    let prd_version = dec_utf16le(&data[564..1076]);
    let file_count = read_u32_le(data, 1076);
    let file_offset = read_u32_le(data, 1080);
    let magic = read_u32_le(data, 2116);
    if magic != PAC_MAGIC {
        return Err(PacError::BadMagic(magic));
    }
    let mut files: Vec<PacFileEntry> = Vec::new();
    let mut cursor: u64 = file_offset as u64;
    let mut i: u32 = 0;
    while i < file_count
        invariant
            n == data@.len(),
            n >= PAC_HEADER_SIZE,
            le_u32_at(data@, 2116) == PAC_MAGIC,
            file_count == pac_file_count(data@),
            file_offset == pac_file_offset(data@),
            i <= file_count,
            cursor == pac_entry_offset(data@, i as int),
            files@.len() == i,
            pac_headers_fit(data@, i as int),
            forall|j: int| 0 <= j < i ==> pac_entry_ok(#[trigger] files@[j], data@, pac_entry_offset(data@, j)),
        decreases file_count - i,
    {
        if cursor + 2580 > n as u64 {
            assert(pac_entry_offset(data@, i as int) + 2580 > data@.len());
            assert(exists|k: int|
                0 <= k < pac_file_count(data@) && cursor == pac_entry_offset(data@, k)
                    && #[trigger] pac_entry_offset(data@, k) + 2580 > data@.len()
                    && pac_headers_fit(data@, k));
            return Err(PacError::FileHeaderOutOfBounds(cursor));
        }
        let e = parse_pac_entry(data, cursor as usize);
        files.push(e);
        proof {
            assert forall|j: int| 0 <= j < i + 1 implies #[trigger] pac_entry_offset(data@, j) + 2580 <= data@.len() by {
                if j < i {
                    assert(pac_headers_fit(data@, i as int));
                }
            }
        }
        cursor = cursor + 2580;
        i = i + 1;
    }
    Ok(PacFile { version, prd_name, prd_version, files })
}


impl PacFile {
    /// The first entry whose file id is `id`.
    pub fn find(&self, id: &str) -> (r: Option<&PacFileEntry>)
        ensures
            match r {
                Some(e) => exists|i: int|
                    is_first(self.files@, i, |f: PacFileEntry| f.id@ == id@) && *e == #[trigger] self.files@[i],
                None => none_match(self.files@, |f: PacFileEntry| f.id@ == id@),
            },
    {
        let key = id.to_owned();
        let ghost pred = |f: PacFileEntry| f.id@ == id@;
        let mut i: usize = 0;
        while i < self.files.len()
            invariant
                i <= self.files@.len(),
                key@ == id@,
                pred == (|f: PacFileEntry| f.id@ == id@),
                forall|j: int| 0 <= j < i ==> !pred(#[trigger] self.files@[j]),
            decreases self.files@.len() - i,
        {
            if self.files[i].id == key {
                assert(is_first(self.files@, i as int, pred));
                return Some(&self.files[i]);
            }
            i = i + 1;
        }
        None
    }
}

/// Replaces the data of the PAC's first LUA entry with `overlay` (the
/// compiled script image); the entry keeps its address. Returns whether a
/// LUA entry was found; without one the package is unchanged.
pub fn apply_script_overlay(pac: &mut PacFile, overlay: &[u8]) -> (r: bool)
    ensures
        final(pac).version == old(pac).version,
        final(pac).prd_name == old(pac).prd_name,
        final(pac).prd_version == old(pac).prd_version,
        final(pac).files@.len() == old(pac).files@.len(),
        r == !none_match(old(pac).files@, |f: PacFileEntry| f.id@ == "LUA"@),
        !r ==> final(pac).files@ == old(pac).files@,
        r ==> exists|i: int|
            #![trigger old(pac).files@[i]]
            is_first(old(pac).files@, i, |f: PacFileEntry| f.id@ == "LUA"@) && (forall|j: int|
                0 <= j < old(pac).files@.len() && j != i ==> final(pac).files@[j] == old(pac).files@[j]) && ({
                let e = final(pac).files@[i];
                let o = old(pac).files@[i];
                &&& e.id == o.id
                &&& e.name == o.name
                &&& e.addr == o.addr
                &&& e.flag == o.flag
                &&& e.omit == o.omit
                &&& e.check == o.check
                &&& e.size == overlay@.len() as u32
                &&& e.data matches Some(v) && v@ == overlay@
            }),
{
    let key = "LUA".to_owned();
    let ghost pred = |f: PacFileEntry| f.id@ == "LUA"@;
    let mut i: usize = 0;
    while i < pac.files.len()
        invariant
            i <= pac.files@.len(),
            pac.files@ == old(pac).files@,
            pac.version == old(pac).version,
            pac.prd_name == old(pac).prd_name,
            pac.prd_version == old(pac).prd_version,
            key@ == "LUA"@,
            pred == (|f: PacFileEntry| f.id@ == "LUA"@),
            forall|j: int| 0 <= j < i ==> !pred(#[trigger] pac.files@[j]),
        decreases pac.files@.len() - i,
    {
        if pac.files[i].id == key {
            assert(is_first(old(pac).files@, i as int, pred));
            let mut v: Vec<u8> = Vec::new();
            push_all(&mut v, overlay);
            pac.files[i].data = Some(v);
            pac.files[i].size = overlay.len() as u32;
            return true;
        }
        i = i + 1;
    }
    false
}

/// A PAC entry written to flash: an AP, PS or LUA image with data.
pub open spec fn is_writable_entry(e: PacFileEntry) -> bool {
    (e.id@ == "AP"@ || e.id@ == "PS"@ || e.id@ == "LUA"@) && e.size > 0 && e.data is Some
}

/// Is `e` written to flash by a full download?
pub fn writable_entry(e: &PacFileEntry) -> (r: bool)
    ensures
        r == is_writable_entry(*e),
{
    let ap = "AP".to_owned();
    let ps = "PS".to_owned();
    let lua = "LUA".to_owned();
    (e.id == ap || e.id == ps || e.id == lua) && e.size > 0 && e.data.is_some()
}

/// Total size of the writable entries among the first `k`.
pub open spec fn writable_size(files: Seq<PacFileEntry>, k: int) -> int
    decreases k,
{
    if k <= 0 {
        0
    } else if is_writable_entry(files[k - 1]) {
        writable_size(files, k - 1) + files[k - 1].size
    } else {
        writable_size(files, k - 1)
    }
}

/// The indices of the entries a full download writes, in package order,
/// and their total size.
pub fn writable_entries(files: &[PacFileEntry]) -> (r: (Vec<usize>, u64))
    requires
        files@.len() <= u32::MAX,
    ensures
        forall|k: int| 0 <= k < r.0@.len() ==> (#[trigger] r.0@[k]) < files@.len() && is_writable_entry(files@[r.0@[k] as int]),
        forall|k1: int, k2: int| 0 <= k1 < k2 < r.0@.len() ==> r.0@[k1] < r.0@[k2],
        forall|i: int| 0 <= i < files@.len() && is_writable_entry(#[trigger] files@[i]) ==> r.0@.contains(i as usize),
        r.1 == writable_size(files@, files@.len() as int),
{
    let mut idx: Vec<usize> = Vec::new();
    let mut total: u64 = 0;
    let mut i: usize = 0;
    while i < files.len()
        invariant
            i <= files@.len(),
            files@.len() <= u32::MAX,
            total == writable_size(files@, i as int),
            writable_size(files@, i as int) <= i * 0xFFFF_FFFF,
            forall|k: int| 0 <= k < idx@.len() ==> (#[trigger] idx@[k]) < i && is_writable_entry(files@[idx@[k] as int]),
            forall|k1: int, k2: int| 0 <= k1 < k2 < idx@.len() ==> idx@[k1] < idx@[k2],
            forall|j: int| 0 <= j < i && is_writable_entry(#[trigger] files@[j]) ==> idx@.contains(j as usize),
        decreases files@.len() - i,
    {
        if writable_entry(&files[i]) {
            assert(total + files@[i as int].size <= (i + 1) * 0xFFFF_FFFF) by (nonlinear_arith)
                requires
                    total <= i * 0xFFFF_FFFF,
                    files@[i as int].size <= 0xFFFF_FFFF,
            ;
            assert((i + 1) * 0xFFFF_FFFF <= 0x1_0000_0000 * 0xFFFF_FFFF) by (nonlinear_arith)
                requires
                    i < 0x1_0000_0000,
            ;
            total = total + files[i].size as u64;
            let ghost before = idx@;
            idx.push(i);
            assert forall|j: int| 0 <= j < i + 1 && is_writable_entry(#[trigger] files@[j]) implies idx@.contains(j as usize) by {
                if j < i {
                    assert(before.contains(j as usize));
                    let k = choose|k: int| 0 <= k < before.len() && before[k] == j as usize;
                    assert(idx@[k] == j as usize);
                } else {
                    assert(idx@[before.len() as int] == j as usize);
                }
            }
        } else {
            assert((i + 1) * 0xFFFF_FFFF >= i * 0xFFFF_FFFF) by (nonlinear_arith);
        }
        i = i + 1;
    }
    (idx, total)
}

/// A full download writes the application (AP), modem (PS) and script
/// (LUA) images, each when it has data and a nonzero size, and nothing
/// else: no other PAC entry (FDL1, FDL2, NV, ...) and no empty image.
/// With `writable_entries`, the index of every such image is among those
/// written.
pub proof fn lemma_download_writes_partition_images(e: PacFileEntry)
    ensures
        e.id@ == "AP"@ && e.size > 0 && e.data is Some ==> is_writable_entry(e),
        e.id@ == "PS"@ && e.size > 0 && e.data is Some ==> is_writable_entry(e),
        e.id@ == "LUA"@ && e.size > 0 && e.data is Some ==> is_writable_entry(e),
        e.size == 0 || e.data is None ==> !is_writable_entry(e),
        e.id@ != "AP"@ && e.id@ != "PS"@ && e.id@ != "LUA"@ ==> !is_writable_entry(e),
{
}

/// Download mode USB identity (SPRD U2S Diag).
pub const DOWNLOAD_VID: u16 = 0x0525;
pub const DOWNLOAD_PID: u16 = 0xa4a7;
/// Running mode USB identity (UNISOC-8910 composite device).
pub const RUNNING_VID: u16 = 0x1782;
pub const RUNNING_PID: u16 = 0x4d11;
/// Running mode product id of other batches / firmwares.
pub const RUNNING_PID_ALT: u16 = 0x4e00;

/// The running-mode ports, optionally on one interface.
pub open spec fn running_filter(iface: Option<u8>) -> PortFilter {
    PortFilter { vid: RUNNING_VID, pid: RUNNING_PID, alt_pid: RUNNING_PID_ALT, interface: iface }
}

/// Is `t` the download port (VID 0525, PID a4a7)?
pub fn is_download_port(t: &SerialPortType) -> (r: bool)
    ensures
        r == usb_is(*t, DOWNLOAD_VID, DOWNLOAD_PID),
{
    port_type_is(t, DOWNLOAD_VID, DOWNLOAD_PID)
}

/// Is `t` a running-mode port (VID 1782, PID 4d11 or 4e00)?
pub fn is_running_port(t: &SerialPortType) -> (r: bool)
    ensures
        r == filter_accepts(running_filter(None), *t),
        r == (usb_is(*t, RUNNING_VID, RUNNING_PID) || usb_is(*t, RUNNING_VID, RUNNING_PID_ALT)),
{
    let f = PortFilter { vid: RUNNING_VID, pid: RUNNING_PID, alt_pid: RUNNING_PID_ALT, interface: None };
    accepts(&f, t)
}

/// Is `port` a USB port on interface `n`?
pub fn port_interface_is(port: &SerialPortInfo, n: u8) -> (r: bool)
    ensures
        r == match port.port_type {
            SerialPortType::UsbPort(u) => u.interface == Some(n),
            _ => false,
        },
{
    match &port.port_type {
        SerialPortType::UsbPort(u) => match u.interface {
            Some(m) => m == n,
            None => false,
        },
        _ => false,
    }
}

/// Is `port` the log port of a running module: interface 6 on PID 4d11,
/// interface 2 on PID 4e00?
pub fn port_is_log(port: &SerialPortInfo) -> (r: bool)
    ensures
        r == (usb_is_at(port.port_type, RUNNING_VID, RUNNING_PID, 6) || usb_is_at(
            port.port_type,
            RUNNING_VID,
            RUNNING_PID_ALT,
            2,
        )),
{
    port_type_is_at(&port.port_type, RUNNING_VID, RUNNING_PID, 6) || port_type_is_at(
        &port.port_type,
        RUNNING_VID,
        RUNNING_PID_ALT,
        2,
    )
}

/// The first port in download mode.
pub fn find_download_port(ports: &[SerialPortInfo]) -> (r: Option<String>)
    ensures
        match r {
            Some(name) => exists|i: int|
                is_first(ports@, i, |p: SerialPortInfo| usb_is(p.port_type, DOWNLOAD_VID, DOWNLOAD_PID))
                    && name@ == #[trigger] ports@[i].port_name@,
            None => none_match(ports@, |p: SerialPortInfo| usb_is(p.port_type, DOWNLOAD_VID, DOWNLOAD_PID)),
        },
{
    find_port_by_vid_pid(ports, DOWNLOAD_VID, DOWNLOAD_PID)
}

/// The names of all running-mode ports.
pub fn find_running_ports(ports: &[SerialPortInfo]) -> (r: Vec<String>)
    ensures
        name_views(r@) == names_where(ports@, running_filter(None)),
{
    port_names_where(ports, PortFilter { vid: RUNNING_VID, pid: RUNNING_PID, alt_pid: RUNNING_PID_ALT, interface: None })
}

/// The names of the running-mode ports on interface `n`.
pub fn running_ports_by_interface(ports: &[SerialPortInfo], n: u8) -> (r: Vec<String>)
    ensures
        name_views(r@) == names_where(ports@, running_filter(Some(n))),
{
    port_names_where(ports, PortFilter { vid: RUNNING_VID, pid: RUNNING_PID, alt_pid: RUNNING_PID_ALT, interface: Some(n) })
}

/// Is the port called `name` a running-mode port?
pub fn is_running_port_name(ports: &[SerialPortInfo], name: &str) -> (r: bool)
    ensures
        r == exists|i: int|
            0 <= i < ports@.len() && #[trigger] ports@[i].port_name@ == name@ && filter_accepts(
                running_filter(None),
                ports@[i].port_type,
            ),
{
    has_port_named(ports, name, PortFilter { vid: RUNNING_VID, pid: RUNNING_PID, alt_pid: RUNNING_PID_ALT, interface: None })
}

/// The first running-mode log port.
pub fn find_rda8910_log_port(ports: &[SerialPortInfo]) -> (r: Option<String>)
    ensures
        match r {
            Some(name) => exists|i: int|
                is_first(ports@, i, |p: SerialPortInfo| usb_is_at(p.port_type, RUNNING_VID, RUNNING_PID, 6) || usb_is_at(p.port_type, RUNNING_VID, RUNNING_PID_ALT, 2))
                    && name@ == #[trigger] ports@[i].port_name@,
            None => none_match(ports@, |p: SerialPortInfo| usb_is_at(p.port_type, RUNNING_VID, RUNNING_PID, 6) || usb_is_at(p.port_type, RUNNING_VID, RUNNING_PID_ALT, 2)),
        },
{
    let ghost pred = |p: SerialPortInfo| usb_is_at(p.port_type, RUNNING_VID, RUNNING_PID, 6) || usb_is_at(p.port_type, RUNNING_VID, RUNNING_PID_ALT, 2);
    let mut i: usize = 0;
    while i < ports.len()
        invariant
            i <= ports@.len(),
            pred == (|p: SerialPortInfo| usb_is_at(p.port_type, RUNNING_VID, RUNNING_PID, 6) || usb_is_at(p.port_type, RUNNING_VID, RUNNING_PID_ALT, 2)),
            forall|j: int| 0 <= j < i ==> !pred(#[trigger] ports@[j]),
        decreases ports@.len() - i,
    {
        if port_is_log(&ports[i]) {
            let name = ports[i].port_name.clone();
            assert(is_first(ports@, i as int, pred));
            assert(name@ == ports@[i as int].port_name@);
            return Some(name);
        }
        i = i + 1;
    }
    None
}

/// Where the reboot-to-download frames go: the host-fast frame to the
/// running ports on interfaces 6 and then 2, the DIAG frame to those on
/// interface 3; when neither kind is found, both go to every running port.
pub fn reboot_targets(ports: &[SerialPortInfo]) -> (r: (Vec<String>, Vec<String>))
    ensures
        ({
            let hf = names_where(ports@, running_filter(Some(6))) + names_where(ports@, running_filter(Some(2)));
            let diag = names_where(ports@, running_filter(Some(3)));
            let all = names_where(ports@, running_filter(None));
            if hf.len() == 0 && diag.len() == 0 {
                name_views(r.0@) == all && name_views(r.1@) == all
            } else {
                name_views(r.0@) == hf && name_views(r.1@) == diag
            }
        }),
{
    let mut host_fast = running_ports_by_interface(ports, 6);
    let second = running_ports_by_interface(ports, 2);
    let ghost a = host_fast@;
    let mut k: usize = 0;
    while k < second.len()
        invariant
            k <= second@.len(),
            host_fast@ == a + second@.subrange(0, k as int),
        decreases second@.len() - k,
    {
        host_fast.push(second[k].clone());
        k = k + 1;
        assert(host_fast@ =~= a + second@.subrange(0, k as int));
    }
    assert(second@.subrange(0, second@.len() as int) =~= second@);
    assert(name_views(a + second@) =~= name_views(a) + name_views(second@));
    let diag = running_ports_by_interface(ports, 3);
    if host_fast.len() == 0 && diag.len() == 0 {
        (find_running_ports(ports), find_running_ports(ports))
    } else {
        (host_fast, diag)
    }
}

} // verus!
