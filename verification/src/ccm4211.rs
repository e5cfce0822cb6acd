//! CCM4211 (Air1601 / Air1602) download protocol: the ISP bootrom frames
//! and the escaped, CRC16-guarded SOC frames spoken by the RAM runner.
//!
//! SOC frame: `[0xA5] escaped(24-byte header + payload) escaped(crc16 LE) [0xA5]`
//! with the escapes `0xA5 -> 0xA6 0x01` and `0xA6 -> 0xA6 0x02`.

use vstd::prelude::*;
use crate::bytes::{be_u16_at, bytes_eq, push_u16_be, read_u16_be, u16_be, le_u16_at, le_u32_at, push_all, push_u16_le, push_u32_le, read_u16_le, read_u32_le, u16_le, u32_le};
use crate::checksum::crc16_modbus_spec;

pub use crate::checksum::crc16_modbus;

verus! {

pub const ISP_CMD_HEADER: u8 = 0x52;
pub const ISP_ACK_HEADER: u8 = 0x72;
pub const ISP_CMD_SYNC: u8 = 0x14;
pub const ISP_CMD_SET_BAUD: u8 = 0x10;
pub const ISP_CMD_SET_RAM_BASE: u8 = 0x20;
pub const ISP_CMD_WRITE_RAM: u8 = 0x31;
pub const ISP_CMD_EXECUTE: u8 = 0x81;

pub const SOC_FLAG: u8 = 0xA5;
pub const SOC_ESC: u8 = 0xA6;
pub const SOC_ESC_FLAG: u8 = 0x01;
pub const SOC_ESC_CODE: u8 = 0x02;
pub const SOC_HEADER_LEN: usize = 24;
/// A frame body longer than this is dropped by the receiver.
pub const SOC_MAX_BODY: usize = 524288;

pub const SOC_CMD_GET_BASE_INFO: u32 = 1;
pub const SOC_CMD_FLASH_ERASE_BLOCK: u32 = 8;
pub const SOC_CMD_GET_DOWNLOAD_INFO: u32 = 9;
pub const SOC_CMD_SET_CODE_DATA_START: u32 = 10;
pub const SOC_CMD_SET_CODE_DATA: u32 = 11;
pub const SOC_CMD_SET_CODE_END: u32 = 12;
pub const SOC_CMD_CHECK_CODE: u32 = 13;

/// The 24-byte SOC header: 8 zero bytes (ms), address, length and command
/// as 32-bit little endian, the serial number as 16-bit little endian, and
/// two zero bytes (type, cpu).
pub open spec fn soc_header(cmd: u32, address: u32, data_len: u32, sn: u16) -> Seq<u8> {
    Seq::new(8, |i: int| 0u8) + u32_le(address) + u32_le(data_len) + u32_le(cmd) + u16_le(sn) + seq![0u8, 0u8]
}

/// Builds the SOC protocol header.
pub fn build_soc_header(cmd: u32, address: u32, data_len: u32, sn: u16) -> (h: [u8; 24])
    ensures
        h@ == soc_header(cmd, address, data_len, sn),
{
    let mut v: Vec<u8> = Vec::new();
    let mut i: usize = 0;
    while i < 8
        invariant
            i <= 8,
            v@ == Seq::new(i as nat, |k: int| 0u8),
        decreases 8 - i,
    {
        v.push(0);
        i = i + 1;
        assert(v@ =~= Seq::new(i as nat, |k: int| 0u8));
    }
    push_u32_le(&mut v, address);
    push_u32_le(&mut v, data_len);
    push_u32_le(&mut v, cmd);
    push_u16_le(&mut v, sn);
    v.push(0);
    v.push(0);
    assert(v@ =~= soc_header(cmd, address, data_len, sn));
    [
        v[0], v[1], v[2], v[3], v[4], v[5], v[6], v[7], v[8], v[9], v[10], v[11],
        v[12], v[13], v[14], v[15], v[16], v[17], v[18], v[19], v[20], v[21], v[22], v[23],
    ]
}

/// The escaped form of one byte.
pub open spec fn soc_escape_byte(b: u8) -> Seq<u8> {
    if b == SOC_FLAG {
        seq![SOC_ESC, SOC_ESC_FLAG]
    } else if b == SOC_ESC {
        seq![SOC_ESC, SOC_ESC_CODE]
    } else {
        seq![b]
    }
}

/// The escaped form of a byte sequence.
pub open spec fn soc_escape_spec(s: Seq<u8>) -> Seq<u8>
    decreases s.len(),
{
    if s.len() == 0 {
        seq![]
    } else {
        soc_escape_spec(s.drop_last()) + soc_escape_byte(s.last())
    }
}

fn push_escaped(out: &mut Vec<u8>, data: &[u8])
    ensures
        final(out)@ == old(out)@ + soc_escape_spec(data@),
{
    let mut i: usize = 0;
    while i < data.len()
        invariant
            i <= data@.len(),
            out@ == old(out)@ + soc_escape_spec(data@.subrange(0, i as int)),
        decreases data@.len() - i,
    {
        let b = data[i];
        if b == SOC_FLAG {
            out.push(SOC_ESC);
            out.push(SOC_ESC_FLAG);
        } else if b == SOC_ESC {
            out.push(SOC_ESC);
            out.push(SOC_ESC_CODE);
        } else {
            out.push(b);
        }
        proof {
            let s = data@.subrange(0, i as int + 1);
            assert(s.drop_last() =~= data@.subrange(0, i as int));
        }
        i = i + 1;
        assert(out@ =~= old(out)@ + soc_escape_spec(data@.subrange(0, i as int)));
    }
    assert(data@.subrange(0, data@.len() as int) =~= data@);
}

/// Escapes data for a SOC frame (0xA5 -> 0xA6 0x01, 0xA6 -> 0xA6 0x02).
pub fn soc_escape(data: &[u8]) -> (out: Vec<u8>)
    ensures
        out@ == soc_escape_spec(data@),
{
    let mut out: Vec<u8> = Vec::new();
    push_escaped(&mut out, data);
    out
}

/// The unescaped header and payload of a frame.
pub open spec fn soc_raw(cmd: u32, address: u32, payload: Seq<u8>, sn: u16) -> Seq<u8> {
    soc_header(cmd, address, payload.len() as u32, sn) + payload
}

/// A complete SOC frame.
pub open spec fn soc_frame(cmd: u32, address: u32, payload: Seq<u8>, sn: u16) -> Seq<u8> {
    let raw = soc_raw(cmd, address, payload, sn);
    seq![SOC_FLAG] + soc_escape_spec(raw) + soc_escape_spec(u16_le(crc16_modbus_spec(raw)))
        + seq![SOC_FLAG]
}

/// Builds a complete SOC frame: flag, escaped header and payload, escaped
/// little-endian CRC16 of the unescaped header and payload, flag.
pub fn build_soc_frame(cmd: u32, address: u32, payload: &[u8], sn: u16) -> (frame: Vec<u8>)
    ensures
        frame@ == soc_frame(cmd, address, payload@, sn),
{
    let header = build_soc_header(cmd, address, payload.len() as u32, sn);
    let mut raw: Vec<u8> = Vec::new();
    push_all(&mut raw, &header);
    push_all(&mut raw, payload);
    let crc = crc16_modbus(raw.as_slice());
    let mut crc_bytes: Vec<u8> = Vec::new();
    push_u16_le(&mut crc_bytes, crc);
    let mut frame: Vec<u8> = Vec::new();
    frame.push(SOC_FLAG);
    push_escaped(&mut frame, raw.as_slice());
    push_escaped(&mut frame, crc_bytes.as_slice());
    frame.push(SOC_FLAG);
    assert(raw@ =~= soc_raw(cmd, address, payload@, sn));
    assert(frame@ =~= soc_frame(cmd, address, payload@, sn));
    frame
}

/// Builds the CMD_GET_BASE_INFO probe frame that makes the firmware flush
/// its buffered log output.
pub fn build_log_probe() -> (frame: Vec<u8>)
    ensures
        frame@ == soc_frame(SOC_CMD_GET_BASE_INFO, 0, seq![], 1),
{
    let empty: Vec<u8> = Vec::new();
    let f = build_soc_frame(SOC_CMD_GET_BASE_INFO, 0, empty.as_slice(), 1);
    assert(empty@ =~= Seq::<u8>::empty());
    f
}

/// A parsed SOC response.
pub struct SocResponse {
    pub cmd: u32,
    pub address: u32,
    pub sn: u16,
    pub data: Vec<u8>,
}

/// A response as plain values: (cmd, address, sn, data).
pub open spec fn soc_response_model(r: SocResponse) -> (u32, u32, u16, Seq<u8>) {
    (r.cmd, r.address, r.sn, r.data@)
}

/// What a complete, unescaped frame body (header, payload, CRC) yields: a
/// response when the trailing CRC matches, nothing otherwise.
pub open spec fn soc_parse_frame(buf: Seq<u8>) -> Option<(u32, u32, u16, Seq<u8>)> {
    if buf.len() < SOC_HEADER_LEN + 2 {
        None
    } else {
        let payload = buf.subrange(0, buf.len() - 2);
        if le_u16_at(buf, buf.len() - 2) != crc16_modbus_spec(payload) {
            None
        } else {
            Some(
                (
                    le_u32_at(payload, 16),
                    le_u32_at(payload, 8),
                    le_u16_at(payload, 20),
                    payload.subrange(SOC_HEADER_LEN as int, payload.len() as int),
                ),
            )
        }
    }
}

/// The byte an escape sequence `0xA6 b` stands for.
pub open spec fn soc_unescape(b: u8) -> u8 {
    if b == SOC_ESC_FLAG {
        SOC_FLAG
    } else if b == SOC_ESC_CODE {
        SOC_ESC
    } else {
        b & 0x03
    }
}

/// A response as plain values: (cmd, address, sn, data).
pub type SocReply = (u32, u32, u16, Seq<u8>);

/// Receiver state: (unescaped body so far, inside a frame, escape pending).
pub type SocRxState = (Seq<u8>, bool, bool);

/// One received byte: the next receiver state and the response it completes.
pub open spec fn soc_step(st: SocRxState, b: u8) -> (SocRxState, Option<(u32, u32, u16, Seq<u8>)>) {
    let buf = st.0;
    let in_frame = st.1;
    let esc = st.2;
    if b == SOC_FLAG {
        (
            (seq![], true, false),
            if in_frame && buf.len() >= SOC_HEADER_LEN + 2 {
                soc_parse_frame(buf)
            } else {
                None
            },
        )
    } else if !in_frame {
        (st, None)
    } else if b == SOC_ESC {
        ((buf, in_frame, true), None)
    } else if esc {
        ((buf.push(soc_unescape(b)), in_frame, false), None)
    } else if buf.len() + 1 > SOC_MAX_BODY {
        ((seq![], false, esc), None)
    } else {
        ((buf.push(b), in_frame, esc), None)
    }
}

pub open spec fn opt_seq<T>(o: Option<T>) -> Seq<T> {
    match o {
        Some(x) => seq![x],
        None => seq![],
    }
}

/// Feeding a byte sequence: the final state and the responses, in order.
pub open spec fn soc_feed(st: SocRxState, data: Seq<u8>) -> (SocRxState, Seq<(u32, u32, u16, Seq<u8>)>)
    decreases data.len(),
{
    if data.len() == 0 {
        (st, seq![])
    } else {
        let prev = soc_feed(st, data.drop_last());
        let next = soc_step(prev.0, data.last());
        (next.0, prev.1 + opt_seq(next.1))
    }
}

/// The state of a freshly created receiver.
pub open spec fn soc_fresh() -> SocRxState {
    (seq![], false, false)
}

/// SOC frame receiver: accumulates bytes and extracts complete frames.
pub struct SocFrameParser {
    buf: Vec<u8>,
    in_frame: bool,
    escape_next: bool,
}

impl SocFrameParser {
    /// The receiver state as plain values.
    pub closed spec fn state(&self) -> SocRxState {
        (self.buf@, self.in_frame, self.escape_next)
    }

    pub fn new() -> (p: Self)
        ensures
            p.state() == soc_fresh(),
    {
        let p = Self { buf: Vec::new(), in_frame: false, escape_next: false };
        assert(p.buf@ =~= Seq::<u8>::empty());
        p
    }

    /// Feeds raw bytes and returns the responses of the frames they complete.
    pub fn feed(&mut self, data: &[u8]) -> (responses: Vec<SocResponse>)
        ensures
            final(self).state() == soc_feed(old(self).state(), data@).0,
            responses@.len() == soc_feed(old(self).state(), data@).1.len(),
            forall|k: int|
                0 <= k < responses@.len() ==> soc_response_model(#[trigger] responses@[k])
                    == soc_feed(old(self).state(), data@).1[k],
    {
        let ghost st0 = self.state();
        let mut responses: Vec<SocResponse> = Vec::new();
        let mut i: usize = 0;
        while i < data.len()
            invariant
                i <= data@.len(),
                self.state() == soc_feed(st0, data@.subrange(0, i as int)).0,
                responses@.len() == soc_feed(st0, data@.subrange(0, i as int)).1.len(),
                forall|k: int|
                    0 <= k < responses@.len() ==> soc_response_model(#[trigger] responses@[k])
                        == soc_feed(st0, data@.subrange(0, i as int)).1[k],
            decreases data@.len() - i,
        {
            let b = data[i];
            let ghost before = self.state();
            let ghost old_len = responses@.len();
            let ghost old_resps = responses@;
            proof {
                let s = data@.subrange(0, i as int + 1);
                assert(s.drop_last() =~= data@.subrange(0, i as int));
                assert(s.last() == b);
            }
            if b == SOC_FLAG {
                if self.in_frame && self.buf.len() >= SOC_HEADER_LEN + 2 {
                    match self.parse_frame() {
                        Some(resp) => {
                            responses.push(resp);
                        },
                        None => {},
                    }
                }
                self.buf.clear();
                self.in_frame = true;
                self.escape_next = false;
            } else if !self.in_frame {
            } else if b == SOC_ESC {
                self.escape_next = true;
            } else if self.escape_next {
                let actual = if b == SOC_ESC_FLAG {
                    SOC_FLAG
                } else if b == SOC_ESC_CODE {
                    SOC_ESC
                } else {
                    b & 0x03
                };
                self.buf.push(actual);
                self.escape_next = false;
            } else {
                self.buf.push(b);
                if self.buf.len() > SOC_MAX_BODY {
                    self.buf.clear();
                    self.in_frame = false;
                }
            }
            proof {
                let s = data@.subrange(0, i as int + 1);
                let step = soc_step(before, b);
                assert(self.state() =~= step.0);
                assert(responses@.len() == old_len + opt_seq(step.1).len());
                assert forall|k: int| 0 <= k < responses@.len() implies soc_response_model(#[trigger] responses@[k])
                    == soc_feed(st0, s).1[k] by {
                    if k < old_len {
                        assert(responses@[k] == old_resps[k]);
                    }
                }
            }
            i = i + 1;
        }
        proof {
            assert(data@.subrange(0, data@.len() as int) =~= data@);
        }
        responses
    }

    /// Checks the CRC of the accumulated frame body and extracts the response.
    fn parse_frame(&self) -> (r: Option<SocResponse>)
        ensures
            match r {
                Some(resp) => soc_parse_frame(self.buf@) == Some(soc_response_model(resp)),
                None => soc_parse_frame(self.buf@) is None,
            },
    {
        let n = self.buf.len();
        if n < SOC_HEADER_LEN + 2 {
            return None;
        }
        let data = self.buf.as_slice();
        let payload = &data[0..n - 2];
        let crc_received = read_u16_le(data, n - 2);
        let crc_computed = crc16_modbus(payload);
        if crc_received != crc_computed {
            return None;
        }
        let address = read_u32_le(payload, 8);
        let cmd = read_u32_le(payload, 16);
        let sn = read_u16_le(payload, 20);
        let mut body: Vec<u8> = Vec::new();
        push_all(&mut body, &payload[SOC_HEADER_LEN..n - 2]);
        Some(SocResponse { cmd, address, sn, data: body })
    }
}

/// Feeding a stream in two pieces leaves the receiver in the same state and
/// yields the same responses, in the same order, as feeding it at once.
pub proof fn lemma_soc_feed_append(st: SocRxState, a: Seq<u8>, b: Seq<u8>)
    ensures
        soc_feed(st, a + b) == (
            soc_feed(soc_feed(st, a).0, b).0,
            soc_feed(st, a).1 + soc_feed(soc_feed(st, a).0, b).1,
        ),
    decreases b.len(),
{
    if b.len() == 0 {
        assert(a + b =~= a);
        assert(soc_feed(st, a).1 + soc_feed(soc_feed(st, a).0, b).1 =~= soc_feed(st, a).1);
    } else {
        lemma_soc_feed_append(st, a, b.drop_last());
        assert((a + b).drop_last() =~= a + b.drop_last());
        assert((a + b).last() == b.last());
        let mid = soc_feed(st, a);
        let x = soc_feed(mid.0, b.drop_last());
        let y = soc_step(x.0, b.last());
        assert(soc_feed(st, a + b).1 =~= (mid.1 + x.1) + opt_seq(y.1));
        assert(soc_feed(mid.0, b).1 =~= x.1 + opt_seq(y.1));
        assert((mid.1 + x.1) + opt_seq(y.1) =~= mid.1 + (x.1 + opt_seq(y.1)));
    }
}

proof fn lemma_soc_feed_one(st: SocRxState, x: u8)
    ensures
        soc_feed(st, seq![x]) == (soc_step(st, x).0, opt_seq(soc_step(st, x).1)),
{
    assert(seq![x].drop_last() =~= Seq::<u8>::empty());
    assert(seq![x].last() == x);
    assert(soc_feed(st, Seq::<u8>::empty()) == (st, Seq::<SocReply>::empty()));
    assert(Seq::<SocReply>::empty() + opt_seq(soc_step(st, x).1) =~= opt_seq(soc_step(st, x).1));
}

proof fn lemma_soc_feed_two(st: SocRxState, x: u8, y: u8)
    ensures
        soc_feed(st, seq![x, y]) == (
            soc_step(soc_step(st, x).0, y).0,
            opt_seq(soc_step(st, x).1) + opt_seq(soc_step(soc_step(st, x).0, y).1),
        ),
{
    assert(seq![x, y].drop_last() =~= seq![x]);
    assert(seq![x, y].last() == y);
    lemma_soc_feed_one(st, x);
}

/// Inside a frame, the escaped form of `s` appends exactly `s` to the body
/// and completes no response, as long as the body stays within bounds.
proof fn lemma_soc_feed_escaped(buf: Seq<u8>, s: Seq<u8>)
    requires
        buf.len() + s.len() <= SOC_MAX_BODY,
    ensures
        soc_feed((buf, true, false), soc_escape_spec(s)) == ((buf + s, true, false), Seq::<(u32, u32, u16, Seq<u8>)>::empty()),
    decreases s.len(),
{
    if s.len() == 0 {
        assert(buf + s =~= buf);
    } else {
        let init = s.drop_last();
        let x = s.last();
        lemma_soc_feed_escaped(buf, init);
        lemma_soc_feed_append((buf, true, false), soc_escape_spec(init), soc_escape_byte(x));
        let st = (buf + init, true, false);
        assert(buf + s =~= (buf + init).push(x));
        if x == SOC_FLAG {
            lemma_soc_feed_two(st, SOC_ESC, SOC_ESC_FLAG);
        } else if x == SOC_ESC {
            lemma_soc_feed_two(st, SOC_ESC, SOC_ESC_CODE);
        } else {
            lemma_soc_feed_one(st, x);
        }
        assert(Seq::<(u32, u32, u16, Seq<u8>)>::empty() + Seq::<(u32, u32, u16, Seq<u8>)>::empty()
            =~= Seq::<(u32, u32, u16, Seq<u8>)>::empty());
    }
}

/// A frame built by `build_soc_frame`, fed to a fresh receiver, yields
/// exactly one response carrying the command, address, serial number and
/// payload it was built from (for payloads the receiver accepts).
pub proof fn lemma_soc_frame_roundtrip(cmd: u32, address: u32, payload: Seq<u8>, sn: u16)
    requires
        payload.len() + SOC_HEADER_LEN + 2 <= SOC_MAX_BODY,
    ensures
        soc_feed(soc_fresh(), soc_frame(cmd, address, payload, sn)) == (
            (Seq::<u8>::empty(), true, false),
            seq![(cmd, address, sn, payload)],
        ),
{
    let raw = soc_raw(cmd, address, payload, sn);
    let crc = crc16_modbus_spec(raw);
    let cb = u16_le(crc);
    let e_raw = soc_escape_spec(raw);
    let e_crc = soc_escape_spec(cb);
    let a1 = seq![SOC_FLAG];
    let a2 = a1 + e_raw;
    let a3 = a2 + e_crc;
    assert(soc_frame(cmd, address, payload, sn) == a3 + seq![SOC_FLAG]);
    // opening flag
    lemma_soc_feed_one(soc_fresh(), SOC_FLAG);
    let s1: SocRxState = (Seq::<u8>::empty(), true, false);
    assert(soc_feed(soc_fresh(), a1) == (s1, Seq::<SocReply>::empty()));
    // escaped header and payload
    lemma_soc_feed_escaped(Seq::<u8>::empty(), raw);
    lemma_soc_feed_append(soc_fresh(), a1, e_raw);
    assert(Seq::<u8>::empty() + raw =~= raw);
    assert(Seq::<SocReply>::empty() + Seq::<SocReply>::empty() =~= Seq::<SocReply>::empty());
    assert(soc_feed(soc_fresh(), a2) == ((raw, true, false), Seq::<SocReply>::empty()));
    // escaped crc
    lemma_soc_feed_escaped(raw, cb);
    lemma_soc_feed_append(soc_fresh(), a2, e_crc);
    let body = raw + cb;
    assert(soc_feed(soc_fresh(), a3) == ((body, true, false), Seq::<SocReply>::empty()));
    // closing flag
    lemma_soc_feed_one((body, true, false), SOC_FLAG);
    lemma_soc_feed_append(soc_fresh(), a3, seq![SOC_FLAG]);
    // the body parses back
    let n = body.len();
    assert(body.subrange(0, n - 2) =~= raw);
    assert(body[n - 2] == cb[0] && body[n - 1] == cb[1]);
    crate::bytes::lemma_u16_le_roundtrip(crc);
    assert(le_u16_at(body, n - 2) == crc);
    crate::bytes::lemma_u32_le_roundtrip(cmd);
    crate::bytes::lemma_u32_le_roundtrip(address);
    crate::bytes::lemma_u16_le_roundtrip(sn);
    assert(raw[16] == u32_le(cmd)[0] && raw[17] == u32_le(cmd)[1] && raw[18] == u32_le(cmd)[2] && raw[19] == u32_le(cmd)[3]);
    assert(le_u32_at(raw, 16) == cmd);
    assert(raw[8] == u32_le(address)[0] && raw[9] == u32_le(address)[1] && raw[10] == u32_le(address)[2] && raw[11] == u32_le(address)[3]);
    assert(le_u32_at(raw, 8) == address);
    assert(raw[20] == u16_le(sn)[0] && raw[21] == u16_le(sn)[1]);
    assert(le_u16_at(raw, 20) == sn);
    assert(raw.subrange(SOC_HEADER_LEN as int, raw.len() as int) =~= payload);
    assert(soc_parse_frame(body) == Some((cmd, address, sn, payload)));
    assert(Seq::<SocReply>::empty() + seq![(cmd, address, sn, payload)] =~= seq![(cmd, address, sn, payload)]);
}


/// ISP command frame: header, command, two parameters, the data length big
/// endian, then the data (if any).
pub open spec fn isp_frame_spec(cmd: u8, param1: u8, param2: u8, data_len: u16, data: Seq<u8>) -> Seq<u8> {
    seq![ISP_CMD_HEADER, cmd, param1, param2] + u16_be(data_len) + data
}

/// Builds an ISP command frame.
pub fn build_isp_frame(cmd: u8, param1: u8, param2: u8, data_len: u16, data: Option<&[u8]>) -> (f: Vec<u8>)
    ensures
        f@ == isp_frame_spec(
            cmd,
            param1,
            param2,
            data_len,
            match data {
                Some(d) => d@,
                None => Seq::<u8>::empty(),
            },
        ),
{
    let mut f: Vec<u8> = Vec::new();
    f.push(ISP_CMD_HEADER);
    f.push(cmd);
    f.push(param1);
    f.push(param2);
    push_u16_be(&mut f, data_len);
    match data {
        Some(d) => {
            push_all(&mut f, d);
            assert(f@ =~= isp_frame_spec(cmd, param1, param2, data_len, d@));
        },
        None => {
            assert(f@ =~= isp_frame_spec(cmd, param1, param2, data_len, Seq::<u8>::empty()));
        },
    }
    f
}

/// Scanning received bytes for the acknowledgement of `cmd`: bytes before
/// an `0x72 cmd` header are dropped; the acknowledgement is complete once
/// its big-endian length and that many data bytes have arrived. Returns the
/// bytes left to scan and the acknowledgement data, if complete.
pub open spec fn isp_scan(buf: Seq<u8>, cmd: u8) -> (Seq<u8>, Option<Seq<u8>>)
    decreases buf.len(),
{
    if buf.len() < 4 {
        (buf, None)
    } else if buf[0] == ISP_ACK_HEADER && buf[1] == cmd {
        if buf.len() >= be_u16_at(buf, 2) + 4 {
            (buf, Some(buf.subrange(4, be_u16_at(buf, 2) + 4)))
        } else {
            (buf, None)
        }
    } else {
        isp_scan(buf.subrange(1, buf.len() as int), cmd)
    }
}

/// Scans `buf` for the acknowledgement of `cmd` (see `isp_scan`); on
/// return `buf` holds the bytes still to scan.
pub fn isp_take_ack(buf: &mut Vec<u8>, cmd: u8) -> (r: Option<Vec<u8>>)
    ensures
        final(buf)@ == isp_scan(old(buf)@, cmd).0,
        match r {
            Some(d) => isp_scan(old(buf)@, cmd).1 == Some(d@),
            None => isp_scan(old(buf)@, cmd).1 is None,
        },
{
    let mut start: usize = 0;
    let n = buf.len();
    assert(buf@.subrange(0, n as int) =~= buf@);
    while n - start >= 4
        invariant
            n == buf@.len(),
            buf@ == old(buf)@,
            start <= n,
            isp_scan(buf@.subrange(start as int, n as int), cmd) == isp_scan(old(buf)@, cmd),
        decreases n - start,
    {
        let ghost rest = buf@.subrange(start as int, n as int);
        if buf[start] == ISP_ACK_HEADER && buf[start + 1] == cmd {
            let len = read_u16_be(buf.as_slice(), start + 2) as usize;
            assert(be_u16_at(rest, 2) == len);
            let mut tail: Vec<u8> = Vec::new();
            push_all(&mut tail, &buf.as_slice()[start..n]);
            assert(tail@ =~= rest);
            *buf = tail;
            if n - start >= len + 4 {
                let mut d: Vec<u8> = Vec::new();
                push_all(&mut d, &buf.as_slice()[4..len + 4]);
                assert(d@ =~= rest.subrange(4, len + 4));
                return Some(d);
            }
            return None;
        }
        assert(rest.subrange(1, rest.len() as int) =~= buf@.subrange(start + 1, n as int));
        start = start + 1;
    }
    let ghost rest = buf@.subrange(start as int, n as int);
    let mut tail: Vec<u8> = Vec::new();
    push_all(&mut tail, &buf.as_slice()[start..n]);
    assert(tail@ =~= rest);
    *buf = tail;
    None
}

/// The serial number of the next SOC command: one more, skipping zero.
pub fn next_sn(sn: u16) -> (r: u16)
    ensures
        r == if sn == 0xFFFF { 1 } else { sn + 1 },
{
    let n = sn.wrapping_add(1);
    if n == 0 {
        1
    } else {
        n
    }
}

/// RAM base parameter of the `k`-th 512-byte WRITE_RAM chunk: starts at
/// 0x30 and advances by 2 per chunk, wrapping at 256.
pub fn isp_write_ram_base(k: u32) -> (r: u8)
    ensures
        r == (0x30 + 2 * k) % 256,
{
    let low = (k % 128) as u8;
    let r = 0x30u8.wrapping_add(low.wrapping_mul(2));
    assert(r == (0x30 + 2 * k) % 256) by (nonlinear_arith)
        requires
            low == k % 128,
            r == (0x30 + ((low * 2) % 256)) % 256,
    ;
    r
}

/// Jump parameters of the ISP EXECUTE command: bytes 5 and 4 of the RAM runner.
pub fn isp_execute_params(ramrun: &[u8]) -> (r: (u8, u8))
    requires
        ramrun@.len() >= 6,
    ensures
        r == (ramrun@[5], ramrun@[4]),
{
    (ramrun[5], ramrun[4])
}

/// The MD5 digest of `data`.
pub uninterp spec fn md5_digest(data: Seq<u8>) -> Seq<u8>;

/// Calls `md5::compute`: the 16-byte MD5 digest of `data`.
#[verifier::external_body]
fn md5_compute(data: &[u8]) -> (d: [u8; 16])
    ensures
        d@ == md5_digest(data@),
{
    md5::compute(data).0
}

/// Does the digest the device reported for a download match the MD5 of the
/// data that was sent? (Equal lowercase hex strings exactly when the bytes
/// are equal.)
pub fn soc_md5_matches(device_md5: &[u8], data: &[u8]) -> (r: bool)
    ensures
        r == (device_md5@ == md5_digest(data@)),
{
    let expected = md5_compute(data);
    bytes_eq(device_md5, &expected)
}


/// Size of one SET_CODE_DATA command's data.
pub const SOC_SECTION_LEN: usize = 3072;

/// The download block size a GET_DOWNLOAD_INFO reply gives (0 when the
/// reply is too short).
pub fn download_block_len(data: &[u8]) -> (r: u32)
    ensures
        r == if data@.len() >= 4 { le_u32_at(data@, 0) } else { 0 },
{
    if data.len() >= 4 {
        read_u32_le(data, 0)
    } else {
        0
    }
}

/// One command of a SOC download.
#[derive(Debug, Clone, Copy, PartialEq, Eq, Structural)]
pub enum SocDownloadStep {
    /// SET_CODE_DATA_START at `addr`, announcing a block of `len` bytes.
    Start { addr: u32, len: u32 },
    /// SET_CODE_DATA with the bytes `start..end` of the image.
    Data { start: usize, end: usize },
    /// SET_CODE_END of the block (not compressed).
    End,
}

/// The sections of one block: `start..block_end` in pieces of at most 3072.
pub open spec fn section_steps(start: int, block_end: int) -> Seq<SocDownloadStep>
    decreases block_end - start,
{
    if start >= block_end {
        seq![]
    } else {
        let end = if block_end - start > 3072 { start + 3072 } else { block_end };
        seq![SocDownloadStep::Data { start: start as usize, end: end as usize }] + section_steps(end, block_end)
    }
}

/// The commands that download bytes `off..total` of an image whose byte
/// `off` goes to `addr`, in blocks of `block_len`: each block is announced,
/// sent in sections and closed.
pub open spec fn download_steps(addr: int, off: int, total: int, block_len: int) -> Seq<SocDownloadStep>
    decreases total - off,
{
    if off >= total || block_len <= 0 {
        seq![]
    } else {
        let len = if total - off > block_len { block_len } else { total - off };
        seq![SocDownloadStep::Start { addr: addr as u32, len: len as u32 }] + section_steps(off, off + len) + seq![
            SocDownloadStep::End,
        ] + download_steps(addr + len, off + len, total, block_len)
    }
}

/// Plans the download of `total` bytes to `address` in blocks of
/// `block_len` (the MD5 check that follows is not part of the plan).
pub fn soc_download_plan(address: u32, total: usize, block_len: u32) -> (steps: Vec<SocDownloadStep>)
    requires
        block_len > 0,
        address + total <= u32::MAX,
    ensures
        steps@ == download_steps(address as int, 0, total as int, block_len as int),
{
    let mut steps: Vec<SocDownloadStep> = Vec::new();
    let mut done: usize = 0;
    let mut cur_addr: u32 = address;
    while done < total
        invariant
            done <= total,
            block_len > 0,
            address + total <= u32::MAX,
            cur_addr == address + done,
            steps@ + download_steps(cur_addr as int, done as int, total as int, block_len as int)
                == download_steps(address as int, 0, total as int, block_len as int),
        decreases total - done,
    {
        let send_len: usize = if (total - done) as u64 > block_len as u64 {
            block_len as usize
        } else {
            total - done
        };
        let block_end = done + send_len;
        let ghost before = steps@;
        steps.push(SocDownloadStep::Start { addr: cur_addr, len: send_len as u32 });
        let mut s = done;
        while s < block_end
            invariant
                done <= s <= block_end,
                block_end <= total,
                steps@ + section_steps(s as int, block_end as int) == before.push(
                    SocDownloadStep::Start { addr: cur_addr, len: send_len as u32 },
                ) + section_steps(done as int, block_end as int),
            decreases block_end - s,
        {
            let e = if block_end - s > SOC_SECTION_LEN {
                s + SOC_SECTION_LEN
            } else {
                block_end
            };
            let ghost b2 = steps@;
            steps.push(SocDownloadStep::Data { start: s, end: e });
            assert(b2 + section_steps(s as int, block_end as int) =~= steps@ + section_steps(e as int, block_end as int));
            s = e;
        }
        assert(section_steps(block_end as int, block_end as int) =~= Seq::<SocDownloadStep>::empty());
        steps.push(SocDownloadStep::End);
        proof {
            let st = SocDownloadStep::Start { addr: cur_addr, len: send_len as u32 };
            let secs = section_steps(done as int, block_end as int);
            assert(steps@ =~= before + seq![st] + secs + seq![SocDownloadStep::End]);
            assert(download_steps(cur_addr as int, done as int, total as int, block_len as int) == seq![st] + secs
                + seq![SocDownloadStep::End] + download_steps(cur_addr + send_len, block_end as int, total as int, block_len as int));
            assert(before + (seq![st] + secs + seq![SocDownloadStep::End] + download_steps(cur_addr + send_len, block_end as int, total as int, block_len as int))
                =~= steps@ + download_steps(cur_addr + send_len, block_end as int, total as int, block_len as int));
        }
        done = block_end;
        cur_addr = cur_addr + send_len as u32;
    }
    assert(steps@ + Seq::<SocDownloadStep>::empty() =~= steps@);
    steps
}

/// The data sections of a plan, in order.
pub open spec fn data_ranges(steps: Seq<SocDownloadStep>) -> Seq<(int, int)>
    decreases steps.len(),
{
    if steps.len() == 0 {
        seq![]
    } else {
        match steps[0] {
            SocDownloadStep::Data { start, end } => seq![(start as int, end as int)] + data_ranges(steps.subrange(1, steps.len() as int)),
            _ => data_ranges(steps.subrange(1, steps.len() as int)),
        }
    }
}

/// Consecutive ranges that run from `a` to `b` without gaps, each non-empty
/// and at most 3072 bytes long.
pub open spec fn tiles(r: Seq<(int, int)>, a: int, b: int) -> bool
    decreases r.len(),
{
    if r.len() == 0 {
        a == b
    } else {
        r[0].0 == a && a < r[0].1 <= a + 3072 && tiles(r.subrange(1, r.len() as int), r[0].1, b)
    }
}

proof fn lemma_data_ranges_append(x: Seq<SocDownloadStep>, y: Seq<SocDownloadStep>)
    ensures
        data_ranges(x + y) == data_ranges(x) + data_ranges(y),
    decreases x.len(),
{
    if x.len() == 0 {
        assert(x + y =~= y);
    } else {
        assert((x + y).subrange(1, (x + y).len() as int) =~= x.subrange(1, x.len() as int) + y);
        lemma_data_ranges_append(x.subrange(1, x.len() as int), y);
    }
}

proof fn lemma_tiles_append(r: Seq<(int, int)>, s: Seq<(int, int)>, a: int, m: int, b: int)
    requires
        tiles(r, a, m),
        tiles(s, m, b),
    ensures
        tiles(r + s, a, b),
    decreases r.len(),
{
    if r.len() == 0 {
        assert(r + s =~= s);
    } else {
        assert((r + s).subrange(1, (r + s).len() as int) =~= r.subrange(1, r.len() as int) + s);
        lemma_tiles_append(r.subrange(1, r.len() as int), s, r[0].1, m, b);
    }
}

proof fn lemma_sections_tile(start: int, block_end: int)
    requires
        0 <= start <= block_end,
        block_end <= usize::MAX,
    ensures
        tiles(data_ranges(section_steps(start, block_end)), start, block_end),
    decreases block_end - start,
{
    if start < block_end {
        let end = if block_end - start > 3072 { start + 3072 } else { block_end };
        lemma_sections_tile(end, block_end);
        let head = seq![SocDownloadStep::Data { start: start as usize, end: end as usize }];
        lemma_data_ranges_append(head, section_steps(end, block_end));
        assert(data_ranges(head) =~= seq![(start, end)]) by {
            assert(head.subrange(1, 1) =~= Seq::<SocDownloadStep>::empty());
            assert(data_ranges(Seq::<SocDownloadStep>::empty()) =~= Seq::<(int, int)>::empty());
            assert(start as usize as int == start);
            assert(end as usize as int == end);
        }
        assert(tiles(seq![(start, end)], start, end)) by {
            assert(seq![(start, end)].subrange(1, 1) =~= Seq::<(int, int)>::empty());
            assert(tiles(Seq::<(int, int)>::empty(), end, end));
        }
        lemma_tiles_append(seq![(start, end)], data_ranges(section_steps(end, block_end)), start, end, block_end);
    } else {
        assert(section_steps(start, block_end) =~= Seq::<SocDownloadStep>::empty());
    }
}

/// The data commands of a download plan send every byte of the image
/// exactly once, in order, in sections of at most 3072 bytes.
pub proof fn lemma_download_covers_image(addr: int, off: int, total: int, block_len: int)
    requires
        0 <= off <= total,
        block_len > 0,
        total <= usize::MAX,
    ensures
        tiles(data_ranges(download_steps(addr, off, total, block_len)), off, total),
    decreases total - off,
{
    if off < total {
        let len = if total - off > block_len { block_len } else { total - off };
        let st = seq![SocDownloadStep::Start { addr: addr as u32, len: len as u32 }];
        let secs = section_steps(off, off + len);
        let en = seq![SocDownloadStep::End];
        let rest = download_steps(addr + len, off + len, total, block_len);
        lemma_download_covers_image(addr + len, off + len, total, block_len);
        lemma_sections_tile(off, off + len);
        lemma_data_ranges_append(st + secs + en, rest);
        lemma_data_ranges_append(st + secs, en);
        lemma_data_ranges_append(st, secs);
        assert(data_ranges(st) =~= Seq::<(int, int)>::empty()) by {
            assert(st.subrange(1, 1) =~= Seq::<SocDownloadStep>::empty());
            assert(data_ranges(Seq::<SocDownloadStep>::empty()) =~= Seq::<(int, int)>::empty());
        }
        assert(data_ranges(en) =~= Seq::<(int, int)>::empty()) by {
            assert(en.subrange(1, 1) =~= Seq::<SocDownloadStep>::empty());
            assert(data_ranges(Seq::<SocDownloadStep>::empty()) =~= Seq::<(int, int)>::empty());
        }
        assert(data_ranges(st + secs + en) =~= data_ranges(secs));
        lemma_tiles_append(data_ranges(secs), data_ranges(rest), off, off + len, total);
    } else {
        assert(download_steps(addr, off, total, block_len) =~= Seq::<SocDownloadStep>::empty());
    }
}

/// The images of a full CCM4211 download and their addresses: bootloader
/// (default 0x10000000), core firmware (default 0x14000000), script.
pub fn ccm4211_image_addrs(bl_addr: Option<u32>, app_addr: Option<u32>, script_addr: u32) -> (r: (u32, u32, u32))
    ensures
        r == (
            match bl_addr { Some(a) => a, None => 0x10000000u32 },
            match app_addr { Some(a) => a, None => 0x14000000u32 },
            script_addr,
        ),
{
    let bl = match bl_addr {
        Some(a) => a,
        None => 0x10000000,
    };
    let app = match app_addr {
        Some(a) => a,
        None => 0x14000000,
    };
    (bl, app, script_addr)
}

} // verus!
