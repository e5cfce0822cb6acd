//! BK7258 (Air8101) ROM bootloader protocol (BK7231 family): command
//! frames and reply checks, flash status-register unprotection, and the
//! erase/write plan of a flash range.
//!
//! Short command: `[01 E0 FC len cmd data..]`, reply `[04 0E len 01 E0 FC cmd ..]`.
//! Long command: `[01 E0 FC FF F4 len_lo len_hi cmd data..]`, reply
//! `[04 0E FF 01 E0 FC F4 len_lo len_hi cmd ..]`.

use vstd::prelude::*;
use vstd::utf8::encode_utf8;
use crate::bytes::{
    bytes_eq, le_u32_at, push_all, push_u16_le, push_u32_le, read_u32_le, str_contains, text_contains, u16_le,
    u32_le,
};

verus! {

/// Flash sector size (4 KiB).
pub const SECTOR_SIZE: usize = 0x1000;
/// Sectors per 64 KiB erase block.
pub const SECTORS_PER_BLOCK: usize = 16;
/// Erase command for one 4 KiB sector.
pub const ERASE_4K: u8 = 0x20;
/// Erase command for one 64 KiB block.
pub const ERASE_64K: u8 = 0xD8;

/// The LinkCheck command.
pub fn link_check_frame() -> (f: [u8; 5])
    ensures
        f@ == seq![0x01u8, 0xE0, 0xFC, 0x01, 0x00],
{
    let f: [u8; 5] = [0x01, 0xE0, 0xFC, 0x01, 0x00];
    assert(f@ =~= seq![0x01u8, 0xE0, 0xFC, 0x01, 0x00]);
    f
}

/// Is this the bootloader's answer to LinkCheck?
pub fn link_check_reply_ok(reply: &[u8]) -> (r: bool)
    ensures
        r == (reply@ == seq![0x04u8, 0x0E, 0x05, 0x01, 0xE0, 0xFC, 0x01, 0x00]),
{
    let ok: [u8; 8] = [0x04, 0x0E, 0x05, 0x01, 0xE0, 0xFC, 0x01, 0x00];
    assert(ok@ =~= seq![0x04u8, 0x0E, 0x05, 0x01, 0xE0, 0xFC, 0x01, 0x00]);
    bytes_eq(reply, &ok)
}

/// The baud rate switch command: rate little endian, then the delay in
/// milliseconds (low byte).
pub fn set_baud_frame(baud: u32, delay_ms: u64) -> (f: Vec<u8>)
    ensures
        f@ == seq![0x01u8, 0xE0, 0xFC, 0x06, 0x0F] + u32_le(baud) + seq![(delay_ms % 256) as u8],
{
    let mut f: Vec<u8> = vec![0x01, 0xE0, 0xFC, 0x06, 0x0F];
    push_u32_le(&mut f, baud);
    f.push((delay_ms % 256) as u8);
    assert(f@ =~= seq![0x01u8, 0xE0, 0xFC, 0x06, 0x0F] + u32_le(baud) + seq![(delay_ms % 256) as u8]);
    f
}

/// Does an 8-byte reply acknowledge the baud rate switch?
pub fn set_baud_reply_ok(reply: &[u8]) -> (r: bool)
    requires
        reply@.len() >= 7,
    ensures
        r == (reply@[0] == 0x04 && reply@[1] == 0x0E && reply@[3] == 0x01 && reply@[4] == 0xE0 && reply@[5]
            == 0xFC && reply@[6] == 0x0F),
{
    reply[0] == 0x04 && reply[1] == 0x0E && reply[3] == 0x01 && reply[4] == 0xE0 && reply[5] == 0xFC && reply[6]
        == 0x0F
}

/// The prefix of every long-command reply.
pub open spec fn long_reply_ok(reply: Seq<u8>) -> bool {
    reply.len() >= 3 && reply[0] == 0x04 && reply[1] == 0x0E && reply[2] == 0xFF
}

/// Does a reply start with the long-command prefix 04 0E FF?
pub fn check_long_reply(reply: &[u8]) -> (r: bool)
    ensures
        r == long_reply_ok(reply@),
{
    reply.len() >= 3 && reply[0] == 0x04 && reply[1] == 0x0E && reply[2] == 0xFF
}

/// The command that reads the flash JEDEC id.
pub fn flash_mid_frame() -> (f: [u8; 12])
    ensures
        f@ == seq![0x01u8, 0xE0, 0xFC, 0xFF, 0xF4, 0x05, 0x00, 0x0E, 0x9F, 0x00, 0x00, 0x00],
{
    let f: [u8; 12] = [0x01, 0xE0, 0xFC, 0xFF, 0xF4, 0x05, 0x00, 0x0E, 0x9F, 0x00, 0x00, 0x00];
    assert(f@ =~= seq![0x01u8, 0xE0, 0xFC, 0xFF, 0xF4, 0x05, 0x00, 0x0E, 0x9F, 0x00, 0x00, 0x00]);
    f
}

/// The flash id of a 15-byte reply: bytes 12, 13, 14 little endian.
pub fn flash_mid_from_reply(reply: &[u8]) -> (r: Option<u32>)
    requires
        reply@.len() >= 15,
    ensures
        r == if long_reply_ok(reply@) {
            Some((reply@[12] + 256 * reply@[13] + 65536 * reply@[14]) as u32)
        } else {
            None
        },
{
    if !check_long_reply(reply) {
        return None;
    }
    Some(reply[12] as u32 + 256 * reply[13] as u32 + 65536 * reply[14] as u32)
}

/// The command that reads one status register byte.
pub fn read_sr_frame(sr_cmd: u8) -> (f: [u8; 9])
    ensures
        f@ == seq![0x01u8, 0xE0, 0xFC, 0xFF, 0xF4, 0x02, 0x00, 0x0C, sr_cmd],
{
    let f: [u8; 9] = [0x01, 0xE0, 0xFC, 0xFF, 0xF4, 0x02, 0x00, 0x0C, sr_cmd];
    assert(f@ =~= seq![0x01u8, 0xE0, 0xFC, 0xFF, 0xF4, 0x02, 0x00, 0x0C, sr_cmd]);
    f
}

/// The status register byte of a 13-byte reply (byte 11).
pub fn sr_from_reply(reply: &[u8]) -> (r: Option<u8>)
    requires
        reply@.len() >= 13,
    ensures
        r == if long_reply_ok(reply@) { Some(reply@[11]) } else { None },
{
    if !check_long_reply(reply) {
        return None;
    }
    Some(reply[11])
}

/// The command that writes a one-byte status register.
pub fn write_sr1_frame(wr_cmd: u8, val: u8) -> (f: [u8; 10])
    ensures
        f@ == seq![0x01u8, 0xE0, 0xFC, 0xFF, 0xF4, 0x03, 0x00, 0x0D, wr_cmd, val],
{
    let f: [u8; 10] = [0x01, 0xE0, 0xFC, 0xFF, 0xF4, 0x03, 0x00, 0x0D, wr_cmd, val];
    assert(f@ =~= seq![0x01u8, 0xE0, 0xFC, 0xFF, 0xF4, 0x03, 0x00, 0x0D, wr_cmd, val]);
    f
}

/// The command that writes both status register bytes (little endian).
pub fn write_sr2_frame(wr_cmd: u8, val: u16) -> (f: Vec<u8>)
    ensures
        f@ == seq![0x01u8, 0xE0, 0xFC, 0xFF, 0xF4, 0x04, 0x00, 0x0D, wr_cmd] + u16_le(val),
{
    let mut f: Vec<u8> = vec![0x01, 0xE0, 0xFC, 0xFF, 0xF4, 0x04, 0x00, 0x0D, wr_cmd];
    push_u16_le(&mut f, val);
    f
}

/// The erase command for the sector or block at `addr`.
pub fn erase_frame(addr: u32, sz_cmd: u8) -> (f: Vec<u8>)
    ensures
        f@ == seq![0x01u8, 0xE0, 0xFC, 0xFF, 0xF4, 0x06, 0x00, 0x0F, sz_cmd] + u32_le(addr),
{
    let mut f: Vec<u8> = vec![0x01, 0xE0, 0xFC, 0xFF, 0xF4, 0x06, 0x00, 0x0F, sz_cmd];
    push_u32_le(&mut f, addr);
    f
}

/// The command that writes one 4 KiB sector at `addr` (body length 4101).
pub fn write_sector_frame(addr: u32, data: &[u8]) -> (f: Vec<u8>)
    ensures
        f@ == seq![0x01u8, 0xE0, 0xFC, 0xFF, 0xF4] + u16_le(4101) + seq![0x07u8] + u32_le(addr) + data@,
{
    let mut f: Vec<u8> = vec![0x01, 0xE0, 0xFC, 0xFF, 0xF4];
    push_u16_le(&mut f, 4101);
    f.push(0x07);
    push_u32_le(&mut f, addr);
    push_all(&mut f, data);
    assert(f@ =~= seq![0x01u8, 0xE0, 0xFC, 0xFF, 0xF4] + u16_le(4101) + seq![0x07u8] + u32_le(addr) + data@);
    f
}

/// Does a 15-byte reply confirm the write at `addr` (echoed at byte 11)?
pub fn write_reply_ok(reply: &[u8], addr: u32) -> (r: bool)
    requires
        reply@.len() >= 15,
    ensures
        r == (long_reply_ok(reply@) && le_u32_at(reply@, 11) == addr),
{
    check_long_reply(reply) && read_u32_le(reply, 11) == addr
}

/// The command that asks the CRC of the flash range `[start, end]`.
pub fn check_crc_frame(start_addr: u32, end_addr: u32) -> (f: Vec<u8>)
    ensures
        f@ == seq![0x01u8, 0xE0, 0xFC, 0x09, 0x10] + u32_le(start_addr) + u32_le(end_addr),
{
    let mut f: Vec<u8> = vec![0x01, 0xE0, 0xFC, 0x09, 0x10];
    push_u32_le(&mut f, start_addr);
    push_u32_le(&mut f, end_addr);
    f
}

/// The CRC of an 11-byte reply to CheckCRC (bytes 7..11 little endian).
pub fn crc_from_reply(reply: &[u8]) -> (r: Option<u32>)
    requires
        reply@.len() >= 11,
    ensures
        r == if reply@[0] == 0x04 && reply@[1] == 0x0E && reply@[6] == 0x10 {
            Some(le_u32_at(reply@, 7))
        } else {
            None
        },
{
    if reply[0] != 0x04 || reply[1] != 0x0E || reply[6] != 0x10 {
        return None;
    }
    Some(read_u32_le(reply, 7))
}

/// Status register layout by flash id: (register bytes, read commands,
/// write-protect mask). Unknown chips of 2 MiB and more have two bytes.
pub open spec fn sr_params(mid: u32) -> (usize, Seq<u8>, u32) {
    if mid == 0x144051 || mid == 0x134051 || mid == 0x14405E || mid == 0x13405E || mid == 0x13311C || mid
        == 0x1464C8 {
        (1, seq![0x05u8, 0xFF], 0x007C)
    } else if mid == 0x15701C {
        (1, seq![0x05u8, 0xFF], 0x003C)
    } else if mid == 0x1423C2 || mid == 0x1523C2 {
        (2, seq![0x05u8, 0x15], 0x3012)
    } else if mid == 0x1560C4 {
        (2, seq![0x05u8, 0x35], 0x407C)
    } else if (mid / 65536) % 256 >= 0x14 {
        (2, seq![0x05u8, 0x35], 0x407C)
    } else {
        (1, seq![0x05u8, 0x35], 0x007C)
    }
}

/// Status register parameters for a flash id.
pub fn flash_sr_params(mid: u32) -> (r: (usize, [u8; 2], u32))
    ensures
        (r.0, r.1@, r.2) == sr_params(mid),
{
    let r: (usize, [u8; 2], u32) = if mid == 0x144051 || mid == 0x134051 || mid == 0x14405E || mid == 0x13405E
        || mid == 0x13311C || mid == 0x1464C8 {
        (1, [0x05, 0xFF], 0x007C)
    } else if mid == 0x15701C {
        (1, [0x05, 0xFF], 0x003C)
    } else if mid == 0x1423C2 || mid == 0x1523C2 {
        (2, [0x05, 0x15], 0x3012)
    } else if mid == 0x1560C4 {
        (2, [0x05, 0x35], 0x407C)
    } else {
        let cap = (mid >> 16) & 0xFF;
        assert(cap == (mid / 65536) % 256) by (bit_vector)
            requires
                cap == (mid >> 16u32) & 0xFFu32,
        ;
        if cap >= 0x14 {
            (2, [0x05, 0x35], 0x407C)
        } else {
            (1, [0x05, 0x35], 0x007C)
        }
    };
    assert(r.1@ =~= sr_params(mid).1);
    r
}

/// What unprotecting the flash writes.
#[derive(Debug, Clone, Copy, PartialEq, Eq, Structural)]
pub enum SrWrite {
    /// Nothing: no protection bit is set.
    AlreadyClear,
    /// Write this value to the one-byte register.
    One(u8),
    /// Write this value to both register bytes.
    Two(u16),
}

/// Whether the status register is read and written as two bytes.
pub fn sr_two_bytes(sz_sr: usize, rd_cmds: [u8; 2]) -> (r: bool)
    ensures
        r == (sz_sr >= 2 && rd_cmds@[1] != 0xFF),
{
    sz_sr >= 2 && rd_cmds[1] != 0xFF
}

/// The write that clears the protection bits `cw_msk` (its low 16 bits)
/// from the register value read (`sr2` is ignored for a one-byte register).
pub fn unprotect_write(two: bool, sr1: u8, sr2: u8, cw_msk: u32) -> (r: SrWrite)
    ensures
        ({
            let val: u16 = if two { (sr2 as u16 * 256 + sr1) as u16 } else { sr1 as u16 };
            let m = (cw_msk % 65536) as u16;
            let nv = val & !m;
            r == if nv == val {
                SrWrite::AlreadyClear
            } else if two {
                SrWrite::Two(nv)
            } else {
                SrWrite::One((nv % 256) as u8)
            }
        }),
{
    let val: u16 = if two {
        ((sr2 as u16) << 8) | (sr1 as u16)
    } else {
        sr1 as u16
    };
    assert(two ==> ((sr2 as u16) << 8u16) | (sr1 as u16) == (sr2 as u16 * 256 + sr1) as u16) by (bit_vector);
    let m = (cw_msk % 65536) as u16;
    let nv = val & !m;
    if nv == val {
        SrWrite::AlreadyClear
    } else if two {
        SrWrite::Two(nv)
    } else {
        SrWrite::One((nv % 256) as u8)
    }
}

/// The erase operations for sectors `c..e`: a 64 KiB block wherever an
/// aligned block lies wholly inside, single sectors elsewhere. Each is
/// (first sector, is a block).
pub open spec fn erase_ops(c: int, e: int) -> Seq<(int, bool)>
    decreases e - c,
{
    if c >= e {
        seq![]
    } else if c % 16 == 0 && c + 16 <= e {
        seq![(c, true)] + erase_ops(c + 16, e)
    } else {
        seq![(c, false)] + erase_ops(c + 1, e)
    }
}

/// The sectors one erase operation covers.
pub open spec fn op_sectors(op: (int, bool)) -> Seq<int> {
    Seq::new(if op.1 { 16 } else { 1 }, |i: int| op.0 + i)
}

/// The sectors a list of erase operations covers, in order.
pub open spec fn covered(ops: Seq<(int, bool)>) -> Seq<int>
    decreases ops.len(),
{
    if ops.len() == 0 {
        seq![]
    } else {
        op_sectors(ops[0]) + covered(ops.subrange(1, ops.len() as int))
    }
}

/// The sectors `c..e` in order.
pub open spec fn sector_range(c: int, e: int) -> Seq<int> {
    Seq::new((e - c) as nat, |i: int| c + i)
}

/// The erase plan of a range erases exactly the sectors of the range, each
/// once and in order, and every 64 KiB block it erases is aligned.
pub proof fn lemma_erase_plan_exact(c: int, e: int)
    requires
        c <= e,
    ensures
        covered(erase_ops(c, e)) == sector_range(c, e),
        forall|k: int| 0 <= k < erase_ops(c, e).len() && (#[trigger] erase_ops(c, e)[k]).1 ==> erase_ops(c, e)[k].0 % 16 == 0,
    decreases e - c,
{
    let ops = erase_ops(c, e);
    if c == e {
        assert(sector_range(c, e) =~= Seq::<int>::empty());
    } else if c % 16 == 0 && c + 16 <= e {
        lemma_erase_plan_exact(c + 16, e);
        assert(ops.subrange(1, ops.len() as int) =~= erase_ops(c + 16, e));
        assert(op_sectors(ops[0]) + sector_range(c + 16, e) =~= sector_range(c, e));
        assert forall|k: int| 0 <= k < ops.len() && (#[trigger] ops[k]).1 implies ops[k].0 % 16 == 0 by {
            if k > 0 {
                assert(ops[k] == erase_ops(c + 16, e)[k - 1]);
            }
        }
    } else {
        lemma_erase_plan_exact(c + 1, e);
        assert(ops.subrange(1, ops.len() as int) =~= erase_ops(c + 1, e));
        assert(op_sectors(ops[0]) + sector_range(c + 1, e) =~= sector_range(c, e));
        assert forall|k: int| 0 <= k < ops.len() && (#[trigger] ops[k]).1 implies ops[k].0 % 16 == 0 by {
            if k > 0 {
                assert(ops[k] == erase_ops(c + 1, e)[k - 1]);
            }
        }
    }
}

/// The erase operations as plain values.
pub open spec fn ops_view(ops: Seq<(usize, bool)>) -> Seq<(int, bool)> {
    ops.map_values(|o: (usize, bool)| (o.0 as int, o.1))
}

/// Plans the erasure of `num_sectors` sectors from the sector holding
/// `start_addr`: single sectors up to a 64 KiB boundary, whole blocks,
/// then single sectors.
pub fn erase_plan(start_addr: u32, num_sectors: usize) -> (ops: Vec<(usize, bool)>)
    requires
        start_addr / 4096 + num_sectors <= usize::MAX,
    ensures
        ops_view(ops@) == erase_ops((start_addr / 4096) as int, start_addr / 4096 + num_sectors),
{
    let first = start_addr as usize / SECTOR_SIZE;
    let end = first + num_sectors;
    let ghost target = erase_ops(first as int, end as int);
    let mut ops: Vec<(usize, bool)> = Vec::new();
    let mut current = first;
    while current < end && current % SECTORS_PER_BLOCK != 0
        invariant
            first <= current <= end,
            ops_view(ops@) + erase_ops(current as int, end as int) == target,
        decreases end - current,
    {
        let ghost before = ops@;
        ops.push((current, false));
        proof {
            assert(ops_view(ops@) =~= ops_view(before).push((current as int, false)));
            assert(erase_ops(current as int, end as int) == seq![(current as int, false)] + erase_ops(current + 1, end as int));
            assert(ops_view(before) + erase_ops(current as int, end as int) =~= ops_view(ops@) + erase_ops(current + 1, end as int));
        }
        current = current + 1;
    }
    while end - current >= SECTORS_PER_BLOCK
        invariant
            first <= current <= end,
            current < end ==> current % 16 == 0,
            ops_view(ops@) + erase_ops(current as int, end as int) == target,
        decreases end - current,
    {
        let ghost before = ops@;
        ops.push((current, true));
        proof {
            assert(ops_view(ops@) =~= ops_view(before).push((current as int, true)));
            assert(erase_ops(current as int, end as int) == seq![(current as int, true)] + erase_ops(current + 16, end as int));
            assert(ops_view(before) + erase_ops(current as int, end as int) =~= ops_view(ops@) + erase_ops(current + 16, end as int));
        }
        current = current + SECTORS_PER_BLOCK;
    }
    while current < end
        invariant
            first <= current <= end,
            end - current < 16,
            ops_view(ops@) + erase_ops(current as int, end as int) == target,
        decreases end - current,
    {
        let ghost before = ops@;
        ops.push((current, false));
        proof {
            assert(ops_view(ops@) =~= ops_view(before).push((current as int, false)));
            assert(erase_ops(current as int, end as int) == seq![(current as int, false)] + erase_ops(current + 1, end as int));
            assert(ops_view(before) + erase_ops(current as int, end as int) =~= ops_view(ops@) + erase_ops(current + 1, end as int));
        }
        current = current + 1;
    }
    assert(ops_view(ops@) + Seq::<(int, bool)>::empty() =~= ops_view(ops@));
    ops
}

/// Number of sectors `len` bytes occupy.
pub fn sector_count(len: usize) -> (r: usize)
    ensures
        r == (len + 4095) / 4096,
{
    len / SECTOR_SIZE + if len % SECTOR_SIZE == 0 {
        0
    } else {
        1
    }
}

/// The address of the sector at byte `offset` from `start_addr`, unless it
/// overflows 32 bits (the offset taken modulo 2^32).
pub fn sector_addr(start_addr: u32, offset: usize) -> (r: Option<u32>)
    ensures
        r == if start_addr + (offset as int) % 0x1_0000_0000 <= u32::MAX {
            Some((start_addr + (offset as int) % 0x1_0000_0000) as u32)
        } else {
            None
        },
{
    let off = (offset as u64 % 0x1_0000_0000) as u32;
    start_addr.checked_add(off)
}

/// Sector `i` of `data`: its bytes, padded with 0xFF to 4096.
pub open spec fn sector_image_spec(data: Seq<u8>, i: int) -> Seq<u8> {
    let off = i * 4096;
    let end = if off + 4096 <= data.len() { off + 4096 } else { data.len() as int };
    data.subrange(off, end) + Seq::new((4096 - (end - off)) as nat, |k: int| 0xFFu8)
}

/// The 4096 bytes written for sector `i` of `data`.
pub fn sector_image(data: &[u8], i: usize) -> (s: Vec<u8>)
    requires
        i * 4096 < data@.len(),
    ensures
        s@ == sector_image_spec(data@, i as int),
        s@.len() == 4096,
{
    let n = data.len();
    let off = i * SECTOR_SIZE;
    let end = if n - off >= SECTOR_SIZE {
        off + SECTOR_SIZE
    } else {
        n
    };
    let mut s: Vec<u8> = Vec::new();
    push_all(&mut s, &data[off..end]);
    let ghost body = data@.subrange(off as int, end as int);
    while s.len() < SECTOR_SIZE
        invariant
            body.len() <= s@.len() <= 4096,
            body == data@.subrange(off as int, end as int),
            s@ == body + Seq::new((s@.len() - body.len()) as nat, |k: int| 0xFFu8),
        decreases 4096 - s@.len(),
    {
        s.push(0xFF);
        assert(s@ =~= body + Seq::new((s@.len() - body.len()) as nat, |k: int| 0xFFu8));
    }
    assert(s@ =~= sector_image_spec(data@, i as int));
    s
}

/// The written sectors `0..n` of `data`, one after another.
pub open spec fn sector_images(data: Seq<u8>, n: int) -> Seq<u8>
    decreases n,
{
    if n <= 0 {
        seq![]
    } else {
        sector_images(data, n - 1) + sector_image_spec(data, n - 1)
    }
}

/// `n` bytes of erased flash (0xFF).
pub open spec fn erased(n: int) -> Seq<u8> {
    Seq::new(n as nat, |k: int| 0xFFu8)
}

proof fn lemma_sector_images_prefix(data: Seq<u8>, n: int)
    requires
        0 <= n <= (data.len() + 4095) / 4096,
    ensures
        sector_images(data, n) == data.subrange(0, if 4096 * n <= data.len() { 4096 * n } else { data.len() as int })
            + erased(4096 * n - (if 4096 * n <= data.len() { 4096 * n } else { data.len() as int })),
    decreases n,
{
    if n == 0 {
        assert(data.subrange(0, 0) + erased(0) =~= Seq::<u8>::empty());
    } else {
        let k = n - 1;
        lemma_sector_images_prefix(data, k);
        assert(4096 * k < data.len());
        let m = if 4096 * n <= data.len() { 4096 * n } else { data.len() as int };
        assert(erased(4096 * k - 4096 * k) =~= Seq::<u8>::empty());
        assert(k * 4096 == 4096 * k);
        let body = data.subrange(4096 * k, m);
        assert(sector_image_spec(data, k) =~= body + erased(4096 - body.len()));
        assert(data.subrange(0, 4096 * k) + body =~= data.subrange(0, m));
        assert(sector_images(data, n) =~= data.subrange(0, m) + erased(4096 * n - m));
    }
}

/// The sectors written for an image hold the whole image in order, then
/// erased bytes (0xFF) up to the next multiple of 4096.
pub proof fn lemma_sectors_cover(data: Seq<u8>)
    ensures
        sector_images(data, ((data.len() + 4095) / 4096) as int) == data + erased(4096 * ((data.len() + 4095) / 4096) - data.len()),
{
    let n = ((data.len() + 4095) / 4096) as int;
    lemma_sector_images_prefix(data, n);
    assert(4096 * n >= data.len());
    assert(data.subrange(0, data.len() as int) =~= data);
}

/// The boot log shows the firmware running: one of "luat:", "ap0:", "ap1:",
/// "LuatOS", "EasyFlash" occurs in it.
pub fn boot_log_passed(log_text: &str) -> (r: bool)
    ensures
        r == (text_contains(log_text@, "luat:"@) || text_contains(log_text@, "ap0:"@) || text_contains(
            log_text@,
            "ap1:"@,
        ) || text_contains(log_text@, "LuatOS"@) || text_contains(log_text@, "EasyFlash"@)),
{
    str_contains(log_text, "luat:") || str_contains(log_text, "ap0:") || str_contains(log_text, "ap1:")
        || str_contains(log_text, "LuatOS") || str_contains(log_text, "EasyFlash")
}

/// The ASCII digits of a byte sequence, in order.
pub open spec fn ascii_digits(s: Seq<u8>) -> Seq<u8>
    decreases s.len(),
{
    if s.len() == 0 {
        seq![]
    } else if 0x30 <= s.last() <= 0x39 {
        ascii_digits(s.drop_last()).push(s.last())
    } else {
        ascii_digits(s.drop_last())
    }
}

/// The port number handed to the external flasher: the digits of the port
/// name ("COM6" gives "6").
pub fn port_number_digits(port: &str) -> (r: Vec<u8>)
    ensures
        r@ == ascii_digits(encode_utf8(port@)),
{
    let b = port.as_bytes();
    let mut r: Vec<u8> = Vec::new();
    let mut i: usize = 0;
    while i < b.len()
        invariant
            i <= b@.len(),
            b@ == encode_utf8(port@),
            r@ == ascii_digits(b@.subrange(0, i as int)),
        decreases b@.len() - i,
    {
        let ghost pre = b@.subrange(0, i as int + 1);
        assert(pre.drop_last() =~= b@.subrange(0, i as int));
        if b[i] >= 0x30 && b[i] <= 0x39 {
            r.push(b[i]);
        }
        i = i + 1;
    }
    assert(b@.subrange(0, b@.len() as int) =~= b@);
    r
}

/// The bootloader's baud rate on connection.
pub const BOOT_BAUD: u32 = 115200;

/// How a native BK7258 flash is set up.
#[derive(Debug, Clone, Copy, PartialEq, Eq, Structural)]
pub struct Bk7258Setup {
    /// Baud rate for the transfer.
    pub flash_baud: u32,
    /// Is a baud switch sent after the link is up?
    pub switch_baud: bool,
    /// Where the firmware is written.
    pub bl_addr: u32,
    /// Where a script image is written.
    pub script_addr: u32,
}

/// The native flash setup: the baud given, else the package's flash baud,
/// switched to only when it is not the bootloader's 115200; the firmware at
/// the package's bootloader address, else 0; a script image at the package's
/// script address, else 0x200000. `bl_addr` and `script_addr` are the
/// addresses the package's address parser read (None where absent or
/// unreadable); they are cut to 32 bits.
pub fn bk7258_setup(baud: Option<u32>, soc_flash_baud: u32, bl_addr: Option<u64>, script_addr: Option<u64>) -> (r:
    Bk7258Setup)
    ensures
        r.flash_baud == match baud {
            Some(b) => b,
            None => soc_flash_baud,
        },
        r.switch_baud == (r.flash_baud != BOOT_BAUD),
        r.bl_addr == match bl_addr {
            Some(a) => a as u32,
            None => 0u32,
        },
        r.script_addr == match script_addr {
            Some(a) => a as u32,
            None => 0x200000u32,
        },
{
    let flash_baud = match baud {
        Some(b) => b,
        None => soc_flash_baud,
    };
    let bl = match bl_addr {
        Some(a) => a as u32,
        None => 0u32,
    };
    let sa = match script_addr {
        Some(a) => a as u32,
        None => 0x200000u32,
    };
    Bk7258Setup { flash_baud, switch_baud: flash_baud != BOOT_BAUD, bl_addr: bl, script_addr: sa }
}

} // verus!
