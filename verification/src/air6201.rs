//! Air6201 external SPI flash programming over UART.
//!
//! Request: `[0xAA] [cmd] [len_hi] [len_lo] [data..] [0x55]`
//! Response: `[0xAA] [cmd] [status] [len_hi] [len_lo] [data..] [0x55]`
//!
//! Partitions: script (512 KiB) at 0, FSKV (64 KiB) at 0x80000, LFS
//! (2 MiB) at 0x90000.

use vstd::prelude::*;
use crate::bytes::{be_u16_at, push_all, push_u32_be, u32_be};
use crate::text::{lowercase, str_to_lowercase};

verus! {

pub const SOF: u8 = 0xAA;
pub const EOF: u8 = 0x55;

pub const CMD_SYNC: u8 = 0x00;
pub const CMD_GET_INFO: u8 = 0x01;
pub const CMD_READ_ID: u8 = 0x02;
pub const CMD_ERASE_PARTITION: u8 = 0x03;
pub const CMD_ERASE_RANGE: u8 = 0x04;
pub const CMD_WRITE: u8 = 0x05;
pub const CMD_READ: u8 = 0x06;
pub const CMD_VERIFY: u8 = 0x07;
pub const CMD_GET_STATUS: u8 = 0x08;
pub const CMD_DATA: u8 = 0x09;
pub const CMD_RESET: u8 = 0x0F;

pub const RESP_OK: u8 = 0x00;
pub const RESP_ERROR: u8 = 0x01;
pub const RESP_VERIFY_FAIL: u8 = 0x06;

/// Marker of a detailed write error in a response.
pub const WRITE_ERR_MARKER: u8 = 0xEE;

/// Bytes written or verified per command.
pub const CHUNK_SIZE: usize = 4096;

/// A partition of the external flash.
#[derive(Debug, Clone, Copy)]
pub struct Partition {
    pub id: u8,
    pub addr: u32,
    pub size: u32,
    pub name: &'static str,
}

/// The script partition: 512 KiB at 0.
pub open spec fn script_partition() -> Partition {
    Partition { id: 0, addr: 0x000000, size: 524288, name: "Script (512KB)" }
}

/// The FSKV partition: 64 KiB at 0x80000.
pub open spec fn fskv_partition() -> Partition {
    Partition { id: 1, addr: 0x080000, size: 65536, name: "FSKV (64KB)" }
}

/// The LFS partition: 2 MiB at 0x90000.
pub open spec fn lfs_partition() -> Partition {
    Partition { id: 2, addr: 0x090000, size: 2097152, name: "LFS (2MB)" }
}

/// The script partition.
pub fn part_script() -> (p: Partition)
    ensures
        p == script_partition(),
{
    Partition { id: 0, addr: 0x000000, size: 524288, name: "Script (512KB)" }
}

/// The FSKV partition.
pub fn part_fskv() -> (p: Partition)
    ensures
        p == fskv_partition(),
{
    Partition { id: 1, addr: 0x080000, size: 65536, name: "FSKV (64KB)" }
}

/// The LFS partition.
pub fn part_lfs() -> (p: Partition)
    ensures
        p == lfs_partition(),
{
    Partition { id: 2, addr: 0x090000, size: 2097152, name: "LFS (2MB)" }
}

/// The partition called `name` (any letter case): script, fskv or lfs.
pub open spec fn partition_named(name: Seq<char>) -> Option<Partition> {
    let n = lowercase(name);
    if n == "script"@ {
        Some(script_partition())
    } else if n == "fskv"@ {
        Some(fskv_partition())
    } else if n == "lfs"@ {
        Some(lfs_partition())
    } else {
        None
    }
}

/// Looks a partition up by name, ignoring letter case.
pub fn partition_by_name(name: &str) -> (r: Option<Partition>)
    ensures
        r == partition_named(name@),
{
    let n = str_to_lowercase(name);
    if n == "script".to_owned() {
        Some(part_script())
    } else if n == "fskv".to_owned() {
        Some(part_fskv())
    } else if n == "lfs".to_owned() {
        Some(part_lfs())
    } else {
        None
    }
}

/// A request frame: SOF, command, data length (low 16 bits) big endian,
/// data, EOF.
pub open spec fn command_frame_spec(cmd: u8, data: Seq<u8>) -> Seq<u8> {
    seq![SOF, cmd, ((data.len() / 256) % 256) as u8, (data.len() % 256) as u8] + data + seq![EOF]
}

/// Builds a request frame.
pub fn command_frame(cmd: u8, data: &[u8]) -> (f: Vec<u8>)
    ensures
        f@ == command_frame_spec(cmd, data@),
{
    let n = data.len();
    let mut f: Vec<u8> = Vec::new();
    f.push(SOF);
    f.push(cmd);
    f.push(((n / 256) % 256) as u8);
    f.push((n % 256) as u8);
    push_all(&mut f, data);
    f.push(EOF);
    assert(f@ =~= command_frame_spec(cmd, data@));
    f
}

/// A response frame.
#[derive(Debug, Clone)]
pub struct Response {
    pub cmd: u8,
    pub status: u8,
    pub data: Vec<u8>,
    /// The frame ended with EOF.
    pub eof_ok: bool,
}

/// The response found in received bytes, as plain values (command, status,
/// data, closed by EOF): bytes before SOF are skipped; SOF is followed by
/// command, status, a big-endian length, that much data and one more byte
/// that should be EOF. None while incomplete.
pub open spec fn response_in(buf: Seq<u8>) -> Option<(u8, u8, Seq<u8>, bool)>
    decreases buf.len(),
{
    if buf.len() == 0 {
        None
    } else if buf[0] != SOF {
        response_in(buf.subrange(1, buf.len() as int))
    } else if buf.len() < 5 {
        None
    } else if buf.len() < 6 + be_u16_at(buf, 3) {
        None
    } else {
        let n = be_u16_at(buf, 3) as int;
        Some((buf[1], buf[2], buf.subrange(5, 5 + n), buf[5 + n] == EOF))
    }
}

/// Finds the response in received bytes (see `response_in`).
pub fn parse_response(buf: &[u8]) -> (r: Option<Response>)
    ensures
        match r {
            Some(resp) => response_in(buf@) == Some((resp.cmd, resp.status, resp.data@, resp.eof_ok)),
            None => response_in(buf@) is None,
        },
{
    let n = buf.len();
    let mut i: usize = 0;
    assert(buf@.subrange(0, n as int) =~= buf@);
    while i < n && buf[i] != SOF
        invariant
            i <= n,
            n == buf@.len(),
            response_in(buf@.subrange(i as int, n as int)) == response_in(buf@),
        decreases n - i,
    {
        let ghost rest = buf@.subrange(i as int, n as int);
        assert(rest.subrange(1, rest.len() as int) =~= buf@.subrange(i + 1, n as int));
        i = i + 1;
    }
    let ghost rest = buf@.subrange(i as int, n as int);
    if i == n {
        return None;
    }
    if n - i < 5 {
        return None;
    }
    let len = buf[i + 3] as usize * 256 + buf[i + 4] as usize;
    assert(be_u16_at(rest, 3) == len);
    if n - i < 6 + len {
        return None;
    }
    let mut data: Vec<u8> = Vec::new();
    push_all(&mut data, &buf[i + 5..i + 5 + len]);
    assert(data@ =~= rest.subrange(5, 5 + len));
    Some(Response { cmd: buf[i + 1], status: buf[i + 2], data, eof_ok: buf[i + 5 + len] == EOF })
}

/// Has the device answered the programming-mode request with "OK\r\n"?
pub fn ok_line_received(buf: &[u8]) -> (r: bool)
    ensures
        r == (buf@.len() >= 4 && buf@.subrange(buf@.len() - 4, buf@.len() as int) == seq![
            0x4Fu8,
            0x4B,
            0x0D,
            0x0A,
        ]),
{
    let n = buf.len();
    if n < 4 {
        return false;
    }
    let r = buf[n - 4] == 0x4F && buf[n - 3] == 0x4B && buf[n - 2] == 0x0D && buf[n - 1] == 0x0A;
    assert(r == (buf@.subrange(n - 4, n as int) =~= seq![0x4Fu8, 0x4B, 0x0D, 0x0A]));
    r
}

/// The request that enters external flash programming: "EXT_PROG\n".
pub fn ext_prog_command() -> (c: [u8; 9])
    ensures
        c@ == seq![0x45u8, 0x58, 0x54, 0x5F, 0x50, 0x52, 0x4F, 0x47, 0x0A],
{
    let c: [u8; 9] = [0x45, 0x58, 0x54, 0x5F, 0x50, 0x52, 0x4F, 0x47, 0x0A];
    assert(c@ =~= seq![0x45u8, 0x58, 0x54, 0x5F, 0x50, 0x52, 0x4F, 0x47, 0x0A]);
    c
}

/// The flash id of a READ_ID response: three bytes big endian, when the
/// status is OK and at least three bytes came back.
pub fn flash_id_from(status: u8, data: &[u8]) -> (r: Option<u32>)
    ensures
        r == if status == RESP_OK && data@.len() >= 3 {
            Some((data@[0] * 65536 + data@[1] * 256 + data@[2]) as u32)
        } else {
            None
        },
{
    if status == RESP_OK && data.len() >= 3 {
        Some(data[0] as u32 * 65536 + data[1] as u32 * 256 + data[2] as u32)
    } else {
        None
    }
}

/// Arguments of WRITE and VERIFY: address and length big endian, then the data.
pub fn chunk_packet(addr: u32, chunk: &[u8]) -> (p: Vec<u8>)
    requires
        chunk@.len() <= u32::MAX,
    ensures
        p@ == u32_be(addr) + u32_be(chunk@.len() as u32) + chunk@,
{
    let mut p: Vec<u8> = Vec::new();
    push_u32_be(&mut p, addr);
    push_u32_be(&mut p, chunk.len() as u32);
    push_all(&mut p, chunk);
    assert(p@ =~= u32_be(addr) + u32_be(chunk@.len() as u32) + chunk@);
    p
}

/// Text of the detailed write error codes.
pub open spec fn write_error_text(code: u8) -> &'static str {
    if code == 0xFF {
        "未初始化"
    } else if code == 0xFE {
        "SPI失败"
    } else if code == 0xFD {
        "忙超时"
    } else {
        "未知错误"
    }
}

/// The detail of a failed write: the error text and the flash status, when
/// the response carries the error marker at byte 8.
pub fn write_error_detail(data: &[u8]) -> (r: Option<(&'static str, u8)>)
    ensures
        r == if data@.len() >= 12 && data@[8] == WRITE_ERR_MARKER {
            Some((write_error_text(data@[9]), data@[10]))
        } else {
            None
        },
{
    if data.len() >= 12 && data[8] == WRITE_ERR_MARKER {
        let code = data[9];
        let text = if code == 0xFF {
            "未初始化"
        } else if code == 0xFE {
            "SPI失败"
        } else if code == 0xFD {
            "忙超时"
        } else {
            "未知错误"
        };
        Some((text, data[10]))
    } else {
        None
    }
}

/// Data fits its partition.
pub fn fits_partition(part: &Partition, len: usize) -> (r: bool)
    ensures
        r == (len <= part.size),
{
    len as u64 <= part.size as u64
}

} // verus!
