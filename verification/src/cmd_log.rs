//! How a chip's log is read (binary SOC frames or text lines, and at which
//! baud rate), and the format of a binary log recording: raw data with
//! timestamp markers after each pause, in files of bounded size.

use vstd::prelude::*;
use vstd::string::{StrSliceExecFns, StringExecFns};
use crate::bytes::{push_u32_le, push_u64_le, u32_le, u64_le};

verus! {

/// The EC7xx family names.
pub open spec fn is_ec718_chip(chip: Seq<char>) -> bool {
    chip == "ec7xx"@ || chip == "air8000"@ || chip == "air780epm"@ || chip == "air780ehm"@ || chip == "air780ehv"@
        || chip == "air780ehg"@
}

/// The chips whose log is binary: Air1601/Air1602/CCM4211 and EC7xx.
pub open spec fn is_binary_log_chip(chip: Seq<char>) -> bool {
    chip == "air1601"@ || chip == "air1602"@ || chip == "ccm4211"@ || is_ec718_chip(chip)
}

/// (binary log, EC7xx, baud rate) for a chip and the rate asked for.
pub open spec fn log_mode_spec(chip: Seq<char>, requested_baud: u32) -> (bool, bool, u32) {
    (
        is_binary_log_chip(chip),
        is_ec718_chip(chip),
        if is_ec718_chip(chip) && requested_baud == 2_000_000 { 921_600u32 } else { requested_baud },
    )
}

/// (binary log, EC7xx, baud rate): EC7xx logs at 921600 where 2000000 is
/// asked for; every other rate is kept.
pub fn resolve_log_mode(chip: &str, requested_baud: u32) -> (r: (bool, bool, u32))
    ensures
        r == log_mode_spec(chip@, requested_baud),
{
    let c = chip.to_owned();
    let is_ec718 = c == "ec7xx".to_owned() || c == "air8000".to_owned() || c == "air780epm".to_owned() || c
        == "air780ehm".to_owned() || c == "air780ehv".to_owned() || c == "air780ehg".to_owned();
    let use_binary_log = c == "air1601".to_owned() || c == "air1602".to_owned() || c == "ccm4211".to_owned()
        || is_ec718;
    let baud = if is_ec718 && requested_baud == 2_000_000 {
        921_600
    } else {
        requested_baud
    };
    (use_binary_log, is_ec718, baud)
}

/// How each chip's log is read: the EC7xx modules (EC7xx, Air8000,
/// Air780EPM/EHM/EHV/EHG) give a binary EC718 log, read at 921600 where
/// 2000000 is asked for; Air1601, Air1602 and CCM4211 give a binary SOC log
/// at the rate asked for; every other chip gives a text log at the rate
/// asked for.
pub proof fn lemma_log_mode_by_chip(name: Seq<char>, b: u32)
    ensures
        (name == "ec7xx"@ || name == "air8000"@ || name == "air780epm"@ || name == "air780ehm"@
            || name == "air780ehv"@ || name == "air780ehg"@)
            ==> log_mode_spec(name, b) == (true, true, if b == 2_000_000 { 921_600u32 } else { b }),
        (name == "air1601"@ || name == "air1602"@ || name == "ccm4211"@) ==> log_mode_spec(name, b) == (true, false, b),
        !(name == "ec7xx"@ || name == "air8000"@ || name == "air780epm"@ || name == "air780ehm"@
            || name == "air780ehv"@ || name == "air780ehg"@ || name == "air1601"@ || name == "air1602"@
            || name == "ccm4211"@) ==> log_mode_spec(name, b) == (false, false, b),
{
    if name == "air1601"@ {
        reveal_strlit("air1601");
        reveal_strlit("ec7xx");
        assert("ec7xx"@.len() != "air1601"@.len());
        reveal_strlit("air8000");
        assert("air8000"@[3] != "air1601"@[3]);
        reveal_strlit("air780epm");
        assert("air780epm"@.len() != "air1601"@.len());
        reveal_strlit("air780ehm");
        assert("air780ehm"@.len() != "air1601"@.len());
        reveal_strlit("air780ehv");
        assert("air780ehv"@.len() != "air1601"@.len());
        reveal_strlit("air780ehg");
        assert("air780ehg"@.len() != "air1601"@.len());
    }
    if name == "air1602"@ {
        reveal_strlit("air1602");
        reveal_strlit("ec7xx");
        assert("ec7xx"@.len() != "air1602"@.len());
        reveal_strlit("air8000");
        assert("air8000"@[3] != "air1602"@[3]);
        reveal_strlit("air780epm");
        assert("air780epm"@.len() != "air1602"@.len());
        reveal_strlit("air780ehm");
        assert("air780ehm"@.len() != "air1602"@.len());
        reveal_strlit("air780ehv");
        assert("air780ehv"@.len() != "air1602"@.len());
        reveal_strlit("air780ehg");
        assert("air780ehg"@.len() != "air1602"@.len());
    }
    if name == "ccm4211"@ {
        reveal_strlit("ccm4211");
        reveal_strlit("ec7xx");
        assert("ec7xx"@.len() != "ccm4211"@.len());
        reveal_strlit("air8000");
        assert("air8000"@[0] != "ccm4211"@[0]);
        reveal_strlit("air780epm");
        assert("air780epm"@.len() != "ccm4211"@.len());
        reveal_strlit("air780ehm");
        assert("air780ehm"@.len() != "ccm4211"@.len());
        reveal_strlit("air780ehv");
        assert("air780ehv"@.len() != "ccm4211"@.len());
        reveal_strlit("air780ehg");
        assert("air780ehg"@.len() != "ccm4211"@.len());
    }
}

/// Opening bytes of a timestamp marker in a recording.
pub open spec fn marker_magic() -> Seq<u8> {
    seq![0xFFu8, 0xFE, 0xAB, 0xCD]
}

/// Size at which a recording moves on to a new file (200 MiB).
pub const MAX_RECORDING_FILE_BYTES: usize = 209715200;

/// A pause of at least this many milliseconds is marked in a recording.
pub const GAP_THRESHOLD_MS: u64 = 4;

/// A timestamp marker: the magic, the Unix time in milliseconds (64 bits,
/// little endian), and the pause before the data in milliseconds (32 bits,
/// little endian, capped at 2^32 - 1).
pub open spec fn timestamp_marker_spec(ts_ms: u64, gap_ms: u64) -> Seq<u8> {
    marker_magic() + u64_le(ts_ms) + u32_le((if gap_ms > u32::MAX { u32::MAX as int } else { gap_ms as int }) as u32)
}

/// Builds a timestamp marker.
pub fn timestamp_marker(ts_ms: u64, gap_ms: u64) -> (m: Vec<u8>)
    ensures
        m@ == timestamp_marker_spec(ts_ms, gap_ms),
        m@.len() == 16,
{
    let mut m: Vec<u8> = Vec::new();
    m.push(0xFF);
    m.push(0xFE);
    m.push(0xAB);
    m.push(0xCD);
    push_u64_le(&mut m, ts_ms);
    let gap: u32 = if gap_ms > 0xFFFF_FFFF {
        0xFFFF_FFFF
    } else {
        gap_ms as u32
    };
    push_u32_le(&mut m, gap);
    assert(m@ =~= timestamp_marker_spec(ts_ms, gap_ms));
    m
}

/// What recording a chunk of log data does.
#[derive(Debug, Clone, Copy, PartialEq, Eq, Structural)]
pub struct ChunkStep {
    /// Write a timestamp marker before the data.
    pub marker: bool,
    /// After the data, the file is full: continue in a new one.
    pub rotate: bool,
    /// Bytes in the current file afterwards (0 after a rotation).
    pub written: usize,
}

/// Records a chunk of `chunk_len` bytes that arrived `gap_ms` after the
/// previous one into a file holding `written` bytes.
pub fn record_chunk_step(written: usize, gap_ms: u64, chunk_len: usize) -> (r: ChunkStep)
    requires
        written + 16 + chunk_len <= usize::MAX,
    ensures
        r.marker == (gap_ms >= GAP_THRESHOLD_MS),
        ({
            let total = written + (if r.marker { 16int } else { 0int }) + chunk_len;
            &&& r.rotate == (total >= MAX_RECORDING_FILE_BYTES)
            &&& r.written == if r.rotate { 0 } else { total }
        }),
{
    let marker = gap_ms >= GAP_THRESHOLD_MS;
    let total = written + if marker {
        16
    } else {
        0
    } + chunk_len;
    if total >= MAX_RECORDING_FILE_BYTES {
        ChunkStep { marker, rotate: true, written: 0 }
    } else {
        ChunkStep { marker, rotate: false, written: total }
    }
}

/// What `char::is_alphanumeric` says of a character.
pub uninterp spec fn alphanumeric(c: char) -> bool;

/// Calls `char::is_alphanumeric` (the Unicode Alphabetic or Numeric
/// property); among ASCII characters exactly the letters and digits have it.
#[verifier::external_body]
fn char_is_alphanumeric(c: char) -> (r: bool)
    ensures
        r == alphanumeric(c),
        (c as u32) < 128 ==> (r == (('a' <= c && c <= 'z') || ('A' <= c && c <= 'Z') || ('0' <= c && c <= '9'))),
{
    c.is_alphanumeric()
}

/// A character a recording's file name keeps: alphanumeric, '-' or '_';
/// any other becomes '_'.
pub open spec fn safe_name_char(c: char) -> char {
    if alphanumeric(c) || c == '-' || c == '_' {
        c
    } else {
        '_'
    }
}

/// A port name made safe for a file name.
pub fn safe_port_name(port: &str) -> (r: String)
    ensures
        r@ == port@.map_values(|c: char| safe_name_char(c)),
{
    let n = port.unicode_len();
    let mut out = String::new();
    let mut i: usize = 0;
    while i < n
        invariant
            n == port@.len(),
            i <= n,
            out@ == port@.subrange(0, i as int).map_values(|c: char| safe_name_char(c)),
        decreases n - i,
    {
        let c = port.get_char(i);
        let ghost before = out@;
        if char_is_alphanumeric(c) || c == '-' || c == '_' {
            let piece = port.substring_char(i, i + 1);
            assert(piece@ =~= seq![c]);
            out.append(piece);
            assert(out@ =~= before.push(safe_name_char(c)));
        } else {
            out.append("_");
            proof {
                reveal_strlit("_");
            }
            assert("_"@ =~= seq!['_']);
            assert(out@ =~= before.push(safe_name_char(c)));
        }
        assert(port@.subrange(0, i + 1).map_values(|c: char| safe_name_char(c)) =~= port@.subrange(0, i as int).map_values(
            |c: char| safe_name_char(c),
        ).push(safe_name_char(c)));
        i = i + 1;
    }
    assert(port@.subrange(0, n as int) =~= port@);
    out
}

/// The file name of a recording started at local time `ts`
/// ("%Y%m%d_%H%M%S") on a port: `ap_<ts>_<port>.bin`.
pub fn recording_file_name(ts: &str, port_safe: &str) -> (r: String)
    ensures
        r@ == "ap_"@ + ts@ + "_"@ + port_safe@ + ".bin"@,
{
    let mut r = String::from_str("ap_");
    r.append(ts);
    r.append("_");
    r.append(port_safe);
    r.append(".bin");
    r
}

/// Why a binary log has no port to read.
#[derive(Debug, Clone, Copy, PartialEq, Eq, Structural)]
pub enum LogPortError {
    /// "auto" with an EC718 module connected, but no log port found.
    NoEc718LogPort,
    /// "auto" without a supported device connected.
    NoDevice,
}

/// The port a binary log is read from: the one given, or for "auto" the
/// log port of a connected EC718 module.
pub fn binary_log_port(port: &str, ec718_present: bool, ec718_log_port: Option<String>) -> (r: Result<String, LogPortError>)
    ensures
        port@ != "auto"@ ==> (r is Ok && r->Ok_0@ == port@),
        port@ == "auto"@ ==> r == if !ec718_present {
            Err(LogPortError::NoDevice)
        } else {
            match ec718_log_port {
                Some(p) => Ok(p),
                None => Err(LogPortError::NoEc718LogPort),
            }
        },
{
    if !(port.to_owned() == "auto".to_owned()) {
        return Ok(String::from_str(port));
    }
    if !ec718_present {
        return Err(LogPortError::NoDevice);
    }
    match ec718_log_port {
        Some(p) => Ok(p),
        None => Err(LogPortError::NoEc718LogPort),
    }
}

/// EC718's USB port runs at 921600 where 2000000 is asked for.
pub fn binary_log_baud(ec718_present: bool, baud: u32) -> (r: u32)
    ensures
        r == if ec718_present && baud == 2_000_000 { 921_600 } else { baud },
{
    if ec718_present && baud == 2_000_000 {
        921_600
    } else {
        baud
    }
}

} // verus!
