//! XT804 (Air6208 / Air101) serial download: the bootloader's fixed
//! command frames, its 'C'/'P' readiness signal, XMODEM-1K blocks and the
//! image header check.

use vstd::prelude::*;
use vstd::slice::slice_subrange;
use crate::bytes::{le_u32_at, push_all, read_u32_le, u16_be};
use crate::checksum::crc16_ccitt_spec;

pub use crate::checksum::crc16_ccitt;

verus! {

pub const XMODEM_SOH: u8 = 0x01;
pub const XMODEM_STX: u8 = 0x02;
pub const XMODEM_EOT: u8 = 0x04;
pub const XMODEM_ACK: u8 = 0x06;
pub const XMODEM_NAK: u8 = 0x15;
pub const XMODEM_CAN: u8 = 0x18;

pub const XMODEM_DATA_SIZE_1K: usize = 1024;
pub const XMODEM_CRC_SIZE: usize = 2;
/// Tries per XMODEM block before giving up.
pub const XMODEM_MAX_TRIES: u32 = 100;

pub const IMAGE_HEADER_SIZE: usize = 256;
pub const IMAGE_MAGIC: u32 = 0xA0FFFF9F;

/// The bootloader command that switches to `baud` (115200 for any rate
/// it does not know).
pub open spec fn baud_cmd_spec(baud: u32) -> Seq<u8> {
    if baud == 460800 {
        seq![0x21u8, 0x0a, 0x00, 0x07, 0x00, 0x31, 0x00, 0x00, 0x00, 0x00, 0x08, 0x07, 0x00]
    } else if baud == 921600 {
        seq![0x21u8, 0x0a, 0x00, 0x5d, 0x63, 0x31, 0x00, 0x00, 0x00, 0x00, 0x10, 0x0e, 0x00]
    } else if baud == 1000000 {
        seq![0x21u8, 0x0a, 0x00, 0x7e, 0x1a, 0x31, 0x00, 0x00, 0x00, 0x40, 0x42, 0x0f, 0x00]
    } else if baud == 2000000 {
        seq![0x21u8, 0x0a, 0x00, 0xef, 0x2a, 0x31, 0x00, 0x00, 0x00, 0x80, 0x84, 0x1e, 0x00]
    } else {
        seq![0x21u8, 0x0a, 0x00, 0x97, 0x4b, 0x31, 0x00, 0x00, 0x00, 0x00, 0xc2, 0x01, 0x00]
    }
}

/// The command frame that switches the bootloader to `baud`.
pub fn get_baud_cmd(baud: u32) -> (c: [u8; 13])
    ensures
        c@ == baud_cmd_spec(baud),
{
    let c: [u8; 13] = if baud == 460800 {
        [0x21, 0x0a, 0x00, 0x07, 0x00, 0x31, 0x00, 0x00, 0x00, 0x00, 0x08, 0x07, 0x00]
    } else if baud == 921600 {
        [0x21, 0x0a, 0x00, 0x5d, 0x63, 0x31, 0x00, 0x00, 0x00, 0x00, 0x10, 0x0e, 0x00]
    } else if baud == 1000000 {
        [0x21, 0x0a, 0x00, 0x7e, 0x1a, 0x31, 0x00, 0x00, 0x00, 0x40, 0x42, 0x0f, 0x00]
    } else if baud == 2000000 {
        [0x21, 0x0a, 0x00, 0xef, 0x2a, 0x31, 0x00, 0x00, 0x00, 0x80, 0x84, 0x1e, 0x00]
    } else {
        [0x21, 0x0a, 0x00, 0x97, 0x4b, 0x31, 0x00, 0x00, 0x00, 0x00, 0xc2, 0x01, 0x00]
    };
    assert(c@ =~= baud_cmd_spec(baud));
    c
}

/// The flash erase command.
pub fn erase_cmd() -> (c: [u8; 13])
    ensures
        c@ == seq![0x21u8, 0x0a, 0x00, 0xc3, 0x35, 0x32, 0x00, 0x00, 0x00, 0x02, 0x00, 0xfe, 0x01],
{
    let c: [u8; 13] = [0x21, 0x0a, 0x00, 0xc3, 0x35, 0x32, 0x00, 0x00, 0x00, 0x02, 0x00, 0xfe, 0x01];
    assert(c@ =~= seq![0x21u8, 0x0a, 0x00, 0xc3, 0x35, 0x32, 0x00, 0x00, 0x00, 0x02, 0x00, 0xfe, 0x01]);
    c
}

/// The MAC address read command.
pub fn mac_read_cmd() -> (c: [u8; 9])
    ensures
        c@ == seq![0x21u8, 0x06, 0x00, 0xea, 0x2d, 0x38, 0x00, 0x00, 0x00],
{
    let c: [u8; 9] = [0x21, 0x06, 0x00, 0xea, 0x2d, 0x38, 0x00, 0x00, 0x00];
    assert(c@ =~= seq![0x21u8, 0x06, 0x00, 0xea, 0x2d, 0x38, 0x00, 0x00, 0x00]);
    c
}

/// The reset command.
pub fn reset_cmd() -> (c: [u8; 9])
    ensures
        c@ == seq![0x21u8, 0x06, 0x00, 0xc7, 0x7c, 0x3f, 0x00, 0x00, 0x00],
{
    let c: [u8; 9] = [0x21, 0x06, 0x00, 0xc7, 0x7c, 0x3f, 0x00, 0x00, 0x00];
    assert(c@ =~= seq![0x21u8, 0x06, 0x00, 0xc7, 0x7c, 0x3f, 0x00, 0x00, 0x00]);
    c
}

/// Consecutive readiness signals after one more received byte: 'C' or 'P'
/// counts, anything else starts over.
pub open spec fn sync_count(consecutive: u32, b: u8) -> u32 {
    if b == 0x43 || b == 0x50 {
        if consecutive < 3 { (consecutive + 1) as u32 } else { 3 }
    } else {
        0
    }
}

/// Counts the bootloader's readiness signals; three in a row mean it is
/// ready (the count stops at three).
pub fn sync_step(consecutive: u32, b: u8) -> (r: u32)
    ensures
        r == sync_count(consecutive, b),
        r <= 3,
{
    if b == 0x43 || b == 0x50 {
        if consecutive < 3 {
            consecutive + 1
        } else {
            3
        }
    } else {
        0
    }
}

/// A block of at most 1024 bytes padded with zeros to 1024.
pub open spec fn xmodem_block(chunk: Seq<u8>) -> Seq<u8> {
    chunk + Seq::new((1024 - chunk.len()) as nat, |i: int| 0u8)
}

/// An XMODEM-1K frame: STX, block number, its complement, the padded
/// block, and the CRC16-CCITT of the block big endian.
pub open spec fn xmodem_frame_spec(block_num: u8, chunk: Seq<u8>) -> Seq<u8> {
    seq![XMODEM_STX, block_num, (255 - block_num) as u8] + xmodem_block(chunk) + u16_be(
        crc16_ccitt_spec(xmodem_block(chunk)),
    )
}

/// Builds the XMODEM-1K frame carrying `chunk` as block `block_num`.
pub fn xmodem_frame(block_num: u8, chunk: &[u8]) -> (frame: Vec<u8>)
    requires
        chunk@.len() <= 1024,
    ensures
        frame@ == xmodem_frame_spec(block_num, chunk@),
        frame@.len() == 3 + 1024 + 2,
{
    let mut block: Vec<u8> = Vec::new();
    push_all(&mut block, chunk);
    while block.len() < XMODEM_DATA_SIZE_1K
        invariant
            chunk@.len() <= block@.len() <= 1024,
            block@ == chunk@ + Seq::new((block@.len() - chunk@.len()) as nat, |i: int| 0u8),
        decreases 1024 - block@.len(),
    {
        block.push(0);
        assert(block@ =~= chunk@ + Seq::new((block@.len() - chunk@.len()) as nat, |i: int| 0u8));
    }
    assert(block@ =~= xmodem_block(chunk@));
    let crc = crc16_ccitt(block.as_slice());
    let mut frame: Vec<u8> = Vec::new();
    frame.push(XMODEM_STX);
    frame.push(block_num);
    assert(!block_num == 255 - block_num) by (bit_vector);
    frame.push(!block_num);
    push_all(&mut frame, block.as_slice());
    crate::bytes::push_u16_be(&mut frame, crc);
    assert(frame@ =~= xmodem_frame_spec(block_num, chunk@));
    frame
}

/// Number of 1 KiB blocks needed for `len` bytes.
pub fn xmodem_block_count(len: usize) -> (r: usize)
    ensures
        r == (len + 1023) / 1024,
{
    len / 1024 + if len % 1024 == 0 {
        0
    } else {
        1
    }
}

/// What happens after sending a block, given the receiver's reply.
#[derive(Debug, Clone, Copy, PartialEq, Eq, Structural)]
pub enum XmodemStep {
    /// Acknowledged: go on with the next block.
    Sent,
    /// Send the block again.
    Retry,
    /// Refused on the last try.
    MaxRetries,
    /// The receiver cancelled the transfer.
    Cancelled,
}

/// The step after try `attempt` (counting from 0) of a block got `reply`
/// (None: no reply in time): ACK sends on, CAN cancels, NAK on the last
/// try gives up, anything else tries again.
pub fn xmodem_on_reply(reply: Option<u8>, attempt: u32) -> (r: XmodemStep)
    ensures
        r == match reply {
            Some(b) => if b == XMODEM_ACK {
                XmodemStep::Sent
            } else if b == XMODEM_NAK && attempt >= XMODEM_MAX_TRIES - 1 {
                XmodemStep::MaxRetries
            } else if b == XMODEM_CAN {
                XmodemStep::Cancelled
            } else {
                XmodemStep::Retry
            },
            None => XmodemStep::Retry,
        },
{
    match reply {
        Some(b) => {
            if b == XMODEM_ACK {
                XmodemStep::Sent
            } else if b == XMODEM_NAK && attempt >= XMODEM_MAX_TRIES - 1 {
                XmodemStep::MaxRetries
            } else if b == XMODEM_CAN {
                XmodemStep::Cancelled
            } else {
                XmodemStep::Retry
            }
        },
        None => XmodemStep::Retry,
    }
}

/// Why an image was refused.
#[derive(Debug, Clone, Copy, PartialEq, Eq, Structural)]
pub enum ImageError {
    /// Shorter than the 256-byte header (the length found).
    TooSmall(usize),
    /// The header does not start with 0xA0FFFF9F (the magic found).
    BadMagic(u32),
}

/// Checks the image header: at least 256 bytes, magic 0xA0FFFF9F little
/// endian at offset 0.
pub fn verify_image(data: &[u8]) -> (r: Result<(), ImageError>)
    ensures
        match r {
            Ok(()) => data@.len() >= IMAGE_HEADER_SIZE && le_u32_at(data@, 0) == IMAGE_MAGIC,
            Err(ImageError::TooSmall(n)) => data@.len() < IMAGE_HEADER_SIZE && n == data@.len(),
            Err(ImageError::BadMagic(m)) => data@.len() >= IMAGE_HEADER_SIZE && m == le_u32_at(data@, 0)
                && m != IMAGE_MAGIC,
        },
{
    if data.len() < IMAGE_HEADER_SIZE {
        return Err(ImageError::TooSmall(data.len()));
    }
    let magic = read_u32_le(data, 0);
    if magic != IMAGE_MAGIC {
        return Err(ImageError::BadMagic(magic));
    }
    Ok(())
}

/// Bytes `1024 * i ..` of the image, at most 1024 of them: block `i`.
pub open spec fn xmodem_chunk(data: Seq<u8>, i: int) -> Seq<u8> {
    data.subrange(1024 * i, if 1024 * (i + 1) <= data.len() { 1024 * (i + 1) } else { data.len() as int })
}

/// The padded blocks `0..n` of the image, one after another.
pub open spec fn xmodem_blocks(data: Seq<u8>, n: nat) -> Seq<u8>
    decreases n,
{
    if n == 0 {
        seq![]
    } else {
        xmodem_blocks(data, (n - 1) as nat) + xmodem_block(xmodem_chunk(data, n - 1))
    }
}

/// `n` zero bytes.
pub open spec fn zeros(n: int) -> Seq<u8> {
    Seq::new(n as nat, |i: int| 0u8)
}

proof fn lemma_blocks_prefix(data: Seq<u8>, n: int)
    requires
        0 <= n <= (data.len() + 1023) / 1024,
    ensures
        xmodem_blocks(data, n as nat) == data.subrange(0, if 1024 * n <= data.len() { 1024 * n } else { data.len() as int })
            + zeros(1024 * n - (if 1024 * n <= data.len() { 1024 * n } else { data.len() as int })),
    decreases n,
{
    if n == 0 {
        assert(data.subrange(0, 0) + zeros(0) =~= Seq::<u8>::empty());
    } else {
        let k = n - 1;
        lemma_blocks_prefix(data, k);
        assert(1024 * k < data.len());
        let m = if 1024 * n <= data.len() { 1024 * n } else { data.len() as int };
        assert(zeros(1024 * k - 1024 * k) =~= Seq::<u8>::empty());
        let c = xmodem_chunk(data, k);
        assert(c =~= data.subrange(1024 * k, m));
        assert(xmodem_block(c) =~= c + zeros(1024 - c.len()));
        assert(data.subrange(0, 1024 * k) + c =~= data.subrange(0, m));
        assert(xmodem_blocks(data, n as nat) =~= data.subrange(0, m) + zeros(1024 * n - m));
    }
}

/// The blocks of a transfer carry the whole image in order, then zeros up
/// to the next multiple of 1024.
pub proof fn lemma_xmodem_blocks_cover(data: Seq<u8>)
    ensures
        xmodem_blocks(data, ((data.len() + 1023) / 1024) as nat) == data + zeros(
            1024 * ((data.len() + 1023) / 1024) - data.len(),
        ),
{
    let n = (data.len() + 1023) / 1024;
    lemma_blocks_prefix(data, n as int);
    assert(1024 * n >= data.len());
    assert(data.subrange(0, data.len() as int) =~= data);
}

/// The frames of an XMODEM-1K transfer of `data`: block `i` as frame
/// number `i + 1` (mod 256).
pub fn xmodem_frames(data: &[u8]) -> (frames: Vec<Vec<u8>>)
    ensures
        frames@.len() == (data@.len() + 1023) / 1024,
        forall|i: int|
            0 <= i < frames@.len() ==> (#[trigger] frames@[i])@ == xmodem_frame_spec(
                ((i + 1) % 256) as u8,
                xmodem_chunk(data@, i),
            ),
{
    let n = data.len();
    let mut frames: Vec<Vec<u8>> = Vec::new();
    let mut offset: usize = 0;
    let mut block_num: u8 = 1;
    while offset < n
        invariant
            n == data@.len(),
            offset <= n,
            offset == if 1024 * frames@.len() <= n { 1024 * frames@.len() as int } else { n as int },
            frames@.len() == 0 || 1024 * (frames@.len() - 1) < n,
            block_num == ((frames@.len() + 1) % 256) as u8,
            forall|i: int|
                0 <= i < frames@.len() ==> (#[trigger] frames@[i])@ == xmodem_frame_spec(
                    ((i + 1) % 256) as u8,
                    xmodem_chunk(data@, i),
                ),
        decreases n - offset,
    {
        let end = if n - offset > XMODEM_DATA_SIZE_1K {
            offset + XMODEM_DATA_SIZE_1K
        } else {
            n
        };
        let chunk = slice_subrange(data, offset, end);
        assert(chunk@ =~= xmodem_chunk(data@, frames@.len() as int));
        let frame = xmodem_frame(block_num, chunk);
        frames.push(frame);
        block_num = block_num.wrapping_add(1);
        offset = end;
    }
    assert(frames@.len() == (n + 1023) / 1024);
    frames
}

} // verus!
