//! EC718 (Air8000 / Air780EPM / Air780EHx) download protocol: DL and LPC
//! command frames, the image header that precedes every download, and the
//! binpkg partition container.
//!
//! DL command: `[cmd][index][0xCD][0x32][len u32 LE]`; AGBOOT mode appends a
//! CRC32 of the command and data and guards the length with CRC8-Maxim,
//! DLBOOT mode appends `self_def_check1` to DOWNLOAD_DATA.

use vstd::prelude::*;
use sha2::{Digest, Sha256};
use crate::text::{
    lowercase, str_to_lowercase, str_to_uppercase, str_trim, string_from_utf8_lossy, trimmed, uppercase, utf8_lossy,
};
use crate::bytes::{
    bytes_eq, contains_run, le_u32_at, str_contains, text_contains, overwrite, push_all, push_u16_le, push_u32_le, read_u32_le, splice, u16_le,
    u32_le,
};
use crate::checksum::{crc32_of, crc8_maxim_reg, self_def_check1_value};
use crate::ports::{find_port_by_interface, is_first, none_match, usb_is, usb_is_at, SerialPortInfo, SerialPortType};

pub use crate::checksum::{crc8_maxim, self_def_check1};

verus! {

pub const DLBOOT_HANDSHAKE: u32 = 0x2b02d300;
pub const AGBOOT_HANDSHAKE: u32 = 0x2b02d3aa;
pub const LPC_HANDSHAKE: u32 = 0x2b02d3cd;

pub const IMGH_IDENTIFIER: u32 = 0x54494d48;
pub const AGBT_IDENTIFIER: u32 = 0x4F424D49;
pub const AIMG_IDENTIFIER: u32 = 0x444B4249;
pub const CIMG_IDENTIFIER: u32 = 0x43504249;
pub const FLEX_IDENTIFIER: u32 = 0x464c5849;

pub const DL_COMMAND_ID: u8 = 0xcd;
pub const DL_COMMAND_ID_INV: u8 = 0x32;
pub const LPC_COMMAND_ID: u8 = 0x4c;
pub const LPC_COMMAND_ID_INV: u8 = 0xb3;

pub const CMD_GET_VERSION: u8 = 0x20;
pub const CMD_SEL_IMAGE: u8 = 0x21;
pub const CMD_VERIFY_IMAGE: u8 = 0x22;
pub const CMD_DATA_HEAD: u8 = 0x31;
pub const CMD_DOWNLOAD_DATA: u8 = 0x32;
pub const CMD_DONE: u8 = 0x3a;

pub const LPC_FLASH_ERASE: u8 = 0x10;
pub const LPC_BURN_ONE: u8 = 0x42;
pub const LPC_GET_BURN_STATUS: u8 = 0x44;
pub const LPC_SYS_RST: u8 = 0xaa;

pub const FIXED_PROTOCOL_RSP_LEN: usize = 6;
/// Largest block of one DOWNLOAD_DATA transfer (64 KiB).
pub const MAX_DATA_BLOCK_SIZE: usize = 0x10000;

pub const STYPE_AP_FLASH: u8 = 0x0;
pub const STYPE_CP_FLASH: u8 = 0x1;
pub const CP_FLASH_MARKER: u16 = 0xe101;

pub const IMG_HEAD_SIZE: usize = 272;

/// USB identity of the boot (download) mode.
pub const BOOT_VID: u16 = 0x17D1;
pub const BOOT_PID: u16 = 0x0001;
/// USB identity of the running module (log and command ports).
pub const LOG_VID: u16 = 0x19D1;
pub const LOG_PID: u16 = 0x0001;

/// The handshakes of the three protocol stages.
#[derive(Debug, Clone, Copy, PartialEq, Eq, Structural)]
pub enum SyncType {
    DlBoot,
    AgBoot,
    Lpc,
}

impl SyncType {
    /// The 32-bit value exchanged by the handshake (sent little endian).
    pub fn handshake_value(&self) -> (r: u32)
        ensures
            r == match *self {
                SyncType::DlBoot => DLBOOT_HANDSHAKE,
                SyncType::AgBoot => AGBOOT_HANDSHAKE,
                SyncType::Lpc => LPC_HANDSHAKE,
            },
    {
        match self {
            SyncType::DlBoot => DLBOOT_HANDSHAKE,
            SyncType::AgBoot => AGBOOT_HANDSHAKE,
            SyncType::Lpc => LPC_HANDSHAKE,
        }
    }
}

/// Kinds of image the download agent can burn.
#[derive(Debug, Clone, Copy, PartialEq, Eq, Structural)]
pub enum BurnImageType {
    Bootloader,
    Ap,
    Cp,
    FlexFile,
    Head,
    AgBoot,
}

/// The identifier of an image kind.
pub open spec fn image_identifier(t: BurnImageType) -> u32 {
    match t {
        BurnImageType::Bootloader => AGBT_IDENTIFIER,
        BurnImageType::AgBoot => AGBT_IDENTIFIER,
        BurnImageType::Ap => AIMG_IDENTIFIER,
        BurnImageType::Cp => CIMG_IDENTIFIER,
        BurnImageType::FlexFile => FLEX_IDENTIFIER,
        BurnImageType::Head => IMGH_IDENTIFIER,
    }
}

impl BurnImageType {
    /// The identifier of this image kind.
    pub fn identifier(&self) -> (r: u32)
        ensures
            r == image_identifier(*self),
    {
        match self {
            BurnImageType::Bootloader | BurnImageType::AgBoot => AGBT_IDENTIFIER,
            BurnImageType::Ap => AIMG_IDENTIFIER,
            BurnImageType::Cp => CIMG_IDENTIFIER,
            BurnImageType::FlexFile => FLEX_IDENTIFIER,
            BurnImageType::Head => IMGH_IDENTIFIER,
        }
    }
}

/// How the module is attached: the agent binary and baud rate depend on it.
#[derive(Debug, Clone, Copy, PartialEq, Eq, Structural)]
pub enum Ec718PortType {
    Usb,
    Uart,
}

impl Ec718PortType {
    /// 921600 over USB, 115200 over a UART.
    pub fn baudrate(&self) -> (r: u32)
        ensures
            r == match *self {
                Ec718PortType::Usb => 921600u32,
                Ec718PortType::Uart => 115200u32,
            },
    {
        match self {
            Ec718PortType::Usb => 921600,
            Ec718PortType::Uart => 115200,
        }
    }
}

/// A port counts as USB when a port of that name is listed as a USB port.
pub fn detect_port_type(ports: &[SerialPortInfo], port_name: &str) -> (r: Ec718PortType)
    ensures
        (r == Ec718PortType::Usb) == exists|i: int|
            0 <= i < ports@.len() && #[trigger] ports@[i].port_name@ == port_name@
                && ports@[i].port_type is UsbPort,
{
    let key = port_name.to_owned();
    let mut i: usize = 0;
    while i < ports.len()
        invariant
            i <= ports@.len(),
            key@ == port_name@,
            forall|j: int|
                0 <= j < i ==> !(#[trigger] ports@[j].port_name@ == port_name@ && ports@[j].port_type is UsbPort),
        decreases ports@.len() - i,
    {
        if ports[i].port_name == key {
            if let SerialPortType::UsbPort(_) = &ports[i].port_type {
                return Ec718PortType::Usb;
            }
        }
        i = i + 1;
    }
    Ec718PortType::Uart
}

/// A DL command header.
#[derive(Debug, Clone, Copy, PartialEq, Eq, Structural)]
pub struct Cmd {
    pub cmd: u8,
    pub index: u8,
    pub order_id: u8,
    pub norder_id: u8,
    pub len: u32,
}

/// The eight bytes of a command header.
pub open spec fn header_bytes(cmd: u8, index: u8, order_id: u8, norder_id: u8, len: u32) -> Seq<u8> {
    seq![cmd, index, order_id, norder_id] + u32_le(len)
}

fn pack_header(cmd: u8, index: u8, order_id: u8, norder_id: u8, len: u32) -> (v: Vec<u8>)
    ensures
        v@ == header_bytes(cmd, index, order_id, norder_id, len),
{
    let mut v: Vec<u8> = Vec::new();
    v.push(cmd);
    v.push(index);
    v.push(order_id);
    v.push(norder_id);
    push_u32_le(&mut v, len);
    assert(v@ =~= header_bytes(cmd, index, order_id, norder_id, len));
    v
}

impl Cmd {
    pub open spec fn bytes(self) -> Seq<u8> {
        header_bytes(self.cmd, self.index, self.order_id, self.norder_id, self.len)
    }

    /// A DL command with index and length zero.
    pub fn new(cmd_id: u8) -> (c: Cmd)
        ensures
            c == (Cmd { cmd: cmd_id, index: 0, order_id: DL_COMMAND_ID, norder_id: DL_COMMAND_ID_INV, len: 0 }),
    {
        Cmd { cmd: cmd_id, index: 0, order_id: DL_COMMAND_ID, norder_id: DL_COMMAND_ID_INV, len: 0 }
    }

    /// The header bytes: command, index, both order ids, length little endian.
    pub fn pack(&self) -> (v: Vec<u8>)
        ensures
            v@ == self.bytes(),
    {
        pack_header(self.cmd, self.index, self.order_id, self.norder_id, self.len)
    }
}

/// The fixed six-byte response.
#[derive(Debug, Clone, Copy, PartialEq, Eq, Structural)]
pub struct Rsp {
    pub cmd: u8,
    pub index: u8,
    pub order_id: u8,
    pub norder_id: u8,
    pub state: u8,
    pub len: u8,
}

impl Rsp {
    /// Reads a response from its first six bytes.
    pub fn unpack(data: &[u8]) -> (r: Rsp)
        requires
            data@.len() >= 6,
        ensures
            r == (Rsp {
                cmd: data@[0],
                index: data@[1],
                order_id: data@[2],
                norder_id: data@[3],
                state: data@[4],
                len: data@[5],
            }),
    {
        Rsp { cmd: data[0], index: data[1], order_id: data[2], norder_id: data[3], state: data[4], len: data[5] }
    }
}

/// An LPC command header.
#[derive(Debug, Clone, Copy, PartialEq, Eq, Structural)]
pub struct LpcCmd {
    pub cmd: u8,
    pub index: u8,
    pub order_id: u8,
    pub norder_id: u8,
    pub len: u32,
}

impl LpcCmd {
    pub open spec fn bytes(self) -> Seq<u8> {
        header_bytes(self.cmd, self.index, self.order_id, self.norder_id, self.len)
    }

    /// An LPC command with index and length zero.
    pub fn new(cmd_id: u8) -> (c: LpcCmd)
        ensures
            c == (LpcCmd { cmd: cmd_id, index: 0, order_id: LPC_COMMAND_ID, norder_id: LPC_COMMAND_ID_INV, len: 0 }),
    {
        LpcCmd { cmd: cmd_id, index: 0, order_id: LPC_COMMAND_ID, norder_id: LPC_COMMAND_ID_INV, len: 0 }
    }

    /// The header bytes: command, index, both order ids, length little endian.
    pub fn pack(&self) -> (v: Vec<u8>)
        ensures
            v@ == self.bytes(),
    {
        pack_header(self.cmd, self.index, self.order_id, self.norder_id, self.len)
    }
}

/// Calls `crc32fast::hash`: the standard CRC-32 of `data` (see `crc32_of`).
#[verifier::external_body]
fn crc32_hash(data: &[u8]) -> (r: u32)
    ensures
        r == crc32_of(data@),
{
    crc32fast::hash(data)
}

/// A length field guarded by CRC8-Maxim: the low 24 bits of the length,
/// and in the top byte the CRC8 of those three bytes (zero stays zero).
pub open spec fn guarded_len(len: u32) -> u32 {
    if len == 0 {
        0
    } else {
        ((crc8_maxim_reg(u32_le((len % 0x100_0000) as u32).subrange(0, 3)) as u8) as int * 0x100_0000 + len
            % 0x100_0000) as u32
    }
}

/// Encodes a length field with its CRC8-Maxim guard.
pub fn guard_len(len: u32) -> (r: u32)
    ensures
        r == guarded_len(len),
{
    if len == 0 {
        return 0;
    }
    let tmp_len = len & 0x00FF_FFFF;
    assert(tmp_len == len % 0x100_0000) by (bit_vector)
        requires
            tmp_len == len & 0x00FF_FFFFu32,
    ;
    let mut lb: Vec<u8> = Vec::new();
    push_u32_le(&mut lb, tmp_len);
    let c = crc8_maxim(&lb.as_slice()[0..3]);
    assert(lb@.subrange(0, 3) == u32_le(tmp_len).subrange(0, 3));
    let r = ((c as u32) << 24) | tmp_len;
    assert(r == c as u32 * 0x100_0000 + tmp_len) by (bit_vector)
        requires
            r == ((c as u32) << 24u32) | tmp_len,
            tmp_len < 0x100_0000,
    ;
    r
}

/// The bytes sent for a DL command with `data`. AGBOOT: header with the
/// guarded length, data, CRC32 of the header as given and the data. DLBOOT:
/// header and data, plus `self_def_check1` for DOWNLOAD_DATA.
pub open spec fn dl_frame_spec(c: Cmd, data: Seq<u8>, dlboot: bool) -> Seq<u8> {
    if !dlboot {
        header_bytes(c.cmd, c.index, c.order_id, c.norder_id, guarded_len(c.len)) + data + u32_le(
            crc32_of(c.bytes() + data),
        )
    } else if c.cmd == CMD_DOWNLOAD_DATA {
        c.bytes() + data + u32_le(self_def_check1_value(c.cmd, c.index, c.order_id, c.norder_id, c.len, data))
    } else {
        c.bytes() + data
    }
}

/// Builds the bytes sent for a DL command; in AGBOOT mode the command's
/// length field becomes its guarded form.
pub fn build_dl_frame(cmd: &mut Cmd, data: &[u8], dlboot: bool) -> (frame: Vec<u8>)
    ensures
        frame@ == dl_frame_spec(*old(cmd), data@, dlboot),
        *final(cmd) == if dlboot {
            *old(cmd)
        } else {
            Cmd { len: guarded_len(old(cmd).len), ..*old(cmd) }
        },
{
    let mut frame = cmd.pack();
    push_all(&mut frame, data);
    if !dlboot {
        let ck_val = crc32_hash(frame.as_slice());
        cmd.len = guard_len(cmd.len);
        frame = cmd.pack();
        push_all(&mut frame, data);
        push_u32_le(&mut frame, ck_val);
    } else if cmd.cmd == CMD_DOWNLOAD_DATA {
        let ck = self_def_check1(cmd.cmd, cmd.index, cmd.order_id, cmd.norder_id, cmd.len, data);
        push_all(&mut frame, &ck);
    }
    frame
}

/// The bytes sent for an LPC command with `data`: header whose length is
/// the guarded data length, data, CRC32 of the header as given and the data.
pub open spec fn lpc_frame_spec(c: LpcCmd, data: Seq<u8>) -> Seq<u8> {
    header_bytes(c.cmd, c.index, c.order_id, c.norder_id, guarded_len(data.len() as u32)) + data + u32_le(
        crc32_of(c.bytes() + data),
    )
}

/// Builds the bytes sent for an LPC command; the command's length field
/// becomes the guarded length of `data`.
pub fn build_lpc_frame(cmd: &mut LpcCmd, data: &[u8]) -> (frame: Vec<u8>)
    ensures
        frame@ == lpc_frame_spec(*old(cmd), data@),
        *final(cmd) == (LpcCmd { len: guarded_len(data@.len() as u32), ..*old(cmd) }),
{
    let mut orig = cmd.pack();
    push_all(&mut orig, data);
    let ck_val = crc32_hash(orig.as_slice());
    cmd.len = guard_len(data.len() as u32);
    let mut frame = cmd.pack();
    push_all(&mut frame, data);
    push_u32_le(&mut frame, ck_val);
    frame
}

/// Arguments of LPC BURN_ONE: the image identifier, and for CP flash the
/// storage marker, little endian.
pub fn lpc_burn_one_args(img_type: BurnImageType, stor_type: u8) -> (a: Vec<u8>)
    ensures
        a@ == u32_le(image_identifier(img_type)) + if stor_type == STYPE_CP_FLASH {
            u16_le(CP_FLASH_MARKER)
        } else {
            Seq::<u8>::empty()
        },
{
    let mut a: Vec<u8> = Vec::new();
    push_u32_le(&mut a, img_type.identifier());
    if stor_type == STYPE_CP_FLASH {
        push_u16_le(&mut a, CP_FLASH_MARKER);
    } else {
        assert(a@ =~= a@ + Seq::<u8>::empty());
    }
    a
}

/// Arguments of LPC FLASH_ERASE: size then address, little endian.
pub fn lpc_flash_erase_args(addr: u32, size: u32) -> (a: Vec<u8>)
    ensures
        a@ == u32_le(size) + u32_le(addr),
{
    let mut a: Vec<u8> = Vec::new();
    push_u32_le(&mut a, size);
    push_u32_le(&mut a, addr);
    a
}

/// The burn status reply that means success: four zero bytes.
pub fn lpc_burn_status_ok(d: &[u8]) -> (r: bool)
    ensures
        r == (d@ == seq![0u8, 0u8, 0u8, 0u8]),
{
    let ok: [u8; 4] = [0, 0, 0, 0];
    assert(ok@ =~= seq![0u8, 0u8, 0u8, 0u8]);
    bytes_eq(d, &ok)
}

/// The reset acknowledgement: "ZzZzZzZz".
pub fn lpc_sys_reset_ack(d: &[u8]) -> (r: bool)
    ensures
        r == (d@ == seq![0x5Au8, 0x7Au8, 0x5Au8, 0x7Au8, 0x5Au8, 0x7Au8, 0x5Au8, 0x7Au8]),
{
    let ack: [u8; 8] = [0x5A, 0x7A, 0x5A, 0x7A, 0x5A, 0x7A, 0x5A, 0x7A];
    assert(ack@ =~= seq![0x5Au8, 0x7Au8, 0x5Au8, 0x7Au8, 0x5Au8, 0x7Au8, 0x5Au8, 0x7Au8]);
    bytes_eq(d, &ack)
}


/// The SHA-256 digest of a byte sequence.
pub uninterp spec fn sha256_digest(data: Seq<u8>) -> Seq<u8>;

/// Calls `sha2::Sha256::digest`: the 32-byte SHA-256 digest of `data`.
#[verifier::external_body]
fn sha256(data: &[u8]) -> (d: [u8; 32])
    ensures
        d@ == sha256_digest(data@),
{
    Sha256::digest(data).into()
}

/// `n` zero bytes.
pub open spec fn zeros(n: nat) -> Seq<u8> {
    Seq::new(n, |i: int| 0u8)
}

/// A fresh image header: version 0x10000001, header identifier, date
/// 0x20180507, one image, hash type 0xEE, body identifier of the agent boot
/// and load location 0x04010000; all other bytes zero.
pub open spec fn img_head_initial() -> Seq<u8> {
    splice(
        splice(
            splice(
                splice(
                    splice(
                        splice(splice(zeros(272), 0, u32_le(0x10000001)), 4, u32_le(IMGH_IDENTIFIER)),
                        8,
                        u32_le(0x20180507),
                    ),
                    16,
                    u32_le(1),
                ),
                20,
                seq![0xEEu8],
            ),
            64,
            u32_le(AGBT_IDENTIFIER),
        ),
        72,
        u32_le(0x04010000),
    )
}

/// The baud rate control word: baud / 100 with the top bit set, zero for zero.
pub open spec fn baudrate_ctrl(baud: u32) -> u16 {
    if baud != 0 {
        ((baud / 100 + 0x8000) % 0x10000) as u16
    } else {
        0
    }
}

/// The 272-byte image header sent before an image.
pub struct ImgHead {
    data: Vec<u8>,
}

impl ImgHead {
    pub const CTLINFO_OFFSET: usize = 20;
    pub const RSVD0_OFFSET: usize = 24;
    pub const HASHIH_OFFSET: usize = 32;
    pub const BODY_OFFSET: usize = 64;

    /// The header bytes.
    pub closed spec fn view(&self) -> Seq<u8> {
        self.data@
    }

    pub fn new() -> (h: Self)
        ensures
            h.view() == img_head_initial(),
    {
        let mut data: Vec<u8> = Vec::new();
        let mut i: usize = 0;
        while i < IMG_HEAD_SIZE
            invariant
                i <= 272,
                data@ == zeros(i as nat),
            decreases 272 - i,
        {
            data.push(0);
            i = i + 1;
            assert(data@ =~= zeros(i as nat));
        }
        let mut h = ImgHead { data };
        h.put_u32(0, 0x10000001);
        h.put_u32(4, IMGH_IDENTIFIER);
        h.put_u32(8, 0x20180507);
        h.put_u32(16, 1);
        h.set_hashtype(0xee);
        h.set_body_id(AGBT_IDENTIFIER);
        h.put_u32(72, 0x04010000);
        h
    }

    fn put_u32(&mut self, off: usize, x: u32)
        requires
            old(self).view().len() == 272,
            off + 4 <= 272,
        ensures
            final(self).view() == splice(old(self).view(), off as int, u32_le(x)),
            final(self).view().len() == 272,
    {
        let mut b: Vec<u8> = Vec::new();
        push_u32_le(&mut b, x);
        assert(b@ =~= u32_le(x));
        overwrite(&mut self.data, off, b.as_slice());
    }

    /// Sets the body identifier (offset 64).
    pub fn set_body_id(&mut self, id: u32)
        requires
            old(self).view().len() == 272,
        ensures
            final(self).view() == splice(old(self).view(), 64, u32_le(id)),
            final(self).view().len() == 272,
    {
        self.put_u32(64, id);
    }

    /// Sets the burn address (offset 68).
    pub fn set_burn_addr(&mut self, addr: u32)
        requires
            old(self).view().len() == 272,
        ensures
            final(self).view() == splice(old(self).view(), 68, u32_le(addr)),
            final(self).view().len() == 272,
    {
        self.put_u32(68, addr);
    }

    /// Sets the image size (offset 76).
    pub fn set_img_size(&mut self, size: u32)
        requires
            old(self).view().len() == 272,
        ensures
            final(self).view() == splice(old(self).view(), 76, u32_le(size)),
            final(self).view().len() == 272,
    {
        self.put_u32(76, size);
    }

    /// Sets the image hash (offset 96).
    pub fn set_hashv(&mut self, hash: &[u8; 32])
        requires
            old(self).view().len() == 272,
        ensures
            final(self).view() == splice(old(self).view(), 96, hash@),
            final(self).view().len() == 272,
    {
        overwrite(&mut self.data, 96, hash);
    }

    /// Sets the baud rate control word (offset 22, little endian).
    pub fn set_baudrate_ctrl(&mut self, baud: u32)
        requires
            old(self).view().len() == 272,
        ensures
            final(self).view() == splice(old(self).view(), 22, u16_le(baudrate_ctrl(baud))),
            final(self).view().len() == 272,
    {
        let ctrl: u16 = if baud != 0 {
            ((baud / 100 + 0x8000) % 0x10000) as u16
        } else {
            0
        };
        let mut b: Vec<u8> = Vec::new();
        push_u16_le(&mut b, ctrl);
        overwrite(&mut self.data, 22, b.as_slice());
    }

    /// Sets the hash type (offset 20).
    pub fn set_hashtype(&mut self, hashtype: u8)
        requires
            old(self).view().len() == 272,
        ensures
            final(self).view() == splice(old(self).view(), 20, seq![hashtype]),
            final(self).view().len() == 272,
    {
        let b: [u8; 1] = [hashtype];
        assert(b@ =~= seq![hashtype]);
        overwrite(&mut self.data, 20, &b);
    }

    /// Sets the reserved word (offset 24).
    pub fn set_rsvd0(&mut self, val: u32)
        requires
            old(self).view().len() == 272,
        ensures
            final(self).view() == splice(old(self).view(), 24, u32_le(val)),
            final(self).view().len() == 272,
    {
        self.put_u32(24, val);
    }

    /// Sets the header hash (offset 32).
    pub fn set_hashih(&mut self, hash: &[u8; 32])
        requires
            old(self).view().len() == 272,
        ensures
            final(self).view() == splice(old(self).view(), 32, hash@),
            final(self).view().len() == 272,
    {
        overwrite(&mut self.data, 32, hash);
    }

    /// Stores the SHA-256 of the header as it stands as the header hash.
    pub fn finalize_hash(&mut self)
        requires
            old(self).view().len() == 272,
        ensures
            final(self).view() == splice(old(self).view(), 32, sha256_digest(old(self).view())),
            final(self).view().len() == 272,
    {
        let hash = sha256(self.data.as_slice());
        self.set_hashih(&hash);
    }

    /// The header bytes.
    pub fn pack(&self) -> (r: &[u8])
        ensures
            r@ == self.view(),
    {
        self.data.as_slice()
    }
}

/// The header sent before `fdata` is burnt as `img_type` at `addr`.
pub open spec fn image_head_spec(fdata: Seq<u8>, img_type: BurnImageType, addr: u32, baud: u32, pullup_qspi: u32) -> Seq<u8> {
    let h = splice(
        splice(
            splice(
                splice(
                    splice(
                        splice(
                            splice(img_head_initial(), 64, u32_le(image_identifier(img_type))),
                            76,
                            u32_le(fdata.len() as u32),
                        ),
                        68,
                        u32_le(addr),
                    ),
                    96,
                    sha256_digest(fdata),
                ),
                22,
                u16_le(baudrate_ctrl(baud)),
            ),
            20,
            seq![0xEEu8],
        ),
        24,
        u32_le(pullup_qspi),
    );
    splice(h, 32, sha256_digest(h))
}

/// Builds the image header of `fdata`: kind, size, address, image hash,
/// baud rate control, hash type, reserved word, then the header hash.
pub fn build_image_head(fdata: &[u8], img_type: BurnImageType, addr: u32, baud: u32, pullup_qspi: u32) -> (h: Vec<u8>)
    ensures
        h@ == image_head_spec(fdata@, img_type, addr, baud, pullup_qspi),
{
    let fhash = sha256(fdata);
    let mut hd = ImgHead::new();
    proof {
        assert(img_head_initial().len() == 272);
    }
    hd.set_body_id(img_type.identifier());
    hd.set_img_size(fdata.len() as u32);
    hd.set_burn_addr(addr);
    hd.set_hashv(&fhash);
    hd.set_baudrate_ctrl(baud);
    hd.set_hashtype(0xee);
    hd.set_rsvd0(pullup_qspi);
    hd.finalize_hash();
    let mut v: Vec<u8> = Vec::new();
    push_all(&mut v, hd.pack());
    assert(v@ =~= hd.view());
    v
}


/// The bytes of `s` before its first zero byte (all of them if none).
pub open spec fn until_nul(s: Seq<u8>) -> Seq<u8>
    decreases s.len(),
{
    if s.len() == 0 {
        s
    } else if s[0] == 0 {
        seq![]
    } else {
        seq![s[0]] + until_nul(s.subrange(1, s.len() as int))
    }
}

/// The bytes of `s` before its first zero byte.
pub fn take_until_nul(s: &[u8]) -> (r: &[u8])
    ensures
        r@ == until_nul(s@),
{
    let n = s.len();
    let mut i: usize = 0;
    assert(s@.subrange(0, n as int) =~= s@);
    assert(Seq::<u8>::empty() + until_nul(s@) =~= until_nul(s@));
    assert(s@.subrange(0, 0) =~= Seq::<u8>::empty());
    while i < n
        invariant
            n == s@.len(),
            i <= n,
            forall|j: int| 0 <= j < i ==> s@[j] != 0,
            until_nul(s@) == s@.subrange(0, i as int) + until_nul(s@.subrange(i as int, n as int)),
        decreases n - i,
    {
        if s[i] == 0 {
            assert(until_nul(s@.subrange(i as int, n as int)) =~= Seq::<u8>::empty());
            assert(s@.subrange(0, i as int) + Seq::<u8>::empty() =~= s@.subrange(0, i as int));
            return &s[0..i];
        }
        let ghost rest = s@.subrange(i as int, n as int);
        assert(rest.subrange(1, rest.len() as int) =~= s@.subrange(i + 1, n as int));
        assert(s@.subrange(0, i as int) + seq![s@[i as int]] =~= s@.subrange(0, i + 1));
        assert(s@.subrange(0, i as int) + (seq![s@[i as int]] + until_nul(s@.subrange(i + 1, n as int)))
            =~= s@.subrange(0, i + 1) + until_nul(s@.subrange(i + 1, n as int)));
        i = i + 1;
    }
    assert(until_nul(s@.subrange(n as int, n as int)) =~= Seq::<u8>::empty());
    assert(s@.subrange(0, n as int) + Seq::<u8>::empty() =~= s@);
    s
}

/// A NUL-terminated text field, decoded leniently.
pub open spec fn field_text(s: Seq<u8>) -> Seq<char> {
    utf8_lossy(until_nul(s))
}

fn dec_field(s: &[u8]) -> (r: String)
    ensures
        r@ == field_text(s@),
{
    string_from_utf8_lossy(take_until_nul(s))
}

/// Size of one binpkg entry description.
pub const ENTRY_META_SIZE: usize = 364;

/// One partition of a binpkg.
#[derive(Debug, Clone)]
pub struct BinpkgEntry {
    pub name: String,
    pub addr: u32,
    pub flash_size: u32,
    pub image_size: u32,
    pub hash: String,
    pub image_type: String,
    pub data: Option<Vec<u8>>,
}

/// A parsed binpkg.
#[derive(Debug)]
pub struct BinpkgResult {
    pub chip: String,
    pub entries: Vec<BinpkgEntry>,
}

/// Why a binpkg was refused.
#[derive(Debug, Clone, Copy, PartialEq, Eq, Structural)]
pub enum BinpkgError {
    /// Shorter than 0x34 bytes (the length found).
    TooSmall(usize),
}

/// An entry as plain values: name, address, flash size, image size, hash,
/// image type, data.
pub type BinpkgEntryView = (Seq<char>, u32, u32, u32, Seq<char>, Seq<char>, Option<Seq<u8>>);

/// The plain values of an entry.
pub open spec fn entry_view(e: BinpkgEntry) -> BinpkgEntryView {
    (
        e.name@,
        e.addr,
        e.flash_size,
        e.image_size,
        e.hash@,
        e.image_type@,
        match e.data {
            Some(v) => Some(v@),
            None => None,
        },
    )
}

/// The entry described at `c`, and the offset after it: the image follows
/// its description when it fits inside the package.
pub open spec fn binpkg_entry_at(d: Seq<u8>, c: int) -> (BinpkgEntryView, int) {
    let meta = d.subrange(c, c + 364);
    let size = le_u32_at(meta, 76);
    let after = c + 364;
    let fits = after + size <= d.len();
    (
        (
            field_text(meta.subrange(0, 64)),
            le_u32_at(meta, 64),
            le_u32_at(meta, 68),
            size,
            lowercase(field_text(meta.subrange(80, 336))),
            field_text(meta.subrange(336, 352)),
            if fits { Some(d.subrange(after, after + size)) } else { None },
        ),
        if fits { after + size } else { after },
    )
}

/// The entries of a binpkg from offset `c` on, while a whole description fits.
pub open spec fn binpkg_entries(d: Seq<u8>, c: int) -> Seq<BinpkgEntryView>
    decreases d.len() - c,
    when c >= 0
{
    if c + 364 > d.len() {
        seq![]
    } else {
        let (e, next) = binpkg_entry_at(d, c);
        seq![e] + binpkg_entries(d, next)
    }
}

/// The package uses the "pkgmode" layout.
pub open spec fn is_pkgmode(d: Seq<u8>) -> bool {
    d.len() > 0x3F && d.subrange(0x38, 0x3F) == seq![0x70u8, 0x6Bu8, 0x67u8, 0x6Du8, 0x6Fu8, 0x64u8, 0x65u8]
}

/// The chip name of a pkgmode package, "unknown" when blank.
pub open spec fn binpkg_chip(d: Seq<u8>) -> Seq<char> {
    let raw = field_text(d.subrange(0x190, if d.len() < 0x1A0 { d.len() as int } else { 0x1A0 }));
    if trimmed(raw).len() == 0 {
        "unknown"@
    } else {
        raw
    }
}

fn parse_binpkg_entry(fdata: &[u8], c: usize) -> (r: (BinpkgEntry, usize))
    requires
        c + 364 <= fdata@.len(),
    ensures
        entry_view(r.0) == binpkg_entry_at(fdata@, c as int).0,
        r.1 == binpkg_entry_at(fdata@, c as int).1,
{
    let n = fdata.len();
    let meta = &fdata[c..c + ENTRY_META_SIZE];
    let name = dec_field(&meta[0..64]);
    let addr = read_u32_le(meta, 64);
    let flash_size = read_u32_le(meta, 68);
    let img_size = read_u32_le(meta, 76);
    let hash_text = dec_field(&meta[80..336]);
    let hash = str_to_lowercase(hash_text.as_str());
    let image_type = dec_field(&meta[336..352]);
    let after = c + ENTRY_META_SIZE;
    if (n - after) as u64 >= img_size as u64 {
        let end = after + img_size as usize;
        let mut d: Vec<u8> = Vec::new();
        push_all(&mut d, &fdata[after..end]);
        let e = BinpkgEntry { name, addr, flash_size, image_size: img_size, hash, image_type, data: Some(d) };
        (e, end)
    } else {
        let e = BinpkgEntry { name, addr, flash_size, image_size: img_size, hash, image_type, data: None };
        (e, after)
    }
}

/// Parses a binpkg: "pkgmode" packages (magic at 0x38) name their chip at
/// 0x190 and list entries from 0x1D8, legacy ones from 0x34. Each entry is
/// a 364-byte description followed by its image when that fits.
pub fn parse_binpkg(fdata: &[u8]) -> (r: Result<BinpkgResult, BinpkgError>)
    requires
        !(is_pkgmode(fdata@) && fdata@.len() < 0x190),
    ensures
        match r {
            Ok(res) => {
                &&& fdata@.len() >= 0x34
                &&& res.chip@ == if is_pkgmode(fdata@) { binpkg_chip(fdata@) } else { "unknown"@ }
                &&& res.entries@.map_values(|e: BinpkgEntry| entry_view(e)) == binpkg_entries(
                    fdata@,
                    if is_pkgmode(fdata@) { 0x1D8 } else { 0x34 },
                )
            },
            Err(BinpkgError::TooSmall(n)) => fdata@.len() < 0x34 && n == fdata@.len(),
        },
{
    let fsize = fdata.len();
    if fsize < 0x34 {
        return Err(BinpkgError::TooSmall(fsize));
    }
    let magic: [u8; 7] = [0x70, 0x6B, 0x67, 0x6D, 0x6F, 0x64, 0x65];
    assert(magic@ =~= seq![0x70u8, 0x6Bu8, 0x67u8, 0x6Du8, 0x6Fu8, 0x64u8, 0x65u8]);
    let pkgmode = fsize > 0x3F && bytes_eq(&fdata[0x38..0x3F], &magic);
    let foffset: usize;
    let chip: String;
    if pkgmode {
        foffset = 0x1D8;
        let end = if fsize < 0x1A0 { fsize } else { 0x1A0 };
        let raw = dec_field(&fdata[0x190..end]);
        if str_trim(raw.as_str()).is_empty() {
            chip = "unknown".to_owned();
        } else {
            chip = raw;
        }
    } else {
        foffset = 0x34;
        chip = "unknown".to_owned();
    }
    let mut entries: Vec<BinpkgEntry> = Vec::new();
    let mut cursor = foffset;
    while cursor <= fsize && fsize - cursor >= ENTRY_META_SIZE
        invariant
            fsize == fdata@.len(),
            binpkg_entries(fdata@, foffset as int) == entries@.map_values(|e: BinpkgEntry| entry_view(e))
                + binpkg_entries(fdata@, cursor as int),
        decreases fsize - cursor,
    {
        let (e, next) = parse_binpkg_entry(fdata, cursor);
        let ghost before = entries@;
        entries.push(e);
        proof {
            assert(entries@.map_values(|e: BinpkgEntry| entry_view(e)) =~= before.map_values(
                |e: BinpkgEntry| entry_view(e),
            ).push(entry_view(e)));
            assert(before.map_values(|e: BinpkgEntry| entry_view(e)) + binpkg_entries(fdata@, cursor as int)
                =~= entries@.map_values(|e: BinpkgEntry| entry_view(e)) + binpkg_entries(fdata@, next as int));
        }
        cursor = next;
    }
    proof {
        assert(binpkg_entries(fdata@, cursor as int) =~= Seq::<BinpkgEntryView>::empty());
        assert(entries@.map_values(|e: BinpkgEntry| entry_view(e)) + Seq::<BinpkgEntryView>::empty()
            =~= entries@.map_values(|e: BinpkgEntry| entry_view(e)));
    }
    Ok(BinpkgResult { chip, entries })
}


/// How an entry is burnt: its image kind, storage type and address, chosen
/// by its lowercased name and uppercased image type. CP images sit 8 MiB
/// lower than their package address; flex files above 8 MiB go to AP flash.
pub open spec fn burn_plan(name: Seq<char>, itype: Seq<char>, addr: u32) -> (BurnImageType, u8, u32) {
    if text_contains(name, "bootloader"@) || text_contains(name, "bl"@) {
        (BurnImageType::Bootloader, STYPE_AP_FLASH, addr)
    } else if itype == "CP"@ || text_contains(name, "cp"@) {
        (BurnImageType::Cp, STYPE_AP_FLASH, if addr >= 0x800000 { (addr - 0x800000) as u32 } else { addr })
    } else if name == "script"@ {
        (BurnImageType::Ap, STYPE_AP_FLASH, addr)
    } else if itype == "AP"@ || text_contains(name, "ap"@) || text_contains(name, "system"@) {
        (BurnImageType::Ap, STYPE_AP_FLASH, addr)
    } else if text_contains(name, "flex"@) || text_contains(name, "rf"@) {
        (BurnImageType::FlexFile, if addr >= 0x800000 { STYPE_AP_FLASH } else { STYPE_CP_FLASH }, addr)
    } else {
        (BurnImageType::Ap, STYPE_AP_FLASH, addr)
    }
}

/// How a binpkg entry is burnt (see `burn_plan`).
pub fn entry_to_burn_type(entry: &BinpkgEntry) -> (r: Option<(BurnImageType, u8, u32)>)
    ensures
        r == Some(burn_plan(lowercase(entry.name@), uppercase(entry.image_type@), entry.addr)),
{
    let name = str_to_lowercase(entry.name.as_str());
    let itype = str_to_uppercase(entry.image_type.as_str());
    let n = name.as_str();
    if str_contains(n, "bootloader") || str_contains(n, "bl") {
        Some((BurnImageType::Bootloader, STYPE_AP_FLASH, entry.addr))
    } else if itype == "CP".to_owned() || str_contains(n, "cp") {
        let mut addr = entry.addr;
        if addr >= 0x800000 {
            addr = addr - 0x800000;
        }
        Some((BurnImageType::Cp, STYPE_AP_FLASH, addr))
    } else if name == "script".to_owned() {
        Some((BurnImageType::Ap, STYPE_AP_FLASH, entry.addr))
    } else if itype == "AP".to_owned() || str_contains(n, "ap") || str_contains(n, "system") {
        Some((BurnImageType::Ap, STYPE_AP_FLASH, entry.addr))
    } else if str_contains(n, "flex") || str_contains(n, "rf") {
        let stor = if entry.addr >= 0x800000 {
            STYPE_AP_FLASH
        } else {
            STYPE_CP_FLASH
        };
        Some((BurnImageType::FlexFile, stor, entry.addr))
    } else {
        Some((BurnImageType::Ap, STYPE_AP_FLASH, entry.addr))
    }
}

/// Adds the firmware's script image as an AP entry named "script" when the
/// firmware description gives it a (nonzero) address.
pub fn append_script_entry(result: &mut BinpkgResult, script: Option<Vec<u8>>, script_addr: u32)
    ensures
        final(result).chip == old(result).chip,
        match script {
            Some(d) if script_addr > 0 => {
                &&& final(result).entries@.len() == old(result).entries@.len() + 1
                &&& final(result).entries@.subrange(0, old(result).entries@.len() as int) == old(result).entries@
                &&& entry_view(final(result).entries@.last()) == (
                    "script"@,
                    script_addr,
                    0u32,
                    d@.len() as u32,
                    Seq::<char>::empty(),
                    "AP"@,
                    Some(d@),
                )
            },
            _ => final(result).entries@ == old(result).entries@,
        },
{
    match script {
        Some(d) => {
            if script_addr > 0 {
                let image_size = d.len() as u32;
                let e = BinpkgEntry {
                    name: "script".to_owned(),
                    addr: script_addr,
                    flash_size: 0,
                    image_size,
                    hash: String::new(),
                    image_type: "AP".to_owned(),
                    data: Some(d),
                };
                result.entries.push(e);
                assert(result.entries@.subrange(0, old(result).entries@.len() as int) =~= old(result).entries@);
            }
        },
        None => {},
    }
}

/// The entries a full download burns: those that carry an image.
pub fn entries_with_data(entries: &[BinpkgEntry]) -> (idx: Vec<usize>)
    ensures
        forall|k: int| 0 <= k < idx@.len() ==> (#[trigger] idx@[k]) < entries@.len() && entries@[idx@[k] as int].data is Some,
        forall|k1: int, k2: int| 0 <= k1 < k2 < idx@.len() ==> idx@[k1] < idx@[k2],
        forall|i: int| 0 <= i < entries@.len() && (#[trigger] entries@[i]).data is Some ==> idx@.contains(i as usize),
{
    let mut idx: Vec<usize> = Vec::new();
    let mut i: usize = 0;
    while i < entries.len()
        invariant
            i <= entries@.len(),
            forall|k: int| 0 <= k < idx@.len() ==> (#[trigger] idx@[k]) < i && entries@[idx@[k] as int].data is Some,
            forall|k1: int, k2: int| 0 <= k1 < k2 < idx@.len() ==> idx@[k1] < idx@[k2],
            forall|j: int| 0 <= j < i && (#[trigger] entries@[j]).data is Some ==> idx@.contains(j as usize),
        decreases entries@.len() - i,
    {
        if entries[i].data.is_some() {
            let ghost before = idx@;
            idx.push(i);
            assert forall|j: int| 0 <= j < i + 1 && (#[trigger] entries@[j]).data is Some implies idx@.contains(j as usize) by {
                if j < i {
                    let k = choose|k: int| 0 <= k < before.len() && before[k] == j as usize;
                    assert(idx@[k] == j as usize);
                } else {
                    assert(idx@[before.len() as int] == j as usize);
                }
            }
        }
        i = i + 1;
    }
    idx
}

/// The command port of a running module: interface 2 of VID 19D1 / PID 0001,
/// or any port of that identity when interface numbers are missing.
pub fn find_ec718_cmd_port(ports: &[SerialPortInfo]) -> (r: Option<String>)
    ensures
        match r {
            Some(name) => (exists|i: int|
                is_first(ports@, i, |p: SerialPortInfo| usb_is_at(p.port_type, LOG_VID, LOG_PID, 2))
                    && name@ == #[trigger] ports@[i].port_name@) || (none_match(
                ports@,
                |p: SerialPortInfo| usb_is_at(p.port_type, LOG_VID, LOG_PID, 2),
            ) && exists|i: int|
                is_first(ports@, i, |p: SerialPortInfo| usb_is(p.port_type, LOG_VID, LOG_PID))
                    && name@ == #[trigger] ports@[i].port_name@),
            None => none_match(ports@, |p: SerialPortInfo| usb_is(p.port_type, LOG_VID, LOG_PID)),
        },
{
    find_port_by_interface(ports, LOG_VID, LOG_PID, 2)
}

/// The SOC log port of a running module (the same interface as the
/// command port).
pub fn find_ec718_log_port(ports: &[SerialPortInfo]) -> (r: Option<String>)
    ensures
        match r {
            Some(name) => (exists|i: int|
                is_first(ports@, i, |p: SerialPortInfo| usb_is_at(p.port_type, LOG_VID, LOG_PID, 2))
                    && name@ == #[trigger] ports@[i].port_name@) || (none_match(
                ports@,
                |p: SerialPortInfo| usb_is_at(p.port_type, LOG_VID, LOG_PID, 2),
            ) && exists|i: int|
                is_first(ports@, i, |p: SerialPortInfo| usb_is(p.port_type, LOG_VID, LOG_PID))
                    && name@ == #[trigger] ports@[i].port_name@),
            None => none_match(ports@, |p: SerialPortInfo| usb_is(p.port_type, LOG_VID, LOG_PID)),
        },
{
    find_port_by_interface(ports, LOG_VID, LOG_PID, 2)
}

/// The delayed reset command: "AT+ECRST=delay,799\r\n".
pub fn ecrst_command() -> (c: Vec<u8>)
    ensures
        c@ == seq![
            0x41u8, 0x54u8, 0x2Bu8, 0x45u8, 0x43u8, 0x52u8, 0x53u8, 0x54u8, 0x3Du8, 0x64u8,
            0x65u8, 0x6Cu8, 0x61u8, 0x79u8, 0x2Cu8, 0x37u8, 0x39u8, 0x39u8, 0x0Du8, 0x0Au8,
        ],
{
    let c: Vec<u8> = vec![
        0x41, 0x54, 0x2B, 0x45, 0x43, 0x52, 0x53, 0x54, 0x3D, 0x64,
        0x65, 0x6C, 0x61, 0x79, 0x2C, 0x37, 0x39, 0x39, 0x0D, 0x0A,
    ];
    assert(c@ =~= seq![
        0x41u8, 0x54u8, 0x2Bu8, 0x45u8, 0x43u8, 0x52u8, 0x53u8, 0x54u8, 0x3Du8, 0x64u8,
        0x65u8, 0x6Cu8, 0x61u8, 0x79u8, 0x2Cu8, 0x37u8, 0x39u8, 0x39u8, 0x0Du8, 0x0Au8,
    ]);
    c
}

/// The DIAG frame that forces boot mode: 7E 00 02 7E.
pub fn diag_boot_frame() -> (f: [u8; 4])
    ensures
        f@ == seq![0x7Eu8, 0x00u8, 0x02u8, 0x7Eu8],
{
    let f: [u8; 4] = [0x7E, 0x00, 0x02, 0x7E];
    assert(f@ =~= seq![0x7Eu8, 0x00u8, 0x02u8, 0x7Eu8]);
    f
}

/// The log probe frame (the same SOC frame as on CCM4211).
pub fn build_log_probe() -> (frame: Vec<u8>)
    ensures
        frame@ == crate::ccm4211::soc_frame(crate::ccm4211::SOC_CMD_GET_BASE_INFO, 0, Seq::<u8>::empty(), 1),
{
    crate::ccm4211::build_log_probe()
}

/// Where a DATA transfer stands: the next byte to send, how many remain,
/// and the index the next DATA command carries.
#[derive(Debug, Clone, Copy, PartialEq, Eq, Structural)]
pub struct DataTransfer {
    pub offset: usize,
    pub remain: u32,
    pub counter: u8,
}

/// One DATA command: bytes `start..end` of the data, with this index; the
/// last one is followed by DONE.
#[derive(Debug, Clone, Copy, PartialEq, Eq, Structural)]
pub struct DataPiece {
    pub start: usize,
    pub end: usize,
    pub index: u8,
    pub last: bool,
}

/// A transfer of `len` bytes (nothing to send when `len` is 0).
pub fn data_transfer_new(len: usize) -> (t: DataTransfer)
    requires
        len <= u32::MAX,
    ensures
        t == (DataTransfer { offset: 0, remain: len as u32, counter: 0 }),
{
    DataTransfer { offset: 0, remain: len as u32, counter: 0 }
}

/// The DATA command after the device's DATA_HEAD reply offered `tb_size`
/// bytes: the rest of the data when the offer covers it (the last piece),
/// else the offered amount; and the transfer afterwards. Pieces follow one
/// another without gap, and the transfer ends exactly at the end of the data.
pub fn data_transfer_next(t: &DataTransfer, tb_size: u32) -> (r: (DataPiece, DataTransfer))
    requires
        t.remain > 0,
        t.offset + t.remain <= usize::MAX,
    ensures
        r.0.start == t.offset,
        r.0.index == t.counter,
        r.0.last == (tb_size >= t.remain),
        r.0.end == t.offset + if tb_size >= t.remain { t.remain } else { tb_size },
        r.1.offset == r.0.end,
        r.1.offset + r.1.remain == t.offset + t.remain,
        r.1.counter == if r.0.last { t.counter } else { ((t.counter + 1) % 256) as u8 },
{
    if tb_size >= t.remain {
        let end = t.offset + t.remain as usize;
        (DataPiece { start: t.offset, end, index: t.counter, last: true }, DataTransfer {
            offset: end,
            remain: 0,
            counter: t.counter,
        })
    } else {
        let end = t.offset + tb_size as usize;
        (DataPiece { start: t.offset, end, index: t.counter, last: false }, DataTransfer {
            offset: end,
            remain: t.remain - tb_size,
            counter: t.counter.wrapping_add(1),
        })
    }
}

} // verus!
