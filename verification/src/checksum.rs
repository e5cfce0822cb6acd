//! Checksums used by the download protocols of the supported chips.

use vstd::prelude::*;

verus! {

/// One bit step of CRC16-CCITT (polynomial 0x1021, MSB first).
pub open spec fn ccitt_bit(crc: u16) -> u16 {
    if crc & 0x8000 != 0 {
        ((crc << 1u16) ^ 0x1021u16) as u16
    } else {
        (crc << 1u16) as u16
    }
}

/// `n` bit steps of CRC16-CCITT.
pub open spec fn ccitt_bits(crc: u16, n: nat) -> u16
    decreases n,
{
    if n == 0 {
        crc
    } else {
        ccitt_bits(ccitt_bit(crc), (n - 1) as nat)
    }
}

/// CRC16-CCITT with initial value 0 (the XMODEM variant) of a byte sequence.
pub open spec fn crc16_ccitt_spec(s: Seq<u8>) -> u16
    decreases s.len(),
{
    if s.len() == 0 {
        0
    } else {
        let prev = crc16_ccitt_spec(s.drop_last());
        ccitt_bits((prev ^ ((s.last() as u16) << 8u16)) as u16, 8)
    }
}

/// CRC16-CCITT (polynomial 0x1021, initial value 0) as used by XMODEM-1K.
pub fn crc16_ccitt(data: &[u8]) -> (crc: u16)
    ensures
        crc == crc16_ccitt_spec(data@),
{
    let mut crc: u16 = 0;
    let mut i: usize = 0;
    while i < data.len()
        invariant
            i <= data@.len(),
            crc == crc16_ccitt_spec(data@.subrange(0, i as int)),
        decreases data@.len() - i,
    {
        let ghost start: u16 = (crc ^ ((data@[i as int] as u16) << 8u16)) as u16;
        crc = crc ^ ((data[i] as u16) << 8u16);
        let mut j: u32 = 0;
        while j < 8
            invariant
                j <= 8,
                ccitt_bits(crc, (8 - j) as nat) == ccitt_bits(start, 8),
            decreases 8 - j,
        {
            if crc & 0x8000 != 0 {
                crc = (crc << 1u16) ^ 0x1021u16;
            } else {
                crc = crc << 1u16;
            }
            j = j + 1;
        }
        proof {
            let s = data@.subrange(0, i as int + 1);
            assert(s.drop_last() =~= data@.subrange(0, i as int));
            assert(s.last() == data@[i as int]);
        }
        i = i + 1;
    }
    proof {
        assert(data@.subrange(0, data@.len() as int) =~= data@);
    }
    crc
}


/// One bit step of the reflected CRC16 with polynomial 0xA001.
pub open spec fn modbus_bit(crc: u16) -> u16 {
    if crc & 1 != 0 {
        ((crc >> 1u16) ^ 0xA001u16) as u16
    } else {
        (crc >> 1u16) as u16
    }
}

/// `n` bit steps of the reflected CRC16.
pub open spec fn modbus_bits(crc: u16, n: nat) -> u16
    decreases n,
{
    if n == 0 {
        crc
    } else {
        modbus_bits(modbus_bit(crc), (n - 1) as nat)
    }
}

/// CRC16 with the reflected polynomial 0xA001 and initial value 0 (the
/// variant of the CCM4211 download protocol) of a byte sequence.
pub open spec fn crc16_modbus_spec(s: Seq<u8>) -> u16
    decreases s.len(),
{
    if s.len() == 0 {
        0
    } else {
        let prev = crc16_modbus_spec(s.drop_last());
        modbus_bits((prev ^ (s.last() as u16)) as u16, 8)
    }
}

/// CRC16 (reflected polynomial 0xA001, initial value 0) over `data`.
pub fn crc16_modbus(data: &[u8]) -> (crc: u16)
    ensures
        crc == crc16_modbus_spec(data@),
{
    let mut crc: u16 = 0;
    let mut i: usize = 0;
    while i < data.len()
        invariant
            i <= data@.len(),
            crc == crc16_modbus_spec(data@.subrange(0, i as int)),
        decreases data@.len() - i,
    {
        let ghost start: u16 = (crc ^ (data@[i as int] as u16)) as u16;
        crc = crc ^ (data[i] as u16);
        let mut j: u32 = 0;
        while j < 8
            invariant
                j <= 8,
                modbus_bits(crc, (8 - j) as nat) == modbus_bits(start, 8),
            decreases 8 - j,
        {
            if crc & 1 != 0 {
                crc = (crc >> 1u16) ^ 0xA001u16;
            } else {
                crc = crc >> 1u16;
            }
            j = j + 1;
        }
        proof {
            let s = data@.subrange(0, i as int + 1);
            assert(s.drop_last() =~= data@.subrange(0, i as int));
        }
        i = i + 1;
    }
    proof {
        assert(data@.subrange(0, data@.len() as int) =~= data@);
    }
    crc
}

/// Bit `i` of the CRC8-Maxim update for input byte `c`, on a 32-bit register.
pub open spec fn maxim_bit(crc: u32, c: u8, i: u32) -> u32 {
    let b = (crc & 1u32) ^ (((c as u32) & (1u32 << i)) >> i);
    ((crc ^ (b * 0x118u32) as u32) >> 1u32) as u32
}

/// Bit steps `i..8` of the CRC8-Maxim update for input byte `c`.
pub open spec fn maxim_bits(crc: u32, c: u8, i: u32) -> u32
    decreases 8 - i,
{
    if i >= 8 {
        crc
    } else {
        maxim_bits(maxim_bit(crc, c, i), c, (i + 1) as u32)
    }
}

/// The 32-bit register of the CRC8-Maxim computation after `s`.
pub open spec fn crc8_maxim_reg(s: Seq<u8>) -> u32
    decreases s.len(),
{
    if s.len() == 0 {
        0
    } else {
        maxim_bits(crc8_maxim_reg(s.drop_last()), s.last(), 0)
    }
}

/// CRC8-Maxim (Dallas 1-Wire), used to guard the length field of AGBOOT
/// and LPC commands.
pub fn crc8_maxim(stream: &[u8]) -> (crc: u8)
    ensures
        crc == crc8_maxim_reg(stream@) as u8,
{
    let mut crc: u32 = 0;
    let mut k: usize = 0;
    while k < stream.len()
        invariant
            k <= stream@.len(),
            crc == crc8_maxim_reg(stream@.subrange(0, k as int)),
        decreases stream@.len() - k,
    {
        let c = stream[k];
        let ghost start = crc;
        let mut i: u32 = 0;
        while i < 8
            invariant
                i <= 8,
                maxim_bits(crc, c, i) == maxim_bits(start, c, 0),
            decreases 8 - i,
        {
            let b = (crc & 1) ^ (((c as u32) & (1u32 << i)) >> i);
            assert(((crc & 1u32) ^ (((c as u32) & (1u32 << i)) >> i)) <= 1u32) by (bit_vector)
                requires
                    i < 8,
            ;
            crc = (crc ^ (b * 0x118)) >> 1;
            i = i + 1;
        }
        proof {
            let s = stream@.subrange(0, k as int + 1);
            assert(s.drop_last() =~= stream@.subrange(0, k as int));
        }
        k = k + 1;
    }
    proof {
        assert(stream@.subrange(0, stream@.len() as int) =~= stream@);
    }
    crc as u8
}

/// Sum of the bytes of `s`.
pub open spec fn byte_sum(s: Seq<u8>) -> int
    decreases s.len(),
{
    if s.len() == 0 {
        0
    } else {
        byte_sum(s.drop_last()) + s.last()
    }
}

/// Sum of the header fields of a DLBOOT command, counting the four bytes of
/// the length separately.
pub open spec fn dl_header_sum(cmd: u8, index: u8, order_id: u8, norder_id: u8, len: u32) -> int {
    cmd + index + order_id + norder_id + len % 256 + (len / 256) % 256 + (len / 65536) % 256 + len
        / 16777216
}

/// The self-defined check value of a DLBOOT DOWNLOAD_DATA command: the
/// header byte sum plus every data byte, modulo 2^32.
pub open spec fn self_def_check1_value(
    cmd: u8,
    index: u8,
    order_id: u8,
    norder_id: u8,
    len: u32,
    data: Seq<u8>,
) -> u32 {
    ((dl_header_sum(cmd, index, order_id, norder_id, len) + byte_sum(data)) % 0x1_0000_0000) as u32
}

/// Self-defined checksum for DLBOOT DOWNLOAD_DATA commands, little-endian.
pub fn self_def_check1(cmd: u8, index: u8, order_id: u8, norder_id: u8, len: u32, data: &[u8]) -> (r: [u8; 4])
    ensures
        r@ == crate::bytes::u32_le(self_def_check1_value(cmd, index, order_id, norder_id, len, data@)),
{
    assert((len & 0xFF) == len % 256) by (bit_vector);
    assert(((len >> 8u32) & 0xFF) == (len / 256) % 256) by (bit_vector);
    assert(((len >> 16u32) & 0xFF) == (len / 65536) % 256) by (bit_vector);
    assert(((len >> 24u32) & 0xFF) == len / 16777216) by (bit_vector);
    let mut ck_val: u32 = cmd as u32 + index as u32 + order_id as u32 + norder_id as u32 + (len & 0xFF)
        + ((len >> 8) & 0xFF) + ((len >> 16) & 0xFF) + ((len >> 24) & 0xFF);
    let ghost h = dl_header_sum(cmd, index, order_id, norder_id, len);
    assert(ck_val == h);
    let mut i: usize = 0;
    while i < data.len()
        invariant
            i <= data@.len(),
            ck_val == (h + byte_sum(data@.subrange(0, i as int))) % 0x1_0000_0000,
            0 <= h,
        decreases data@.len() - i,
    {
        let ghost before = ck_val;
        ck_val = ck_val.wrapping_add(data[i] as u32);
        proof {
            let s = data@.subrange(0, i as int + 1);
            assert(s.drop_last() =~= data@.subrange(0, i as int));
            let x = h + byte_sum(data@.subrange(0, i as int));
            assert(byte_sum(s) == byte_sum(data@.subrange(0, i as int)) + data@[i as int]);
            assert(ck_val == (before + data@[i as int]) % 0x1_0000_0000);
            assert((x % 0x1_0000_0000 + data@[i as int]) % 0x1_0000_0000 == (x + data@[i as int]) % 0x1_0000_0000) by {
                vstd::arithmetic::div_mod::lemma_add_mod_noop(x, data@[i as int] as int, 0x1_0000_0000);
                vstd::arithmetic::div_mod::lemma_small_mod(data@[i as int] as nat, 0x1_0000_0000);
            }
        }
        i = i + 1;
    }
    proof {
        assert(data@.subrange(0, data@.len() as int) =~= data@);
    }
    let mut v: Vec<u8> = Vec::new();
    crate::bytes::push_u32_le(&mut v, ck_val);
    [v[0], v[1], v[2], v[3]]
}

/// Sum of the 16-bit little-endian words of `s` starting at `i`; an odd
/// final byte counts by itself.
pub open spec fn word_sum_from(s: Seq<u8>, i: int) -> int
    decreases s.len() - i,
{
    if i >= s.len() {
        0
    } else if i + 1 == s.len() {
        s[i] as int
    } else {
        s[i] + 256 * s[i + 1] + word_sum_from(s, i + 2)
    }
}

/// The FDL checksum of a packet: 16-bit little-endian word sum, folded
/// twice into 16 bits and complemented.
pub open spec fn fdl_checksum_spec(s: Seq<u8>) -> u16 {
    let sum = word_sum_from(s, 0) as u32;
    let a = ((sum >> 16u32) + (sum & 0xffffu32)) as u32;
    let b = (a + (a >> 16u32)) as u32;
    (!b) as u16
}

/// The word sum from `i` is at most 65535 per remaining byte, plus one.
pub proof fn lemma_word_sum_bound(s: Seq<u8>, i: int)
    requires
        0 <= i <= s.len(),
    ensures
        0 <= word_sum_from(s, i) <= 65535 * (s.len() - i + 1),
    decreases s.len() - i,
{
    if i < s.len() && i + 1 < s.len() {
        lemma_word_sum_bound(s, i + 2);
    }
}

/// CheckSum of the RDA FDL stage (16-bit word sum, folded, complemented).
pub fn fdl_checksum(pkt: &[u8]) -> (r: u16)
    requires
        word_sum_from(pkt@, 0) <= u32::MAX,
    ensures
        r == fdl_checksum_spec(pkt@),
{
    let mut sum: u32 = 0;
    let mut i: usize = 0;
    while i < pkt.len()
        invariant
            i <= pkt@.len(),
            sum + word_sum_from(pkt@, i as int) == word_sum_from(pkt@, 0),
            word_sum_from(pkt@, 0) <= u32::MAX,
        decreases pkt@.len() - i,
    {
        proof {
            lemma_word_sum_bound(pkt@, i as int);
            if i + 2 <= pkt@.len() {
                lemma_word_sum_bound(pkt@, i + 2);
            }
        }
        if i + 1 < pkt.len() {
            sum = sum + (pkt[i] as u32 + 256 * pkt[i + 1] as u32);
            i = i + 2;
        } else {
            sum = sum + pkt[i] as u32;
            i = i + 1;
        }
    }
    let ghost total = sum;
    assert((sum >> 16u32) <= 0xffffu32 && (sum & 0xffffu32) <= 0xffffu32) by (bit_vector);
    sum = (sum >> 16) + (sum & 0xffff);
    assert(sum <= 0x1fffeu32 ==> (sum >> 16u32) <= 1u32) by (bit_vector);
    sum = sum + (sum >> 16);
    let r = (!sum) as u16;
    r
}

/// The word sum of `s` from `i` is at most 65535 per started word.
pub proof fn lemma_word_sum_pairs(s: Seq<u8>, i: int)
    requires
        0 <= i <= s.len(),
    ensures
        0 <= word_sum_from(s, i) <= 65535 * ((s.len() - i + 1) / 2),
    decreases s.len() - i,
{
    if i < s.len() && i + 1 < s.len() {
        lemma_word_sum_pairs(s, i + 2);
        assert((s.len() - i + 1) / 2 == (s.len() - (i + 2) + 1) / 2 + 1);
    }
}

/// Packets of up to 128 KiB never overflow the 32-bit word sum.
pub proof fn lemma_word_sum_fits(s: Seq<u8>)
    requires
        s.len() <= 131072,
    ensures
        word_sum_from(s, 0) <= u32::MAX,
{
    lemma_word_sum_pairs(s, 0);
    assert((s.len() + 1) / 2 <= 65536);
    assert(65535 * ((s.len() + 1) / 2) <= 65535 * 65536) by (nonlinear_arith)
        requires
            (s.len() + 1) / 2 <= 65536,
    ;
}

/// One bit step of the reflected CRC-32 (IEEE, polynomial 0xEDB88320).
pub open spec fn crc32_bit(crc: u32) -> u32 {
    if crc & 1 != 0 {
        ((crc >> 1u32) ^ 0xEDB8_8320u32) as u32
    } else {
        (crc >> 1u32) as u32
    }
}

/// `n` bit steps of the reflected CRC-32.
pub open spec fn crc32_bits(crc: u32, n: nat) -> u32
    decreases n,
{
    if n == 0 {
        crc
    } else {
        crc32_bits(crc32_bit(crc), (n - 1) as nat)
    }
}

/// The CRC-32 register after a byte sequence, starting from all ones.
pub open spec fn crc32_reg(s: Seq<u8>) -> u32
    decreases s.len(),
{
    if s.len() == 0 {
        0xFFFF_FFFFu32
    } else {
        crc32_bits((crc32_reg(s.drop_last()) ^ (s.last() as u32)) as u32, 8)
    }
}

/// The standard CRC-32 (IEEE 802.3, as zlib computes it) of a byte
/// sequence: the register after the bytes, with all bits inverted.
pub open spec fn crc32_of(data: Seq<u8>) -> u32 {
    (crc32_reg(data) ^ 0xFFFF_FFFFu32) as u32
}

} // verus!
