//! The frame `flags` field (format, TCP-like flags, TTL) and the `ext` field
//! (on-behalf-of + in-reply-to).

use vstd::prelude::*;
use crate::address::pair_spec;

verus! {

// Format (bits 15-13)
pub const FMT_JSONL: u16 = 0 << 13;
pub const FMT_BINCODE: u16 = 1 << 13;
pub const FMT_RAW: u16 = 2 << 13;
pub const FMT_MASK: u16 = 0x7 << 13;

// TCP-like flags
pub const FLAG_FIN: u16 = 1 << 12;
pub const FLAG_RST: u16 = 1 << 11;
pub const FLAG_ACK: u16 = 1 << 10;
pub const FLAG_SYN: u16 = 1 << 9;

// TTL (bits 8-5, log-scaled, only meaningful with SYN)
pub const TTL_SHIFT: u16 = 5;
pub const TTL_MASK: u16 = 0xF << 5;

/// TTL lookup table: index to seconds; 0 means infinite.
pub const TTL_LUT: [u32; 16] = [
    0, 1, 5, 10, 30, 60, 300, 1800,
    3600, 14400, 86400, 604800, 31536000,
    0, 0, 0,
];

/// The format field (bits 15-13).
pub fn flags_format(flags: u16) -> (r: u16)
    ensures
        r == flags / 8192,
{
    let r = (flags & FMT_MASK) >> 13;
    assert((flags & (0x7u16 << 13u16)) >> 13u16 == flags / 8192) by (bit_vector);
    r
}

/// The TTL field (bits 8-5).
pub fn flags_ttl(flags: u16) -> (r: u8)
    ensures
        r == flags / 32 % 16,
{
    let r = ((flags & TTL_MASK) >> TTL_SHIFT) as u8;
    assert(((flags & (0xFu16 << 5u16)) >> 5u16) as u8 == flags / 32 % 16) by (bit_vector);
    r
}

pub fn flags_is_fin(flags: u16) -> (r: bool)
    ensures
        r == (flags / 4096 % 2 == 1),
{
    let r = flags & FLAG_FIN != 0;
    assert((flags & (1u16 << 12u16) != 0) == (flags / 4096 % 2 == 1)) by (bit_vector);
    r
}

pub fn flags_is_rst(flags: u16) -> (r: bool)
    ensures
        r == (flags / 2048 % 2 == 1),
{
    let r = flags & FLAG_RST != 0;
    assert((flags & (1u16 << 11u16) != 0) == (flags / 2048 % 2 == 1)) by (bit_vector);
    r
}

pub fn flags_is_ack(flags: u16) -> (r: bool)
    ensures
        r == (flags / 1024 % 2 == 1),
{
    let r = flags & FLAG_ACK != 0;
    assert((flags & (1u16 << 10u16) != 0) == (flags / 1024 % 2 == 1)) by (bit_vector);
    r
}

pub fn flags_is_syn(flags: u16) -> (r: bool)
    ensures
        r == (flags / 512 % 2 == 1),
{
    let r = flags & FLAG_SYN != 0;
    assert((flags & (1u16 << 9u16) != 0) == (flags / 512 % 2 == 1)) by (bit_vector);
    r
}

/// Seconds of a TTL index (only its low 4 bits count).
pub fn ttl_seconds(ttl_bits: u8) -> (r: u32)
    ensures
        r == TTL_LUT@[ttl_bits as int % 16],
{
    let i = (ttl_bits & 0xF) as usize;
    assert(ttl_bits & 0xF == ttl_bits % 16) by (bit_vector);
    TTL_LUT[i]
}

/// The seconds of each TTL index: infinite (0) at index 0 and from 13 on, then 1 s,
/// 5 s, 10 s, 30 s, a minute, 5 minutes, 30 minutes, an hour, 4 hours, a day, a week
/// and 365 days.
pub proof fn lemma_ttl_table()
    ensures
        TTL_LUT@ == seq![0u32, 1, 5, 10, 30, 60, 300, 1800, 3600, 14400, 86400, 604800, 31536000, 0, 0, 0],
{
    assert(TTL_LUT@ =~= seq![0u32, 1, 5, 10, 30, 60, 300, 1800, 3600, 14400, 86400, 604800, 31536000, 0, 0, 0]);
}

// ── Ext field: obo(u16) << 16 | in_reply_to(u16) ──

pub fn ext_pack(obo: u16, in_reply_to: u16) -> (r: u32)
    ensures
        r == pair_spec(obo, in_reply_to),
{
    crate::address::mesh_key(obo, in_reply_to)
}

pub fn ext_obo(ext: u32) -> (r: u16)
    ensures
        r == ext / 0x10000,
{
    crate::address::mesh_src(ext)
}

pub fn ext_irt(ext: u32) -> (r: u16)
    ensures
        r == ext % 0x10000,
{
    crate::address::mesh_dst(ext)
}

} // verus!
