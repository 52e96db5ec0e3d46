//! Endpoint addressing: node(6) + type(4) + id(6) packed in a `u16`, mesh keys,
//! resource addresses and service role bits.

use vstd::prelude::*;
use vstd::std_specs::bits::{u64_trailing_zeros, axiom_u64_trailing_zeros};

verus! {

pub const PROTOCOL_VERSION: u16 = 1;
pub const FRAME_HEADER_SIZE: usize = 16;

// ── Node IDs (6 bits) ──
pub const NODE_CONC: u8 = 0;
/// The concentrator resolves a well-known service and patches in the real node.
pub const NODE_RESOLVE: u8 = 62;
pub const NODE_BROADCAST: u8 = 63;

// ── Service IDs (6 bits, used as id within TYPE_SERVICE); 17-63 are dynamic ──
pub const SVC_NODE: u8 = 0;
pub const SVC_FAST_THINKER: u8 = 1;
pub const SVC_DEEP_THINKER: u8 = 2;
pub const SVC_PROCESS_ENGINE: u8 = 3;
pub const SVC_REPO_HOST: u8 = 4;
pub const SVC_CODER_HOST: u8 = 5;
pub const SVC_VOICE_PROCESSOR: u8 = 6;
pub const SVC_PROMPT_PROCESSOR: u8 = 7;
pub const SVC_HEURISTIC_ROUTER: u8 = 8;
pub const SVC_TERMINAL: u8 = 9;
pub const SVC_ASR: u8 = 10;
pub const SVC_DISPLAY: u8 = 11;
pub const SVC_FEEDBACK: u8 = 12;
pub const SVC_SERIAL: u8 = 13;
pub const SVC_DATA: u8 = 14;
pub const SVC_ANDROID: u8 = 15;
pub const SVC_SKILLS: u8 = 16;

// ── Role bits (u64 bitmap of services) ──
pub const ROLE_NODE: u64 = 1 << SVC_NODE;
pub const ROLE_FAST_THINKER: u64 = 1 << SVC_FAST_THINKER;
pub const ROLE_DEEP_THINKER: u64 = 1 << SVC_DEEP_THINKER;
pub const ROLE_PROCESS_ENGINE: u64 = 1 << SVC_PROCESS_ENGINE;
pub const ROLE_REPO_HOST: u64 = 1 << SVC_REPO_HOST;
pub const ROLE_CODER_HOST: u64 = 1 << SVC_CODER_HOST;
pub const ROLE_VOICE_PROCESSOR: u64 = 1 << SVC_VOICE_PROCESSOR;
pub const ROLE_PROMPT_PROCESSOR: u64 = 1 << SVC_PROMPT_PROCESSOR;
pub const ROLE_HEURISTIC_ROUTER: u64 = 1 << SVC_HEURISTIC_ROUTER;
pub const ROLE_TERMINAL: u64 = 1 << SVC_TERMINAL;
pub const ROLE_ASR: u64 = 1 << SVC_ASR;
pub const ROLE_DISPLAY: u64 = 1 << SVC_DISPLAY;
pub const ROLE_SERIAL: u64 = 1 << SVC_SERIAL;
pub const ROLE_DATA: u64 = 1 << SVC_DATA;
pub const ROLE_ANDROID: u64 = 1 << SVC_ANDROID;
pub const ROLE_SKILLS: u64 = 1 << SVC_SKILLS;

// ── Resource types (4 bits); 6-15 are reserved ──
pub const TYPE_SERVICE: u8 = 0;
pub const TYPE_PROJECT: u8 = 1;
pub const TYPE_TASK: u8 = 2;
pub const TYPE_PROCESS: u8 = 3;
pub const TYPE_NOTE: u8 = 4;
pub const TYPE_TERMINAL: u8 = 5;

/// The role bit of a service.
pub fn svc_to_role(svc: u8) -> (r: u64)
    requires
        svc < 64,
    ensures
        r == 1u64 << svc,
{
    1u64 << svc
}

/// The service of a role bit: the index of its lowest set bit (64 for no bit).
pub fn role_to_svc(role: u64) -> (r: u8)
    ensures
        r == u64_trailing_zeros(role),
{
    proof {
        axiom_u64_trailing_zeros(role);
    }
    role.trailing_zeros() as u8
}

/// Converting a service to its role bit and back gives the service.
pub proof fn lemma_role_svc_roundtrip(svc: u8)
    requires
        svc < 64,
    ensures
        u64_trailing_zeros(1u64 << svc) == svc,
{
    let i: u64 = 1u64 << svc;
    axiom_u64_trailing_zeros(i);
    let t = u64_trailing_zeros(i);
    let s = svc as u64;
    assert(s < 64 ==> (i == 1u64 << s) ==> (i >> s) & 1u64 == 1u64) by (bit_vector);
    assert(forall|j: u64| s < 64 && j < 64 && j != s && i == 1u64 << s ==> #[trigger] ((i >> j) & 1u64) == 0u64) by (bit_vector);
    if t < s {
        let tt = t as u64;
        assert((i >> tt) & 1u64 == 0u64);
    } else if t > s {
        assert((i >> s) & 1u64 == 0u64);
    }
}

// ── Address: node(6) + type(4) + id(6) ──

/// The packed address of its three fields, each reduced to its width.
pub open spec fn addr_spec(node_id: int, res_type: int, id: int) -> int {
    (node_id % 64) * 1024 + (res_type % 16) * 64 + id % 64
}

pub fn addr(node_id: u8, res_type: u8, id: u8) -> (r: u16)
    ensures
        r == addr_spec(node_id as int, res_type as int, id as int),
{
    let r = ((node_id as u16 & 0x3F) << 10) | ((res_type as u16 & 0xF) << 6) | (id as u16 & 0x3F);
    assert(((node_id as u16 & 0x3F) << 10) | ((res_type as u16 & 0xF) << 6) | (id as u16 & 0x3F)
        == (node_id % 64) * 1024 + (res_type % 16) * 64 + id % 64) by (bit_vector);
    r
}

/// Node field of an address (bits 15-10).
pub fn addr_node(a: u16) -> (r: u8)
    ensures
        r == a / 1024,
{
    let r = (a >> 10) as u8 & 0x3F;
    assert((a >> 10) as u8 & 0x3F == a / 1024) by (bit_vector);
    r
}

/// Type field of an address (bits 9-6).
pub fn addr_type(a: u16) -> (r: u8)
    ensures
        r == a / 64 % 16,
{
    let r = (a >> 6) as u8 & 0xF;
    assert((a >> 6) as u8 & 0xF == a / 64 % 16) by (bit_vector);
    r
}

/// Id field of an address (bits 5-0).
pub fn addr_id(a: u16) -> (r: u8)
    ensures
        r == a % 64,
{
    let r = a as u8 & 0x3F;
    assert(a as u8 & 0x3F == a % 64) by (bit_vector);
    r
}

/// Service endpoint: the address of service `svc_id` on node `node_id`.
pub fn endpoint(node_id: u8, svc_id: u8) -> (r: u16)
    ensures
        r == addr_spec(node_id as int, TYPE_SERVICE as int, svc_id as int),
{
    addr(node_id, TYPE_SERVICE, svc_id)
}

pub fn ep_node(ep: u16) -> (r: u8)
    ensures
        r == ep / 1024,
{
    addr_node(ep)
}

pub fn ep_service(ep: u16) -> (r: u8)
    ensures
        r == ep % 64,
{
    addr_id(ep)
}

/// Unpacking a packed address gives back each field reduced to its width.
pub proof fn lemma_addr_unpack(node_id: int, res_type: int, id: int)
    ensures
        0 <= addr_spec(node_id, res_type, id) <= 0xFFFF,
        addr_spec(node_id, res_type, id) / 1024 == node_id % 64,
        addr_spec(node_id, res_type, id) / 64 % 16 == res_type % 16,
        addr_spec(node_id, res_type, id) % 64 == id % 64,
{
    let n = node_id % 64;
    let t = res_type % 16;
    let i = id % 64;
    let a = n * 1024 + t * 64 + i;
    assert(a / 1024 == n);
    assert(a / 64 == n * 16 + t);
    assert((n * 16 + t) % 16 == t);
}

/// Packing the fields of an address gives back the address.
pub proof fn lemma_addr_repack(a: u16)
    ensures
        addr_spec(a as int / 1024, a as int / 64 % 16, a as int % 64) == a as int,
{
    let n = a as int / 1024;
    assert(n < 64);
    assert(a as int == n * 1024 + (a as int / 64 % 16) * 64 + a as int % 64);
}

// ── Mesh key: src endpoint << 16 | dst endpoint ──

pub open spec fn pair_spec(hi: u16, lo: u16) -> u32 {
    (hi as int * 0x10000 + lo as int) as u32
}

pub fn mesh_key(src: u16, dst: u16) -> (r: u32)
    ensures
        r == pair_spec(src, dst),
{
    let r = ((src as u32) << 16) | (dst as u32);
    assert(((src as u32) << 16) | (dst as u32) == src as int * 0x10000 + dst as int) by (bit_vector);
    r
}

pub fn mesh_src(key: u32) -> (r: u16)
    ensures
        r == key / 0x10000,
{
    let r = (key >> 16) as u16;
    assert((key >> 16) as u16 == key / 0x10000) by (bit_vector);
    r
}

pub fn mesh_dst(key: u32) -> (r: u16)
    ensures
        r == key % 0x10000,
{
    let r = key as u16;
    assert(key as u16 == key % 0x10000) by (bit_vector);
    r
}

/// The high and low halves of a packed pair are the two values packed.
pub proof fn lemma_pair_unpack(hi: u16, lo: u16)
    ensures
        pair_spec(hi, lo) / 0x10000 == hi,
        pair_spec(hi, lo) % 0x10000 == lo,
{
    let v = hi as int * 0x10000 + lo as int;
    assert(v <= 0xFFFF_FFFF);
    assert(v / 0x10000 == hi);
}

/// Packing the two halves of a `u32` gives back the value.
pub proof fn lemma_pair_repack(k: u32)
    ensures
        pair_spec((k / 0x10000) as u16, (k % 0x10000) as u16) == k,
{
}

// ── Resource address: owner endpoint << 16 | resource id ──

/// Builds a resource address from the owning service endpoint and a resource id.
pub fn resource(owner: u16, id: u16) -> (r: u32)
    ensures
        r == pair_spec(owner, id),
{
    mesh_key(owner, id)
}

/// The owning service endpoint of a resource address.
pub fn res_owner(r: u32) -> (o: u16)
    ensures
        o == r / 0x10000,
{
    mesh_src(r)
}

/// The resource id within the owning service.
pub fn res_id(r: u32) -> (i: u16)
    ensures
        i == r % 0x10000,
{
    mesh_dst(r)
}

/// The node of the owning endpoint.
pub fn res_node(r: u32) -> (n: u8)
    ensures
        n == r / 0x10000 / 1024,
{
    ep_node(res_owner(r))
}

/// The service of the owning endpoint.
pub fn res_service(r: u32) -> (s: u8)
    ensures
        s == r / 0x10000 % 64,
{
    ep_service(res_owner(r))
}

} // verus!
