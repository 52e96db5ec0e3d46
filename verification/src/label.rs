//! Human-readable text for addresses and service bitmaps.

use vstd::prelude::*;
use crate::address::{addr_node, addr_type, addr_id, addr_spec, lemma_addr_unpack, NODE_CONC, NODE_RESOLVE,
    NODE_BROADCAST, TYPE_SERVICE, TYPE_PROJECT, TYPE_TASK, TYPE_PROCESS, TYPE_NOTE, TYPE_TERMINAL, SVC_NODE,
    SVC_FAST_THINKER, SVC_DEEP_THINKER, SVC_PROCESS_ENGINE, SVC_REPO_HOST, SVC_CODER_HOST, SVC_VOICE_PROCESSOR,
    SVC_PROMPT_PROCESSOR, SVC_HEURISTIC_ROUTER, SVC_TERMINAL, SVC_ASR, SVC_DISPLAY, SVC_FEEDBACK, SVC_SERIAL,
    SVC_DATA, SVC_ANDROID, ROLE_NODE, ROLE_FAST_THINKER, ROLE_DEEP_THINKER,
    ROLE_PROCESS_ENGINE, ROLE_REPO_HOST, ROLE_CODER_HOST, ROLE_VOICE_PROCESSOR, ROLE_PROMPT_PROCESSOR,
    ROLE_HEURISTIC_ROUTER, ROLE_TERMINAL, ROLE_ASR, ROLE_DISPLAY, ROLE_SERIAL, ROLE_DATA, ROLE_ANDROID,
    ROLE_SKILLS};
use crate::text::{push_decimal, dec_digits, str_eq};

verus! {

// ── Address labels ──

/// The node part of a label: the well-known names of the concentrator, the resolver
/// and broadcast, else the node number.
pub open spec fn node_text(n: nat) -> Seq<char> {
    if n == 0 {
        "conc"@
    } else if n == 62 {
        "?"@
    } else if n == 63 {
        "*"@
    } else {
        dec_digits(n)
    }
}

/// The name of a well-known service in an address label (SVC_SKILLS has none here).
pub open spec fn service_label(id: nat) -> Option<Seq<char>> {
    if id == 0 {
        Some("node"@)
    } else if id == 1 {
        Some("fast_thinker"@)
    } else if id == 2 {
        Some("deep_thinker"@)
    } else if id == 3 {
        Some("process_engine"@)
    } else if id == 4 {
        Some("repo_host"@)
    } else if id == 5 {
        Some("coder_host"@)
    } else if id == 6 {
        Some("voice_processor"@)
    } else if id == 7 {
        Some("prompt_processor"@)
    } else if id == 8 {
        Some("heuristic_router"@)
    } else if id == 9 {
        Some("terminal"@)
    } else if id == 10 {
        Some("asr"@)
    } else if id == 11 {
        Some("display"@)
    } else if id == 12 {
        Some("feedback"@)
    } else if id == 13 {
        Some("serial"@)
    } else if id == 14 {
        Some("data"@)
    } else if id == 15 {
        Some("android"@)
    } else {
        None
    }
}

/// The short name of a non-service resource type.
pub open spec fn type_label(t: nat) -> Option<Seq<char>> {
    if t == 1 {
        Some("proj"@)
    } else if t == 2 {
        Some("task"@)
    } else if t == 3 {
        Some("proc"@)
    } else if t == 4 {
        Some("note"@)
    } else if t == 5 {
        Some("term"@)
    } else {
        None
    }
}

/// The label of an address: `node/service` for a well-known service,
/// `node/svc:id` for another service, `node/type:id` for a known resource type
/// and `node/tT:id` otherwise.
pub open spec fn addr_label_spec(a: u16) -> Seq<char> {
    let node = a as nat / 1024;
    let typ = a as nat / 64 % 16;
    let id = a as nat % 64;
    let prefix = node_text(node) + "/"@;
    if typ == 0 {
        match service_label(id) {
            Some(name) => prefix + name,
            None => prefix + "svc:"@ + dec_digits(id),
        }
    } else {
        match type_label(typ) {
            Some(name) => prefix + name + ":"@ + dec_digits(id),
            None => prefix + "t"@ + dec_digits(typ) + ":"@ + dec_digits(id),
        }
    }
}

fn service_label_exec(id: u8) -> (r: Option<&'static str>)
    ensures
        r matches Some(x) ==> service_label(id as nat) == Some(x@),
        r is None ==> service_label(id as nat) is None,
{
    if id == 0 {
        Some("node")
    } else if id == 1 {
        Some("fast_thinker")
    } else if id == 2 {
        Some("deep_thinker")
    } else if id == 3 {
        Some("process_engine")
    } else if id == 4 {
        Some("repo_host")
    } else if id == 5 {
        Some("coder_host")
    } else if id == 6 {
        Some("voice_processor")
    } else if id == 7 {
        Some("prompt_processor")
    } else if id == 8 {
        Some("heuristic_router")
    } else if id == 9 {
        Some("terminal")
    } else if id == 10 {
        Some("asr")
    } else if id == 11 {
        Some("display")
    } else if id == 12 {
        Some("feedback")
    } else if id == 13 {
        Some("serial")
    } else if id == 14 {
        Some("data")
    } else if id == 15 {
        Some("android")
    } else {
        None
    }
}

fn type_label_exec(t: u8) -> (r: Option<&'static str>)
    ensures
        r matches Some(x) ==> type_label(t as nat) == Some(x@),
        r is None ==> type_label(t as nat) is None,
{
    if t == 1 {
        Some("proj")
    } else if t == 2 {
        Some("task")
    } else if t == 3 {
        Some("proc")
    } else if t == 4 {
        Some("note")
    } else if t == 5 {
        Some("term")
    } else {
        None
    }
}

fn push_node_text(s: &mut String, n: u8)
    ensures
        final(s)@ == old(s)@ + node_text(n as nat),
{
    if n == 0 {
        s.append("conc");
    } else if n == 62 {
        s.append("?");
    } else if n == 63 {
        s.append("*");
    } else {
        push_decimal(s, n as u64);
    }
}

/// Formats an address for human display.
pub fn addr_label(a: u16) -> (r: String)
    ensures
        r@ == addr_label_spec(a),
{
    let node = addr_node(a);
    let typ = addr_type(a);
    let id = addr_id(a);
    let mut s = String::new();
    push_node_text(&mut s, node);
    s.append("/");
    if typ == 0 {
        match service_label_exec(id) {
            Some(name) => {
                s.append(name);
            },
            None => {
                s.append("svc:");
                push_decimal(&mut s, id as u64);
            },
        }
    } else {
        match type_label_exec(typ) {
            Some(name) => {
                s.append(name);
                s.append(":");
                push_decimal(&mut s, id as u64);
            },
            None => {
                s.append("t");
                push_decimal(&mut s, typ as u64);
                s.append(":");
                push_decimal(&mut s, id as u64);
            },
        }
    }
    assert(s@ =~= addr_label_spec(a));
    s
}

/// The label of address `a` built from node `node`, type `t` and id `id`.
pub open spec fn label_of(node: nat, t: nat, id: nat) -> Seq<char> {
    addr_label_spec(addr_spec(node as int, t as int, id as int) as u16)
}

/// The node part of every label: "conc" for the concentrator, "?" for the resolver,
/// "*" for broadcast, and the node number in decimal for any other node.
pub proof fn lemma_node_text_names(node: nat)
    requires
        node < 64,
    ensures
        node == NODE_CONC ==> node_text(node) == "conc"@,
        node == NODE_RESOLVE ==> node_text(node) == "?"@,
        node == NODE_BROADCAST ==> node_text(node) == "*"@,
        node != NODE_CONC && node != NODE_RESOLVE && node != NODE_BROADCAST ==> node_text(node) == dec_digits(node),
{
}

/// The label of a resource of a known type is its node, "/", the fixed short name of
/// the type ("proj", "task", "proc", "note", "term" for the project, task, process,
/// note and terminal types), ":" and the id in decimal; for any other non-service
/// type it is the node, "/t", the type in decimal, ":" and the id in decimal.
pub proof fn lemma_addr_label_types(node: nat, t: nat, id: nat)
    requires
        node < 64,
        t < 16,
        id < 64,
    ensures
        t == TYPE_PROJECT ==> label_of(node, t, id) == node_text(node) + "/"@ + "proj"@ + ":"@ + dec_digits(id),
        t == TYPE_TASK ==> label_of(node, t, id) == node_text(node) + "/"@ + "task"@ + ":"@ + dec_digits(id),
        t == TYPE_PROCESS ==> label_of(node, t, id) == node_text(node) + "/"@ + "proc"@ + ":"@ + dec_digits(id),
        t == TYPE_NOTE ==> label_of(node, t, id) == node_text(node) + "/"@ + "note"@ + ":"@ + dec_digits(id),
        t == TYPE_TERMINAL ==> label_of(node, t, id) == node_text(node) + "/"@ + "term"@ + ":"@ + dec_digits(id),
        t > TYPE_TERMINAL ==> label_of(node, t, id) == node_text(node) + "/"@ + "t"@ + dec_digits(t) + ":"@
            + dec_digits(id),
{
    lemma_addr_unpack(node as int, t as int, id as int);
    let a = addr_spec(node as int, t as int, id as int) as u16;
    assert(a as nat / 1024 == node && a as nat / 64 % 16 == t && a as nat % 64 == id);
    assert(label_of(node, t, id) == addr_label_spec(a));
}

/// The label of a service address is its node, "/" and the service's fixed name
/// (SVC_NODE "node" through SVC_ANDROID "android"); a service id without a name gives
/// the node, "/svc:" and the id in decimal.
pub proof fn lemma_addr_label_services(node: nat, id: nat)
    requires
        node < 64,
        id < 64,
    ensures
        ({
            let l = label_of(node, TYPE_SERVICE as nat, id);
            let p = node_text(node) + "/"@;
            &&& id == SVC_NODE ==> l == p + "node"@
            &&& id == SVC_FAST_THINKER ==> l == p + "fast_thinker"@
            &&& id == SVC_DEEP_THINKER ==> l == p + "deep_thinker"@
            &&& id == SVC_PROCESS_ENGINE ==> l == p + "process_engine"@
            &&& id == SVC_REPO_HOST ==> l == p + "repo_host"@
            &&& id == SVC_CODER_HOST ==> l == p + "coder_host"@
            &&& id == SVC_VOICE_PROCESSOR ==> l == p + "voice_processor"@
            &&& id == SVC_PROMPT_PROCESSOR ==> l == p + "prompt_processor"@
            &&& id == SVC_HEURISTIC_ROUTER ==> l == p + "heuristic_router"@
            &&& id == SVC_TERMINAL ==> l == p + "terminal"@
            &&& id == SVC_ASR ==> l == p + "asr"@
            &&& id == SVC_DISPLAY ==> l == p + "display"@
            &&& id == SVC_FEEDBACK ==> l == p + "feedback"@
            &&& id == SVC_SERIAL ==> l == p + "serial"@
            &&& id == SVC_DATA ==> l == p + "data"@
            &&& id == SVC_ANDROID ==> l == p + "android"@
            &&& id > SVC_ANDROID ==> l == p + "svc:"@ + dec_digits(id)
        }),
{
    lemma_addr_unpack(node as int, TYPE_SERVICE as int, id as int);
    let a = addr_spec(node as int, TYPE_SERVICE as int, id as int) as u16;
    assert(a as nat / 1024 == node && a as nat / 64 % 16 == 0 && a as nat % 64 == id);
    assert(label_of(node, TYPE_SERVICE as nat, id) == addr_label_spec(a));
}

// ── Service bitmaps ──

/// The name under which service `svc` is listed in a services bitmap text
/// (SVC_FEEDBACK is not listed).
pub open spec fn listed_service(svc: nat) -> Option<Seq<char>> {
    if svc == 12 {
        None
    } else if svc == 16 {
        Some("skills"@)
    } else {
        service_label(svc)
    }
}

/// The names of the listed services below `k` whose bit is set, lowest first.
pub open spec fn listed_names(services: u64, k: nat) -> Seq<Seq<char>>
    decreases k,
{
    if k == 0 {
        Seq::empty()
    } else {
        let prev = listed_names(services, (k - 1) as nat);
        match listed_service((k - 1) as nat) {
            Some(name) => if services & (1u64 << (k - 1) as u64) != 0 {
                prev.push(name)
            } else {
                prev
            },
            None => prev,
        }
    }
}

/// `parts` joined with `sep` between neighbours.
pub open spec fn join(parts: Seq<Seq<char>>, sep: Seq<char>) -> Seq<char>
    decreases parts.len(),
{
    if parts.len() == 0 {
        Seq::empty()
    } else if parts.len() == 1 {
        parts[0]
    } else {
        join(parts.drop_last(), sep) + sep + parts.last()
    }
}

/// The text of a services bitmap: the names of its listed services joined by ", ",
/// or "none".
pub open spec fn services_text(services: u64) -> Seq<char> {
    let names = listed_names(services, 17);
    if names.len() == 0 {
        "none"@
    } else {
        join(names, ", "@)
    }
}

fn listed_service_exec(svc: u8) -> (r: Option<&'static str>)
    ensures
        r matches Some(x) ==> listed_service(svc as nat) == Some(x@),
        r is None ==> listed_service(svc as nat) is None,
{
    if svc == 12 {
        None
    } else if svc == 16 {
        Some("skills")
    } else {
        service_label_exec(svc)
    }
}

/// Converts a services bitmap to a human-readable string.
pub fn services_to_str(services: u64) -> (r: String)
    ensures
        r@ == services_text(services),
{
    let mut s = String::new();
    let mut count: usize = 0;
    let mut svc: u8 = 0;
    while svc < 17
        invariant
            svc <= 17,
            count == listed_names(services, svc as nat).len(),
            count <= svc,
            s@ == join(listed_names(services, svc as nat), ", "@),
        decreases 17 - svc,
    {
        let ghost prev = listed_names(services, svc as nat);
        match listed_service_exec(svc) {
            Some(name) => {
                if services & (1u64 << svc) != 0 {
                    if count > 0 {
                        s.append(", ");
                    }
                    s.append(name);
                    count = count + 1;
                    proof {
                        let now = prev.push(name@);
                        assert(now.drop_last() =~= prev);
                        if prev.len() == 0 {
                            assert(s@ =~= join(now, ", "@));
                        }
                    }
                }
            },
            None => {},
        }
        svc = svc + 1;
    }
    if count == 0 {
        let r = String::from_str("none");
        return r;
    }
    s
}

/// The role bit of a service name (several names have aliases); 0 for an unknown name.
pub open spec fn name_role(n: Seq<char>) -> u64 {
    if n == "node"@ {
        ROLE_NODE
    } else if n == "fast_thinker"@ || n == "thinker"@ {
        ROLE_FAST_THINKER
    } else if n == "deep_thinker"@ {
        ROLE_DEEP_THINKER
    } else if n == "process_engine"@ || n == "process_host"@ {
        ROLE_PROCESS_ENGINE
    } else if n == "repo_host"@ || n == "repo"@ {
        ROLE_REPO_HOST
    } else if n == "coder_host"@ || n == "coder"@ {
        ROLE_CODER_HOST
    } else if n == "voice_processor"@ {
        ROLE_VOICE_PROCESSOR
    } else if n == "prompt_processor"@ {
        ROLE_PROMPT_PROCESSOR
    } else if n == "heuristic_router"@ {
        ROLE_HEURISTIC_ROUTER
    } else if n == "terminal"@ {
        ROLE_TERMINAL
    } else if n == "asr"@ {
        ROLE_ASR
    } else if n == "display"@ {
        ROLE_DISPLAY
    } else if n == "serial"@ {
        ROLE_SERIAL
    } else if n == "data"@ {
        ROLE_DATA
    } else if n == "android"@ {
        ROLE_ANDROID
    } else if n == "skills"@ {
        ROLE_SKILLS
    } else {
        0
    }
}

/// The bitmap of a list of service names: the node role together with the role of
/// every known name.
pub open spec fn names_roles(names: Seq<Seq<char>>) -> u64
    decreases names.len(),
{
    if names.len() == 0 {
        ROLE_NODE
    } else {
        names_roles(names.drop_last()) | name_role(names.last())
    }
}

/// The node role is always set in the bitmap of a list of service names.
pub proof fn lemma_names_roles_has_node(names: Seq<Seq<char>>)
    ensures
        names_roles(names) & ROLE_NODE == ROLE_NODE,
    decreases names.len(),
{
    assert((1u64 << 0u8) == 1u64) by (bit_vector);
    assert(ROLE_NODE == 1u64);
    assert(1u64 & 1u64 == 1u64) by (bit_vector);
    if names.len() > 0 {
        lemma_names_roles_has_node(names.drop_last());
        let x = names_roles(names.drop_last());
        let y = name_role(names.last());
        assert(x & 1u64 == 1u64 ==> (x | y) & 1u64 == 1u64) by (bit_vector);
    }
}

/// The lengths and first characters of the service names.
proof fn lemma_name_literals()
    ensures
        "none"@.len() == 4,
        "none"@[0] == 'n',
        "none"@[1] == 'o',
        "none"@[2] == 'n',
        "node"@.len() == 4,
        "node"@[0] == 'n',
        "node"@[1] == 'o',
        "node"@[2] == 'd',
        "fast_thinker"@.len() == 12,
        "fast_thinker"@[0] == 'f',
        "fast_thinker"@[1] == 'a',
        "fast_thinker"@[2] == 's',
        "thinker"@.len() == 7,
        "thinker"@[0] == 't',
        "thinker"@[1] == 'h',
        "thinker"@[2] == 'i',
        "deep_thinker"@.len() == 12,
        "deep_thinker"@[0] == 'd',
        "deep_thinker"@[1] == 'e',
        "deep_thinker"@[2] == 'e',
        "process_engine"@.len() == 14,
        "process_engine"@[0] == 'p',
        "process_engine"@[1] == 'r',
        "process_engine"@[2] == 'o',
        "process_host"@.len() == 12,
        "process_host"@[0] == 'p',
        "process_host"@[1] == 'r',
        "process_host"@[2] == 'o',
        "repo_host"@.len() == 9,
        "repo_host"@[0] == 'r',
        "repo_host"@[1] == 'e',
        "repo_host"@[2] == 'p',
        "repo"@.len() == 4,
        "repo"@[0] == 'r',
        "repo"@[1] == 'e',
        "repo"@[2] == 'p',
        "coder_host"@.len() == 10,
        "coder_host"@[0] == 'c',
        "coder_host"@[1] == 'o',
        "coder_host"@[2] == 'd',
        "coder"@.len() == 5,
        "coder"@[0] == 'c',
        "coder"@[1] == 'o',
        "coder"@[2] == 'd',
        "voice_processor"@.len() == 15,
        "voice_processor"@[0] == 'v',
        "voice_processor"@[1] == 'o',
        "voice_processor"@[2] == 'i',
        "prompt_processor"@.len() == 16,
        "prompt_processor"@[0] == 'p',
        "prompt_processor"@[1] == 'r',
        "prompt_processor"@[2] == 'o',
        "heuristic_router"@.len() == 16,
        "heuristic_router"@[0] == 'h',
        "heuristic_router"@[1] == 'e',
        "heuristic_router"@[2] == 'u',
        "terminal"@.len() == 8,
        "terminal"@[0] == 't',
        "terminal"@[1] == 'e',
        "terminal"@[2] == 'r',
        "asr"@.len() == 3,
        "asr"@[0] == 'a',
        "asr"@[1] == 's',
        "asr"@[2] == 'r',
        "display"@.len() == 7,
        "display"@[0] == 'd',
        "display"@[1] == 'i',
        "display"@[2] == 's',
        "serial"@.len() == 6,
        "serial"@[0] == 's',
        "serial"@[1] == 'e',
        "serial"@[2] == 'r',
        "data"@.len() == 4,
        "data"@[0] == 'd',
        "data"@[1] == 'a',
        "data"@[2] == 't',
        "android"@.len() == 7,
        "android"@[0] == 'a',
        "android"@[1] == 'n',
        "android"@[2] == 'd',
        "skills"@.len() == 6,
        "skills"@[0] == 's',
        "skills"@[1] == 'k',
        "skills"@[2] == 'i',
{
    reveal_strlit("none");
    reveal_strlit("node");
    reveal_strlit("fast_thinker");
    reveal_strlit("thinker");
    reveal_strlit("deep_thinker");
    reveal_strlit("process_engine");
    reveal_strlit("process_host");
    reveal_strlit("repo_host");
    reveal_strlit("repo");
    reveal_strlit("coder_host");
    reveal_strlit("coder");
    reveal_strlit("voice_processor");
    reveal_strlit("prompt_processor");
    reveal_strlit("heuristic_router");
    reveal_strlit("terminal");
    reveal_strlit("asr");
    reveal_strlit("display");
    reveal_strlit("serial");
    reveal_strlit("data");
    reveal_strlit("android");
    reveal_strlit("skills");
}

/// The values of the role bits.
proof fn lemma_role_values()
    ensures
        ROLE_NODE == 0x1,
        ROLE_FAST_THINKER == 0x2,
        ROLE_DEEP_THINKER == 0x4,
        ROLE_PROCESS_ENGINE == 0x8,
        ROLE_REPO_HOST == 0x10,
        ROLE_CODER_HOST == 0x20,
        ROLE_VOICE_PROCESSOR == 0x40,
        ROLE_PROMPT_PROCESSOR == 0x80,
        ROLE_HEURISTIC_ROUTER == 0x100,
        ROLE_TERMINAL == 0x200,
        ROLE_ASR == 0x400,
        ROLE_DISPLAY == 0x800,
        ROLE_SERIAL == 0x2000,
        ROLE_DATA == 0x4000,
        ROLE_ANDROID == 0x8000,
        ROLE_SKILLS == 0x10000,
{
    assert((1u64 << 0u8) == 0x1u64 && (1u64 << 1u8) == 0x2u64 && (1u64 << 2u8) == 0x4u64
        && (1u64 << 3u8) == 0x8u64 && (1u64 << 4u8) == 0x10u64 && (1u64 << 5u8) == 0x20u64
        && (1u64 << 6u8) == 0x40u64 && (1u64 << 7u8) == 0x80u64 && (1u64 << 8u8) == 0x100u64
        && (1u64 << 9u8) == 0x200u64 && (1u64 << 10u8) == 0x400u64 && (1u64 << 11u8) == 0x800u64
        && (1u64 << 13u8) == 0x2000u64 && (1u64 << 14u8) == 0x4000u64 && (1u64 << 15u8) == 0x8000u64
        && (1u64 << 16u8) == 0x10000u64) by (bit_vector);
}

/// The bits that a services bitmap text can name: services 0 to 16 but SVC_FEEDBACK (12).
pub open spec fn listed_bits() -> u64 {
    0x1EFFF
}

/// Every name maps to a listed bit or to none.
pub proof fn lemma_name_role_listed(n: Seq<char>)
    ensures
        name_role(n) & !listed_bits() == 0,
{
    lemma_role_values();
    let r = name_role(n);
    assert(r == 0 || r == 0x1 || r == 0x2 || r == 0x4 || r == 0x8 || r == 0x10 || r == 0x20 || r == 0x40
        || r == 0x80 || r == 0x100 || r == 0x200 || r == 0x400 || r == 0x800 || r == 0x2000 || r == 0x4000
        || r == 0x8000 || r == 0x10000);
    assert(r == 0 || r == 0x1 || r == 0x2 || r == 0x4 || r == 0x8 || r == 0x10 || r == 0x20 || r == 0x40
        || r == 0x80 || r == 0x100 || r == 0x200 || r == 0x400 || r == 0x800 || r == 0x2000 || r == 0x4000
        || r == 0x8000 || r == 0x10000 ==> r & !0x1EFFFu64 == 0) by (bit_vector);
}

/// The bitmap of any list of service names holds the node bit and listed bits only.
pub proof fn lemma_names_roles_listed_only(names: Seq<Seq<char>>)
    ensures
        names_roles(names) & !listed_bits() == 0,
        names_roles(names) & ROLE_NODE == ROLE_NODE,
    decreases names.len(),
{
    lemma_role_values();
    lemma_names_roles_has_node(names);
    if names.len() == 0 {
        assert(1u64 & !0x1EFFFu64 == 0) by (bit_vector);
    } else {
        lemma_names_roles_listed_only(names.drop_last());
        lemma_name_role_listed(names.last());
        let x = names_roles(names.drop_last());
        let y = name_role(names.last());
        assert(x & !0x1EFFFu64 == 0 && y & !0x1EFFFu64 == 0 ==> (x | y) & !0x1EFFFu64 == 0) by (bit_vector);
    }
}

/// The role of the name under which a service is listed is that service's bit.
proof fn lemma_listed_name_role(svc: u64)
    requires
        svc < 17,
        svc != 12,
    ensures
        listed_service(svc as nat) is Some,
        name_role(listed_service(svc as nat).unwrap()) == 1u64 << svc,
{
    lemma_role_values();
    lemma_name_literals();
    assert(svc < 17 && svc != 12 ==> (1u64 << svc) == (if svc == 0 { 0x1u64 } else if svc == 1 { 0x2u64 }
        else if svc == 2 { 0x4u64 } else if svc == 3 { 0x8u64 } else if svc == 4 { 0x10u64 }
        else if svc == 5 { 0x20u64 } else if svc == 6 { 0x40u64 } else if svc == 7 { 0x80u64 }
        else if svc == 8 { 0x100u64 } else if svc == 9 { 0x200u64 } else if svc == 10 { 0x400u64 }
        else if svc == 11 { 0x800u64 } else if svc == 13 { 0x2000u64 } else if svc == 14 { 0x4000u64 }
        else if svc == 15 { 0x8000u64 } else { 0x10000u64 })) by (bit_vector);
}

/// The listed bits below `k`.
pub open spec fn listed_below(k: u64) -> u64 {
    if k > 12 {
        !(0xFFFF_FFFF_FFFF_FFFFu64 << k) & !0x1000u64
    } else {
        !(0xFFFF_FFFF_FFFF_FFFFu64 << k)
    }
}

/// The names listed for a bitmap's services below `k` map back to those services
/// and the node bit.
proof fn lemma_listed_names_roles(services: u64, k: u64)
    requires
        k <= 17,
    ensures
        names_roles(listed_names(services, k as nat)) == (services & listed_below(k)) | 1u64,
    decreases k,
{
    lemma_role_values();
    if k == 0 {
        assert((services & !(0xFFFF_FFFF_FFFF_FFFFu64 << 0u64)) | 1u64 == 1u64) by (bit_vector);
    } else {
        let j: u64 = (k - 1) as u64;
        lemma_listed_names_roles(services, j);
        let prev = listed_names(services, j as nat);
        let x = names_roles(prev);
        if j == 12 {
            assert(listed_service(12) is None);
            assert((services & !(0xFFFF_FFFF_FFFF_FFFFu64 << 12u64)) | 1u64 == (services & (!(
                0xFFFF_FFFF_FFFF_FFFFu64 << 13u64) & !0x1000u64)) | 1u64) by (bit_vector);
        } else {
            lemma_listed_name_role(j);
            let name = listed_service(j as nat).unwrap();
            if services & (1u64 << j) != 0 {
                assert(listed_names(services, k as nat) == prev.push(name));
                assert(prev.push(name).drop_last() =~= prev);
                assert(names_roles(prev.push(name)) == x | (1u64 << j));
            } else {
                assert(listed_names(services, k as nat) == prev);
            }
            assert(j < 17 && j != 12 ==> (if services & (1u64 << j) != 0 {
                ((services & listed_below(j)) | 1u64) | (1u64 << j)
            } else {
                (services & listed_below(j)) | 1u64
            }) == (services & listed_below((j + 1) as u64)) | 1u64) by (bit_vector);
        }
    }
}

/// No name is listed for a bitmap without any listed service below `k`.
proof fn lemma_listed_names_empty(services: u64, k: u64)
    requires
        k <= 17,
        services & listed_below(k) == 0,
    ensures
        listed_names(services, k as nat).len() == 0,
    decreases k,
{
    if k > 0 {
        let j: u64 = (k - 1) as u64;
        assert(j < 17 && services & listed_below((j + 1) as u64) == 0 ==> services & listed_below(j) == 0
            && (j != 12 ==> services & (1u64 << j) == 0)) by (bit_vector);
        lemma_listed_names_empty(services, j);
    }
}

/// A bitmap with no listed service (the empty one among them) reads "none".
pub proof fn lemma_services_text_none(services: u64)
    requires
        services & listed_bits() == 0,
    ensures
        services_text(services) == "none"@,
{
    assert(listed_below(17) == 0x1EFFFu64) by (bit_vector);
    lemma_listed_names_empty(services, 17);
}

/// The characters of the listed service names and of "none".
proof fn lemma_name_spellings()
    ensures
        "none"@ == seq!['n', 'o', 'n', 'e'],
        "node"@ == seq!['n', 'o', 'd', 'e'],
        "fast_thinker"@ == seq!['f', 'a', 's', 't', '_', 't', 'h', 'i', 'n', 'k', 'e', 'r'],
        "deep_thinker"@ == seq!['d', 'e', 'e', 'p', '_', 't', 'h', 'i', 'n', 'k', 'e', 'r'],
        "process_engine"@ == seq!['p', 'r', 'o', 'c', 'e', 's', 's', '_', 'e', 'n', 'g', 'i', 'n', 'e'],
        "repo_host"@ == seq!['r', 'e', 'p', 'o', '_', 'h', 'o', 's', 't'],
        "coder_host"@ == seq!['c', 'o', 'd', 'e', 'r', '_', 'h', 'o', 's', 't'],
        "voice_processor"@ == seq!['v', 'o', 'i', 'c', 'e', '_', 'p', 'r', 'o', 'c', 'e', 's', 's', 'o', 'r'],
        "prompt_processor"@ == seq!['p', 'r', 'o', 'm', 'p', 't', '_', 'p', 'r', 'o', 'c', 'e', 's', 's', 'o', 'r'],
        "heuristic_router"@ == seq!['h', 'e', 'u', 'r', 'i', 's', 't', 'i', 'c', '_', 'r', 'o', 'u', 't', 'e', 'r'],
        "terminal"@ == seq!['t', 'e', 'r', 'm', 'i', 'n', 'a', 'l'],
        "asr"@ == seq!['a', 's', 'r'],
        "display"@ == seq!['d', 'i', 's', 'p', 'l', 'a', 'y'],
        "serial"@ == seq!['s', 'e', 'r', 'i', 'a', 'l'],
        "data"@ == seq!['d', 'a', 't', 'a'],
        "android"@ == seq!['a', 'n', 'd', 'r', 'o', 'i', 'd'],
        "skills"@ == seq!['s', 'k', 'i', 'l', 'l', 's'],
{
    reveal_strlit("none");
    assert("none"@ =~= seq!['n', 'o', 'n', 'e']);
    reveal_strlit("node");
    assert("node"@ =~= seq!['n', 'o', 'd', 'e']);
    reveal_strlit("fast_thinker");
    assert("fast_thinker"@ =~= seq!['f', 'a', 's', 't', '_', 't', 'h', 'i', 'n', 'k', 'e', 'r']);
    reveal_strlit("deep_thinker");
    assert("deep_thinker"@ =~= seq!['d', 'e', 'e', 'p', '_', 't', 'h', 'i', 'n', 'k', 'e', 'r']);
    reveal_strlit("process_engine");
    assert("process_engine"@ =~= seq!['p', 'r', 'o', 'c', 'e', 's', 's', '_', 'e', 'n', 'g', 'i', 'n', 'e']);
    reveal_strlit("repo_host");
    assert("repo_host"@ =~= seq!['r', 'e', 'p', 'o', '_', 'h', 'o', 's', 't']);
    reveal_strlit("coder_host");
    assert("coder_host"@ =~= seq!['c', 'o', 'd', 'e', 'r', '_', 'h', 'o', 's', 't']);
    reveal_strlit("voice_processor");
    assert("voice_processor"@ =~= seq!['v', 'o', 'i', 'c', 'e', '_', 'p', 'r', 'o', 'c', 'e', 's', 's', 'o', 'r']);
    reveal_strlit("prompt_processor");
    assert("prompt_processor"@ =~= seq!['p', 'r', 'o', 'm', 'p', 't', '_', 'p', 'r', 'o', 'c', 'e', 's', 's', 'o', 'r']);
    reveal_strlit("heuristic_router");
    assert("heuristic_router"@ =~= seq!['h', 'e', 'u', 'r', 'i', 's', 't', 'i', 'c', '_', 'r', 'o', 'u', 't', 'e', 'r']);
    reveal_strlit("terminal");
    assert("terminal"@ =~= seq!['t', 'e', 'r', 'm', 'i', 'n', 'a', 'l']);
    reveal_strlit("asr");
    assert("asr"@ =~= seq!['a', 's', 'r']);
    reveal_strlit("display");
    assert("display"@ =~= seq!['d', 'i', 's', 'p', 'l', 'a', 'y']);
    reveal_strlit("serial");
    assert("serial"@ =~= seq!['s', 'e', 'r', 'i', 'a', 'l']);
    reveal_strlit("data");
    assert("data"@ =~= seq!['d', 'a', 't', 'a']);
    reveal_strlit("android");
    assert("android"@ =~= seq!['a', 'n', 'd', 'r', 'o', 'i', 'd']);
    reveal_strlit("skills");
    assert("skills"@ =~= seq!['s', 'k', 'i', 'l', 'l', 's']);
}

/// Whether `s` holds no comma.
pub open spec fn no_comma(s: Seq<char>) -> bool {
    forall|k: int| 0 <= k < s.len() ==> s[k] != ','
}

/// Whether the separator ", " starts at index `i` of `t`.
pub open spec fn sep_at(t: Seq<char>, i: int) -> bool {
    0 <= i && i + 2 <= t.len() && t[i] == ',' && t[i + 1] == ' '
}

/// `t` cut at every ", " into its parts, as splitting a string at ", " does.
pub open spec fn split_sep(t: Seq<char>) -> Seq<Seq<char>>
    decreases t.len(),
{
    if exists|i: int| sep_at(t, i) {
        let i = choose|i: int| sep_at(t, i) && forall|j: int| i < j ==> !sep_at(t, j);
        if 0 <= i < t.len() {
            split_sep(t.take(i)).push(t.skip(i + 2))
        } else {
            seq![t]
        }
    } else {
        seq![t]
    }
}

/// Text without a comma is a single part.
proof fn lemma_split_no_comma(t: Seq<char>)
    requires
        no_comma(t),
    ensures
        split_sep(t) == seq![t],
{
    assert(!exists|i: int| sep_at(t, i));
}

/// Cutting text that ends in ", " and a part without a comma cuts off that part.
proof fn lemma_split_last(head: Seq<char>, last: Seq<char>)
    requires
        no_comma(last),
    ensures
        split_sep(head + seq![',', ' '] + last) == split_sep(head).push(last),
{
    let t = head + seq![',', ' '] + last;
    let i0 = head.len() as int;
    assert(sep_at(t, i0));
    assert forall|j: int| i0 < j implies !sep_at(t, j) by {
        if sep_at(t, j) {
            if j == i0 + 1 {
                assert(t[j] == ' ');
            } else {
                assert(t[j] == last[j - i0 - 2]);
            }
        }
    }
    let i = choose|i: int| sep_at(t, i) && forall|j: int| i < j ==> !sep_at(t, j);
    assert(sep_at(t, i) && forall|j: int| i < j ==> !sep_at(t, j));
    if i < i0 {
        assert(!sep_at(t, i0));
    }
    if i > i0 {
        assert(!sep_at(t, i));
    }
    assert(i == i0);
    assert(t.take(i0) =~= head);
    assert(t.skip(i0 + 2) =~= last);
}

/// Cutting names joined by ", " gives the names back, when no name holds a comma.
#[verifier::rlimit(40)]
pub proof fn lemma_split_join(names: Seq<Seq<char>>)
    requires
        names.len() > 0,
        forall|i: int| 0 <= i < names.len() ==> no_comma(#[trigger] names[i]),
    ensures
        split_sep(join(names, ", "@)) == names,
    decreases names.len(),
{
    reveal_strlit(", ");
    assert(", "@ =~= seq![',', ' ']);
    if names.len() == 1 {
        lemma_split_no_comma(names[0]);
        assert(seq![names[0]] =~= names);
    } else {
        let p = names.drop_last();
        let last = names.last();
        assert forall|i: int| 0 <= i < p.len() implies no_comma(#[trigger] p[i]) by {
            assert(p[i] == names[i]);
        }
        assert(no_comma(last)) by {
            assert(last == names[names.len() - 1]);
        }
        lemma_split_join(p);
        lemma_split_last(join(p, ", "@), last);
        assert(join(names, ", "@) == join(p, ", "@) + seq![',', ' '] + last);
        assert(names =~= p.push(last));
    }
}

/// No listed service name holds a comma.
proof fn lemma_listed_names_no_comma(services: u64, k: nat)
    ensures
        forall|i: int| 0 <= i < listed_names(services, k).len() ==> no_comma(
            #[trigger] listed_names(services, k)[i],
        ),
    decreases k,
{
    if k > 0 {
        lemma_listed_names_no_comma(services, (k - 1) as nat);
        lemma_name_spellings();
        let prev = listed_names(services, (k - 1) as nat);
        match listed_service((k - 1) as nat) {
            Some(name) => {
                assert(no_comma(name));
                if services & (1u64 << (k - 1) as u64) != 0 {
                    assert forall|i: int| 0 <= i < prev.push(name).len() implies no_comma(
                        #[trigger] prev.push(name)[i],
                    ) by {
                        if i < prev.len() {
                            assert(prev.push(name)[i] == prev[i]);
                        }
                    }
                }
            },
            None => {},
        }
    }
}

/// Parsing back the text of a services bitmap (cutting it at ", " and mapping each
/// name to its role) gives the bitmap with the node bit set, for every bitmap of
/// listed services. For the empty bitmap the text is "none", which names no service.
pub proof fn lemma_services_text_parses_back(services: u64)
    requires
        services & !listed_bits() == 0,
    ensures
        names_roles(split_sep(services_text(services))) == services | ROLE_NODE,
{
    lemma_role_values();
    lemma_listed_names_roles(services, 17);
    assert(listed_below(17) == 0x1EFFFu64) by (bit_vector);
    assert(services & !0x1EFFFu64 == 0 ==> services & 0x1EFFFu64 == services) by (bit_vector);
    let names = listed_names(services, 17);
    if names.len() == 0 {
        lemma_name_spellings();
        lemma_split_no_comma("none"@);
        lemma_listed_name_role_none();
        let ns = seq!["none"@];
        assert(ns.drop_last() =~= Seq::<Seq<char>>::empty());
        assert(names_roles(Seq::<Seq<char>>::empty()) == ROLE_NODE);
        assert(ns.last() == "none"@);
        assert(names_roles(ns) == names_roles(ns.drop_last()) | name_role(ns.last()));
        assert((1u64 | 0u64) == 1u64) by (bit_vector);
        // No listed name means no listed bit.
        assert(names_roles(names) == 1u64);
    } else {
        lemma_listed_names_no_comma(services, 17);
        lemma_split_join(names);
    }
}

/// "none" names no service.
proof fn lemma_listed_name_role_none()
    ensures
        name_role("none"@) == 0,
{
    lemma_name_literals();
}

/// Every service name and alias selects its service's role bit: "node", then
/// "fast_thinker" or "thinker", "deep_thinker", "process_engine" or "process_host",
/// "repo_host" or "repo", "coder_host" or "coder", and the single names of the other
/// services; "feedback" and "none" select nothing.
pub proof fn lemma_name_roles_by_name()
    ensures
        name_role("node"@) == ROLE_NODE,
        name_role("fast_thinker"@) == ROLE_FAST_THINKER,
        name_role("thinker"@) == ROLE_FAST_THINKER,
        name_role("deep_thinker"@) == ROLE_DEEP_THINKER,
        name_role("process_engine"@) == ROLE_PROCESS_ENGINE,
        name_role("process_host"@) == ROLE_PROCESS_ENGINE,
        name_role("repo_host"@) == ROLE_REPO_HOST,
        name_role("repo"@) == ROLE_REPO_HOST,
        name_role("coder_host"@) == ROLE_CODER_HOST,
        name_role("coder"@) == ROLE_CODER_HOST,
        name_role("voice_processor"@) == ROLE_VOICE_PROCESSOR,
        name_role("prompt_processor"@) == ROLE_PROMPT_PROCESSOR,
        name_role("heuristic_router"@) == ROLE_HEURISTIC_ROUTER,
        name_role("terminal"@) == ROLE_TERMINAL,
        name_role("asr"@) == ROLE_ASR,
        name_role("display"@) == ROLE_DISPLAY,
        name_role("serial"@) == ROLE_SERIAL,
        name_role("data"@) == ROLE_DATA,
        name_role("android"@) == ROLE_ANDROID,
        name_role("skills"@) == ROLE_SKILLS,
        name_role("feedback"@) == 0,
        name_role("none"@) == 0,
{
    lemma_name_literals();
    reveal_strlit("feedback");
}

/// The bitmap of a single service name is the node role together with that name's role.
pub proof fn lemma_names_roles_single(n: Seq<char>)
    ensures
        names_roles(seq![n]) == ROLE_NODE | name_role(n),
{
    let ns = seq![n];
    assert(ns.drop_last() =~= Seq::<Seq<char>>::empty());
    assert(names_roles(Seq::<Seq<char>>::empty()) == ROLE_NODE);
    assert(ns.last() == n);
    assert(names_roles(ns) == names_roles(ns.drop_last()) | name_role(ns.last()));
}

fn name_role_exec(n: &str) -> (r: u64)
    ensures
        r == name_role(n@),
{
    if str_eq(n, "node") {
        ROLE_NODE
    } else if str_eq(n, "fast_thinker") || str_eq(n, "thinker") {
        ROLE_FAST_THINKER
    } else if str_eq(n, "deep_thinker") {
        ROLE_DEEP_THINKER
    } else if str_eq(n, "process_engine") || str_eq(n, "process_host") {
        ROLE_PROCESS_ENGINE
    } else if str_eq(n, "repo_host") || str_eq(n, "repo") {
        ROLE_REPO_HOST
    } else if str_eq(n, "coder_host") || str_eq(n, "coder") {
        ROLE_CODER_HOST
    } else if str_eq(n, "voice_processor") {
        ROLE_VOICE_PROCESSOR
    } else if str_eq(n, "prompt_processor") {
        ROLE_PROMPT_PROCESSOR
    } else if str_eq(n, "heuristic_router") {
        ROLE_HEURISTIC_ROUTER
    } else if str_eq(n, "terminal") {
        ROLE_TERMINAL
    } else if str_eq(n, "asr") {
        ROLE_ASR
    } else if str_eq(n, "display") {
        ROLE_DISPLAY
    } else if str_eq(n, "serial") {
        ROLE_SERIAL
    } else if str_eq(n, "data") {
        ROLE_DATA
    } else if str_eq(n, "android") {
        ROLE_ANDROID
    } else if str_eq(n, "skills") {
        ROLE_SKILLS
    } else {
        0
    }
}

/// Converts a list of service names to a services bitmap; the node role is always set
/// and unknown names are ignored.
pub fn services_from_strs(names: &[String]) -> (r: u64)
    ensures
        r == names_roles(names@.map_values(|s: String| s@)),
{
    let ghost views = names@.map_values(|s: String| s@);
    let mut services: u64 = ROLE_NODE;
    let mut i: usize = 0;
    while i < names.len()
        invariant
            i <= names@.len(),
            views == names@.map_values(|s: String| s@),
            services == names_roles(views.take(i as int)),
        decreases names@.len() - i,
    {
        proof {
            assert(views.take(i + 1).drop_last() =~= views.take(i as int));
        }
        services = services | name_role_exec(names[i].as_str());
        i = i + 1;
    }
    assert(views.take(i as int) =~= views);
    services
}

} // verus!
