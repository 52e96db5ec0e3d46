//! Wire format, addressing and outbound queueing for a mesh of nodes and services
//! that exchange prioritized frames over multiplexed streams.
//!
//! - `frame`: the 16-byte frame header and its codec, with an Internet checksum.
//! - `address`, `flags`: endpoint, mesh-key, resource and flag field packing.
//! - `codec`, `label`: text forms of addresses and service bitmaps.
//! - `heap`: the priority queue of outbound frames.
//! - `mux`: connection state and stream framing of a multiplexed session.
//! - `serial`, `audio`: payloads of the serial and audio services.

pub mod address;
pub mod audio;
pub mod checksum;
pub mod codec;
pub mod flags;
pub mod frame;
pub mod frame_laws;
pub mod handle;
pub mod heap;
pub mod label;
pub mod messages;
pub mod mux;
pub mod registry;
pub mod serial;
pub mod text;

pub use address::{
    addr, addr_id, addr_node, addr_type, endpoint, ep_node, ep_service, mesh_dst, mesh_key,
    mesh_src, res_id, res_node, res_owner, res_service, resource, role_to_svc, svc_to_role,
    FRAME_HEADER_SIZE, NODE_BROADCAST, NODE_CONC, NODE_RESOLVE, PROTOCOL_VERSION, ROLE_ANDROID,
    ROLE_ASR, ROLE_CODER_HOST, ROLE_DATA, ROLE_DEEP_THINKER, ROLE_DISPLAY, ROLE_FAST_THINKER,
    ROLE_HEURISTIC_ROUTER, ROLE_NODE, ROLE_PROCESS_ENGINE, ROLE_PROMPT_PROCESSOR, ROLE_REPO_HOST,
    ROLE_SERIAL, ROLE_SKILLS, ROLE_TERMINAL, ROLE_VOICE_PROCESSOR, SVC_ANDROID, SVC_ASR,
    SVC_CODER_HOST, SVC_DATA, SVC_DEEP_THINKER, SVC_DISPLAY, SVC_FAST_THINKER, SVC_FEEDBACK,
    SVC_HEURISTIC_ROUTER, SVC_NODE, SVC_PROCESS_ENGINE, SVC_PROMPT_PROCESSOR, SVC_REPO_HOST,
    SVC_SERIAL, SVC_SKILLS, SVC_TERMINAL, SVC_VOICE_PROCESSOR, TYPE_NOTE, TYPE_PROCESS,
    TYPE_PROJECT, TYPE_SERVICE, TYPE_TASK, TYPE_TERMINAL,
};
pub use codec::{ep_display, ep_parse, node_display, res_display, res_parse};
pub use flags::{
    ext_irt, ext_obo, ext_pack, flags_format, flags_is_ack, flags_is_fin, flags_is_rst,
    flags_is_syn, flags_ttl, ttl_seconds, FLAG_ACK, FLAG_FIN, FLAG_RST, FLAG_SYN, FMT_BINCODE,
    FMT_JSONL, FMT_MASK, FMT_RAW, TTL_LUT, TTL_MASK, TTL_SHIFT,
};
pub use frame::Frame;
pub use handle::ServiceHandle;
pub use heap::{OutboundHeap, Priority};
pub use label::{addr_label, services_from_strs, services_to_str};
pub use messages::{
    Attachment, NodeEntry, NodeMsg, NodeObject, ProcessMsg, SkillMetaWire, SkillMsg,
};
pub use mux::{encode_frames, split_frames, ConnEvent, ConnState};
pub use registry::Entry;
pub use serial::{serial_cmd, serial_error, serial_resp, EspChip, SerialCmd, SerialResp};
