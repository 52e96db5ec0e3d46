//! A lightweight handle to a remote service that tracks message correlation ids.

use vstd::prelude::*;
use vstd::slice::slice_to_vec;
use vstd::string::StringSliceAdditionalSpecFns;
use crate::address::{pair_spec, mesh_key};
use crate::flags::{FMT_JSONL, FMT_RAW, ext_pack, ext_irt};
use crate::frame::{Frame, FrameView};

verus! {

/// Handle to a remote service: the local and remote endpoints, the id of the last
/// message sent and the in-reply-to id of the last message received.
#[derive(Debug, Clone)]
pub struct ServiceHandle {
    pub local_ep: u16,
    pub remote_ep: u16,
    pub last_sent_id: u16,
    pub last_recv_id: u16,
}

impl ServiceHandle {
    pub fn new(local_ep: u16, remote_ep: u16) -> (r: ServiceHandle)
        ensures
            r == (ServiceHandle { local_ep, remote_ep, last_sent_id: 0, last_recv_id: 0 }),
    {
        ServiceHandle { local_ep, remote_ep, last_sent_id: 0, last_recv_id: 0 }
    }

    pub fn mesh_key(&self) -> (r: u32)
        ensures
            r == pair_spec(self.local_ep, self.remote_ep),
    {
        mesh_key(self.local_ep, self.remote_ep)
    }

    /// Builds a fire-and-forget JSONL frame carrying the next message id (wrapping at 2^16).
    pub fn fire_json(&mut self, json: &str) -> (r: Frame)
        ensures
            final(self).last_sent_id == (old(self).last_sent_id + 1) % 0x10000,
            final(self).local_ep == old(self).local_ep,
            final(self).remote_ep == old(self).remote_ep,
            final(self).last_recv_id == old(self).last_recv_id,
            r@ == (FrameView {
                mesh_key: pair_spec(old(self).local_ep, old(self).remote_ep),
                ext: pair_spec(0, final(self).last_sent_id),
                flags: FMT_JSONL,
                payload: json.spec_bytes(),
            }),
    {
        let id = self.next_id();
        Frame { mesh_key: self.mesh_key(), ext: ext_pack(0, id), flags: FMT_JSONL, payload: slice_to_vec(json.as_bytes()) }
    }

    /// Builds a fire-and-forget raw frame.
    pub fn fire_raw(&self, data: Vec<u8>) -> (r: Frame)
        ensures
            r@ == (FrameView { mesh_key: pair_spec(self.local_ep, self.remote_ep), ext: 0, flags: FMT_RAW, payload: data@ }),
    {
        Frame { mesh_key: self.mesh_key(), ext: 0, flags: FMT_RAW, payload: data }
    }

    /// Builds a JSONL reply to the last received message.
    pub fn reply_json(&self, json: &str) -> (r: Frame)
        ensures
            r@ == reply_view(*self, json.spec_bytes()),
            r@ == (FrameView {
                mesh_key: pair_spec(self.local_ep, self.remote_ep),
                ext: pair_spec(0, self.last_recv_id),
                flags: FMT_JSONL,
                payload: json.spec_bytes(),
            }),
    {
        let irt = self.last_recv_id;
        Frame { mesh_key: self.mesh_key(), ext: ext_pack(0, irt), flags: FMT_JSONL, payload: slice_to_vec(json.as_bytes()) }
    }

    /// Builds a JSONL reply to the last received message on behalf of `obo`.
    pub fn reply_json_obo(&self, obo: u16, json: &str) -> (r: Frame)
        ensures
            r@ == (FrameView {
                mesh_key: pair_spec(self.local_ep, self.remote_ep),
                ext: pair_spec(obo, self.last_recv_id),
                flags: FMT_JSONL,
                payload: json.spec_bytes(),
            }),
    {
        let irt = self.last_recv_id;
        Frame { mesh_key: self.mesh_key(), ext: ext_pack(obo, irt), flags: FMT_JSONL, payload: slice_to_vec(json.as_bytes()) }
    }

    /// Records receipt of a frame from this service: its in-reply-to id.
    pub fn received(&mut self, frame: &Frame)
        ensures
            *final(self) == after_received(*old(self), frame@),
    {
        self.last_recv_id = ext_irt(frame.ext);
    }

    fn next_id(&mut self) -> (id: u16)
        ensures
            id == (old(self).last_sent_id + 1) % 0x10000,
            *final(self) == (ServiceHandle { last_sent_id: id, ..*old(self) }),
    {
        self.last_sent_id = self.last_sent_id.wrapping_add(1);
        self.last_sent_id
    }
}

/// The handle after recording receipt of `f`.
pub open spec fn after_received(h: ServiceHandle, f: FrameView) -> ServiceHandle {
    ServiceHandle { last_recv_id: f.in_reply_to(), ..h }
}

/// The JSONL reply of `h` with payload bytes `payload`.
pub open spec fn reply_view(h: ServiceHandle, payload: Seq<u8>) -> FrameView {
    FrameView {
        mesh_key: pair_spec(h.local_ep, h.remote_ep),
        ext: pair_spec(0, h.last_recv_id),
        flags: FMT_JSONL,
        payload,
    }
}

/// A reply built after recording a received frame answers that frame: its
/// in-reply-to is the received frame's in-reply-to, it goes from the handle's local
/// endpoint to its peer with no obo, and it is a JSONL frame carrying the payload.
pub proof fn lemma_reply_correlates(h: ServiceHandle, received: FrameView, payload: Seq<u8>)
    ensures
        reply_view(after_received(h, received), payload).flags == FMT_JSONL,
        reply_view(after_received(h, received), payload).payload == payload,
        reply_view(after_received(h, received), payload).in_reply_to() == received.in_reply_to(),
        reply_view(after_received(h, received), payload).obo() == 0,
        reply_view(after_received(h, received), payload).to_ep() == h.remote_ep,
        reply_view(after_received(h, received), payload).from_ep() == h.local_ep,
{
    crate::address::lemma_pair_unpack(0, received.in_reply_to());
    crate::address::lemma_pair_unpack(h.local_ep, h.remote_ep);
}

} // verus!
