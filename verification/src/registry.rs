//! Registry entries: services and resources advertised by a node.

use vstd::prelude::*;
use crate::address::{pair_spec, mesh_key, res_owner, res_id, res_node};

verus! {

/// A registry entry, a service or a resource advertised by a node.
#[derive(Debug, Clone, PartialEq)]
pub struct Entry {
    /// Resource address: (service endpoint << 16) | resource id; 0 for the service itself.
    pub addr: u32,
    /// Human-readable name.
    pub name: String,
    /// Optional key-value metadata.
    pub meta: Option<Vec<(String, String)>>,
}

impl Entry {
    /// A service entry (resource id 0).
    pub fn service(owner: u16, name: &str) -> (r: Entry)
        ensures
            r.addr == pair_spec(owner, 0),
            r.name@ == name@,
            r.meta is None,
    {
        Entry { addr: mesh_key(owner, 0), name: name.to_owned(), meta: None }
    }

    /// A resource entry.
    pub fn resource(owner: u16, id: u16, name: &str) -> (r: Entry)
        ensures
            r.addr == pair_spec(owner, id),
            r.name@ == name@,
            r.meta is None,
    {
        Entry { addr: mesh_key(owner, id), name: name.to_owned(), meta: None }
    }

    /// A resource entry with metadata.
    pub fn resource_meta(owner: u16, id: u16, name: &str, meta: Vec<(String, String)>) -> (r: Entry)
        ensures
            r.addr == pair_spec(owner, id),
            r.name@ == name@,
            r.meta == Some(meta),
    {
        Entry { addr: mesh_key(owner, id), name: name.to_owned(), meta: Some(meta) }
    }

    /// The owning service endpoint.
    pub fn owner(&self) -> (r: u16)
        ensures
            r == self.addr / 0x10000,
    {
        res_owner(self.addr)
    }

    /// The resource id within the service.
    pub fn id(&self) -> (r: u16)
        ensures
            r == self.addr % 0x10000,
    {
        res_id(self.addr)
    }

    /// The node hosting this entry.
    pub fn node(&self) -> (r: u8)
        ensures
            r == self.addr / 0x10000 / 1024,
    {
        res_node(self.addr)
    }
}

} // verus!
