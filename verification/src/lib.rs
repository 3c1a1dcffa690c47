//! Verified core of a Proxmox-backed instance-metadata and cluster-bootstrap
//! service: catalog bookkeeping, VM and IPAM selection, request planning.
use vstd::prelude::*;

pub mod text;
pub mod models;
pub mod selection;
pub mod inventory;
pub mod cluster;
pub mod metadata;
pub mod digest;
pub mod catalog;
pub mod api;
pub mod listen;

verus! {

} // verus!
