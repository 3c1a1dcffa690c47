//! The instance-metadata service: which VM a request comes from.
use vstd::prelude::*;
use crate::inventory::{find_ipam_for, first_ipam_for, lemma_filter_map_keeps};
use crate::models::{IpamEntry, ProxmoxIpamEntries, ProxmoxVirtualMachineEntries, VirtualMachineEntry};
use crate::text::{decimal_text, format_decimal};
use crate::selection::lemma_filter_membership;

verus! {

/// A VM as the metadata service knows it.
#[derive(Clone, Debug)]
pub struct NodeInfo {
    pub name: String,
    pub ip: String,
    pub status: String,
    pub vmid: i64,
}

/// The record of VM `vm`, if a reservation belongs to it: its name, status
/// and id, and the address of the first such reservation.
pub open spec fn node_info_of(vm: VirtualMachineEntry, ipams: Seq<IpamEntry>) -> Option<NodeInfo> {
    match first_ipam_for(ipams, vm.vmid) {
        Some(p) => Some(NodeInfo { name: vm.name, ip: p.ip, status: vm.status, vmid: vm.vmid }),
        None => None,
    }
}

/// The records of `vms`, in VM order; VMs without a reservation are left out.
pub open spec fn node_infos(vms: Seq<VirtualMachineEntry>, ipams: Seq<IpamEntry>) -> Seq<NodeInfo> {
    vms.filter_map(|vm: VirtualMachineEntry| node_info_of(vm, ipams))
}

/// Joins the virtual machines of a catalog with their reservations.
pub fn get_node_infos_from_catalogs(nodes: ProxmoxVirtualMachineEntries, ipams: ProxmoxIpamEntries) -> (r: Vec<NodeInfo>)
    ensures
        r@ == node_infos(nodes.data@, ipams.data@),
{
    let vms = nodes.data;
    let reservations = ipams.data;
    let ghost f = |vm: VirtualMachineEntry| node_info_of(vm, reservations@);
    let mut infos: Vec<NodeInfo> = Vec::new();
    for i in 0..vms.len()
        invariant
            f == (|vm: VirtualMachineEntry| node_info_of(vm, reservations@)),
            infos@ == vms@.take(i as int).filter_map(f),
    {
        let vm = &vms[i];
        let found = find_ipam_for(&reservations, vm.vmid);
        proof {
            vms@.lemma_filter_map_take_succ(f, i as int);
        }
        match found {
            Some(j) => {
                infos.push(
                    NodeInfo {
                        name: vm.name.clone(),
                        ip: reservations[j].ip.clone(),
                        status: vm.status.clone(),
                        vmid: vm.vmid,
                    },
                );
            },
            None => {},
        }
        assert(infos@ =~= vms@.take(i + 1).filter_map(f));
    }
    assert(vms@.take(vms@.len() as int) =~= vms@);
    infos
}

/// Why no instance id can be given.
#[derive(Clone, Copy, Debug, PartialEq, Eq)]
pub enum MetadataError {
    /// No VM of the catalog has the requester's address.
    NoNodeFound,
}

/// The predicate "has address `ip`".
pub open spec fn at_address(ip: Seq<char>) -> spec_fn(NodeInfo) -> bool {
    |n: NodeInfo| n.ip@ == ip
}

/// The first record with address `ip`, if any.
pub fn find_by_ip(infos: &Vec<NodeInfo>, ip: &str) -> (r: Option<usize>)
    ensures
        match r {
            Some(j) => {
                let m = infos@.filter(at_address(ip@));
                &&& j < infos@.len()
                &&& m.len() > 0
                &&& m[0] == infos@[j as int]
            },
            None => infos@.filter(at_address(ip@)).len() == 0,
        },
{
    let wanted = String::from_str(ip);
    let mut j: usize = 0;
    while j < infos.len()
        invariant
            wanted@ == ip@,
            j <= infos@.len(),
            infos@.take(j as int).filter(at_address(ip@)) == Seq::<NodeInfo>::empty(),
        decreases infos@.len() - j,
    {
        proof {
            assert(infos@.take(j + 1) =~= infos@.take(j as int).push(infos@[j as int]));
            infos@.take(j as int).lemma_filter_push(infos@[j as int], at_address(ip@));
        }
        if infos[j].ip == wanted {
            proof {
                assert(infos@ =~= infos@.take(j + 1) + infos@.skip(j + 1));
                Seq::filter_distributes_over_add(infos@.take(j + 1), infos@.skip(j + 1), at_address(ip@));
                assert(infos@.take(j + 1).filter(at_address(ip@)) =~= seq![infos@[j as int]]);
            }
            return Some(j);
        }
        j = j + 1;
    }
    assert(infos@.take(j as int) =~= infos@);
    None
}

/// The instance id of the requester: the decimal VM id of the first
/// controller whose reservation has the requester's address.
pub fn get_instance_id(controllers: ProxmoxVirtualMachineEntries, ipams: ProxmoxIpamEntries, requester_ip: &str) -> (r: Result<String, MetadataError>)
    ensures
        ({
            let m = node_infos(controllers.data@, ipams.data@).filter(at_address(requester_ip@));
            match r {
                Ok(id) => m.len() > 0 && id@ == decimal_text(m[0].vmid as int),
                Err(e) => m.len() == 0 && e == MetadataError::NoNodeFound,
            }
        }),
{
    let infos = get_node_infos_from_catalogs(controllers, ipams);
    match find_by_ip(&infos, requester_ip) {
        Some(j) => Ok(format_decimal(infos[j].vmid)),
        None => Err(MetadataError::NoNodeFound),
    }
}


/// The instance id answered to a requester is that of a controller VM whose
/// first reservation has the requester's address.
pub proof fn law_instance_id_is_requesters(
    controllers: Seq<VirtualMachineEntry>,
    ipams: Seq<IpamEntry>,
    requester_ip: Seq<char>,
)
    requires
        node_infos(controllers, ipams).filter(at_address(requester_ip)).len() > 0,
    ensures
        ({
            let found = node_infos(controllers, ipams).filter(at_address(requester_ip))[0];
            exists|vm: VirtualMachineEntry|
                #[trigger] controllers.contains(vm) && vm.vmid == found.vmid && (first_ipam_for(ipams, vm.vmid) matches Some(p)
                    && p.ip@ == requester_ip)
        }),
{
    let infos = node_infos(controllers, ipams);
    let f = |vm: VirtualMachineEntry| node_info_of(vm, ipams);
    infos.lemma_filter_pred(at_address(requester_ip), 0);
    let found = infos.filter(at_address(requester_ip))[0];
    assert(infos.filter(at_address(requester_ip)).contains(found));
    infos.lemma_filter_contains_rev(at_address(requester_ip), found);
    controllers.lemma_filter_map_contains(f, found);
}

/// A record is matched to a requester exactly when its address equals the
/// requester's address.
pub proof fn law_match_by_exact_address(infos: Seq<NodeInfo>, requester_ip: Seq<char>, n: NodeInfo)
    ensures
        infos.filter(at_address(requester_ip)).contains(n) <==> (infos.contains(n) && n.ip@ == requester_ip),
{
    lemma_filter_membership(infos, at_address(requester_ip), n);
}

/// The records are exactly, for each controller VM that has a reservation,
/// its name, status and id with the address of its first reservation.
pub proof fn law_vm_records(vms: Seq<VirtualMachineEntry>, ipams: Seq<IpamEntry>, n: NodeInfo)
    ensures
        node_infos(vms, ipams).contains(n) <==> exists|vm: VirtualMachineEntry|
            #[trigger] vms.contains(vm) && (first_ipam_for(ipams, vm.vmid) matches Some(p) && n.name == vm.name
                && n.status == vm.status && n.vmid == vm.vmid && n.ip == p.ip),
{
    let f = |vm: VirtualMachineEntry| node_info_of(vm, ipams);
    if node_infos(vms, ipams).contains(n) {
        vms.lemma_filter_map_contains(f, n);
    }
    if exists|vm: VirtualMachineEntry|
        #[trigger] vms.contains(vm) && (first_ipam_for(ipams, vm.vmid) matches Some(p) && n.name == vm.name
            && n.status == vm.status && n.vmid == vm.vmid && n.ip == p.ip) {
        let vm = choose|vm: VirtualMachineEntry|
            #[trigger] vms.contains(vm) && (first_ipam_for(ipams, vm.vmid) matches Some(p) && n.name == vm.name
                && n.status == vm.status && n.vmid == vm.vmid && n.ip == p.ip);
        lemma_filter_map_keeps(vms, f, vm);
    }
}

} // verus!
