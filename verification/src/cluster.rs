//! The cluster-bootstrap service: which controller a request is sent to, and
//! what is run there.
use vstd::prelude::*;
use crate::inventory::{find_ipam_for, first_ipam_for, lemma_filter_map_keeps};
use crate::selection::lemma_filter_membership;
use crate::text::{contains_text, law_contains_text_anywhere};
use crate::models::{IpamEntry, ProxmoxIpamEntries, ProxmoxVirtualMachineEntries, VirtualMachineEntry};

verus! {

/// A cluster member as the bootstrap service reports it.
#[derive(Clone, Debug)]
pub struct NodeInfo {
    pub name: String,
    pub ip: String,
    pub status: String,
}

/// The member record of VM `vm`, if a reservation belongs to it: its name and
/// status, and the address of the first such reservation.
pub open spec fn node_info_of(vm: VirtualMachineEntry, ipams: Seq<IpamEntry>) -> Option<NodeInfo> {
    match first_ipam_for(ipams, vm.vmid) {
        Some(p) => Some(NodeInfo { name: vm.name, ip: p.ip, status: vm.status }),
        None => None,
    }
}

/// The member records of `vms`, in VM order; VMs without a reservation are left out.
pub open spec fn node_infos(vms: Seq<VirtualMachineEntry>, ipams: Seq<IpamEntry>) -> Seq<NodeInfo> {
    vms.filter_map(|vm: VirtualMachineEntry| node_info_of(vm, ipams))
}

/// Joins the virtual machines of a catalog with their reservations.
pub fn get_node_infos_from_catalogs(nodes: ProxmoxVirtualMachineEntries, ipams: ProxmoxIpamEntries) -> (r: Vec<NodeInfo>)
    ensures
        r@ == node_infos(nodes.data@, ipams.data@),
{
    let vms = nodes.data;
    let reservations = ipams.data;
    let ghost f = |vm: VirtualMachineEntry| node_info_of(vm, reservations@);
    let mut infos: Vec<NodeInfo> = Vec::new();
    for i in 0..vms.len()
        invariant
            f == (|vm: VirtualMachineEntry| node_info_of(vm, reservations@)),
            infos@ == vms@.take(i as int).filter_map(f),
    {
        let vm = &vms[i];
        let found = find_ipam_for(&reservations, vm.vmid);
        proof {
            vms@.lemma_filter_map_take_succ(f, i as int);
        }
        match found {
            Some(j) => {
                infos.push(
                    NodeInfo {
                        name: vm.name.clone(),
                        ip: reservations[j].ip.clone(),
                        status: vm.status.clone(),
                    },
                );
            },
            None => {},
        }
        assert(infos@ =~= vms@.take(i + 1).filter_map(f));
    }
    assert(vms@.take(vms@.len() as int) =~= vms@);
    infos
}

/// The options and destination of the `ssh` call that runs a command on a member.
pub open spec fn ssh_argument_texts(ip: Seq<char>, command: Seq<char>) -> Seq<Seq<char>> {
    seq![
        "-o"@,
        "StrictHostKeyChecking=no"@,
        "-o"@,
        "UserKnownHostsFile=/dev/null"@,
        "root@"@ + ip,
        command,
    ]
}

impl NodeInfo {
    /// The arguments of `ssh` that run `command` as root on this member,
    /// without host-key checking.
    pub fn ssh_arguments(&self, command: &str) -> (r: Vec<String>)
        ensures
            r@.map_values(|s: String| s@) == ssh_argument_texts(self.ip@, command@),
    {
        let target = String::from_str("root@").concat(self.ip.as_str());
        let mut args: Vec<String> = Vec::new();
        args.push(String::from_str("-o"));
        args.push(String::from_str("StrictHostKeyChecking=no"));
        args.push(String::from_str("-o"));
        args.push(String::from_str("UserKnownHostsFile=/dev/null"));
        args.push(target);
        args.push(String::from_str(command));
        assert(args@.map_values(|s: String| s@) =~= ssh_argument_texts(self.ip@, command@));
        args
    }
}

/// What a bootstrap request asks of the cluster.
#[derive(Clone, Copy, Debug)]
pub enum ClusterQuery {
    /// Whether the cluster already runs.
    Bootstrapped,
    /// A join token for a new controller.
    ControllerToken,
    /// A join token for a new worker.
    WorkerToken,
    /// The VRRP password of the control-plane load balancer.
    VrrpPassword,
}

/// The shell command that answers `q` on a running controller.
pub open spec fn query_command(q: ClusterQuery) -> Seq<char> {
    match q {
        ClusterQuery::Bootstrapped => "k0s status"@,
        ClusterQuery::ControllerToken => "k0s token create --role=controller --expiry=1h"@,
        ClusterQuery::WorkerToken => "k0s token create --role=worker --expiry=1h"@,
        ClusterQuery::VrrpPassword => "yq '.spec.network.controlPlaneLoadBalancing.keepalived.vrrpInstances[0].authPass' /etc/k0s/k0s.yaml"@,
    }
}

/// The shell command that answers `q` on a running controller.
pub fn command_for(q: ClusterQuery) -> (c: String)
    ensures
        c@ == query_command(q),
{
    match q {
        ClusterQuery::Bootstrapped => String::from_str("k0s status"),
        ClusterQuery::ControllerToken => String::from_str("k0s token create --role=controller --expiry=1h"),
        ClusterQuery::WorkerToken => String::from_str("k0s token create --role=worker --expiry=1h"),
        ClusterQuery::VrrpPassword => String::from_str(
            "yq '.spec.network.controlPlaneLoadBalancing.keepalived.vrrpInstances[0].authPass' /etc/k0s/k0s.yaml",
        ),
    }
}

/// How a bootstrap request is served.
#[derive(Clone, Debug)]
pub enum ClusterPlan {
    /// No other controller is known: the cluster is not bootstrapped yet.
    NotBootstrapped,
    /// No other controller is known, so nothing can be asked of one.
    NoControllers,
    /// Run `command` on `peer` and answer from its output.
    Run { peer: NodeInfo, command: String },
}

/// The predicate "not the requester's own address".
pub open spec fn other_than(requester_ip: Seq<char>) -> spec_fn(NodeInfo) -> bool {
    |n: NodeInfo| n.ip@ != requester_ip
}

/// The controllers other than the requester, in catalog order.
pub open spec fn peer_infos(controllers: Seq<VirtualMachineEntry>, ipams: Seq<IpamEntry>, requester_ip: Seq<char>) -> Seq<NodeInfo> {
    node_infos(controllers, ipams).filter(other_than(requester_ip))
}

/// The member records other than the requester's, in their order.
pub fn peers_of(infos: Vec<NodeInfo>, requester_ip: &str) -> (r: Vec<NodeInfo>)
    ensures
        r@ == infos@.filter(other_than(requester_ip@)),
{
    let own = String::from_str(requester_ip);
    let mut r: Vec<NodeInfo> = Vec::new();
    for i in 0..infos.len()
        invariant
            own@ == requester_ip@,
            r@ == infos@.take(i as int).filter(other_than(requester_ip@)),
    {
        let n = &infos[i];
        proof {
            assert(infos@.take(i + 1) =~= infos@.take(i as int).push(infos@[i as int]));
            infos@.take(i as int).lemma_filter_push(infos@[i as int], other_than(requester_ip@));
        }
        if !(n.ip == own) {
            r.push(NodeInfo { name: n.name.clone(), ip: n.ip.clone(), status: n.status.clone() });
        }
    }
    assert(infos@.take(infos@.len() as int) =~= infos@);
    r
}

/// Decides how request `q` from `requester_ip` is served: by the first
/// controller of the catalog other than the requester, or, where there is
/// none, by the answer "not bootstrapped" (for `Bootstrapped`) or the error
/// "no controllers" (for the others).
pub fn plan_cluster_query(
    q: ClusterQuery,
    controllers: ProxmoxVirtualMachineEntries,
    ipams: ProxmoxIpamEntries,
    requester_ip: &str,
) -> (r: ClusterPlan)
    ensures
        ({
            let peers = peer_infos(controllers.data@, ipams.data@, requester_ip@);
            if peers.len() == 0 {
                if q is Bootstrapped {
                    r is NotBootstrapped
                } else {
                    r is NoControllers
                }
            } else {
                r matches ClusterPlan::Run { peer, command } && peer == peers[0] && command@
                    == query_command(q)
            }
        }),
{
    let infos = get_node_infos_from_catalogs(controllers, ipams);
    let mut peers = peers_of(infos, requester_ip);
    if peers.len() == 0 {
        match q {
            ClusterQuery::Bootstrapped => ClusterPlan::NotBootstrapped,
            _ => ClusterPlan::NoControllers,
        }
    } else {
        let peer = peers.remove(0);
        ClusterPlan::Run { peer, command: command_for(q) }
    }
}

/// The member records of the controllers, as `/controllers` answers.
pub fn get_controller_infos(controllers: ProxmoxVirtualMachineEntries, ipams: ProxmoxIpamEntries) -> (r: Vec<NodeInfo>)
    ensures
        r@ == node_infos(controllers.data@, ipams.data@),
{
    get_node_infos_from_catalogs(controllers, ipams)
}

/// The member records of the workers, as `/workers` answers.
pub fn get_workers_infos(workers: ProxmoxVirtualMachineEntries, ipams: ProxmoxIpamEntries) -> (r: Vec<NodeInfo>)
    ensures
        r@ == node_infos(workers.data@, ipams.data@),
{
    get_node_infos_from_catalogs(workers, ipams)
}


/// A request is never sent to the requester itself: the chosen controller has
/// another address, and it is a VM of the controller list whose first
/// reservation has that address.
pub proof fn law_peer_is_another_controller(
    controllers: Seq<VirtualMachineEntry>,
    ipams: Seq<IpamEntry>,
    requester_ip: Seq<char>,
)
    requires
        peer_infos(controllers, ipams, requester_ip).len() > 0,
    ensures
        ({
            let peer = peer_infos(controllers, ipams, requester_ip)[0];
            &&& peer.ip@ != requester_ip
            &&& exists|vm: VirtualMachineEntry|
                #[trigger] controllers.contains(vm) && (first_ipam_for(ipams, vm.vmid) matches Some(p)
                    && p.ip == peer.ip && vm.name == peer.name && vm.status == peer.status)
        }),
{
    let infos = node_infos(controllers, ipams);
    let f = |vm: VirtualMachineEntry| node_info_of(vm, ipams);
    infos.lemma_filter_pred(other_than(requester_ip), 0);
    let peer = infos.filter(other_than(requester_ip))[0];
    assert(infos.filter(other_than(requester_ip)).contains(peer));
    infos.lemma_filter_contains_rev(other_than(requester_ip), peer);
    controllers.lemma_filter_map_contains(f, peer);
}

/// A member record is a peer of the requester exactly when it is a record of
/// the controllers and its address differs from the requester's address (a
/// record whose address merely contains or extends it stays a peer).
pub proof fn law_peers_exclude_only_the_requesters_address(
    controllers: Seq<VirtualMachineEntry>,
    ipams: Seq<IpamEntry>,
    requester_ip: Seq<char>,
    n: NodeInfo,
)
    ensures
        peer_infos(controllers, ipams, requester_ip).contains(n) <==> (node_infos(controllers, ipams).contains(n)
            && n.ip@ != requester_ip),
{
    lemma_filter_membership(node_infos(controllers, ipams), other_than(requester_ip), n);
}

/// The peers keep the order of the member records: the first peer is the
/// first record whose address is not the requester's.
pub proof fn law_first_peer_is_first_other_record(infos: Seq<NodeInfo>, requester_ip: Seq<char>, j: int)
    requires
        0 <= j < infos.len(),
        infos[j].ip@ != requester_ip,
        forall|k: int| 0 <= k < j ==> (#[trigger] infos[k]).ip@ == requester_ip,
    ensures
        infos.filter(other_than(requester_ip)).len() > 0,
        infos.filter(other_than(requester_ip))[0] == infos[j],
{
    let p = other_than(requester_ip);
    assert(infos =~= infos.take(j) + infos.skip(j));
    Seq::filter_distributes_over_add(infos.take(j), infos.skip(j), p);
    infos.take(j).lemma_all_neg_filter_empty(p);
    let rest = infos.skip(j);
    assert(rest =~= seq![infos[j]] + rest.drop_first());
    Seq::filter_distributes_over_add(seq![infos[j]], rest.drop_first(), p);
    reveal(Seq::filter);
    assert(seq![infos[j]].drop_last() =~= Seq::<NodeInfo>::empty());
    assert(seq![infos[j]].filter(p) =~= seq![infos[j]]);
    assert(infos.filter(p) =~= seq![infos[j]] + rest.drop_first().filter(p));
}

/// The member records are exactly, for each controller VM that has a
/// reservation, its name and status with the address of its first
/// reservation.
pub proof fn law_member_records(vms: Seq<VirtualMachineEntry>, ipams: Seq<IpamEntry>, n: NodeInfo)
    ensures
        node_infos(vms, ipams).contains(n) <==> exists|vm: VirtualMachineEntry|
            #[trigger] vms.contains(vm) && (first_ipam_for(ipams, vm.vmid) matches Some(p) && n.name == vm.name
                && n.status == vm.status && n.ip == p.ip),
{
    let f = |vm: VirtualMachineEntry| node_info_of(vm, ipams);
    if node_infos(vms, ipams).contains(n) {
        vms.lemma_filter_map_contains(f, n);
    }
    if exists|vm: VirtualMachineEntry|
        #[trigger] vms.contains(vm) && (first_ipam_for(ipams, vm.vmid) matches Some(p) && n.name == vm.name
            && n.status == vm.status && n.ip == p.ip) {
        let vm = choose|vm: VirtualMachineEntry|
            #[trigger] vms.contains(vm) && (first_ipam_for(ipams, vm.vmid) matches Some(p) && n.name == vm.name
                && n.status == vm.status && n.ip == p.ip);
        lemma_filter_map_keeps(vms, f, vm);
    }
}

/// A join token is created for the role asked for: the controller token
/// command names the controller role, the worker token command the worker role.
pub proof fn law_token_roles()
    ensures
        contains_text(query_command(ClusterQuery::ControllerToken), "--role=controller"@),
        contains_text(query_command(ClusterQuery::WorkerToken), "--role=worker"@),
{
    reveal_strlit("k0s token create --role=controller --expiry=1h");
    reveal_strlit("k0s token create --role=worker --expiry=1h");
    reveal_strlit("--role=controller");
    reveal_strlit("--role=worker");
    let c = "k0s token create --role=controller --expiry=1h"@;
    let w = "k0s token create --role=worker --expiry=1h"@;
    assert(c =~= c.take(17) + "--role=controller"@ + c.skip(34));
    law_contains_text_anywhere(c.take(17), "--role=controller"@, c.skip(34));
    assert(w =~= w.take(17) + "--role=worker"@ + w.skip(30));
    law_contains_text_anywhere(w.take(17), "--role=worker"@, w.skip(30));
}

} // verus!
