//! The catalog of the cluster: nodes, controllers, workers and IPAM
//! reservations, each with the digest that detects when it changes.
use vstd::prelude::*;
use crate::digest::{
    digest_ipam_keys, digest_node_keys, digest_vm_keys, ipam_keys_digest, node_keys_digest,
    vm_keys_digest,
};
use crate::selection::{
    concatenation, ipam_selected, law_ipam_selection_is_exact, law_vm_selection_is_exact,
    selected_ipams, selected_vms, sorted_by_ipam_key, sorted_by_vmid, stable_ipam_sort_of,
    stable_vmid_sort_of, vm_selected,
};
use crate::models::{
    copy_ipams, copy_nodes, copy_opt_string, copy_vms, opt_text, IpamEntry, NodeEntry, ProxmoxData,
    ProxmoxIpamEntries, ProxmoxNodeEntries, ProxmoxVirtualMachineEntries, VirtualMachineEntry,
};

verus! {

// ---------------------------------------------------------------------------
// Keys, names and their differences
// ---------------------------------------------------------------------------

/// The digest keys of a node list: (name, level, status) of each node.
pub open spec fn node_keys(s: Seq<NodeEntry>) -> Seq<(Seq<char>, Seq<char>, Seq<char>)> {
    s.map_values(|e: NodeEntry| (e.node@, e.level@, e.status@))
}

/// The digest keys of a VM list: (id, name) of each VM.
pub open spec fn vm_keys(s: Seq<VirtualMachineEntry>) -> Seq<(i64, Seq<char>)> {
    s.map_values(|e: VirtualMachineEntry| (e.vmid, e.name@))
}

/// The digest keys of a reservation list: every field of each reservation.
pub open spec fn ipam_keys(s: Seq<IpamEntry>) -> Seq<
    (Seq<char>, Option<Seq<char>>, Option<Seq<char>>, Seq<char>, Seq<char>, Option<Seq<char>>, Seq<char>),
> {
    s.map_values(
        |e: IpamEntry|
            (e.zone@, opt_text(e.hostname), opt_text(e.vmid), e.vnet@, e.ip@, opt_text(e.mac), e.subnet@),
    )
}

/// Digest of a node list.
pub open spec fn nodes_digest(s: Seq<NodeEntry>) -> u64 {
    node_keys_digest(node_keys(s))
}

/// Digest of a VM list.
pub open spec fn vms_digest(s: Seq<VirtualMachineEntry>) -> u64 {
    vm_keys_digest(vm_keys(s))
}

/// Digest of a reservation list.
pub open spec fn ipams_digest(s: Seq<IpamEntry>) -> u64 {
    ipam_keys_digest(ipam_keys(s))
}

/// The names by which nodes are reported.
pub open spec fn node_names(s: Seq<NodeEntry>) -> Seq<Seq<char>> {
    s.map_values(|e: NodeEntry| e.node@)
}

/// The names by which VMs are reported.
pub open spec fn vm_names(s: Seq<VirtualMachineEntry>) -> Seq<Seq<char>> {
    s.map_values(|e: VirtualMachineEntry| e.name@)
}

/// The addresses by which reservations are reported.
pub open spec fn ipam_names(s: Seq<IpamEntry>) -> Seq<Seq<char>> {
    s.map_values(|e: IpamEntry| e.ip@)
}

/// The predicate "not among `b`".
pub open spec fn absent_from(b: Seq<Seq<char>>) -> spec_fn(Seq<char>) -> bool {
    |n: Seq<char>| !b.contains(n)
}

/// The names of `a` that `b` lacks, in the order of `a` (repeats kept).
pub open spec fn missing_from(a: Seq<Seq<char>>, b: Seq<Seq<char>>) -> Seq<Seq<char>> {
    a.filter(absent_from(b))
}

fn contains_name(names: &Vec<String>, n: &String) -> (r: bool)
    ensures
        r == names.deep_view().contains(n@),
{
    let mut i: usize = 0;
    while i < names.len()
        invariant
            i <= names@.len(),
            forall|k: int| 0 <= k < i ==> names@[k]@ != n@,
        decreases names@.len() - i,
    {
        if names[i] == *n {
            assert(names.deep_view()[i as int] == n@);
            return true;
        }
        i = i + 1;
    }
    assert forall|k: int| 0 <= k < names.deep_view().len() implies names.deep_view()[k] != n@ by {
        assert(names.deep_view()[k] == names@[k]@);
    }
    false
}

/// The names of `a` that `b` lacks, in the order of `a`.
pub fn names_missing_from(a: &Vec<String>, b: &Vec<String>) -> (r: Vec<String>)
    ensures
        r.deep_view() == missing_from(a.deep_view(), b.deep_view()),
{
    let ghost av = a.deep_view();
    let ghost bv = b.deep_view();
    let mut r: Vec<String> = Vec::new();
    for i in 0..a.len()
        invariant
            av == a.deep_view(),
            bv == b.deep_view(),
            r.deep_view() == missing_from(av.take(i as int), bv),
    {
        let present = contains_name(b, &a[i]);
        proof {
            assert(av.take(i + 1) =~= av.take(i as int).push(av[i as int]));
            av.take(i as int).lemma_filter_push(av[i as int], absent_from(bv));
        }
        if !present {
            r.push(a[i].clone());
        }
        assert(r.deep_view() =~= missing_from(av.take(i + 1), bv));
    }
    assert(av.take(av.len() as int) =~= av);
    r
}

fn names_of_nodes(v: &Vec<NodeEntry>) -> (r: Vec<String>)
    ensures
        r.deep_view() == node_names(v@),
{
    let mut r: Vec<String> = Vec::new();
    for i in 0..v.len()
        invariant
            r.deep_view() == node_names(v@.take(i as int)),
    {
        r.push(v[i].node.clone());
        proof {
            assert(v@.take(i + 1) =~= v@.take(i as int).push(v@[i as int]));
            assert(node_names(v@.take(i + 1)) =~= node_names(v@.take(i as int)).push(v@[i as int].node@));
            assert(r.deep_view() =~= node_names(v@.take(i + 1)));
        }
    }
    assert(v@.take(v@.len() as int) =~= v@);
    r
}

fn names_of_vms(v: &Vec<VirtualMachineEntry>) -> (r: Vec<String>)
    ensures
        r.deep_view() == vm_names(v@),
{
    let mut r: Vec<String> = Vec::new();
    for i in 0..v.len()
        invariant
            r.deep_view() == vm_names(v@.take(i as int)),
    {
        r.push(v[i].name.clone());
        proof {
            assert(v@.take(i + 1) =~= v@.take(i as int).push(v@[i as int]));
            assert(vm_names(v@.take(i + 1)) =~= vm_names(v@.take(i as int)).push(v@[i as int].name@));
            assert(r.deep_view() =~= vm_names(v@.take(i + 1)));
        }
    }
    assert(v@.take(v@.len() as int) =~= v@);
    r
}

fn names_of_ipams(v: &Vec<IpamEntry>) -> (r: Vec<String>)
    ensures
        r.deep_view() == ipam_names(v@),
{
    let mut r: Vec<String> = Vec::new();
    for i in 0..v.len()
        invariant
            r.deep_view() == ipam_names(v@.take(i as int)),
    {
        r.push(v[i].ip.clone());
        proof {
            assert(v@.take(i + 1) =~= v@.take(i as int).push(v@[i as int]));
            assert(ipam_names(v@.take(i + 1)) =~= ipam_names(v@.take(i as int)).push(v@[i as int].ip@));
            assert(r.deep_view() =~= ipam_names(v@.take(i + 1)));
        }
    }
    assert(v@.take(v@.len() as int) =~= v@);
    r
}

fn keys_of_nodes(v: &Vec<NodeEntry>) -> (r: Vec<(String, String, String)>)
    ensures
        r.deep_view() == node_keys(v@),
{
    let mut r: Vec<(String, String, String)> = Vec::new();
    for i in 0..v.len()
        invariant
            r.deep_view() == node_keys(v@.take(i as int)),
    {
        r.push((v[i].node.clone(), v[i].level.clone(), v[i].status.clone()));
        proof {
            assert(v@.take(i + 1) =~= v@.take(i as int).push(v@[i as int]));
            assert(node_keys(v@.take(i + 1)) =~= node_keys(v@.take(i as int)).push((v@[i as int].node@, v@[i as int].level@, v@[i as int].status@)));
            assert(r.deep_view() =~= node_keys(v@.take(i + 1)));
        }
    }
    assert(v@.take(v@.len() as int) =~= v@);
    r
}

fn keys_of_vms(v: &Vec<VirtualMachineEntry>) -> (r: Vec<(i64, String)>)
    ensures
        r.deep_view() == vm_keys(v@),
{
    let mut r: Vec<(i64, String)> = Vec::new();
    for i in 0..v.len()
        invariant
            r.deep_view() == vm_keys(v@.take(i as int)),
    {
        r.push((v[i].vmid, v[i].name.clone()));
        proof {
            assert(v@.take(i + 1) =~= v@.take(i as int).push(v@[i as int]));
            assert(vm_keys(v@.take(i + 1)) =~= vm_keys(v@.take(i as int)).push((v@[i as int].vmid, v@[i as int].name@)));
            assert(r.deep_view() =~= vm_keys(v@.take(i + 1)));
        }
    }
    assert(v@.take(v@.len() as int) =~= v@);
    r
}

fn keys_of_ipams(v: &Vec<IpamEntry>) -> (r: Vec<(String, Option<String>, Option<String>, String, String, Option<String>, String)>)
    ensures
        r.deep_view() == ipam_keys(v@),
{
    let mut r: Vec<(String, Option<String>, Option<String>, String, String, Option<String>, String)> = Vec::new();
    for i in 0..v.len()
        invariant
            r.deep_view() == ipam_keys(v@.take(i as int)),
    {
        let e = &v[i];
        r.push(
            (
                e.zone.clone(),
                copy_opt_string(&e.hostname),
                copy_opt_string(&e.vmid),
                e.vnet.clone(),
                e.ip.clone(),
                copy_opt_string(&e.mac),
                e.subnet.clone(),
            ),
        );
        proof {
            assert(v@.take(i + 1) =~= v@.take(i as int).push(v@[i as int]));
            assert(ipam_keys(v@.take(i + 1)) =~= ipam_keys(v@.take(i as int)).push(ipam_keys(seq![v@[i as int]])[0]));
            assert(r.deep_view() =~= ipam_keys(v@.take(i + 1)));
        }
    }
    assert(v@.take(v@.len() as int) =~= v@);
    r
}

// ---------------------------------------------------------------------------
// The catalog
// ---------------------------------------------------------------------------

/// What changed in one list of the catalog, by name: the names that appeared
/// and those that disappeared.
#[derive(Clone, Debug)]
pub struct CatalogChange {
    pub added: Vec<String>,
    pub removed: Vec<String>,
}

/// The contents of a catalog: the four lists and their stored digests.
pub struct CatalogView {
    pub nodes: Seq<NodeEntry>,
    pub nodes_hash: u64,
    pub controllers: Seq<VirtualMachineEntry>,
    pub controllers_hash: u64,
    pub workers: Seq<VirtualMachineEntry>,
    pub workers_hash: u64,
    pub ipams: Seq<IpamEntry>,
    pub ipams_hash: u64,
}

impl CatalogView {
    /// Every stored digest is the digest of the list it belongs to.
    pub open spec fn well_formed(self) -> bool {
        &&& self.nodes_hash == nodes_digest(self.nodes)
        &&& self.controllers_hash == vms_digest(self.controllers)
        &&& self.workers_hash == vms_digest(self.workers)
        &&& self.ipams_hash == ipams_digest(self.ipams)
    }
}

/// The reported change of one list going from `previous` to `current`
/// names, given whether the digest changed: nothing when it did not, else
/// the names that appeared and those that disappeared.
pub open spec fn change_report(
    report: Option<CatalogChange>,
    changed: bool,
    previous: Seq<Seq<char>>,
    current: Seq<Seq<char>>,
) -> bool {
    match report {
        None => !changed,
        Some(c) => {
            &&& changed
            &&& c.added.deep_view() == missing_from(current, previous)
            &&& c.removed.deep_view() == missing_from(previous, current)
        },
    }
}

/// A list of the catalog with its stored digest.
struct Digested<T> {
    list: ProxmoxData<Vec<T>>,
    hash: u64,
}

/// The catalog of the cluster as the service keeps it. Its stored digests are
/// always those of its lists (the type invariant `digests_match`).
pub struct Catalog {
    nodes_catalog: Digested<NodeEntry>,
    controllers_catalog: Digested<VirtualMachineEntry>,
    workers_catalog: Digested<VirtualMachineEntry>,
    ipams_catalog: Digested<IpamEntry>,
}

impl View for Catalog {
    type V = CatalogView;

    closed spec fn view(&self) -> CatalogView {
        CatalogView {
            nodes: self.nodes_catalog.list.data@,
            nodes_hash: self.nodes_catalog.hash,
            controllers: self.controllers_catalog.list.data@,
            controllers_hash: self.controllers_catalog.hash,
            workers: self.workers_catalog.list.data@,
            workers_hash: self.workers_catalog.hash,
            ipams: self.ipams_catalog.list.data@,
            ipams_hash: self.ipams_catalog.hash,
        }
    }
}

impl Catalog {
    /// Every stored digest is the digest of its list.
    #[verifier::type_invariant]
    closed spec fn digests_match(self) -> bool {
        self@.well_formed()
    }
}

impl Default for Catalog {
    /// An empty catalog; each digest is that of an empty list.
    fn default() -> (c: Self)
        ensures
            c@.nodes == Seq::<NodeEntry>::empty(),
            c@.controllers == Seq::<VirtualMachineEntry>::empty(),
            c@.workers == Seq::<VirtualMachineEntry>::empty(),
            c@.ipams == Seq::<IpamEntry>::empty(),
            c@.well_formed(),
            forall|interface_name: Seq<char>| #[trigger] catalog_lists_selected(c@, interface_name),
    {
        let nodes: Vec<NodeEntry> = Vec::new();
        let vms: Vec<VirtualMachineEntry> = Vec::new();
        let ipams: Vec<IpamEntry> = Vec::new();
        let nodes_hash = digest_node_keys(&keys_of_nodes(&nodes));
        let vms_hash = digest_vm_keys(&keys_of_vms(&vms));
        let ipams_hash = digest_ipam_keys(&keys_of_ipams(&ipams));
        Catalog {
            nodes_catalog: Digested { list: ProxmoxData { data: nodes }, hash: nodes_hash },
            controllers_catalog: Digested { list: ProxmoxData { data: Vec::new() }, hash: vms_hash },
            workers_catalog: Digested { list: ProxmoxData { data: Vec::new() }, hash: vms_hash },
            ipams_catalog: Digested { list: ProxmoxData { data: ipams }, hash: ipams_hash },
        }
    }
}

impl Catalog {
    /// The nodes of the catalog.
    pub fn get_nodes(&self) -> (r: ProxmoxNodeEntries)
        ensures
            r.data@ == self@.nodes,
            self@.well_formed(),
    {
        proof { use_type_invariant(self); }
        ProxmoxData { data: copy_nodes(&self.nodes_catalog.list.data) }
    }

    /// The controllers of the catalog.
    pub fn get_controllers(&self) -> (r: ProxmoxVirtualMachineEntries)
        ensures
            r.data@ == self@.controllers,
            self@.well_formed(),
    {
        proof { use_type_invariant(self); }
        ProxmoxData { data: copy_vms(&self.controllers_catalog.list.data) }
    }

    /// The workers of the catalog.
    pub fn get_workers(&self) -> (r: ProxmoxVirtualMachineEntries)
        ensures
            r.data@ == self@.workers,
            self@.well_formed(),
    {
        proof { use_type_invariant(self); }
        ProxmoxData { data: copy_vms(&self.workers_catalog.list.data) }
    }

    /// The IPAM reservations of the catalog.
    pub fn get_ipams(&self) -> (r: ProxmoxIpamEntries)
        ensures
            r.data@ == self@.ipams,
            self@.well_formed(),
    {
        proof { use_type_invariant(self); }
        ProxmoxData { data: copy_ipams(&self.ipams_catalog.list.data) }
    }

    /// Replaces the nodes and stores their digest; when it differs from the
    /// digest of the nodes replaced, reports the node names that came and went.
    pub fn update_nodes_and_hash(&mut self, nodes: ProxmoxNodeEntries) -> (report: Option<CatalogChange>)
        ensures
            final(self)@ == (CatalogView {
                nodes: nodes.data@,
                nodes_hash: nodes_digest(nodes.data@),
                ..old(self)@
            }),
            old(self)@.well_formed(),
            final(self)@.well_formed(),
            change_report(
                report,
                nodes_digest(nodes.data@) != nodes_digest(old(self)@.nodes),
                node_names(old(self)@.nodes),
                node_names(nodes.data@),
            ),
    {
        proof { use_type_invariant(&*self); }
        let previous_node_names = names_of_nodes(&self.nodes_catalog.list.data);
        let current_node_names = names_of_nodes(&nodes.data);
        let current_hash = digest_node_keys(&keys_of_nodes(&nodes.data));
        let previous_hash = self.nodes_catalog.hash;
        self.nodes_catalog = Digested { list: nodes, hash: current_hash };
        if current_hash != previous_hash {
            let added = names_missing_from(&current_node_names, &previous_node_names);
            let removed = names_missing_from(&previous_node_names, &current_node_names);
            Some(CatalogChange { added, removed })
        } else {
            None
        }
    }

    /// Replaces the controllers and stores their digest; when it differs from
    /// the digest of the list replaced, reports the VM names that came and went.
    pub fn update_controllers_and_hash(&mut self, controllers: ProxmoxVirtualMachineEntries) -> (report: Option<CatalogChange>)
        ensures
            final(self)@ == (CatalogView {
                controllers: controllers.data@,
                controllers_hash: vms_digest(controllers.data@),
                ..old(self)@
            }),
            old(self)@.well_formed(),
            final(self)@.well_formed(),
            change_report(
                report,
                vms_digest(controllers.data@) != vms_digest(old(self)@.controllers),
                vm_names(old(self)@.controllers),
                vm_names(controllers.data@),
            ),
    {
        proof { use_type_invariant(&*self); }
        let previous_controller_names = names_of_vms(&self.controllers_catalog.list.data);
        let current_controller_names = names_of_vms(&controllers.data);
        let current_hash = digest_vm_keys(&keys_of_vms(&controllers.data));
        let previous_hash = self.controllers_catalog.hash;
        self.controllers_catalog = Digested { list: controllers, hash: current_hash };
        if current_hash != previous_hash {
            let added = names_missing_from(&current_controller_names, &previous_controller_names);
            let removed = names_missing_from(&previous_controller_names, &current_controller_names);
            Some(CatalogChange { added, removed })
        } else {
            None
        }
    }

    /// Replaces the workers and stores their digest; when it differs from the
    /// digest of the list replaced, reports the VM names that came and went.
    pub fn update_workers_and_hash(&mut self, workers: ProxmoxVirtualMachineEntries) -> (report: Option<CatalogChange>)
        ensures
            final(self)@ == (CatalogView {
                workers: workers.data@,
                workers_hash: vms_digest(workers.data@),
                ..old(self)@
            }),
            old(self)@.well_formed(),
            final(self)@.well_formed(),
            change_report(
                report,
                vms_digest(workers.data@) != vms_digest(old(self)@.workers),
                vm_names(old(self)@.workers),
                vm_names(workers.data@),
            ),
    {
        proof { use_type_invariant(&*self); }
        let previous_worker_names = names_of_vms(&self.workers_catalog.list.data);
        let current_worker_names = names_of_vms(&workers.data);
        let current_hash = digest_vm_keys(&keys_of_vms(&workers.data));
        let previous_hash = self.workers_catalog.hash;
        self.workers_catalog = Digested { list: workers, hash: current_hash };
        if current_hash != previous_hash {
            let added = names_missing_from(&current_worker_names, &previous_worker_names);
            let removed = names_missing_from(&previous_worker_names, &current_worker_names);
            Some(CatalogChange { added, removed })
        } else {
            None
        }
    }

    /// Replaces the reservations and stores their digest; when it differs from
    /// the digest of the list replaced, reports the addresses that came and went.
    pub fn update_ipams_and_hash(&mut self, ipams: ProxmoxIpamEntries) -> (report: Option<CatalogChange>)
        ensures
            final(self)@ == (CatalogView {
                ipams: ipams.data@,
                ipams_hash: ipams_digest(ipams.data@),
                ..old(self)@
            }),
            old(self)@.well_formed(),
            final(self)@.well_formed(),
            change_report(
                report,
                ipams_digest(ipams.data@) != ipams_digest(old(self)@.ipams),
                ipam_names(old(self)@.ipams),
                ipam_names(ipams.data@),
            ),
    {
        proof { use_type_invariant(&*self); }
        let previous_ipam_names = names_of_ipams(&self.ipams_catalog.list.data);
        let current_ipam_names = names_of_ipams(&ipams.data);
        let current_hash = digest_ipam_keys(&keys_of_ipams(&ipams.data));
        let previous_hash = self.ipams_catalog.hash;
        self.ipams_catalog = Digested { list: ipams, hash: current_hash };
        if current_hash != previous_hash {
            let added = names_missing_from(&current_ipam_names, &previous_ipam_names);
            let removed = names_missing_from(&previous_ipam_names, &current_ipam_names);
            Some(CatalogChange { added, removed })
        } else {
            None
        }
    }
}

// ---------------------------------------------------------------------------
// The update loop
// ---------------------------------------------------------------------------

/// The tag that marks the VMs of controllers.
pub const CONTROLLER_TAG: &'static str = "k0s-controller";

/// The tag that marks the VMs of workers.
pub const WORKER_TAG: &'static str = "k0s-worker";

/// What the catalog updater hears from the four list updaters.
pub enum CatalogEvent {
    /// A fresh node list.
    NodesUpdated(ProxmoxNodeEntries),
    /// A fresh controller list.
    ControllersUpdated(ProxmoxVirtualMachineEntries),
    /// A fresh worker list.
    WorkersUpdated(ProxmoxVirtualMachineEntries),
    /// A fresh reservation list.
    IpamsUpdated(ProxmoxIpamEntries),
    /// One of the list updaters has ended.
    UpdaterFinished,
}

/// One of the four lists of the catalog.
#[derive(Clone, Copy, Debug, PartialEq, Eq)]
pub enum CatalogList {
    Nodes,
    Controllers,
    Workers,
    Ipams,
}

/// What the catalog updater does after an event.
#[derive(Clone, Debug)]
pub enum CatalogStep {
    /// Keep listening; `list` was replaced, with its change report.
    Continue { list: CatalogList, report: Option<CatalogChange> },
    /// Stop listening: an updater has ended.
    Stop,
}

/// The catalog after `event`: the list it carries replaces the old one, with
/// its digest; an ended updater changes nothing.
pub open spec fn catalog_after(v: CatalogView, event: CatalogEvent) -> CatalogView {
    match event {
        CatalogEvent::NodesUpdated(d) => CatalogView {
            nodes: d.data@,
            nodes_hash: nodes_digest(d.data@),
            ..v
        },
        CatalogEvent::ControllersUpdated(d) => CatalogView {
            controllers: d.data@,
            controllers_hash: vms_digest(d.data@),
            ..v
        },
        CatalogEvent::WorkersUpdated(d) => CatalogView {
            workers: d.data@,
            workers_hash: vms_digest(d.data@),
            ..v
        },
        CatalogEvent::IpamsUpdated(d) => CatalogView { ipams: d.data@, ipams_hash: ipams_digest(d.data@), ..v },
        CatalogEvent::UpdaterFinished => v,
    }
}

/// The step that answers `event` in catalog `v`, up to the names in the report.
pub open spec fn step_for(v: CatalogView, event: CatalogEvent, step: CatalogStep) -> bool {
    match event {
        CatalogEvent::NodesUpdated(d) => step matches CatalogStep::Continue { list, report } && list
            == CatalogList::Nodes && change_report(
            report,
            nodes_digest(d.data@) != nodes_digest(v.nodes),
            node_names(v.nodes),
            node_names(d.data@),
        ),
        CatalogEvent::ControllersUpdated(d) => step matches CatalogStep::Continue { list, report }
            && list == CatalogList::Controllers && change_report(
            report,
            vms_digest(d.data@) != vms_digest(v.controllers),
            vm_names(v.controllers),
            vm_names(d.data@),
        ),
        CatalogEvent::WorkersUpdated(d) => step matches CatalogStep::Continue { list, report } && list
            == CatalogList::Workers && change_report(
            report,
            vms_digest(d.data@) != vms_digest(v.workers),
            vm_names(v.workers),
            vm_names(d.data@),
        ),
        CatalogEvent::IpamsUpdated(d) => step matches CatalogStep::Continue { list, report } && list
            == CatalogList::Ipams && change_report(
            report,
            ipams_digest(d.data@) != ipams_digest(v.ipams),
            ipam_names(v.ipams),
            ipam_names(d.data@),
        ),
        CatalogEvent::UpdaterFinished => step is Stop,
    }
}

impl Catalog {
    /// One turn of the catalog updater: applies a fresh list, or stops when
    /// an updater has ended.
    pub fn apply_catalog_event(&mut self, event: CatalogEvent) -> (step: CatalogStep)
        ensures
            final(self)@ == catalog_after(old(self)@, event),
            step_for(old(self)@, event, step),
            old(self)@.well_formed(),
            final(self)@.well_formed(),
    {
        proof { use_type_invariant(&*self); }
        match event {
            CatalogEvent::NodesUpdated(d) => {
                let report = self.update_nodes_and_hash(d);
                CatalogStep::Continue { list: CatalogList::Nodes, report }
            },
            CatalogEvent::ControllersUpdated(d) => {
                let report = self.update_controllers_and_hash(d);
                CatalogStep::Continue { list: CatalogList::Controllers, report }
            },
            CatalogEvent::WorkersUpdated(d) => {
                let report = self.update_workers_and_hash(d);
                CatalogStep::Continue { list: CatalogList::Workers, report }
            },
            CatalogEvent::IpamsUpdated(d) => {
                let report = self.update_ipams_and_hash(d);
                CatalogStep::Continue { list: CatalogList::Ipams, report }
            },
            CatalogEvent::UpdaterFinished => CatalogStep::Stop,
        }
    }
}


// ---------------------------------------------------------------------------
// Laws of the catalog
// ---------------------------------------------------------------------------

/// Every event keeps the stored digests equal to the digests of the lists.
pub proof fn law_event_keeps_digests(v: CatalogView, event: CatalogEvent)
    requires
        v.well_formed(),
    ensures
        catalog_after(v, event).well_formed(),
        catalog_after(v, event).nodes_hash == node_keys_digest(node_keys(catalog_after(v, event).nodes)),
        catalog_after(v, event).controllers_hash == vm_keys_digest(vm_keys(catalog_after(v, event).controllers)),
        catalog_after(v, event).workers_hash == vm_keys_digest(vm_keys(catalog_after(v, event).workers)),
        catalog_after(v, event).ipams_hash == ipam_keys_digest(ipam_keys(catalog_after(v, event).ipams)),
{
}

/// A list that was written is what is read back, and the other lists are
/// left as they were.
pub proof fn law_read_after_write(v: CatalogView, event: CatalogEvent)
    ensures
        ({
            let w = catalog_after(v, event);
            match event {
                CatalogEvent::NodesUpdated(d) => w.nodes == d.data@ && w.controllers == v.controllers
                    && w.workers == v.workers && w.ipams == v.ipams,
                CatalogEvent::ControllersUpdated(d) => w.controllers == d.data@ && w.nodes == v.nodes
                    && w.workers == v.workers && w.ipams == v.ipams,
                CatalogEvent::WorkersUpdated(d) => w.workers == d.data@ && w.nodes == v.nodes
                    && w.controllers == v.controllers && w.ipams == v.ipams,
                CatalogEvent::IpamsUpdated(d) => w.ipams == d.data@ && w.nodes == v.nodes
                    && w.controllers == v.controllers && w.workers == v.workers,
                CatalogEvent::UpdaterFinished => w == v,
            }
        }),
{
}

/// Hearing the same event twice changes the catalog once: the second time
/// leaves it as it is and reports no change.
pub proof fn law_repeated_event_is_quiet(v: CatalogView, event: CatalogEvent, second: CatalogStep)
    requires
        step_for(catalog_after(v, event), event, second),
    ensures
        catalog_after(catalog_after(v, event), event) == catalog_after(v, event),
        second matches CatalogStep::Continue { report, .. } ==> report is None,
{
}

/// A reported change names, as added, only names that are now present and
/// were not before, and, as removed, only names that were present and are
/// no longer; every such name is reported.
pub proof fn law_change_report_is_exact(
    report: Option<CatalogChange>,
    changed: bool,
    previous: Seq<Seq<char>>,
    current: Seq<Seq<char>>,
    n: Seq<char>,
)
    requires
        change_report(report, changed, previous, current),
        report is Some,
    ensures
        report->0.added.deep_view().contains(n) <==> (current.contains(n) && !previous.contains(n)),
        report->0.removed.deep_view().contains(n) <==> (previous.contains(n) && !current.contains(n)),
{
    let c = report->0;
    if c.added.deep_view().contains(n) {
        current.lemma_filter_contains_rev(absent_from(previous), n);
        let k = choose|k: int| 0 <= k < c.added.deep_view().len() && c.added.deep_view()[k] == n;
        current.lemma_filter_pred(absent_from(previous), k);
    }
    if current.contains(n) && !previous.contains(n) {
        let k = choose|k: int| 0 <= k < current.len() && current[k] == n;
        current.lemma_filter_contains(absent_from(previous), k);
    }
    if c.removed.deep_view().contains(n) {
        previous.lemma_filter_contains_rev(absent_from(current), n);
        let k = choose|k: int| 0 <= k < c.removed.deep_view().len() && c.removed.deep_view()[k] == n;
        previous.lemma_filter_pred(absent_from(current), k);
    }
    if previous.contains(n) && !current.contains(n) {
        let k = choose|k: int| 0 <= k < previous.len() && previous[k] == n;
        previous.lemma_filter_contains(absent_from(current), k);
    }
}

/// Running, non-template VMs that carry `tag`, in ascending VM id.
pub open spec fn tagged_running_selection(s: Seq<VirtualMachineEntry>, tag: Seq<char>) -> bool {
    &&& sorted_by_vmid(s)
    &&& forall|i: int| 0 <= i < s.len() ==> vm_selected(#[trigger] s[i], Some(tag))
}

/// Reservations of network `interface_name` that belong to a VM, in ascending
/// VM id text.
pub open spec fn reservation_selection(s: Seq<IpamEntry>, interface_name: Seq<char>) -> bool {
    &&& sorted_by_ipam_key(s)
    &&& forall|i: int| 0 <= i < s.len() ==> ipam_selected(#[trigger] s[i], interface_name)
}

/// The controller, worker and reservation lists of the catalog are
/// selections: running controllers, running workers, and the reservations of
/// `interface_name`, each in its order.
pub open spec fn catalog_lists_selected(v: CatalogView, interface_name: Seq<char>) -> bool {
    &&& tagged_running_selection(v.controllers, CONTROLLER_TAG@)
    &&& tagged_running_selection(v.workers, WORKER_TAG@)
    &&& reservation_selection(v.ipams, interface_name)
}

/// The list that `event` carries is what the selection of its kind returns
/// for some lists reported by the nodes (controllers by `CONTROLLER_TAG`,
/// workers by `WORKER_TAG`, reservations of `interface_name`).
pub open spec fn event_from_selections(event: CatalogEvent, interface_name: Seq<char>) -> bool {
    match event {
        CatalogEvent::ControllersUpdated(d) => exists|per_node: Seq<Vec<VirtualMachineEntry>>|
            stable_vmid_sort_of(d.data@, #[trigger] selected_vms(concatenation(per_node), Some(CONTROLLER_TAG@))),
        CatalogEvent::WorkersUpdated(d) => exists|per_node: Seq<Vec<VirtualMachineEntry>>|
            stable_vmid_sort_of(d.data@, #[trigger] selected_vms(concatenation(per_node), Some(WORKER_TAG@))),
        CatalogEvent::IpamsUpdated(d) => exists|per_node: Seq<Vec<IpamEntry>>|
            stable_ipam_sort_of(d.data@, #[trigger] selected_ipams(concatenation(per_node), interface_name)),
        _ => true,
    }
}

/// Fed with what the selections return, the catalog's controller, worker and
/// reservation lists stay selections in their order, from the empty catalog on
/// (which `Catalog::default` states) through every event.
pub proof fn law_catalog_lists_stay_selected(v: CatalogView, event: CatalogEvent, interface_name: Seq<char>)
    requires
        catalog_lists_selected(v, interface_name),
        event_from_selections(event, interface_name),
    ensures
        catalog_lists_selected(catalog_after(v, event), interface_name),
{
    match event {
        CatalogEvent::ControllersUpdated(d) => {
            let per_node = choose|per_node: Seq<Vec<VirtualMachineEntry>>|
                stable_vmid_sort_of(d.data@, #[trigger] selected_vms(concatenation(per_node), Some(CONTROLLER_TAG@)));
            law_vm_selection_is_exact(d.data@, per_node, Some(CONTROLLER_TAG@));
        },
        CatalogEvent::WorkersUpdated(d) => {
            let per_node = choose|per_node: Seq<Vec<VirtualMachineEntry>>|
                stable_vmid_sort_of(d.data@, #[trigger] selected_vms(concatenation(per_node), Some(WORKER_TAG@)));
            law_vm_selection_is_exact(d.data@, per_node, Some(WORKER_TAG@));
        },
        CatalogEvent::IpamsUpdated(d) => {
            let per_node = choose|per_node: Seq<Vec<IpamEntry>>|
                stable_ipam_sort_of(d.data@, #[trigger] selected_ipams(concatenation(per_node), interface_name));
            law_ipam_selection_is_exact(d.data@, per_node, interface_name);
        },
        _ => {},
    }
}

/// Reservation digest keys cover every field: lists with equal keys have,
/// entry by entry, equal zone, host name, VM id, network, address, MAC and
/// subnet, so a change in any of them changes the keys.
pub proof fn law_ipam_keys_cover_every_field(a: Seq<IpamEntry>, b: Seq<IpamEntry>)
    requires
        ipam_keys(a) == ipam_keys(b),
    ensures
        a.len() == b.len(),
        forall|i: int|
            0 <= i < a.len() ==> {
                &&& (#[trigger] a[i]).zone@ == b[i].zone@
                &&& opt_text(a[i].hostname) == opt_text(b[i].hostname)
                &&& opt_text(a[i].vmid) == opt_text(b[i].vmid)
                &&& a[i].vnet@ == b[i].vnet@
                &&& a[i].ip@ == b[i].ip@
                &&& opt_text(a[i].mac) == opt_text(b[i].mac)
                &&& a[i].subnet@ == b[i].subnet@
            },
{
    assert(ipam_keys(a).len() == a.len());
    assert forall|i: int| 0 <= i < a.len() implies {
        &&& (#[trigger] a[i]).zone@ == b[i].zone@
        &&& opt_text(a[i].hostname) == opt_text(b[i].hostname)
        &&& opt_text(a[i].vmid) == opt_text(b[i].vmid)
        &&& a[i].vnet@ == b[i].vnet@
        &&& a[i].ip@ == b[i].ip@
        &&& opt_text(a[i].mac) == opt_text(b[i].mac)
        &&& a[i].subnet@ == b[i].subnet@
    } by {
        assert(ipam_keys(a)[i] == ipam_keys(b)[i]);
    }
}

/// Node digest keys cover the name, level and status of each node.
pub proof fn law_node_keys_cover_name_level_status(a: Seq<NodeEntry>, b: Seq<NodeEntry>)
    requires
        node_keys(a) == node_keys(b),
    ensures
        a.len() == b.len(),
        forall|i: int|
            0 <= i < a.len() ==> (#[trigger] a[i]).node@ == b[i].node@ && a[i].level@ == b[i].level@
                && a[i].status@ == b[i].status@,
{
    assert(node_keys(a).len() == a.len());
    assert forall|i: int| 0 <= i < a.len() implies (#[trigger] a[i]).node@ == b[i].node@ && a[i].level@
        == b[i].level@ && a[i].status@ == b[i].status@ by {
        assert(node_keys(a)[i] == node_keys(b)[i]);
    }
}

/// VM digest keys cover the id and name of each VM.
pub proof fn law_vm_keys_cover_id_and_name(a: Seq<VirtualMachineEntry>, b: Seq<VirtualMachineEntry>)
    requires
        vm_keys(a) == vm_keys(b),
    ensures
        a.len() == b.len(),
        forall|i: int| 0 <= i < a.len() ==> (#[trigger] a[i]).vmid == b[i].vmid && a[i].name@ == b[i].name@,
{
    assert(vm_keys(a).len() == a.len());
    assert forall|i: int| 0 <= i < a.len() implies (#[trigger] a[i]).vmid == b[i].vmid && a[i].name@
        == b[i].name@ by {
        assert(vm_keys(a)[i] == vm_keys(b)[i]);
    }
}

/// Changes are reported by node name, VM name and reservation address,
/// entry by entry in list order.
pub proof fn law_reported_names(nodes: Seq<NodeEntry>, vms: Seq<VirtualMachineEntry>, ipams: Seq<IpamEntry>)
    ensures
        node_names(nodes).len() == nodes.len(),
        forall|i: int| 0 <= i < nodes.len() ==> #[trigger] node_names(nodes)[i] == nodes[i].node@,
        vm_names(vms).len() == vms.len(),
        forall|i: int| 0 <= i < vms.len() ==> #[trigger] vm_names(vms)[i] == vms[i].name@,
        ipam_names(ipams).len() == ipams.len(),
        forall|i: int| 0 <= i < ipams.len() ==> #[trigger] ipam_names(ipams)[i] == ipams[i].ip@,
{
}

/// A report is given exactly when the digest changed.
pub proof fn law_change_reported_iff_changed(
    report: Option<CatalogChange>,
    changed: bool,
    previous: Seq<Seq<char>>,
    current: Seq<Seq<char>>,
)
    requires
        change_report(report, changed, previous, current),
    ensures
        report is Some <==> changed,
{
}

} // verus!
