use pve_imds::catalog::{
    names_missing_from, Catalog, CatalogEvent, CatalogList, CatalogStep, CONTROLLER_TAG, WORKER_TAG,
};
use pve_imds::models::{IpamEntry, NodeEntry, ProxmoxData, VirtualMachineEntry};

fn node(name: &str, status: &str) -> NodeEntry {
    NodeEntry {
        cpu_bits: 0.25f64.to_bits(),
        maxcpu: 4,
        mem: 0,
        maxmem: 0,
        disk: 0,
        maxdisk: 0,
        uptime: 0,
        status: status.to_string(),
        node: name.to_string(),
        level: "".to_string(),
        ssl_fingerprint: "".to_string(),
    }
}

fn vm(vmid: i64, name: &str) -> VirtualMachineEntry {
    VirtualMachineEntry { status: "running".to_string(), vmid, name: name.to_string(), template: None, tags: None }
}

fn ipam(ip: &str) -> IpamEntry {
    IpamEntry {
        zone: "z".to_string(),
        hostname: None,
        vmid: Some("1".to_string()),
        vnet: "vnet1".to_string(),
        ip: ip.to_string(),
        mac: None,
        subnet: "s".to_string(),
    }
}

fn strings(v: &[&str]) -> Vec<String> {
    v.iter().map(|s| s.to_string()).collect()
}

#[test]
fn name_differences() {
    let a = strings(&["a", "b", "c", "b"]);
    let b = strings(&["b", "d"]);
    assert_eq!(names_missing_from(&a, &b), strings(&["a", "c"]));
    assert_eq!(names_missing_from(&b, &a), strings(&["d"]));
    assert!(names_missing_from(&a, &a).is_empty());
}

#[test]
fn empty_catalog() {
    let c = Catalog::default();
    assert!(c.get_nodes().data.is_empty());
    assert!(c.get_controllers().data.is_empty());
    assert!(c.get_workers().data.is_empty());
    assert!(c.get_ipams().data.is_empty());
}

#[test]
fn writing_an_empty_list_to_an_empty_catalog_reports_nothing() {
    let mut c = Catalog::default();
    assert!(c.update_nodes_and_hash(ProxmoxData { data: vec![] }).is_none());
    assert!(c.update_controllers_and_hash(ProxmoxData { data: vec![] }).is_none());
    assert!(c.update_workers_and_hash(ProxmoxData { data: vec![] }).is_none());
    assert!(c.update_ipams_and_hash(ProxmoxData { data: vec![] }).is_none());
}

#[test]
fn node_updates_report_arrivals_and_departures() {
    let mut c = Catalog::default();
    let r = c.update_nodes_and_hash(ProxmoxData { data: vec![node("pve1", "online"), node("pve2", "online")] }).unwrap();
    assert_eq!(r.added, strings(&["pve1", "pve2"]));
    assert!(r.removed.is_empty());
    let names: Vec<String> = c.get_nodes().data.iter().map(|n| n.node.clone()).collect();
    assert_eq!(names, strings(&["pve1", "pve2"]));

    // The same list again: nothing changed.
    assert!(c.update_nodes_and_hash(ProxmoxData { data: vec![node("pve1", "online"), node("pve2", "online")] }).is_none());

    let r = c.update_nodes_and_hash(ProxmoxData { data: vec![node("pve2", "online"), node("pve3", "online")] }).unwrap();
    assert_eq!(r.added, strings(&["pve3"]));
    assert_eq!(r.removed, strings(&["pve1"]));
}

#[test]
fn a_status_change_is_a_change_without_names() {
    let mut c = Catalog::default();
    c.update_nodes_and_hash(ProxmoxData { data: vec![node("pve1", "online")] });
    let r = c.update_nodes_and_hash(ProxmoxData { data: vec![node("pve1", "offline")] }).unwrap();
    assert!(r.added.is_empty());
    assert!(r.removed.is_empty());
    assert_eq!(c.get_nodes().data[0].status, "offline");
}

#[test]
fn fields_outside_the_digest_are_stored_but_not_reported() {
    let mut c = Catalog::default();
    c.update_nodes_and_hash(ProxmoxData { data: vec![node("pve1", "online")] });
    let mut other = node("pve1", "online");
    other.uptime = 99;
    assert!(c.update_nodes_and_hash(ProxmoxData { data: vec![other] }).is_none());
    assert_eq!(c.get_nodes().data[0].uptime, 99);
}

#[test]
fn controllers_workers_and_ipams_are_kept_apart() {
    let mut c = Catalog::default();
    let r = c.update_controllers_and_hash(ProxmoxData { data: vec![vm(1, "ctl")] }).unwrap();
    assert_eq!(r.added, strings(&["ctl"]));
    let r = c.update_workers_and_hash(ProxmoxData { data: vec![vm(2, "wrk")] }).unwrap();
    assert_eq!(r.added, strings(&["wrk"]));
    let r = c.update_ipams_and_hash(ProxmoxData { data: vec![ipam("10.0.0.1")] }).unwrap();
    assert_eq!(r.added, strings(&["10.0.0.1"]));
    assert_eq!(c.get_controllers().data[0].name, "ctl");
    assert_eq!(c.get_workers().data[0].name, "wrk");
    assert_eq!(c.get_ipams().data[0].ip, "10.0.0.1");
    assert!(c.get_nodes().data.is_empty());
    // Renaming a VM with the same id is a change.
    let r = c.update_controllers_and_hash(ProxmoxData { data: vec![vm(1, "ctl-new")] }).unwrap();
    assert_eq!(r.added, strings(&["ctl-new"]));
    assert_eq!(r.removed, strings(&["ctl"]));
}

#[test]
fn events_drive_the_catalog() {
    let mut c = Catalog::default();
    match c.apply_catalog_event(CatalogEvent::WorkersUpdated(ProxmoxData { data: vec![vm(5, "w")] })) {
        CatalogStep::Continue { list, report } => {
            assert_eq!(list, CatalogList::Workers);
            assert_eq!(report.unwrap().added, strings(&["w"]));
        }
        CatalogStep::Stop => panic!("should continue"),
    }
    match c.apply_catalog_event(CatalogEvent::WorkersUpdated(ProxmoxData { data: vec![vm(5, "w")] })) {
        CatalogStep::Continue { list, report } => {
            assert_eq!(list, CatalogList::Workers);
            assert!(report.is_none());
        }
        CatalogStep::Stop => panic!("should continue"),
    }
    assert!(matches!(c.apply_catalog_event(CatalogEvent::UpdaterFinished), CatalogStep::Stop));
    assert_eq!(c.get_workers().data.len(), 1);
    assert!(matches!(
        c.apply_catalog_event(CatalogEvent::NodesUpdated(ProxmoxData { data: vec![node("n", "online")] })),
        CatalogStep::Continue { list: CatalogList::Nodes, .. }
    ));
    assert!(matches!(
        c.apply_catalog_event(CatalogEvent::ControllersUpdated(ProxmoxData { data: vec![] })),
        CatalogStep::Continue { list: CatalogList::Controllers, report: None }
    ));
    assert!(matches!(
        c.apply_catalog_event(CatalogEvent::IpamsUpdated(ProxmoxData { data: vec![ipam("1.2.3.4")] })),
        CatalogStep::Continue { list: CatalogList::Ipams, report: Some(_) }
    ));
}

#[test]
fn catalog_tags() {
    assert_eq!(CONTROLLER_TAG, "k0s-controller");
    assert_eq!(WORKER_TAG, "k0s-worker");
}

#[test]
fn node_cpu_load_is_kept() {
    let mut c = Catalog::default();
    let mut n = node("pve1", "online");
    n.cpu_bits = 0.0375f64.to_bits();
    c.update_nodes_and_hash(ProxmoxData { data: vec![n] });
    assert_eq!(f64::from_bits(c.get_nodes().data[0].cpu_bits), 0.0375);
    // The CPU load is outside the digest: a new load alone reports nothing.
    let mut m = node("pve1", "online");
    m.cpu_bits = 0.9f64.to_bits();
    assert!(c.update_nodes_and_hash(ProxmoxData { data: vec![m] }).is_none());
    assert_eq!(f64::from_bits(c.get_nodes().data[0].cpu_bits), 0.9);
}
