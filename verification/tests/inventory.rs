use pve_imds::cluster::{
    command_for, get_controller_infos, get_node_infos_from_catalogs, get_workers_infos,
    plan_cluster_query, ClusterPlan, ClusterQuery, NodeInfo,
};
use pve_imds::inventory::find_ipam_for;
use pve_imds::metadata::{self, get_instance_id, MetadataError};
use pve_imds::models::{IpamEntry, ProxmoxData, VirtualMachineEntry};

fn vm(vmid: i64, name: &str) -> VirtualMachineEntry {
    VirtualMachineEntry {
        status: "running".to_string(),
        vmid,
        name: name.to_string(),
        template: None,
        tags: Some("k0s-controller".to_string()),
    }
}

fn ipam(vmid: Option<&str>, ip: &str) -> IpamEntry {
    IpamEntry {
        zone: "z".to_string(),
        hostname: None,
        vmid: vmid.map(|v| v.to_string()),
        vnet: "vnet1".to_string(),
        ip: ip.to_string(),
        mac: None,
        subnet: "10.0.0.0/24".to_string(),
    }
}

fn catalogs() -> (ProxmoxData<Vec<VirtualMachineEntry>>, ProxmoxData<Vec<IpamEntry>>) {
    (
        ProxmoxData { data: vec![vm(101, "ctl-1"), vm(102, "ctl-2"), vm(103, "ctl-3")] },
        ProxmoxData {
            data: vec![
                ipam(Some("102"), "10.0.0.2"),
                ipam(None, "10.0.0.50"),
                ipam(Some("101"), "10.0.0.1"),
                ipam(Some("102"), "10.0.0.22"),
            ],
        },
    )
}

#[test]
fn first_reservation_of_a_vm() {
    let (_, ipams) = catalogs();
    assert_eq!(find_ipam_for(&ipams.data, 102), Some(0));
    assert_eq!(find_ipam_for(&ipams.data, 101), Some(2));
    assert_eq!(find_ipam_for(&ipams.data, 103), None);
    assert_eq!(find_ipam_for(&ipams.data, 10), None);
}

#[test]
fn cluster_member_records() {
    let (vms, ipams) = catalogs();
    let infos = get_node_infos_from_catalogs(vms, ipams);
    let got: Vec<(&str, &str, &str)> =
        infos.iter().map(|n| (n.name.as_str(), n.ip.as_str(), n.status.as_str())).collect();
    assert_eq!(got, vec![("ctl-1", "10.0.0.1", "running"), ("ctl-2", "10.0.0.2", "running")]);
}

#[test]
fn controller_and_worker_records() {
    let (vms, ipams) = catalogs();
    assert_eq!(get_controller_infos(vms.clone(), ipams.clone()).len(), 2);
    assert_eq!(get_workers_infos(ProxmoxData { data: vec![] }, ipams).len(), 0);
}

#[test]
fn metadata_records_carry_the_vmid() {
    let (vms, ipams) = catalogs();
    let infos = metadata::get_node_infos_from_catalogs(vms, ipams);
    let got: Vec<(i64, &str)> = infos.iter().map(|n| (n.vmid, n.ip.as_str())).collect();
    assert_eq!(got, vec![(101, "10.0.0.1"), (102, "10.0.0.2")]);
}

#[test]
fn instance_id_of_the_requester() {
    let (vms, ipams) = catalogs();
    assert_eq!(get_instance_id(vms.clone(), ipams.clone(), "10.0.0.2"), Ok("102".to_string()));
    assert_eq!(get_instance_id(vms.clone(), ipams.clone(), "10.0.0.1"), Ok("101".to_string()));
    // Only the first reservation of a VM counts.
    assert_eq!(get_instance_id(vms.clone(), ipams.clone(), "10.0.0.22"), Err(MetadataError::NoNodeFound));
    assert_eq!(get_instance_id(vms, ipams, "192.168.1.1"), Err(MetadataError::NoNodeFound));
}

#[test]
fn ssh_arguments_of_a_member() {
    let n = NodeInfo { name: "ctl-1".to_string(), ip: "10.0.0.1".to_string(), status: "running".to_string() };
    assert_eq!(
        n.ssh_arguments("k0s status"),
        vec!["-o", "StrictHostKeyChecking=no", "-o", "UserKnownHostsFile=/dev/null", "root@10.0.0.1", "k0s status"]
    );
}

#[test]
fn commands_of_the_queries() {
    assert_eq!(command_for(ClusterQuery::Bootstrapped), "k0s status");
    assert_eq!(command_for(ClusterQuery::ControllerToken), "k0s token create --role=controller --expiry=1h");
    assert_eq!(command_for(ClusterQuery::WorkerToken), "k0s token create --role=worker --expiry=1h");
    assert_eq!(
        command_for(ClusterQuery::VrrpPassword),
        "yq '.spec.network.controlPlaneLoadBalancing.keepalived.vrrpInstances[0].authPass' /etc/k0s/k0s.yaml"
    );
}

#[test]
fn requests_go_to_another_controller() {
    let (vms, ipams) = catalogs();
    match plan_cluster_query(ClusterQuery::ControllerToken, vms.clone(), ipams.clone(), "10.0.0.1") {
        ClusterPlan::Run { peer, command } => {
            assert_eq!(peer.ip, "10.0.0.2");
            assert_eq!(command, "k0s token create --role=controller --expiry=1h");
        }
        other => panic!("unexpected plan {other:?}"),
    }
    match plan_cluster_query(ClusterQuery::Bootstrapped, vms, ipams, "10.9.9.9") {
        ClusterPlan::Run { peer, .. } => assert_eq!(peer.name, "ctl-1"),
        other => panic!("unexpected plan {other:?}"),
    }
}

#[test]
fn lone_controller_is_not_bootstrapped() {
    let vms = ProxmoxData { data: vec![vm(101, "ctl-1")] };
    let ipams = ProxmoxData { data: vec![ipam(Some("101"), "10.0.0.1")] };
    assert!(matches!(
        plan_cluster_query(ClusterQuery::Bootstrapped, vms.clone(), ipams.clone(), "10.0.0.1"),
        ClusterPlan::NotBootstrapped
    ));
    for q in [ClusterQuery::ControllerToken, ClusterQuery::WorkerToken, ClusterQuery::VrrpPassword] {
        assert!(matches!(
            plan_cluster_query(q, vms.clone(), ipams.clone(), "10.0.0.1"),
            ClusterPlan::NoControllers
        ));
    }
}
