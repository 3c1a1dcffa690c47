use pve_imds::models::{IpamEntry, VirtualMachineEntry};
use pve_imds::selection::{
    concat_lists, get_all_ipams_matching_criterias, get_running_vms, get_running_vms_with_tags,
    opt_text_less, sort_ipams_by_vmid, sort_vms_by_vmid,
};

fn vm(vmid: i64, name: &str, status: &str, template: Option<u8>, tags: Option<&str>) -> VirtualMachineEntry {
    VirtualMachineEntry {
        status: status.to_string(),
        vmid,
        name: name.to_string(),
        template,
        tags: tags.map(|t| t.to_string()),
    }
}

fn ipam(vmid: Option<&str>, vnet: &str, ip: &str) -> IpamEntry {
    IpamEntry {
        zone: "zone1".to_string(),
        hostname: None,
        vmid: vmid.map(|v| v.to_string()),
        vnet: vnet.to_string(),
        ip: ip.to_string(),
        mac: None,
        subnet: "10.0.0.0/24".to_string(),
    }
}

fn names(v: &[VirtualMachineEntry]) -> Vec<&str> {
    v.iter().map(|e| e.name.as_str()).collect()
}

#[test]
fn lists_are_concatenated_in_order() {
    assert_eq!(concat_lists(vec![vec![1, 2], vec![], vec![3]]), vec![1, 2, 3]);
    assert!(concat_lists::<u8>(vec![]).is_empty());
}

#[test]
fn running_vms_drop_templates_and_stopped_and_sort_by_vmid() {
    let per_node = vec![
        vec![
            vm(300, "c", "running", None, None),
            vm(100, "a", "running", None, None),
            vm(150, "tmpl", "running", Some(1), None),
        ],
        vec![vm(200, "b", "stopped", None, None), vm(50, "z", "running", None, Some("x"))],
    ];
    let r = get_running_vms(per_node);
    assert_eq!(names(&r.data), vec!["z", "a", "c"]);
}

#[test]
fn equal_vmids_keep_their_reported_order() {
    let per_node = vec![
        vec![vm(7, "first", "running", None, None), vm(3, "x", "running", None, None)],
        vec![vm(7, "second", "running", None, None)],
    ];
    let r = get_running_vms(per_node);
    assert_eq!(names(&r.data), vec!["x", "first", "second"]);
}

#[test]
fn tagged_vms_need_the_tag_as_substring() {
    let per_node = vec![vec![
        vm(3, "ctl", "running", None, Some("k0s-controller")),
        vm(2, "wrk", "running", None, Some("k0s-worker")),
        vm(1, "both", "running", None, Some("prod;k0s-controller")),
        vm(4, "none", "running", None, None),
        vm(5, "stopped", "stopped", None, Some("k0s-controller")),
        vm(6, "tmpl", "running", Some(1), Some("k0s-controller")),
    ]];
    let r = get_running_vms_with_tags(per_node, "k0s-controller");
    assert_eq!(names(&r.data), vec!["both", "ctl"]);
}

#[test]
fn vm_sort_is_stable() {
    let v = vec![
        vm(2, "a", "running", None, None),
        vm(1, "b", "running", None, None),
        vm(2, "c", "running", None, None),
        vm(-5, "d", "running", None, None),
    ];
    let r = sort_vms_by_vmid(&v);
    let mut expected = v.clone();
    expected.sort_by(|a, b| a.vmid.cmp(&b.vmid));
    assert_eq!(names(&r), names(&expected));
}

#[test]
fn ipams_of_one_network_with_a_vm_sorted_as_text() {
    let per_node = vec![
        vec![ipam(Some("9"), "vnet1", "10.0.0.9"), ipam(None, "vnet1", "10.0.0.1")],
        vec![ipam(Some("10"), "vnet1", "10.0.0.10"), ipam(Some("11"), "vnet2", "10.1.0.11")],
        vec![ipam(Some("100"), "vnet1", "10.0.0.100")],
    ];
    let r = get_all_ipams_matching_criterias(per_node, "vnet1");
    let ips: Vec<&str> = r.data.iter().map(|e| e.ip.as_str()).collect();
    assert_eq!(ips, vec!["10.0.0.10", "10.0.0.100", "10.0.0.9"]);
}

#[test]
fn ipam_sort_matches_option_string_order() {
    let v = vec![
        ipam(Some("b"), "n", "1"),
        ipam(None, "n", "2"),
        ipam(Some("a"), "n", "3"),
        ipam(Some("b"), "n", "4"),
        ipam(None, "n", "5"),
    ];
    let r = sort_ipams_by_vmid(&v);
    let mut expected = v.clone();
    expected.sort_by(|a, b| a.vmid.cmp(&b.vmid));
    let got: Vec<&str> = r.iter().map(|e| e.ip.as_str()).collect();
    let want: Vec<&str> = expected.iter().map(|e| e.ip.as_str()).collect();
    assert_eq!(got, want);
}

#[test]
fn option_text_order() {
    let s = |x: &str| Some(x.to_string());
    assert!(opt_text_less(&None, &s("")));
    assert!(!opt_text_less(&s(""), &None));
    assert!(!opt_text_less(&None, &None));
    assert!(opt_text_less(&s("10"), &s("9")));
    assert!(!opt_text_less(&s("9"), &s("9")));
}
