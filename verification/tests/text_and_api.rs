use pve_imds::api::{
    renewal_credentials, service_step, ticket_form, ApiError, ProxmoxApiClient, ServiceEvent,
    ServiceStep, PVE_NODE_UPDATE_DELAY, PVE_REAUTHENTICATION_DELAY, PVE_VM_UPDATE_DELAY,
};
use pve_imds::models::{NodeEntry, ProxmoxData, Ticket};
use pve_imds::text::{chars_of, format_decimal, text_contains, text_less};

fn node(name: &str) -> NodeEntry {
    NodeEntry {
        cpu_bits: 0.0f64.to_bits(),
        maxcpu: 8,
        mem: 1,
        maxmem: 2,
        disk: 3,
        maxdisk: 4,
        uptime: 5,
        status: "online".to_string(),
        node: name.to_string(),
        level: "".to_string(),
        ssl_fingerprint: "AA:BB".to_string(),
    }
}

fn ticket(user: &str, t: &str) -> ProxmoxData<Ticket> {
    ProxmoxData {
        data: Ticket {
            username: user.to_string(),
            ticket: t.to_string(),
            _csrf_prevention_token: "csrf".to_string(),
        },
    }
}

#[test]
fn decimal_rendering_matches_to_string() {
    for x in [0i64, 7, 42, 100, -1, -7, -120, i64::MAX, i64::MIN, 1234567890123] {
        assert_eq!(format_decimal(x), x.to_string());
    }
}

#[test]
fn substring_search() {
    assert!(text_contains("k0s-controller", "k0s-controller"));
    assert!(text_contains("prod;k0s-controller;eu", "k0s-controller"));
    assert!(!text_contains("k0s-worker", "k0s-controller"));
    assert!(text_contains("anything", ""));
    assert!(text_contains("", ""));
    assert!(!text_contains("", "a"));
    assert!(text_contains("héllo wörld", "ö"));
    assert!(!text_contains("abc", "abcd"));
}

#[test]
fn lexicographic_order_is_that_of_str() {
    let cases = ["", "a", "ab", "b", "10", "9", "100", "é", "z", "aé"];
    for a in cases {
        for b in cases {
            assert_eq!(text_less(a, b), a < b, "{a:?} < {b:?}");
        }
    }
}

#[test]
fn characters_of_text() {
    assert_eq!(chars_of("aé€"), vec!['a', 'é', '€']);
    assert!(chars_of("").is_empty());
}

#[test]
fn endpoints_of_the_api() {
    let c = ProxmoxApiClient::new("https://localhost:8006");
    assert_eq!(c.ticket_url(), "https://localhost:8006/api2/json/access/ticket");
    assert_eq!(c.nodes_url(), "https://localhost:8006/api2/json/nodes");
    assert_eq!(c.vms_url(&node("pve1")), "https://localhost:8006/api2/json/nodes/pve1/qemu");
    assert_eq!(
        c.ipams_url(&node("pve1")),
        "https://localhost:8006/api2/json/cluster/sdn/ipams/pve1/status"
    );
}

#[test]
fn ticket_cookie_for_a_valid_api_url() {
    let c = ProxmoxApiClient::new("https://localhost:8006");
    let cookie = c.update_ticket(&ticket("root@pam", "PVE:abc")).unwrap();
    assert_eq!(cookie.cookie, "PVEAuthCookie=PVE:abc");
    assert_eq!(cookie.url.as_str(), "https://localhost:8006/");
}

#[test]
fn ticket_cookie_for_an_invalid_api_url() {
    let c = ProxmoxApiClient::new("not a url");
    assert!(matches!(c.update_ticket(&ticket("u", "t")), Err(ApiError::InvalidApiUrl)));
}

#[test]
fn ticket_request_form() {
    let f = ticket_form("root@pam", "secret");
    assert_eq!(
        f,
        vec![
            ("username".to_string(), "root@pam".to_string()),
            ("password".to_string(), "secret".to_string())
        ]
    );
}

#[test]
fn renewal_uses_ticket_as_password() {
    let (user, password) = renewal_credentials(&ticket("root@pam", "PVE:xyz"));
    assert_eq!(user, "root@pam");
    assert_eq!(password, "PVE:xyz");
}

#[test]
fn polling_delays() {
    assert_eq!(PVE_REAUTHENTICATION_DELAY, 600);
    assert_eq!(PVE_NODE_UPDATE_DELAY, 60);
    assert_eq!(PVE_VM_UPDATE_DELAY, 2);
}

#[test]
fn main_loop_installs_cookies_and_stops_on_ended_tasks() {
    let c = ProxmoxApiClient::new("https://pve.example:8006");
    match service_step(&c, ServiceEvent::TicketRenewed(ticket("u", "T1"))) {
        Ok(ServiceStep::InstallCookie(k)) => assert_eq!(k.cookie, "PVEAuthCookie=T1"),
        _ => panic!("expected a cookie"),
    }
    for e in [
        ServiceEvent::TicketUpdaterFinished,
        ServiceEvent::CatalogUpdaterFinished,
        ServiceEvent::WebserverFinished,
    ] {
        assert!(matches!(service_step(&c, e), Ok(ServiceStep::Stop)));
    }
    let bad = ProxmoxApiClient::new("::");
    assert!(matches!(
        service_step(&bad, ServiceEvent::TicketRenewed(ticket("u", "T"))),
        Err(ApiError::InvalidApiUrl)
    ));
}
