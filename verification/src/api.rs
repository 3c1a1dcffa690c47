//! Addresses and payloads of the Proxmox VE API calls, the session cookie,
//! and the renewal and polling schedule of the updaters.
use vstd::prelude::*;
use crate::models::{NodeEntry, ProxmoxTicket};

verus! {

/// Seconds between two renewals of the authentication ticket.
pub const PVE_REAUTHENTICATION_DELAY: u64 = 600;

/// Seconds between two refreshes of the node list.
pub const PVE_NODE_UPDATE_DELAY: u64 = 60;

/// Seconds between two refreshes of the VM and IPAM lists.
pub const PVE_VM_UPDATE_DELAY: u64 = 2;

#[verifier::external_type_specification]
#[verifier::external_body]
pub struct ExUrl(url::Url);

#[verifier::external_type_specification]
#[verifier::external_body]
pub struct ExUrlParseError(url::ParseError);

/// Whether `url::Url::parse` accepts the text.
pub uninterp spec fn url_accepts(text: Seq<char>) -> bool;

/// The URL that `url::Url::parse` makes of the text, where it accepts it.
pub uninterp spec fn parsed_url(text: Seq<char>) -> url::Url;

/// Calls `url::Url::parse` (what `str::parse::<Url>` calls), a function of
/// the text alone. It returns `Ok` exactly on the texts that the name
/// `url_accepts` holds of, and then the URL named `parsed_url` of the text;
/// what that URL holds is not stated.
#[verifier::external_body]
fn parse_url(text: &str) -> (r: Result<url::Url, url::ParseError>)
    ensures
        r is Ok <==> url_accepts(text@),
        r matches Ok(u) ==> u == parsed_url(text@),
{
    url::Url::parse(text)
}

/// Why a call to the API cannot be prepared.
#[derive(Clone, Copy, Debug, PartialEq, Eq)]
pub enum ApiError {
    /// The configured API address is not a URL.
    InvalidApiUrl,
}

/// A session cookie and the address it is set for.
pub struct TicketCookie {
    pub cookie: String,
    pub url: url::Url,
}

/// The client side of the Proxmox VE API: where it lives.
#[derive(Clone, Debug)]
pub struct ProxmoxApiClient {
    pub api_url: String,
}

/// The address `api_url` followed by `path`.
pub open spec fn endpoint(api_url: Seq<char>, path: Seq<char>) -> Seq<char> {
    api_url + path
}

/// The session cookie that carries `ticket`.
pub open spec fn ticket_cookie(ticket: Seq<char>) -> Seq<char> {
    "PVEAuthCookie="@ + ticket
}

impl ProxmoxApiClient {
    /// A client of the API at `api_url`.
    pub fn new(api_url: &str) -> (c: Self)
        ensures
            c.api_url@ == api_url@,
    {
        ProxmoxApiClient { api_url: String::from_str(api_url) }
    }

    /// The session cookie for `ticket`, with the API address it applies to;
    /// fails exactly when the API address is not a URL.
    pub fn update_ticket(&self, ticket: &ProxmoxTicket) -> (r: Result<TicketCookie, ApiError>)
        ensures
            r is Ok <==> url_accepts(self.api_url@),
            r matches Ok(c) ==> c.cookie@ == ticket_cookie(ticket.data.ticket@) && c.url == parsed_url(
                self.api_url@,
            ),
            r matches Err(e) ==> e == ApiError::InvalidApiUrl,
    {
        let cookie = String::from_str("PVEAuthCookie=").concat(ticket.data.ticket.as_str());
        match parse_url(self.api_url.as_str()) {
            Ok(url) => Ok(TicketCookie { cookie, url }),
            Err(_) => Err(ApiError::InvalidApiUrl),
        }
    }

    /// Where a ticket is requested.
    pub fn ticket_url(&self) -> (u: String)
        ensures
            u@ == endpoint(self.api_url@, "/api2/json/access/ticket"@),
    {
        self.api_url.clone().concat("/api2/json/access/ticket")
    }

    /// Where the nodes are listed.
    pub fn nodes_url(&self) -> (u: String)
        ensures
            u@ == endpoint(self.api_url@, "/api2/json/nodes"@),
    {
        self.api_url.clone().concat("/api2/json/nodes")
    }

    /// Where the QEMU VMs of `node` are listed.
    pub fn vms_url(&self, node: &NodeEntry) -> (u: String)
        ensures
            u@ == endpoint(self.api_url@, "/api2/json/nodes/"@ + node.node@ + "/qemu"@),
    {
        let u = self.api_url.clone().concat("/api2/json/nodes/").concat(node.node.as_str()).concat("/qemu");
        assert(u@ =~= endpoint(self.api_url@, "/api2/json/nodes/"@ + node.node@ + "/qemu"@));
        u
    }

    /// Where the IPAM reservations seen by `node` are listed.
    pub fn ipams_url(&self, node: &NodeEntry) -> (u: String)
        ensures
            u@ == endpoint(self.api_url@, "/api2/json/cluster/sdn/ipams/"@ + node.node@ + "/status"@),
    {
        let u = self.api_url.clone().concat("/api2/json/cluster/sdn/ipams/").concat(
            node.node.as_str(),
        ).concat("/status");
        assert(u@ =~= endpoint(self.api_url@, "/api2/json/cluster/sdn/ipams/"@ + node.node@ + "/status"@));
        u
    }
}

/// The form fields of a ticket request.
pub fn ticket_form(username: &str, password: &str) -> (f: Vec<(String, String)>)
    ensures
        f.deep_view() == seq![("username"@, username@), ("password"@, password@)],
{
    let mut f: Vec<(String, String)> = Vec::new();
    f.push((String::from_str("username"), String::from_str(username)));
    f.push((String::from_str("password"), String::from_str(password)));
    assert(f.deep_view() =~= seq![("username"@, username@), ("password"@, password@)]);
    f
}

/// The credentials that renew a session: the user name of the current
/// ticket, with the ticket itself as password.
pub fn renewal_credentials(ticket: &ProxmoxTicket) -> (c: (String, String))
    ensures
        c.0@ == ticket.data.username@,
        c.1@ == ticket.data.ticket@,
{
    (ticket.data.username.clone(), ticket.data.ticket.clone())
}


/// What the service's main loop hears.
pub enum ServiceEvent {
    /// A renewed ticket.
    TicketRenewed(ProxmoxTicket),
    /// The ticket updater has ended.
    TicketUpdaterFinished,
    /// The catalog updater has ended.
    CatalogUpdaterFinished,
    /// The web server has ended.
    WebserverFinished,
}

/// What the service's main loop does next.
pub enum ServiceStep {
    /// Set this cookie in the HTTP client's cookie jar and keep going.
    InstallCookie(TicketCookie),
    /// Shut down.
    Stop,
}

/// One turn of the service's main loop: a renewed ticket becomes the session
/// cookie (an API address that is not a URL is an error); any ended task
/// stops the service.
pub fn service_step(client: &ProxmoxApiClient, event: ServiceEvent) -> (r: Result<ServiceStep, ApiError>)
    ensures
        match event {
            ServiceEvent::TicketRenewed(t) => match r {
                Ok(ServiceStep::InstallCookie(c)) => url_accepts(client.api_url@) && c.cookie@ == ticket_cookie(t.data.ticket@)
                    && c.url == parsed_url(client.api_url@),
                Ok(ServiceStep::Stop) => false,
                Err(e) => !url_accepts(client.api_url@) && e == ApiError::InvalidApiUrl,
            },
            _ => r matches Ok(ServiceStep::Stop),
        },
{
    match event {
        ServiceEvent::TicketRenewed(t) => match client.update_ticket(&t) {
            Ok(c) => Ok(ServiceStep::InstallCookie(c)),
            Err(e) => Err(e),
        },
        _ => Ok(ServiceStep::Stop),
    }
}

} // verus!
