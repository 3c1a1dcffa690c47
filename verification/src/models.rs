//! The records that the Proxmox API returns, as the library reads them.
use vstd::prelude::*;

verus! {

/// The envelope `{ "data": ... }` of every Proxmox API answer.
#[derive(Clone, Debug)]
pub struct ProxmoxData<T> {
    pub data: T,
}

/// An authentication ticket, as answered by `/access/ticket`.
#[derive(Clone, Debug)]
pub struct Ticket {
    pub username: String,
    pub ticket: String,
    pub _csrf_prevention_token: String,
}

/// A cluster node, as listed by `/nodes`.
#[derive(Clone, Debug)]
pub struct NodeEntry {
    /// The CPU load, a binary64 floating-point number, held as its IEEE 754
    /// bit pattern (`f64::to_bits`); no decision of the library reads it.
    pub cpu_bits: u64,
    pub maxcpu: i32,
    pub mem: i64,
    pub maxmem: i64,
    pub disk: i64,
    pub maxdisk: i64,
    pub uptime: i64,
    pub status: String,
    pub node: String,
    pub level: String,
    pub ssl_fingerprint: String,
}

/// A QEMU virtual machine, as listed by `/nodes/{node}/qemu`.
#[derive(Clone, Debug)]
pub struct VirtualMachineEntry {
    pub status: String,
    pub vmid: i64,
    pub name: String,
    pub template: Option<u8>,
    pub tags: Option<String>,
}

/// An address reservation of the SDN IPAM.
#[derive(Clone, Debug)]
pub struct IpamEntry {
    pub zone: String,
    pub hostname: Option<String>,
    pub vmid: Option<String>,
    pub vnet: String,
    pub ip: String,
    pub mac: Option<String>,
    pub subnet: String,
}

pub type ProxmoxTicket = ProxmoxData<Ticket>;

pub type ProxmoxNodeEntries = ProxmoxData<Vec<NodeEntry>>;

pub type ProxmoxVirtualMachineEntries = ProxmoxData<Vec<VirtualMachineEntry>>;

pub type ProxmoxIpamEntries = ProxmoxData<Vec<IpamEntry>>;

/// The text of an optional string.
pub open spec fn opt_text(o: Option<String>) -> Option<Seq<char>> {
    match o {
        Some(s) => Some(s@),
        None => None,
    }
}

/// A copy of an optional string.
pub fn copy_opt_string(o: &Option<String>) -> (r: Option<String>)
    ensures
        r == *o,
{
    match o {
        Some(s) => Some(s.clone()),
        None => None,
    }
}

impl Ticket {
    /// A field-by-field copy.
    pub fn duplicate(&self) -> (r: Self)
        ensures
            r == *self,
    {
        Ticket {
            username: self.username.clone(),
            ticket: self.ticket.clone(),
            _csrf_prevention_token: self._csrf_prevention_token.clone(),
        }
    }
}

impl NodeEntry {
    /// A field-by-field copy.
    pub fn duplicate(&self) -> (r: Self)
        ensures
            r == *self,
    {
        NodeEntry {
            cpu_bits: self.cpu_bits,
            maxcpu: self.maxcpu,
            mem: self.mem,
            maxmem: self.maxmem,
            disk: self.disk,
            maxdisk: self.maxdisk,
            uptime: self.uptime,
            status: self.status.clone(),
            node: self.node.clone(),
            level: self.level.clone(),
            ssl_fingerprint: self.ssl_fingerprint.clone(),
        }
    }
}

impl VirtualMachineEntry {
    /// A field-by-field copy.
    pub fn duplicate(&self) -> (r: Self)
        ensures
            r == *self,
    {
        VirtualMachineEntry {
            status: self.status.clone(),
            vmid: self.vmid,
            name: self.name.clone(),
            template: self.template,
            tags: copy_opt_string(&self.tags),
        }
    }
}

impl IpamEntry {
    /// A field-by-field copy.
    pub fn duplicate(&self) -> (r: Self)
        ensures
            r == *self,
    {
        IpamEntry {
            zone: self.zone.clone(),
            hostname: copy_opt_string(&self.hostname),
            vmid: copy_opt_string(&self.vmid),
            vnet: self.vnet.clone(),
            ip: self.ip.clone(),
            mac: copy_opt_string(&self.mac),
            subnet: self.subnet.clone(),
        }
    }
}

/// A copy of a list of nodes.
pub fn copy_nodes(v: &Vec<NodeEntry>) -> (r: Vec<NodeEntry>)
    ensures
        r@ == v@,
{
    let mut r: Vec<NodeEntry> = Vec::new();
    for i in 0..v.len()
        invariant
            r@ == v@.take(i as int),
    {
        r.push(v[i].duplicate());
        assert(r@ =~= v@.take(i + 1));
    }
    assert(v@.take(v@.len() as int) =~= v@);
    r
}

/// A copy of a list of virtual machines.
pub fn copy_vms(v: &Vec<VirtualMachineEntry>) -> (r: Vec<VirtualMachineEntry>)
    ensures
        r@ == v@,
{
    let mut r: Vec<VirtualMachineEntry> = Vec::new();
    for i in 0..v.len()
        invariant
            r@ == v@.take(i as int),
    {
        r.push(v[i].duplicate());
        assert(r@ =~= v@.take(i + 1));
    }
    assert(v@.take(v@.len() as int) =~= v@);
    r
}

/// A copy of a list of IPAM entries.
pub fn copy_ipams(v: &Vec<IpamEntry>) -> (r: Vec<IpamEntry>)
    ensures
        r@ == v@,
{
    let mut r: Vec<IpamEntry> = Vec::new();
    for i in 0..v.len()
        invariant
            r@ == v@.take(i as int),
    {
        r.push(v[i].duplicate());
        assert(r@ =~= v@.take(i + 1));
    }
    assert(v@.take(v@.len() as int) =~= v@);
    r
}

} // verus!
