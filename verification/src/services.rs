//! What the network services are started with.
use vstd::prelude::*;

verus! {

/// A DHCP server for the clients of the access point.
#[derive(Clone, Copy, Debug)]
pub struct DhcpPlan {
    /// The server's own address.
    pub server: [u8; 4],
    /// The gateway that clients are told.
    pub gateway: [u8; 4],
    /// The DNS server that clients are told.
    pub dns: [u8; 4],
    /// How long to wait, in milliseconds, before the server is started again when it ended.
    pub restart_millis: u64,
}

/// DHCP server: it assigns addresses to clients and tells them that the device is both the
/// gateway and the DNS server, so that their queries reach it.
pub fn run_dhcp(gw_ip: [u8; 4]) -> (r: DhcpPlan)
    ensures
        r.server == gw_ip,
        r.gateway == gw_ip,
        r.dns == gw_ip,
        r.restart_millis == 500,
{
    DhcpPlan { server: gw_ip, gateway: gw_ip, dns: gw_ip, restart_millis: 500 }
}

/// A responder that tells the local network the device's name.
#[derive(Clone, Copy, Debug)]
pub struct MdnsPlan {
    pub hostname: &'static str,
    pub ipv4: [u8; 4],
    pub ipv6: [u8; 16],
    /// For how many seconds an answer may be kept.
    pub ttl_secs: u32,
    /// How long to wait, in milliseconds, before the responder is started again when it ended.
    pub restart_millis: u64,
}

/// mDNS responder: it answers for `hostname` with the device's address, and with no IPv6 one.
pub fn run_mdns(hostname: &'static str, our_ip: [u8; 4]) -> (r: MdnsPlan)
    ensures
        r.hostname@ == hostname@,
        r.ipv4 == our_ip,
        r.ipv6@ == Seq::new(16, |i: int| 0u8),
        r.ttl_secs == 60,
        r.restart_millis == 1000,
{
    let plan = MdnsPlan {
        hostname,
        ipv4: our_ip,
        ipv6: [0u8; 16],
        ttl_secs: 60,
        restart_millis: 1000,
    };
    assert(plan.ipv6@ =~= Seq::new(16, |i: int| 0u8));
    plan
}

/// Clients of the access point are told that the device is their gateway and their DNS server, so
/// that the captive portal gets their queries.
pub proof fn law_clients_are_sent_to_device(gw_ip: [u8; 4], r: DhcpPlan)
    requires
        call_ensures(run_dhcp, (gw_ip,), r),
    ensures
        r.server == gw_ip && r.gateway == gw_ip && r.dns == gw_ip,
        r.restart_millis == 500,
{
}

/// The local network is told the device's name and address as they are, good for a minute.
pub proof fn law_device_is_announced(hostname: &'static str, our_ip: [u8; 4], r: MdnsPlan)
    requires
        call_ensures(run_mdns, (hostname, our_ip), r),
    ensures
        r.hostname@ == hostname@,
        r.ipv4 == our_ip,
        forall|i: int| 0 <= i < 16 ==> #[trigger] r.ipv6@[i] == 0,
        r.ttl_secs == 60,
        r.restart_millis == 1000,
{
}

} // verus!
