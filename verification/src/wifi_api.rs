//! The WiFi configuration as its users see it: reading it, and asking for changes.
use crate::flash::opt_text;
use crate::signals::WifiSignal;
use crate::text::{clone64, fits, text64};
use crate::wifi_task::{accepted, rejected, PasswordPlan, Progress, WifiTask};
use vstd::prelude::*;
use vstd::utf8::encode_utf8;

verus! {

/// Represents a Station (STA) network configuration.
#[derive(Debug)]
pub struct StaNetwork {
    /// The SSID of the network.
    pub ssid: heapless::String<64>,
    /// The password, if any.
    pub password: Option<heapless::String<64>>,
}

/// What a [`StaNetwork`] says.
pub struct NetworkView {
    pub ssid: Seq<char>,
    pub password: Option<Seq<char>>,
}

impl View for StaNetwork {
    type V = NetworkView;

    open spec fn view(&self) -> NetworkView {
        NetworkView { ssid: text64(self.ssid), password: opt_text(self.password) }
    }
}

impl Clone for StaNetwork {
    fn clone(&self) -> (r: StaNetwork)
        ensures
            r@ == self@,
    {
        StaNetwork { ssid: clone64(&self.ssid), password: clone_opt(&self.password) }
    }
}

pub(crate) fn clone_opt(t: &Option<heapless::String<64>>) -> (r: Option<heapless::String<64>>)
    ensures
        opt_text(r) == opt_text(*t),
{
    match t {
        Some(t) => Some(clone64(t)),
        None => None,
    }
}

/// What a list of networks says.
pub open spec fn network_views(networks: Seq<StaNetwork>) -> Seq<NetworkView> {
    Seq::new(networks.len(), |i: int| networks[i]@)
}

pub(crate) fn clone_networks(networks: &Vec<StaNetwork>) -> (r: Vec<StaNetwork>)
    ensures
        network_views(r@) == network_views(networks@),
{
    let mut out: Vec<StaNetwork> = Vec::new();
    let mut i: usize = 0;
    while i < networks.len()
        invariant
            i <= networks@.len(),
            out@.len() == i,
            forall|j: int| 0 <= j < i ==> (#[trigger] out@[j])@ == networks@[j]@,
        decreases networks@.len() - i,
    {
        out.push(networks[i].clone());
        i = i + 1;
    }
    assert(network_views(out@) =~= network_views(networks@));
    out
}

/// Snapshot of the current WiFi status.
#[derive(Debug)]
pub struct WifiStatus {
    pub ap_enabled: bool,
    pub ap_ssid: Option<heapless::String<64>>,
    pub sta_enabled: bool,
    pub sta_networks: heapless::Vec<StaNetwork, 8>,
    pub hostname: Option<heapless::String<64>>,
    pub country_code: Option<heapless::String<64>>,
}

/// What a WiFi configuration says.
#[verifier::ext_equal]
pub struct ConfigView {
    pub ap_enabled: bool,
    pub ap_ssid: Option<Seq<char>>,
    pub ap_password: Option<Seq<char>>,
    pub ap_gateway_ip: Option<Seq<char>>,
    pub sta_enabled: bool,
    pub hostname: Option<Seq<char>>,
    pub country_code: Option<Seq<char>>,
    pub networks: Seq<NetworkView>,
}

/// The two bytes of a country code: those of the code set, or of "01" where it falls short.
pub open spec fn country_bytes(code: Option<Seq<char>>) -> Seq<u8> {
    let b = match code {
        Some(code) => encode_utf8(code),
        None => Seq::empty(),
    };
    seq![
        if b.len() > 0 {
            b[0]
        } else {
            48u8
        },
        if b.len() > 1 {
            b[1]
        } else {
            49u8
        },
    ]
}

/// Reading a WiFi configuration with room for `N` saved networks.
///
/// This lets components (like web servers or status monitors) query the current WiFi settings
/// without knowing the underlying storage mechanism.
pub trait WifiConfig<const N: usize> {
    /// What the configuration says.
    spec fn config(&self) -> ConfigView;

    /// Returns true if the Access Point interface should be active.
    fn is_ap_enabled(&self) -> (r: bool)
        ensures
            r == self.config().ap_enabled,
    ;

    /// Returns the configured SSID for the Access Point.
    fn ap_ssid(&self) -> (r: Option<heapless::String<64>>)
        ensures
            opt_text(r) == self.config().ap_ssid,
    ;

    /// Returns the configured password for the Access Point.
    fn ap_password(&self) -> (r: Option<heapless::String<64>>)
        ensures
            opt_text(r) == self.config().ap_password,
    ;

    /// Stored AP gateway IP as a dotted-decimal string, e.g. `"192.168.2.1"`.
    fn ap_gateway_ip(&self) -> (r: Option<heapless::String<64>>)
        ensures
            opt_text(r) == self.config().ap_gateway_ip,
    ;

    /// Returns true if the Station (client) interface should be active.
    fn is_sta_enabled(&self) -> (r: bool)
        ensures
            r == self.config().sta_enabled,
    ;

    /// Returns the list of saved Station networks.
    fn sta_networks(&self) -> (r: Vec<StaNetwork>)
        ensures
            network_views(r@) == self.config().networks,
    ;

    /// Returns the device hostname used for DHCP and mDNS.
    fn hostname(&self) -> (r: Option<heapless::String<64>>)
        ensures
            opt_text(r) == self.config().hostname,
    ;

    /// Returns the 2-character ISO country code (e.g., "US", "DE").
    fn country_code(&self) -> (r: [u8; 2])
        ensures
            r@ == country_bytes(self.config().country_code),
    ;
}

/// Whether `plan` is what a password asked for comes to.
pub open spec fn plans_password(password: Option<&str>, plan: PasswordPlan) -> bool {
    match password {
        None => plan == PasswordPlan::Keep,
        Some(p) => if fits(p@, 64) {
            plan matches PasswordPlan::Replace(t) && text64(t) == p@
        } else {
            plan == PasswordPlan::TooLong
        },
    }
}

/// Whether a network says what was asked for.
pub open spec fn says(network: StaNetwork, ssid: &str, password: Option<&str>) -> bool {
    &&& network@.ssid == ssid@
    &&& network@.password == match password {
        Some(p) => Some(p@),
        None => None,
    }
}

/// Whether SSID and password of a network fit where they are kept.
pub open spec fn network_fits(ssid: &str, password: Option<&str>) -> bool {
    fits(ssid@, 64) && (password matches Some(p) ==> fits(p@, 64))
}

/// Changing a WiFi configuration with room for `N` saved networks.
///
/// Each method starts a change and reports its progress. A change is over at once, or waits
/// for a write to flash.
pub trait WifiManager<const N: usize>: WifiConfig<N> {
    /// Enable or disable the Access Point interface.
    fn set_ap_enabled(&self, enabled: bool) -> (r: Progress)
        ensures
            r == Progress::Store(WifiTask::ApEnabled(enabled)),
    ;

    /// Update the Access Point SSID.
    fn set_ap_ssid(&self, ssid: &str) -> (r: Progress)
        ensures
            !fits(ssid@, 64) ==> r == rejected(),
            fits(ssid@, 64) ==> (r matches Progress::Store(WifiTask::ApSsid(t)) && text64(t)
                == ssid@),
    ;

    /// Update the Access Point password.
    fn set_ap_password(&self, password: &str) -> (r: Progress)
        ensures
            !fits(password@, 64) ==> r == rejected(),
            fits(password@, 64) ==> (r matches Progress::Store(WifiTask::ApPassword(t))
                && text64(t) == password@),
    ;

    /// Configure both SSID and password for the Access Point at once. The password is tried
    /// even where the SSID could not be set.
    fn configure_ap(&self, ssid: Option<&str>, password: Option<&str>) -> (r: Progress)
        ensures
            (ssid matches Some(s) && fits(s@, 64)) ==> (r matches Progress::Store(
                WifiTask::ConfigureSsid { ssid: t, plan },
            ) && text64(t) == ssid->0@ && plans_password(password, plan)),
            !(ssid matches Some(s) && fits(s@, 64)) ==> match password {
                None => r == if ssid is None {
                    accepted(Some(WifiSignal::ApReconfig))
                } else {
                    rejected()
                },
                Some(p) => if fits(p@, 64) {
                    r matches Progress::Store(
                        WifiTask::ConfigurePassword { ssid_ok, password: t },
                    ) && ssid_ok == (ssid is None) && text64(t) == p@
                } else {
                    r == rejected()
                },
            },
    ;

    /// Persist a new AP gateway IP. Takes effect after reboot.
    fn set_ap_gateway_ip(&self, ip: &str) -> (r: Progress)
        ensures
            !fits(ip@, 64) ==> r == rejected(),
            fits(ip@, 64) ==> (r matches Progress::Store(WifiTask::ApGatewayIp(t)) && text64(t)
                == ip@),
    ;

    /// Enable or disable the Station interface.
    fn set_sta_enabled(&self, enabled: bool) -> (r: Progress)
        ensures
            r == Progress::Store(WifiTask::StaEnabled(enabled)),
    ;

    /// Add a new Station network to the saved list.
    fn add_sta_network(&self, ssid: &str, password: Option<&str>) -> (r: Progress)
        ensures
            !network_fits(ssid, password) || self.config().networks.len() >= N ==> r
                == rejected(),
            network_fits(ssid, password) && self.config().networks.len() < N ==> (r matches
                Progress::Store(WifiTask::AddSsid { network, index, connect }) && says(
                network,
                ssid,
                password,
            ) && index == self.config().networks.len() && !connect),
    ;

    /// Save a new STA network and immediately request a connection to it.
    fn add_and_connect_sta_network(&self, ssid: &str, password: Option<&str>) -> (r: Progress)
        ensures
            !network_fits(ssid, password) || self.config().networks.len() >= N ==> r
                == rejected(),
            network_fits(ssid, password) && self.config().networks.len() < N ==> (r matches
                Progress::Store(WifiTask::AddSsid { network, index, connect }) && says(
                network,
                ssid,
                password,
            ) && index == self.config().networks.len() && connect),
    ;

    /// Remove a Station network by its index in the saved list. The slots in flash are then
    /// written anew.
    fn remove_sta_network(&mut self, index: usize) -> (r: Progress)
        ensures
            index >= old(self).config().networks.len() ==> r == rejected()
                && final(self).config() == old(self).config(),
            index < old(self).config().networks.len() ==> {
                &&& final(self).config() == ConfigView {
                    networks: old(self).config().networks.remove(index as int),
                    ..old(self).config()
                }
                &&& r matches Progress::Store(WifiTask::RewriteSsid { networks, index: first })
                &&& network_views(networks@) == final(self).config().networks
                &&& first == 0
            },
    ;

    /// Set the 2-character ISO country code. Triggers a software reset on success.
    fn set_country_code(&self, code: &str) -> (r: Progress)
        ensures
            code@.len() != 2 || !code.is_ascii() ==> r == rejected(),
            code@.len() == 2 && code.is_ascii() ==> (r matches Progress::Store(
                WifiTask::CountryCode(t),
            ) && text64(t) == code@),
    ;

    /// Set the device hostname. Triggers a software reset on success.
    fn set_hostname(&self, hostname: &str) -> (r: Progress)
        ensures
            !fits(hostname@, 64) ==> r == rejected(),
            fits(hostname@, 64) ==> (r matches Progress::Store(WifiTask::Hostname(t))
                && text64(t) == hostname@),
    ;
}

} // verus!
