//! The WiFi configuration kept in flash: its mirror in RAM, and the changes to it.
use crate::flash::{opt_text, FlashReply};
use crate::keys::MAX_SLOTS;
use crate::signals::{
    notify_ap_toggled, notify_sta_toggled, request_ap_reconfig, request_connect,
};
use crate::text::{str64, try_text64};
use crate::wifi_api::{
    clone_networks, clone_opt, country_bytes, network_fits, network_views, plans_password, says,
    ConfigView, StaNetwork, WifiConfig, WifiManager,
};
use crate::wifi_boot::{at_slot, loaded_step, LoadProgress, LoadStage, LoadTask, Missing};
use crate::wifi_task::{
    accepted, go_on_after_ssid, rejected, resumed, with_network, PasswordPlan, Progress, WifiTask,
};
use vstd::prelude::*;

verus! {

/// Values built into the firmware for fields that flash does not hold yet.
#[derive(Clone, Copy, Debug)]
pub struct WifiDefaults {
    pub ap_ssid: Option<&'static str>,
    pub ap_password: Option<&'static str>,
    pub ap_gateway_ip: Option<&'static str>,
    pub sta_ssid: Option<&'static str>,
    pub sta_password: Option<&'static str>,
    pub hostname: Option<&'static str>,
    pub country_code: Option<&'static str>,
}

/// A WiFi configuration in RAM, with room for `N` networks: the mirror of what flash holds, or a
/// snapshot of it.
pub struct WifiConfigData<const N: usize> {
    pub ap_enabled: bool,
    pub ap_ssid: Option<heapless::String<64>>,
    pub ap_password: Option<heapless::String<64>>,
    pub ap_gateway_ip: Option<heapless::String<64>>,
    pub sta_enabled: bool,
    pub hostname: Option<heapless::String<64>>,
    pub country_code: Option<heapless::String<64>>,
    pub sta_networks: Vec<StaNetwork>,
}

impl<const N: usize> View for WifiConfigData<N> {
    type V = ConfigView;

    open spec fn view(&self) -> ConfigView {
        ConfigView {
            ap_enabled: self.ap_enabled,
            ap_ssid: opt_text(self.ap_ssid),
            ap_password: opt_text(self.ap_password),
            ap_gateway_ip: opt_text(self.ap_gateway_ip),
            sta_enabled: self.sta_enabled,
            hostname: opt_text(self.hostname),
            country_code: opt_text(self.country_code),
            networks: network_views(self.sta_networks@),
        }
    }
}

/// The mirror before flash has been read.
pub open spec fn fresh_config(defaults: WifiDefaults) -> ConfigView {
    ConfigView {
        ap_enabled: defaults.ap_ssid is Some,
        ap_ssid: None,
        ap_password: None,
        ap_gateway_ip: None,
        sta_enabled: defaults.sta_ssid is Some,
        hostname: None,
        country_code: None,
        networks: Seq::empty(),
    }
}

impl<const N: usize> WifiConfigData<N> {
    pub fn new(defaults: &WifiDefaults) -> (r: WifiConfigData<N>)
        ensures
            r@ == fresh_config(*defaults),
    {
        let r = WifiConfigData {
            ap_enabled: defaults.ap_ssid.is_some(),
            ap_ssid: None,
            ap_password: None,
            ap_gateway_ip: None,
            sta_enabled: defaults.sta_ssid.is_some(),
            hostname: None,
            country_code: None,
            sta_networks: Vec::new(),
        };
        assert(network_views(r.sta_networks@) =~= Seq::empty());
        r
    }
}

/// A flash-backed WiFi configuration with room for `N` saved networks.
///
/// It holds the mirror in RAM. On first boot the defaults built into the firmware are used and
/// written out; what is set up already keeps its value, and a list of networks that was emptied
/// stays empty.
pub struct FlashBackedWifiConfig<const N: usize> {
    data: WifiConfigData<N>,
}

impl<const N: usize> View for FlashBackedWifiConfig<N> {
    type V = ConfigView;

    closed spec fn view(&self) -> ConfigView {
        self.data@
    }
}

impl<const N: usize> FlashBackedWifiConfig<N> {
    /// At most `N` networks are saved, and each slot has keys of its own.
    pub open spec fn wf(&self) -> bool {
        &&& N <= MAX_SLOTS
        &&& self@.networks.len() <= N
    }

    /// The configuration before flash has been read.
    pub fn new(defaults: &WifiDefaults) -> (r: FlashBackedWifiConfig<N>)
        ensures
            r@ == fresh_config(*defaults),
            N <= MAX_SLOTS ==> r.wf(),
    {
        FlashBackedWifiConfig { data: WifiConfigData::new(defaults) }
    }

    /// Goes on with a change after the write that `task` named: `stored` tells whether the
    /// write went through.
    pub fn resume(&mut self, task: WifiTask, stored: bool) -> (r: Progress)
        requires
            old(self).wf(),
            task.in_range(N as int),
        ensures
            (final(self)@, r) == resumed(task, old(self)@, stored, N as int),
            final(self).wf(),
            r matches Progress::Store(next) ==> next.in_range(N as int),
    {
        let failed = Progress::Done { accepted: false, signal: None };
        match task {
            WifiTask::ApEnabled(b) => {
                if !stored {
                    return failed;
                }
                self.data.ap_enabled = b;
                Progress::Done { accepted: true, signal: Some(notify_ap_toggled()) }
            },
            WifiTask::ApSsid(t) => {
                if !stored {
                    return failed;
                }
                self.data.ap_ssid = Some(t);
                Progress::Done { accepted: true, signal: Some(request_ap_reconfig()) }
            },
            WifiTask::ApPassword(t) => {
                if !stored {
                    return failed;
                }
                self.data.ap_password = Some(t);
                Progress::Done { accepted: true, signal: Some(request_ap_reconfig()) }
            },
            WifiTask::ApGatewayIp(t) => {
                if !stored {
                    return failed;
                }
                self.data.ap_gateway_ip = Some(t);
                Progress::Reset
            },
            WifiTask::StaEnabled(b) => {
                if !stored {
                    return failed;
                }
                self.data.sta_enabled = b;
                Progress::Done { accepted: true, signal: Some(notify_sta_toggled()) }
            },
            WifiTask::CountryCode(t) => {
                if !stored {
                    return failed;
                }
                self.data.country_code = Some(t);
                Progress::Reset
            },
            WifiTask::Hostname(t) => {
                if !stored {
                    return failed;
                }
                self.data.hostname = Some(t);
                Progress::Reset
            },
            WifiTask::ConfigureSsid { ssid, plan } => {
                if stored {
                    self.data.ap_ssid = Some(ssid);
                }
                go_on_after_ssid(stored, plan)
            },
            WifiTask::ConfigurePassword { ssid_ok, password } => {
                if stored {
                    self.data.ap_password = Some(password);
                }
                if ssid_ok && stored {
                    Progress::Done { accepted: true, signal: Some(request_ap_reconfig()) }
                } else {
                    failed
                }
            },
            WifiTask::AddSsid { network, index, connect } => {
                if !stored {
                    return failed;
                }
                Progress::Store(WifiTask::AddPassword { network, index, connect })
            },
            WifiTask::AddPassword { network, index, connect } => {
                if !stored {
                    return failed;
                }
                self.push_network(network);
                if connect {
                    let len = self.data.sta_networks.len();
                    let last: usize = if len > 0 {
                        len - 1
                    } else {
                        0
                    };
                    Progress::Done { accepted: true, signal: Some(request_connect(last)) }
                } else {
                    Progress::Done { accepted: true, signal: None }
                }
            },
            WifiTask::RewriteSsid { networks, index } => {
                if !stored {
                    return failed;
                }
                Progress::Store(WifiTask::RewritePassword { networks, index })
            },
            WifiTask::RewritePassword { networks, index } => {
                if !stored {
                    return failed;
                }
                if index + 1 < N {
                    Progress::Store(WifiTask::RewriteSsid { networks, index: index + 1 })
                } else {
                    Progress::Done { accepted: true, signal: None }
                }
            },
            WifiTask::DefaultApEnabled(_) => Progress::Done { accepted: stored, signal: None },
            WifiTask::DefaultStaEnabled(_) => Progress::Done { accepted: stored, signal: None },
            WifiTask::DefaultApSsid(t) => {
                if stored {
                    self.data.ap_ssid = Some(t);
                }
                Progress::Done { accepted: stored, signal: None }
            },
            WifiTask::DefaultApPassword(t) => {
                if stored {
                    self.data.ap_password = Some(t);
                }
                Progress::Done { accepted: stored, signal: None }
            },
            WifiTask::DefaultApGatewayIp(t) => {
                if stored {
                    self.data.ap_gateway_ip = Some(t);
                }
                Progress::Done { accepted: stored, signal: None }
            },
            WifiTask::DefaultStaSsid(network) => {
                if !stored {
                    return failed;
                }
                Progress::Store(WifiTask::DefaultStaPassword(network))
            },
            WifiTask::DefaultStaPassword(network) => {
                if !stored {
                    return failed;
                }
                self.push_network(network);
                self.data.sta_enabled = true;
                Progress::Store(WifiTask::DefaultStaSwitch)
            },
            WifiTask::DefaultStaSwitch => Progress::Done { accepted: stored, signal: None },
            WifiTask::DefaultHostname(t) => {
                if stored {
                    self.data.hostname = Some(t);
                }
                Progress::Done { accepted: stored, signal: None }
            },
            WifiTask::DefaultCountryCode(t) => {
                if stored {
                    self.data.country_code = Some(t);
                }
                Progress::Done { accepted: stored, signal: None }
            },
        }
    }

    /// Saves a network at the end of the list; a full list stays as it is.
    pub(crate) fn push_network(&mut self, network: StaNetwork)
        ensures
            final(self)@ == (ConfigView {
                networks: with_network(old(self)@.networks, network@, N as int),
                ..old(self)@
            }),
    {
        if self.data.sta_networks.len() < N {
            self.data.sta_networks.push(network);
            assert(self@.networks =~= old(self)@.networks.push(network@));
        }
    }
}

impl<const N: usize> FlashBackedWifiConfig<N> {
    /// Goes on with a load after the fetch that `task` named.
    pub fn resume_load(&mut self, task: LoadTask, reply: FlashReply) -> (r: LoadProgress)
        requires
            old(self).wf(),
            task.in_range(N as int),
            task.takes(reply),
        ensures
            (final(self)@, r) == loaded_step(task, old(self)@, reply, N as int),
            final(self).wf(),
            r matches LoadProgress::Fetch(next) ==> next.in_range(N as int),
    {
        let ap_enabled_missing = task.ap_enabled_missing;
        let sta_enabled_missing = task.sta_enabled_missing;
        let list_missing = task.list_missing;
        let next: LoadStage = match (task.stage, reply) {
            (LoadStage::ApEnabled, FlashReply::Flag(f)) => {
                if let Some(b) = f {
                    self.data.ap_enabled = b;
                }
                return LoadProgress::Fetch(
                    LoadTask {
                        stage: LoadStage::StaEnabled,
                        ap_enabled_missing: f.is_none(),
                        sta_enabled_missing,
                        list_missing,
                    },
                );
            },
            (LoadStage::StaEnabled, FlashReply::Flag(f)) => {
                if let Some(b) = f {
                    self.data.sta_enabled = b;
                }
                return LoadProgress::Fetch(
                    LoadTask {
                        stage: LoadStage::ApSsid,
                        ap_enabled_missing,
                        sta_enabled_missing: f.is_none(),
                        list_missing,
                    },
                );
            },
            (LoadStage::ApSsid, FlashReply::Text(t)) => {
                if t.is_some() {
                    self.data.ap_ssid = t;
                }
                LoadStage::ApPassword
            },
            (LoadStage::ApPassword, FlashReply::Text(t)) => {
                if t.is_some() {
                    self.data.ap_password = t;
                }
                LoadStage::ApGatewayIp
            },
            (LoadStage::ApGatewayIp, FlashReply::Text(t)) => {
                if t.is_some() {
                    self.data.ap_gateway_ip = t;
                }
                LoadStage::Hostname
            },
            (LoadStage::Hostname, FlashReply::Text(t)) => {
                if t.is_some() {
                    self.data.hostname = t;
                }
                LoadStage::CountryCode
            },
            (LoadStage::CountryCode, FlashReply::Text(t)) => {
                if t.is_some() {
                    self.data.country_code = t;
                }
                return self.load_from_slot(
                    0,
                    ap_enabled_missing,
                    sta_enabled_missing,
                    sta_enabled_missing,
                );
            },
            (LoadStage::SlotSsid { index }, FlashReply::Text(t)) => {
                let list_missing = if index == 0 {
                    t.is_none()
                } else {
                    list_missing
                };
                if let Some(ssid) = t {
                    if !str64(&ssid).is_empty() {
                        return LoadProgress::Fetch(
                            LoadTask {
                                stage: LoadStage::SlotPassword { index, ssid },
                                ap_enabled_missing,
                                sta_enabled_missing,
                                list_missing,
                            },
                        );
                    }
                }
                return self.load_from_slot(
                    index + 1,
                    ap_enabled_missing,
                    sta_enabled_missing,
                    list_missing,
                );
            },
            (LoadStage::SlotPassword { index, ssid }, FlashReply::Text(t)) => {
                let password = match t {
                    Some(p) => {
                        if str64(&p).is_empty() {
                            None
                        } else {
                            Some(p)
                        }
                    },
                    None => None,
                };
                self.push_network(StaNetwork { ssid, password });
                return self.load_from_slot(
                    index + 1,
                    ap_enabled_missing,
                    sta_enabled_missing,
                    list_missing,
                );
            },
            (stage, _) => stage,
        };
        LoadProgress::Fetch(
            LoadTask { stage: next, ap_enabled_missing, sta_enabled_missing, list_missing },
        )
    }

    fn load_from_slot(
        &self,
        index: usize,
        ap_enabled_missing: bool,
        sta_enabled_missing: bool,
        list_missing: bool,
    ) -> (r: LoadProgress)
        ensures
            forall|task: LoadTask|
                task.ap_enabled_missing == ap_enabled_missing && task.sta_enabled_missing
                    == sta_enabled_missing && task.list_missing == list_missing ==> r
                    == #[trigger] at_slot(
                    task,
                    self@,
                    index as int,
                    N as int,
                ),
    {
        if index < N {
            return LoadProgress::Fetch(
                LoadTask {
                    stage: LoadStage::SlotSsid { index },
                    ap_enabled_missing,
                    sta_enabled_missing,
                    list_missing,
                },
            );
        }
        LoadProgress::Loaded(
            Missing {
                ap_enabled: ap_enabled_missing,
                sta_enabled: sta_enabled_missing,
                ap_ssid: self.data.ap_ssid.is_none(),
                ap_password: self.data.ap_password.is_none(),
                ap_gateway_ip: self.data.ap_gateway_ip.is_none(),
                sta_networks: list_missing && self.data.sta_networks.len() == 0,
                hostname: self.data.hostname.is_none(),
                country_code: self.data.country_code.is_none(),
            },
        )
    }
}

impl<const N: usize> WifiConfig<N> for WifiConfigData<N> {
    open spec fn config(&self) -> ConfigView {
        self@
    }

    fn is_ap_enabled(&self) -> bool {
        self.ap_enabled
    }

    fn ap_ssid(&self) -> Option<heapless::String<64>> {
        clone_opt(&self.ap_ssid)
    }

    fn ap_password(&self) -> Option<heapless::String<64>> {
        clone_opt(&self.ap_password)
    }

    fn ap_gateway_ip(&self) -> Option<heapless::String<64>> {
        clone_opt(&self.ap_gateway_ip)
    }

    fn is_sta_enabled(&self) -> bool {
        self.sta_enabled
    }

    fn sta_networks(&self) -> Vec<StaNetwork> {
        clone_networks(&self.sta_networks)
    }

    fn hostname(&self) -> Option<heapless::String<64>> {
        clone_opt(&self.hostname)
    }

    fn country_code(&self) -> [u8; 2] {
        let mut r: [u8; 2] = [48, 49];
        if let Some(code) = &self.country_code {
            let b = str64(code).as_bytes();
            if b.len() > 0 {
                r[0] = b[0];
            }
            if b.len() > 1 {
                r[1] = b[1];
            }
        }
        assert(r@ =~= country_bytes(self@.country_code));
        r
    }
}

impl<const N: usize> WifiConfig<N> for FlashBackedWifiConfig<N> {
    open spec fn config(&self) -> ConfigView {
        self@
    }

    fn is_ap_enabled(&self) -> bool {
        self.data.is_ap_enabled()
    }

    fn ap_ssid(&self) -> Option<heapless::String<64>> {
        self.data.ap_ssid()
    }

    fn ap_password(&self) -> Option<heapless::String<64>> {
        self.data.ap_password()
    }

    fn ap_gateway_ip(&self) -> Option<heapless::String<64>> {
        self.data.ap_gateway_ip()
    }

    fn is_sta_enabled(&self) -> bool {
        self.data.is_sta_enabled()
    }

    fn sta_networks(&self) -> Vec<StaNetwork> {
        self.data.sta_networks()
    }

    fn hostname(&self) -> Option<heapless::String<64>> {
        self.data.hostname()
    }

    fn country_code(&self) -> [u8; 2] {
        self.data.country_code()
    }
}

fn plan_password(password: Option<&str>) -> (plan: PasswordPlan)
    ensures
        plans_password(password, plan),
{
    match password {
        None => PasswordPlan::Keep,
        Some(p) => match try_text64(p) {
            Ok(t) => PasswordPlan::Replace(t),
            Err(_) => PasswordPlan::TooLong,
        },
    }
}

fn make_network(ssid: &str, password: Option<&str>) -> (r: Option<StaNetwork>)
    ensures
        r is Some <==> network_fits(ssid, password),
        r matches Some(network) ==> says(network, ssid, password),
{
    let ssid = match try_text64(ssid) {
        Ok(t) => t,
        Err(_) => return None,
    };
    match password {
        None => Some(StaNetwork { ssid, password: None }),
        Some(p) => match try_text64(p) {
            Ok(t) => Some(StaNetwork { ssid, password: Some(t) }),
            Err(_) => None,
        },
    }
}

impl<const N: usize> FlashBackedWifiConfig<N> {
    fn start_add(&self, ssid: &str, password: Option<&str>, connect: bool) -> (r: Progress)
        ensures
            !network_fits(ssid, password) || self@.networks.len() >= N ==> r == rejected(),
            network_fits(ssid, password) && self@.networks.len() < N ==> (r matches
                Progress::Store(WifiTask::AddSsid { network, index, connect: c }) && says(
                network,
                ssid,
                password,
            ) && index == self@.networks.len() && c == connect),
    {
        match make_network(ssid, password) {
            None => Progress::Done { accepted: false, signal: None },
            Some(network) => {
                let index = self.data.sta_networks.len();
                if index >= N {
                    Progress::Done { accepted: false, signal: None }
                } else {
                    Progress::Store(WifiTask::AddSsid { network, index, connect })
                }
            },
        }
    }
}

impl<const N: usize> WifiManager<N> for FlashBackedWifiConfig<N> {
    fn set_ap_enabled(&self, enabled: bool) -> Progress {
        Progress::Store(WifiTask::ApEnabled(enabled))
    }

    fn set_ap_ssid(&self, ssid: &str) -> Progress {
        match try_text64(ssid) {
            Ok(t) => Progress::Store(WifiTask::ApSsid(t)),
            Err(_) => Progress::Done { accepted: false, signal: None },
        }
    }

    fn set_ap_password(&self, password: &str) -> Progress {
        match try_text64(password) {
            Ok(t) => Progress::Store(WifiTask::ApPassword(t)),
            Err(_) => Progress::Done { accepted: false, signal: None },
        }
    }

    fn configure_ap(&self, ssid: Option<&str>, password: Option<&str>) -> Progress {
        let plan = plan_password(password);
        match ssid {
            Some(s) => match try_text64(s) {
                Ok(t) => Progress::Store(WifiTask::ConfigureSsid { ssid: t, plan }),
                Err(_) => go_on_after_ssid(false, plan),
            },
            None => go_on_after_ssid(true, plan),
        }
    }

    fn set_ap_gateway_ip(&self, ip: &str) -> Progress {
        match try_text64(ip) {
            Ok(t) => Progress::Store(WifiTask::ApGatewayIp(t)),
            Err(_) => Progress::Done { accepted: false, signal: None },
        }
    }

    fn set_sta_enabled(&self, enabled: bool) -> Progress {
        Progress::Store(WifiTask::StaEnabled(enabled))
    }

    fn add_sta_network(&self, ssid: &str, password: Option<&str>) -> Progress {
        self.start_add(ssid, password, false)
    }

    fn add_and_connect_sta_network(&self, ssid: &str, password: Option<&str>) -> Progress {
        self.start_add(ssid, password, true)
    }

    fn remove_sta_network(&mut self, index: usize) -> Progress {
        if index >= self.data.sta_networks.len() {
            return Progress::Done { accepted: false, signal: None };
        }
        self.data.sta_networks.remove(index);
        assert(self@.networks =~= old(self)@.networks.remove(index as int));
        let networks = clone_networks(&self.data.sta_networks);
        Progress::Store(WifiTask::RewriteSsid { networks, index: 0 })
    }

    fn set_country_code(&self, code: &str) -> Progress {
        proof {
            if code.is_ascii() {
                vstd::utf8::is_ascii_chars_encode_utf8(code@);
            }
        }
        if code.as_bytes().len() != 2 || !code.is_ascii() {
            return Progress::Done { accepted: false, signal: None };
        }
        match try_text64(code) {
            Ok(t) => Progress::Store(WifiTask::CountryCode(t)),
            Err(_) => Progress::Done { accepted: false, signal: None },
        }
    }

    fn set_hostname(&self, hostname: &str) -> Progress {
        match try_text64(hostname) {
            Ok(t) => Progress::Store(WifiTask::Hostname(t)),
            Err(_) => Progress::Done { accepted: false, signal: None },
        }
    }
}

} // verus!
