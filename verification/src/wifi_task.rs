//! Changes to the WiFi configuration that wait for flash.
//!
//! A change runs as a task. Each task names one write to the store; the caller performs it and
//! hands the outcome to [`crate::wifi_config::FlashBackedWifiConfig::resume`], which updates
//! the mirror and names the next write, or reports how the change ended.
use crate::flash::{opt_text, FlashItem, FlashValue};
use crate::keys::{
    pw_key, ssid_key, sta_pw_key, sta_ssid_key, KEY_AP_ENABLED, KEY_AP_GATEWAY_IP,
    KEY_AP_PASSWORD, KEY_AP_SSID, KEY_COUNTRY_CODE, KEY_HOSTNAME, KEY_STA_ENABLED, MAX_SLOTS,
};
use crate::signals::{request_ap_reconfig, WifiSignal};
use crate::text::{clone64, empty64, text64};
use crate::wifi_api::{network_views, ConfigView, NetworkView, StaNetwork};
use vstd::prelude::*;

verus! {

/// What is to become of the password in [`WifiTask::ConfigureSsid`].
pub enum PasswordPlan {
    /// No password was given.
    Keep,
    /// The password given does not fit.
    TooLong,
    Replace(heapless::String<64>),
}

/// A change that waits for the outcome of one write to flash.
pub enum WifiTask {
    ApEnabled(bool),
    ApSsid(heapless::String<64>),
    ApPassword(heapless::String<64>),
    ApGatewayIp(heapless::String<64>),
    StaEnabled(bool),
    CountryCode(heapless::String<64>),
    Hostname(heapless::String<64>),
    /// Setting SSID and password of the access point: the SSID.
    ConfigureSsid { ssid: heapless::String<64>, plan: PasswordPlan },
    /// Setting SSID and password of the access point: the password.
    ConfigurePassword { ssid_ok: bool, password: heapless::String<64> },
    /// Adding a network in slot `index`: its SSID.
    AddSsid { network: StaNetwork, index: usize, connect: bool },
    /// Adding a network in slot `index`: its password.
    AddPassword { network: StaNetwork, index: usize, connect: bool },
    /// Writing `networks` over all slots: the SSID of slot `index`.
    RewriteSsid { networks: Vec<StaNetwork>, index: usize },
    /// Writing `networks` over all slots: the password of slot `index`.
    RewritePassword { networks: Vec<StaNetwork>, index: usize },
    /// First boot: the access point's switch.
    DefaultApEnabled(bool),
    /// First boot: the station's switch.
    DefaultStaEnabled(bool),
    /// First boot: the access point's SSID.
    DefaultApSsid(heapless::String<64>),
    /// First boot: the access point's password.
    DefaultApPassword(heapless::String<64>),
    /// First boot: the access point's address.
    DefaultApGatewayIp(heapless::String<64>),
    /// First boot: the SSID of the built-in network, in slot 0.
    DefaultStaSsid(StaNetwork),
    /// First boot: the password of the built-in network, in slot 0.
    DefaultStaPassword(StaNetwork),
    /// First boot: switching the station on for the built-in network.
    DefaultStaSwitch,
    /// First boot: the hostname.
    DefaultHostname(heapless::String<64>),
    /// First boot: the country code.
    DefaultCountryCode(heapless::String<64>),
}

/// A password as flash holds it: none is stored as the empty text.
pub open spec fn stored_password(password: Option<Seq<char>>) -> Seq<char> {
    match password {
        Some(p) => p,
        None => Seq::empty(),
    }
}

/// The network that [`WifiTask::RewriteSsid`] puts in a slot; slots past the list are blank.
pub open spec fn slot_view(networks: Seq<NetworkView>, i: int) -> NetworkView {
    if i < networks.len() {
        networks[i]
    } else {
        NetworkView { ssid: Seq::empty(), password: None }
    }
}

impl WifiTask {
    /// Whether the slot that the task writes is one of `n`.
    pub open spec fn in_range(self, n: int) -> bool {
        match self {
            WifiTask::AddSsid { index, .. } => index < n,
            WifiTask::AddPassword { index, .. } => index < n,
            WifiTask::RewriteSsid { index, .. } => index < n,
            WifiTask::RewritePassword { index, .. } => index < n,
            _ => true,
        }
    }

    /// The key that the task writes.
    pub open spec fn write_key(self) -> u8 {
        match self {
            WifiTask::ApEnabled(_) | WifiTask::DefaultApEnabled(_) => KEY_AP_ENABLED,
            WifiTask::ApSsid(_) | WifiTask::ConfigureSsid { .. } | WifiTask::DefaultApSsid(
                _,
            ) => KEY_AP_SSID,
            WifiTask::ApPassword(_) | WifiTask::ConfigurePassword {
                ..
            } | WifiTask::DefaultApPassword(_) => KEY_AP_PASSWORD,
            WifiTask::ApGatewayIp(_) | WifiTask::DefaultApGatewayIp(_) => KEY_AP_GATEWAY_IP,
            WifiTask::StaEnabled(_) | WifiTask::DefaultStaEnabled(_)
            | WifiTask::DefaultStaSwitch => KEY_STA_ENABLED,
            WifiTask::CountryCode(_) | WifiTask::DefaultCountryCode(_) => KEY_COUNTRY_CODE,
            WifiTask::Hostname(_) | WifiTask::DefaultHostname(_) => KEY_HOSTNAME,
            WifiTask::AddSsid { index, .. } | WifiTask::RewriteSsid { index, .. } => ssid_key(
                index as int,
            ),
            WifiTask::AddPassword { index, .. } | WifiTask::RewritePassword {
                index,
                ..
            } => pw_key(index as int),
            WifiTask::DefaultStaSsid(_) => ssid_key(0),
            WifiTask::DefaultStaPassword(_) => pw_key(0),
        }
    }

    /// The item that the task writes.
    pub open spec fn write_item(self) -> FlashItem {
        match self {
            WifiTask::ApEnabled(b) | WifiTask::StaEnabled(b) | WifiTask::DefaultApEnabled(b)
            | WifiTask::DefaultStaEnabled(b) => FlashItem::Flag(b),
            WifiTask::DefaultStaSwitch => FlashItem::Flag(true),
            WifiTask::ApSsid(t) | WifiTask::ApPassword(t) | WifiTask::ApGatewayIp(t)
            | WifiTask::CountryCode(t) | WifiTask::Hostname(t) | WifiTask::DefaultApSsid(t)
            | WifiTask::DefaultApPassword(t) | WifiTask::DefaultApGatewayIp(t)
            | WifiTask::DefaultHostname(t) | WifiTask::DefaultCountryCode(t) => FlashItem::Text(
                text64(t),
            ),
            WifiTask::ConfigureSsid { ssid, .. } => FlashItem::Text(text64(ssid)),
            WifiTask::ConfigurePassword { password, .. } => FlashItem::Text(text64(password)),
            WifiTask::AddSsid { network, .. } | WifiTask::DefaultStaSsid(
                network,
            ) => FlashItem::Text(network@.ssid),
            WifiTask::AddPassword { network, .. } | WifiTask::DefaultStaPassword(
                network,
            ) => FlashItem::Text(stored_password(network@.password)),
            WifiTask::RewriteSsid { networks, index } => FlashItem::Text(
                slot_view(network_views(networks@), index as int).ssid,
            ),
            WifiTask::RewritePassword { networks, index } => FlashItem::Text(
                stored_password(slot_view(network_views(networks@), index as int).password),
            ),
        }
    }

    /// The key to write.
    pub fn key(&self) -> (key: u8)
        requires
            self.in_range(MAX_SLOTS as int),
        ensures
            key == self.write_key(),
    {
        match self {
            WifiTask::ApEnabled(_) | WifiTask::DefaultApEnabled(_) => KEY_AP_ENABLED,
            WifiTask::ApSsid(_) | WifiTask::ConfigureSsid { .. } | WifiTask::DefaultApSsid(
                _,
            ) => KEY_AP_SSID,
            WifiTask::ApPassword(_) | WifiTask::ConfigurePassword {
                ..
            } | WifiTask::DefaultApPassword(_) => KEY_AP_PASSWORD,
            WifiTask::ApGatewayIp(_) | WifiTask::DefaultApGatewayIp(_) => KEY_AP_GATEWAY_IP,
            WifiTask::StaEnabled(_) | WifiTask::DefaultStaEnabled(_)
            | WifiTask::DefaultStaSwitch => KEY_STA_ENABLED,
            WifiTask::CountryCode(_) | WifiTask::DefaultCountryCode(_) => KEY_COUNTRY_CODE,
            WifiTask::Hostname(_) | WifiTask::DefaultHostname(_) => KEY_HOSTNAME,
            WifiTask::AddSsid { index, .. } => sta_ssid_key(*index),
            WifiTask::RewriteSsid { index, .. } => sta_ssid_key(*index),
            WifiTask::AddPassword { index, .. } => sta_pw_key(*index),
            WifiTask::RewritePassword { index, .. } => sta_pw_key(*index),
            WifiTask::DefaultStaSsid(_) => sta_ssid_key(0),
            WifiTask::DefaultStaPassword(_) => sta_pw_key(0),
        }
    }

    /// The value to write.
    pub fn value(&self) -> (value: FlashValue)
        ensures
            value.item() == self.write_item(),
    {
        match self {
            WifiTask::ApEnabled(b) | WifiTask::StaEnabled(b) | WifiTask::DefaultApEnabled(b)
            | WifiTask::DefaultStaEnabled(b) => FlashValue::Flag(*b),
            WifiTask::DefaultStaSwitch => FlashValue::Flag(true),
            WifiTask::ApSsid(t) | WifiTask::ApPassword(t) | WifiTask::ApGatewayIp(t)
            | WifiTask::CountryCode(t) | WifiTask::Hostname(t) | WifiTask::DefaultApSsid(t)
            | WifiTask::DefaultApPassword(t) | WifiTask::DefaultApGatewayIp(t)
            | WifiTask::DefaultHostname(t) | WifiTask::DefaultCountryCode(t) => FlashValue::Text(
                clone64(t),
            ),
            WifiTask::ConfigureSsid { ssid, .. } => FlashValue::Text(clone64(ssid)),
            WifiTask::ConfigurePassword { password, .. } => FlashValue::Text(clone64(password)),
            WifiTask::AddSsid { network, .. } => FlashValue::Text(clone64(&network.ssid)),
            WifiTask::DefaultStaSsid(network) => FlashValue::Text(clone64(&network.ssid)),
            WifiTask::AddPassword { network, .. } => password_value(&network.password),
            WifiTask::DefaultStaPassword(network) => password_value(&network.password),
            WifiTask::RewriteSsid { networks, index } => {
                if *index < networks.len() {
                    FlashValue::Text(clone64(&networks[*index].ssid))
                } else {
                    FlashValue::Text(empty64())
                }
            },
            WifiTask::RewritePassword { networks, index } => {
                if *index < networks.len() {
                    password_value(&networks[*index].password)
                } else {
                    FlashValue::Text(empty64())
                }
            },
        }
    }
}

fn password_value(password: &Option<heapless::String<64>>) -> (value: FlashValue)
    ensures
        value.item() == FlashItem::Text(stored_password(opt_text(*password))),
{
    match password {
        Some(p) => FlashValue::Text(clone64(p)),
        None => FlashValue::Text(empty64()),
    }
}

/// How far a change has come.
pub enum Progress {
    /// The write that the task names comes next.
    Store(WifiTask),
    /// The change is over: whether it was accepted, and the signal to raise.
    Done { accepted: bool, signal: Option<WifiSignal> },
    /// The change is over and takes effect by a software reset.
    Reset,
}

/// A change that was turned down.
pub open spec fn rejected() -> Progress {
    Progress::Done { accepted: false, signal: None }
}

/// A change that went through, with the signal to raise.
pub open spec fn accepted(signal: Option<WifiSignal>) -> Progress {
    Progress::Done { accepted: true, signal }
}

/// A list of networks with one more at its end, as far as there is room for `n`.
pub open spec fn with_network(
    networks: Seq<NetworkView>,
    network: NetworkView,
    n: int,
) -> Seq<NetworkView> {
    if networks.len() < n {
        networks.push(network)
    } else {
        networks
    }
}

/// The index of the last of `len` networks, or zero.
pub open spec fn last_index(len: int) -> usize {
    if len > 0 {
        (len - 1) as usize
    } else {
        0
    }
}

/// The mirror and the progress after the write of `task` ended, in a configuration with `n`
/// slots. A change reaches the mirror only after its write went through; the one exception is a
/// removal, for which the mirror loses the network before the first write, and keeps the loss
/// where a write fails.
pub open spec fn resumed(task: WifiTask, data: ConfigView, stored: bool, n: int) -> (
    ConfigView,
    Progress,
) {
    match task {
        WifiTask::ApEnabled(b) => if stored {
            (ConfigView { ap_enabled: b, ..data }, accepted(Some(WifiSignal::ApReconfig)))
        } else {
            (data, rejected())
        },
        WifiTask::ApSsid(t) => if stored {
            (
                ConfigView { ap_ssid: Some(text64(t)), ..data },
                accepted(Some(WifiSignal::ApReconfig)),
            )
        } else {
            (data, rejected())
        },
        WifiTask::ApPassword(t) => if stored {
            (
                ConfigView { ap_password: Some(text64(t)), ..data },
                accepted(Some(WifiSignal::ApReconfig)),
            )
        } else {
            (data, rejected())
        },
        WifiTask::ApGatewayIp(t) => if stored {
            (ConfigView { ap_gateway_ip: Some(text64(t)), ..data }, Progress::Reset)
        } else {
            (data, rejected())
        },
        WifiTask::StaEnabled(b) => if stored {
            (ConfigView { sta_enabled: b, ..data }, accepted(Some(WifiSignal::StaToggled)))
        } else {
            (data, rejected())
        },
        WifiTask::CountryCode(t) => if stored {
            (ConfigView { country_code: Some(text64(t)), ..data }, Progress::Reset)
        } else {
            (data, rejected())
        },
        WifiTask::Hostname(t) => if stored {
            (ConfigView { hostname: Some(text64(t)), ..data }, Progress::Reset)
        } else {
            (data, rejected())
        },
        WifiTask::ConfigureSsid { ssid, plan } => (
            if stored {
                ConfigView { ap_ssid: Some(text64(ssid)), ..data }
            } else {
                data
            },
            after_ssid(stored, plan),
        ),
        WifiTask::ConfigurePassword { ssid_ok, password } => (
            if stored {
                ConfigView { ap_password: Some(text64(password)), ..data }
            } else {
                data
            },
            if ssid_ok && stored {
                accepted(Some(WifiSignal::ApReconfig))
            } else {
                rejected()
            },
        ),
        WifiTask::AddSsid { network, index, connect } => if stored {
            (data, Progress::Store(WifiTask::AddPassword { network, index, connect }))
        } else {
            (data, rejected())
        },
        WifiTask::AddPassword { network, index, connect } => if stored {
            let networks = with_network(data.networks, network@, n);
            (
                ConfigView { networks, ..data },
                accepted(
                    if connect {
                        Some(WifiSignal::Connect(last_index(networks.len() as int)))
                    } else {
                        None
                    },
                ),
            )
        } else {
            (data, rejected())
        },
        WifiTask::RewriteSsid { networks, index } => if stored {
            (data, Progress::Store(WifiTask::RewritePassword { networks, index }))
        } else {
            (data, rejected())
        },
        WifiTask::RewritePassword { networks, index } => if stored {
            (
                data,
                if index + 1 < n {
                    Progress::Store(
                        WifiTask::RewriteSsid { networks, index: (index + 1) as usize },
                    )
                } else {
                    accepted(None)
                },
            )
        } else {
            (data, rejected())
        },
        WifiTask::DefaultApEnabled(_) => (
            data,
            Progress::Done { accepted: stored, signal: None },
        ),
        WifiTask::DefaultStaEnabled(_) => (
            data,
            Progress::Done { accepted: stored, signal: None },
        ),
        WifiTask::DefaultApSsid(t) => if stored {
            (ConfigView { ap_ssid: Some(text64(t)), ..data }, accepted(None))
        } else {
            (data, rejected())
        },
        WifiTask::DefaultApPassword(t) => if stored {
            (ConfigView { ap_password: Some(text64(t)), ..data }, accepted(None))
        } else {
            (data, rejected())
        },
        WifiTask::DefaultApGatewayIp(t) => if stored {
            (ConfigView { ap_gateway_ip: Some(text64(t)), ..data }, accepted(None))
        } else {
            (data, rejected())
        },
        WifiTask::DefaultStaSsid(network) => if stored {
            (data, Progress::Store(WifiTask::DefaultStaPassword(network)))
        } else {
            (data, rejected())
        },
        WifiTask::DefaultStaPassword(network) => if stored {
            (
                ConfigView {
                    networks: with_network(data.networks, network@, n),
                    sta_enabled: true,
                    ..data
                },
                Progress::Store(WifiTask::DefaultStaSwitch),
            )
        } else {
            (data, rejected())
        },
        WifiTask::DefaultStaSwitch => (data, Progress::Done { accepted: stored, signal: None }),
        WifiTask::DefaultHostname(t) => if stored {
            (ConfigView { hostname: Some(text64(t)), ..data }, accepted(None))
        } else {
            (data, rejected())
        },
        WifiTask::DefaultCountryCode(t) => if stored {
            (ConfigView { country_code: Some(text64(t)), ..data }, accepted(None))
        } else {
            (data, rejected())
        },
    }
}

/// How setting SSID and password goes on once it is known whether the SSID was set.
pub open spec fn after_ssid(ssid_ok: bool, password: PasswordPlan) -> Progress {
    match password {
        PasswordPlan::Keep => if ssid_ok {
            accepted(Some(WifiSignal::ApReconfig))
        } else {
            rejected()
        },
        PasswordPlan::TooLong => rejected(),
        PasswordPlan::Replace(p) => Progress::Store(
            WifiTask::ConfigurePassword { ssid_ok, password: p },
        ),
    }
}

pub(crate) fn go_on_after_ssid(ssid_ok: bool, password: PasswordPlan) -> (r: Progress)
    ensures
        r == after_ssid(ssid_ok, password),
{
    match password {
        PasswordPlan::Keep => {
            if ssid_ok {
                Progress::Done { accepted: true, signal: Some(request_ap_reconfig()) }
            } else {
                Progress::Done { accepted: false, signal: None }
            }
        },
        PasswordPlan::TooLong => Progress::Done { accepted: false, signal: None },
        PasswordPlan::Replace(p) => Progress::Store(
            WifiTask::ConfigurePassword { ssid_ok, password: p },
        ),
    }
}

} // verus!
