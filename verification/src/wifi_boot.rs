//! Starting up: the mirror is filled from flash, and defaults go where flash holds nothing.
//!
//! Reading runs as a task, as changes do: each [`LoadTask`] names one fetch. Once everything
//! is read, [`default_task`] names the writes of a first boot, field by field.
use crate::flash::{flag_at, opt_text, text_at, Flash, FlashReply};
use crate::keys::{
    pw_key, ssid_key, sta_pw_key, sta_ssid_key, KEY_AP_ENABLED, KEY_AP_GATEWAY_IP,
    KEY_AP_PASSWORD, KEY_AP_SSID, KEY_COUNTRY_CODE, KEY_HOSTNAME, KEY_STA_ENABLED, MAX_SLOTS,
};
use crate::text::{fits, text64, try_text64};
use crate::wifi_api::{ConfigView, NetworkView, StaNetwork};
use crate::wifi_config::WifiDefaults;
use crate::wifi_task::{with_network, WifiTask};
use vstd::prelude::*;

verus! {

/// The field that a load reads next.
pub enum LoadStage {
    ApEnabled,
    StaEnabled,
    ApSsid,
    ApPassword,
    ApGatewayIp,
    Hostname,
    CountryCode,
    /// The SSID of slot `index`.
    SlotSsid { index: usize },
    /// The password of slot `index`, whose SSID is known.
    SlotPassword { index: usize, ssid: heapless::String<64> },
}

/// A load that waits for the answer to one fetch.
pub struct LoadTask {
    pub stage: LoadStage,
    /// Flash held no switch for the access point.
    pub ap_enabled_missing: bool,
    /// Flash held no switch for the station.
    pub sta_enabled_missing: bool,
    /// Flash held no list of networks: nothing was ever written to slot 0.
    pub list_missing: bool,
}

/// The fields that a load did not find.
#[derive(Clone, Copy, Debug, PartialEq, Eq, Structural)]
pub struct Missing {
    pub ap_enabled: bool,
    pub sta_enabled: bool,
    pub ap_ssid: bool,
    pub ap_password: bool,
    pub ap_gateway_ip: bool,
    pub sta_networks: bool,
    pub hostname: bool,
    pub country_code: bool,
}

/// How far a load has come.
pub enum LoadProgress {
    Fetch(LoadTask),
    Loaded(Missing),
}

impl LoadTask {
    pub open spec fn in_range(self, n: int) -> bool {
        match self.stage {
            LoadStage::SlotSsid { index } => index < n,
            LoadStage::SlotPassword { index, .. } => index < n,
            _ => true,
        }
    }

    /// Whether a flag is fetched, and no text.
    pub open spec fn fetches_flag(self) -> bool {
        self.stage is ApEnabled || self.stage is StaEnabled
    }

    pub open spec fn fetch_key(self) -> u8 {
        match self.stage {
            LoadStage::ApEnabled => KEY_AP_ENABLED,
            LoadStage::StaEnabled => KEY_STA_ENABLED,
            LoadStage::ApSsid => KEY_AP_SSID,
            LoadStage::ApPassword => KEY_AP_PASSWORD,
            LoadStage::ApGatewayIp => KEY_AP_GATEWAY_IP,
            LoadStage::Hostname => KEY_HOSTNAME,
            LoadStage::CountryCode => KEY_COUNTRY_CODE,
            LoadStage::SlotSsid { index } => ssid_key(index as int),
            LoadStage::SlotPassword { index, .. } => pw_key(index as int),
        }
    }

    /// Whether `reply` is of the kind that the fetch asks for.
    pub open spec fn takes(self, reply: FlashReply) -> bool {
        self.fetches_flag() == (reply is Flag)
    }

    /// Whether `reply` is what `flash` holds under the key that is fetched.
    pub open spec fn answered(self, reply: FlashReply, flash: Flash) -> bool {
        match reply {
            FlashReply::Flag(f) => self.fetches_flag() && f == flag_at(flash, self.fetch_key()),
            FlashReply::Text(t) => !self.fetches_flag() && opt_text(t) == text_at(
                flash,
                self.fetch_key(),
            ),
        }
    }

    /// The key to fetch.
    pub fn key(&self) -> (key: u8)
        requires
            self.in_range(MAX_SLOTS as int),
        ensures
            key == self.fetch_key(),
    {
        match &self.stage {
            LoadStage::ApEnabled => KEY_AP_ENABLED,
            LoadStage::StaEnabled => KEY_STA_ENABLED,
            LoadStage::ApSsid => KEY_AP_SSID,
            LoadStage::ApPassword => KEY_AP_PASSWORD,
            LoadStage::ApGatewayIp => KEY_AP_GATEWAY_IP,
            LoadStage::Hostname => KEY_HOSTNAME,
            LoadStage::CountryCode => KEY_COUNTRY_CODE,
            LoadStage::SlotSsid { index } => sta_ssid_key(*index),
            LoadStage::SlotPassword { index, .. } => sta_pw_key(*index),
        }
    }

    /// Whether to fetch a flag; otherwise a text is fetched.
    pub fn wants_flag(&self) -> (r: bool)
        ensures
            r == self.fetches_flag(),
    {
        match &self.stage {
            LoadStage::ApEnabled => true,
            LoadStage::StaEnabled => true,
            _ => false,
        }
    }
}

/// The same load at another stage.
pub open spec fn at_stage(task: LoadTask, stage: LoadStage) -> LoadProgress {
    LoadProgress::Fetch(LoadTask { stage, ..task })
}

/// What flash did not hold, once everything is read.
pub open spec fn missing_after(task: LoadTask, data: ConfigView) -> Missing {
    Missing {
        ap_enabled: task.ap_enabled_missing,
        sta_enabled: task.sta_enabled_missing,
        ap_ssid: data.ap_ssid is None,
        ap_password: data.ap_password is None,
        ap_gateway_ip: data.ap_gateway_ip is None,
        sta_networks: task.list_missing && data.networks.len() == 0,
        hostname: data.hostname is None,
        country_code: data.country_code is None,
    }
}

/// The load after slot `index - 1` of `n`: the next slot, or the end.
pub open spec fn at_slot(task: LoadTask, data: ConfigView, index: int, n: int) -> LoadProgress {
    if index < n {
        at_stage(task, LoadStage::SlotSsid { index: index as usize })
    } else {
        LoadProgress::Loaded(missing_after(task, data))
    }
}

/// A password as a load reads it: the empty text stands for none.
pub open spec fn read_password(text: Option<Seq<char>>) -> Option<Seq<char>> {
    match text {
        Some(t) => if t.len() == 0 {
            None
        } else {
            Some(t)
        },
        None => None,
    }
}

/// `new` where it is there, else `old`.
pub open spec fn newer<T>(new: Option<T>, old: Option<T>) -> Option<T> {
    if new is Some {
        new
    } else {
        old
    }
}

/// The mirror and the progress after the fetch of `task` was answered, in a configuration
/// with `n` slots. A slot with an empty SSID, or none, holds no network.
pub open spec fn loaded_step(task: LoadTask, data: ConfigView, reply: FlashReply, n: int) -> (
    ConfigView,
    LoadProgress,
) {
    match (task.stage, reply) {
        (LoadStage::ApEnabled, FlashReply::Flag(f)) => (
            ConfigView {
                ap_enabled: match f {
                    Some(b) => b,
                    None => data.ap_enabled,
                },
                ..data
            },
            LoadProgress::Fetch(
                LoadTask {
                    stage: LoadStage::StaEnabled,
                    ap_enabled_missing: f is None,
                    ..task
                },
            ),
        ),
        (LoadStage::StaEnabled, FlashReply::Flag(f)) => (
            ConfigView {
                sta_enabled: match f {
                    Some(b) => b,
                    None => data.sta_enabled,
                },
                ..data
            },
            LoadProgress::Fetch(
                LoadTask { stage: LoadStage::ApSsid, sta_enabled_missing: f is None, ..task },
            ),
        ),
        (LoadStage::ApSsid, FlashReply::Text(t)) => (
            ConfigView { ap_ssid: newer(opt_text(t), data.ap_ssid), ..data },
            at_stage(task, LoadStage::ApPassword),
        ),
        (LoadStage::ApPassword, FlashReply::Text(t)) => (
            ConfigView { ap_password: newer(opt_text(t), data.ap_password), ..data },
            at_stage(task, LoadStage::ApGatewayIp),
        ),
        (LoadStage::ApGatewayIp, FlashReply::Text(t)) => (
            ConfigView { ap_gateway_ip: newer(opt_text(t), data.ap_gateway_ip), ..data },
            at_stage(task, LoadStage::Hostname),
        ),
        (LoadStage::Hostname, FlashReply::Text(t)) => (
            ConfigView { hostname: newer(opt_text(t), data.hostname), ..data },
            at_stage(task, LoadStage::CountryCode),
        ),
        (LoadStage::CountryCode, FlashReply::Text(t)) => {
            let data = ConfigView {
                country_code: newer(opt_text(t), data.country_code),
                ..data
            };
            // where there is no slot, the list goes by the station's switch
            let task = LoadTask { list_missing: task.sta_enabled_missing, ..task };
            (data, at_slot(task, data, 0, n))
        },
        (LoadStage::SlotSsid { index }, FlashReply::Text(t)) => {
            let task = if index == 0 {
                LoadTask { list_missing: t is None, ..task }
            } else {
                task
            };
            match t {
                Some(ssid) => if text64(ssid).len() == 0 {
                    (data, at_slot(task, data, index + 1, n))
                } else {
                    (data, at_stage(task, LoadStage::SlotPassword { index, ssid }))
                },
                None => (data, at_slot(task, data, index + 1, n)),
            }
        },
        (LoadStage::SlotPassword { index, ssid }, FlashReply::Text(t)) => {
            let network = NetworkView {
                ssid: text64(ssid),
                password: read_password(opt_text(t)),
            };
            let data = ConfigView {
                networks: with_network(data.networks, network, n),
                ..data
            };
            (data, at_slot(task, data, index + 1, n))
        },
        _ => (data, LoadProgress::Fetch(task)),
    }
}

/// The fields that have a default, in the order in which defaults are written.
///
/// Defaults are for the first boot. Nothing is ever taken out of flash again: a removal leaves the
/// slots blank, but written. So the absence of a field, and of slot 0 for the list of networks, tells
/// that the field was never set up. A first boot that was cut short, or whose writes failed, is
/// thereby made up for at the next start.
#[derive(Clone, Copy, Debug, PartialEq, Eq, Structural)]
pub enum DefaultField {
    ApEnabled,
    StaEnabled,
    ApSsid,
    ApPassword,
    ApGatewayIp,
    StaNetwork,
    Hostname,
    CountryCode,
}

impl DefaultField {
    /// The field whose default comes first.
    pub fn first() -> (r: DefaultField)
        ensures
            r == DefaultField::ApEnabled,
    {
        DefaultField::ApEnabled
    }

    pub open spec fn following(self) -> Option<DefaultField> {
        match self {
            DefaultField::ApEnabled => Some(DefaultField::StaEnabled),
            DefaultField::StaEnabled => Some(DefaultField::ApSsid),
            DefaultField::ApSsid => Some(DefaultField::ApPassword),
            DefaultField::ApPassword => Some(DefaultField::ApGatewayIp),
            DefaultField::ApGatewayIp => Some(DefaultField::StaNetwork),
            DefaultField::StaNetwork => Some(DefaultField::Hostname),
            DefaultField::Hostname => Some(DefaultField::CountryCode),
            DefaultField::CountryCode => None,
        }
    }

    /// The field whose default comes next.
    pub fn next(self) -> (r: Option<DefaultField>)
        ensures
            r == self.following(),
    {
        match self {
            DefaultField::ApEnabled => Some(DefaultField::StaEnabled),
            DefaultField::StaEnabled => Some(DefaultField::ApSsid),
            DefaultField::ApSsid => Some(DefaultField::ApPassword),
            DefaultField::ApPassword => Some(DefaultField::ApGatewayIp),
            DefaultField::ApGatewayIp => Some(DefaultField::StaNetwork),
            DefaultField::StaNetwork => Some(DefaultField::Hostname),
            DefaultField::Hostname => Some(DefaultField::CountryCode),
            DefaultField::CountryCode => None,
        }
    }
}

/// How many fields' defaults come after that of `field`.
pub open spec fn fields_after(field: DefaultField) -> nat {
    match field {
        DefaultField::ApEnabled => 7,
        DefaultField::StaEnabled => 6,
        DefaultField::ApSsid => 5,
        DefaultField::ApPassword => 4,
        DefaultField::ApGatewayIp => 3,
        DefaultField::StaNetwork => 2,
        DefaultField::Hostname => 1,
        DefaultField::CountryCode => 0,
    }
}

/// The text of a default, where there is one and it fits.
pub open spec fn usable(default: Option<&'static str>) -> Option<Seq<char>> {
    match default {
        Some(v) => if fits(v@, 64) {
            Some(v@)
        } else {
            None
        },
        None => None,
    }
}

/// The default country code: the one built in, or "01" where none is.
pub open spec fn default_country(defaults: WifiDefaults) -> Option<Seq<char>> {
    if defaults.country_code is Some {
        usable(defaults.country_code)
    } else {
        Some("01"@)
    }
}

/// The built-in network, where its SSID fits. A password that does not fit is left out.
pub open spec fn default_network(defaults: WifiDefaults) -> Option<NetworkView> {
    match usable(defaults.sta_ssid) {
        Some(ssid) => Some(NetworkView { ssid, password: usable(defaults.sta_password) }),
        None => None,
    }
}

/// Whether `task` is the write that a default comes to: `field` was never set up and has a default
/// that fits.
pub open spec fn writes_default(
    field: DefaultField,
    missing: Missing,
    defaults: WifiDefaults,
    task: Option<WifiTask>,
) -> bool {
    match field {
        DefaultField::ApEnabled => task == if missing.ap_enabled {
            Some(WifiTask::DefaultApEnabled(defaults.ap_ssid is Some))
        } else {
            None
        },
        DefaultField::StaEnabled => task == if missing.sta_enabled {
            Some(WifiTask::DefaultStaEnabled(defaults.sta_ssid is Some))
        } else {
            None
        },
        DefaultField::ApSsid => if missing.ap_ssid && usable(defaults.ap_ssid) is Some {
            task matches Some(WifiTask::DefaultApSsid(t)) && Some(text64(t)) == usable(
                defaults.ap_ssid,
            )
        } else {
            task is None
        },
        DefaultField::ApPassword => if missing.ap_password && usable(
            defaults.ap_password,
        ) is Some {
            task matches Some(WifiTask::DefaultApPassword(t)) && Some(text64(t)) == usable(
                defaults.ap_password,
            )
        } else {
            task is None
        },
        DefaultField::ApGatewayIp => if missing.ap_gateway_ip && usable(
            defaults.ap_gateway_ip,
        ) is Some {
            task matches Some(WifiTask::DefaultApGatewayIp(t)) && Some(text64(t)) == usable(
                defaults.ap_gateway_ip,
            )
        } else {
            task is None
        },
        DefaultField::StaNetwork => if missing.sta_networks && default_network(
            defaults,
        ) is Some {
            task matches Some(WifiTask::DefaultStaSsid(network)) && Some(network@)
                == default_network(defaults)
        } else {
            task is None
        },
        DefaultField::Hostname => if missing.hostname && usable(defaults.hostname) is Some {
            task matches Some(WifiTask::DefaultHostname(t)) && Some(text64(t)) == usable(
                defaults.hostname,
            )
        } else {
            task is None
        },
        DefaultField::CountryCode => if missing.country_code && default_country(
            defaults,
        ) is Some {
            task matches Some(WifiTask::DefaultCountryCode(t)) && Some(text64(t))
                == default_country(defaults)
        } else {
            task is None
        },
    }
}

fn usable_text(default: Option<&'static str>) -> (r: Option<heapless::String<64>>)
    ensures
        opt_text(r) == usable(default),
{
    match default {
        Some(v) => match try_text64(v) {
            Ok(t) => Some(t),
            Err(_) => None,
        },
        None => None,
    }
}

/// The write that the default of `field` calls for, if any.
pub fn default_task(field: DefaultField, missing: &Missing, defaults: &WifiDefaults) -> (task:
    Option<WifiTask>)
    ensures
        writes_default(field, *missing, *defaults, task),
        task matches Some(t) ==> t.in_range(0),
{
    match field {
        DefaultField::ApEnabled => {
            if missing.ap_enabled {
                Some(WifiTask::DefaultApEnabled(defaults.ap_ssid.is_some()))
            } else {
                None
            }
        },
        DefaultField::StaEnabled => {
            if missing.sta_enabled {
                Some(WifiTask::DefaultStaEnabled(defaults.sta_ssid.is_some()))
            } else {
                None
            }
        },
        DefaultField::ApSsid => {
            if !missing.ap_ssid {
                return None;
            }
            match usable_text(defaults.ap_ssid) {
                Some(t) => Some(WifiTask::DefaultApSsid(t)),
                None => None,
            }
        },
        DefaultField::ApPassword => {
            if !missing.ap_password {
                return None;
            }
            match usable_text(defaults.ap_password) {
                Some(t) => Some(WifiTask::DefaultApPassword(t)),
                None => None,
            }
        },
        DefaultField::ApGatewayIp => {
            if !missing.ap_gateway_ip {
                return None;
            }
            match usable_text(defaults.ap_gateway_ip) {
                Some(t) => Some(WifiTask::DefaultApGatewayIp(t)),
                None => None,
            }
        },
        DefaultField::StaNetwork => {
            if !missing.sta_networks {
                return None;
            }
            match usable_text(defaults.sta_ssid) {
                Some(ssid) => {
                    let password = usable_text(defaults.sta_password);
                    Some(WifiTask::DefaultStaSsid(StaNetwork { ssid, password }))
                },
                None => None,
            }
        },
        DefaultField::Hostname => {
            if !missing.hostname {
                return None;
            }
            match usable_text(defaults.hostname) {
                Some(t) => Some(WifiTask::DefaultHostname(t)),
                None => None,
            }
        },
        DefaultField::CountryCode => {
            if !missing.country_code {
                return None;
            }
            let code: &'static str = match defaults.country_code {
                Some(code) => code,
                None => "01",
            };
            proof {
                reveal_strlit("01");
                vstd::utf8::is_ascii_chars_encode_utf8("01"@);
            }
            match usable_text(Some(code)) {
                Some(t) => Some(WifiTask::DefaultCountryCode(t)),
                None => None,
            }
        },
    }
}

} // verus!
