use esp_embedded::connection::{
    action_event, compute_state, state_action, ConnEvent, ConnState, Connection, Reaction,
    StateAction, StateEvent,
};
use esp_embedded::flash::{FlashReply, FlashValue};
use esp_embedded::keys::{sta_pw_key, sta_ssid_key};
use esp_embedded::radio::{
    apply_ap_reconfig, build_ap_conf, build_mode_config, client_config, reconfigured_mode,
    AuthMethod, ModeConfig, RadioFeatures, ReconfigStep, WifiDriver,
};
use esp_embedded::signals::{
    notify_ap_toggled, notify_sta_toggled, request_ap_reconfig, request_connect, WifiSignal,
};
use esp_embedded::wifi_api::{StaNetwork, WifiConfig, WifiManager};
use esp_embedded::wifi_config::{FlashBackedWifiConfig, WifiConfigData, WifiDefaults};
use esp_embedded::wifi_start::{StartOutcome, StartStep};
use esp_embedded::wifi_task::Progress;
use std::collections::BTreeMap;

#[derive(Clone, Debug, PartialEq)]
enum Item {
    Flag(bool),
    Text(String),
}

/// A key-value store, some of whose writes can be made to fail.
#[derive(Default)]
struct Flash {
    items: BTreeMap<u8, Item>,
    failing: Vec<u8>,
}

impl Flash {
    fn write(&mut self, key: u8, value: FlashValue) -> bool {
        if self.failing.contains(&key) {
            return false;
        }
        let item = match value {
            FlashValue::Flag(b) => Item::Flag(b),
            FlashValue::Text(t) => Item::Text(t.as_str().to_string()),
        };
        self.items.insert(key, item);
        true
    }

    fn text(&self, key: u8) -> Option<&str> {
        match self.items.get(&key) {
            Some(Item::Text(t)) => Some(t.as_str()),
            _ => None,
        }
    }
}

type Config = FlashBackedWifiConfig<3>;

const NO_DEFAULTS: WifiDefaults = WifiDefaults {
    ap_ssid: None,
    ap_password: None,
    ap_gateway_ip: None,
    sta_ssid: None,
    sta_password: None,
    hostname: None,
    country_code: None,
};

const BOTH: RadioFeatures = RadioFeatures { ap: true, sta: true };

const AP_ONLY: RadioFeatures = RadioFeatures { ap: true, sta: false };

const STA_ONLY: RadioFeatures = RadioFeatures { ap: false, sta: true };

fn run<const N: usize>(
    config: &mut FlashBackedWifiConfig<N>,
    flash: &mut Flash,
    progress: Progress,
) -> (Option<bool>, Option<WifiSignal>) {
    let mut progress = progress;
    loop {
        progress = match progress {
            Progress::Store(task) => {
                let stored = flash.write(task.key(), task.value());
                config.resume(task, stored)
            },
            Progress::Done { accepted, signal } => return (Some(accepted), signal),
            Progress::Reset => return (None, None),
        };
    }
}

/// Starts a configuration; the number of writes is returned too.
fn boot<const N: usize>(
    flash: &mut Flash,
    defaults: &WifiDefaults,
) -> (FlashBackedWifiConfig<N>, usize) {
    let mut config: FlashBackedWifiConfig<N> = FlashBackedWifiConfig::new(defaults);
    let mut writes = 0;
    let mut step = config.init();
    loop {
        let outcome = match &step {
            StartStep::Fetch(task) => {
                StartOutcome::Fetched(match (task.wants_flag(), flash.items.get(&task.key())) {
                    (true, Some(Item::Flag(b))) => FlashReply::Flag(Some(*b)),
                    (true, _) => FlashReply::Flag(None),
                    (false, Some(Item::Text(t))) => {
                        FlashReply::Text(Some(heapless::String::try_from(t.as_str()).unwrap()))
                    },
                    (false, _) => FlashReply::Text(None),
                })
            },
            StartStep::Store { task, .. } => {
                writes += 1;
                StartOutcome::Stored(flash.write(task.key(), task.value()))
            },
            StartStep::Ready => return (config, writes),
        };
        step = config.resume_init(step, outcome, defaults);
    }
}

fn restarted(flash: &mut Flash) -> Config {
    boot(flash, &NO_DEFAULTS).0
}

fn names(config: &Config) -> Vec<(String, Option<String>)> {
    config
        .sta_networks()
        .iter()
        .map(|n| {
            let password = n.password.as_ref().map(|p| p.as_str().to_string());
            (n.ssid.as_str().to_string(), password)
        })
        .collect()
}

fn owned(ssid: &str, password: Option<&str>) -> (String, Option<String>) {
    (ssid.to_string(), password.map(|p| p.to_string()))
}

fn as_text(t: Option<heapless::String<64>>) -> Option<String> {
    t.map(|t| t.as_str().to_string())
}

fn too_long() -> String {
    "x".repeat(65)
}

#[test]
fn keys_of_the_slots() {
    assert_eq!(sta_ssid_key(0), 10);
    assert_eq!(sta_pw_key(0), 11);
    assert_eq!(sta_ssid_key(19), 48);
    assert_eq!(sta_pw_key(19), 49);
    assert_eq!(sta_ssid_key(122), 254);
    assert_eq!(sta_pw_key(122), 255);
}

#[test]
fn signals_to_the_connection_loop() {
    assert_eq!(request_connect(4), WifiSignal::Connect(4));
    assert_eq!(request_ap_reconfig(), WifiSignal::ApReconfig);
    assert_eq!(notify_ap_toggled(), WifiSignal::ApReconfig);
    assert_eq!(notify_sta_toggled(), WifiSignal::StaToggled);
}

#[test]
fn first_boot_without_defaults() {
    let mut flash = Flash::default();
    let (config, writes) = boot::<3>(&mut flash, &NO_DEFAULTS);
    assert!(!config.is_ap_enabled());
    assert!(!config.is_sta_enabled());
    assert_eq!(as_text(config.ap_ssid()), None);
    assert_eq!(as_text(config.ap_password()), None);
    assert_eq!(as_text(config.ap_gateway_ip()), None);
    assert_eq!(as_text(config.hostname()), None);
    assert_eq!(config.country_code(), *b"01");
    assert!(names(&config).is_empty());
    assert_eq!(writes, 3);
    assert_eq!(flash.items.get(&0), Some(&Item::Flag(false)));
    assert_eq!(flash.items.get(&4), Some(&Item::Flag(false)));
    assert_eq!(flash.text(6), Some("01"));
    assert_eq!(flash.items.len(), 3);
}

const ALL_DEFAULTS: WifiDefaults = WifiDefaults {
    ap_ssid: Some("my-ap"),
    ap_password: Some("ap-secret"),
    ap_gateway_ip: Some("192.168.2.1"),
    sta_ssid: Some("home"),
    sta_password: Some("home-secret"),
    hostname: Some("esp-device"),
    country_code: Some("DE"),
};

#[test]
fn first_boot_takes_defaults() {
    let mut flash = Flash::default();
    let (config, writes) = boot::<3>(&mut flash, &ALL_DEFAULTS);
    assert!(config.is_ap_enabled());
    assert!(config.is_sta_enabled());
    assert_eq!(as_text(config.ap_ssid()).as_deref(), Some("my-ap"));
    assert_eq!(as_text(config.ap_password()).as_deref(), Some("ap-secret"));
    assert_eq!(as_text(config.ap_gateway_ip()).as_deref(), Some("192.168.2.1"));
    assert_eq!(as_text(config.hostname()).as_deref(), Some("esp-device"));
    assert_eq!(config.country_code(), *b"DE");
    assert_eq!(names(&config), vec![owned("home", Some("home-secret"))]);
    assert_eq!(writes, 10);
    assert_eq!(flash.items.get(&0), Some(&Item::Flag(true)));
    assert_eq!(flash.text(1), Some("my-ap"));
    assert_eq!(flash.text(2), Some("ap-secret"));
    assert_eq!(flash.text(3), Some("192.168.2.1"));
    assert_eq!(flash.items.get(&4), Some(&Item::Flag(true)));
    assert_eq!(flash.text(5), Some("esp-device"));
    assert_eq!(flash.text(6), Some("DE"));
    assert_eq!(flash.text(10), Some("home"));
    assert_eq!(flash.text(11), Some("home-secret"));
    assert_eq!(flash.items.len(), 9);
}

#[test]
fn second_boot_writes_nothing() {
    let mut flash = Flash::default();
    boot::<3>(&mut flash, &ALL_DEFAULTS);
    let before = flash.items.clone();
    let (config, writes) = boot::<3>(&mut flash, &ALL_DEFAULTS);
    assert_eq!(writes, 0);
    assert_eq!(flash.items, before);
    assert_eq!(names(&config), vec![owned("home", Some("home-secret"))]);
}

#[test]
fn removed_network_is_not_brought_back_by_a_default() {
    let mut flash = Flash::default();
    flash.items.insert(0, Item::Flag(false));
    flash.items.insert(4, Item::Flag(false));
    flash.items.insert(6, Item::Text("01".to_string()));
    flash.items.insert(10, Item::Text(String::new()));
    flash.items.insert(11, Item::Text(String::new()));
    let before = flash.items.clone();
    let defaults = WifiDefaults { sta_ssid: Some("home"), ..NO_DEFAULTS };
    let (config, writes) = boot::<1>(&mut flash, &defaults);
    assert!(!config.is_sta_enabled());
    assert!(config.sta_networks().is_empty());
    assert_eq!(writes, 0);
    assert_eq!(flash.items, before);
}

#[test]
fn network_removed_by_the_user_stays_away_after_a_restart() {
    let mut flash = Flash::default();
    let (mut config, _) = boot::<3>(&mut flash, &ALL_DEFAULTS);
    let p = config.remove_sta_network(0);
    assert_eq!(run(&mut config, &mut flash, p), (Some(true), None));
    let (config, writes) = boot::<3>(&mut flash, &ALL_DEFAULTS);
    assert!(names(&config).is_empty());
    assert!(config.is_sta_enabled());
    assert_eq!(writes, 0);
}

#[test]
fn field_that_was_never_set_up_takes_its_default() {
    let mut flash = Flash::default();
    boot::<3>(&mut flash, &NO_DEFAULTS);
    let (config, _) = boot::<3>(&mut flash, &ALL_DEFAULTS);
    assert_eq!(as_text(config.hostname()).as_deref(), Some("esp-device"));
    assert_eq!(as_text(config.ap_ssid()).as_deref(), Some("my-ap"));
    assert_eq!(names(&config), vec![owned("home", Some("home-secret"))]);
    assert!(config.is_sta_enabled());
    // the access point's switch and the country code were set up before
    assert!(!config.is_ap_enabled());
    assert_eq!(config.country_code(), *b"01");
}

#[test]
fn first_boot_that_was_cut_short_is_made_up_for() {
    let mut flash = Flash::default();
    flash.items.insert(0, Item::Flag(true));
    flash.items.insert(4, Item::Flag(true));
    let (config, _) = boot::<3>(&mut flash, &ALL_DEFAULTS);
    assert_eq!(names(&config), vec![owned("home", Some("home-secret"))]);
    assert_eq!(flash.text(10), Some("home"));
    assert_eq!(flash.text(11), Some("home-secret"));
}

#[test]
fn built_in_network_whose_write_failed_is_tried_again() {
    let mut flash = Flash { failing: vec![10], ..Flash::default() };
    let (config, _) = boot::<3>(&mut flash, &ALL_DEFAULTS);
    assert!(names(&config).is_empty());
    flash.failing.clear();
    let (config, _) = boot::<3>(&mut flash, &ALL_DEFAULTS);
    assert_eq!(names(&config), vec![owned("home", Some("home-secret"))]);
    assert_eq!(boot::<3>(&mut flash, &ALL_DEFAULTS).1, 0);
}

#[test]
fn list_without_slots_takes_its_default_once() {
    let mut flash = Flash::default();
    let (config, writes) = boot::<0>(&mut flash, &ALL_DEFAULTS);
    assert!(config.sta_networks().is_empty());
    assert_eq!(writes, 10);
    assert_eq!(boot::<0>(&mut flash, &ALL_DEFAULTS).1, 0);
}

#[test]
fn second_boot_changes_nothing_though_slots_have_gaps() {
    let mut flash = Flash::default();
    flash.items.insert(14, Item::Text("three".to_string()));
    boot::<3>(&mut flash, &ALL_DEFAULTS);
    let before = flash.items.clone();
    let (config, writes) = boot::<3>(&mut flash, &ALL_DEFAULTS);
    assert_eq!(writes, 0);
    assert_eq!(flash.items, before);
    assert_eq!(names(&config), vec![owned("three", None)]);
}

#[test]
fn stored_values_come_before_defaults() {
    let mut flash = Flash::default();
    boot::<3>(&mut flash, &ALL_DEFAULTS);
    let other = WifiDefaults {
        ap_ssid: Some("other"),
        sta_ssid: None,
        country_code: Some("US"),
        ..ALL_DEFAULTS
    };
    let (config, _) = boot::<3>(&mut flash, &other);
    assert_eq!(as_text(config.ap_ssid()).as_deref(), Some("my-ap"));
    assert!(config.is_sta_enabled());
    assert_eq!(config.country_code(), *b"DE");
}

#[test]
fn defaults_that_do_not_fit_are_left_out() {
    const LONG: &str = "0123456789012345678901234567890123456789012345678901234567890123x";
    let defaults = WifiDefaults {
        ap_ssid: Some(LONG),
        sta_ssid: Some("net"),
        sta_password: Some(LONG),
        country_code: Some(LONG),
        ..NO_DEFAULTS
    };
    let mut flash = Flash::default();
    let (config, _) = boot::<3>(&mut flash, &defaults);
    assert!(config.is_ap_enabled());
    assert_eq!(as_text(config.ap_ssid()), None);
    assert_eq!(names(&config), vec![owned("net", None)]);
    assert_eq!(config.country_code(), *b"01");
    assert_eq!(flash.text(6), None);
}

#[test]
fn default_whose_write_fails_does_not_reach_the_mirror() {
    let mut flash = Flash { failing: vec![1, 11], ..Flash::default() };
    let (config, _) = boot::<3>(&mut flash, &ALL_DEFAULTS);
    assert_eq!(as_text(config.ap_ssid()), None);
    assert!(names(&config).is_empty());
    // the SSID was written before the password failed
    assert_eq!(flash.text(10), Some("home"));
}

#[test]
fn switching_the_interfaces() {
    let mut flash = Flash::default();
    let mut config = restarted(&mut flash);
    let p = config.set_ap_enabled(true);
    assert_eq!(
        run(&mut config, &mut flash, p),
        (Some(true), Some(WifiSignal::ApReconfig))
    );
    let p = config.set_sta_enabled(true);
    assert_eq!(
        run(&mut config, &mut flash, p),
        (Some(true), Some(WifiSignal::StaToggled))
    );
    assert!(config.is_ap_enabled() && config.is_sta_enabled());
    let config = restarted(&mut flash);
    assert!(config.is_ap_enabled() && config.is_sta_enabled());
}

#[test]
fn failed_write_changes_nothing() {
    let mut flash = Flash::default();
    let mut config = restarted(&mut flash);
    flash.failing = vec![0, 1, 2, 3, 4, 5, 6];
    let rejected = (Some(false), None);
    let p = config.set_ap_enabled(true);
    assert_eq!(run(&mut config, &mut flash, p), rejected);
    let p = config.set_sta_enabled(true);
    assert_eq!(run(&mut config, &mut flash, p), rejected);
    let p = config.set_ap_ssid("a");
    assert_eq!(run(&mut config, &mut flash, p), rejected);
    let p = config.set_ap_password("a");
    assert_eq!(run(&mut config, &mut flash, p), rejected);
    let p = config.set_ap_gateway_ip("a");
    assert_eq!(run(&mut config, &mut flash, p), rejected);
    let p = config.set_hostname("a");
    assert_eq!(run(&mut config, &mut flash, p), rejected);
    let p = config.set_country_code("US");
    assert_eq!(run(&mut config, &mut flash, p), rejected);
    let p = config.configure_ap(Some("a"), Some("b"));
    assert_eq!(run(&mut config, &mut flash, p), rejected);
    assert!(!config.is_ap_enabled() && !config.is_sta_enabled());
    assert_eq!(as_text(config.ap_ssid()), None);
    assert_eq!(as_text(config.ap_password()), None);
    assert_eq!(as_text(config.ap_gateway_ip()), None);
    assert_eq!(as_text(config.hostname()), None);
    assert_eq!(config.country_code(), *b"01");
}

#[test]
fn texts_that_do_not_fit_are_rejected() {
    let mut flash = Flash::default();
    let mut config = restarted(&mut flash);
    let before = flash.items.clone();
    let long = too_long();
    let rejected = (Some(false), None);
    let p = config.set_ap_ssid(&long);
    assert_eq!(run(&mut config, &mut flash, p), rejected);
    let p = config.set_ap_password(&long);
    assert_eq!(run(&mut config, &mut flash, p), rejected);
    let p = config.set_ap_gateway_ip(&long);
    assert_eq!(run(&mut config, &mut flash, p), rejected);
    let p = config.set_hostname(&long);
    assert_eq!(run(&mut config, &mut flash, p), rejected);
    let p = config.add_sta_network(&long, None);
    assert_eq!(run(&mut config, &mut flash, p), rejected);
    let p = config.add_sta_network("a", Some(&long));
    assert_eq!(run(&mut config, &mut flash, p), rejected);
    assert_eq!(flash.items, before);
}

#[test]
fn texts_up_to_64_bytes_fit() {
    let mut flash = Flash::default();
    let mut config = restarted(&mut flash);
    let text = "\u{e4}".repeat(32);
    let p = config.set_ap_ssid(&text);
    assert_eq!(
        run(&mut config, &mut flash, p),
        (Some(true), Some(WifiSignal::ApReconfig))
    );
    assert_eq!(as_text(config.ap_ssid()), Some(text));
}

#[test]
fn changes_that_reset_the_device() {
    let mut flash = Flash::default();
    let mut config = restarted(&mut flash);
    let p = config.set_ap_gateway_ip("10.0.0.1");
    assert_eq!(run(&mut config, &mut flash, p), (None, None));
    let p = config.set_hostname("name");
    assert_eq!(run(&mut config, &mut flash, p), (None, None));
    let p = config.set_country_code("US");
    assert_eq!(run(&mut config, &mut flash, p), (None, None));
    let config = restarted(&mut flash);
    assert_eq!(as_text(config.ap_gateway_ip()).as_deref(), Some("10.0.0.1"));
    assert_eq!(as_text(config.hostname()).as_deref(), Some("name"));
    assert_eq!(config.country_code(), *b"US");
}

#[test]
fn country_codes_are_two_ascii_characters() {
    let mut flash = Flash::default();
    let mut config = restarted(&mut flash);
    for code in ["", "U", "USA", "\u{e4}", "\u{e4}x"] {
        let p = config.set_country_code(code);
        assert_eq!(run(&mut config, &mut flash, p), (Some(false), None));
    }
    assert_eq!(config.country_code(), *b"01");
}

#[test]
fn stored_country_codes_that_fall_short() {
    let mut flash = Flash::default();
    flash.items.insert(6, Item::Text("X".to_string()));
    assert_eq!(restarted(&mut flash).country_code(), *b"X1");
    flash.items.insert(6, Item::Text(String::new()));
    assert_eq!(restarted(&mut flash).country_code(), *b"01");
}

#[test]
fn configuring_the_access_point() {
    let mut flash = Flash::default();
    let mut config = restarted(&mut flash);
    let reconfig = (Some(true), Some(WifiSignal::ApReconfig));
    let p = config.configure_ap(Some("ssid"), Some("password"));
    assert_eq!(run(&mut config, &mut flash, p), reconfig);
    assert_eq!(as_text(config.ap_ssid()).as_deref(), Some("ssid"));
    assert_eq!(as_text(config.ap_password()).as_deref(), Some("password"));
    let p = config.configure_ap(None, Some("other"));
    assert_eq!(run(&mut config, &mut flash, p), reconfig);
    assert_eq!(as_text(config.ap_password()).as_deref(), Some("other"));
    let p = config.configure_ap(Some("again"), None);
    assert_eq!(run(&mut config, &mut flash, p), reconfig);
    let p = config.configure_ap(None, None);
    assert_eq!(run(&mut config, &mut flash, p), reconfig);
    let config = restarted(&mut flash);
    assert_eq!(as_text(config.ap_ssid()).as_deref(), Some("again"));
    assert_eq!(as_text(config.ap_password()).as_deref(), Some("other"));
}

#[test]
fn password_is_set_even_where_the_ssid_is_not() {
    let mut flash = Flash::default();
    let mut config = restarted(&mut flash);
    let p = config.configure_ap(Some(&too_long()), Some("password"));
    assert_eq!(run(&mut config, &mut flash, p), (Some(false), None));
    assert_eq!(as_text(config.ap_ssid()), None);
    assert_eq!(as_text(config.ap_password()).as_deref(), Some("password"));
    let p = config.configure_ap(Some("ssid"), Some(&too_long()));
    assert_eq!(run(&mut config, &mut flash, p), (Some(false), None));
    assert_eq!(as_text(config.ap_ssid()).as_deref(), Some("ssid"));
    let p = config.configure_ap(None, Some(&too_long()));
    assert_eq!(run(&mut config, &mut flash, p), (Some(false), None));
    let p = config.configure_ap(Some(&too_long()), None);
    assert_eq!(run(&mut config, &mut flash, p), (Some(false), None));
    flash.failing = vec![1];
    let p = config.configure_ap(Some("new"), Some("new-password"));
    assert_eq!(run(&mut config, &mut flash, p), (Some(false), None));
    assert_eq!(as_text(config.ap_ssid()).as_deref(), Some("ssid"));
    assert_eq!(as_text(config.ap_password()).as_deref(), Some("new-password"));
}

fn with_networks(flash: &mut Flash) -> Config {
    let mut config = restarted(flash);
    let p = config.add_sta_network("one", Some("pw-one"));
    assert_eq!(run(&mut config, flash, p), (Some(true), None));
    let p = config.add_sta_network("two", None);
    assert_eq!(run(&mut config, flash, p), (Some(true), None));
    let p = config.add_and_connect_sta_network("three", Some("pw-three"));
    assert_eq!(run(&mut config, flash, p), (Some(true), Some(WifiSignal::Connect(2))));
    config
}

#[test]
fn added_networks_survive_a_restart() {
    let mut flash = Flash::default();
    let config = with_networks(&mut flash);
    let all =
        vec![owned("one", Some("pw-one")), owned("two", None), owned("three", Some("pw-three"))];
    assert_eq!(names(&config), all);
    assert_eq!(names(&restarted(&mut flash)), all);
    assert_eq!(flash.text(13), Some(""));
}

#[test]
fn full_list_takes_no_more_networks() {
    let mut flash = Flash::default();
    let mut config = with_networks(&mut flash);
    let p = config.add_sta_network("four", None);
    assert_eq!(run(&mut config, &mut flash, p), (Some(false), None));
    let p = config.add_and_connect_sta_network("four", None);
    assert_eq!(run(&mut config, &mut flash, p), (Some(false), None));
    assert_eq!(names(&config).len(), 3);
}

#[test]
fn network_whose_write_fails_is_not_added() {
    let mut flash = Flash { failing: vec![11], ..Flash::default() };
    let mut config = restarted(&mut flash);
    let p = config.add_and_connect_sta_network("one", None);
    assert_eq!(run(&mut config, &mut flash, p), (Some(false), None));
    assert!(names(&config).is_empty());
}

#[test]
fn removed_network_leaves_the_others_in_order() {
    let mut flash = Flash::default();
    let mut config = with_networks(&mut flash);
    let p = config.remove_sta_network(0);
    assert_eq!(run(&mut config, &mut flash, p), (Some(true), None));
    let rest = vec![owned("two", None), owned("three", Some("pw-three"))];
    assert_eq!(names(&config), rest);
    assert_eq!(names(&restarted(&mut flash)), rest);
    assert_eq!(flash.text(14), Some(""));
    assert_eq!(flash.text(15), Some(""));
    let p = config.remove_sta_network(2);
    assert_eq!(run(&mut config, &mut flash, p), (Some(false), None));
    assert_eq!(names(&config), rest);
}

#[test]
fn removal_whose_write_fails_is_reported() {
    let mut flash = Flash::default();
    let mut config = with_networks(&mut flash);
    flash.failing = vec![12];
    let p = config.remove_sta_network(0);
    assert_eq!(run(&mut config, &mut flash, p), (Some(false), None));
    // the mirror has already lost the network
    assert_eq!(names(&config).len(), 2);
}

#[test]
fn slots_with_an_empty_ssid_are_skipped() {
    let mut flash = Flash::default();
    flash.items.insert(12, Item::Text("two".to_string()));
    flash.items.insert(13, Item::Text(String::new()));
    flash.items.insert(10, Item::Text(String::new()));
    assert_eq!(names(&restarted(&mut flash)), vec![owned("two", None)]);
}

fn saved(ssid: &str, password: Option<&str>) -> StaNetwork {
    StaNetwork {
        ssid: heapless::String::try_from(ssid).unwrap(),
        password: password.map(|p| heapless::String::try_from(p).unwrap()),
    }
}

#[test]
fn access_point_of_a_configuration() {
    let mut flash = Flash::default();
    let mut config = restarted(&mut flash);
    let ap = build_ap_conf::<3, Config>(&config);
    assert_eq!(ap.ssid, "esp-ap");
    assert_eq!(ap.password, None);
    assert_eq!(ap.auth, AuthMethod::Open);
    let p = config.configure_ap(Some("cafe"), Some("espresso"));
    run(&mut config, &mut flash, p);
    let ap = build_ap_conf::<3, Config>(&config);
    assert_eq!(ap.ssid, "cafe");
    assert_eq!(ap.password.as_deref(), Some("espresso"));
    assert_eq!(ap.auth, AuthMethod::Wpa2Personal);
}

#[test]
fn client_of_a_saved_network() {
    let c = client_config(&saved("net", Some("pw")));
    assert_eq!(c.ssid, "net");
    assert_eq!(c.password.as_deref(), Some("pw"));
    assert_eq!(client_config(&saved("net", None)).password, None);
}

fn switched(ap: bool, sta: bool) -> Config {
    let mut flash = Flash::default();
    let mut config = restarted(&mut flash);
    let p = config.set_ap_enabled(ap);
    run(&mut config, &mut flash, p);
    let p = config.set_sta_enabled(sta);
    run(&mut config, &mut flash, p);
    config
}

fn mode_name(mode: &ModeConfig) -> &'static str {
    match mode {
        ModeConfig::Off => "off",
        ModeConfig::AccessPoint(_) => "ap",
        ModeConfig::Client(_) => "sta",
        ModeConfig::ApSta(_, _) => "both",
    }
}

#[test]
fn modes_after_a_change() {
    let mode = |features: RadioFeatures, ap: bool, sta: bool| {
        mode_name(&reconfigured_mode::<3, Config>(features, &switched(ap, sta)))
    };
    assert_eq!(mode(BOTH, true, true), "both");
    assert_eq!(mode(BOTH, true, false), "ap");
    assert_eq!(mode(BOTH, false, true), "sta");
    assert_eq!(mode(BOTH, false, false), "off");
    assert_eq!(mode(AP_ONLY, true, true), "ap");
    assert_eq!(mode(AP_ONLY, false, true), "off");
    assert_eq!(mode(STA_ONLY, true, false), "sta");
    assert_eq!(mode(STA_ONLY, false, false), "sta");
}

#[test]
fn mode_for_a_client() {
    let on = switched(true, true);
    match build_mode_config::<3, Config>(BOTH, client_config(&saved("n", None)), &on) {
        ModeConfig::ApSta(c, ap) => {
            assert_eq!(c.ssid, "n");
            assert_eq!(ap.ssid, "esp-ap");
        },
        _ => panic!("both are on"),
    }
    let off = switched(false, true);
    let mode = build_mode_config::<3, Config>(BOTH, client_config(&saved("n", None)), &off);
    assert_eq!(mode_name(&mode), "sta");
    let mode = build_mode_config::<3, Config>(STA_ONLY, client_config(&saved("n", None)), &on);
    assert_eq!(mode_name(&mode), "sta");
}

#[test]
fn applying_a_change_step_by_step() {
    let config = switched(true, false);
    let next = |step: &ReconfigStep, ok: bool| {
        apply_ap_reconfig::<3, Config>(step, ok, BOTH, &config)
    };
    assert!(matches!(ReconfigStep::first(), ReconfigStep::Stop));
    let step = next(&ReconfigStep::first(), true);
    match &step {
        ReconfigStep::Configure(mode) => assert_eq!(mode_name(mode), "ap"),
        _ => panic!("the mode comes next"),
    }
    assert!(matches!(next(&step, true), ReconfigStep::Start));
    assert!(matches!(next(&step, false), ReconfigStep::Finished));
    assert!(matches!(next(&ReconfigStep::Start, true), ReconfigStep::Finished));
    assert!(matches!(next(&ReconfigStep::Start, false), ReconfigStep::Finished));
    assert!(matches!(next(&ReconfigStep::Stop, false), ReconfigStep::Finished));
    let off = switched(false, false);
    assert!(matches!(
        apply_ap_reconfig::<3, Config>(&ReconfigStep::Stop, true, BOTH, &off),
        ReconfigStep::Finished
    ));
}

#[test]
fn driver_sets_up_what_is_built_in() {
    let mut flash = Flash::default();
    let (config, _) = boot::<3>(&mut flash, &ALL_DEFAULTS);
    let ip = [192, 168, 2, 1];
    let plan = WifiDriver::init::<3, Config>(BOTH, ip, &config);
    assert_eq!(mode_name(&plan.mode), "both");
    assert!(plan.starts_radio());
    let net = plan.ap_net.unwrap();
    assert_eq!(net.address, ip);
    assert_eq!(net.gateway, ip);
    assert_eq!(net.prefix_len, 24);
    let hostname = plan.sta_net.unwrap().hostname.unwrap();
    assert_eq!(hostname.as_str(), "esp-device");
    let plan = WifiDriver::init::<3, Config>(AP_ONLY, ip, &config);
    assert_eq!(mode_name(&plan.mode), "ap");
    assert!(plan.sta_net.is_none());
    let plan = WifiDriver::init::<3, Config>(STA_ONLY, ip, &config);
    assert_eq!(mode_name(&plan.mode), "sta");
    assert!(plan.ap_net.is_none());
    let none = RadioFeatures { ap: false, sta: false };
    assert!(!WifiDriver::init::<3, Config>(none, ip, &config).starts_radio());
}

#[test]
fn hostname_of_more_than_32_bytes_is_not_sent() {
    let mut flash = Flash::default();
    let mut config = restarted(&mut flash);
    let p = config.set_hostname("123456789012345678901234567890123");
    run(&mut config, &mut flash, p);
    let plan = WifiDriver::init::<3, Config>(STA_ONLY, [10, 0, 0, 1], &config);
    assert!(plan.sta_net.unwrap().hostname.is_none());
}

fn station_with_networks() -> Config {
    let mut flash = Flash::default();
    let mut config = with_networks(&mut flash);
    let p = config.set_sta_enabled(true);
    run(&mut config, &mut flash, p);
    config
}

#[test]
fn states_of_the_station() {
    assert_eq!(compute_state::<3, Config>(&switched(true, false), 0), ConnState::StaDisabled);
    assert_eq!(compute_state::<3, Config>(&switched(true, true), 0), ConnState::NoNetworks);
    let config = station_with_networks();
    assert_eq!(compute_state::<3, Config>(&config, 1), ConnState::Connecting(1));
    assert_eq!(compute_state::<3, Config>(&config, 9), ConnState::Connecting(2));
}

#[test]
fn what_to_wait_for() {
    assert_eq!(state_action(ConnState::StaDisabled), StateAction::WaitForever);
    assert_eq!(state_action(ConnState::NoNetworks), StateAction::Sleep(30_000));
    assert_eq!(state_action(ConnState::Connecting(1)), StateAction::Connect);
    assert_eq!(state_action(ConnState::Connected(1)), StateAction::WaitForDisconnect);
    assert_eq!(action_event(StateAction::WaitForever, true), None);
    assert_eq!(action_event(StateAction::Sleep(1), true), Some(StateEvent::Timeout));
    assert_eq!(action_event(StateAction::Connect, true), Some(StateEvent::ConnOk));
    assert_eq!(action_event(StateAction::Connect, false), Some(StateEvent::ConnFail));
    assert_eq!(
        action_event(StateAction::WaitForDisconnect, true),
        Some(StateEvent::Disconnected)
    );
}

#[test]
fn failures_lead_through_all_networks() {
    let config = station_with_networks();
    let (mut c, alone) = Connection::start::<3, Config>(&config);
    assert!(!alone);
    let mut tried = Vec::new();
    for _ in 0..4 {
        match c.mode_to_set::<3, Config>(BOTH, &config) {
            Some(ModeConfig::Client(client)) => tried.push(client.ssid),
            _ => panic!("a network is tried"),
        }
        let r = c.on_event::<3, Config>(ConnEvent::State(StateEvent::ConnFail), &config);
        assert_eq!(
            r,
            Reaction { disconnect: false, reconfigure: false, pause_ms: 5_000, refresh: true }
        );
        c.refresh::<3, Config>(&config);
    }
    assert_eq!(tried, vec!["one", "two", "three", "one"]);
}

#[test]
fn connection_stands_until_it_is_lost() {
    let config = station_with_networks();
    let mut c = Connection { net_idx: 1, state: ConnState::Connecting(1) };
    let r = c.on_event::<3, Config>(ConnEvent::State(StateEvent::ConnOk), &config);
    assert!(!r.refresh);
    assert_eq!(c.state, ConnState::Connected(1));
    assert!(c.mode_to_set::<3, Config>(BOTH, &config).is_none());
    let r = c.on_event::<3, Config>(ConnEvent::State(StateEvent::Disconnected), &config);
    assert_eq!(
        r,
        Reaction { disconnect: false, reconfigure: false, pause_ms: 5_000, refresh: true }
    );
    c.refresh::<3, Config>(&config);
    assert_eq!(c, Connection { net_idx: 0, state: ConnState::Connecting(0) });
}

#[test]
fn connected_network_is_the_one_tried() {
    let config = station_with_networks();
    let mut c = Connection { net_idx: 0, state: ConnState::Connecting(0) };
    c.on_event::<3, Config>(ConnEvent::Signal(WifiSignal::Connect(7)), &config);
    c.refresh::<3, Config>(&config);
    assert_eq!(c, Connection { net_idx: 7, state: ConnState::Connecting(2) });
    c.on_event::<3, Config>(ConnEvent::State(StateEvent::ConnOk), &config);
    assert_eq!(c.state, ConnState::Connected(2));
}

#[test]
fn signals_interrupt_a_connection() {
    let config = station_with_networks();
    let connected = Connection { net_idx: 1, state: ConnState::Connected(1) };
    let mut c = connected;
    let r = c.on_event::<3, Config>(ConnEvent::Signal(WifiSignal::Connect(2)), &config);
    assert_eq!(r, Reaction { disconnect: true, reconfigure: false, pause_ms: 0, refresh: true });
    c.refresh::<3, Config>(&config);
    assert_eq!(c.state, ConnState::Connecting(2));
    let mut c = connected;
    let r = c.on_event::<3, Config>(ConnEvent::Signal(WifiSignal::ApReconfig), &config);
    assert_eq!(r, Reaction { disconnect: true, reconfigure: true, pause_ms: 0, refresh: true });
    assert_eq!(c.net_idx, 1);
    let mut c = connected;
    let r = c.on_event::<3, Config>(ConnEvent::Signal(WifiSignal::StaToggled), &config);
    assert_eq!(r, Reaction { disconnect: true, reconfigure: true, pause_ms: 0, refresh: true });
    assert_eq!(c.net_idx, 0);
    let mut c = Connection { net_idx: 1, state: ConnState::Connecting(1) };
    let r = c.on_event::<3, Config>(ConnEvent::Signal(WifiSignal::ApReconfig), &config);
    assert!(!r.disconnect);
}

#[test]
fn station_that_is_off_rests() {
    let config = switched(true, false);
    let (c, alone) = Connection::start::<3, Config>(&config);
    assert!(alone);
    assert_eq!(c.state, ConnState::StaDisabled);
    assert!(c.mode_to_set::<3, Config>(BOTH, &config).is_none());
}

#[test]
fn station_without_networks_looks_again() {
    let config = switched(true, true);
    let mut c = Connection { net_idx: 4, state: ConnState::NoNetworks };
    let r = c.on_event::<3, Config>(ConnEvent::State(StateEvent::Timeout), &config);
    assert_eq!(r, Reaction { disconnect: false, reconfigure: false, pause_ms: 0, refresh: true });
    assert_eq!(c.net_idx, 4);
    let r = c.on_event::<3, Config>(ConnEvent::State(StateEvent::ConnFail), &config);
    assert_eq!(r.pause_ms, 5_000);
    assert_eq!(c.net_idx, 4);
}

#[test]
fn snapshot_of_a_configuration_can_be_used() {
    let config: WifiConfigData<2> = WifiConfigData {
        ap_enabled: true,
        ap_ssid: Some(heapless::String::try_from("fixed").unwrap()),
        ap_password: None,
        ap_gateway_ip: None,
        sta_enabled: true,
        hostname: None,
        country_code: None,
        sta_networks: vec![saved("n", None)],
    };
    let (c, _) = Connection::start::<2, WifiConfigData<2>>(&config);
    match c.mode_to_set::<2, WifiConfigData<2>>(BOTH, &config) {
        Some(ModeConfig::ApSta(client, ap)) => {
            assert_eq!(client.ssid, "n");
            assert_eq!(ap.ssid, "fixed");
        },
        _ => panic!("both are on"),
    }
    assert_eq!(config.country_code(), *b"01");
}
