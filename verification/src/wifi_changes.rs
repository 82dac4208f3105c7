//! What each change to the WiFi configuration comes to, in flash and in the mirror.
use crate::flash::{Flash, FlashItem, FlashValue};
use crate::signals::WifiSignal;
use crate::text::text64;
use crate::wifi_api::{
    network_views, ConfigView, NetworkView, StaNetwork, WifiConfig, WifiManager,
};
use crate::wifi_config::{FlashBackedWifiConfig, WifiConfigData, WifiDefaults};
use crate::wifi_laws::carried_out;
use crate::wifi_task::{resumed, Progress, WifiTask};
use vstd::prelude::*;
use vstd::utf8::{encode_utf8, is_ascii_chars};

verus! {

// ---- What is held ---------------------------------------------------------------------------

/// Whether an optional string holds an optional text.
pub open spec fn holds_text(s: Option<heapless::String<64>>, text: Option<Seq<char>>) -> bool {
    match s {
        Some(s) => text == Some(text64(s)),
        None => text is None,
    }
}

/// What a saved network says is the SSID and the password that it holds.
pub proof fn law_network_says_what_it_holds(network: StaNetwork)
    ensures
        network@.ssid == text64(network.ssid),
        holds_text(network.password, network@.password),
{
}

/// What a mirror says is what its fields hold, and readers of the configuration are told just
/// that.
pub proof fn law_mirror_says_what_it_holds<const N: usize>(data: WifiConfigData<N>)
    ensures
        data.config() == data@,
        data@.ap_enabled == data.ap_enabled,
        holds_text(data.ap_ssid, data@.ap_ssid),
        holds_text(data.ap_password, data@.ap_password),
        holds_text(data.ap_gateway_ip, data@.ap_gateway_ip),
        data@.sta_enabled == data.sta_enabled,
        holds_text(data.hostname, data@.hostname),
        holds_text(data.country_code, data@.country_code),
        data@.networks.len() == data.sta_networks@.len(),
        forall|i: int|
            0 <= i < data.sta_networks@.len() ==> {
                &&& (#[trigger] data@.networks[i]).ssid == text64(data.sta_networks@[i].ssid)
                &&& holds_text(data.sta_networks@[i].password, data@.networks[i].password)
            },
{
}

/// A value goes into the store as it is.
pub proof fn law_value_is_stored_as_it_is(value: FlashValue)
    ensures
        match value {
            FlashValue::Flag(b) => value.item() == FlashItem::Flag(b),
            FlashValue::Text(t) => value.item() == FlashItem::Text(text64(t)),
        },
{
}

/// A list of networks is handed out in its order, each with its SSID and its password.
pub proof fn law_saved_networks_are_handed_out<const N: usize, C: WifiConfig<N>>(
    config: C,
    r: Vec<StaNetwork>,
    i: int,
)
    requires
        call_ensures(C::sta_networks, (&config,), r),
        0 <= i < r@.len(),
    ensures
        r@.len() == config.config().networks.len(),
        config.config().networks[i].ssid == text64(r@[i].ssid),
        holds_text(r@[i].password, config.config().networks[i].password),
{
    assert(network_views(r@)[i] == r@[i]@);
}

/// A country code is handed out as two bytes: the first two of the code that is set, and those of
/// "01" as far as the code falls short.
pub proof fn law_country_code_is_two_bytes<const N: usize, C: WifiConfig<N>>(
    config: C,
    r: [u8; 2],
)
    requires
        call_ensures(C::country_code, (&config,), r),
    ensures
        match config.config().country_code {
            Some(code) => {
                let bytes = encode_utf8(code);
                &&& r@[0] == if bytes.len() > 0 {
                    bytes[0]
                } else {
                    '0' as u8
                }
                &&& r@[1] == if bytes.len() > 1 {
                    bytes[1]
                } else {
                    '1' as u8
                }
            },
            None => r@ == seq!['0' as u8, '1' as u8],
        },
{
}

/// Before flash has been read an interface is on where it has a default SSID, and nothing else is
/// set.
pub proof fn law_new_configuration_is_blank<const N: usize>(
    defaults: WifiDefaults,
    r: FlashBackedWifiConfig<N>,
)
    requires
        call_ensures(FlashBackedWifiConfig::<N>::new, (&defaults,), r),
    ensures
        r@.ap_enabled == (defaults.ap_ssid is Some),
        r@.sta_enabled == (defaults.sta_ssid is Some),
        r@.ap_ssid is None,
        r@.ap_password is None,
        r@.ap_gateway_ip is None,
        r@.hostname is None,
        r@.country_code is None,
        r@.networks.len() == 0,
        r.config() == r@,
        N <= 123 ==> r.wf(),
{
}

// ---- Single fields --------------------------------------------------------------------------

/// Switching the access point on or off puts the switch under key 0, and has the radio set up anew.
pub proof fn law_ap_is_switched<const N: usize, C: WifiManager<N>>(
    flash: Flash,
    config: C,
    enabled: bool,
    r: Progress,
)
    requires
        N <= 123,
        call_ensures(C::set_ap_enabled, (&config, enabled), r),
    ensures
        ({
            let (flash2, data2, end) = carried_out(flash, config.config(), r, N as int);
            &&& flash2 == flash.insert(0, FlashItem::Flag(enabled))
            &&& data2 == ConfigView { ap_enabled: enabled, ..config.config() }
            &&& end == (Progress::Done { accepted: true, signal: Some(WifiSignal::ApReconfig) })
        }),
{
    reveal_with_fuel(carried_out, 3);
}

/// Switching the station on or off puts the switch under key 4, and tells the connection loop.
pub proof fn law_sta_is_switched<const N: usize, C: WifiManager<N>>(
    flash: Flash,
    config: C,
    enabled: bool,
    r: Progress,
)
    requires
        N <= 123,
        call_ensures(C::set_sta_enabled, (&config, enabled), r),
    ensures
        ({
            let (flash2, data2, end) = carried_out(flash, config.config(), r, N as int);
            &&& flash2 == flash.insert(4, FlashItem::Flag(enabled))
            &&& data2 == ConfigView { sta_enabled: enabled, ..config.config() }
            &&& end == (Progress::Done { accepted: true, signal: Some(WifiSignal::StaToggled) })
        }),
{
    reveal_with_fuel(carried_out, 3);
}

/// Whether a change that puts `text` under `key` and leads to the mirror `changed` ended as it
/// should: with `done` where the text has at most 64 bytes, and else turned down with nothing
/// changed.
pub open spec fn text_is_set(
    flash: Flash,
    data: ConfigView,
    key: u8,
    text: Seq<char>,
    changed: ConfigView,
    done: Progress,
    after: (Flash, ConfigView, Progress),
) -> bool {
    if encode_utf8(text).len() <= 64 {
        after == (flash.insert(key, FlashItem::Text(text)), changed, done)
    } else {
        after == (flash, data, Progress::Done { accepted: false, signal: None })
    }
}

/// Setting the access point's SSID puts it under key 1, and has the radio set up anew.
pub proof fn law_ap_ssid_is_set<const N: usize, C: WifiManager<N>>(
    flash: Flash,
    config: C,
    ssid: &str,
    r: Progress,
)
    requires
        N <= 123,
        call_ensures(C::set_ap_ssid, (&config, ssid), r),
    ensures
        text_is_set(
            flash,
            config.config(),
            1,
            ssid@,
            ConfigView { ap_ssid: Some(ssid@), ..config.config() },
            Progress::Done { accepted: true, signal: Some(WifiSignal::ApReconfig) },
            carried_out(flash, config.config(), r, N as int),
        ),
{
    reveal_with_fuel(carried_out, 3);
}

/// Setting the access point's password puts it under key 2, and has the radio set up anew.
pub proof fn law_ap_password_is_set<const N: usize, C: WifiManager<N>>(
    flash: Flash,
    config: C,
    password: &str,
    r: Progress,
)
    requires
        N <= 123,
        call_ensures(C::set_ap_password, (&config, password), r),
    ensures
        text_is_set(
            flash,
            config.config(),
            2,
            password@,
            ConfigView { ap_password: Some(password@), ..config.config() },
            Progress::Done { accepted: true, signal: Some(WifiSignal::ApReconfig) },
            carried_out(flash, config.config(), r, N as int),
        ),
{
    reveal_with_fuel(carried_out, 3);
}

/// Setting the access point's address puts it under key 3, and takes a reset to work.
pub proof fn law_ap_gateway_ip_is_set<const N: usize, C: WifiManager<N>>(
    flash: Flash,
    config: C,
    ip: &str,
    r: Progress,
)
    requires
        N <= 123,
        call_ensures(C::set_ap_gateway_ip, (&config, ip), r),
    ensures
        text_is_set(
            flash,
            config.config(),
            3,
            ip@,
            ConfigView { ap_gateway_ip: Some(ip@), ..config.config() },
            Progress::Reset,
            carried_out(flash, config.config(), r, N as int),
        ),
{
    reveal_with_fuel(carried_out, 3);
}

/// Setting the hostname puts it under key 5, and takes a reset to work.
pub proof fn law_hostname_is_set<const N: usize, C: WifiManager<N>>(
    flash: Flash,
    config: C,
    hostname: &str,
    r: Progress,
)
    requires
        N <= 123,
        call_ensures(C::set_hostname, (&config, hostname), r),
    ensures
        text_is_set(
            flash,
            config.config(),
            5,
            hostname@,
            ConfigView { hostname: Some(hostname@), ..config.config() },
            Progress::Reset,
            carried_out(flash, config.config(), r, N as int),
        ),
{
    reveal_with_fuel(carried_out, 3);
}

/// Setting the country code puts it under key 6, and takes a reset to work. A code that is not two
/// ASCII characters is turned down.
pub proof fn law_country_code_is_set<const N: usize, C: WifiManager<N>>(
    flash: Flash,
    config: C,
    code: &str,
    r: Progress,
)
    requires
        N <= 123,
        call_ensures(C::set_country_code, (&config, code), r),
    ensures
        ({
            let after = carried_out(flash, config.config(), r, N as int);
            if code@.len() == 2 && is_ascii_chars(code@) {
                after == (
                    flash.insert(6, FlashItem::Text(code@)),
                    ConfigView { country_code: Some(code@), ..config.config() },
                    Progress::Reset,
                )
            } else {
                after == (
                    flash,
                    config.config(),
                    Progress::Done { accepted: false, signal: None },
                )
            }
        }),
{
    reveal_with_fuel(carried_out, 3);
}

// ---- SSID and password of the access point at once ------------------------------------------

/// Flash, mirror and progress of a change, after as many writes as there are outcomes.
pub open spec fn carried_out_with(
    flash: Flash,
    data: ConfigView,
    progress: Progress,
    outcomes: Seq<bool>,
    n: int,
) -> (Flash, ConfigView, Progress)
    decreases outcomes.len(),
{
    match progress {
        Progress::Store(task) if outcomes.len() > 0 => {
            let (data, next) = resumed(task, data, outcomes[0], n);
            let flash = if outcomes[0] {
                flash.insert(task.write_key(), task.write_item())
            } else {
                flash
            };
            carried_out_with(flash, data, next, outcomes.drop_first(), n)
        },
        _ => (flash, data, progress),
    }
}

/// Setting SSID and password at once sets each that is given, that has at most 64 bytes and whose
/// write goes through, whatever becomes of the other. The change is accepted, and the radio set up
/// anew, where all that is given is set.
pub proof fn law_ap_is_configured<const N: usize, C: WifiManager<N>>(
    flash: Flash,
    config: C,
    ssid: Option<&str>,
    password: Option<&str>,
    first: bool,
    second: bool,
    r: Progress,
)
    requires
        call_ensures(C::configure_ap, (&config, ssid, password), r),
    ensures
        ({
            let (flash2, data2, end) = carried_out_with(
                flash,
                config.config(),
                r,
                seq![first, second],
                N as int,
            );
            let ssid_fits = ssid is Some && encode_utf8(ssid->0@).len() <= 64;
            let password_fits = password is Some && encode_utf8(password->0@).len() <= 64;
            let ssid_set = ssid_fits && first;
            let password_set = password_fits && (if ssid_fits {
                second
            } else {
                first
            });
            let with_ssid = if ssid_set {
                flash.insert(1, FlashItem::Text(ssid->0@))
            } else {
                flash
            };
            &&& flash2 == if password_set {
                with_ssid.insert(2, FlashItem::Text(password->0@))
            } else {
                with_ssid
            }
            &&& data2.ap_ssid == if ssid_set {
                Some(ssid->0@)
            } else {
                config.config().ap_ssid
            }
            &&& data2.ap_password == if password_set {
                Some(password->0@)
            } else {
                config.config().ap_password
            }
            &&& data2 == (ConfigView {
                ap_ssid: data2.ap_ssid,
                ap_password: data2.ap_password,
                ..config.config()
            })
            &&& end == if (ssid is None || ssid_set) && (password is None || password_set) {
                Progress::Done { accepted: true, signal: Some(WifiSignal::ApReconfig) }
            } else {
                Progress::Done { accepted: false, signal: None }
            }
        }),
{
    let both = seq![first, second];
    assert(both.drop_first() =~= seq![second]);
    assert(seq![second].drop_first() =~= Seq::empty());
    reveal_with_fuel(carried_out_with, 3);
    if let Progress::Store(task) = r {
        let (data1, next) = resumed(task, config.config(), first, N as int);
        let flash1 = if first {
            flash.insert(task.write_key(), task.write_item())
        } else {
            flash
        };
        assert(carried_out_with(flash, config.config(), r, both, N as int) == carried_out_with(
            flash1,
            data1,
            next,
            seq![second],
            N as int,
        ));
    }
}

// ---- The saved networks ---------------------------------------------------------------------

/// The key of the SSID in slot `i`: from 10 on, two for each slot.
pub open spec fn slot_ssid_key(i: int) -> u8 {
    (10 + 2 * i) as u8
}

/// The key of the password in slot `i`, right behind the SSID's.
pub open spec fn slot_password_key(i: int) -> u8 {
    (11 + 2 * i) as u8
}

/// A password as flash holds it: no password is the empty text.
pub open spec fn password_text(password: Option<Seq<char>>) -> FlashItem {
    FlashItem::Text(
        match password {
            Some(p) => p,
            None => Seq::empty(),
        },
    )
}

/// Whether adding a network ended as it should: it is the last in the list and in the slot of its
/// own, and `signal` is raised. A network that is too long, or for which there is no slot, is
/// turned down and nothing changes.
pub open spec fn network_is_added(
    flash: Flash,
    data: ConfigView,
    ssid: &str,
    password: Option<&str>,
    n: int,
    signal: Option<WifiSignal>,
    after: (Flash, ConfigView, Progress),
) -> bool {
    let i = data.networks.len() as int;
    let network = NetworkView {
        ssid: ssid@,
        password: match password {
            Some(p) => Some(p@),
            None => None,
        },
    };
    if i < n && encode_utf8(ssid@).len() <= 64 && (password is Some ==> encode_utf8(
        password->0@,
    ).len() <= 64) {
        after == (
            flash.insert(slot_ssid_key(i), FlashItem::Text(ssid@)).insert(
                slot_password_key(i),
                password_text(network.password),
            ),
            ConfigView { networks: data.networks.push(network), ..data },
            Progress::Done { accepted: true, signal },
        )
    } else {
        after == (flash, data, Progress::Done { accepted: false, signal: None })
    }
}

/// A network is added at the end of the list, with the SSID and the password given.
pub proof fn law_network_is_added<const N: usize, C: WifiManager<N>>(
    flash: Flash,
    config: C,
    ssid: &str,
    password: Option<&str>,
    r: Progress,
)
    requires
        N <= 123,
        call_ensures(C::add_sta_network, (&config, ssid, password), r),
    ensures
        network_is_added(
            flash,
            config.config(),
            ssid,
            password,
            N as int,
            None,
            carried_out(flash, config.config(), r, N as int),
        ),
{
    reveal_with_fuel(carried_out, 4);
}

/// A network that is added and connected to is added like any other, and is then asked for.
pub proof fn law_added_network_is_asked_for<const N: usize, C: WifiManager<N>>(
    flash: Flash,
    config: C,
    ssid: &str,
    password: Option<&str>,
    r: Progress,
)
    requires
        N <= 123,
        call_ensures(C::add_and_connect_sta_network, (&config, ssid, password), r),
    ensures
        network_is_added(
            flash,
            config.config(),
            ssid,
            password,
            N as int,
            Some(WifiSignal::Connect(config.config().networks.len() as usize)),
            carried_out(flash, config.config(), r, N as int),
        ),
{
    reveal_with_fuel(carried_out, 4);
}

/// Whether slot `i` of flash has the `i`th network, or is blank where there are not so many.
pub open spec fn slot_has(flash: Flash, networks: Seq<NetworkView>, i: int) -> bool {
    &&& flash.contains_key(slot_ssid_key(i))
    &&& flash.contains_key(slot_password_key(i))
    &&& if i < networks.len() {
        &&& flash[slot_ssid_key(i)] == FlashItem::Text(networks[i].ssid)
        &&& flash[slot_password_key(i)] == password_text(networks[i].password)
    } else {
        &&& flash[slot_ssid_key(i)] == FlashItem::Text(Seq::empty())
        &&& flash[slot_password_key(i)] == FlashItem::Text(Seq::empty())
    }
}

proof fn lemma_slots_are_rewritten(
    flash: Flash,
    data: ConfigView,
    networks: Vec<StaNetwork>,
    index: usize,
    n: int,
)
    requires
        index < n <= 123,
    ensures
        ({
            let (flash2, data2, end) = carried_out(
                flash,
                data,
                Progress::Store(WifiTask::RewriteSsid { networks, index }),
                n,
            );
            &&& forall|i: int|
                index <= i < n ==> #[trigger] slot_has(flash2, network_views(networks@), i)
            &&& forall|key: u8|
                key < 10 + 2 * index || key >= 10 + 2 * n ==> #[trigger] flash2.contains_key(key)
                    == flash.contains_key(key) && flash2[key] == flash[key]
            &&& data2 == data
            &&& end == (Progress::Done { accepted: true, signal: None })
        }),
    decreases n - index,
{
    reveal_with_fuel(carried_out, 4);
    let task = WifiTask::RewriteSsid { networks, index };
    let flash1 = flash.insert(task.write_key(), task.write_item());
    let next = WifiTask::RewritePassword { networks, index };
    let flash2 = flash1.insert(next.write_key(), next.write_item());
    assert(slot_has(flash2, network_views(networks@), index as int));
    if index + 1 < n {
        lemma_slots_are_rewritten(flash2, data, networks, (index + 1) as usize, n);
        let (flash3, _, _) = carried_out(
            flash2,
            data,
            Progress::Store(WifiTask::RewriteSsid { networks, index: (index + 1) as usize }),
            n,
        );
        let i = index as int;
        assert(flash3.contains_key(slot_ssid_key(i)) == flash2.contains_key(slot_ssid_key(i)));
        assert(flash3.contains_key(slot_password_key(i)) == flash2.contains_key(
            slot_password_key(i),
        ));
        assert(slot_has(flash3, network_views(networks@), i));
    }
}

/// Whether a list is another one without its item `index`.
pub open spec fn lacks_item(
    after: Seq<NetworkView>,
    before: Seq<NetworkView>,
    index: int,
) -> bool {
    &&& after.len() == before.len() - 1
    &&& forall|i: int| 0 <= i < index ==> #[trigger] after[i] == before[i]
    &&& forall|i: int| index <= i < after.len() ==> #[trigger] after[i] == before[i + 1]
}

/// Whether every one of the `n` slots in `after` has the network of its number, or is blank where
/// there are not so many, and everything outside the slots is as it was.
pub open spec fn slots_have(
    after: Flash,
    before: Flash,
    networks: Seq<NetworkView>,
    n: int,
) -> bool {
    &&& forall|i: int| 0 <= i < n ==> #[trigger] slot_has(after, networks, i)
    &&& forall|key: u8|
        key < 10 || key >= 10 + 2 * n ==> #[trigger] after.contains_key(key)
            == before.contains_key(key) && after[key] == before[key]
}

/// Removing a network takes exactly that one out of the list, at once, and the others keep their
/// order. Then every slot of flash is written, and nothing else in flash changes. Where there is no
/// such network nothing changes at all.
pub proof fn law_network_is_removed<const N: usize, C: WifiManager<N>>(
    flash: Flash,
    config: &mut C,
    index: usize,
    r: Progress,
)
    requires
        N <= 123,
        old(config).config().networks.len() <= N,
        call_ensures(C::remove_sta_network, (config, index), r),
    ensures
        index < old(config).config().networks.len() ==> {
            let before = old(config).config();
            let mirror = final(config).config();
            let (flash2, data2, end) = carried_out(flash, mirror, r, N as int);
            &&& lacks_item(mirror.networks, before.networks, index as int)
            &&& mirror == (ConfigView { networks: mirror.networks, ..before })
            &&& slots_have(flash2, flash, mirror.networks, N as int)
            &&& data2 == mirror
            &&& end == (Progress::Done { accepted: true, signal: None })
        },
        index >= old(config).config().networks.len() ==> {
            &&& final(config).config() == old(config).config()
            &&& r == (Progress::Done { accepted: false, signal: None })
        },
{
    if index < old(config).config().networks.len() {
        if let Progress::Store(WifiTask::RewriteSsid { networks, index: first }) = r {
            lemma_slots_are_rewritten(
                flash,
                final(config).config(),
                networks,
                first,
                N as int,
            );
        }
    }
}

} // verus!
