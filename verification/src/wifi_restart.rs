//! What a start of the WiFi configuration brings up: what flash holds, and the defaults for what
//! was never set up.
use crate::flash::{flag_at, text_at, Flash, FlashItem, FlashReply};
use crate::keys::{pw_key, ssid_key};
use crate::text::text64;
use crate::wifi_api::NetworkView;
use crate::wifi_boot::{
    default_task, fields_after, loaded_step, writes_default, DefaultField, LoadProgress, LoadStage,
    LoadTask, Missing,
};
use crate::wifi_changes::{password_text, slot_password_key, slot_ssid_key};
use crate::wifi_config::{fresh_config, FlashBackedWifiConfig, WifiDefaults};
use crate::wifi_laws::{
    law_load_reads_flash, loaded, loading, started, with_defaults_from, with_slots,
};
use crate::wifi_start::{is_next_default, StartOutcome, StartStep};
use crate::wifi_task::WifiTask;
use vstd::prelude::*;
use vstd::utf8::encode_utf8;

verus! {

/// Whether slot `i` of flash has a network: an SSID that is not empty.
pub open spec fn has_network(flash: Flash, i: int) -> bool {
    text_at(flash, slot_ssid_key(i)) matches Some(ssid) && ssid.len() > 0
}

/// Whether `at` lists the slots among the first `n` that have a network, in their order.
pub open spec fn are_slots_with_networks(flash: Flash, at: Seq<int>, n: int) -> bool {
    &&& forall|k: int| 0 <= k < at.len() ==> 0 <= #[trigger] at[k] < n && has_network(flash, at[k])
    &&& forall|j: int, k: int| 0 <= j < k < at.len() ==> #[trigger] at[j] < #[trigger] at[k]
    &&& forall|i: int| 0 <= i < n && #[trigger] has_network(flash, i) ==> at.contains(i)
}

/// Whether `network` is what slot `i` of flash has. An empty password, like an absent one, means
/// that there is none.
pub open spec fn is_network_in(flash: Flash, i: int, network: NetworkView) -> bool {
    &&& text_at(flash, slot_ssid_key(i)) == Some(network.ssid)
    &&& match text_at(flash, slot_password_key(i)) {
        Some(password) => if password.len() > 0 {
            network.password == Some(password)
        } else {
            network.password is None
        },
        None => network.password is None,
    }
}

proof fn lemma_networks_are_read(flash: Flash, i: int, n: int) -> (at: Seq<int>)
    requires
        0 <= i <= n <= 123,
    ensures
        are_slots_with_networks(flash, at, i),
        ({
            let networks = with_slots(flash, Seq::empty(), i, n);
            &&& networks.len() == at.len() <= i
            &&& forall|k: int|
                0 <= k < at.len() ==> is_network_in(flash, at[k], #[trigger] networks[k])
        }),
    decreases i,
{
    if i == 0 {
        Seq::empty()
    } else {
        let before = lemma_networks_are_read(flash, i - 1, n);
        let networks = with_slots(flash, Seq::empty(), i - 1, n);
        assert(ssid_key(i - 1) == slot_ssid_key(i - 1));
        assert(pw_key(i - 1) == slot_password_key(i - 1));
        if has_network(flash, i - 1) {
            let at = before.push(i - 1);
            let longer = with_slots(flash, Seq::empty(), i, n);
            assert(longer.len() == networks.len() + 1);
            assert forall|k: int| 0 <= k < at.len() implies is_network_in(
                flash,
                at[k],
                #[trigger] longer[k],
            ) by {
                if k < before.len() {
                    assert(longer[k] == networks[k]);
                }
            }
            assert forall|j: int|
                0 <= j < i && #[trigger] has_network(flash, j) implies at.contains(j) by {
                if j < i - 1 {
                    assert(before.contains(j));
                    let k = choose|k: int| 0 <= k < before.len() && before[k] == j;
                    assert(at[k] == j);
                } else {
                    assert(at[before.len() as int] == j);
                }
            }
            at
        } else {
            assert(with_slots(flash, Seq::empty(), i, n) == networks);
            before
        }
    }
}

/// A load brings what flash holds: the switches under keys 0 and 4, the texts under keys 1, 2, 3, 5
/// and 6, and the networks of the slots that have one, in the order of the slots. A switch that
/// flash does not hold is on where its interface has a default SSID; no text stands in for one that
/// flash does not hold.
pub proof fn law_load_brings_what_flash_holds(flash: Flash, defaults: WifiDefaults, n: int)
    requires
        0 <= n <= 123,
    ensures
        ({
            let data = loaded(flash, fresh_config(defaults), n);
            &&& match flag_at(flash, 0) {
                Some(on) => data.ap_enabled == on,
                None => data.ap_enabled == (defaults.ap_ssid is Some),
            }
            &&& match flag_at(flash, 4) {
                Some(on) => data.sta_enabled == on,
                None => data.sta_enabled == (defaults.sta_ssid is Some),
            }
            &&& data.ap_ssid == text_at(flash, 1)
            &&& data.ap_password == text_at(flash, 2)
            &&& data.ap_gateway_ip == text_at(flash, 3)
            &&& data.hostname == text_at(flash, 5)
            &&& data.country_code == text_at(flash, 6)
            &&& exists|at: Seq<int>|
                {
                    &&& #[trigger] are_slots_with_networks(flash, at, n)
                    &&& data.networks.len() == at.len()
                    &&& forall|k: int|
                        0 <= k < at.len() ==> is_network_in(
                            flash,
                            at[k],
                            #[trigger] data.networks[k],
                        )
                }
        }),
{
    let at = lemma_networks_are_read(flash, n, n);
    let data = loaded(flash, fresh_config(defaults), n);
    assert(data.networks == with_slots(flash, Seq::empty(), n, n));
}

/// A load that goes on with what flash answers ends with the mirror that [`loaded`] describes.
pub proof fn law_load_goes_on<const N: usize>(
    flash: Flash,
    defaults: WifiDefaults,
    config: &mut FlashBackedWifiConfig<N>,
    task: LoadTask,
    reply: FlashReply,
    r: LoadProgress,
)
    requires
        N <= 123,
        loading(flash, fresh_config(defaults), task, old(config)@, N as int),
        task.answered(reply, flash),
        call_ensures(FlashBackedWifiConfig::<N>::resume_load, (config, task, reply), r),
    ensures
        match r {
            LoadProgress::Fetch(next) => loading(
                flash,
                fresh_config(defaults),
                next,
                final(config)@,
                N as int,
            ),
            LoadProgress::Loaded(_) => final(config)@ == loaded(
                flash,
                fresh_config(defaults),
                N as int,
            ),
        },
{
    law_load_reads_flash(flash, fresh_config(defaults), task, old(config)@, reply, N as int);
}

/// A load fetches each field under its own key.
pub proof fn law_load_reads_its_keys(task: LoadTask, key: u8, flag: bool)
    requires
        task.in_range(123),
        call_ensures(LoadTask::key, (&task,), key),
        call_ensures(LoadTask::wants_flag, (&task,), flag),
    ensures
        match task.stage {
            LoadStage::ApEnabled => key == 0 && flag,
            LoadStage::StaEnabled => key == 4 && flag,
            LoadStage::ApSsid => key == 1 && !flag,
            LoadStage::ApPassword => key == 2 && !flag,
            LoadStage::ApGatewayIp => key == 3 && !flag,
            LoadStage::Hostname => key == 5 && !flag,
            LoadStage::CountryCode => key == 6 && !flag,
            LoadStage::SlotSsid { index } => key == 10 + 2 * index && !flag,
            LoadStage::SlotPassword { index, .. } => key == 11 + 2 * index && !flag,
        },
{
}

/// The text of a default, where there is one and it has at most 64 bytes.
pub open spec fn fitting(default: Option<&'static str>) -> Option<Seq<char>> {
    if default is Some && encode_utf8(default->0@).len() <= 64 {
        Some(default->0@)
    } else {
        None
    }
}

/// The text that flash holds, or else the default.
pub open spec fn text_or(held: Option<Seq<char>>, default: Option<Seq<char>>) -> Option<Seq<char>> {
    if held is Some {
        held
    } else {
        default
    }
}

/// Whether a start takes the built-in network over: its SSID fits, no slot has a network, and
/// nothing was ever written to slot 0.
pub open spec fn takes_built_in_network(flash: Flash, defaults: WifiDefaults, n: int) -> bool {
    &&& fitting(defaults.sta_ssid) is Some
    &&& text_at(flash, 10) is None
    &&& forall|i: int| 0 <= i < n ==> !#[trigger] has_network(flash, i)
}

proof fn lemma_no_network_is_read(flash: Flash, defaults: WifiDefaults, n: int)
    requires
        0 <= n <= 123,
    ensures
        (loaded(flash, fresh_config(defaults), n).networks.len() == 0) == (forall|i: int|
            0 <= i < n ==> !#[trigger] has_network(flash, i)),
{
    let at = lemma_networks_are_read(flash, n, n);
    if at.len() > 0 {
        assert(0 <= at[0] < n && has_network(flash, at[0]));
    } else {
        assert forall|i: int| 0 <= i < n implies !#[trigger] has_network(flash, i) by {
            if has_network(flash, i) {
                assert(at.contains(i));
            }
        }
    }
}

/// A start whose writes go through brings up every field as flash holds it. A text that flash does
/// not hold takes its default, if that fits; for the country code "01" is the default of last
/// resort.
pub proof fn law_start_brings_up_fields(flash: Flash, defaults: WifiDefaults, n: int)
    requires
        0 <= n <= 123,
    ensures
        ({
            let data = started(flash, defaults, n).1;
            &&& match flag_at(flash, 0) {
                Some(on) => data.ap_enabled == on,
                None => data.ap_enabled == (defaults.ap_ssid is Some),
            }
            &&& data.ap_ssid == text_or(text_at(flash, 1), fitting(defaults.ap_ssid))
            &&& data.ap_password == text_or(text_at(flash, 2), fitting(defaults.ap_password))
            &&& data.ap_gateway_ip == text_or(text_at(flash, 3), fitting(defaults.ap_gateway_ip))
            &&& data.hostname == text_or(text_at(flash, 5), fitting(defaults.hostname))
            &&& data.country_code == text_or(
                text_at(flash, 6),
                if defaults.country_code is Some {
                    fitting(defaults.country_code)
                } else {
                    Some("01"@)
                },
            )
        }),
{
    reveal_with_fuel(with_defaults_from, 9);
}

/// A start whose writes go through brings up the networks that flash holds, and the station as its
/// switch says. Where the built-in network is taken over it is the only one, with its password if
/// that fits, and the station is on.
pub proof fn law_start_brings_up_networks(flash: Flash, defaults: WifiDefaults, n: int)
    requires
        0 <= n <= 123,
    ensures
        ({
            let data = started(flash, defaults, n).1;
            if n > 0 && takes_built_in_network(flash, defaults, n) {
                &&& data.networks == seq![
                    NetworkView {
                        ssid: fitting(defaults.sta_ssid)->0,
                        password: fitting(defaults.sta_password),
                    },
                ]
                &&& data.sta_enabled
            } else {
                &&& data.networks == loaded(flash, fresh_config(defaults), n).networks
                &&& match flag_at(flash, 4) {
                    Some(on) => data.sta_enabled == on,
                    None => data.sta_enabled == (defaults.sta_ssid is Some),
                }
            }
        }),
{
    lemma_no_network_is_read(flash, defaults, n);
    reveal_with_fuel(with_defaults_from, 9);
}

/// A start whose writes go through leaves in flash what it brought up: the switches under keys 0
/// and 4, the texts under their keys, and a built-in network that it took over in slot 0. Every
/// other key is as it was.
pub proof fn law_start_stores_what_it_brings_up(flash: Flash, defaults: WifiDefaults, n: int)
    requires
        0 < n <= 123,
    ensures
        ({
            let (flash1, data) = started(flash, defaults, n);
            &&& flag_at(flash1, 0) == Some(data.ap_enabled)
            &&& flag_at(flash1, 4) == Some(data.sta_enabled)
            &&& text_at(flash1, 1) == data.ap_ssid
            &&& text_at(flash1, 2) == data.ap_password
            &&& text_at(flash1, 3) == data.ap_gateway_ip
            &&& text_at(flash1, 5) == data.hostname
            &&& text_at(flash1, 6) == data.country_code
            &&& takes_built_in_network(flash, defaults, n) ==> {
                &&& flash1.contains_key(10)
                &&& flash1[10] == FlashItem::Text(fitting(defaults.sta_ssid)->0)
                &&& flash1.contains_key(11)
                &&& flash1[11] == password_text(fitting(defaults.sta_password))
            }
            &&& forall|key: u8|
                key >= 7 && !(takes_built_in_network(flash, defaults, n) && (key == 10 || key
                    == 11)) ==> #[trigger] flash1.contains_key(key) == flash.contains_key(key)
                    && flash1[key] == flash[key]
        }),
{
    lemma_no_network_is_read(flash, defaults, n);
    reveal_with_fuel(with_defaults_from, 9);
}

// ---- The writes of a first boot -------------------------------------------------------------

/// Whether a write of `t` is what `default` calls for.
pub open spec fn writes_text(t: heapless::String<64>, default: Option<Seq<char>>) -> bool {
    default == Some(text64(t))
}

/// A default is written exactly where its field was never set up and there is a default that fits:
/// of a switch, whether its interface has a default SSID; of the list, the built-in network,
/// without its password where that does not fit; of the country code, "01" where no other is built
/// in.
pub proof fn law_default_is_written(
    field: DefaultField,
    missing: Missing,
    defaults: WifiDefaults,
    r: Option<WifiTask>,
)
    requires
        call_ensures(default_task, (field, &missing, &defaults), r),
    ensures
        ({
            let country = if defaults.country_code is Some {
                fitting(defaults.country_code)
            } else {
                Some("01"@)
            };
            match r {
                Some(WifiTask::DefaultApEnabled(on)) => field is ApEnabled && missing.ap_enabled
                    && on == (defaults.ap_ssid is Some),
                Some(WifiTask::DefaultStaEnabled(on)) => field is StaEnabled && missing.sta_enabled
                    && on == (defaults.sta_ssid is Some),
                Some(WifiTask::DefaultApSsid(t)) => field is ApSsid && missing.ap_ssid
                    && writes_text(t, fitting(defaults.ap_ssid)),
                Some(WifiTask::DefaultApPassword(t)) => field is ApPassword && missing.ap_password
                    && writes_text(t, fitting(defaults.ap_password)),
                Some(WifiTask::DefaultApGatewayIp(t)) => field is ApGatewayIp
                    && missing.ap_gateway_ip && writes_text(t, fitting(defaults.ap_gateway_ip)),
                Some(WifiTask::DefaultStaSsid(network)) => field is StaNetwork
                    && missing.sta_networks && writes_text(
                    network.ssid,
                    fitting(defaults.sta_ssid),
                ) && match network.password {
                    Some(t) => writes_text(t, fitting(defaults.sta_password)),
                    None => fitting(defaults.sta_password) is None,
                },
                Some(WifiTask::DefaultHostname(t)) => field is Hostname && missing.hostname
                    && writes_text(t, fitting(defaults.hostname)),
                Some(WifiTask::DefaultCountryCode(t)) => field is CountryCode
                    && missing.country_code && writes_text(t, country),
                Some(_) => false,
                None => match field {
                    DefaultField::ApEnabled => !missing.ap_enabled,
                    DefaultField::StaEnabled => !missing.sta_enabled,
                    DefaultField::ApSsid => !missing.ap_ssid || fitting(defaults.ap_ssid) is None,
                    DefaultField::ApPassword => !missing.ap_password || fitting(
                        defaults.ap_password,
                    ) is None,
                    DefaultField::ApGatewayIp => !missing.ap_gateway_ip || fitting(
                        defaults.ap_gateway_ip,
                    ) is None,
                    DefaultField::StaNetwork => !missing.sta_networks || fitting(
                        defaults.sta_ssid,
                    ) is None,
                    DefaultField::Hostname => !missing.hostname || fitting(
                        defaults.hostname,
                    ) is None,
                    DefaultField::CountryCode => !missing.country_code || country is None,
                },
            }
        }),
{
}

/// Whether `step` is the first write of a default that is called for after that of `field`, or the
/// end where none is.
pub open spec fn goes_on_after(
    field: DefaultField,
    missing: Missing,
    defaults: WifiDefaults,
    step: StartStep,
) -> bool {
    match step {
        StartStep::Fetch(_) => false,
        StartStep::Store { task, field: next, missing: m } => {
            &&& m == missing
            &&& fields_after(next) < fields_after(field)
            &&& writes_default(next, missing, defaults, Some(task))
            &&& forall|between: DefaultField|
                fields_after(next) < fields_after(between) < fields_after(field)
                    ==> #[trigger] writes_default(between, missing, defaults, None)
        },
        StartStep::Ready => forall|later: DefaultField|
            fields_after(later) < fields_after(field) ==> #[trigger] writes_default(
                later,
                missing,
                defaults,
                None,
            ),
    }
}

proof fn lemma_same_place(a: DefaultField, b: DefaultField)
    requires
        fields_after(a) == fields_after(b),
    ensures
        a == b,
{
}

proof fn lemma_goes_on_after(
    field: DefaultField,
    missing: Missing,
    defaults: WifiDefaults,
    step: StartStep,
)
    requires
        match field.following() {
            Some(next) => is_next_default(next, missing, defaults, step),
            None => step is Ready,
        },
    ensures
        goes_on_after(field, missing, defaults, step),
    decreases fields_after(field),
{
    if let Some(next) = field.following() {
        if writes_default(next, missing, defaults, None) {
            lemma_goes_on_after(next, missing, defaults, step);
            assert forall|g: DefaultField|
                fields_after(g) == fields_after(next) implies #[trigger] writes_default(
                g,
                missing,
                defaults,
                None,
            ) by {
                lemma_same_place(g, next);
            }
        }
    }
}

/// A default that cannot be written is passed over: the mirror stays as it is, and the start goes
/// on with the next default that is called for.
pub proof fn law_failed_default_is_passed_over<const N: usize>(
    config: &mut FlashBackedWifiConfig<N>,
    task: WifiTask,
    field: DefaultField,
    missing: Missing,
    defaults: WifiDefaults,
    next: StartStep,
)
    requires
        !(task is ConfigureSsid),
        call_ensures(
            FlashBackedWifiConfig::<N>::resume_init,
            (
                config,
                StartStep::Store { task, field, missing },
                StartOutcome::Stored(false),
                &defaults,
            ),
            next,
        ),
    ensures
        final(config)@ == old(config)@,
        goes_on_after(field, missing, defaults, next),
{
    lemma_goes_on_after(field, missing, defaults, next);
}

/// Once a load is over, the start goes on with the first default that is called for, in the order
/// in which defaults are written.
pub proof fn law_defaults_follow_load<const N: usize>(
    config: &mut FlashBackedWifiConfig<N>,
    task: LoadTask,
    reply: FlashReply,
    defaults: WifiDefaults,
    next: StartStep,
)
    requires
        call_ensures(
            FlashBackedWifiConfig::<N>::resume_init,
            (config, StartStep::Fetch(task), StartOutcome::Fetched(reply), &defaults),
            next,
        ),
    ensures
        match loaded_step(task, old(config)@, reply, N as int).1 {
            LoadProgress::Fetch(fetch) => next == StartStep::Fetch(fetch),
            LoadProgress::Loaded(missing) => if writes_default(
                DefaultField::ApEnabled,
                missing,
                defaults,
                None,
            ) {
                goes_on_after(DefaultField::ApEnabled, missing, defaults, next)
            } else {
                next matches StartStep::Store { field, .. } && field is ApEnabled
            },
        },
{
    if let LoadProgress::Loaded(missing) = loaded_step(task, old(config)@, reply, N as int).1 {
        if writes_default(DefaultField::ApEnabled, missing, defaults, None) {
            lemma_goes_on_after(DefaultField::ApEnabled, missing, defaults, next);
        }
    }
}

} // verus!
