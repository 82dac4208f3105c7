//! What holds of the WiFi configuration as a whole: the mirror and flash stay in step, and a
//! restart brings back what was set.
use crate::flash::{flag_at, text_at, Flash, FlashItem, FlashReply};
use crate::keys::{
    law_slot_keys_distinct, pw_key, ssid_key, KEY_AP_ENABLED, KEY_AP_GATEWAY_IP, KEY_AP_PASSWORD,
    KEY_AP_SSID, KEY_COUNTRY_CODE, KEY_HOSTNAME, KEY_STA_ENABLED, MAX_SLOTS,
};
use crate::text::text64;
use crate::wifi_api::{country_bytes, network_views, ConfigView, NetworkView};
use crate::wifi_boot::{
    default_country, default_network, fields_after, loaded_step, newer, read_password, usable,
    writes_default, DefaultField, LoadProgress, LoadStage, LoadTask, Missing,
};
use crate::wifi_config::{fresh_config, WifiDefaults};
use crate::wifi_task::{
    accepted, rejected, resumed, stored_password, with_network, PasswordPlan, Progress, WifiTask,
};
use vstd::prelude::*;
use vstd::utf8::{is_ascii_chars, is_ascii_chars_encode_utf8};

verus! {

/// A write that fails leaves the mirror as it is, and the change that it is for is not accepted
/// later on. Of a removal this means that the network, which left the mirror before the first
/// write, stays away from it, though flash may still hold it.
pub proof fn law_failed_write_changes_nothing(task: WifiTask, data: ConfigView, n: int)
    ensures
        resumed(task, data, false, n).0 == data,
        !(task is ConfigureSsid) ==> resumed(task, data, false, n).1 == rejected(),
        task is ConfigureSsid ==> match resumed(task, data, false, n).1 {
            Progress::Store(next) => next matches WifiTask::ConfigurePassword { ssid_ok, .. }
                && !ssid_ok,
            end => end == rejected(),
        },
{
}

/// With at most twenty slots every change writes under a key from 0 to 49.
pub proof fn law_changes_keep_to_reserved_keys(task: WifiTask, n: int)
    requires
        n <= 20,
        task.in_range(n),
    ensures
        task.write_key() <= 49,
{
}

/// With at most twenty slots a load reads keys from 0 to 49 only.
pub proof fn law_loads_keep_to_reserved_keys(task: LoadTask, n: int)
    requires
        n <= 20,
        task.in_range(n),
    ensures
        task.fetch_key() <= 49,
{
}

// ---- Loading --------------------------------------------------------------------------------

/// The networks in `networks` and slot `i` of flash.
pub open spec fn with_slot(flash: Flash, networks: Seq<NetworkView>, i: int, n: int) -> Seq<
    NetworkView,
> {
    match text_at(flash, ssid_key(i)) {
        Some(ssid) => if ssid.len() == 0 {
            networks
        } else {
            with_network(
                networks,
                NetworkView { ssid, password: read_password(text_at(flash, pw_key(i))) },
                n,
            )
        },
        None => networks,
    }
}

/// The networks in `networks` and the first `i` slots of flash.
pub open spec fn with_slots(flash: Flash, networks: Seq<NetworkView>, i: int, n: int) -> Seq<
    NetworkView,
>
    decreases i,
{
    if i <= 0 {
        networks
    } else {
        with_slot(flash, with_slots(flash, networks, i - 1, n), i - 1, n)
    }
}

pub open spec fn flag_or(flash: Flash, key: u8, default: bool) -> bool {
    match flag_at(flash, key) {
        Some(b) => b,
        None => default,
    }
}

/// `data` with the first `k` fields outside the slots read from flash.
pub open spec fn with_fields(flash: Flash, data: ConfigView, k: int) -> ConfigView {
    ConfigView {
        ap_enabled: if k >= 1 {
            flag_or(flash, KEY_AP_ENABLED, data.ap_enabled)
        } else {
            data.ap_enabled
        },
        sta_enabled: if k >= 2 {
            flag_or(flash, KEY_STA_ENABLED, data.sta_enabled)
        } else {
            data.sta_enabled
        },
        ap_ssid: if k >= 3 {
            newer(text_at(flash, KEY_AP_SSID), data.ap_ssid)
        } else {
            data.ap_ssid
        },
        ap_password: if k >= 4 {
            newer(text_at(flash, KEY_AP_PASSWORD), data.ap_password)
        } else {
            data.ap_password
        },
        ap_gateway_ip: if k >= 5 {
            newer(text_at(flash, KEY_AP_GATEWAY_IP), data.ap_gateway_ip)
        } else {
            data.ap_gateway_ip
        },
        hostname: if k >= 6 {
            newer(text_at(flash, KEY_HOSTNAME), data.hostname)
        } else {
            data.hostname
        },
        country_code: if k >= 7 {
            newer(text_at(flash, KEY_COUNTRY_CODE), data.country_code)
        } else {
            data.country_code
        },
        networks: data.networks,
    }
}

/// What a load of `flash` makes of the mirror `data`.
pub open spec fn loaded(flash: Flash, data: ConfigView, n: int) -> ConfigView {
    ConfigView {
        networks: with_slots(flash, data.networks, n, n),
        ..with_fields(flash, data, 7)
    }
}

/// Whether the list of networks was ever set up: something was written to slot 0. Where there is no
/// slot, the list goes by the station's switch.
pub open spec fn list_set_up(flash: Flash, n: int) -> bool {
    if n > 0 {
        text_at(flash, ssid_key(0)) is Some
    } else {
        flag_at(flash, KEY_STA_ENABLED) is Some
    }
}

/// What a load of `flash` that ended in the mirror `data` did not find.
pub open spec fn missing_in(flash: Flash, data: ConfigView, n: int) -> Missing {
    Missing {
        ap_enabled: flag_at(flash, KEY_AP_ENABLED) is None,
        sta_enabled: flag_at(flash, KEY_STA_ENABLED) is None,
        ap_ssid: data.ap_ssid is None,
        ap_password: data.ap_password is None,
        ap_gateway_ip: data.ap_gateway_ip is None,
        sta_networks: !list_set_up(flash, n) && data.networks.len() == 0,
        hostname: data.hostname is None,
        country_code: data.country_code is None,
    }
}

/// How many fields outside the slots are read before a stage.
pub open spec fn fields_before(stage: LoadStage) -> int {
    match stage {
        LoadStage::ApEnabled => 0,
        LoadStage::StaEnabled => 1,
        LoadStage::ApSsid => 2,
        LoadStage::ApPassword => 3,
        LoadStage::ApGatewayIp => 4,
        LoadStage::Hostname => 5,
        LoadStage::CountryCode => 6,
        LoadStage::SlotSsid { .. } => 7,
        LoadStage::SlotPassword { .. } => 7,
    }
}

/// Whether a load of `flash` that began with the mirror `start` may stand at `task` with the
/// mirror `data`.
pub open spec fn loading(
    flash: Flash,
    start: ConfigView,
    task: LoadTask,
    data: ConfigView,
    n: int,
) -> bool {
    let k = fields_before(task.stage);
    &&& k >= 1 ==> task.ap_enabled_missing == (flag_at(flash, KEY_AP_ENABLED) is None)
    &&& k >= 2 ==> task.sta_enabled_missing == (flag_at(flash, KEY_STA_ENABLED) is None)
    &&& match task.stage {
        LoadStage::SlotSsid { index } => {
            &&& index < n
            &&& index > 0 ==> task.list_missing == !list_set_up(flash, n)
            &&& data == ConfigView {
                networks: with_slots(flash, start.networks, index as int, n),
                ..with_fields(flash, start, 7)
            }
        },
        LoadStage::SlotPassword { index, ssid } => {
            &&& index < n
            &&& task.list_missing == !list_set_up(flash, n)
            &&& text64(ssid).len() > 0
            &&& text_at(flash, ssid_key(index as int)) == Some(text64(ssid))
            &&& data == ConfigView {
                networks: with_slots(flash, start.networks, index as int, n),
                ..with_fields(flash, start, 7)
            }
        },
        _ => data == with_fields(flash, start, k),
    }
}

/// A load that has read nothing yet stands at its first field with the mirror that it began with.
pub proof fn law_load_starts(flash: Flash, start: ConfigView, task: LoadTask, n: int)
    requires
        task.stage is ApEnabled,
    ensures
        loading(flash, start, task, start, n),
{
}

/// Each answer that flash gives takes a load one step on, and at its end the mirror holds what
/// flash holds, and kept what it held where flash holds nothing.
pub proof fn law_load_reads_flash(
    flash: Flash,
    start: ConfigView,
    task: LoadTask,
    data: ConfigView,
    reply: FlashReply,
    n: int,
)
    requires
        0 <= n <= MAX_SLOTS,
        loading(flash, start, task, data, n),
        task.answered(reply, flash),
    ensures
        match loaded_step(task, data, reply, n) {
            (after, LoadProgress::Fetch(next)) => loading(flash, start, next, after, n),
            (after, LoadProgress::Loaded(missing)) => after == loaded(flash, start, n)
                && missing == missing_in(flash, after, n),
        },
{
    reveal_with_fuel(with_slots, 2);
    let (after, progress) = loaded_step(task, data, reply, n);
    match task.stage {
        LoadStage::CountryCode => {
            assert(after =~= with_fields(flash, start, 7));
            assert(with_slots(flash, start.networks, 0, n) == start.networks);
        },
        LoadStage::SlotSsid { index } => {
            assert(with_slots(flash, start.networks, index + 1, n) == with_slot(
                flash,
                with_slots(flash, start.networks, index as int, n),
                index as int,
                n,
            ));
        },
        LoadStage::SlotPassword { index, ssid } => {
            assert(with_slots(flash, start.networks, index + 1, n) == with_slot(
                flash,
                with_slots(flash, start.networks, index as int, n),
                index as int,
                n,
            ));
        },
        _ => {},
    }
}

// ---- Flash and mirror in step ---------------------------------------------------------------

/// Whether slot `i` of flash holds the `i`-th network, and nothing where there is none.
pub open spec fn slot_mirrored(flash: Flash, networks: Seq<NetworkView>, i: int) -> bool {
    if i < networks.len() {
        &&& text_at(flash, ssid_key(i)) == Some(networks[i].ssid)
        &&& networks[i].ssid.len() > 0
        &&& read_password(text_at(flash, pw_key(i))) == networks[i].password
    } else {
        match text_at(flash, ssid_key(i)) {
            Some(ssid) => ssid.len() == 0,
            None => true,
        }
    }
}

/// Whether flash holds the texts outside the slots that the mirror holds.
pub open spec fn texts_mirrored(flash: Flash, data: ConfigView) -> bool {
    &&& text_at(flash, KEY_AP_SSID) == data.ap_ssid
    &&& text_at(flash, KEY_AP_PASSWORD) == data.ap_password
    &&& text_at(flash, KEY_AP_GATEWAY_IP) == data.ap_gateway_ip
    &&& text_at(flash, KEY_HOSTNAME) == data.hostname
    &&& text_at(flash, KEY_COUNTRY_CODE) == data.country_code
}

/// Whether flash and mirror say the same.
pub open spec fn mirrored(flash: Flash, data: ConfigView, n: int) -> bool {
    &&& flag_at(flash, KEY_AP_ENABLED) == Some(data.ap_enabled)
    &&& flag_at(flash, KEY_STA_ENABLED) == Some(data.sta_enabled)
    &&& texts_mirrored(flash, data)
    &&& data.networks.len() <= n
    &&& forall|i: int| 0 <= i < n ==> #[trigger] slot_mirrored(flash, data.networks, i)
}

proof fn lemma_slots_read_back(flash: Flash, networks: Seq<NetworkView>, i: int, n: int)
    requires
        0 <= i <= n,
        networks.len() <= n,
        forall|j: int| 0 <= j < n ==> #[trigger] slot_mirrored(flash, networks, j),
    ensures
        with_slots(flash, Seq::empty(), i, n) == if i <= networks.len() {
            networks.take(i)
        } else {
            networks
        },
    decreases i,
{
    if i > 0 {
        lemma_slots_read_back(flash, networks, i - 1, n);
        assert(slot_mirrored(flash, networks, i - 1));
        if i <= networks.len() {
            assert(networks.take(i) =~= networks.take(i - 1).push(networks[i - 1]));
        } else {
            assert(networks.take(networks.len() as int) =~= networks);
        }
    } else {
        assert(networks.take(0) =~= Seq::empty());
    }
}

/// A restart brings back what was set: where flash and mirror say the same, a load into a
/// fresh mirror ends with that mirror, whatever the defaults.
pub proof fn law_restart_restores(flash: Flash, data: ConfigView, defaults: WifiDefaults, n: int)
    requires
        0 <= n <= MAX_SLOTS,
        mirrored(flash, data, n),
    ensures
        loaded(flash, fresh_config(defaults), n) == data,
{
    lemma_slots_read_back(flash, data.networks, n, n);
    assert(data.networks.take(n) =~= data.networks || data.networks.len() < n);
    assert(loaded(flash, fresh_config(defaults), n) =~= data);
}

// ---- Changes --------------------------------------------------------------------------------

/// An upper bound on the writes that a task still calls for.
pub open spec fn writes_left(task: WifiTask, n: int) -> nat {
    match task {
        WifiTask::ConfigureSsid { .. } => 2,
        WifiTask::AddSsid { .. } => 2,
        WifiTask::RewriteSsid { index, .. } => if index < n {
            (2 * (n - index)) as nat
        } else {
            2
        },
        WifiTask::RewritePassword { index, .. } => if index < n {
            (2 * (n - index) - 1) as nat
        } else {
            1
        },
        WifiTask::DefaultStaSsid(_) => 3,
        WifiTask::DefaultStaPassword(_) => 2,
        _ => 1,
    }
}

/// A change ends: whether its writes go through or fail, each one leaves fewer to be done.
pub proof fn law_change_ends(task: WifiTask, data: ConfigView, stored: bool, n: int)
    requires
        n <= MAX_SLOTS,
    ensures
        resumed(task, data, stored, n).1 matches Progress::Store(next) ==> writes_left(next, n)
            < writes_left(task, n),
{
}

/// Flash, mirror and outcome of a change whose writes all go through.
pub open spec fn carried_out(flash: Flash, data: ConfigView, progress: Progress, n: int) -> (
    Flash,
    ConfigView,
    Progress,
)
    decreases
            match progress {
                Progress::Store(task) => writes_left(task, n),
                _ => 0,
            },
    when n <= MAX_SLOTS
{
    match progress {
        Progress::Store(task) => {
            let (data, next) = resumed(task, data, true, n);
            carried_out(flash.insert(task.write_key(), task.write_item()), data, next, n)
        },
        _ => (flash, data, progress),
    }
}

proof fn lemma_scalar_write(flash: Flash, networks: Seq<NetworkView>, key: u8, item: FlashItem, n: int)
    requires
        0 <= n <= MAX_SLOTS,
        key <= KEY_COUNTRY_CODE,
        forall|i: int| 0 <= i < n ==> #[trigger] slot_mirrored(flash, networks, i),
    ensures
        forall|i: int| 0 <= i < n ==> #[trigger] slot_mirrored(flash.insert(key, item), networks, i),
{
    assert forall|i: int| 0 <= i < n implies #[trigger] slot_mirrored(
        flash.insert(key, item),
        networks,
        i,
    ) by {
        law_slot_keys_distinct(i, i);
        assert(slot_mirrored(flash, networks, i));
    }
}

/// Whether a change of the access point, the switches, the hostname or the country code is at
/// its start.
pub open spec fn starts_field_change(task: WifiTask) -> bool {
    match task {
        WifiTask::ApEnabled(_) | WifiTask::StaEnabled(_) | WifiTask::ApSsid(_)
        | WifiTask::ApPassword(_) | WifiTask::ApGatewayIp(_) | WifiTask::CountryCode(_)
        | WifiTask::Hostname(_) | WifiTask::ConfigureSsid { .. } => true,
        WifiTask::ConfigurePassword { .. } => true,
        _ => false,
    }
}

/// A change of a field outside the network list whose writes go through leaves flash and
/// mirror in step, so that it outlasts a restart.
pub proof fn law_field_change_persists(flash: Flash, data: ConfigView, task: WifiTask, n: int)
    requires
        0 <= n <= MAX_SLOTS,
        mirrored(flash, data, n),
        starts_field_change(task),
    ensures
        ({
            let (flash2, data2, end) = carried_out(flash, data, Progress::Store(task), n);
            mirrored(flash2, data2, n) && !(end is Store)
        }),
{
    reveal_with_fuel(carried_out, 3);
    lemma_scalar_write(flash, data.networks, task.write_key(), task.write_item(), n);
    if let WifiTask::ConfigureSsid { ssid, plan } = task {
        if let PasswordPlan::Replace(p) = plan {
            let next = WifiTask::ConfigurePassword { ssid_ok: true, password: p };
            lemma_scalar_write(
                flash.insert(task.write_key(), task.write_item()),
                data.networks,
                next.write_key(),
                next.write_item(),
                n,
            );
        }
    }
}

/// A network that a restart can bring back: flash has no sign for an empty SSID or an empty
/// password.
pub open spec fn storable(network: NetworkView) -> bool {
    network.ssid.len() > 0 && network.password != Some(Seq::<char>::empty())
}

proof fn lemma_password_reads_back(password: Option<Seq<char>>)
    requires
        password != Some(Seq::<char>::empty()),
    ensures
        read_password(Some(stored_password(password))) == password,
{
    if let Some(p) = password {
        if p.len() == 0 {
            assert(p =~= Seq::empty());
        }
    }
}

/// Adding a network puts it at the end of the list, and leaves flash and mirror in step.
pub proof fn law_added_network_persists(
    flash: Flash,
    data: ConfigView,
    task: WifiTask,
    n: int,
)
    requires
        0 <= n <= MAX_SLOTS,
        mirrored(flash, data, n),
        task matches WifiTask::AddSsid { network, index, .. } && index == data.networks.len()
            && index < n && storable(network@),
    ensures
        ({
            let (flash2, data2, end) = carried_out(flash, data, Progress::Store(task), n);
            &&& mirrored(flash2, data2, n)
            &&& data2 == ConfigView {
                networks: data.networks.push(task->AddSsid_network@),
                ..data
            }
            &&& end == accepted(
                if task->AddSsid_connect {
                    Some(crate::signals::WifiSignal::Connect(task->AddSsid_index))
                } else {
                    None
                },
            )
        }),
{
    reveal_with_fuel(carried_out, 4);
    if let WifiTask::AddSsid { network, index, connect } = task {
        let flash1 = flash.insert(task.write_key(), task.write_item());
        let next = WifiTask::AddPassword { network, index, connect };
        let flash2 = flash1.insert(next.write_key(), next.write_item());
        let networks = data.networks.push(network@);
        assert(carried_out(flash, data, Progress::Store(task), n).0 == flash2);
        law_slot_keys_distinct(index as int, index as int);
        lemma_password_reads_back(network@.password);
        assert forall|i: int| 0 <= i < n implies #[trigger] slot_mirrored(
            flash2,
            networks,
            i,
        ) by {
            law_slot_keys_distinct(i, index as int);
            law_slot_keys_distinct(index as int, i);
            assert(slot_mirrored(flash, data.networks, i));
        }
    }
}

proof fn lemma_rewrite(
    flash: Flash,
    data: ConfigView,
    networks: Vec<crate::wifi_api::StaNetwork>,
    index: usize,
    n: int,
)
    requires
        index < n <= MAX_SLOTS,
        network_views(networks@) == data.networks,
        data.networks.len() <= n,
        flag_at(flash, KEY_AP_ENABLED) == Some(data.ap_enabled),
        flag_at(flash, KEY_STA_ENABLED) == Some(data.sta_enabled),
        texts_mirrored(flash, data),
        forall|i: int| 0 <= i < data.networks.len() ==> storable(#[trigger] data.networks[i]),
        forall|i: int| 0 <= i < index ==> #[trigger] slot_mirrored(flash, data.networks, i),
    ensures
        ({
            let (flash2, data2, end) = carried_out(
                flash,
                data,
                Progress::Store(WifiTask::RewriteSsid { networks, index }),
                n,
            );
            mirrored(flash2, data2, n) && data2 == data && end == accepted(None)
        }),
    decreases n - index,
{
    reveal_with_fuel(carried_out, 4);
    let task = WifiTask::RewriteSsid { networks, index };
    let flash1 = flash.insert(task.write_key(), task.write_item());
    let next = WifiTask::RewritePassword { networks, index };
    let flash2 = flash1.insert(next.write_key(), next.write_item());
    law_slot_keys_distinct(index as int, index as int);
    if index < data.networks.len() {
        assert(storable(data.networks[index as int]));
        lemma_password_reads_back(data.networks[index as int].password);
    }
    assert forall|i: int| 0 <= i < index + 1 implies #[trigger] slot_mirrored(
        flash2,
        data.networks,
        i,
    ) by {
        law_slot_keys_distinct(i, index as int);
        law_slot_keys_distinct(index as int, i);
        if i < index {
            assert(slot_mirrored(flash, data.networks, i));
        }
    }
    if index + 1 < n {
        lemma_rewrite(flash2, data, networks, (index + 1) as usize, n);
    }
}

/// Removing a network leaves the others in their order, and once all slots are written anew
/// flash and mirror are in step.
pub proof fn law_removed_network_persists(
    flash: Flash,
    data: ConfigView,
    removed: int,
    task: WifiTask,
    n: int,
)
    requires
        0 <= n <= MAX_SLOTS,
        mirrored(flash, data, n),
        0 <= removed < data.networks.len(),
        task matches WifiTask::RewriteSsid { networks, index } && index == 0 && network_views(
            networks@,
        ) == data.networks.remove(removed),
    ensures
        ({
            let mirror = ConfigView { networks: data.networks.remove(removed), ..data };
            let (flash2, data2, end) = carried_out(flash, mirror, Progress::Store(task), n);
            mirrored(flash2, data2, n) && data2 == mirror && end == accepted(None)
        }),
{
    let mirror = ConfigView { networks: data.networks.remove(removed), ..data };
    if let WifiTask::RewriteSsid { networks, index } = task {
        assert forall|i: int| 0 <= i < mirror.networks.len() implies storable(
            #[trigger] mirror.networks[i],
        ) by {
            let j = if i < removed {
                i
            } else {
                i + 1
            };
            assert(mirror.networks[i] == data.networks[j]);
            assert(slot_mirrored(flash, data.networks, j));
        }
        lemma_rewrite(flash, mirror, networks, index, n);
    }
}

// ---- First boot -----------------------------------------------------------------------------

/// Flash and mirror after the default of one field, where its writes go through.
pub open spec fn with_default(
    field: DefaultField,
    missing: Missing,
    defaults: WifiDefaults,
    flash: Flash,
    data: ConfigView,
    n: int,
) -> (Flash, ConfigView) {
    match field {
        DefaultField::ApEnabled => if missing.ap_enabled {
            (flash.insert(KEY_AP_ENABLED, FlashItem::Flag(defaults.ap_ssid is Some)), data)
        } else {
            (flash, data)
        },
        DefaultField::StaEnabled => if missing.sta_enabled {
            (flash.insert(KEY_STA_ENABLED, FlashItem::Flag(defaults.sta_ssid is Some)), data)
        } else {
            (flash, data)
        },
        DefaultField::ApSsid => match usable(defaults.ap_ssid) {
            Some(t) if missing.ap_ssid => (
                flash.insert(KEY_AP_SSID, FlashItem::Text(t)),
                ConfigView { ap_ssid: Some(t), ..data },
            ),
            _ => (flash, data),
        },
        DefaultField::ApPassword => match usable(defaults.ap_password) {
            Some(t) if missing.ap_password => (
                flash.insert(KEY_AP_PASSWORD, FlashItem::Text(t)),
                ConfigView { ap_password: Some(t), ..data },
            ),
            _ => (flash, data),
        },
        DefaultField::ApGatewayIp => match usable(defaults.ap_gateway_ip) {
            Some(t) if missing.ap_gateway_ip => (
                flash.insert(KEY_AP_GATEWAY_IP, FlashItem::Text(t)),
                ConfigView { ap_gateway_ip: Some(t), ..data },
            ),
            _ => (flash, data),
        },
        DefaultField::StaNetwork => match default_network(defaults) {
            Some(network) if missing.sta_networks => (
                flash.insert(ssid_key(0), FlashItem::Text(network.ssid)).insert(
                    pw_key(0),
                    FlashItem::Text(stored_password(network.password)),
                ).insert(KEY_STA_ENABLED, FlashItem::Flag(true)),
                ConfigView {
                    networks: with_network(data.networks, network, n),
                    sta_enabled: true,
                    ..data
                },
            ),
            _ => (flash, data),
        },
        DefaultField::Hostname => match usable(defaults.hostname) {
            Some(t) if missing.hostname => (
                flash.insert(KEY_HOSTNAME, FlashItem::Text(t)),
                ConfigView { hostname: Some(t), ..data },
            ),
            _ => (flash, data),
        },
        DefaultField::CountryCode => match default_country(defaults) {
            Some(t) if missing.country_code => (
                flash.insert(KEY_COUNTRY_CODE, FlashItem::Text(t)),
                ConfigView { country_code: Some(t), ..data },
            ),
            _ => (flash, data),
        },
    }
}

/// The task for a default, carried out, has the effect stated by [`with_default`].
pub proof fn law_default_task_effect(
    field: DefaultField,
    missing: Missing,
    defaults: WifiDefaults,
    task: Option<WifiTask>,
    flash: Flash,
    data: ConfigView,
    n: int,
)
    requires
        0 <= n <= MAX_SLOTS,
        writes_default(field, missing, defaults, task),
    ensures
        with_default(field, missing, defaults, flash, data, n) == match task {
            Some(task) => {
                let (flash2, data2, _) = carried_out(flash, data, Progress::Store(task), n);
                (flash2, data2)
            },
            None => (flash, data),
        },
{
    reveal_with_fuel(carried_out, 5);
}

/// Flash and mirror after the defaults of `field` and of all fields after it.
pub open spec fn with_defaults_from(
    field: DefaultField,
    missing: Missing,
    defaults: WifiDefaults,
    flash: Flash,
    data: ConfigView,
    n: int,
) -> (Flash, ConfigView)
    decreases fields_after(field),
{
    let (flash, data) = with_default(field, missing, defaults, flash, data, n);
    match field.following() {
        Some(next) => with_defaults_from(next, missing, defaults, flash, data, n),
        None => (flash, data),
    }
}

/// Flash and mirror after a start whose writes go through.
pub open spec fn started(flash: Flash, defaults: WifiDefaults, n: int) -> (Flash, ConfigView) {
    let data = loaded(flash, fresh_config(defaults), n);
    with_defaults_from(
        DefaultField::ApEnabled,
        missing_in(flash, data, n),
        defaults,
        flash,
        data,
        n,
    )
}

/// Whether the slots of flash hold networks without a gap.
pub open spec fn gapless(flash: Flash, n: int) -> bool {
    exists|count: int|
        0 <= count <= n && #[trigger] filled_slots(flash, count, n)
}

/// Whether the first `count` slots hold a network, and the others none.
pub open spec fn filled_slots(flash: Flash, count: int, n: int) -> bool {
    forall|i: int|
        0 <= i < n ==> ((#[trigger] text_at(flash, ssid_key(i)) matches Some(t) && t.len() > 0)
            == (i < count))
}

/// Whether a start takes the built-in network over into a slot: the list was never set up.
pub open spec fn takes_network(flash: Flash, defaults: WifiDefaults, n: int) -> bool {
    let missing = missing_in(flash, loaded(flash, fresh_config(defaults), n), n);
    missing.sta_networks && default_network(defaults) is Some && n > 0
}

/// Whether the built-in network is one that a restart can bring back, where a start takes it over.
pub open spec fn default_network_storable(
    flash: Flash,
    defaults: WifiDefaults,
    n: int,
) -> bool {
    takes_network(flash, defaults, n) ==> storable(default_network(defaults)->0)
}

/// Whether flash and mirror say the same outside the slots, but for switches that flash does not
/// hold yet.
spec fn agrees(flash: Flash, data: ConfigView, defaults: WifiDefaults) -> bool {
    &&& data.ap_enabled == flag_or(flash, KEY_AP_ENABLED, defaults.ap_ssid is Some)
    &&& data.sta_enabled == flag_or(flash, KEY_STA_ENABLED, defaults.sta_ssid is Some)
    &&& texts_mirrored(flash, data)
}

spec fn lacks(field: DefaultField, missing: Missing) -> bool {
    match field {
        DefaultField::ApEnabled => missing.ap_enabled,
        DefaultField::StaEnabled => missing.sta_enabled,
        DefaultField::ApSsid => missing.ap_ssid,
        DefaultField::ApPassword => missing.ap_password,
        DefaultField::ApGatewayIp => missing.ap_gateway_ip,
        DefaultField::StaNetwork => missing.sta_networks,
        DefaultField::Hostname => missing.hostname,
        DefaultField::CountryCode => missing.country_code,
    }
}

spec fn has_default(field: DefaultField, defaults: WifiDefaults) -> bool {
    match field {
        DefaultField::ApEnabled => true,
        DefaultField::StaEnabled => true,
        DefaultField::ApSsid => usable(defaults.ap_ssid) is Some,
        DefaultField::ApPassword => usable(defaults.ap_password) is Some,
        DefaultField::ApGatewayIp => usable(defaults.ap_gateway_ip) is Some,
        DefaultField::StaNetwork => default_network(defaults) is Some,
        DefaultField::Hostname => usable(defaults.hostname) is Some,
        DefaultField::CountryCode => default_country(defaults) is Some,
    }
}

spec fn settled(
    field: DefaultField,
    flash: Flash,
    data: ConfigView,
    defaults: WifiDefaults,
    n: int,
) -> bool {
    lacks(field, missing_in(flash, data, n)) ==> !has_default(field, defaults)
}

/// Where a start stands before the default of `field`.
spec fn starting(
    field: DefaultField,
    missing: Missing,
    defaults: WifiDefaults,
    flash: Flash,
    data: ConfigView,
    n: int,
) -> bool {
    &&& agrees(flash, data, defaults)
    &&& forall|g: DefaultField|
        fields_after(g) > fields_after(field) ==> #[trigger] settled(g, flash, data, defaults, n)
    &&& forall|g: DefaultField|
        fields_after(g) <= fields_after(field) && !(g is StaNetwork) ==> #[trigger] lacks(
            g,
            missing,
        ) == lacks(g, missing_in(flash, data, n))
    &&& missing_in(flash, data, n).sta_networks ==> missing.sta_networks
}

proof fn lemma_default_lacks(
    field: DefaultField,
    missing: Missing,
    defaults: WifiDefaults,
    flash: Flash,
    data: ConfigView,
    n: int,
    g: DefaultField,
)
    requires
        0 <= n <= MAX_SLOTS,
        if field is StaNetwork {
            &&& missing_in(flash, data, n).sta_networks ==> missing.sta_networks
            &&& flag_at(flash, KEY_STA_ENABLED) is Some
        } else {
            lacks(field, missing) == lacks(field, missing_in(flash, data, n))
        },
    ensures
        ({
            let (flash2, data2) = with_default(field, missing, defaults, flash, data, n);
            let before = lacks(g, missing_in(flash, data, n));
            let after = lacks(g, missing_in(flash2, data2, n));
            &&& after ==> before
            &&& g != field && !(g is StaNetwork) && !(field is StaNetwork) ==> after == before
            &&& field is StaNetwork && !(g is StaNetwork) && !(g is StaEnabled) ==> after == before
            &&& g == field ==> settled(g, flash2, data2, defaults, n)
        }),
{
    law_slot_keys_distinct(0, 0);
}

proof fn lemma_default_agrees(
    field: DefaultField,
    missing: Missing,
    defaults: WifiDefaults,
    flash: Flash,
    data: ConfigView,
    n: int,
)
    requires
        agrees(flash, data, defaults),
        !(field is StaNetwork) ==> lacks(field, missing) == lacks(
            field,
            missing_in(flash, data, n),
        ),
    ensures
        ({
            let (flash2, data2) = with_default(field, missing, defaults, flash, data, n);
            agrees(flash2, data2, defaults)
        }),
{
    law_slot_keys_distinct(0, 0);
}

proof fn lemma_default_step(
    field: DefaultField,
    missing: Missing,
    defaults: WifiDefaults,
    flash: Flash,
    data: ConfigView,
    n: int,
)
    requires
        0 <= n <= MAX_SLOTS,
        starting(field, missing, defaults, flash, data, n),
    ensures
        ({
            let (flash2, data2) = with_default(field, missing, defaults, flash, data, n);
            &&& agrees(flash2, data2, defaults)
            &&& forall|g: DefaultField|
                fields_after(g) >= fields_after(field) ==> #[trigger] settled(
                    g,
                    flash2,
                    data2,
                    defaults,
                    n,
                )
            &&& field.following() matches Some(next) ==> starting(
                next,
                missing,
                defaults,
                flash2,
                data2,
                n,
            )
        }),
{
    let (flash2, data2) = with_default(field, missing, defaults, flash, data, n);
    if field is StaNetwork {
        assert(settled(DefaultField::StaEnabled, flash, data, defaults, n));
    } else {
        assert(lacks(field, missing) == lacks(field, missing_in(flash, data, n)));
    }
    lemma_default_agrees(field, missing, defaults, flash, data, n);
    assert forall|g: DefaultField|
        fields_after(g) >= fields_after(field) implies #[trigger] settled(
        g,
        flash2,
        data2,
        defaults,
        n,
    ) by {
        lemma_default_lacks(field, missing, defaults, flash, data, n, g);
        if g != field {
            assert(settled(g, flash, data, defaults, n));
        }
    }
    assert forall|g: DefaultField|
        fields_after(g) < fields_after(field) && !(g is StaNetwork) implies #[trigger] lacks(
        g,
        missing,
    ) == lacks(g, missing_in(flash2, data2, n)) by {
        lemma_default_lacks(field, missing, defaults, flash, data, n, g);
        assert(lacks(g, missing) == lacks(g, missing_in(flash, data, n)));
    }
    lemma_default_lacks(field, missing, defaults, flash, data, n, DefaultField::StaNetwork);
}

proof fn lemma_defaults_settle(
    field: DefaultField,
    missing: Missing,
    defaults: WifiDefaults,
    flash: Flash,
    data: ConfigView,
    n: int,
)
    requires
        0 <= n <= MAX_SLOTS,
        starting(field, missing, defaults, flash, data, n),
    ensures
        ({
            let (flash2, data2) = with_defaults_from(field, missing, defaults, flash, data, n);
            &&& agrees(flash2, data2, defaults)
            &&& forall|g: DefaultField| #[trigger] settled(g, flash2, data2, defaults, n)
        }),
    decreases fields_after(field),
{
    lemma_default_step(field, missing, defaults, flash, data, n);
    let (flash2, data2) = with_default(field, missing, defaults, flash, data, n);
    match field.following() {
        Some(next) => lemma_defaults_settle(next, missing, defaults, flash2, data2, n),
        None => {},
    }
}

/// Whether what `missing` lists leaves `key` to the defaults.
spec fn left_to_defaults(missing: Missing, defaults: WifiDefaults, key: u8) -> bool {
    if key == KEY_AP_ENABLED {
        missing.ap_enabled
    } else if key == KEY_AP_SSID {
        missing.ap_ssid
    } else if key == KEY_AP_PASSWORD {
        missing.ap_password
    } else if key == KEY_AP_GATEWAY_IP {
        missing.ap_gateway_ip
    } else if key == KEY_HOSTNAME {
        missing.hostname
    } else if key == KEY_COUNTRY_CODE {
        missing.country_code
    } else {
        ||| key == KEY_STA_ENABLED && missing.sta_enabled
        ||| missing.sta_networks && default_network(defaults) is Some
    }
}

proof fn lemma_defaults_keep(
    field: DefaultField,
    missing: Missing,
    defaults: WifiDefaults,
    flash: Flash,
    data: ConfigView,
    n: int,
    key: u8,
)
    requires
        !left_to_defaults(missing, defaults, key),
    ensures
        ({
            let (flash2, data2) = with_defaults_from(field, missing, defaults, flash, data, n);
            &&& flash2.contains_key(key) == flash.contains_key(key)
            &&& flash2[key] == flash[key]
            &&& key == KEY_STA_ENABLED ==> data2.sta_enabled == data.sta_enabled
            &&& key == KEY_STA_ENABLED || key > KEY_COUNTRY_CODE ==> data2.networks
                == data.networks
        }),
    decreases fields_after(field),
{
    law_slot_keys_distinct(0, 0);
    let (flash2, data2) = with_default(field, missing, defaults, flash, data, n);
    match field.following() {
        Some(next) => lemma_defaults_keep(next, missing, defaults, flash2, data2, n, key),
        None => {},
    }
}

proof fn lemma_default_slots(
    field: DefaultField,
    missing: Missing,
    defaults: WifiDefaults,
    flash: Flash,
    data: ConfigView,
    n: int,
)
    requires
        0 <= n <= MAX_SLOTS,
        forall|i: int| 0 <= i < n ==> #[trigger] slot_mirrored(flash, data.networks, i),
        field is StaNetwork && missing.sta_networks ==> data.networks.len() == 0,
        missing.sta_networks && default_network(defaults) is Some && n > 0
            ==> storable(default_network(defaults)->0),
    ensures
        ({
            let (flash2, data2) = with_default(field, missing, defaults, flash, data, n);
            forall|i: int| 0 <= i < n ==> #[trigger] slot_mirrored(flash2, data2.networks, i)
        }),
{
    let (flash2, data2) = with_default(field, missing, defaults, flash, data, n);
    law_slot_keys_distinct(0, 0);
    assert forall|i: int| 0 <= i < n implies #[trigger] slot_mirrored(
        flash2,
        data2.networks,
        i,
    ) by {
        law_slot_keys_distinct(i, 0);
        law_slot_keys_distinct(0, i);
        law_slot_keys_distinct(i, i);
        assert(slot_mirrored(flash, data.networks, i));
        if field is StaNetwork && lacks(field, missing) && default_network(defaults) is Some {
            lemma_password_reads_back(default_network(defaults)->0.password);
        }
    }
}

proof fn lemma_defaults_slots(
    field: DefaultField,
    missing: Missing,
    defaults: WifiDefaults,
    flash: Flash,
    data: ConfigView,
    n: int,
)
    requires
        0 <= n <= MAX_SLOTS,
        data.networks.len() <= n,
        forall|i: int| 0 <= i < n ==> #[trigger] slot_mirrored(flash, data.networks, i),
        missing.sta_networks && fields_after(field) >= fields_after(DefaultField::StaNetwork)
            ==> data.networks.len() == 0,
        missing.sta_networks && default_network(defaults) is Some && n > 0
            ==> storable(default_network(defaults)->0),
    ensures
        ({
            let (flash2, data2) = with_defaults_from(field, missing, defaults, flash, data, n);
            &&& data2.networks.len() <= n
            &&& forall|i: int| 0 <= i < n ==> #[trigger] slot_mirrored(flash2, data2.networks, i)
        }),
    decreases fields_after(field),
{
    lemma_default_slots(field, missing, defaults, flash, data, n);
    let (flash2, data2) = with_default(field, missing, defaults, flash, data, n);
    match field.following() {
        Some(next) => lemma_defaults_slots(next, missing, defaults, flash2, data2, n),
        None => {},
    }
}

proof fn lemma_same_slots(flash: Flash, flash2: Flash, i: int, n: int)
    requires
        0 <= i <= n,
        forall|j: int|
            0 <= j < n ==> text_at(flash2, #[trigger] ssid_key(j)) == text_at(flash, ssid_key(j)),
        forall|j: int|
            0 <= j < n ==> text_at(flash2, #[trigger] pw_key(j)) == text_at(flash, pw_key(j)),
    ensures
        with_slots(flash2, Seq::empty(), i, n) == with_slots(flash, Seq::empty(), i, n),
    decreases i,
{
    if i > 0 {
        lemma_same_slots(flash, flash2, i - 1, n);
        assert(text_at(flash2, ssid_key(i - 1)) == text_at(flash, ssid_key(i - 1)));
        assert(text_at(flash2, pw_key(i - 1)) == text_at(flash, pw_key(i - 1)));
    }
}

proof fn lemma_blank_slots(flash: Flash, i: int, n: int)
    requires
        0 <= i <= n,
        with_slots(flash, Seq::empty(), i, n).len() == 0,
    ensures
        forall|j: int| 0 <= j < i ==> #[trigger] slot_mirrored(flash, Seq::empty(), j),
    decreases i,
{
    if i > 0 {
        lemma_blank_slots(flash, i - 1, n);
    }
}

proof fn lemma_slots_bounded(flash: Flash, i: int, n: int)
    requires
        0 <= i <= n,
    ensures
        with_slots(flash, Seq::empty(), i, n).len() <= n,
    decreases i,
{
    if i > 0 {
        lemma_slots_bounded(flash, i - 1, n);
    }
}

/// The list that a start leaves in the mirror is the one that a load finds afterwards.
proof fn lemma_list_reads_back(flash: Flash, defaults: WifiDefaults, n: int)
    requires
        0 <= n <= MAX_SLOTS,
        default_network_storable(flash, defaults, n),
    ensures
        with_slots(started(flash, defaults, n).0, Seq::empty(), n, n) == started(
            flash,
            defaults,
            n,
        ).1.networks,
{
    let d0 = loaded(flash, fresh_config(defaults), n);
    let m = missing_in(flash, d0, n);
    let first = DefaultField::ApEnabled;
    let (flash1, data1) = started(flash, defaults, n);
    if n == 0 {
        lemma_list_without_slots(first, m, defaults, flash, d0);
        assert(data1.networks =~= Seq::empty());
    } else if takes_network(flash, defaults, n) {
        lemma_blank_slots(flash, n, n);
        assert(d0.networks =~= Seq::empty());
        lemma_defaults_slots(first, m, defaults, flash, d0, n);
        lemma_slots_read_back(flash1, data1.networks, n, n);
        assert(data1.networks.take(data1.networks.len() as int) =~= data1.networks);
    } else {
        assert forall|j: int| 0 <= j < n implies text_at(flash1, #[trigger] ssid_key(j))
            == text_at(flash, ssid_key(j)) by {
            law_slot_keys_distinct(j, j);
            lemma_defaults_keep(first, m, defaults, flash, d0, n, ssid_key(j));
        }
        assert forall|j: int| 0 <= j < n implies text_at(flash1, #[trigger] pw_key(j)) == text_at(
            flash,
            pw_key(j),
        ) by {
            law_slot_keys_distinct(j, j);
            lemma_defaults_keep(first, m, defaults, flash, d0, n, pw_key(j));
        }
        lemma_same_slots(flash, flash1, n, n);
        law_slot_keys_distinct(0, 0);
        lemma_defaults_keep(first, m, defaults, flash, d0, n, ssid_key(0));
    }
}

proof fn lemma_list_without_slots(
    field: DefaultField,
    missing: Missing,
    defaults: WifiDefaults,
    flash: Flash,
    data: ConfigView,
)
    ensures
        with_defaults_from(field, missing, defaults, flash, data, 0).1.networks == data.networks,
    decreases fields_after(field),
{
    let (flash2, data2) = with_default(field, missing, defaults, flash, data, 0);
    match field.following() {
        Some(next) => lemma_list_without_slots(next, missing, defaults, flash2, data2),
        None => {},
    }
}

proof fn lemma_settled_start_is_idle(
    field: DefaultField,
    defaults: WifiDefaults,
    flash: Flash,
    data: ConfigView,
    n: int,
)
    requires
        forall|g: DefaultField| #[trigger] settled(g, flash, data, defaults, n),
    ensures
        with_defaults_from(field, missing_in(flash, data, n), defaults, flash, data, n) == (
            flash,
            data,
        ),
    decreases fields_after(field),
{
    assert(settled(field, flash, data, defaults, n));
    assert(with_default(field, missing_in(flash, data, n), defaults, flash, data, n) == (flash, data));
    match field.following() {
        Some(next) => lemma_settled_start_is_idle(next, defaults, flash, data, n),
        None => {},
    }
}

proof fn lemma_slots_counted(flash: Flash, count: int, i: int, n: int)
    requires
        0 <= i <= n,
        0 <= count <= n,
        filled_slots(flash, count, n),
    ensures
        ({
            let networks = with_slots(flash, Seq::empty(), i, n);
            &&& networks.len() == if i <= count {
                i
            } else {
                count
            }
            &&& forall|j: int|
                0 <= j < networks.len() ==> (#[trigger] networks[j]) == (NetworkView {
                    ssid: text_at(flash, ssid_key(j))->0,
                    password: read_password(text_at(flash, pw_key(j))),
                })
        }),
    decreases i,
{
    if i > 0 {
        lemma_slots_counted(flash, count, i - 1, n);
        let key = ssid_key(i - 1);
        assert((text_at(flash, key) matches Some(t) && t.len() > 0) == (i - 1 < count));
    }
}

proof fn lemma_loaded_slots(flash: Flash, defaults: WifiDefaults, n: int)
    requires
        0 <= n <= MAX_SLOTS,
        gapless(flash, n),
    ensures
        ({
            let networks = loaded(flash, fresh_config(defaults), n).networks;
            forall|i: int| 0 <= i < n ==> #[trigger] slot_mirrored(flash, networks, i)
        }),
{
    let data = loaded(flash, fresh_config(defaults), n);
    let count = choose|count: int| 0 <= count <= n && #[trigger] filled_slots(flash, count, n);
    lemma_slots_counted(flash, count, n, n);
    assert forall|i: int| 0 <= i < n implies #[trigger] slot_mirrored(
        flash,
        data.networks,
        i,
    ) by {
        let key = ssid_key(i);
        assert((text_at(flash, key) matches Some(t) && t.len() > 0) == (i < count));
        if i < count {
            let network = data.networks[i];
            assert(network.ssid == text_at(flash, ssid_key(i))->0);
        }
    }
}

proof fn lemma_started(flash: Flash, defaults: WifiDefaults, n: int)
    requires
        0 <= n <= MAX_SLOTS,
    ensures
        ({
            let (flash1, data1) = started(flash, defaults, n);
            &&& agrees(flash1, data1, defaults)
            &&& forall|field: DefaultField| #[trigger] settled(field, flash1, data1, defaults, n)
            &&& flag_at(flash1, KEY_AP_ENABLED) is Some
            &&& flag_at(flash1, KEY_STA_ENABLED) is Some
        }),
{
    let d0 = loaded(flash, fresh_config(defaults), n);
    let m = missing_in(flash, d0, n);
    assert(starting(DefaultField::ApEnabled, m, defaults, flash, d0, n));
    lemma_defaults_settle(DefaultField::ApEnabled, m, defaults, flash, d0, n);
    let (flash1, data1) = started(flash, defaults, n);
    assert(settled(DefaultField::ApEnabled, flash1, data1, defaults, n));
    assert(settled(DefaultField::StaEnabled, flash1, data1, defaults, n));
}

/// A start whose writes go through leaves flash and mirror in step, where the slots of flash held
/// networks without a gap.
pub proof fn law_start_leaves_flash_mirrored(flash: Flash, defaults: WifiDefaults, n: int)
    requires
        0 <= n <= MAX_SLOTS,
        gapless(flash, n),
        default_network_storable(flash, defaults, n),
    ensures
        mirrored(started(flash, defaults, n).0, started(flash, defaults, n).1, n),
{
    let d0 = loaded(flash, fresh_config(defaults), n);
    lemma_loaded_slots(flash, defaults, n);
    lemma_slots_bounded(flash, n, n);
    lemma_defaults_slots(
        DefaultField::ApEnabled,
        missing_in(flash, d0, n),
        defaults,
        flash,
        d0,
        n,
    );
    lemma_started(flash, defaults, n);
}

/// After a start whose writes go through, a second start finds the same mirror and writes nothing,
/// whatever flash held.
pub proof fn law_start_settles(flash: Flash, defaults: WifiDefaults, n: int)
    requires
        0 <= n <= MAX_SLOTS,
        default_network_storable(flash, defaults, n),
    ensures
        started(started(flash, defaults, n).0, defaults, n) == started(flash, defaults, n),
        forall|field: DefaultField|
            #[trigger] writes_default(
                field,
                missing_in(started(flash, defaults, n).0, started(flash, defaults, n).1, n),
                defaults,
                None,
            ),
{
    let (flash1, data1) = started(flash, defaults, n);
    lemma_started(flash, defaults, n);
    lemma_list_reads_back(flash, defaults, n);
    assert(loaded(flash1, fresh_config(defaults), n) =~= data1);
    lemma_settled_start_is_idle(DefaultField::ApEnabled, defaults, flash1, data1, n);
    assert forall|field: DefaultField|
        #[trigger] writes_default(field, missing_in(flash1, data1, n), defaults, None) by {
        assert(settled(field, flash1, data1, defaults, n));
    }
}

/// Whether flash holds a value of its own under `key`. The slots go by slot 0, and the station's
/// switch goes with the list as well, since a built-in network switches the station on.
pub open spec fn is_set_up(flash: Flash, key: u8, n: int) -> bool {
    if key == KEY_AP_ENABLED {
        flag_at(flash, KEY_AP_ENABLED) is Some
    } else if key == KEY_STA_ENABLED {
        flag_at(flash, KEY_STA_ENABLED) is Some && list_set_up(flash, n)
    } else if key > KEY_COUNTRY_CODE {
        list_set_up(flash, n)
    } else {
        text_at(flash, key) is Some
    }
}

/// Defaults are for what was never set up: a start leaves in flash whatever is set up.
pub proof fn law_start_keeps_what_is_set_up(
    flash: Flash,
    defaults: WifiDefaults,
    n: int,
    key: u8,
)
    requires
        is_set_up(flash, key, n),
    ensures
        started(flash, defaults, n).0.contains_key(key) == flash.contains_key(key),
        started(flash, defaults, n).0[key] == flash[key],
{
    let d0 = loaded(flash, fresh_config(defaults), n);
    lemma_defaults_keep(
        DefaultField::ApEnabled,
        missing_in(flash, d0, n),
        defaults,
        flash,
        d0,
        n,
        key,
    );
}

/// The built-in network is for the first boot only: once slot 0 was written, a start leaves the list
/// of networks and the slots in flash as they were, also where every network was removed, and a
/// station that was switched off stays off.
pub proof fn law_built_in_network_is_for_first_boot(
    flash: Flash,
    defaults: WifiDefaults,
    n: int,
)
    requires
        list_set_up(flash, n),
    ensures
        ({
            let (flash1, data1) = started(flash, defaults, n);
            &&& data1.networks == loaded(flash, fresh_config(defaults), n).networks
            &&& forall|key: u8|
                key > KEY_COUNTRY_CODE ==> #[trigger] flash1.contains_key(key)
                    == flash.contains_key(key) && flash1[key] == flash[key]
            &&& flag_at(flash, KEY_STA_ENABLED) matches Some(on) ==> data1.sta_enabled == on
                && flag_at(flash1, KEY_STA_ENABLED) == Some(on)
        }),
{
    let d0 = loaded(flash, fresh_config(defaults), n);
    let m = missing_in(flash, d0, n);
    let first = DefaultField::ApEnabled;
    let (flash1, data1) = started(flash, defaults, n);
    assert forall|key: u8| key > KEY_COUNTRY_CODE implies #[trigger] flash1.contains_key(key)
        == flash.contains_key(key) && flash1[key] == flash[key] by {
        lemma_defaults_keep(first, m, defaults, flash, d0, n, key);
    }
    lemma_defaults_keep(first, m, defaults, flash, d0, n, 7);
    if flag_at(flash, KEY_STA_ENABLED) is Some {
        lemma_defaults_keep(first, m, defaults, flash, d0, n, KEY_STA_ENABLED);
    }
}

/// A first boot that was cut short is made up for: as long as slot 0 was never written, a start takes
/// the built-in network over, whatever else flash holds.
pub proof fn law_built_in_network_is_made_up_for(
    flash: Flash,
    defaults: WifiDefaults,
    n: int,
)
    requires
        0 < n <= MAX_SLOTS,
        !list_set_up(flash, n),
        loaded(flash, fresh_config(defaults), n).networks.len() == 0,
        default_network(defaults) is Some,
    ensures
        ({
            let network = default_network(defaults)->0;
            let (flash1, data1) = started(flash, defaults, n);
            &&& data1.networks == seq![network]
            &&& data1.sta_enabled
            &&& text_at(flash1, ssid_key(0)) == Some(network.ssid)
            &&& text_at(flash1, pw_key(0)) == Some(stored_password(network.password))
            &&& flag_at(flash1, KEY_STA_ENABLED) == Some(true)
        }),
{
    let d0 = loaded(flash, fresh_config(defaults), n);
    let m = missing_in(flash, d0, n);
    lemma_network_is_taken(DefaultField::ApEnabled, m, defaults, flash, d0, n);
}

proof fn lemma_network_is_taken(
    field: DefaultField,
    missing: Missing,
    defaults: WifiDefaults,
    flash: Flash,
    data: ConfigView,
    n: int,
)
    requires
        0 < n <= MAX_SLOTS,
        missing.sta_networks,
        default_network(defaults) is Some,
        if fields_after(field) >= fields_after(DefaultField::StaNetwork) {
            data.networks.len() == 0
        } else {
            let network = default_network(defaults)->0;
            &&& data.networks == seq![network]
            &&& data.sta_enabled
            &&& text_at(flash, ssid_key(0)) == Some(network.ssid)
            &&& text_at(flash, pw_key(0)) == Some(stored_password(network.password))
            &&& flag_at(flash, KEY_STA_ENABLED) == Some(true)
        },
    ensures
        ({
            let network = default_network(defaults)->0;
            let (flash2, data2) = with_defaults_from(field, missing, defaults, flash, data, n);
            &&& data2.networks == seq![network]
            &&& data2.sta_enabled
            &&& text_at(flash2, ssid_key(0)) == Some(network.ssid)
            &&& text_at(flash2, pw_key(0)) == Some(stored_password(network.password))
            &&& flag_at(flash2, KEY_STA_ENABLED) == Some(true)
        }),
    decreases fields_after(field),
{
    law_slot_keys_distinct(0, 0);
    let (flash2, data2) = with_default(field, missing, defaults, flash, data, n);
    if field is StaNetwork {
        assert(data2.networks =~= seq![default_network(defaults)->0]);
    }
    match field.following() {
        Some(next) => lemma_network_is_taken(next, missing, defaults, flash2, data2, n),
        None => {},
    }
}

/// On first boot, with flash empty, the mirror takes the defaults built into the firmware: the
/// access point is on where it has an SSID, and the station where it has a network.
pub proof fn law_first_boot_takes_defaults(defaults: WifiDefaults, n: int)
    requires
        0 < n <= MAX_SLOTS,
    ensures
        started(Map::empty(), defaults, n).1 == (ConfigView {
            ap_enabled: defaults.ap_ssid is Some,
            ap_ssid: usable(defaults.ap_ssid),
            ap_password: usable(defaults.ap_password),
            ap_gateway_ip: usable(defaults.ap_gateway_ip),
            sta_enabled: defaults.sta_ssid is Some,
            hostname: usable(defaults.hostname),
            country_code: default_country(defaults),
            networks: match default_network(defaults) {
                Some(network) => seq![network],
                None => Seq::empty(),
            },
        }),
{
    let flash: Flash = Map::empty();
    assert(filled_slots(flash, 0, n));
    lemma_slots_counted(flash, 0, n, n);
    let d0 = loaded(flash, fresh_config(defaults), n);
    assert(d0.networks =~= Seq::empty());
    assert(d0 =~= fresh_config(defaults));
    reveal_with_fuel(with_defaults_from, 9);
    assert(Seq::<NetworkView>::empty().push(default_network(defaults)->0) =~= seq![
        default_network(defaults)->0,
    ]);
}

/// A country code that was set is the one that reads back, and "01" does where none was set.
pub proof fn law_country_code_reads_back(code: Seq<char>)
    requires
        code.len() == 2,
        is_ascii_chars(code),
    ensures
        country_bytes(Some(code)) == seq![code[0] as u8, code[1] as u8],
        country_bytes(None) == seq!['0' as u8, '1' as u8],
{
    is_ascii_chars_encode_utf8(code);
}

} // verus!
