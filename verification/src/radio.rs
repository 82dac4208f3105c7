//! How the radio and the network interfaces are set up for a configuration.
use crate::flash::opt_text;
use crate::text::{fits, str64, text32, text64, try_text32};
use crate::wifi_api::{ConfigView, NetworkView, StaNetwork, WifiConfig};
use vstd::prelude::*;
use vstd::utf8::encode_utf8;

verus! {

/// The interfaces that the firmware is built with. At least one of them is there.
#[derive(Clone, Copy, Debug, PartialEq, Eq, Structural)]
pub struct RadioFeatures {
    pub ap: bool,
    pub sta: bool,
}

/// How clients of the access point are let in.
#[derive(Clone, Copy, Debug, PartialEq, Eq, Structural)]
pub enum AuthMethod {
    Open,
    Wpa2Personal,
}

/// The access point's side of a radio configuration.
#[derive(Debug)]
pub struct AccessPointConfig {
    pub ssid: String,
    pub password: Option<String>,
    pub auth: AuthMethod,
}

/// The station's side of a radio configuration.
#[derive(Debug)]
pub struct ClientConfig {
    pub ssid: String,
    pub password: Option<String>,
}

/// What the radio is to do.
#[derive(Debug)]
pub enum ModeConfig {
    Off,
    AccessPoint(AccessPointConfig),
    Client(ClientConfig),
    ApSta(ClientConfig, AccessPointConfig),
}

/// What an [`AccessPointConfig`] says.
pub struct AccessPointView {
    pub ssid: Seq<char>,
    pub password: Option<Seq<char>>,
    pub auth: AuthMethod,
}

/// What a [`ModeConfig`] says. A client says what a saved network says.
pub enum ModeView {
    Off,
    AccessPoint(AccessPointView),
    Client(NetworkView),
    ApSta(NetworkView, AccessPointView),
}

/// The text of an optional string.
pub open spec fn opt_string(s: Option<String>) -> Option<Seq<char>> {
    match s {
        Some(s) => Some(s@),
        None => None,
    }
}

impl View for AccessPointConfig {
    type V = AccessPointView;

    open spec fn view(&self) -> AccessPointView {
        AccessPointView {
            ssid: self.ssid@,
            password: opt_string(self.password),
            auth: self.auth,
        }
    }
}

impl View for ClientConfig {
    type V = NetworkView;

    open spec fn view(&self) -> NetworkView {
        NetworkView { ssid: self.ssid@, password: opt_string(self.password) }
    }
}

impl View for ModeConfig {
    type V = ModeView;

    open spec fn view(&self) -> ModeView {
        match *self {
            ModeConfig::Off => ModeView::Off,
            ModeConfig::AccessPoint(ap) => ModeView::AccessPoint(ap@),
            ModeConfig::Client(sta) => ModeView::Client(sta@),
            ModeConfig::ApSta(sta, ap) => ModeView::ApSta(sta@, ap@),
        }
    }
}

/// The access point of a configuration: named "esp-ap" where it has no SSID, open where it has
/// no password.
pub open spec fn access_point(config: ConfigView) -> AccessPointView {
    AccessPointView {
        ssid: match config.ap_ssid {
            Some(ssid) => ssid,
            None => "esp-ap"@,
        },
        password: config.ap_password,
        auth: if config.ap_password is Some {
            AuthMethod::Wpa2Personal
        } else {
            AuthMethod::Open
        },
    }
}

/// A client that names no network yet.
pub open spec fn idle_client() -> NetworkView {
    NetworkView { ssid: Seq::empty(), password: None }
}

/// The mode for a client, with the access point beside it where that is built in and on.
pub open spec fn client_mode(
    features: RadioFeatures,
    client: NetworkView,
    config: ConfigView,
) -> ModeView {
    if features.ap && config.ap_enabled {
        ModeView::ApSta(client, access_point(config))
    } else {
        ModeView::Client(client)
    }
}

/// The mode after a change of the configuration.
pub open spec fn changed_mode(features: RadioFeatures, config: ConfigView) -> ModeView {
    if features.sta && (config.sta_enabled || !features.ap) {
        client_mode(features, idle_client(), config)
    } else if features.ap && config.ap_enabled {
        ModeView::AccessPoint(access_point(config))
    } else {
        ModeView::Off
    }
}

/// The mode in which the radio starts: all that is built in.
pub open spec fn initial_mode(features: RadioFeatures, config: ConfigView) -> ModeView {
    if features.ap && features.sta {
        ModeView::ApSta(idle_client(), access_point(config))
    } else if features.ap {
        ModeView::AccessPoint(access_point(config))
    } else if features.sta {
        ModeView::Client(idle_client())
    } else {
        ModeView::Off
    }
}

fn owned(text: &Option<heapless::String<64>>) -> (r: Option<String>)
    ensures
        opt_string(r) == opt_text(*text),
{
    match text {
        Some(t) => Some(str64(t).to_owned()),
        None => None,
    }
}

fn new_idle_client() -> (r: ClientConfig)
    ensures
        r@ == idle_client(),
{
    ClientConfig { ssid: String::new(), password: None }
}

/// The radio's configuration for a saved network.
pub fn client_config(network: &StaNetwork) -> (r: ClientConfig)
    ensures
        r@ == network@,
{
    ClientConfig { ssid: str64(&network.ssid).to_owned(), password: owned(&network.password) }
}

/// The access point's configuration.
pub fn build_ap_conf<const N: usize, C: WifiConfig<N>>(config: &C) -> (r: AccessPointConfig)
    ensures
        r@ == access_point(config.config()),
{
    let ssid = match owned(&config.ap_ssid()) {
        Some(ssid) => ssid,
        None => "esp-ap".to_owned(),
    };
    match owned(&config.ap_password()) {
        Some(password) => AccessPointConfig {
            ssid,
            password: Some(password),
            auth: AuthMethod::Wpa2Personal,
        },
        None => AccessPointConfig { ssid, password: None, auth: AuthMethod::Open },
    }
}

/// The mode for a client.
pub fn build_mode_config<const N: usize, C: WifiConfig<N>>(
    features: RadioFeatures,
    client: ClientConfig,
    config: &C,
) -> (r: ModeConfig)
    ensures
        r@ == client_mode(features, client@, config.config()),
{
    if features.ap && config.is_ap_enabled() {
        ModeConfig::ApSta(client, build_ap_conf(config))
    } else {
        ModeConfig::Client(client)
    }
}

/// The mode after a change of the configuration.
pub fn reconfigured_mode<const N: usize, C: WifiConfig<N>>(
    features: RadioFeatures,
    config: &C,
) -> (r: ModeConfig)
    ensures
        r@ == changed_mode(features, config.config()),
{
    if features.sta && (!features.ap || config.is_sta_enabled()) {
        build_mode_config(features, new_idle_client(), config)
    } else if features.ap && config.is_ap_enabled() {
        ModeConfig::AccessPoint(build_ap_conf(config))
    } else {
        ModeConfig::Off
    }
}

/// A step in applying a changed configuration to the radio.
#[derive(Debug)]
pub enum ReconfigStep {
    /// Stop the radio.
    Stop,
    /// Set its mode.
    Configure(ModeConfig),
    /// Start it again.
    Start,
    /// Nothing is left to do.
    Finished,
}

impl ReconfigStep {
    /// The first step: whatever the radio is doing, it is stopped.
    pub fn first() -> (r: ReconfigStep)
        ensures
            r == ReconfigStep::Stop,
    {
        ReconfigStep::Stop
    }
}

/// What applying a changed configuration does next, after `step` ended. A step that fails ends
/// it, and so does a mode in which the radio stays off.
pub fn apply_ap_reconfig<const N: usize, C: WifiConfig<N>>(
    step: &ReconfigStep,
    ok: bool,
    features: RadioFeatures,
    config: &C,
) -> (next: ReconfigStep)
    ensures
        !ok ==> next == ReconfigStep::Finished,
        ok ==> match *step {
            ReconfigStep::Stop => if changed_mode(features, config.config()) is Off {
                next == ReconfigStep::Finished
            } else {
                next matches ReconfigStep::Configure(mode) && mode@ == changed_mode(
                    features,
                    config.config(),
                )
            },
            ReconfigStep::Configure(_) => next == ReconfigStep::Start,
            ReconfigStep::Start => next == ReconfigStep::Finished,
            ReconfigStep::Finished => next == ReconfigStep::Finished,
        },
{
    if !ok {
        return ReconfigStep::Finished;
    }
    match step {
        ReconfigStep::Stop => {
            match reconfigured_mode(features, config) {
                ModeConfig::Off => ReconfigStep::Finished,
                mode => ReconfigStep::Configure(mode),
            }
        },
        ReconfigStep::Configure(_) => ReconfigStep::Start,
        ReconfigStep::Start => ReconfigStep::Finished,
        ReconfigStep::Finished => ReconfigStep::Finished,
    }
}

/// The addresses of the access point's interface.
#[derive(Clone, Copy, Debug, PartialEq, Eq)]
pub struct StaticNet {
    pub address: [u8; 4],
    pub prefix_len: u8,
    pub gateway: [u8; 4],
}

/// The station's interface, which gets its addresses by DHCP.
#[derive(Debug)]
pub struct DhcpNet {
    /// The hostname to send, if any.
    pub hostname: Option<heapless::String<32>>,
}

/// What the driver sets up at start.
#[derive(Debug)]
pub struct DriverPlan {
    pub mode: ModeConfig,
    /// The access point's interface, where it is built in.
    pub ap_net: Option<StaticNet>,
    /// The station's interface, where it is built in.
    pub sta_net: Option<DhcpNet>,
}

impl DriverPlan {
    /// Whether the radio is started at all.
    pub fn starts_radio(&self) -> (r: bool)
        ensures
            r == !(self.mode@ is Off),
    {
        match &self.mode {
            ModeConfig::Off => false,
            _ => true,
        }
    }
}

/// The hostname sent by DHCP: the one configured, where it fits in 32 bytes.
pub open spec fn dhcp_hostname(config: ConfigView) -> Option<Seq<char>> {
    match config.hostname {
        Some(h) => if fits(h, 32) {
            Some(h)
        } else {
            None
        },
        None => None,
    }
}

/// Starts the WiFi interfaces.
pub struct WifiDriver;

impl WifiDriver {
    /// What to set up for the interfaces built in. The access point takes `gw_ip` in a network
    /// of 24 prefix bits and is its own gateway.
    pub fn init<const N: usize, C: WifiConfig<N>>(
        features: RadioFeatures,
        gw_ip: [u8; 4],
        config: &C,
    ) -> (plan: DriverPlan)
        ensures
            plan.mode@ == initial_mode(features, config.config()),
            plan.ap_net == if features.ap {
                Some(StaticNet { address: gw_ip, prefix_len: 24, gateway: gw_ip })
            } else {
                None
            },
            plan.sta_net is Some <==> features.sta,
            plan.sta_net matches Some(net) ==> match net.hostname {
                Some(h) => Some(text32(h)) == dhcp_hostname(config.config()),
                None => dhcp_hostname(config.config()) is None,
            },
    {
        let mode = if features.ap && features.sta {
            ModeConfig::ApSta(new_idle_client(), build_ap_conf(config))
        } else if features.ap {
            ModeConfig::AccessPoint(build_ap_conf(config))
        } else if features.sta {
            ModeConfig::Client(new_idle_client())
        } else {
            ModeConfig::Off
        };
        let ap_net = if features.ap {
            Some(StaticNet { address: gw_ip, prefix_len: 24, gateway: gw_ip })
        } else {
            None
        };
        let sta_net = if features.sta {
            let hostname = match config.hostname() {
                Some(h) => match try_text32(str64(&h)) {
                    Ok(h) => Some(h),
                    Err(_) => None,
                },
                None => None,
            };
            Some(DhcpNet { hostname })
        } else {
            None
        };
        DriverPlan { mode, ap_net, sta_net }
    }
}

/// Applying a change leaves the radio on exactly where an interface that is built in has
/// something to do, and runs the access point exactly where it is built in and switched on.
pub proof fn law_radio_follows_switches(features: RadioFeatures, config: ConfigView)
    requires
        features.ap || features.sta,
    ensures
        (changed_mode(features, config) is AccessPoint || changed_mode(features, config) is ApSta)
            == (features.ap && config.ap_enabled),
        (changed_mode(features, config) is Client || changed_mode(features, config) is ApSta) == (
        features.sta && (config.sta_enabled || !features.ap)),
        !(initial_mode(features, config) is Off),
{
}

// ---- What the operations do -----------------------------------------------------------------

/// Whether an optional string holds an optional text.
pub open spec fn holds_text(s: Option<String>, text: Option<Seq<char>>) -> bool {
    match s {
        Some(s) => text == Some(s@),
        None => text is None,
    }
}

/// Whether a client is set up for the network with this SSID and this password.
pub open spec fn joins(
    client: ClientConfig,
    ssid: Seq<char>,
    password: Option<Seq<char>>,
) -> bool {
    client.ssid@ == ssid && holds_text(client.password, password)
}

/// Whether an access point is the one that a configuration describes: with the SSID that is set,
/// else "esp-ap", and with the password that is set, which is asked for by WPA2; open where no
/// password is set.
pub open spec fn serves(ap: AccessPointConfig, config: ConfigView) -> bool {
    &&& match config.ap_ssid {
        Some(ssid) => ap.ssid@ == ssid,
        None => ap.ssid@ == "esp-ap"@,
    }
    &&& holds_text(ap.password, config.ap_password)
    &&& ap.auth == if config.ap_password is Some {
        AuthMethod::Wpa2Personal
    } else {
        AuthMethod::Open
    }
}

/// What a radio configuration says is what it holds.
pub proof fn law_mode_says_what_it_holds(mode: ModeConfig)
    ensures
        match mode {
            ModeConfig::Off => mode@ is Off,
            ModeConfig::AccessPoint(ap) => {
                &&& mode@ matches ModeView::AccessPoint(said)
                &&& said.ssid == ap.ssid@
                &&& holds_text(ap.password, said.password)
                &&& said.auth == ap.auth
            },
            ModeConfig::Client(client) => {
                &&& mode@ matches ModeView::Client(said)
                &&& joins(client, said.ssid, said.password)
            },
            ModeConfig::ApSta(client, ap) => {
                &&& mode@ matches ModeView::ApSta(said, said_ap)
                &&& joins(client, said.ssid, said.password)
                &&& said_ap.ssid == ap.ssid@
                &&& holds_text(ap.password, said_ap.password)
                &&& said_ap.auth == ap.auth
            },
        },
{
}

/// A client is set up with the SSID and the password of the saved network.
pub proof fn law_client_joins_saved_network(network: StaNetwork, r: ClientConfig)
    requires
        call_ensures(client_config, (&network,), r),
    ensures
        joins(
            r,
            text64(network.ssid),
            match network.password {
                Some(password) => Some(text64(password)),
                None => None,
            },
        ),
{
}

/// The access point is the one that the configuration describes.
pub proof fn law_access_point_is_as_configured<const N: usize, C: WifiConfig<N>>(
    config: C,
    r: AccessPointConfig,
)
    requires
        call_ensures(build_ap_conf::<N, C>, (&config,), r),
    ensures
        serves(r, config.config()),
{
}

/// The mode for a client has that client, its SSID and its password as they are, and beside it the
/// access point of the configuration exactly where that is built in and switched on.
pub proof fn law_mode_keeps_client<const N: usize, C: WifiConfig<N>>(
    features: RadioFeatures,
    client: ClientConfig,
    password: Option<Seq<char>>,
    config: C,
    r: ModeConfig,
)
    requires
        holds_text(client.password, password),
        call_ensures(build_mode_config::<N, C>, (features, client, &config), r),
    ensures
        match r {
            ModeConfig::ApSta(set, ap) => {
                &&& features.ap && config.config().ap_enabled
                &&& joins(set, client.ssid@, password)
                &&& serves(ap, config.config())
            },
            ModeConfig::Client(set) => {
                &&& !(features.ap && config.config().ap_enabled)
                &&& joins(set, client.ssid@, password)
            },
            _ => false,
        },
{
}

/// Whether a client names no network.
pub open spec fn idles(client: ClientConfig) -> bool {
    client.ssid@.len() == 0 && client.password is None
}

/// Applying a change sets up what is switched on: the access point of the configuration where it
/// is built in and on, and a client that names no network yet where the station is built in and
/// on. Where no access point is built in the station is set up whether it is on or not.
pub proof fn law_change_sets_up_what_is_on<const N: usize, C: WifiConfig<N>>(
    features: RadioFeatures,
    config: C,
    r: ModeConfig,
)
    requires
        call_ensures(reconfigured_mode::<N, C>, (features, &config), r),
    ensures
        ({
            let ap_on = features.ap && config.config().ap_enabled;
            let sta_on = features.sta && (config.config().sta_enabled || !features.ap);
            match r {
                ModeConfig::ApSta(client, ap) => ap_on && sta_on && idles(client) && serves(
                    ap,
                    config.config(),
                ),
                ModeConfig::AccessPoint(ap) => ap_on && !sta_on && serves(ap, config.config()),
                ModeConfig::Client(client) => !ap_on && sta_on && idles(client),
                ModeConfig::Off => !ap_on && !sta_on,
            }
        }),
{
}

/// A change is applied by stopping the radio, setting the mode for the configuration and starting
/// the radio, in this order; where everything is off the radio stays stopped, and a step that
/// fails is the last.
pub proof fn law_change_is_applied_in_order<const N: usize, C: WifiConfig<N>>(
    step: ReconfigStep,
    ok: bool,
    features: RadioFeatures,
    config: C,
    r: ReconfigStep,
)
    requires
        call_ensures(apply_ap_reconfig::<N, C>, (&step, ok, features, &config), r),
    ensures
        ({
            let ap_on = features.ap && config.config().ap_enabled;
            let sta_on = features.sta && (config.config().sta_enabled || !features.ap);
            match r {
                ReconfigStep::Stop => false,
                ReconfigStep::Configure(mode) => {
                    &&& ok && step is Stop && (ap_on || sta_on)
                    &&& match mode {
                        ModeConfig::ApSta(client, ap) => ap_on && sta_on && idles(client)
                            && serves(ap, config.config()),
                        ModeConfig::AccessPoint(ap) => ap_on && !sta_on && serves(
                            ap,
                            config.config(),
                        ),
                        ModeConfig::Client(client) => !ap_on && sta_on && idles(client),
                        ModeConfig::Off => false,
                    }
                },
                ReconfigStep::Start => ok && step is Configure,
                ReconfigStep::Finished => !ok || step is Start || step is Finished || (step is Stop
                    && !ap_on && !sta_on),
            }
        }),
{
}

/// A start sets up everything that is built in, whether it is switched on or not: the access point
/// of the configuration, under the given address in a network of 24 bits with itself as gateway,
/// and a client that names no network yet, with the hostname for DHCP where it takes at most 32
/// bytes.
pub proof fn law_start_sets_up_what_is_built_in<const N: usize, C: WifiConfig<N>>(
    features: RadioFeatures,
    gw_ip: [u8; 4],
    config: C,
    r: DriverPlan,
)
    requires
        call_ensures(WifiDriver::init::<N, C>, (features, gw_ip, &config), r),
    ensures
        match r.mode {
            ModeConfig::ApSta(client, ap) => features.ap && features.sta && idles(client)
                && serves(ap, config.config()),
            ModeConfig::AccessPoint(ap) => features.ap && !features.sta && serves(
                ap,
                config.config(),
            ),
            ModeConfig::Client(client) => !features.ap && features.sta && idles(client),
            ModeConfig::Off => !features.ap && !features.sta,
        },
        match r.ap_net {
            Some(net) => features.ap && net.address == gw_ip && net.gateway == gw_ip
                && net.prefix_len == 24,
            None => !features.ap,
        },
        match r.sta_net {
            Some(net) => features.sta && match net.hostname {
                Some(sent) => config.config().hostname == Some(text32(sent)) && encode_utf8(
                    text32(sent),
                ).len() <= 32,
                None => config.config().hostname matches Some(hostname) ==> encode_utf8(
                    hostname,
                ).len() > 32,
            },
            None => !features.sta,
        },
{
}

} // verus!
