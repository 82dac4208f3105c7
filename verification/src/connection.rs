//! The connection loop: which network to try, and what to do when something happens.
use crate::radio::{
    build_mode_config, client_config, client_mode, joins, serves, ModeConfig, RadioFeatures,
};
use crate::signals::WifiSignal;
use crate::wifi_api::{network_views, ConfigView, WifiConfig};
use vstd::prelude::*;

verus! {

/// Where the station stands.
#[derive(Clone, Copy, Debug, PartialEq, Eq, Structural)]
pub enum ConnState {
    /// The station is there but switched off.
    StaDisabled,
    /// The station is on but no networks are saved yet.
    NoNetworks,
    /// Attempting to connect to the saved network of this index.
    Connecting(usize),
    /// Connected to the saved network of this index.
    Connected(usize),
}

/// What to wait for in a state.
#[derive(Clone, Copy, Debug, PartialEq, Eq, Structural)]
pub enum StateAction {
    /// Nothing comes of the state by itself.
    WaitForever,
    /// Let this many milliseconds pass.
    Sleep(u64),
    /// Connect to the network that is set.
    Connect,
    /// Wait until the connection is lost.
    WaitForDisconnect,
}

/// What comes of a state by itself.
#[derive(Clone, Copy, Debug, PartialEq, Eq, Structural)]
pub enum StateEvent {
    Timeout,
    ConnOk,
    ConnFail,
    Disconnected,
}

/// What the connection loop reacts to.
#[derive(Clone, Copy, Debug, PartialEq, Eq, Structural)]
pub enum ConnEvent {
    Signal(WifiSignal),
    State(StateEvent),
}

/// What the connection loop does about an event, in this order.
#[derive(Clone, Copy, Debug, PartialEq, Eq, Structural)]
pub struct Reaction {
    /// Leave the network.
    pub disconnect: bool,
    /// Apply the configuration to the radio.
    pub reconfigure: bool,
    /// Let this many milliseconds pass.
    pub pause_ms: u64,
    /// Look at the configuration anew, with [`Connection::refresh`].
    pub refresh: bool,
}

/// The state that a configuration calls for, for the network asked for.
pub open spec fn state_for(config: ConfigView, net_idx: usize) -> ConnState {
    if !config.sta_enabled {
        ConnState::StaDisabled
    } else if config.networks.len() == 0 {
        ConnState::NoNetworks
    } else if net_idx < config.networks.len() {
        ConnState::Connecting(net_idx)
    } else {
        ConnState::Connecting((config.networks.len() - 1) as usize)
    }
}

/// The state that a configuration calls for; a number past the last network means the last.
pub fn compute_state<const N: usize, C: WifiConfig<N>>(config: &C, net_idx: usize) -> (r:
    ConnState)
    ensures
        r == state_for(config.config(), net_idx),
{
    if !config.is_sta_enabled() {
        return ConnState::StaDisabled;
    }
    let networks = config.sta_networks();
    assert(networks@.len() == network_views(networks@).len());
    let len = networks.len();
    if len == 0 {
        return ConnState::NoNetworks;
    }
    if net_idx < len {
        ConnState::Connecting(net_idx)
    } else {
        ConnState::Connecting(len - 1)
    }
}

/// What to wait for in a state.
pub fn state_action(state: ConnState) -> (r: StateAction)
    ensures
        r == match state {
            ConnState::StaDisabled => StateAction::WaitForever,
            ConnState::NoNetworks => StateAction::Sleep(30_000),
            ConnState::Connecting(_) => StateAction::Connect,
            ConnState::Connected(_) => StateAction::WaitForDisconnect,
        },
{
    match state {
        ConnState::StaDisabled => StateAction::WaitForever,
        ConnState::NoNetworks => StateAction::Sleep(30_000),
        ConnState::Connecting(_) => StateAction::Connect,
        ConnState::Connected(_) => StateAction::WaitForDisconnect,
    }
}

/// The event that the end of an action is. `ok` tells whether a connection was made.
pub fn action_event(action: StateAction, ok: bool) -> (r: Option<StateEvent>)
    ensures
        r == match action {
            StateAction::WaitForever => None,
            StateAction::Sleep(_) => Some(StateEvent::Timeout),
            StateAction::Connect => Some(
                if ok {
                    StateEvent::ConnOk
                } else {
                    StateEvent::ConnFail
                },
            ),
            StateAction::WaitForDisconnect => Some(StateEvent::Disconnected),
        },
{
    match action {
        StateAction::WaitForever => None,
        StateAction::Sleep(_) => Some(StateEvent::Timeout),
        StateAction::Connect => {
            if ok {
                Some(StateEvent::ConnOk)
            } else {
                Some(StateEvent::ConnFail)
            }
        },
        StateAction::WaitForDisconnect => Some(StateEvent::Disconnected),
    }
}

/// The connection loop between two events.
#[derive(Clone, Copy, Debug, PartialEq, Eq, Structural)]
pub struct Connection {
    /// The saved network that is asked for.
    pub net_idx: usize,
    pub state: ConnState,
}

/// The network asked for after an event, with `len` networks saved: a failure moves on to the
/// next one, and a toggle or a lost connection to the first.
pub open spec fn next_index(net_idx: usize, event: ConnEvent, len: int) -> usize {
    match event {
        ConnEvent::Signal(WifiSignal::ApReconfig) => net_idx,
        ConnEvent::Signal(WifiSignal::StaToggled) => 0,
        ConnEvent::Signal(WifiSignal::Connect(idx)) => idx,
        ConnEvent::State(StateEvent::Timeout) => net_idx,
        ConnEvent::State(StateEvent::ConnOk) => net_idx,
        ConnEvent::State(StateEvent::ConnFail) => if len > 0 {
            ((net_idx + 1) % len) as usize
        } else {
            net_idx
        },
        ConnEvent::State(StateEvent::Disconnected) => 0,
    }
}

/// What the loop does about an event in a state.
pub open spec fn reaction_to(state: ConnState, event: ConnEvent) -> Reaction {
    match event {
        ConnEvent::Signal(signal) => Reaction {
            disconnect: state is Connected,
            reconfigure: !(signal is Connect),
            pause_ms: 0,
            refresh: true,
        },
        ConnEvent::State(event) => Reaction {
            disconnect: false,
            reconfigure: false,
            pause_ms: if event is ConnFail || event is Disconnected {
                5_000
            } else {
                0
            },
            refresh: !(event is ConnOk),
        },
    }
}

/// The state once a connection was made: connected to the network that was tried.
pub open spec fn connected(connection: Connection) -> ConnState {
    match connection.state {
        ConnState::Connecting(idx) => ConnState::Connected(idx),
        _ => ConnState::Connected(connection.net_idx),
    }
}

impl Connection {
    /// The loop at its start, at the first network. The flag tells whether the radio has to be
    /// set up first, so that the access point works alone.
    pub fn start<const N: usize, C: WifiConfig<N>>(config: &C) -> (r: (Connection, bool))
        ensures
            r.0.net_idx == 0,
            r.0.state == state_for(config.config(), 0),
            r.1 == (r.0.state is StaDisabled),
    {
        let state = compute_state(config, 0);
        let alone = match state {
            ConnState::StaDisabled => true,
            _ => false,
        };
        (Connection { net_idx: 0, state }, alone)
    }

    /// The mode to set before waiting: where a connection is to be tried, that of the network.
    pub fn mode_to_set<const N: usize, C: WifiConfig<N>>(
        &self,
        features: RadioFeatures,
        config: &C,
    ) -> (r: Option<ModeConfig>)
        ensures
            match self.state {
                ConnState::Connecting(idx) => if idx < config.config().networks.len() {
                    r matches Some(mode) && mode@ == client_mode(
                        features,
                        config.config().networks[idx as int],
                        config.config(),
                    )
                } else {
                    r is None
                },
                _ => r is None,
            },
    {
        match self.state {
            ConnState::Connecting(idx) => {
                let networks = config.sta_networks();
                assert(networks@.len() == network_views(networks@).len());
                if idx < networks.len() {
                    assert(network_views(networks@)[idx as int] == networks@[idx as int]@);
                    let client = client_config(&networks[idx]);
                    Some(build_mode_config(features, client, config))
                } else {
                    None
                }
            },
            _ => None,
        }
    }

    /// Takes in an event. After the reaction is carried out and [`Connection::refresh`] is
    /// called where it says so, the loop stands at its next state.
    pub fn on_event<const N: usize, C: WifiConfig<N>>(&mut self, event: ConnEvent, config: &C) -> (r:
        Reaction)
        requires
            event == ConnEvent::State(StateEvent::ConnFail) && config.config().networks.len() > 0
                ==> old(self).net_idx < usize::MAX,
        ensures
            r == reaction_to(old(self).state, event),
            final(self).net_idx == next_index(
                old(self).net_idx,
                event,
                config.config().networks.len() as int,
            ),
            final(self).state == if event == ConnEvent::State(StateEvent::ConnOk) {
                connected(*old(self))
            } else {
                old(self).state
            },
    {
        let connected = match self.state {
            ConnState::Connected(_) => true,
            _ => false,
        };
        match event {
            ConnEvent::Signal(WifiSignal::ApReconfig) => {
                Reaction { disconnect: connected, reconfigure: true, pause_ms: 0, refresh: true }
            },
            ConnEvent::Signal(WifiSignal::StaToggled) => {
                self.net_idx = 0;
                Reaction { disconnect: connected, reconfigure: true, pause_ms: 0, refresh: true }
            },
            ConnEvent::Signal(WifiSignal::Connect(idx)) => {
                self.net_idx = idx;
                Reaction { disconnect: connected, reconfigure: false, pause_ms: 0, refresh: true }
            },
            ConnEvent::State(StateEvent::Timeout) => {
                Reaction { disconnect: false, reconfigure: false, pause_ms: 0, refresh: true }
            },
            ConnEvent::State(StateEvent::ConnOk) => {
                self.state = match self.state {
                    ConnState::Connecting(idx) => ConnState::Connected(idx),
                    _ => ConnState::Connected(self.net_idx),
                };
                Reaction { disconnect: false, reconfigure: false, pause_ms: 0, refresh: false }
            },
            ConnEvent::State(StateEvent::ConnFail) => {
                let networks = config.sta_networks();
                assert(networks@.len() == network_views(networks@).len());
                if networks.len() > 0 {
                    self.net_idx = (self.net_idx + 1) % networks.len();
                }
                Reaction { disconnect: false, reconfigure: false, pause_ms: 5_000, refresh: true }
            },
            ConnEvent::State(StateEvent::Disconnected) => {
                self.net_idx = 0;
                Reaction { disconnect: false, reconfigure: false, pause_ms: 5_000, refresh: true }
            },
        }
    }

    /// Looks at the configuration anew.
    pub fn refresh<const N: usize, C: WifiConfig<N>>(&mut self, config: &C)
        ensures
            final(self).net_idx == old(self).net_idx,
            final(self).state == state_for(config.config(), old(self).net_idx),
    {
        self.state = compute_state(config, self.net_idx);
    }
}

/// The loop tries only networks that are saved.
pub proof fn law_tries_saved_networks(config: ConfigView, net_idx: usize)
    ensures
        state_for(config, net_idx) matches ConnState::Connecting(idx) ==> idx
            < config.networks.len() && config.sta_enabled,
        state_for(config, net_idx) is StaDisabled <==> !config.sta_enabled,
        state_for(config, net_idx) is NoNetworks <==> config.sta_enabled
            && config.networks.len() == 0,
{
}

/// A connection is to a network that is saved: the one that was tried.
pub proof fn law_connected_to_a_saved_network(config: ConfigView, connection: Connection)
    requires
        connection.state == state_for(config, connection.net_idx),
        connection.state is Connecting,
    ensures
        connected(connection) == ConnState::Connected(connection.state->Connecting_0),
        connected(connection)->Connected_0 < config.networks.len(),
{
}

/// The network asked for after `fails` failures in a row, with `len` networks saved.
pub open spec fn index_after_failures(net_idx: usize, fails: nat, len: int) -> usize
    decreases fails,
{
    if fails == 0 {
        net_idx
    } else {
        next_index(
            index_after_failures(net_idx, (fails - 1) as nat, len),
            ConnEvent::State(StateEvent::ConnFail),
            len,
        )
    }
}

/// Failures lead through the saved networks in turn.
pub proof fn law_failures_go_round(net_idx: usize, fails: nat, len: int)
    requires
        0 < len <= usize::MAX,
        net_idx < len,
    ensures
        index_after_failures(net_idx, fails, len) == (net_idx + fails) % len,
    decreases fails,
{
    if fails == 0 {
        vstd::arithmetic::div_mod::lemma_small_mod(net_idx as nat, len as nat);
    } else {
        law_failures_go_round(net_idx, (fails - 1) as nat, len);
        vstd::arithmetic::div_mod::lemma_add_mod_noop(net_idx + fails - 1, 1, len);
        vstd::arithmetic::div_mod::lemma_add_mod_noop((net_idx + fails - 1) % len, 1, len);
        vstd::arithmetic::div_mod::lemma_mod_twice(net_idx + fails - 1, len);
    }
}

/// While connections keep failing, every saved network is tried within as many attempts as
/// there are networks.
pub proof fn law_every_network_is_tried(net_idx: usize, wanted: usize, len: int)
    requires
        net_idx < len,
        wanted < len <= usize::MAX,
    ensures
        exists|fails: nat|
            fails < len && #[trigger] index_after_failures(net_idx, fails, len) == wanted,
{
    let fails: nat = if net_idx <= wanted {
        (wanted - net_idx) as nat
    } else {
        (wanted + len - net_idx) as nat
    };
    law_failures_go_round(net_idx, fails, len);
    if net_idx <= wanted {
        vstd::arithmetic::div_mod::lemma_small_mod(wanted as nat, len as nat);
    } else {
        vstd::arithmetic::div_mod::lemma_mod_add_multiples_vanish(wanted as int, len);
        vstd::arithmetic::div_mod::lemma_small_mod(wanted as nat, len as nat);
    }
    assert(index_after_failures(net_idx, fails, len) == wanted);
}

/// A lost connection is tried again after five seconds, from the first network on.
pub proof fn law_lost_connection_is_retried(config: ConfigView, connection: Connection)
    requires
        config.sta_enabled,
        config.networks.len() > 0,
    ensures
        ({
            let event = ConnEvent::State(StateEvent::Disconnected);
            let reaction = reaction_to(connection.state, event);
            let next = next_index(connection.net_idx, event, config.networks.len() as int);
            &&& reaction.pause_ms == 5_000
            &&& reaction.refresh
            &&& state_for(config, next) == ConnState::Connecting(0)
        }),
{
}

/// A saved network that is asked for is the one tried next, at once, and a network that is in use
/// is left for it.
pub proof fn law_requested_network_is_tried(
    config: ConfigView,
    connection: Connection,
    wanted: usize,
)
    requires
        config.sta_enabled,
        wanted < config.networks.len(),
    ensures
        ({
            let event = ConnEvent::Signal(WifiSignal::Connect(wanted));
            let reaction = reaction_to(connection.state, event);
            let next = next_index(connection.net_idx, event, config.networks.len() as int);
            &&& reaction.disconnect == (connection.state is Connected)
            &&& reaction.pause_ms == 0
            &&& reaction.refresh
            &&& state_for(config, next) == ConnState::Connecting(wanted)
        }),
{
}

/// A station that is switched off stops trying, whatever it was doing, and the radio is set up
/// anew.
pub proof fn law_switched_off_station_rests(config: ConfigView, connection: Connection)
    requires
        !config.sta_enabled,
    ensures
        ({
            let event = ConnEvent::Signal(WifiSignal::StaToggled);
            let reaction = reaction_to(connection.state, event);
            let next = next_index(connection.net_idx, event, config.networks.len() as int);
            &&& reaction.disconnect == (connection.state is Connected)
            &&& reaction.reconfigure
            &&& reaction.refresh
            &&& state_for(config, next) == ConnState::StaDisabled
        }),
{
}

// ---- What the operations do -----------------------------------------------------------------

/// The state goes by the configuration: a station that is switched off rests, one without saved
/// networks has nothing to do, and else the network that is asked for is tried, or the last one
/// where there are not so many.
pub proof fn law_state_goes_by_configuration<const N: usize, C: WifiConfig<N>>(
    config: C,
    net_idx: usize,
    r: ConnState,
)
    requires
        call_ensures(compute_state::<N, C>, (&config, net_idx), r),
        config.config().networks.len() <= usize::MAX,
    ensures
        match r {
            ConnState::StaDisabled => !config.config().sta_enabled,
            ConnState::NoNetworks => config.config().sta_enabled
                && config.config().networks.len() == 0,
            ConnState::Connecting(idx) => {
                &&& config.config().sta_enabled
                &&& idx < config.config().networks.len()
                &&& idx == net_idx || (net_idx >= config.config().networks.len() && idx + 1
                    == config.config().networks.len())
            },
            ConnState::Connected(_) => false,
        },
{
}

/// The loop starts at the first network. Where the station is off the radio is set up first.
pub proof fn law_loop_starts_at_first_network<const N: usize, C: WifiConfig<N>>(
    config: C,
    r: (Connection, bool),
)
    requires
        call_ensures(Connection::start::<N, C>, (&config,), r),
        config.config().networks.len() <= usize::MAX,
    ensures
        r.0.net_idx == 0,
        r.0.state == if !config.config().sta_enabled {
            ConnState::StaDisabled
        } else if config.config().networks.len() == 0 {
            ConnState::NoNetworks
        } else {
            ConnState::Connecting(0)
        },
        r.1 == !config.config().sta_enabled,
{
}

/// Where a saved network is tried, the mode to set has a client with exactly the SSID and the
/// password of that network, and beside it the access point of the configuration exactly where
/// that is built in and switched on. In any other state no mode is set.
pub proof fn law_tried_network_is_set<const N: usize, C: WifiConfig<N>>(
    connection: Connection,
    features: RadioFeatures,
    config: C,
    r: Option<ModeConfig>,
)
    requires
        call_ensures(Connection::mode_to_set::<N, C>, (&connection, features, &config), r),
    ensures
        match connection.state {
            ConnState::Connecting(idx) if idx < config.config().networks.len() => {
                let network = config.config().networks[idx as int];
                &&& r matches Some(mode)
                &&& match mode {
                    ModeConfig::ApSta(client, ap) => {
                        &&& features.ap && config.config().ap_enabled
                        &&& joins(client, network.ssid, network.password)
                        &&& serves(ap, config.config())
                    },
                    ModeConfig::Client(client) => {
                        &&& !(features.ap && config.config().ap_enabled)
                        &&& joins(client, network.ssid, network.password)
                    },
                    _ => false,
                }
            },
            _ => r is None,
        },
{
}

/// The network that is asked for after an event: the one in a request, the first one after a
/// toggle or a lost connection, the one after it where a connection failed and networks are saved,
/// from the last on to the first, and else the same.
pub proof fn law_event_moves_on<const N: usize, C: WifiConfig<N>>(
    connection: &mut Connection,
    event: ConnEvent,
    config: C,
    r: Reaction,
)
    requires
        call_ensures(Connection::on_event::<N, C>, (connection, event, &config), r),
        old(connection).net_idx < usize::MAX,
        config.config().networks.len() <= usize::MAX,
    ensures
        ({
            let asked = old(connection).net_idx as int;
            let len = config.config().networks.len() as int;
            let next = final(connection).net_idx as int;
            match event {
                ConnEvent::Signal(WifiSignal::Connect(idx)) => next == idx,
                ConnEvent::Signal(WifiSignal::ApReconfig) => next == asked,
                ConnEvent::Signal(WifiSignal::StaToggled) => next == 0,
                ConnEvent::State(StateEvent::Timeout) => next == asked,
                ConnEvent::State(StateEvent::ConnOk) => next == asked,
                ConnEvent::State(StateEvent::Disconnected) => next == 0,
                ConnEvent::State(StateEvent::ConnFail) => {
                    &&& len == 0 ==> next == asked
                    &&& asked + 1 < len ==> next == asked + 1
                    &&& asked + 1 == len ==> next == 0
                    &&& len > 0 ==> 0 <= next < len && exists|k: int|
                        asked + 1 == #[trigger] (k * len) + next
                },
            }
        }),
{
    let asked = old(connection).net_idx as int;
    let len = config.config().networks.len() as int;
    if len > 0 {
        vstd::arithmetic::div_mod::lemma_mod_bound(asked + 1, len);
        vstd::arithmetic::div_mod::lemma_fundamental_div_mod(asked + 1, len);
        assert(asked + 1 == ((asked + 1) / len) * len + (asked + 1) % len) by (nonlinear_arith)
            requires
                asked + 1 == len * ((asked + 1) / len) + (asked + 1) % len,
        ;
        if asked + 1 < len {
            vstd::arithmetic::div_mod::lemma_small_mod((asked + 1) as nat, len as nat);
        } else if asked + 1 == len {
            vstd::arithmetic::div_mod::lemma_fundamental_div_mod_converse(len, len, 1, 0);
        }
    }
}

/// What is done about an event. A signal leaves the network that is in use; one of the access
/// point or of a toggle sets up the radio anew. Five seconds pass after a failure and after a lost
/// connection. The configuration is looked at anew after everything but a success, which is the
/// only event that changes the state by itself: to connected, with the network that was tried.
pub proof fn law_event_is_reacted_to<const N: usize, C: WifiConfig<N>>(
    connection: &mut Connection,
    event: ConnEvent,
    config: C,
    r: Reaction,
)
    requires
        call_ensures(Connection::on_event::<N, C>, (connection, event, &config), r),
    ensures
        r.disconnect == (event is Signal && old(connection).state is Connected),
        r.reconfigure == (event == ConnEvent::Signal(WifiSignal::ApReconfig) || event
            == ConnEvent::Signal(WifiSignal::StaToggled)),
        r.pause_ms == if event == ConnEvent::State(StateEvent::ConnFail) || event
            == ConnEvent::State(StateEvent::Disconnected) {
            5_000
        } else {
            0u64
        },
        r.refresh == (event != ConnEvent::State(StateEvent::ConnOk)),
        event != ConnEvent::State(StateEvent::ConnOk) ==> final(connection).state == old(
            connection,
        ).state,
        event == ConnEvent::State(StateEvent::ConnOk) ==> match old(connection).state {
            ConnState::Connecting(idx) => final(connection).state == ConnState::Connected(idx),
            _ => final(connection).state == ConnState::Connected(old(connection).net_idx),
        },
{
}

/// A look at the configuration keeps the network that is asked for, and tries it, or the last one
/// where there are not so many.
pub proof fn law_refresh_keeps_network<const N: usize, C: WifiConfig<N>>(
    connection: &mut Connection,
    config: C,
)
    requires
        call_ensures(Connection::refresh::<N, C>, (connection, &config), ()),
        config.config().networks.len() <= usize::MAX,
    ensures
        final(connection).net_idx == old(connection).net_idx,
        final(connection).state == if !config.config().sta_enabled {
            ConnState::StaDisabled
        } else if config.config().networks.len() == 0 {
            ConnState::NoNetworks
        } else if old(connection).net_idx < config.config().networks.len() {
            ConnState::Connecting(old(connection).net_idx)
        } else {
            ConnState::Connecting((config.config().networks.len() - 1) as usize)
        },
{
}

/// In each state the loop waits for what can come of it: for nothing where the station is off, for
/// 30 s where there is no network, for a connection where one is tried, and for its loss where
/// there is one. What comes of it is the event of that wait.
pub proof fn law_state_leads_to_its_events(
    state: ConnState,
    action: StateAction,
    ok: bool,
    r: Option<StateEvent>,
)
    requires
        call_ensures(state_action, (state,), action),
        call_ensures(action_event, (action, ok), r),
    ensures
        match state {
            ConnState::StaDisabled => action is WaitForever && r is None,
            ConnState::NoNetworks => action == StateAction::Sleep(30_000) && r == Some(
                StateEvent::Timeout,
            ),
            ConnState::Connecting(_) => action is Connect && r == Some(
                if ok {
                    StateEvent::ConnOk
                } else {
                    StateEvent::ConnFail
                },
            ),
            ConnState::Connected(_) => action is WaitForDisconnect && r == Some(
                StateEvent::Disconnected,
            ),
        },
{
}

} // verus!
