//! Signals from the configuration to the connection loop.
use vstd::prelude::*;

verus! {

/// A signal for the connection loop. Of several of one kind that the loop has not seen, only
/// the last counts.
#[derive(Clone, Copy, Debug, PartialEq, Eq, Structural)]
pub enum WifiSignal {
    /// Connect to the saved network of this index.
    Connect(usize),
    /// The access point's configuration or switch has changed.
    ApReconfig,
    /// The station's switch has changed.
    StaToggled,
}

/// Asks for a connection to the saved network `index`.
pub fn request_connect(index: usize) -> (signal: WifiSignal)
    ensures
        signal == WifiSignal::Connect(index),
{
    WifiSignal::Connect(index)
}

/// Asks for the access point to be set up anew.
pub fn request_ap_reconfig() -> (signal: WifiSignal)
    ensures
        signal == WifiSignal::ApReconfig,
{
    WifiSignal::ApReconfig
}

/// Tells that the access point was switched on or off.
pub fn notify_ap_toggled() -> (signal: WifiSignal)
    ensures
        signal == WifiSignal::ApReconfig,
{
    WifiSignal::ApReconfig
}

/// Tells that the station was switched on or off.
pub fn notify_sta_toggled() -> (signal: WifiSignal)
    ensures
        signal == WifiSignal::StaToggled,
{
    WifiSignal::StaToggled
}

/// A request names the network asked for; a change of the access point, its switch or not, is one
/// signal, and a change of the station's switch another.
pub proof fn law_signals_tell_what_changed(
    index: usize,
    connect: WifiSignal,
    reconfig: WifiSignal,
    ap: WifiSignal,
    sta: WifiSignal,
)
    requires
        call_ensures(request_connect, (index,), connect),
        call_ensures(request_ap_reconfig, (), reconfig),
        call_ensures(notify_ap_toggled, (), ap),
        call_ensures(notify_sta_toggled, (), sta),
    ensures
        connect == WifiSignal::Connect(index),
        reconfig == WifiSignal::ApReconfig,
        ap == reconfig,
        sta == WifiSignal::StaToggled,
{
}

} // verus!
