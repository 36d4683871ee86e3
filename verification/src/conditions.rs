//! Whether the machine is in a state a scheduled backup may run in.
//!
//! Reading the real state (battery, network) is the application's part; the
//! decision whether that state satisfies a profile's conditions is made
//! here, on plain values. A piece of state that could not be read counts as
//! satisfying the condition that needed it, so a machine with no way to
//! answer never blocks a schedule for good.

use vstd::prelude::*;
use crate::number::{decimal, decimal_chars};
use crate::profile::Conditions;
use crate::text::{chars_of, extend, same, string_of};

verus! {

/// The state on the machine right now, as far as the conditions care.
/// `None` means the piece could not be read.
#[derive(Debug, Clone, Default, PartialEq, Eq)]
pub struct SystemState {
    pub on_battery: Option<bool>,
    pub battery_percent: Option<u8>,
    pub metered: Option<bool>,
    /// Wi-Fi networks connected to, by connection name; `None` if this could
    /// not be read at all.
    pub connected_wifi: Option<Vec<String>>,
    pub vpn_up: bool,
}

/// One of the connected networks is trusted.
pub open spec fn on_trusted(connected: Seq<String>, trusted: Seq<String>) -> bool {
    exists|i: int, j: int|
        0 <= i < connected.len() && 0 <= j < trusted.len() && #[trigger] connected[i]@
            == #[trigger] trusted[j]@
}

/// The reason a battery below the minimum gives.
pub open spec fn low_battery(percent: u8, minimum: u8) -> Seq<char> {
    "battery at "@ + decimal(percent as nat) + "%, below the "@ + decimal(minimum as nat)
        + "% minimum"@
}

/// Whether `c` is met in `s`: `Ok` if so, otherwise the reason, checked in
/// this order: mains power, battery level, metered connection, trusted
/// network.
pub open spec fn verdict(c: Conditions, s: SystemState) -> Result<(), Seq<char>> {
    if c.require_ac && s.on_battery == Some(true) {
        Err("running on battery, not mains power"@)
    } else if c.min_battery_percent is Some && s.battery_percent is Some
        && s.battery_percent->0 < c.min_battery_percent->0 {
        Err(low_battery(s.battery_percent->0, c.min_battery_percent->0))
    } else if c.block_metered && s.metered == Some(true) {
        Err("on a connection marked metered"@)
    } else if c.require_trusted_network && !s.vpn_up && s.connected_wifi is Some && !on_trusted(
        s.connected_wifi->0@,
        c.trusted_networks@,
    ) {
        Err("not on a trusted network or a VPN"@)
    } else {
        Ok(())
    }
}

/// Whether any connected network is trusted.
fn any_trusted(connected: &Vec<String>, trusted: &Vec<String>) -> (r: bool)
    ensures
        r == on_trusted(connected@, trusted@),
{
    let mut i: usize = 0;
    while i < connected.len()
        invariant
            i <= connected@.len(),
            forall|a: int, b: int|
                0 <= a < i && 0 <= b < trusted@.len() ==> #[trigger] connected@[a]@
                    != #[trigger] trusted@[b]@,
        decreases connected@.len() - i,
    {
        let mut j: usize = 0;
        while j < trusted.len()
            invariant
                i < connected@.len(),
                j <= trusted@.len(),
                forall|a: int, b: int|
                    0 <= a < i && 0 <= b < trusted@.len() ==> #[trigger] connected@[a]@
                        != #[trigger] trusted@[b]@,
                forall|b: int| 0 <= b < j ==> connected@[i as int]@ != #[trigger] trusted@[b]@,
            decreases trusted@.len() - j,
        {
            if connected[i] == trusted[j] {
                return true;
            }
            j = j + 1;
        }
        i = i + 1;
    }
    false
}

/// Whether `conditions` are all met in `state`: `Ok(())` if so, or if none
/// are set; otherwise a short technical reason, for the log and the event
/// history.
pub fn met(conditions: &Conditions, state: &SystemState) -> (r: Result<(), String>)
    ensures
        match r {
            Ok(()) => verdict(*conditions, *state) is Ok,
            Err(reason) => verdict(*conditions, *state) == Err::<(), Seq<char>>(reason@),
        },
{
    if conditions.require_ac && state.on_battery == Some(true) {
        return Err("running on battery, not mains power".to_owned());
    }
    if let Some(minimum) = conditions.min_battery_percent {
        if let Some(percent) = state.battery_percent {
            if percent < minimum {
                let mut m = chars_of("battery at ");
                extend(&mut m, decimal_chars(percent as u64).as_slice());
                extend(&mut m, chars_of("%, below the ").as_slice());
                extend(&mut m, decimal_chars(minimum as u64).as_slice());
                extend(&mut m, chars_of("% minimum").as_slice());
                return Err(string_of(m.as_slice()));
            }
        }
    }
    if conditions.block_metered && state.metered == Some(true) {
        return Err("on a connection marked metered".to_owned());
    }
    if conditions.require_trusted_network && !state.vpn_up {
        if let Some(connected) = &state.connected_wifi {
            if !any_trusted(connected, &conditions.trusted_networks) {
                return Err("not on a trusted network or a VPN".to_owned());
            }
        }
    }
    Ok(())
}

/// A state in which nothing could be read.
pub open spec fn unknown_state(s: SystemState) -> bool {
    s.on_battery is None && s.battery_percent is None && s.metered is None && s.connected_wifi is None
}

/// A machine with no way to tell its state never blocks a scheduled backup,
/// whatever its conditions.
pub proof fn lemma_unknown_state_never_blocks(c: Conditions, s: SystemState)
    requires
        unknown_state(s),
    ensures
        verdict(c, s) is Ok,
{
}

/// A profile with no conditions set always runs.
pub proof fn lemma_no_conditions_always_met(c: Conditions, s: SystemState)
    requires
        c.none_set(),
    ensures
        verdict(c, s) is Ok,
{
}

/// A VPN satisfies the trusted-network condition by itself.
pub proof fn lemma_vpn_is_trusted(c: Conditions, s: SystemState)
    requires
        s.vpn_up,
        !c.require_ac || s.on_battery != Some(true),
        c.min_battery_percent is None || s.battery_percent is None
            || s.battery_percent->0 >= c.min_battery_percent->0,
        !c.block_metered || s.metered != Some(true),
    ensures
        verdict(c, s) is Ok,
{
}

/// Being connected to any one of the trusted networks, whichever place it
/// has in either list, satisfies the trusted-network condition: with the
/// other conditions met, the backup may run.
pub proof fn lemma_any_trusted_network_is_enough(c: Conditions, s: SystemState, i: int, j: int)
    requires
        !c.require_ac || s.on_battery != Some(true),
        c.min_battery_percent is None || s.battery_percent is None
            || s.battery_percent->0 >= c.min_battery_percent->0,
        !c.block_metered || s.metered != Some(true),
        s.connected_wifi matches Some(connected) && 0 <= i < connected@.len() && 0 <= j
            < c.trusted_networks@.len() && connected@[i]@ == c.trusted_networks@[j]@,
    ensures
        verdict(c, s) is Ok,
{
    let connected = s.connected_wifi->0@;
    assert(connected[i]@ == c.trusted_networks@[j]@);
}

/// Where a trusted network is required, no VPN is up, and the connected
/// networks are known and none of them is trusted, the backup does not
/// run, and the reason says so (the other conditions being met).
pub proof fn lemma_an_untrusted_network_blocks(c: Conditions, s: SystemState)
    requires
        !c.require_ac || s.on_battery != Some(true),
        c.min_battery_percent is None || s.battery_percent is None
            || s.battery_percent->0 >= c.min_battery_percent->0,
        !c.block_metered || s.metered != Some(true),
        c.require_trusted_network,
        !s.vpn_up,
        s.connected_wifi matches Some(connected) && forall|i: int, j: int|
            0 <= i < connected@.len() && 0 <= j < c.trusted_networks@.len() ==> connected@[i]@
                != c.trusted_networks@[j]@,
    ensures
        verdict(c, s) == Err::<(), Seq<char>>("not on a trusted network or a VPN"@),
{
}

/// NetworkManager's connection types for a VPN interface: a VPN plugin, a
/// WireGuard interface, or a plain TUN/TAP device, which is what Tailscale
/// comes up as.
pub open spec fn vpn_type(t: Seq<char>) -> bool {
    t == "vpn"@ || t == "wireguard"@ || t == "tun"@ || t == "tap"@
}

/// Whether a connection of type `connection_type` is a VPN.
pub fn is_vpn_type(connection_type: &str) -> (r: bool)
    ensures
        r == vpn_type(connection_type@),
{
    let t = chars_of(connection_type);
    same(t.as_slice(), chars_of("vpn").as_slice()) || same(t.as_slice(), chars_of("wireguard").as_slice())
        || same(t.as_slice(), chars_of("tun").as_slice()) || same(t.as_slice(), chars_of("tap").as_slice())
}

} // verus!
