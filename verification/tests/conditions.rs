use stellarshot::conditions::{is_vpn_type, met, SystemState};
use stellarshot::profile::Conditions;

fn state() -> SystemState {
    SystemState {
        on_battery: Some(false),
        battery_percent: Some(80),
        metered: Some(false),
        connected_wifi: Some(vec!["Home".to_owned()]),
        vpn_up: false,
    }
}

#[test]
fn no_conditions_are_always_met() {
    assert_eq!(met(&Conditions::default(), &SystemState::default()), Ok(()));
}

#[test]
fn ac_is_required_only_when_actually_on_battery() {
    let conditions = Conditions { require_ac: true, ..Conditions::default() };
    assert!(met(&conditions, &state()).is_ok());
    let on_battery = SystemState { on_battery: Some(true), ..state() };
    assert!(met(&conditions, &on_battery).is_err());
    let unknown = SystemState { on_battery: None, ..state() };
    assert!(
        met(&conditions, &unknown).is_ok(),
        "a machine with no way to tell must not block forever"
    );
}

#[test]
fn a_battery_minimum_blocks_only_below_it() {
    let conditions = Conditions { min_battery_percent: Some(50), ..Conditions::default() };
    assert!(met(&conditions, &state()).is_ok(), "80% clears 50%");
    let low = SystemState { battery_percent: Some(49), ..state() };
    assert!(met(&conditions, &low).is_err());
    let exact = SystemState { battery_percent: Some(50), ..state() };
    assert!(met(&conditions, &exact).is_ok(), "the minimum itself clears it");
    let no_battery = SystemState { battery_percent: None, ..state() };
    assert!(
        met(&conditions, &no_battery).is_ok(),
        "a desktop with no battery has nothing to be low on"
    );
}

#[test]
fn a_low_battery_says_both_numbers() {
    let conditions = Conditions { min_battery_percent: Some(50), ..Conditions::default() };
    let low = SystemState { battery_percent: Some(7), ..state() };
    assert_eq!(
        met(&conditions, &low),
        Err("battery at 7%, below the 50% minimum".to_owned())
    );
}

#[test]
fn metered_blocks_only_when_actually_metered() {
    let conditions = Conditions { block_metered: true, ..Conditions::default() };
    assert!(met(&conditions, &state()).is_ok());
    let metered = SystemState { metered: Some(true), ..state() };
    assert_eq!(
        met(&conditions, &metered),
        Err("on a connection marked metered".to_owned())
    );
    let unknown = SystemState { metered: None, ..state() };
    assert!(met(&conditions, &unknown).is_ok());
}

#[test]
fn a_trusted_network_by_name_satisfies_the_condition() {
    let conditions = Conditions {
        require_trusted_network: true,
        trusted_networks: vec!["Home".to_owned()],
        ..Conditions::default()
    };
    assert!(met(&conditions, &state()).is_ok());
    let elsewhere = SystemState { connected_wifi: Some(vec!["Coffee Shop".to_owned()]), ..state() };
    assert_eq!(
        met(&conditions, &elsewhere),
        Err("not on a trusted network or a VPN".to_owned())
    );
}

#[test]
fn a_vpn_satisfies_the_trusted_network_condition_on_its_own() {
    let conditions = Conditions {
        require_trusted_network: true,
        trusted_networks: Vec::new(),
        ..Conditions::default()
    };
    let on_vpn = SystemState {
        connected_wifi: Some(vec!["Coffee Shop".to_owned()]),
        vpn_up: true,
        ..state()
    };
    assert!(met(&conditions, &on_vpn).is_ok());
}

#[test]
fn an_unreadable_network_does_not_block_a_trusted_network_condition() {
    let conditions = Conditions {
        require_trusted_network: true,
        trusted_networks: vec!["Home".to_owned()],
        ..Conditions::default()
    };
    let unknown = SystemState { connected_wifi: None, ..state() };
    assert!(
        met(&conditions, &unknown).is_ok(),
        "a machine with no way to tell must not block forever"
    );
}

#[test]
fn an_unknown_machine_meets_every_condition() {
    let conditions = Conditions {
        require_ac: true,
        min_battery_percent: Some(90),
        block_metered: true,
        require_trusted_network: true,
        trusted_networks: vec!["Home".to_owned()],
    };
    assert!(met(&conditions, &SystemState::default()).is_ok());
    assert!(!conditions.is_empty());
    assert!(Conditions::default().is_empty());
}

#[test]
fn vpn_types_match_what_a_real_tailscale_connection_reports() {
    assert!(is_vpn_type("tun"));
    assert!(is_vpn_type("wireguard"));
    assert!(is_vpn_type("vpn"));
    assert!(!is_vpn_type("802-11-wireless"));
    assert!(!is_vpn_type("bridge"));
}
