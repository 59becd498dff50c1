use macstate::network::{Interface, Network};
use macstate::nwpath::{read_path, InterfaceType, InterfaceUsage, PathSnapshot, PathStatus};
use macstate::pmset::energy_mode_from_pmset;
use macstate::power::{
    battery_percent, first_battery_percent, read_energy_mode, read_power_source, EnergyMode, Power,
    PowerSourceCapacity, PowerSources, Source,
};
use macstate::text::{first_field, is_whitespace, to_chars};
use macstate::State;

fn no_usage() -> InterfaceUsage {
    InterfaceUsage { wifi: false, wired_ethernet: false, cellular: false, loopback: false, other: false }
}

fn snap(interface: Option<InterfaceType>) -> PathSnapshot {
    PathSnapshot { status: PathStatus::Satisfied, expensive: true, constrained: false, interface }
}

fn cap(current: Option<i32>, max: Option<i32>) -> Option<PowerSourceCapacity> {
    Some(PowerSourceCapacity { current, max })
}

#[test]
fn status_codes_decode() {
    assert_eq!(PathStatus::from_raw(0), PathStatus::Invalid);
    assert_eq!(PathStatus::from_raw(1), PathStatus::Satisfied);
    assert_eq!(PathStatus::from_raw(2), PathStatus::Unsatisfied);
    assert_eq!(PathStatus::from_raw(3), PathStatus::SatisfiedWithDifferentInterface);
    assert_eq!(PathStatus::from_raw(4), PathStatus::Invalid);
    assert_eq!(PathStatus::from_raw(-1), PathStatus::Invalid);
}

#[test]
fn interface_type_codes() {
    assert_eq!(InterfaceType::Other.raw(), 0);
    assert_eq!(InterfaceType::Wifi.raw(), 1);
    assert_eq!(InterfaceType::Cellular.raw(), 2);
    assert_eq!(InterfaceType::WiredEthernet.raw(), 3);
    assert_eq!(InterfaceType::Loopback.raw(), 4);
}

#[test]
fn read_path_probes_in_priority_order() {
    let all = InterfaceUsage { wifi: true, wired_ethernet: true, cellular: true, loopback: true, other: true };
    assert_eq!(read_path(1, false, false, all).interface, Some(InterfaceType::Wifi));
    let u = InterfaceUsage { wifi: false, ..all };
    assert_eq!(read_path(1, false, false, u).interface, Some(InterfaceType::WiredEthernet));
    let u = InterfaceUsage { cellular: true, loopback: true, ..no_usage() };
    assert_eq!(read_path(1, false, false, u).interface, Some(InterfaceType::Cellular));
    let u = InterfaceUsage { loopback: true, other: true, ..no_usage() };
    assert_eq!(read_path(1, false, false, u).interface, Some(InterfaceType::Loopback));
    let u = InterfaceUsage { other: true, ..no_usage() };
    assert_eq!(read_path(1, false, false, u).interface, Some(InterfaceType::Other));
    assert_eq!(read_path(1, false, false, no_usage()).interface, None);
}

#[test]
fn read_path_keeps_flags_and_status() {
    let s = read_path(2, true, false, no_usage());
    assert_eq!(
        s,
        PathSnapshot { status: PathStatus::Unsatisfied, expensive: true, constrained: false, interface: None }
    );
    let s = read_path(9, false, true, no_usage());
    assert_eq!(s.status, PathStatus::Invalid);
    assert!(s.constrained);
    assert!(!s.expensive);
}

#[test]
fn network_without_reading_is_unknown() {
    let n = Network::collect(None);
    assert_eq!(n, Network { constrained: false, expensive: false, interface: Interface::Other });
}

#[test]
fn network_maps_interface_kinds() {
    assert_eq!(Network::collect(Some(snap(Some(InterfaceType::Wifi)))).interface, Interface::Wifi);
    assert_eq!(Network::collect(Some(snap(Some(InterfaceType::Cellular)))).interface, Interface::Cellular);
    assert_eq!(Network::collect(Some(snap(Some(InterfaceType::WiredEthernet)))).interface, Interface::Wired);
    assert_eq!(Network::collect(Some(snap(Some(InterfaceType::Loopback)))).interface, Interface::Loopback);
    assert_eq!(Network::collect(Some(snap(Some(InterfaceType::Other)))).interface, Interface::Other);
    assert_eq!(Network::collect(Some(snap(None))).interface, Interface::Other);
    let n = Network::collect(Some(PathSnapshot {
        status: PathStatus::Satisfied,
        expensive: false,
        constrained: true,
        interface: Some(InterfaceType::Wifi),
    }));
    assert_eq!(n, Network { constrained: true, expensive: false, interface: Interface::Wifi });
}

#[test]
fn battery_percent_rounds_to_nearest() {
    assert_eq!(battery_percent(87, 100), 87);
    assert_eq!(battery_percent(2, 3), 67);
    assert_eq!(battery_percent(1, 3), 33);
    assert_eq!(battery_percent(1, 200), 1);
    assert_eq!(battery_percent(199, 200), 100);
    assert_eq!(battery_percent(4500, 5000), 90);
    assert_eq!(battery_percent(0, 100), 0);
    assert_eq!(battery_percent(100, 100), 100);
}

#[test]
fn battery_percent_clamps() {
    assert_eq!(battery_percent(-5, 100), 0);
    assert_eq!(battery_percent(i32::MIN, 1), 0);
    assert_eq!(battery_percent(150, 100), 100);
    assert_eq!(battery_percent(i32::MAX, 1), 100);
}

#[test]
fn power_source_without_reading() {
    assert_eq!(read_power_source(&None), (Source::Ac, None));
}

#[test]
fn power_source_from_providing_type() {
    let r = PowerSources { providing_type: Some("AC Power".to_string()), sources: None };
    assert_eq!(read_power_source(&Some(r)), (Source::Ac, None));
    let r = PowerSources { providing_type: Some("Battery Power".to_string()), sources: None };
    assert_eq!(read_power_source(&Some(r)), (Source::Battery, None));
    let r = PowerSources { providing_type: Some("UPS Power".to_string()), sources: None };
    assert_eq!(read_power_source(&Some(r)), (Source::Battery, None));
    let r = PowerSources { providing_type: Some("AC Power ".to_string()), sources: None };
    assert_eq!(read_power_source(&Some(r)), (Source::Battery, None));
    let r = PowerSources { providing_type: None, sources: None };
    assert_eq!(read_power_source(&Some(r)), (Source::Ac, None));
}

#[test]
fn power_source_first_usable_entry() {
    let entries = vec![
        None,
        cap(Some(50), None),
        cap(None, Some(100)),
        cap(Some(50), Some(0)),
        cap(Some(30), Some(-10)),
        cap(Some(42), Some(84)),
        cap(Some(10), Some(100)),
    ];
    assert_eq!(first_battery_percent(&entries), Some(50));
    let r = PowerSources { providing_type: Some("Battery Power".to_string()), sources: Some(entries) };
    assert_eq!(read_power_source(&Some(r)), (Source::Battery, Some(50)));
    assert_eq!(first_battery_percent(&vec![None, cap(Some(1), Some(0))]), None);
    assert_eq!(first_battery_percent(&vec![]), None);
}

const PMSET_AUTOMATIC: &str = "System-wide power settings:\nCurrently in use:\n standby              1\n Sleep On Power Button 1\n hibernatefile        /var/vm/sleepimage\n powernap             1\n networkoversleep     0\n disksleep            10\n sleep                1 (sleep prevented by coreaudiod)\n hibernatemode        3\n ttyskeepawake        1\n displaysleep         10\n tcpkeepalive         1\n lowpowermode         0\n womp                 1\n";

#[test]
fn pmset_automatic() {
    assert_eq!(energy_mode_from_pmset(PMSET_AUTOMATIC), EnergyMode::Automatic);
    assert_eq!(energy_mode_from_pmset(""), EnergyMode::Automatic);
    assert_eq!(energy_mode_from_pmset("\n\n"), EnergyMode::Automatic);
    assert_eq!(energy_mode_from_pmset("powermode 0\n"), EnergyMode::Automatic);
    assert_eq!(energy_mode_from_pmset("powermode 3\n"), EnergyMode::Automatic);
    assert_eq!(energy_mode_from_pmset("lowpowermode\n"), EnergyMode::Automatic);
    assert_eq!(energy_mode_from_pmset("lowpowermode 10\n"), EnergyMode::Automatic);
    assert_eq!(energy_mode_from_pmset("highpowermode 2\n"), EnergyMode::Automatic);
    assert_eq!(energy_mode_from_pmset("x lowpowermode 1\n"), EnergyMode::Automatic);
}

#[test]
fn pmset_low_power_mode() {
    let text = PMSET_AUTOMATIC.replace("lowpowermode         0", "lowpowermode         1");
    assert_eq!(energy_mode_from_pmset(&text), EnergyMode::Low);
    assert_eq!(energy_mode_from_pmset(" powermode            1"), EnergyMode::Low);
    assert_eq!(energy_mode_from_pmset("\tlowpowermode\t1 \r\n"), EnergyMode::Low);
    assert_eq!(energy_mode_from_pmset("lowpowermode1"), EnergyMode::Low);
    assert_eq!(energy_mode_from_pmset("lowpowermode 1 extra"), EnergyMode::Low);
    assert_eq!(energy_mode_from_pmset("\u{a0}lowpowermode\u{3000}1\u{2029}"), EnergyMode::Low);
}

#[test]
fn pmset_high_power_mode() {
    assert_eq!(energy_mode_from_pmset(" highpowermode        1\n"), EnergyMode::High);
    assert_eq!(energy_mode_from_pmset(" powermode            2\n lowpowermode 0"), EnergyMode::High);
}

#[test]
fn pmset_low_wins_over_high() {
    assert_eq!(energy_mode_from_pmset("highpowermode 1\nlowpowermode 1\n"), EnergyMode::Low);
    assert_eq!(energy_mode_from_pmset("lowpowermode 1\npowermode 2\n"), EnergyMode::Low);
    assert_eq!(energy_mode_from_pmset("powermode 2\nlowpowermode 0\npowermode 1"), EnergyMode::Low);
}

#[test]
fn pmset_joined_outputs_commute() {
    let a = " highpowermode 1\n disksleep 10";
    let b = " lowpowermode 0\n powermode 1\n";
    let ab = format!("{}\n{}", a, b);
    let ba = format!("{}\n{}", b, a);
    assert_eq!(energy_mode_from_pmset(&ab), EnergyMode::Low);
    assert_eq!(energy_mode_from_pmset(&ba), EnergyMode::Low);
    let c = " highpowermode 1";
    let d = " lowpowermode 0";
    assert_eq!(energy_mode_from_pmset(&format!("{}\n{}", c, d)), EnergyMode::High);
    assert_eq!(energy_mode_from_pmset(&format!("{}\n{}", d, c)), EnergyMode::High);
}

#[test]
fn energy_mode_without_output() {
    assert_eq!(read_energy_mode(None), EnergyMode::Automatic);
    assert_eq!(read_energy_mode(Some("powermode 2")), EnergyMode::High);
}

#[test]
fn power_collect_combines_readings() {
    let sources = PowerSources {
        providing_type: Some("Battery Power".to_string()),
        sources: Some(vec![cap(Some(87), Some(100))]),
    };
    let p = Power::collect(Some(sources), true, Some("lowpowermode 1\n"));
    assert_eq!(
        p,
        Power { source: Source::Battery, battery_percent: Some(87), low_power_mode: true, energy_mode: EnergyMode::Low }
    );
    let p = Power::collect(None, false, Some("powermode 1\n"));
    assert_eq!(
        p,
        Power { source: Source::Ac, battery_percent: None, low_power_mode: false, energy_mode: EnergyMode::Low }
    );
}

#[test]
fn power_without_readings_is_default() {
    let p = Power::collect(None, false, None);
    assert_eq!(
        p,
        Power { source: Source::Ac, battery_percent: None, low_power_mode: false, energy_mode: EnergyMode::Automatic }
    );
}

#[test]
fn state_without_readings_is_default() {
    let s = State::collect(None, None, false, None);
    assert_eq!(s.network, Network { constrained: false, expensive: false, interface: Interface::Other });
    assert_eq!(
        s.power,
        Power { source: Source::Ac, battery_percent: None, low_power_mode: false, energy_mode: EnergyMode::Automatic }
    );
}

#[test]
fn state_collects_both() {
    let path = read_path(1, false, true, InterfaceUsage { wifi: true, ..no_usage() });
    let sources = PowerSources { providing_type: Some("AC Power".to_string()), sources: Some(vec![cap(Some(3), Some(4))]) };
    let s = State::collect(Some(path), Some(sources), false, Some(" highpowermode 1\n"));
    assert_eq!(s.network, Network { constrained: true, expensive: false, interface: Interface::Wifi });
    assert_eq!(
        s.power,
        Power { source: Source::Ac, battery_percent: Some(75), low_power_mode: false, energy_mode: EnergyMode::High }
    );
}

#[test]
fn first_field_splits_on_whitespace() {
    assert_eq!(first_field("   1   "), Some("1"));
    assert_eq!(first_field("abc def"), Some("abc"));
    assert_eq!(first_field("\t\u{2003}x\u{85}y"), Some("x"));
    assert_eq!(first_field("  \n\t "), None);
    assert_eq!(first_field(""), None);
    assert_eq!(first_field("héllo wörld"), Some("héllo"));
}

#[test]
fn whitespace_matches_std() {
    for n in 0u32..0x3100 {
        if let Some(c) = char::from_u32(n) {
            assert_eq!(is_whitespace(c), c.is_whitespace(), "{:#x}", n);
        }
    }
    assert!(!is_whitespace('\u{feff}'));
    assert!(!is_whitespace('\u{200b}'));
}

#[test]
fn chars_in_order() {
    assert_eq!(to_chars("aé\u{1f600}b"), vec!['a', 'é', '\u{1f600}', 'b']);
    assert_eq!(to_chars(""), Vec::<char>::new());
}
