use std::path::PathBuf;

use wifi::model::{NetworkId, SignalStrength, Ssid, WifiError};
use wifi::wpa::{country_code_parse, interface_command, interface_connected, output_text, WpaCli};

fn cli() -> WpaCli {
    WpaCli::init("wlan0".to_owned(), PathBuf::from("/embassy-data"))
}

fn texts(args: &[&str]) -> Vec<String> {
    args.iter().map(|a| a.to_string()).collect()
}

#[test]
fn signal_strength_without_reading_is_zero() {
    assert_eq!(SignalStrength::new(None), SignalStrength(0));
}

#[test]
fn signal_strength_keeps_readings_below_one_hundred() {
    assert_eq!(SignalStrength::new(Some(0)), SignalStrength(0));
    assert_eq!(SignalStrength::new(Some(57)), SignalStrength(57));
    assert_eq!(SignalStrength::new(Some(99)), SignalStrength(99));
}

#[test]
fn signal_strength_caps_at_one_hundred() {
    assert_eq!(SignalStrength::new(Some(100)), SignalStrength(100));
    assert_eq!(SignalStrength::new(Some(101)), SignalStrength(100));
    assert_eq!(SignalStrength::new(Some(255)), SignalStrength(100));
}

#[test]
fn signal_strength_default_is_no_signal() {
    assert_eq!(SignalStrength::default(), SignalStrength(0));
}

#[test]
fn init_keeps_interface_and_datadir() {
    let c = cli();
    assert_eq!(c.interface, "wlan0");
    assert_eq!(c.datadir, PathBuf::from("/embassy-data"));
}

#[test]
fn output_text_refuses_bytes_that_are_not_utf8() {
    assert_eq!(output_text(vec![0x66, 0xff, 0x66]), Err(WifiError::InvalidUtf8));
    let cs = output_text("añb".as_bytes().to_vec()).unwrap();
    assert_eq!(cs, vec!['a', 'ñ', 'b']);
}

#[test]
fn list_networks_reads_lines_with_four_fields() {
    let report = "Home:1f2e-aa:802-11-wireless:wlan0\n\
                  Wired connection 1:77aa-01:802-3-ethernet\n\
                  Office:3c4d-bb:802-11-wireless:\n\
                  Cafe:9e9e-cc:802-11-wireless:wlan0:extra\n";
    let m = cli().list_networks_low(report.as_bytes().to_vec()).unwrap();
    assert_eq!(m.len(), 3);
    assert_eq!(m.get(&Ssid("Home".to_owned())), Some(&NetworkId("1f2e-aa".to_owned())));
    assert_eq!(m.get(&Ssid("Office".to_owned())), Some(&NetworkId("3c4d-bb".to_owned())));
    assert_eq!(m.get(&Ssid("Cafe".to_owned())), Some(&NetworkId("9e9e-cc".to_owned())));
    assert_eq!(m.get(&Ssid("Wired connection 1".to_owned())), None);
}

#[test]
fn list_networks_later_line_wins() {
    let report = "Home:first:802-11-wireless:wlan0\nHome:second:802-11-wireless:wlan0\n";
    let m = cli().list_networks_low(report.as_bytes().to_vec()).unwrap();
    assert_eq!(m.len(), 1);
    assert_eq!(m.get(&Ssid("Home".to_owned())), Some(&NetworkId("second".to_owned())));
}

#[test]
fn list_networks_of_empty_report_is_empty() {
    let m = cli().list_networks_low(Vec::new()).unwrap();
    assert_eq!(m.len(), 0);
}

#[test]
fn list_networks_refuses_bytes_that_are_not_utf8() {
    let r = cli().list_networks_low(vec![0xc3, 0x28]);
    assert!(matches!(r, Err(WifiError::InvalidUtf8)));
}

#[test]
fn list_wifi_reads_ssid_signal_and_security() {
    let report = "Cafe:72:WPA2\nLoud:250:WPA2 WPA3\nOpen:100:\nNoise:abc:WPA1 WPA2\nshort:5\nHuge:300:WPA2\n";
    let m = cli().list_wifi_low(report.as_bytes().to_vec()).unwrap();
    assert_eq!(m.len(), 5);
    assert_eq!(m.get(&Ssid("Huge".to_owned())).unwrap().strength, SignalStrength(0));
    let cafe = m.get(&Ssid("Cafe".to_owned())).unwrap();
    assert_eq!(cafe.strength, SignalStrength(72));
    assert_eq!(cafe.security, texts(&["WPA2"]));
    let loud = m.get(&Ssid("Loud".to_owned())).unwrap();
    assert_eq!(loud.strength, SignalStrength(100));
    assert_eq!(loud.security, texts(&["WPA2", "WPA3"]));
    let open = m.get(&Ssid("Open".to_owned())).unwrap();
    assert_eq!(open.strength, SignalStrength(100));
    assert_eq!(open.security, texts(&[""]));
    let noise = m.get(&Ssid("Noise".to_owned())).unwrap();
    assert_eq!(noise.strength, SignalStrength(0));
    assert_eq!(noise.security, texts(&["WPA1", "WPA2"]));
    assert!(m.get(&Ssid("short".to_owned())).is_none());
}

#[test]
fn list_wifi_reads_signal_as_u8_from_str_does() {
    let report = "Plus:+42:WPA2\nSpace: 42:WPA2\nZero:007:WPA2\n";
    let m = cli().list_wifi_low(report.as_bytes().to_vec()).unwrap();
    assert_eq!(m.get(&Ssid("Plus".to_owned())).unwrap().strength, SignalStrength(42));
    assert_eq!(m.get(&Ssid("Space".to_owned())).unwrap().strength, SignalStrength(0));
    assert_eq!(m.get(&Ssid("Zero".to_owned())).unwrap().strength, SignalStrength(7));
}

#[test]
fn list_wifi_handles_crlf_line_ends() {
    let report = "Cafe:72:WPA2\r\nBar:30:WPA1\r\n";
    let m = cli().list_wifi_low(report.as_bytes().to_vec()).unwrap();
    assert_eq!(m.get(&Ssid("Cafe".to_owned())).unwrap().security, texts(&["WPA2"]));
    assert_eq!(m.get(&Ssid("Bar".to_owned())).unwrap().strength, SignalStrength(30));
}

#[test]
fn current_network_is_trimmed_output() {
    let c = cli();
    assert_eq!(
        c.get_current_network(b"HomeNet\n".to_vec()),
        Ok(Some(Ssid("HomeNet".to_owned())))
    );
    assert_eq!(
        c.get_current_network(b"  My Home Net \t\n".to_vec()),
        Ok(Some(Ssid("My Home Net".to_owned())))
    );
}

#[test]
fn current_network_of_blank_output_is_none() {
    let c = cli();
    assert_eq!(c.get_current_network(Vec::new()), Ok(None));
    assert_eq!(c.get_current_network(b" \n\t ".to_vec()), Ok(None));
    assert_eq!(c.get_current_network("\u{3000}\u{a0}".as_bytes().to_vec()), Ok(None));
}

#[test]
fn current_network_refuses_bytes_that_are_not_utf8() {
    assert_eq!(cli().get_current_network(vec![0xfe]), Err(WifiError::InvalidUtf8));
}

#[test]
fn interface_with_inet_line_is_connected() {
    let report = "eth0: flags=4163<UP,BROADCAST,RUNNING,MULTICAST>  mtu 1500\n        inet 192.168.1.20  netmask 255.255.255.0\n";
    assert_eq!(interface_connected(report.as_bytes().to_vec()), Ok(true));
    let v6 = "eth0: flags=4163<UP>\n        inet6 fe80::1  prefixlen 64\n";
    assert_eq!(interface_connected(v6.as_bytes().to_vec()), Ok(true));
}

#[test]
fn interface_without_inet_line_is_not_connected() {
    let report = "eth0: flags=4099<UP,BROADCAST,MULTICAST>  mtu 1500\n        ether b8:27:eb:00:00:00\n";
    assert_eq!(interface_connected(report.as_bytes().to_vec()), Ok(false));
    assert_eq!(interface_connected(Vec::new()), Ok(false));
    assert_eq!(interface_connected(vec![0x80]), Err(WifiError::InvalidUtf8));
}

#[test]
fn interface_command_names_ifconfig() {
    let cmd = interface_command("eth0");
    assert_eq!(cmd.program, "ifconfig");
    assert_eq!(cmd.args, texts(&["eth0"]));
}

#[test]
fn country_of_regulatory_report() {
    let report = "global\ncountry US: DFS-FCC\n\t(2400 - 2472 @ 40), (N/A, 30), (N/A)\n";
    let c = cli().get_country_low(report.as_bytes().to_vec()).unwrap();
    assert_eq!(c.alpha2(), "US");
}

#[test]
fn country_comes_from_first_line_that_mentions_it() {
    let report = "country GB: DFS-ETSI\ncountry DE: DFS-ETSI\n";
    let c = cli().get_country_low(report.as_bytes().to_vec()).unwrap();
    assert_eq!(c.alpha2(), "GB");
}

#[test]
fn country_report_without_country_line_fails() {
    let r = cli().get_country_low(b"global\n(2400 - 2483 @ 40)\n".to_vec());
    assert!(matches!(r, Err(WifiError::NoCountryLine)));
}

#[test]
fn country_line_that_does_not_match_fails() {
    let r = cli().get_country_low(b"countryside\ncountry DE: DFS-ETSI\n".to_vec());
    assert!(matches!(r, Err(WifiError::NoCountryMatch)));
}

#[test]
fn country_code_outside_iso_list_fails() {
    let r = cli().get_country_low(b"global\ncountry 00: DFS-UNSET\n".to_vec());
    assert!(matches!(r, Err(WifiError::InvalidCountryCode(ref t)) if t == "00"));
    let r = cli().get_country_low(b"country ZZZ: DFS-UNSET\n".to_vec());
    assert!(matches!(r, Err(WifiError::InvalidCountryCode(ref t)) if t == "ZZZ"));
}

#[test]
fn country_report_that_is_not_utf8_fails() {
    let r = cli().get_country_low(vec![0xff, 0xfe]);
    assert!(matches!(r, Err(WifiError::InvalidUtf8)));
}

#[test]
fn country_code_parse_accepts_known_codes() {
    assert_eq!(country_code_parse("US").unwrap().alpha2(), "US");
    assert_eq!(country_code_parse("FR").unwrap().alpha2(), "FR");
}

#[test]
fn country_code_parse_refuses_unknown_codes() {
    assert!(matches!(country_code_parse("ZZ"), Err(WifiError::InvalidCountryCode(ref t)) if t == "ZZ"));
    assert!(matches!(country_code_parse("us"), Err(WifiError::InvalidCountryCode(ref t)) if t == "us"));
    assert!(matches!(country_code_parse("USA"), Err(WifiError::InvalidCountryCode(_))));
    assert!(matches!(country_code_parse(""), Err(WifiError::InvalidCountryCode(_))));
}

#[test]
fn check_network_finds_stored_profile() {
    let c = cli();
    let m = c
        .list_networks_low(b"Home:id-1:802-11-wireless:wlan0\n".to_vec())
        .unwrap();
    assert_eq!(
        c.check_network(&m, &Ssid("Home".to_owned())),
        Some(NetworkId("id-1".to_owned()))
    );
    assert_eq!(c.check_network(&m, &Ssid("Away".to_owned())), None);
}
