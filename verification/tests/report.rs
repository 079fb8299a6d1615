use wifi::display::{strength_color, wifi_info_table, wifi_list_rows, StrengthColor};
use wifi::model::{NetworkId, SignalStrength, Ssid, WifiError, WifiListInfo, WifiListOut};
use wifi::report::{available_networks, get, get_available, known_strengths};
use wifi::table::SsidMap;
use wifi::wpa::country_code_parse;

fn ssid(s: &str) -> Ssid {
    Ssid(s.to_owned())
}

fn info(strength: u8, security: &[&str]) -> WifiListInfo {
    WifiListInfo {
        strength: SignalStrength(strength),
        security: security.iter().map(|s| s.to_string()).collect(),
    }
}

fn scan() -> SsidMap<WifiListInfo> {
    let mut m = SsidMap::new();
    m.insert(ssid("Home"), info(80, &["WPA2"]));
    m.insert(ssid("Cafe"), info(40, &["WPA2"]));
    m.insert(ssid("Library"), info(95, &["WPA2", "WPA3"]));
    m.insert(ssid("Bus"), info(10, &[""]));
    m.insert(ssid("Hotel"), info(40, &["WPA1"]));
    m
}

fn known() -> SsidMap<NetworkId> {
    let mut m = SsidMap::new();
    m.insert(ssid("Home"), NetworkId("id-home".to_owned()));
    m.insert(ssid("Office"), NetworkId("id-office".to_owned()));
    m
}

fn names(list: &[WifiListOut]) -> Vec<String> {
    list.iter().map(|o| o.ssid.0.clone()).collect()
}

#[test]
fn ssid_map_insert_replaces_value_of_same_ssid() {
    let mut m: SsidMap<u8> = SsidMap::new();
    m.insert(ssid("a"), 1);
    m.insert(ssid("b"), 2);
    m.insert(ssid("a"), 3);
    assert_eq!(m.len(), 2);
    assert_eq!(m.get(&ssid("a")), Some(&3));
    assert_eq!(m.get(&ssid("b")), Some(&2));
    assert!(m.contains_key(&ssid("b")));
    assert!(!m.contains_key(&ssid("c")));
    assert_eq!(m.find(&ssid("a")), Some(0));
    assert_eq!(m.find(&ssid("c")), None);
    let entries = m.into_entries();
    assert_eq!(entries, vec![(ssid("a"), 3), (ssid("b"), 2)]);
}

#[test]
fn available_networks_leave_out_stored_ones() {
    let list = available_networks(scan(), &known());
    assert_eq!(list.len(), 4);
    assert!(!names(&list).contains(&"Home".to_owned()));
}

#[test]
fn available_networks_come_strongest_first() {
    let list = available_networks(scan(), &known());
    let strengths: Vec<u8> = list.iter().map(|o| o.strength.0).collect();
    assert_eq!(strengths, vec![95, 40, 40, 10]);
    assert_eq!(list[0].ssid, ssid("Library"));
    assert_eq!(list[0].security, vec!["WPA2".to_owned(), "WPA3".to_owned()]);
    assert_eq!(list[3].ssid, ssid("Bus"));
    let mut middle = vec![list[1].ssid.0.clone(), list[2].ssid.0.clone()];
    middle.sort();
    assert_eq!(middle, vec!["Cafe".to_owned(), "Hotel".to_owned()]);
}

#[test]
fn available_networks_of_empty_scan_are_none() {
    let list = available_networks(SsidMap::new(), &known());
    assert!(list.is_empty());
}

#[test]
fn get_available_reports_stored_profile_failure_first() {
    let r = get_available(
        Err(WifiError::CommandFailed("scan".to_owned())),
        Err(WifiError::InvalidUtf8),
    );
    assert!(matches!(r, Err(WifiError::InvalidUtf8)));
    let r = get_available(Err(WifiError::CommandFailed("scan".to_owned())), Ok(known()));
    assert!(matches!(r, Err(WifiError::CommandFailed(ref t)) if t == "scan"));
    let r = get_available(Ok(scan()), Ok(known())).unwrap();
    assert_eq!(names(&r)[0], "Library");
    assert_eq!(r.len(), 4);
}

#[test]
fn known_strengths_default_to_no_signal() {
    let m = known_strengths(&known(), &scan());
    assert_eq!(m.len(), 2);
    assert_eq!(m.get(&ssid("Home")), Some(&SignalStrength(80)));
    assert_eq!(m.get(&ssid("Office")), Some(&SignalStrength(0)));
    assert_eq!(m.get(&ssid("Cafe")), None);
}

#[test]
fn get_puts_the_report_together() {
    let country = country_code_parse("US");
    let r = get(Ok(known()), Ok(Some(ssid("Home"))), country, Ok(true), Ok(scan())).unwrap();
    assert_eq!(r.connected, Some(ssid("Home")));
    assert_eq!(r.country.alpha2(), "US");
    assert!(r.ethernet);
    assert_eq!(r.ssids.get(&ssid("Home")), Some(&SignalStrength(80)));
    assert_eq!(r.ssids.get(&ssid("Office")), Some(&SignalStrength(0)));
    assert_eq!(r.available_wifi.len(), 4);
    assert_eq!(r.available_wifi[0].ssid, ssid("Library"));
}

#[test]
fn get_reports_failures_in_order() {
    let e = |t: &str| WifiError::CommandFailed(t.to_owned());
    let r = get(Err(e("list")), Err(e("cur")), Err(e("country")), Err(e("eth")), Err(e("scan")));
    assert!(matches!(r, Err(WifiError::CommandFailed(ref t)) if t == "scan"));
    let r = get(Err(e("list")), Err(e("cur")), Err(e("country")), Err(e("eth")), Ok(scan()));
    assert!(matches!(r, Err(WifiError::CommandFailed(ref t)) if t == "list"));
    let r = get(Ok(known()), Err(e("cur")), Err(e("country")), Err(e("eth")), Ok(scan()));
    assert!(matches!(r, Err(WifiError::CommandFailed(ref t)) if t == "cur"));
    let r = get(Ok(known()), Ok(None), Err(e("country")), Err(e("eth")), Ok(scan()));
    assert!(matches!(r, Err(WifiError::CommandFailed(ref t)) if t == "country"));
    let r = get(Ok(known()), Ok(None), country_code_parse("DE"), Err(e("eth")), Ok(scan()));
    assert!(matches!(r, Err(WifiError::CommandFailed(ref t)) if t == "eth"));
}

#[test]
fn strength_colors() {
    assert_eq!(strength_color(SignalStrength(100)), StrengthColor::Green);
    assert_eq!(strength_color(SignalStrength(90)), StrengthColor::Green);
    assert_eq!(strength_color(SignalStrength(89)), StrengthColor::Yellow);
    assert_eq!(strength_color(SignalStrength(50)), StrengthColor::Magenta);
    assert_eq!(strength_color(SignalStrength(51)), StrengthColor::Yellow);
    assert_eq!(strength_color(SignalStrength(1)), StrengthColor::Yellow);
    assert_eq!(strength_color(SignalStrength(0)), StrengthColor::Red);
}

#[test]
fn list_rows_join_security_with_spaces() {
    let list = vec![
        WifiListOut {
            ssid: ssid("Library"),
            strength: SignalStrength(95),
            security: vec!["WPA2".to_owned(), "WPA3".to_owned()],
        },
        WifiListOut { ssid: ssid("Bus"), strength: SignalStrength(0), security: vec![] },
    ];
    let rows = wifi_list_rows(&list);
    assert_eq!(rows.len(), 2);
    assert_eq!(rows[0], vec!["Library".to_owned(), "95".to_owned(), "WPA2 WPA3".to_owned()]);
    assert_eq!(rows[1], vec!["Bus".to_owned(), "0".to_owned(), "".to_owned()]);
}

#[test]
fn info_table_of_connected_report() {
    let r = get(Ok(known()), Ok(Some(ssid("Home"))), country_code_parse("US"), Ok(false), Ok(scan()))
        .unwrap();
    let t = wifi_info_table(&r);
    assert_eq!(t.summary, vec!["Home".to_owned(), "80".to_owned(), "US".to_owned(), "false".to_owned()]);
    assert_eq!(t.networks.len(), 2);
    assert_eq!(t.networks[0].ssid, "Home");
    assert_eq!(t.networks[0].strength, "80");
    assert_eq!(t.networks[0].color, StrengthColor::Yellow);
    assert_eq!(t.networks[1].ssid, "Office");
    assert_eq!(t.networks[1].strength, "0");
    assert_eq!(t.networks[1].color, StrengthColor::Red);
    assert_eq!(t.available.len(), 4);
    assert_eq!(t.available[0], vec!["Library".to_owned(), "95".to_owned(), "WPA2 WPA3".to_owned()]);
}

#[test]
fn info_table_shows_not_available_without_connection() {
    let r = get(Ok(known()), Ok(None), country_code_parse("DE"), Ok(true), Ok(scan())).unwrap();
    let t = wifi_info_table(&r);
    assert_eq!(t.summary, vec!["[N/A]".to_owned(), "[N/A]".to_owned(), "DE".to_owned(), "true".to_owned()]);
}

#[test]
fn info_table_shows_not_available_for_unstored_connection() {
    let r = get(Ok(known()), Ok(Some(ssid("Cafe"))), country_code_parse("DE"), Ok(true), Ok(scan()))
        .unwrap();
    let t = wifi_info_table(&r);
    assert_eq!(t.summary, vec!["Cafe".to_owned(), "[N/A]".to_owned(), "DE".to_owned(), "true".to_owned()]);
}
