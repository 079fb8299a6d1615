use std::path::PathBuf;

use wifi::commands::{add, available, connect, delete, set_country, wifi};
use wifi::model::{NetworkId, Psk, Ssid, WifiError};
use wifi::procedure::{
    Action, AddProcedure, ConnectProcedure, DeleteProcedure, RemoveNetwork, Reply, SelectNetwork,
    Step, POLL_INTERVAL_MS, SELECT_TIMEOUT_MS,
};
use wifi::wpa::{country_code_parse, WpaCli};

const PROFILES: &str = "Home:id-home:802-11-wireless:wlan0\nOffice:id-office:802-11-wireless:wlan0\n";

fn cli() -> WpaCli {
    WpaCli::init("wlan0".to_owned(), PathBuf::from("/data"))
}

fn out(text: &str) -> Reply {
    Reply::Output(Ok(text.as_bytes().to_vec()))
}

fn words(args: &[&str]) -> Vec<String> {
    args.iter().map(|a| a.to_string()).collect()
}

fn run<R: std::fmt::Debug>(step: &Step<R>) -> (String, Vec<String>) {
    match step {
        Step::Act(Action::Run(c)) => (c.program.clone(), c.args.clone()),
        other => panic!("expected a command, got {:?}", other),
    }
}

fn expect_run<R: std::fmt::Debug>(step: &Step<R>, program: &str, args: &[&str]) {
    assert_eq!(run(step), (program.to_owned(), words(args)));
}

fn is_current(step: &Step<Result<(), WifiError>>) {
    expect_run(step, "iwgetid", &["wlan0", "--raw"]);
}

fn is_listing<R: std::fmt::Debug>(step: &Step<R>) {
    expect_run(step, "nmcli", &["-t", "c", "show"]);
}

#[test]
fn group_commands_do_nothing() {
    assert_eq!(wifi(), Ok(()));
    assert_eq!(available(), Ok(()));
}

#[test]
fn add_refuses_non_ascii_ssid() {
    assert!(matches!(add("Café".to_owned(), "secret".to_owned(), 0, true), Err(WifiError::SsidNotAscii)));
    assert!(matches!(
        add("Café".to_owned(), "sécret".to_owned(), 0, true),
        Err(WifiError::SsidNotAscii)
    ));
}

#[test]
fn add_refuses_non_ascii_password() {
    assert!(matches!(
        add("Cafe".to_owned(), "sécret".to_owned(), 0, false),
        Err(WifiError::PasswordNotAscii)
    ));
}

#[test]
fn connect_and_delete_refuse_non_ascii_ssid() {
    assert!(matches!(connect("Ünï".to_owned()), Err(WifiError::SsidNotAscii)));
    assert!(matches!(delete("Ünï".to_owned()), Err(WifiError::SsidNotAscii)));
}

#[test]
fn set_country_runs_iw_reg_set() {
    let c = country_code_parse("CA").unwrap();
    let cmd = set_country(&cli(), &c);
    assert_eq!(cmd.program, "iw");
    assert_eq!(cmd.args, words(&["reg", "set", "CA"]));
}

#[test]
fn low_level_commands() {
    let c = cli();
    let cmd = c.set_network_low(&Ssid("Home".to_owned()), &Psk("pw 1".to_owned()));
    assert_eq!(cmd.program, "nmcli");
    assert_eq!(cmd.args, words(&["-a", "-w", "30", "d", "wifi", "con", "Home", "password", "pw 1"]));
    let cmd = c.add_network(&Ssid("Home".to_owned()), &Psk("pw".to_owned()), 7);
    assert_eq!(cmd.args, words(&["-a", "-w", "30", "d", "wifi", "con", "Home", "password", "pw"]));
    let cmd = c.set_country_low("FR");
    assert_eq!((cmd.program, cmd.args), ("iw".to_owned(), words(&["reg", "set", "FR"])));
    let cmd = c.get_country_command();
    assert_eq!((cmd.program, cmd.args), ("iw".to_owned(), words(&["reg", "get"])));
    let cmd = c.remove_network_low(NetworkId("id-9".to_owned()));
    assert_eq!((cmd.program, cmd.args), ("nmcli".to_owned(), words(&["c", "del", "id-9"])));
    let cmd = c.list_networks_command();
    assert_eq!((cmd.program, cmd.args), ("nmcli".to_owned(), words(&["-t", "c", "show"])));
    let cmd = c.list_wifi_command();
    assert_eq!(
        (cmd.program, cmd.args),
        ("nmcli".to_owned(), words(&["-g", "SSID,SIGNAL,security", "d", "wifi", "list"]))
    );
    let cmd = c.select_network_low(&NetworkId("id-1".to_owned()));
    assert_eq!((cmd.program, cmd.args), ("nmcli".to_owned(), words(&["c", "up", "id-1"])));
    let cmd = c.current_network_command();
    assert_eq!((cmd.program, cmd.args), ("iwgetid".to_owned(), words(&["wlan0", "--raw"])));
}

#[test]
fn select_network_joins_after_polling() {
    let c = cli();
    let s = c.select_network(&Ssid("Home".to_owned()));
    let (s, step) = s.step(&c, Reply::Begin);
    is_listing(&step);
    let (s, step) = s.step(&c, out(PROFILES));
    expect_run(&step, "nmcli", &["c", "up", "id-home"]);
    let (s, step) = s.step(&c, out(""));
    assert!(matches!(step, Step::Act(Action::StartTimer(SELECT_TIMEOUT_MS))));
    assert_eq!(SELECT_TIMEOUT_MS, 20000);
    let (s, step) = s.step(&c, Reply::TimerStarted);
    expect_run(&step, "iwgetid", &["wlan0", "--raw"]);
    let (s, step) = s.step(&c, out("\n"));
    assert!(matches!(step, Step::Act(Action::Sleep(POLL_INTERVAL_MS))));
    assert_eq!(POLL_INTERVAL_MS, 500);
    let (s, step) = s.step(&c, Reply::Slept);
    expect_run(&step, "iwgetid", &["wlan0", "--raw"]);
    let (s, step) = s.step(&c, Reply::Output(Err(WifiError::CommandFailed("no link".to_owned()))));
    assert!(matches!(step, Step::Act(Action::Sleep(500))));
    let (s, step) = s.step(&c, Reply::Slept);
    expect_run(&step, "iwgetid", &["wlan0", "--raw"]);
    let (s, step) = s.step(&c, out("Home\n"));
    assert!(matches!(step, Step::Act(Action::StopTimer)));
    let (s, step) = s.step(&c, Reply::TimerStopped);
    assert!(matches!(step, Step::Done(Ok(true))));
    assert!(matches!(s, SelectNetwork::Finished));
}

#[test]
fn select_network_on_other_network_is_false() {
    let c = cli();
    let s = c.select_network(&Ssid("Home".to_owned()));
    let (s, _) = s.step(&c, Reply::Begin);
    let (s, _) = s.step(&c, out(PROFILES));
    let (s, _) = s.step(&c, out(""));
    let (s, _) = s.step(&c, Reply::TimerStarted);
    let (s, step) = s.step(&c, out("Office\n"));
    assert!(matches!(step, Step::Act(Action::StopTimer)));
    let (_, step) = s.step(&c, Reply::TimerStopped);
    assert!(matches!(step, Step::Done(Ok(false))));
}

#[test]
fn select_network_times_out() {
    let c = cli();
    let s = c.select_network(&Ssid("Home".to_owned()));
    let (s, _) = s.step(&c, Reply::Begin);
    let (s, _) = s.step(&c, out(PROFILES));
    let (s, _) = s.step(&c, out(""));
    let (s, _) = s.step(&c, Reply::TimerStarted);
    let (s, step) = s.step(&c, out(""));
    assert!(matches!(step, Step::Act(Action::Sleep(500))));
    assert!(s.accepts(&Reply::TimedOut));
    assert!(!s.accepts(&Reply::Output(Ok(Vec::new()))));
    let (s, step) = s.step(&c, Reply::TimedOut);
    assert!(matches!(step, Step::Act(Action::StopTimer)));
    assert!(s.accepts(&Reply::TimerStopped));
    let (s, step) = s.step(&c, Reply::TimerStopped);
    assert!(matches!(step, Step::Done(Ok(false))));
    assert!(matches!(s, SelectNetwork::Finished));
}

#[test]
fn select_network_times_out_while_looking() {
    let c = cli();
    let s = c.select_network(&Ssid("Home".to_owned()));
    let (s, _) = s.step(&c, Reply::Begin);
    let (s, _) = s.step(&c, out(PROFILES));
    let (s, _) = s.step(&c, out(""));
    let (s, step) = s.step(&c, Reply::TimerStarted);
    expect_run(&step, "iwgetid", &["wlan0", "--raw"]);
    let (s, step) = s.step(&c, Reply::TimedOut);
    assert!(matches!(step, Step::Act(Action::StopTimer)));
    let (_, step) = s.step(&c, Reply::TimerStopped);
    assert!(matches!(step, Step::Done(Ok(false))));
}

#[test]
fn connect_time_out_reverts_to_previous_network() {
    let c = cli();
    let p = connect("Home".to_owned()).unwrap();
    let (p, _) = p.step(&c, Reply::Begin);
    let (p, _) = p.step(&c, out("Office\n"));
    let (p, _) = p.step(&c, out(PROFILES));
    let (p, _) = p.step(&c, out(""));
    let (p, _) = p.step(&c, Reply::TimerStarted);
    let (p, step) = p.step(&c, out(""));
    assert!(matches!(step, Step::Act(Action::Sleep(500))));
    let (p, step) = p.step(&c, Reply::TimedOut);
    assert!(matches!(step, Step::Act(Action::StopTimer)));
    let (p, step) = p.step(&c, Reply::TimerStopped);
    is_listing(&step);
    assert!(matches!(p, ConnectProcedure::Reverting { .. }));
    assert!(p.accepts(&out(PROFILES)));
    assert!(!p.accepts(&Reply::TimedOut));
    let (p, step) = drive_select(p, &c, "id-office", "Office\n");
    assert!(matches!(step, Step::Done(Ok(()))));
    assert!(matches!(p, ConnectProcedure::Finished));
}

#[test]
fn procedures_accept_only_the_replies_they_wait_for() {
    let c = cli();
    let p = connect("Home".to_owned()).unwrap();
    assert!(p.accepts(&Reply::Begin));
    assert!(!p.accepts(&Reply::Slept));
    let p = add("Cafe".to_owned(), "latte".to_owned(), 0, true).unwrap();
    assert!(p.accepts(&Reply::Begin));
    let (p, _) = p.step(&c, Reply::Begin);
    assert!(p.accepts(&out("")));
    assert!(!p.accepts(&Reply::TimerStarted));
    let d = delete("Home".to_owned()).unwrap();
    assert!(d.accepts(&Reply::Begin));
    assert!(!d.accepts(&Reply::TimedOut));
    let r = c.remove_network(&Ssid("Home".to_owned()));
    assert!(r.accepts(&Reply::Begin));
    assert!(!r.accepts(&out("")));
}

#[test]
fn select_unknown_network_fails() {
    let c = cli();
    let s = c.select_network(&Ssid("Nowhere".to_owned()));
    let (s, _) = s.step(&c, Reply::Begin);
    let (_, step) = s.step(&c, out(PROFILES));
    assert!(matches!(step, Step::Done(Err(WifiError::SsidNotFound))));
}

#[test]
fn select_passes_on_command_failure() {
    let c = cli();
    let s = c.select_network(&Ssid("Home".to_owned()));
    let (s, _) = s.step(&c, Reply::Begin);
    let (s, _) = s.step(&c, out(PROFILES));
    let (_, step) = s.step(&c, Reply::Output(Err(WifiError::CommandFailed("up".to_owned()))));
    assert!(matches!(step, Step::Done(Err(WifiError::CommandFailed(ref t))) if t == "up"));
}

#[test]
fn remove_network_deletes_stored_profile() {
    let c = cli();
    let r = c.remove_network(&Ssid("Office".to_owned()));
    let (r, step) = r.step(&c, Reply::Begin);
    is_listing(&step);
    let (r, step) = r.step(&c, out(PROFILES));
    expect_run(&step, "nmcli", &["c", "del", "id-office"]);
    let (r, step) = r.step(&c, out(""));
    assert!(matches!(step, Step::Done(Ok(true))));
    assert!(matches!(r, RemoveNetwork::Finished));
}

#[test]
fn remove_network_without_profile_is_false() {
    let c = cli();
    let r = c.remove_network(&Ssid("Cafe".to_owned()));
    let (r, _) = r.step(&c, Reply::Begin);
    let (_, step) = r.step(&c, out(PROFILES));
    assert!(matches!(step, Step::Done(Ok(false))));
}

/// Replies to a selection of a stored network that ends with the interface on `lands_on`.
fn drive_select(
    p: ConnectProcedure,
    c: &WpaCli,
    id: &str,
    lands_on: &str,
) -> (ConnectProcedure, Step<Result<(), WifiError>>) {
    let (q, step) = p.step(c, out(PROFILES));
    expect_run(&step, "nmcli", &["c", "up", id]);
    let (q, step) = q.step(c, out(""));
    assert!(matches!(step, Step::Act(Action::StartTimer(20000))));
    let (q, step) = q.step(c, Reply::TimerStarted);
    expect_run(&step, "iwgetid", &["wlan0", "--raw"]);
    let (q, step) = q.step(c, out(lands_on));
    assert!(matches!(step, Step::Act(Action::StopTimer)));
    q.step(c, Reply::TimerStopped)
}

#[test]
fn connect_success_stays_on_new_network() {
    let c = cli();
    let p = connect("Home".to_owned()).unwrap();
    let (p, step) = p.step(&c, Reply::Begin);
    is_current(&step);
    let (p, step) = p.step(&c, out("Office\n"));
    is_listing(&step);
    let (p, step) = drive_select(p, &c, "id-home", "Home\n");
    assert!(matches!(step, Step::Done(Ok(()))));
    assert!(matches!(p, ConnectProcedure::Finished));
}

#[test]
fn connect_failure_reverts_to_previous_network() {
    let c = cli();
    let p = connect("Home".to_owned()).unwrap();
    let (p, _) = p.step(&c, Reply::Begin);
    let (p, _) = p.step(&c, out("Office\n"));
    let (p, step) = drive_select(p, &c, "id-home", "Elsewhere\n");
    is_listing(&step);
    assert!(matches!(p, ConnectProcedure::Reverting { .. }));
    let (p, step) = drive_select(p, &c, "id-office", "Office\n");
    assert!(matches!(step, Step::Done(Ok(()))));
    assert!(matches!(p, ConnectProcedure::Finished));
}

#[test]
fn connect_failure_without_previous_network_ends() {
    let c = cli();
    let p = connect("Home".to_owned()).unwrap();
    let (p, _) = p.step(&c, Reply::Begin);
    let (p, _) = p.step(&c, out(""));
    let (p, step) = drive_select(p, &c, "id-home", "Elsewhere\n");
    assert!(matches!(step, Step::Done(Ok(()))));
    assert!(matches!(p, ConnectProcedure::Finished));
}

#[test]
fn add_without_connect_only_joins() {
    let c = cli();
    let p = add("Cafe".to_owned(), "latte".to_owned(), 3, false).unwrap();
    let (p, step) = p.step(&c, Reply::Begin);
    expect_run(&step, "nmcli", &["-a", "-w", "30", "d", "wifi", "con", "Cafe", "password", "latte"]);
    let (p, step) = p.step(&c, out(""));
    assert!(matches!(step, Step::Done(Ok(()))));
    assert!(matches!(p, AddProcedure::Finished));
}

#[test]
fn add_join_failure_is_reported() {
    let c = cli();
    let p = add("Cafe".to_owned(), "latte".to_owned(), 3, true).unwrap();
    let (p, _) = p.step(&c, Reply::Begin);
    let (_, step) = p.step(&c, Reply::Output(Err(WifiError::CommandFailed("nmcli".to_owned()))));
    assert!(matches!(step, Step::Done(Err(WifiError::CommandFailed(_)))));
}

const PROFILES_WITH_CAFE: &str =
    "Home:id-home:802-11-wireless:wlan0\nCafe:id-cafe:802-11-wireless:wlan0\n";

#[test]
fn add_that_cannot_connect_removes_profile_and_reverts() {
    let c = cli();
    let p = add("Cafe".to_owned(), "latte".to_owned(), 3, true).unwrap();
    let (p, _) = p.step(&c, Reply::Begin);
    let (p, step) = p.step(&c, out(""));
    expect_run(&step, "iwgetid", &["wlan0", "--raw"]);
    let (p, step) = p.step(&c, out("Home\n"));
    is_listing(&step);
    let (p, step) = p.step(&c, out(PROFILES_WITH_CAFE));
    expect_run(&step, "nmcli", &["c", "up", "id-cafe"]);
    let (p, _) = p.step(&c, out(""));
    let (p, _) = p.step(&c, Reply::TimerStarted);
    let (p, step) = p.step(&c, out(""));
    assert!(matches!(step, Step::Act(Action::Sleep(500))));
    let (p, step) = p.step(&c, Reply::TimedOut);
    assert!(matches!(step, Step::Act(Action::StopTimer)));
    let (p, step) = p.step(&c, Reply::TimerStopped);
    is_listing(&step);
    assert!(matches!(p, AddProcedure::Removing { .. }));
    let (p, step) = p.step(&c, out(PROFILES_WITH_CAFE));
    expect_run(&step, "nmcli", &["c", "del", "id-cafe"]);
    let (p, step) = p.step(&c, out(""));
    is_listing(&step);
    assert!(matches!(p, AddProcedure::Reverting { .. }));
    let (p, step) = p.step(&c, out(PROFILES));
    expect_run(&step, "nmcli", &["c", "up", "id-home"]);
    let (p, _) = p.step(&c, out(""));
    let (p, _) = p.step(&c, Reply::TimerStarted);
    let (p, _) = p.step(&c, out("Home\n"));
    let (p, step) = p.step(&c, Reply::TimerStopped);
    assert!(matches!(step, Step::Done(Ok(()))));
    assert!(matches!(p, AddProcedure::Finished));
}

#[test]
fn add_that_connects_keeps_profile() {
    let c = cli();
    let p = add("Cafe".to_owned(), "latte".to_owned(), 3, true).unwrap();
    let (p, _) = p.step(&c, Reply::Begin);
    let (p, _) = p.step(&c, out(""));
    let (p, _) = p.step(&c, out(""));
    let (p, _) = p.step(&c, out(PROFILES_WITH_CAFE));
    let (p, _) = p.step(&c, out(""));
    let (p, _) = p.step(&c, Reply::TimerStarted);
    let (p, _) = p.step(&c, out("Cafe\n"));
    let (p, step) = p.step(&c, Reply::TimerStopped);
    assert!(matches!(step, Step::Done(Ok(()))));
    assert!(matches!(p, AddProcedure::Finished));
}

#[test]
fn delete_without_connection_removes_profile() {
    let c = cli();
    let p = delete("Office".to_owned()).unwrap();
    let (p, step) = p.step(&c, Reply::Begin);
    expect_run(&step, "iwgetid", &["wlan0", "--raw"]);
    let (p, step) = p.step(&c, out(""));
    is_listing(&step);
    let (p, step) = p.step(&c, out(PROFILES));
    expect_run(&step, "nmcli", &["c", "del", "id-office"]);
    let (p, step) = p.step(&c, out(""));
    assert!(matches!(step, Step::Done(Ok(()))));
    assert!(matches!(p, DeleteProcedure::Finished));
}

#[test]
fn delete_of_other_network_than_current_does_nothing() {
    let c = cli();
    let p = delete("Office".to_owned()).unwrap();
    let (p, _) = p.step(&c, Reply::Begin);
    let (p, step) = p.step(&c, out("Home\n"));
    assert!(matches!(step, Step::Done(Ok(()))));
    assert!(matches!(p, DeleteProcedure::Finished));
}

#[test]
fn delete_of_current_network_without_ethernet_is_refused() {
    let c = cli();
    let p = delete("Home".to_owned()).unwrap();
    let (p, _) = p.step(&c, Reply::Begin);
    let (p, step) = p.step(&c, out("Home\n"));
    expect_run(&step, "ifconfig", &["eth0"]);
    let (_, step) = p.step(&c, out("eth0: flags=4099<UP,BROADCAST,MULTICAST>\n"));
    assert!(matches!(step, Step::Done(Err(WifiError::DeleteWouldDisconnect))));
}

#[test]
fn delete_of_current_network_with_ethernet_removes_profile() {
    let c = cli();
    let p = delete("Home".to_owned()).unwrap();
    let (p, _) = p.step(&c, Reply::Begin);
    let (p, _) = p.step(&c, out("Home\n"));
    let (p, step) = p.step(&c, out("eth0: flags=4163<UP>\n        inet 10.0.0.2\n"));
    is_listing(&step);
    let (p, step) = p.step(&c, out(PROFILES));
    expect_run(&step, "nmcli", &["c", "del", "id-home"]);
    let (_, step) = p.step(&c, out(""));
    assert!(matches!(step, Step::Done(Ok(()))));
}
