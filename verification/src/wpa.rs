use vstd::prelude::*;
use vstd::utf8::{decode_utf8, valid_utf8};

use crate::model::{
    clamp_strength, texts, CommandLine, NetworkId, Psk, SignalStrength, Ssid, WifiError,
    WifiListInfo,
};
use crate::outside::{first_group, is_iso_alpha2, iso_alpha2_known, regex_first_group, text_from_utf8};
use crate::table::SsidMap;
use crate::text::{
    chars_of, contains_chars, fields, has_infix, lines, parse_byte, parse_u8, split_on,
    text_lines, trim, trim_text,
};

verus! {

/// `nmcli -a -w 30 d wifi con <ssid> password <psk>`: joins a network with a password.
pub open spec fn join_command(ssid: Seq<char>, psk: Seq<char>) -> (Seq<char>, Seq<Seq<char>>) {
    ("nmcli"@, seq!["-a"@, "-w"@, "30"@, "d"@, "wifi"@, "con"@, ssid, "password"@, psk])
}

/// `iw reg get`: the regulatory report.
pub open spec fn country_query_command() -> (Seq<char>, Seq<Seq<char>>) {
    ("iw"@, seq!["reg"@, "get"@])
}

/// `nmcli c del <id>`: deletes a stored profile.
pub open spec fn delete_command(id: Seq<char>) -> (Seq<char>, Seq<Seq<char>>) {
    ("nmcli"@, seq!["c"@, "del"@, id])
}

/// `nmcli -t c show`: the stored profiles.
pub open spec fn profiles_command() -> (Seq<char>, Seq<Seq<char>>) {
    ("nmcli"@, seq!["-t"@, "c"@, "show"@])
}

/// `nmcli c up <id>`: brings a stored profile up.
pub open spec fn up_command(id: Seq<char>) -> (Seq<char>, Seq<Seq<char>>) {
    ("nmcli"@, seq!["c"@, "up"@, id])
}

/// `iwgetid <interface> --raw`: the network the interface is on.
pub open spec fn current_command(interface: Seq<char>) -> (Seq<char>, Seq<Seq<char>>) {
    ("iwgetid"@, seq![interface, "--raw"@])
}

/// `ifconfig <interface>`: the interface report.
pub open spec fn address_command(interface: Seq<char>) -> (Seq<char>, Seq<Seq<char>>) {
    ("ifconfig"@, seq![interface])
}

/// The text that a command printed, when its bytes are UTF-8.
pub open spec fn text_of(bytes: Seq<u8>) -> Option<Seq<char>> {
    if valid_utf8(bytes) {
        Some(decode_utf8(bytes))
    } else {
        None
    }
}

/// The connection profile that a line of `nmcli -t c show` describes (name and UUID),
/// when the line has at least four fields.
pub open spec fn profile_of_line(l: Seq<char>) -> Option<(Seq<char>, Seq<char>)> {
    let f = split_on(l, ':');
    if f.len() >= 4 {
        Some((f[0], f[1]))
    } else {
        None
    }
}

/// The profiles that the lines describe, by name; a later line for a name wins.
pub open spec fn profiles(ls: Seq<Seq<char>>) -> Map<Seq<char>, Seq<char>>
    decreases ls.len(),
{
    if ls.len() == 0 {
        Map::empty()
    } else {
        let m = profiles(ls.drop_last());
        match profile_of_line(ls.last()) {
            Some(p) => m.insert(p.0, p.1),
            None => m,
        }
    }
}

/// What a network scan line of `nmcli -g SSID,SIGNAL,security d wifi list` reports:
/// the SSID, the signal strength and the security protocols, when it has at least three
/// fields.
pub open spec fn scan_of_line(l: Seq<char>) -> Option<(Seq<char>, (u8, Seq<Seq<char>>))> {
    let f = split_on(l, ':');
    if f.len() >= 3 {
        Some((f[0], (clamp_strength(parse_u8(f[1])), split_on(f[2], ' '))))
    } else {
        None
    }
}

/// The networks that the scan lines report, by SSID; a later line for an SSID wins.
pub open spec fn scans(ls: Seq<Seq<char>>) -> Map<Seq<char>, (u8, Seq<Seq<char>>)>
    decreases ls.len(),
{
    if ls.len() == 0 {
        Map::empty()
    } else {
        let m = scans(ls.drop_last());
        match scan_of_line(ls.last()) {
            Some(p) => m.insert(p.0, p.1),
            None => m,
        }
    }
}

/// The text of each stored profile's UUID.
pub open spec fn ids_view(m: Map<Seq<char>, NetworkId>) -> Map<Seq<char>, Seq<char>> {
    m.map_values(|v: NetworkId| v@)
}

/// A scan report as plain values: strength and the texts of the security protocols.
pub open spec fn info_view(i: WifiListInfo) -> (u8, Seq<Seq<char>>) {
    (i.strength.0, texts(i.security@))
}

/// The plain values of a scan table.
pub open spec fn infos_view(m: Map<Seq<char>, WifiListInfo>) -> Map<
    Seq<char>,
    (u8, Seq<Seq<char>>),
> {
    m.map_values(|v: WifiListInfo| info_view(v))
}

/// Some line mentions `word`.
pub open spec fn some_line_has(ls: Seq<Seq<char>>, word: Seq<char>) -> bool {
    exists|i: int| 0 <= i < ls.len() && has_infix(#[trigger] ls[i], word)
}

/// The first line that mentions `country`.
pub open spec fn first_country_line(ls: Seq<Seq<char>>) -> Option<Seq<char>>
    decreases ls.len(),
{
    if ls.len() == 0 {
        None
    } else if has_infix(ls[0], "country"@) {
        Some(ls[0])
    } else {
        first_country_line(ls.drop_first())
    }
}

/// The pattern that finds the country code on a regulatory report line.
pub open spec fn country_pattern() -> Seq<char> {
    "country (\\w+):"@
}

/// A country of ISO 3166-1, known by its two-letter code.
#[derive(Debug)]
pub struct Country {
    code: String,
}

impl View for Country {
    type V = Seq<char>;

    closed spec fn view(&self) -> Seq<char> {
        self.code@
    }
}

impl Country {
    #[verifier::type_invariant]
    spec fn inv(self) -> bool {
        iso_alpha2_known(self.code@)
    }

    /// The two-letter code.
    pub fn alpha2(&self) -> (res: &str)
        ensures
            res@ == self@,
            iso_alpha2_known(self@),
    {
        proof {
            use_type_invariant(self);
        }
        self.code.as_str()
    }
}

/// Reads an ISO 3166-1 alpha-2 country code, as written.
pub fn country_code_parse(code: &str) -> (res: Result<Country, WifiError>)
    ensures
        iso_alpha2_known(code@) <==> res is Ok,
        res matches Ok(c) ==> c@ == code@,
        res matches Err(e) ==> e matches WifiError::InvalidCountryCode(t) && t@ == code@,
{
    if is_iso_alpha2(code) {
        Ok(Country { code: code.to_owned() })
    } else {
        Err(WifiError::InvalidCountryCode(code.to_owned()))
    }
}

/// What a regulatory report says of the country.
pub enum CountryReading {
    /// The report is not UTF-8 text.
    Unreadable,
    /// No line mentions `country`.
    NoLine,
    /// The first line that mentions `country` does not match the pattern.
    NoMatch,
    /// The captured code is not a known ISO 3166-1 alpha-2 code.
    Unknown(Seq<char>),
    /// The captured code is a known one.
    Known(Seq<char>),
}

/// What `get_country_low` reads from the regulatory report: the code captured on the
/// first line that mentions a country.
pub open spec fn country_report(bytes: Seq<u8>) -> CountryReading {
    match text_of(bytes) {
        None => CountryReading::Unreadable,
        Some(t) => match first_country_line(lines(t)) {
            None => CountryReading::NoLine,
            Some(l) => match regex_first_group(country_pattern(), l) {
                None => CountryReading::NoMatch,
                Some(c) => if iso_alpha2_known(c) {
                    CountryReading::Known(c)
                } else {
                    CountryReading::Unknown(c)
                },
            },
        },
    }
}

/// The network that `iwgetid --raw` names: its output without surrounding white space,
/// none when that is empty.
pub open spec fn current_report(bytes: Seq<u8>) -> Result<Option<Seq<char>>, WifiError> {
    match text_of(bytes) {
        None => Err(WifiError::InvalidUtf8),
        Some(t) => if trim(t).len() == 0 {
            Ok(None)
        } else {
            Ok(Some(trim(t)))
        },
    }
}

/// Whether the `ifconfig` report of an interface shows an address: some line mentions
/// `inet`.
pub open spec fn address_report(bytes: Seq<u8>) -> Result<bool, WifiError> {
    match text_of(bytes) {
        None => Err(WifiError::InvalidUtf8),
        Some(t) => Ok(some_line_has(lines(t), "inet"@)),
    }
}

/// The characters of a command's output, when it is UTF-8 text.
pub fn output_text(output: Vec<u8>) -> (res: Result<Vec<char>, WifiError>)
    ensures
        match text_of(output@) {
            Some(t) => res matches Ok(cs) && cs@ == t,
            None => res == Err::<Vec<char>, WifiError>(WifiError::InvalidUtf8),
        },
{
    match text_from_utf8(output) {
        Some(s) => Ok(chars_of(s.as_str())),
        None => Err(WifiError::InvalidUtf8),
    }
}

/// A command line from literal words and values.
fn command(program: &str, args: Vec<String>) -> (res: CommandLine)
    ensures
        res@ == (program@, texts(args@)),
{
    CommandLine { program: program.to_owned(), args }
}

/// Appends a word.
fn word(args: &mut Vec<String>, w: &str)
    ensures
        texts(final(args)@) == texts(old(args)@).push(w@),
{
    args.push(w.to_owned());
    proof {
        assert(texts(args@) =~= texts(old(args)@).push(w@));
    }
}

/// Appends a value.
fn value(args: &mut Vec<String>, v: String)
    ensures
        texts(final(args)@) == texts(old(args)@).push(v@),
{
    let ghost vv = v@;
    args.push(v);
    proof {
        assert(texts(args@) =~= texts(old(args)@).push(vv));
    }
}

/// The tool that manages the wireless interface through the network manager.
#[derive(Debug)]
pub struct WpaCli {
    pub datadir: std::path::PathBuf,
    pub interface: String,
}

impl WpaCli {
    pub fn init(interface: String, datadir: std::path::PathBuf) -> (res: Self)
        ensures
            res.interface == interface,
            res.datadir == datadir,
    {
        WpaCli { interface, datadir }
    }

    /// Joins the network `ssid` with the password `psk`, waiting up to 30 seconds.
    pub fn set_network_low(&self, ssid: &Ssid, psk: &Psk) -> (res: CommandLine)
        ensures
            res@ == join_command(ssid@, psk@),
    {
        let mut args: Vec<String> = Vec::new();
        word(&mut args, "-a");
        word(&mut args, "-w");
        word(&mut args, "30");
        word(&mut args, "d");
        word(&mut args, "wifi");
        word(&mut args, "con");
        value(&mut args, ssid.0.clone());
        word(&mut args, "password");
        value(&mut args, psk.0.clone());
        proof {
            assert(texts(args@) =~= seq![
                "-a"@,
                "-w"@,
                "30"@,
                "d"@,
                "wifi"@,
                "con"@,
                ssid@,
                "password"@,
                psk@,
            ]);
        }
        command("nmcli", args)
    }

    /// Sets the regulatory country.
    pub fn set_country_low(&self, country_code: &str) -> (res: CommandLine)
        ensures
            res@ == ("iw"@, seq!["reg"@, "set"@, country_code@]),
    {
        let mut args: Vec<String> = Vec::new();
        word(&mut args, "reg");
        word(&mut args, "set");
        word(&mut args, country_code);
        proof {
            assert(texts(args@) =~= seq!["reg"@, "set"@, country_code@]);
        }
        command("iw", args)
    }

    /// Asks for the regulatory report.
    pub fn get_country_command(&self) -> (res: CommandLine)
        ensures
            res@ == country_query_command(),
    {
        let mut args: Vec<String> = Vec::new();
        word(&mut args, "reg");
        word(&mut args, "get");
        proof {
            assert(texts(args@) =~= seq!["reg"@, "get"@]);
        }
        command("iw", args)
    }

    /// The country of the regulatory report: the code that the pattern `country (\w+):`
    /// captures on the first line that mentions `country`.
    #[verifier::loop_isolation(false)]
    pub fn get_country_low(&self, output: Vec<u8>) -> (res: Result<Country, WifiError>)
        ensures
            match country_report(output@) {
                CountryReading::Unreadable => res == Err::<Country, WifiError>(
                    WifiError::InvalidUtf8,
                ),
                CountryReading::NoLine => res == Err::<Country, WifiError>(
                    WifiError::NoCountryLine,
                ),
                CountryReading::NoMatch => res == Err::<Country, WifiError>(
                    WifiError::NoCountryMatch,
                ),
                CountryReading::Unknown(c) => res matches Err(WifiError::InvalidCountryCode(t))
                    && t@ == c,
                CountryReading::Known(c) => res matches Ok(r) && r@ == c,
            },
    {
        let ghost out = output@;
        let cs = output_text(output)?;
        let ls = text_lines(&cs);
        let pat = chars_of("country");
        let mut i: usize = 0;
        let ghost tl = texts(ls@);
        proof {
            assert(tl.skip(0) =~= tl);
        }
        while i < ls.len()
            invariant
                i <= ls@.len(),
                text_of(out) == Some(cs@),
                tl == lines(cs@),
                tl == texts(ls@),
                pat@ == "country"@,
                first_country_line(tl) == first_country_line(tl.skip(i as int)),
            decreases ls@.len() - i,
        {
            let lc = chars_of(ls[i].as_str());
            if contains_chars(&lc, &pat) {
                proof {
                    assert(tl.skip(i as int)[0] == ls@[i as int]@);
                    assert(first_country_line(tl) == Some(ls@[i as int]@));
                }
                let found = first_group("country (\\w+):", ls[i].as_str());
                proof {
                    assert(country_pattern() == "country (\\w+):"@);
                    assert(first_country_line(lines(cs@)) == Some(ls@[i as int]@));
                }
                match found {
                    None => {
                        return Err(WifiError::NoCountryMatch);
                    },
                    Some(code) => {
                        return country_code_parse(code.as_str());
                    },
                }
            }
            proof {
                assert(tl.skip(i as int).drop_first() =~= tl.skip(i + 1));
            }
            i = i + 1;
        }
        proof {
            assert(tl.skip(i as int) =~= Seq::<Seq<char>>::empty());
        }
        Err(WifiError::NoCountryLine)
    }

    /// Adds the network `ssid` with the password `psk`; the priority is not used.
    pub fn add_network(&self, ssid: &Ssid, psk: &Psk, priority: isize) -> (res: CommandLine)
        ensures
            res@ == join_command(ssid@, psk@),
    {
        self.set_network_low(ssid, psk)
    }

    /// Deletes the stored profile `id`.
    pub fn remove_network_low(&self, id: NetworkId) -> (res: CommandLine)
        ensures
            res@ == delete_command(id@),
    {
        let mut args: Vec<String> = Vec::new();
        word(&mut args, "c");
        word(&mut args, "del");
        value(&mut args, id.0);
        proof {
            assert(texts(args@) =~= seq!["c"@, "del"@, id@]);
        }
        command("nmcli", args)
    }

    /// Asks for the stored profiles, in the terse form.
    pub fn list_networks_command(&self) -> (res: CommandLine)
        ensures
            res@ == profiles_command(),
    {
        let mut args: Vec<String> = Vec::new();
        word(&mut args, "-t");
        word(&mut args, "c");
        word(&mut args, "show");
        proof {
            assert(texts(args@) =~= seq!["-t"@, "c"@, "show"@]);
        }
        command("nmcli", args)
    }

    /// The stored profiles of the report, by name.
    pub fn list_networks_low(&self, output: Vec<u8>) -> (res: Result<SsidMap<NetworkId>, WifiError>)
        ensures
            match text_of(output@) {
                Some(t) => res matches Ok(m) && ids_view(m@) == profiles(lines(t)),
                None => res is Err && res->Err_0 == WifiError::InvalidUtf8,
            },
    {
        let cs = output_text(output)?;
        let ls = text_lines(&cs);
        let ghost tl = texts(ls@);
        let mut m: SsidMap<NetworkId> = SsidMap::new();
        let mut i: usize = 0;
        while i < ls.len()
            invariant
                i <= ls@.len(),
                tl == texts(ls@),
                ids_view(m@) == profiles(tl.take(i as int)),
            decreases ls@.len() - i,
        {
            let f = fields(ls[i].as_str(), ':');
            proof {
                assert(tl.take(i + 1).drop_last() =~= tl.take(i as int));
                assert(tl.take(i + 1).last() == ls@[i as int]@);
            }
            if f.len() >= 4 {
                let name = f[0].clone();
                let id = f[1].clone();
                let ghost before = m@;
                m.insert(Ssid(name), NetworkId(id));
                proof {
                    assert(ids_view(m@) =~= ids_view(before).insert(texts(f@)[0], texts(f@)[1]));
                }
            }
            i = i + 1;
        }
        proof {
            assert(tl.take(i as int) =~= tl);
        }
        Ok(m)
    }

    /// Asks for the networks in the air, with their strength and security.
    pub fn list_wifi_command(&self) -> (res: CommandLine)
        ensures
            res@ == ("nmcli"@, seq!["-g"@, "SSID,SIGNAL,security"@, "d"@, "wifi"@, "list"@]),
    {
        let mut args: Vec<String> = Vec::new();
        word(&mut args, "-g");
        word(&mut args, "SSID,SIGNAL,security");
        word(&mut args, "d");
        word(&mut args, "wifi");
        word(&mut args, "list");
        proof {
            assert(texts(args@) =~= seq!["-g"@, "SSID,SIGNAL,security"@, "d"@, "wifi"@, "list"@]);
        }
        command("nmcli", args)
    }

    /// The networks of the scan report, by SSID.
    pub fn list_wifi_low(&self, output: Vec<u8>) -> (res: Result<SsidMap<WifiListInfo>, WifiError>)
        ensures
            match text_of(output@) {
                Some(t) => res matches Ok(m) && infos_view(m@) == scans(lines(t)),
                None => res is Err && res->Err_0 == WifiError::InvalidUtf8,
            },
    {
        let cs = output_text(output)?;
        let ls = text_lines(&cs);
        let ghost tl = texts(ls@);
        let mut m: SsidMap<WifiListInfo> = SsidMap::new();
        let mut i: usize = 0;
        while i < ls.len()
            invariant
                i <= ls@.len(),
                tl == texts(ls@),
                infos_view(m@) == scans(tl.take(i as int)),
            decreases ls@.len() - i,
        {
            let f = fields(ls[i].as_str(), ':');
            proof {
                assert(tl.take(i + 1).drop_last() =~= tl.take(i as int));
                assert(tl.take(i + 1).last() == ls@[i as int]@);
            }
            if f.len() >= 3 {
                let ssid = f[0].clone();
                let reading = parse_byte(&chars_of(f[1].as_str()));
                let signal = SignalStrength::new(reading);
                let security = fields(f[2].as_str(), ' ');
                let info = WifiListInfo { strength: signal, security };
                let ghost iv = info_view(info);
                let ghost before = m@;
                m.insert(Ssid(ssid), info);
                proof {
                    assert(infos_view(m@) =~= infos_view(before).insert(texts(f@)[0], iv));
                }
            }
            i = i + 1;
        }
        proof {
            assert(tl.take(i as int) =~= tl);
        }
        Ok(m)
    }

    /// Brings the stored profile `id` up.
    pub fn select_network_low(&self, id: &NetworkId) -> (res: CommandLine)
        ensures
            res@ == up_command(id@),
    {
        let mut args: Vec<String> = Vec::new();
        word(&mut args, "c");
        word(&mut args, "up");
        value(&mut args, id.0.clone());
        proof {
            assert(texts(args@) =~= seq!["c"@, "up"@, id@]);
        }
        command("nmcli", args)
    }

    /// The stored profile of the network `ssid`, if there is one.
    pub fn check_network(&self, networks: &SsidMap<NetworkId>, ssid: &Ssid) -> (res: Option<
        NetworkId,
    >)
        ensures
            match res {
                Some(id) => networks@.dom().contains(ssid@) && id == networks@[ssid@],
                None => !networks@.dom().contains(ssid@),
            },
    {
        match networks.get(ssid) {
            Some(id) => Some(id.clone()),
            None => None,
        }
    }

    /// Asks which network the interface is on.
    pub fn current_network_command(&self) -> (res: CommandLine)
        ensures
            res@ == current_command(self.interface@),
    {
        let mut args: Vec<String> = Vec::new();
        value(&mut args, self.interface.clone());
        word(&mut args, "--raw");
        proof {
            assert(texts(args@) =~= seq![self.interface@, "--raw"@]);
        }
        command("iwgetid", args)
    }

    /// The network that the interface is on, if any.
    pub fn get_current_network(&self, output: Vec<u8>) -> (res: Result<Option<Ssid>, WifiError>)
        ensures
            match current_report(output@) {
                Ok(None) => res matches Ok(None),
                Ok(Some(n)) => res matches Ok(Some(s)) && s@ == n,
                Err(e) => res == Err::<Option<Ssid>, WifiError>(e),
            },
    {
        let cs = output_text(output)?;
        let network = trim_text(&cs);
        if network.as_str().is_empty() {
            Ok(None)
        } else {
            Ok(Some(Ssid(network)))
        }
    }
}

/// Asks for the report of `interface`.
pub fn interface_command(interface: &str) -> (res: CommandLine)
    ensures
        res@ == address_command(interface@),
{
    let mut args: Vec<String> = Vec::new();
    word(&mut args, interface);
    proof {
        assert(texts(args@) =~= seq![interface@]);
    }
    command("ifconfig", args)
}

/// Whether the interface report shows an address.
#[verifier::loop_isolation(false)]
pub fn interface_connected(output: Vec<u8>) -> (res: Result<bool, WifiError>)
    ensures
        res == address_report(output@),
{
    let ghost out = output@;
    let cs = output_text(output)?;
    let ls = text_lines(&cs);
    let ghost tl = texts(ls@);
    let pat = chars_of("inet");
    let mut i: usize = 0;
    while i < ls.len()
        invariant
            i <= ls@.len(),
            tl == texts(ls@),
            tl == lines(cs@),
            text_of(out) == Some(cs@),
            pat@ == "inet"@,
            forall|j: int| 0 <= j < i ==> !has_infix(#[trigger] tl[j], "inet"@),
        decreases ls@.len() - i,
    {
        let lc = chars_of(ls[i].as_str());
        if contains_chars(&lc, &pat) {
            proof {
                assert(has_infix(tl[i as int], "inet"@));
                assert(lines(cs@)[i as int] == tl[i as int]);
                assert(some_line_has(lines(cs@), "inet"@));
            }
            return Ok(true);
        }
        i = i + 1;
    }
    Ok(false)
}

} // verus!
