use vstd::prelude::*;

use crate::model::{texts, SignalStrength, Ssid, WifiListOut};
use crate::report::WiFiInfo;
use crate::text::{decimal, decimal_string, join, join_strings};

verus! {

/// The color in which a network's row is shown.
#[derive(Clone, Copy, Debug, PartialEq, Eq, Structural)]
pub enum StrengthColor {
    Green,
    Magenta,
    Red,
    Yellow,
}

/// Green from 90 up, magenta at exactly 50, red at 0, yellow otherwise.
pub open spec fn color_of(strength: u8) -> StrengthColor {
    if strength >= 90 {
        StrengthColor::Green
    } else if strength == 50 {
        StrengthColor::Magenta
    } else if strength == 0 {
        StrengthColor::Red
    } else {
        StrengthColor::Yellow
    }
}

pub fn strength_color(strength: SignalStrength) -> (res: StrengthColor)
    ensures
        res == color_of(strength.0),
{
    if strength.0 >= 90 {
        StrengthColor::Green
    } else if strength.0 == 50 {
        StrengthColor::Magenta
    } else if strength.0 == 0 {
        StrengthColor::Red
    } else {
        StrengthColor::Yellow
    }
}

/// A stored network's row: its SSID, its strength, and the color of the row.
#[derive(Debug)]
pub struct NetworkRow {
    pub ssid: String,
    pub strength: String,
    pub color: StrengthColor,
}

/// The cells of the report's three tables.
#[derive(Debug)]
pub struct WifiInfoTable {
    /// CONNECTED, SIGNAL_STRENGTH, COUNTRY, ETHERNET.
    pub summary: Vec<String>,
    /// One row per stored network.
    pub networks: Vec<NetworkRow>,
    /// SSID, STRENGTH, SECURITY of each network in the air without a stored profile.
    pub available: Vec<Vec<String>>,
}

/// The text shown where there is nothing to show.
pub open spec fn not_available() -> Seq<char> {
    "[N/A]"@
}

/// The summary cells: the network the interface is on, its strength, the country and
/// whether the wired interface has an address.
pub open spec fn summary_cells(info: WiFiInfo) -> Seq<Seq<char>> {
    seq![
        match info.connected {
            Some(c) => c@,
            None => not_available(),
        },
        match info.connected {
            Some(c) => if info.ssids@.dom().contains(c@) {
                decimal(info.ssids@[c@].0 as nat)
            } else {
                not_available()
            },
            None => not_available(),
        },
        info.country@,
        if info.ethernet {
            "true"@
        } else {
            "false"@
        },
    ]
}

/// The cells of a listed network: SSID, strength, and the security protocols joined
/// with spaces.
pub open spec fn list_cells(o: WifiListOut) -> Seq<Seq<char>> {
    seq![o.ssid@, decimal(o.strength.0 as nat), join(texts(o.security@), " "@)]
}

/// The rows of a list of networks.
pub fn wifi_list_rows(list: &Vec<WifiListOut>) -> (res: Vec<Vec<String>>)
    ensures
        res@.len() == list@.len(),
        forall|i: int| 0 <= i < list@.len() ==> texts(#[trigger] res@[i]@) == list_cells(list@[i]),
{
    let mut res: Vec<Vec<String>> = Vec::new();
    let mut i: usize = 0;
    while i < list.len()
        invariant
            i <= list@.len(),
            res@.len() == i,
            forall|j: int| 0 <= j < i ==> texts(#[trigger] res@[j]@) == list_cells(list@[j]),
        decreases list@.len() - i,
    {
        let o = &list[i];
        let mut row: Vec<String> = Vec::new();
        row.push(o.ssid.0.clone());
        row.push(decimal_string(o.strength.0));
        row.push(join_strings(&o.security, " "));
        proof {
            assert(texts(row@) =~= list_cells(list@[i as int]));
        }
        res.push(row);
        i = i + 1;
    }
    res
}

/// The cells of the report's tables.
pub fn wifi_info_table(info: &WiFiInfo) -> (res: WifiInfoTable)
    ensures
        texts(res.summary@) == summary_cells(*info),
        res.networks@.len() == info.ssids.pairs().len(),
        forall|i: int|
            0 <= i < res.networks@.len() ==> {
                let row = #[trigger] res.networks@[i];
                let entry = info.ssids.pairs()[i];
                &&& row.ssid@ == entry.0@
                &&& row.strength@ == decimal(entry.1.0 as nat)
                &&& row.color == color_of(entry.1.0)
            },
        res.available@.len() == info.available_wifi@.len(),
        forall|i: int|
            0 <= i < info.available_wifi@.len() ==> texts(#[trigger] res.available@[i]@)
                == list_cells(info.available_wifi@[i]),
{
    let mut summary: Vec<String> = Vec::new();
    match &info.connected {
        Some(c) => {
            summary.push(c.0.clone());
            match info.ssids.get(c) {
                Some(ss) => summary.push(decimal_string(ss.0)),
                None => summary.push("[N/A]".to_owned()),
            }
        },
        None => {
            summary.push("[N/A]".to_owned());
            summary.push("[N/A]".to_owned());
        },
    }
    summary.push(info.country.alpha2().to_owned());
    if info.ethernet {
        summary.push("true".to_owned());
    } else {
        summary.push("false".to_owned());
    }
    proof {
        assert(texts(summary@) =~= summary_cells(*info));
    }
    let entries = info.ssids.entries();
    let mut networks: Vec<NetworkRow> = Vec::new();
    let mut i: usize = 0;
    while i < entries.len()
        invariant
            i <= entries@.len(),
            entries@ == info.ssids.pairs(),
            networks@.len() == i,
            forall|j: int|
                0 <= j < i ==> {
                    let row = #[trigger] networks@[j];
                    let entry = info.ssids.pairs()[j];
                    &&& row.ssid@ == entry.0@
                    &&& row.strength@ == decimal(entry.1.0 as nat)
                    &&& row.color == color_of(entry.1.0)
                },
        decreases entries@.len() - i,
    {
        let (ssid, strength) = (&entries[i].0, entries[i].1);
        networks.push(
            NetworkRow {
                ssid: ssid.0.clone(),
                strength: decimal_string(strength.0),
                color: strength_color(strength),
            },
        );
        i = i + 1;
    }
    let available = wifi_list_rows(&info.available_wifi);
    WifiInfoTable { summary, networks, available }
}

} // verus!
