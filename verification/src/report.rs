use vstd::prelude::*;

use crate::model::{NetworkId, SignalStrength, Ssid, WifiError, WifiListInfo, WifiListOut};
use crate::table::{has_key, lemma_map_of_unique, pairs_to_map, unique_keys, SsidMap};
use crate::wpa::Country;

verus! {

broadcast use vstd::seq_lib::group_seq_properties;

/// What `get` reports: the stored networks with their signal strength, the network the
/// interface is on, the regulatory country, whether the wired interface has an address,
/// and the networks in the air that have no stored profile.
#[derive(Debug)]
pub struct WiFiInfo {
    pub ssids: SsidMap<SignalStrength>,
    pub connected: Option<Ssid>,
    pub country: Country,
    pub ethernet: bool,
    pub available_wifi: Vec<WifiListOut>,
}

/// A scan entry as the report lists it.
pub open spec fn out_of(e: (Ssid, WifiListInfo)) -> WifiListOut {
    WifiListOut { ssid: e.0, strength: e.1.strength, security: e.1.security }
}

/// The entry is for a network with no stored profile.
pub open spec fn not_stored(known: Map<Seq<char>, NetworkId>) -> spec_fn((Ssid, WifiListInfo)) -> bool {
    |e: (Ssid, WifiListInfo)| !known.dom().contains(e.0@)
}

/// The scanned networks that have no stored profile, in the order of the scan table.
pub open spec fn unstored(scan: Seq<(Ssid, WifiListInfo)>, known: Map<Seq<char>, NetworkId>) -> Seq<
    WifiListOut,
> {
    scan.filter(not_stored(known)).map_values(|e: (Ssid, WifiListInfo)| out_of(e))
}

/// Strongest signal first.
pub open spec fn strongest_first(s: Seq<WifiListOut>) -> bool {
    forall|i: int, j: int|
        0 <= i < j < s.len() ==> (#[trigger] s[i]).strength.0 >= (#[trigger] s[j]).strength.0
}

/// The strength that the scan reports for `k`, and no signal when it reports nothing.
pub open spec fn strength_in(scan: Map<Seq<char>, WifiListInfo>, k: Seq<char>) -> SignalStrength {
    if scan.dom().contains(k) {
        scan[k].strength
    } else {
        SignalStrength(0)
    }
}

/// Each stored network with the strength that the scan reports for it.
pub open spec fn strengths_of(
    known: Map<Seq<char>, NetworkId>,
    scan: Map<Seq<char>, WifiListInfo>,
) -> Map<Seq<char>, SignalStrength> {
    Map::new(|k: Seq<char>| known.dom().contains(k), |k: Seq<char>| strength_in(scan, k))
}

/// The scanned networks that have no stored profile, strongest first.
pub fn available_networks(scan: SsidMap<WifiListInfo>, known: &SsidMap<NetworkId>) -> (res: Vec<
    WifiListOut,
>)
    ensures
        res@.to_multiset() == unstored(scan.pairs(), known@).to_multiset(),
        strongest_first(res@),
{
    let ghost orig = scan.pairs();
    let ghost keep = not_stored(known@);
    let ghost f = orig.filter(keep);
    let mut entries = scan.into_entries();
    let mut filtered: Vec<WifiListOut> = Vec::new();
    let ghost mut k: int = 0;
    while entries.len() > 0
        invariant
            0 <= k <= orig.len(),
            entries@ == orig.skip(k),
            keep == not_stored(known@),
            filtered@ == orig.take(k).filter(keep).map_values(|e: (Ssid, WifiListInfo)| out_of(e)),
        decreases entries@.len(),
    {
        let e = entries.remove(0);
        proof {
            assert(orig.take(k + 1) =~= orig.take(k).push(e));
            orig.take(k).lemma_filter_push(e, keep);
            assert(orig.skip(k + 1) =~= orig.skip(k).remove(0));
        }
        if !known.contains_key(&e.0) {
            let ghost before = filtered@;
            let ghost ev = e;
            filtered.push(WifiListOut { ssid: e.0, strength: e.1.strength, security: e.1.security });
            proof {
                assert(filtered@ =~= orig.take(k + 1).filter(keep).map_values(
                    |e: (Ssid, WifiListInfo)| out_of(e),
                ));
            }
        } else {
            proof {
                assert(filtered@ =~= orig.take(k + 1).filter(keep).map_values(
                    |e: (Ssid, WifiListInfo)| out_of(e),
                ));
            }
        }
        proof {
            k = k + 1;
        }
    }
    proof {
        assert(orig.take(k) =~= orig);
    }
    strongest_first_sort(filtered)
}

/// The same entries, strongest first; among equal strengths the later entry comes first.
fn strongest_first_sort(v: Vec<WifiListOut>) -> (res: Vec<WifiListOut>)
    ensures
        res@.to_multiset() == v@.to_multiset(),
        strongest_first(res@),
{
    let ghost orig = v@;
    let mut rest = v;
    let mut res: Vec<WifiListOut> = Vec::new();
    proof {
        assert(res@.to_multiset() =~= vstd::multiset::Multiset::empty());
        assert(res@.to_multiset().add(rest@.to_multiset()) =~= orig.to_multiset());
    }
    while rest.len() > 0
        invariant
            res@.to_multiset().add(rest@.to_multiset()) == orig.to_multiset(),
            strongest_first(res@),
            forall|a: int, b: int|
                0 <= a < res@.len() && 0 <= b < rest@.len() ==> (#[trigger] res@[a]).strength.0
                    >= (#[trigger] rest@[b]).strength.0,
        decreases rest@.len(),
    {
        let mut best: usize = 0;
        let mut j: usize = 1;
        while j < rest.len()
            invariant
                0 <= best < j <= rest@.len(),
                forall|t: int| 0 <= t < j ==> (#[trigger] rest@[t]).strength.0 <= rest@[best as int].strength.0,
            decreases rest@.len() - j,
        {
            if rest[j].strength.0 >= rest[best].strength.0 {
                best = j;
            }
            j = j + 1;
        }
        let ghost old_rest = rest@;
        let ghost old_res = res@;
        let x = rest.remove(best);
        proof {
            old_rest.to_multiset_ensures();
            old_res.to_multiset_ensures();
            assert(old_rest.contains(x));
            assert(rest@ == old_rest.remove(best as int));
            assert(rest@.to_multiset() =~= old_rest.to_multiset().remove(x));
        }
        res.push(x);
        proof {
            assert(res@.to_multiset() =~= old_res.to_multiset().insert(x));
            assert(old_rest.to_multiset().count(x) > 0);
            assert(res@.to_multiset().add(rest@.to_multiset()) =~= orig.to_multiset());
            assert forall|a: int, b: int|
                0 <= a < res@.len() && 0 <= b < rest@.len() implies (#[trigger] res@[a]).strength.0
                >= (#[trigger] rest@[b]).strength.0 by {
                let ob = if b < best { b } else { b + 1 };
                assert(rest@[b] == old_rest[ob]);
                assert(old_rest[ob].strength.0 <= old_rest[best as int].strength.0);
                if a < old_res.len() {
                    assert(res@[a] == old_res[a]);
                }
            }
            assert forall|a: int, b: int| 0 <= a < b < res@.len() implies (#[trigger] res@[a]).strength.0
                >= (#[trigger] res@[b]).strength.0 by {
                if b < old_res.len() {
                    assert(res@[a] == old_res[a]);
                    assert(res@[b] == old_res[b]);
                } else {
                    assert(res@[a] == old_res[a]);
                    assert(old_res[a].strength.0 >= old_rest[best as int].strength.0);
                }
            }
        }
    }
    proof {
        assert(rest@.to_multiset() =~= vstd::multiset::Multiset::empty());
        assert(res@.to_multiset() =~= orig.to_multiset());
    }
    res
}

/// The networks in the air that have no stored profile, strongest first; a failure to
/// list the stored profiles comes before a failure to scan.
pub fn get_available(
    wifi_list: Result<SsidMap<WifiListInfo>, WifiError>,
    network_list: Result<SsidMap<NetworkId>, WifiError>,
) -> (res: Result<Vec<WifiListOut>, WifiError>)
    ensures
        match (network_list, wifi_list) {
            (Err(e), _) => res == Err::<Vec<WifiListOut>, WifiError>(e),
            (Ok(_), Err(e)) => res == Err::<Vec<WifiListOut>, WifiError>(e),
            (Ok(known), Ok(scan)) => res matches Ok(r) && r@.to_multiset() == unstored(
                scan.pairs(),
                known@,
            ).to_multiset() && strongest_first(r@),
        },
{
    let network_list = network_list?;
    let wifi_list = wifi_list?;
    Ok(available_networks(wifi_list, &network_list))
}

/// The strength that the scan reports for each stored network.
pub fn known_strengths(known: &SsidMap<NetworkId>, scan: &SsidMap<WifiListInfo>) -> (res: SsidMap<
    SignalStrength,
>)
    ensures
        res@ == strengths_of(known@, scan@),
{
    let entries = known.entries();
    let ghost pairs = entries@;
    let mut m: SsidMap<SignalStrength> = SsidMap::new();
    let mut i: usize = 0;
    proof {
        lemma_map_of_unique(pairs);
        assert(m@ =~= Map::new(
            |k: Seq<char>| has_key(pairs.take(0), k),
            |k: Seq<char>| strength_in(scan@, k),
        ));
    }
    while i < entries.len()
        invariant
            i <= pairs.len(),
            pairs == entries@,
            pairs == known.pairs(),
            unique_keys(pairs),
            m@ == Map::new(
                |k: Seq<char>| has_key(pairs.take(i as int), k),
                |k: Seq<char>| strength_in(scan@, k),
            ),
        decreases pairs.len() - i,
    {
        let key = &entries[i].0;
        let strength = match scan.get(key) {
            Some(info) => info.strength,
            None => SignalStrength::default(),
        };
        let ghost before = m@;
        proof {
            assert(key@ == pairs[i as int].0@);
            assert(strength == strength_in(scan@, key@));
        }
        m.insert(key.clone(), strength);
        proof {
            assert forall|k: Seq<char>| has_key(pairs.take(i + 1), k) <==> has_key(pairs.take(i as int), k) || k == pairs[i as int].0@ by {
                if has_key(pairs.take(i + 1), k) {
                    let j = choose|j: int| 0 <= j < i + 1 && #[trigger] pairs.take(i + 1)[j].0@ == k;
                    if j < i {
                        assert(pairs.take(i as int)[j].0@ == k);
                    }
                }
                if has_key(pairs.take(i as int), k) {
                    let j = choose|j: int| 0 <= j < i && #[trigger] pairs.take(i as int)[j].0@ == k;
                    assert(pairs.take(i + 1)[j].0@ == k);
                }
                if k == pairs[i as int].0@ {
                    assert(pairs.take(i + 1)[i as int].0@ == k);
                }
            }
            let target = Map::new(
                |k: Seq<char>| has_key(pairs.take(i + 1), k),
                |k: Seq<char>| strength_in(scan@, k),
            );
            assert forall|k: Seq<char>| #[trigger] m@.dom().contains(k) <==> target.dom().contains(k) by {
                assert(m@.dom().contains(k) <==> before.dom().contains(k) || k == key@);
                assert(before.dom().contains(k) <==> has_key(pairs.take(i as int), k));
                assert(has_key(pairs.take(i + 1), k) <==> has_key(pairs.take(i as int), k) || k == pairs[i as int].0@);
                assert(target.dom().contains(k) <==> has_key(pairs.take(i + 1), k));
            }
            assert forall|k: Seq<char>| #[trigger] m@.dom().contains(k) implies m@[k] == target[k] by {
                if k != key@ {
                    assert(m@[k] == before[k]);
                }
            }
            assert(m@ =~= target);
        }
        i = i + 1;
    }
    proof {
        assert(pairs.take(i as int) =~= pairs);
        assert(m@ =~= strengths_of(known@, scan@));
    }
    m
}

/// Puts the report together from what the five reads gave; their failures come in the
/// order scan, stored profiles, current network, country, wired interface.
pub fn get(
    list_networks: Result<SsidMap<NetworkId>, WifiError>,
    current: Result<Option<Ssid>, WifiError>,
    country: Result<Country, WifiError>,
    ethernet: Result<bool, WifiError>,
    signal_strengths: Result<SsidMap<WifiListInfo>, WifiError>,
) -> (res: Result<WiFiInfo, WifiError>)
    ensures
        signal_strengths matches Err(e) ==> res == Err::<WiFiInfo, WifiError>(e),
        signal_strengths is Ok ==> (list_networks matches Err(e) ==> res == Err::<
            WiFiInfo,
            WifiError,
        >(e)),
        signal_strengths is Ok && list_networks is Ok ==> (current matches Err(e) ==> res
            == Err::<WiFiInfo, WifiError>(e)),
        signal_strengths is Ok && list_networks is Ok && current is Ok ==> (country matches Err(
            e,
        ) ==> res == Err::<WiFiInfo, WifiError>(e)),
        signal_strengths is Ok && list_networks is Ok && current is Ok && country is Ok ==> (
        ethernet matches Err(e) ==> res == Err::<WiFiInfo, WifiError>(e)),
        res matches Ok(info) ==> {
            &&& signal_strengths matches Ok(scan)
            &&& list_networks matches Ok(known)
            &&& current == Ok::<Option<Ssid>, WifiError>(info.connected)
            &&& country == Ok::<Country, WifiError>(info.country)
            &&& ethernet == Ok::<bool, WifiError>(info.ethernet)
            &&& info.ssids@ == strengths_of(known@, scan@)
            &&& info.available_wifi@.to_multiset() == unstored(scan.pairs(), known@).to_multiset()
            &&& strongest_first(info.available_wifi@)
        },
        (signal_strengths is Ok && list_networks is Ok && current is Ok && country is Ok
            && ethernet is Ok) ==> res is Ok,
{
    let signal_strengths = signal_strengths?;
    let list_networks = list_networks?;
    let ssids = known_strengths(&list_networks, &signal_strengths);
    let available_wifi = available_networks(signal_strengths, &list_networks);
    let current = current?;
    Ok(WiFiInfo { ssids, connected: current, country: country?, ethernet: ethernet?, available_wifi })
}

} // verus!
