use vstd::prelude::*;

use crate::model::{clamp_strength, NetworkId, Ssid, WifiError, WifiListInfo, WifiListOut};
use crate::procedure::{
    add_accepts, add_armed, answers, connect_armed, deadline_after, delete_accepts,
    select_armed, add_next, connect_accepts, connect_next, delete_next, profile_lookup, remove_accepts,
    remove_next, select_accepts, select_next, wired_interface, POLL_INTERVAL_MS, SELECT_TIMEOUT_MS, ActionView, AddView, ConnectView,
    DeleteView, RemoveView, ReplyView, SelectView, StepView,
};
use crate::report::{not_stored, out_of, unstored};
use crate::text::{
    all_digits, decimal, digit_char, digits_value, is_white, join, lemma_split_join,
    lemma_split_nonempty, lemma_trim_ends, parse_u8, split_on,
};
use crate::wpa::{
    address_command, address_report, current_command, current_report, delete_command,
    join_command, profile_of_line, profiles_command, scan_of_line, scans, text_of, up_command,
};

verus! {

broadcast use vstd::seq_lib::group_seq_properties;

/// The network that the interface is reported to be on has a name that neither begins
/// nor ends with white space.
pub proof fn law_current_network_trimmed(b: Seq<u8>)
    ensures
        current_report(b) matches Ok(Some(n)) ==> n.len() > 0 && !is_white(n.first())
            && !is_white(n.last()),
{
    if let Some(t) = text_of(b) {
        lemma_trim_ends(t);
    }
}

/// A signal strength made from any reading lies between 0 and 100.
pub proof fn law_strength_in_range(reading: Option<u8>)
    ensures
        clamp_strength(reading) <= 100,
{
}

/// Every strength that a scan report yields lies between 0 and 100.
pub proof fn law_scan_strengths_in_range(ls: Seq<Seq<char>>)
    ensures
        forall|k: Seq<char>| #[trigger] scans(ls).dom().contains(k) ==> scans(ls)[k].0 <= 100,
    decreases ls.len(),
{
    if ls.len() > 0 {
        law_scan_strengths_in_range(ls.drop_last());
        let m = scans(ls.drop_last());
        assert forall|k: Seq<char>| #[trigger] scans(ls).dom().contains(k) implies scans(
            ls,
        )[k].0 <= 100 by {
            match scan_of_line(ls.last()) {
                Some(p) => {
                    if k != p.0 {
                        assert(m.dom().contains(k));
                    }
                },
                None => {},
            }
        }
    }
}

/// `x` is what the scan reports for one of its entries.
pub open spec fn scanned(scan: Seq<(Ssid, WifiListInfo)>, x: WifiListOut) -> bool {
    exists|j: int| 0 <= j < scan.len() && out_of(scan[j]) == x
}

/// The networks offered as available have no stored profile, and each one is an entry
/// of the scan.
pub proof fn law_available_not_stored(
    scan: Seq<(Ssid, WifiListInfo)>,
    known: Map<Seq<char>, NetworkId>,
    listed: Seq<WifiListOut>,
)
    requires
        listed.to_multiset() == unstored(scan, known).to_multiset(),
    ensures
        forall|i: int|
            0 <= i < listed.len() ==> !known.dom().contains((#[trigger] listed[i]).ssid@)
                && scanned(scan, listed[i]),
{
    let f = scan.filter(not_stored(known));
    let u = unstored(scan, known);
    listed.to_multiset_ensures();
    u.to_multiset_ensures();
    assert forall|i: int| 0 <= i < listed.len() implies !known.dom().contains(
        (#[trigger] listed[i]).ssid@,
    ) && scanned(scan, listed[i]) by {
        assert(listed.contains(listed[i]));
        assert(listed.to_multiset().count(listed[i]) > 0);
        assert(u.to_multiset().count(listed[i]) > 0);
        assert(u.contains(listed[i]));
        let k = choose|k: int| 0 <= k < u.len() && u[k] == listed[i];
        assert(u[k] == out_of(f[k]));
        scan.lemma_filter_pred(not_stored(known), k);
        assert(f.contains(f[k]));
        scan.lemma_filter_contains_rev(not_stored(known), f[k]);
        let j = choose|j: int| 0 <= j < scan.len() && scan[j] == f[k];
        assert(out_of(scan[j]) == listed[i]);
    }
}

/// Every scanned network without a stored profile is offered as available.
pub proof fn law_available_complete(
    scan: Seq<(Ssid, WifiListInfo)>,
    known: Map<Seq<char>, NetworkId>,
    listed: Seq<WifiListOut>,
    j: int,
)
    requires
        listed.to_multiset() == unstored(scan, known).to_multiset(),
        0 <= j < scan.len(),
        !known.dom().contains(scan[j].0@),
    ensures
        listed.contains(out_of(scan[j])),
{
    let u = unstored(scan, known);
    let f = scan.filter(not_stored(known));
    scan.lemma_filter_contains(not_stored(known), j);
    assert(f.contains(scan[j]));
    let k = choose|k: int| 0 <= k < f.len() && f[k] == scan[j];
    assert(u[k] == out_of(scan[j]));
    assert(u.contains(out_of(scan[j])));
    listed.to_multiset_ensures();
    u.to_multiset_ensures();
    assert(u.to_multiset().count(out_of(scan[j])) > 0);
    assert(listed.to_multiset().count(out_of(scan[j])) > 0);
}

/// A selection ends in success only after the interface named the network asked for:
/// the last look at the interface decides whether it succeeded.
pub proof fn law_select_success_means_joined(s: SelectView, iface: Seq<char>, r: ReplyView)
    requires
        select_accepts(s, r),
    ensures
        select_next(s, iface, r).1 == StepView::<Result<bool, WifiError>>::Done(Ok(true)) ==> s
            == (SelectView::Disarming { connected: true }),
        s matches SelectView::Polling { ssid } ==> (r matches ReplyView::Output(Ok(b)) ==> (
        current_report(b) matches Ok(Some(n)) ==> select_next(s, iface, r).0 == (
        SelectView::Disarming { connected: n == ssid }))),
{
}

/// A selection brings up only the stored profile of the network it was asked for.
pub proof fn law_select_brings_up_own_profile(
    s: SelectView,
    iface: Seq<char>,
    r: ReplyView,
    id: Seq<char>,
)
    requires
        select_accepts(s, r),
        select_next(s, iface, r).1 == StepView::<Result<bool, WifiError>>::Act(
            ActionView::Run(up_command(id)),
        ),
    ensures
        s matches SelectView::Listing { ssid } && r matches ReplyView::Output(Ok(b))
            && profile_lookup(b, ssid) == Ok::<Option<Seq<char>>, WifiError>(Some(id)),
{
    reveal_strlit("nmcli");
    reveal_strlit("iwgetid");
    reveal_strlit("-t");
    reveal_strlit("c");
    if s is Start {
        assert(profiles_command().1[0] == "-t"@);
        assert(up_command(id).1[0] == "c"@);
        assert("-t"@.len() != "c"@.len());
    }
    if s is Arming || s is Polling || s is Waiting {
        assert(current_command(iface).0.len() != up_command(id).0.len());
    }
}

/// A removal deletes only the stored profile of the network it was asked for.
pub proof fn law_remove_deletes_own_profile(s: RemoveView, r: ReplyView, id: Seq<char>)
    requires
        remove_accepts(s, r),
        remove_next(s, r).1 == StepView::<Result<bool, WifiError>>::Act(
            ActionView::Run(delete_command(id)),
        ),
    ensures
        s matches RemoveView::Listing { ssid } && r matches ReplyView::Output(Ok(b))
            && profile_lookup(b, ssid) == Ok::<Option<Seq<char>>, WifiError>(Some(id)),
{
    reveal_strlit("-t");
    reveal_strlit("c");
    if s is Start {
        assert(profiles_command().1[0] == "-t"@);
        assert(delete_command(id).1[0] == "c"@);
        assert("-t"@.len() != "c"@.len());
    }
}

/// A selection of a network that has no stored profile fails with `SsidNotFound`.
pub proof fn law_select_unknown_fails(ssid: Seq<char>, iface: Seq<char>, b: Seq<u8>)
    requires
        profile_lookup(b, ssid) == Ok::<Option<Seq<char>>, WifiError>(None),
    ensures
        select_next(SelectView::Listing { ssid }, iface, ReplyView::Output(Ok(b))) == (
            SelectView::Finished,
            StepView::<Result<bool, WifiError>>::Done(Err(WifiError::SsidNotFound)),
        ),
{
}

/// When a connection does not end on the new network, the network the interface was on
/// before is selected again; when there was none, the connection ends.
pub proof fn law_connect_reverts(
    previous: Option<Seq<char>>,
    select: SelectView,
    iface: Seq<char>,
    r: ReplyView,
)
    requires
        select_accepts(select, r),
        select_next(select, iface, r).1 == StepView::<Result<bool, WifiError>>::Done(Ok(false)),
    ensures
        ({
            let (next, out) = connect_next(
                ConnectView::Selecting { previous, select },
                iface,
                r,
            );
            match previous {
                Some(p) => next == (ConnectView::Reverting {
                    select: SelectView::Listing { ssid: p },
                }) && out == StepView::<Result<(), WifiError>>::Act(
                    ActionView::Run(profiles_command()),
                ),
                None => next == ConnectView::Finished && out == StepView::<
                    Result<(), WifiError>,
                >::Done(Ok(())),
            }
        }),
{
}

/// A connection that ends on the new network leaves it there.
pub proof fn law_connect_success_stays(
    previous: Option<Seq<char>>,
    select: SelectView,
    iface: Seq<char>,
    r: ReplyView,
)
    requires
        select_accepts(select, r),
        select_next(select, iface, r).1 == StepView::<Result<bool, WifiError>>::Done(Ok(true)),
    ensures
        connect_next(ConnectView::Selecting { previous, select }, iface, r) == (
            ConnectView::Finished,
            StepView::<Result<(), WifiError>>::Done(Ok(())),
        ),
{
}

/// The networks that a connection in state `s` may bring up: the one asked for, and
/// afterwards only the one the interface was on before.
pub open spec fn connect_targets(s: ConnectView, ssid: Seq<char>) -> bool {
    match s {
        ConnectView::Start { ssid: t } => t == ssid,
        ConnectView::Reading { ssid: t } => t == ssid,
        ConnectView::Selecting { select, .. } => select_target(select) == Some(ssid)
            || select_target(select) is None,
        ConnectView::Reverting { select } => true,
        ConnectView::Finished => true,
    }
}

/// The network a selection works on, while it still has one to bring up.
pub open spec fn select_target(s: SelectView) -> Option<Seq<char>> {
    match s {
        SelectView::Start { ssid } => Some(ssid),
        SelectView::Listing { ssid } => Some(ssid),
        _ => None,
    }
}

/// In a connection to `ssid`, the first selection works on `ssid` and the only other
/// selection works on the network the interface was on before, as read at the start.
pub proof fn law_connect_selects_only_new_then_previous(
    s: ConnectView,
    ssid: Seq<char>,
    iface: Seq<char>,
    r: ReplyView,
)
    requires
        connect_accepts(s, r),
        connect_targets(s, ssid),
    ensures
        connect_targets(connect_next(s, iface, r).0, ssid),
        s matches ConnectView::Selecting { previous, select } ==> (connect_next(s, iface, r).0
            matches ConnectView::Reverting { select: sel } ==> previous is Some && select_target(
            sel,
        ) == previous),
{
}

/// A deletion never deletes the profile of the network the interface is on unless the
/// wired interface has an address: reading that the interface is on the network leads to
/// looking at the wired interface, and no address there refuses the deletion.
pub proof fn law_delete_keeps_only_connection(ssid: Seq<char>, iface: Seq<char>, b: Seq<u8>)
    ensures
        current_report(b) == Ok::<Option<Seq<char>>, WifiError>(Some(ssid)) ==> delete_next(
            DeleteView::Reading { ssid },
            iface,
            ReplyView::Output(Ok(b)),
        ) == (
            DeleteView::Checking { ssid },
            StepView::<Result<(), WifiError>>::Act(
                ActionView::Run(address_command(wired_interface())),
            ),
        ),
        address_report(b) == Ok::<bool, WifiError>(false) ==> delete_next(
            DeleteView::Checking { ssid },
            iface,
            ReplyView::Output(Ok(b)),
        ) == (
            DeleteView::Finished,
            StepView::<Result<(), WifiError>>::Done(Err(WifiError::DeleteWouldDisconnect)),
        ),
{
}

/// A deletion while the interface is on another network leaves every profile alone.
pub proof fn law_delete_other_network_untouched(
    ssid: Seq<char>,
    other: Seq<char>,
    iface: Seq<char>,
    b: Seq<u8>,
)
    requires
        other != ssid,
        current_report(b) == Ok::<Option<Seq<char>>, WifiError>(Some(other)),
    ensures
        delete_next(DeleteView::Reading { ssid }, iface, ReplyView::Output(Ok(b))) == (
            DeleteView::Finished,
            StepView::<Result<(), WifiError>>::Done(Ok(())),
        ),
{
}

/// When an added network cannot be joined, its profile is deleted again; once that is
/// done, the network the interface was on before is selected again.
pub proof fn law_add_cleans_up(
    ssid: Seq<char>,
    previous: Option<Seq<char>>,
    select: SelectView,
    remove: RemoveView,
    iface: Seq<char>,
    r: ReplyView,
)
    ensures
        select_accepts(select, r) && select_next(select, iface, r).1 == StepView::<
            Result<bool, WifiError>,
        >::Done(Ok(false)) ==> add_next(
            AddView::Selecting { ssid, previous, select },
            iface,
            r,
        ).0 == (AddView::Removing { previous, remove: RemoveView::Listing { ssid } }),
        (remove_accepts(remove, r) && (remove_next(remove, r).1 matches StepView::Done(Ok(_))))
            ==> add_next(AddView::Removing { previous, remove }, iface, r).0 == (match previous {
            Some(p) => AddView::Reverting { select: SelectView::Listing { ssid: p } },
            None => AddView::Finished,
        }),
{
}

/// The selection keeps the deadline protocol of `Action`: its deadline is armed exactly
/// as its `StartTimer` and `StopTimer` actions say, `TimedOut` is taken only while one
/// is armed, the selection ends only with none armed, and every reply that answers its
/// next action as documented is one that it accepts.
pub proof fn law_select_keeps_protocol(s: SelectView, iface: Seq<char>, r: ReplyView)
    requires
        select_accepts(s, r),
    ensures
        ({
            let (next, out) = select_next(s, iface, r);
            &&& select_armed(next) == deadline_after(select_armed(s), out)
            &&& r is TimedOut ==> select_armed(s)
            &&& out is Done ==> !select_armed(s) && !select_armed(next)
            &&& forall|r2: ReplyView|
                #![trigger select_accepts(next, r2)]
                out matches StepView::Act(a) && answers(a, select_armed(next), r2) ==> select_accepts(
                    next,
                    r2,
                )
        }),
{
}

/// A removal never arms a deadline, and every reply that answers its next action as
/// documented is one that it accepts.
pub proof fn law_remove_keeps_protocol(s: RemoveView, r: ReplyView)
    requires
        remove_accepts(s, r),
    ensures
        ({
            let (next, out) = remove_next(s, r);
            &&& !deadline_after(false, out)
            &&& !(r is TimedOut)
            &&& forall|r2: ReplyView|
                #![trigger remove_accepts(next, r2)]
                out matches StepView::Act(a) && answers(a, false, r2) ==> remove_accepts(next, r2)
        }),
{
}

/// A connection keeps the deadline protocol of `Action`: after a selection ends, on
/// success, failure or time-out alike, no deadline is armed, and every reply that
/// answers the next action as documented is one that the connection accepts, so the
/// return to the previous network is always reached.
pub proof fn law_connect_keeps_protocol(s: ConnectView, iface: Seq<char>, r: ReplyView)
    requires
        connect_accepts(s, r),
    ensures
        ({
            let (next, out) = connect_next(s, iface, r);
            &&& connect_armed(next) == deadline_after(connect_armed(s), out)
            &&& r is TimedOut ==> connect_armed(s)
            &&& out is Done ==> !connect_armed(s) && !connect_armed(next)
            &&& forall|r2: ReplyView|
                #![trigger connect_accepts(next, r2)]
                out matches StepView::Act(a) && answers(a, connect_armed(next), r2)
                    ==> connect_accepts(next, r2)
        }),
{
    match s {
        ConnectView::Selecting { select, .. } => law_select_keeps_protocol(select, iface, r),
        ConnectView::Reverting { select } => law_select_keeps_protocol(select, iface, r),
        _ => {},
    }
}

/// An addition keeps the deadline protocol of `Action`: after a selection ends, on
/// success, failure or time-out alike, no deadline is armed, and every reply that
/// answers the next action as documented is one that the addition accepts, so the
/// removal of the new profile and the return to the previous network are always reached.
pub proof fn law_add_keeps_protocol(s: AddView, iface: Seq<char>, r: ReplyView)
    requires
        add_accepts(s, r),
    ensures
        ({
            let (next, out) = add_next(s, iface, r);
            &&& add_armed(next) == deadline_after(add_armed(s), out)
            &&& r is TimedOut ==> add_armed(s)
            &&& out is Done ==> !add_armed(s) && !add_armed(next)
            &&& forall|r2: ReplyView|
                #![trigger add_accepts(next, r2)]
                out matches StepView::Act(a) && answers(a, add_armed(next), r2) ==> add_accepts(
                    next,
                    r2,
                )
        }),
{
    match s {
        AddView::Selecting { select, .. } => law_select_keeps_protocol(select, iface, r),
        AddView::Removing { remove, .. } => law_remove_keeps_protocol(remove, r),
        AddView::Reverting { select } => law_select_keeps_protocol(select, iface, r),
        _ => {},
    }
}

/// A deletion never arms a deadline, and every reply that answers its next action as
/// documented is one that it accepts.
pub proof fn law_delete_keeps_protocol(s: DeleteView, iface: Seq<char>, r: ReplyView)
    requires
        delete_accepts(s, r),
    ensures
        ({
            let (next, out) = delete_next(s, iface, r);
            &&& !deadline_after(false, out)
            &&& !(r is TimedOut)
            &&& forall|r2: ReplyView|
                #![trigger delete_accepts(next, r2)]
                out matches StepView::Act(a) && answers(a, false, r2) ==> delete_accepts(next, r2)
        }),
{
    match s {
        DeleteView::Removing { remove } => law_remove_keeps_protocol(remove, r),
        _ => {},
    }
}

/// Every security list that a scan report yields has at least one entry.
pub proof fn law_scan_security_nonempty(ls: Seq<Seq<char>>)
    ensures
        forall|k: Seq<char>| #[trigger] scans(ls).dom().contains(k) ==> scans(ls)[k].1.len() > 0,
    decreases ls.len(),
{
    if ls.len() > 0 {
        law_scan_security_nonempty(ls.drop_last());
        let m = scans(ls.drop_last());
        assert forall|k: Seq<char>| #[trigger] scans(ls).dom().contains(k) implies scans(
            ls,
        )[k].1.len() > 0 by {
            match scan_of_line(ls.last()) {
                Some(p) => {
                    if k != p.0 {
                        assert(m.dom().contains(k));
                    } else {
                        lemma_split_nonempty(split_on(ls.last(), ':')[2], ' ');
                    }
                },
                None => {},
            }
        }
    }
}

/// How a selection ends. It ends with `Ok(b)` exactly from `Disarming { connected: b }`,
/// that is after the profile was brought up and the wait for the interface ended, and
/// only then. A failure to list the stored profiles, or to read that list, ends it with
/// that failure; a network without a stored profile ends it with `SsidNotFound`; a
/// failure to bring the profile up ends it with that failure; it ends with an error
/// nowhere else. A deadline that passes leads to dropping the deadline, with the result
/// that the interface did not join the network.
pub proof fn law_select_outcomes(s: SelectView, iface: Seq<char>, r: ReplyView)
    requires
        select_accepts(s, r),
    ensures
        ({
            let (next, out) = select_next(s, iface, r);
            &&& out matches StepView::Done(Ok(b)) ==> s == (SelectView::Disarming { connected: b })
            &&& s matches SelectView::Disarming { connected } ==> out == StepView::<
                Result<bool, WifiError>,
            >::Done(Ok(connected))
            &&& out is Done ==> next == SelectView::Finished
            &&& out matches StepView::Done(Err(_)) ==> (s is Listing || s is Selecting)
            &&& s matches SelectView::Listing { ssid } ==> (match r {
                ReplyView::Output(Err(e)) => out == StepView::<Result<bool, WifiError>>::Done(
                    Err(e),
                ),
                ReplyView::Output(Ok(b)) => match profile_lookup(b, ssid) {
                    Err(e) => out == StepView::<Result<bool, WifiError>>::Done(Err(e)),
                    Ok(None) => out == StepView::<Result<bool, WifiError>>::Done(
                        Err(WifiError::SsidNotFound),
                    ),
                    Ok(Some(id)) => out == StepView::<Result<bool, WifiError>>::Act(
                        ActionView::Run(up_command(id)),
                    ),
                },
                _ => false,
            })
            &&& s is Selecting ==> (match r {
                ReplyView::Output(Err(e)) => out == StepView::<Result<bool, WifiError>>::Done(
                    Err(e),
                ),
                ReplyView::Output(Ok(_)) => out == StepView::<Result<bool, WifiError>>::Act(
                    ActionView::StartTimer(SELECT_TIMEOUT_MS),
                ),
                _ => false,
            })
            &&& r is TimedOut ==> next == (SelectView::Disarming { connected: false }) && out
                == StepView::<Result<bool, WifiError>>::Act(ActionView::StopTimer)
        }),
{
}

/// How a removal ends. It ends with `Ok(true)` only after the delete command succeeded,
/// and with `Ok(false)` only when the stored profiles hold none for the network. A
/// failure to list the profiles, to read that list, or of the delete command ends it
/// with that failure.
pub proof fn law_remove_outcomes(s: RemoveView, r: ReplyView)
    requires
        remove_accepts(s, r),
    ensures
        ({
            let (next, out) = remove_next(s, r);
            &&& out == StepView::<Result<bool, WifiError>>::Done(Ok(true)) ==> s is Removing && (
            r matches ReplyView::Output(Ok(_)))
            &&& out == StepView::<Result<bool, WifiError>>::Done(Ok(false)) ==> (match s {
                RemoveView::Listing { ssid } => r matches ReplyView::Output(Ok(b))
                    && profile_lookup(b, ssid) == Ok::<Option<Seq<char>>, WifiError>(None),
                _ => false,
            })
            &&& out is Done ==> next == RemoveView::Finished
            &&& (s is Removing || s is Listing) ==> (r matches ReplyView::Output(Err(e)) ==> out
                == StepView::<Result<bool, WifiError>>::Done(Err(e)))
            &&& s matches RemoveView::Listing { ssid } ==> (r matches ReplyView::Output(Ok(b)) ==> (
            profile_lookup(b, ssid) matches Err(e) ==> out == StepView::<
                Result<bool, WifiError>,
            >::Done(Err(e))))
        }),
{
}

/// How a connection ends. Every failure is passed on: of the command that reads the
/// current network, of reading its report, of the selection of the requested network,
/// and of the selection of the previous one. It ends with `Ok(())` only when the
/// selection of the requested network succeeded, or ended without joining it while
/// there was no previous network, or when the return to the previous network ended
/// without error.
pub proof fn law_connect_outcomes(s: ConnectView, iface: Seq<char>, r: ReplyView)
    requires
        connect_accepts(s, r),
    ensures
        ({
            let (next, out) = connect_next(s, iface, r);
            &&& out is Done ==> next == ConnectView::Finished
            &&& s is Reading ==> (match r {
                ReplyView::Output(Err(e)) => out == StepView::<Result<(), WifiError>>::Done(
                    Err(e),
                ),
                ReplyView::Output(Ok(b)) => match current_report(b) {
                    Err(e) => out == StepView::<Result<(), WifiError>>::Done(Err(e)),
                    Ok(_) => out is Act,
                },
                _ => false,
            })
            &&& s matches ConnectView::Selecting { select, .. } ==> (select_next(
                select,
                iface,
                r,
            ).1 matches StepView::Done(Err(e)) ==> out == StepView::<
                Result<(), WifiError>,
            >::Done(Err(e)))
            &&& s matches ConnectView::Reverting { select } ==> (select_next(
                select,
                iface,
                r,
            ).1 matches StepView::Done(Err(e)) ==> out == StepView::<
                Result<(), WifiError>,
            >::Done(Err(e)))
            &&& out == StepView::<Result<(), WifiError>>::Done(Ok(())) ==> (match s {
                ConnectView::Selecting { previous, select } => select_next(select, iface, r).1
                    == StepView::<Result<bool, WifiError>>::Done(Ok(true)) || (select_next(
                    select,
                    iface,
                    r,
                ).1 == StepView::<Result<bool, WifiError>>::Done(Ok(false)) && previous is None),
                ConnectView::Reverting { select } => select_next(select, iface, r).1 matches StepView::Done(Ok(_)),
                _ => false,
            })
        }),
{
}

/// How an addition ends. A failure of the join command ends it with that failure,
/// whether or not it was asked to connect; so do the failures of reading the current
/// network, of the selection of the new network, of the removal of its profile and of
/// the return to the previous network. It ends with `Ok(())` only when the join
/// succeeded and no connection was asked for, when the new network was joined, or when,
/// after it could not be joined, its profile was removed and there was no previous
/// network, or the return to the previous network ended without error.
pub proof fn law_add_outcomes(s: AddView, iface: Seq<char>, r: ReplyView)
    requires
        add_accepts(s, r),
    ensures
        ({
            let (next, out) = add_next(s, iface, r);
            &&& out is Done ==> next == AddView::Finished
            &&& s is Adding ==> (r matches ReplyView::Output(Err(e)) ==> out == StepView::<
                Result<(), WifiError>,
            >::Done(Err(e)))
            &&& s is Reading ==> (match r {
                ReplyView::Output(Err(e)) => out == StepView::<Result<(), WifiError>>::Done(
                    Err(e),
                ),
                ReplyView::Output(Ok(b)) => match current_report(b) {
                    Err(e) => out == StepView::<Result<(), WifiError>>::Done(Err(e)),
                    Ok(_) => out is Act,
                },
                _ => false,
            })
            &&& s matches AddView::Selecting { select, .. } ==> (select_next(select, iface, r).1 matches StepView::Done(
                Err(e),
            ) ==> out == StepView::<Result<(), WifiError>>::Done(Err(e)))
            &&& s matches AddView::Removing { remove, .. } ==> (remove_next(remove, r).1 matches StepView::Done(
                Err(e),
            ) ==> out == StepView::<Result<(), WifiError>>::Done(Err(e)))
            &&& s matches AddView::Reverting { select } ==> (select_next(select, iface, r).1 matches StepView::Done(
                Err(e),
            ) ==> out == StepView::<Result<(), WifiError>>::Done(Err(e)))
            &&& out == StepView::<Result<(), WifiError>>::Done(Ok(())) ==> (match s {
                AddView::Adding { connect, .. } => !connect && (r matches ReplyView::Output(Ok(_))),
                AddView::Selecting { select, .. } => select_next(select, iface, r).1
                    == StepView::<Result<bool, WifiError>>::Done(Ok(true)),
                AddView::Removing { previous, remove } => previous is None && (remove_next(
                    remove,
                    r,
                ).1 matches StepView::Done(Ok(_))),
                AddView::Reverting { select } => select_next(select, iface, r).1 matches StepView::Done(Ok(_)),
                _ => false,
            })
        }),
{
}

/// How a deletion goes. It turns to removing a profile only when the interface is on no
/// network, or, when it is on the network to delete, only after the wired interface's
/// report was read and shows an address; the removal is then of that network. No other
/// step of a deletion gives a delete command. Every failure is passed on: of reading the
/// current network, of the wired interface's command or report, and of the removal. It
/// ends with `Ok(())` only when the interface is on another network or the removal ended
/// without error.
pub proof fn law_delete_outcomes(s: DeleteView, iface: Seq<char>, r: ReplyView, id: Seq<char>)
    requires
        delete_accepts(s, r),
    ensures
        ({
            let (next, out) = delete_next(s, iface, r);
            &&& out is Done ==> next == DeleteView::Finished
            &&& (next is Removing && !(s is Removing)) ==> (match s {
                DeleteView::Reading { ssid } => r matches ReplyView::Output(Ok(b)) && current_report(
                    b,
                ) == Ok::<Option<Seq<char>>, WifiError>(None) && next == (DeleteView::Removing {
                    remove: RemoveView::Listing { ssid },
                }),
                DeleteView::Checking { ssid } => r matches ReplyView::Output(Ok(b))
                    && address_report(b) == Ok::<bool, WifiError>(true) && next == (
                DeleteView::Removing { remove: RemoveView::Listing { ssid } }),
                _ => false,
            })
            &&& out == StepView::<Result<(), WifiError>>::Act(ActionView::Run(delete_command(id)))
                ==> s is Removing
            &&& (s is Reading || s is Checking) ==> (r matches ReplyView::Output(Err(e)) ==> out
                == StepView::<Result<(), WifiError>>::Done(Err(e)))
            &&& s is Reading ==> (r matches ReplyView::Output(Ok(b)) ==> (current_report(b) matches Err(
                e,
            ) ==> out == StepView::<Result<(), WifiError>>::Done(Err(e))))
            &&& s is Checking ==> (r matches ReplyView::Output(Ok(b)) ==> (address_report(b) matches Err(
                e,
            ) ==> out == StepView::<Result<(), WifiError>>::Done(Err(e))))
            &&& s matches DeleteView::Removing { remove } ==> (remove_next(remove, r).1 matches StepView::Done(
                Err(e),
            ) ==> out == StepView::<Result<(), WifiError>>::Done(Err(e)))
            &&& out == StepView::<Result<(), WifiError>>::Done(Ok(())) ==> (match s {
                DeleteView::Reading { ssid } => r matches ReplyView::Output(Ok(b)) && current_report(
                    b,
                ) matches Ok(Some(c)) && c != ssid,
                DeleteView::Removing { remove } => remove_next(remove, r).1 matches StepView::Done(Ok(_)),
                _ => false,
            })
        }),
{
    reveal_strlit("nmcli");
    reveal_strlit("iwgetid");
    reveal_strlit("ifconfig");
    reveal_strlit("-t");
    reveal_strlit("c");
    assert(current_command(iface).0.len() != delete_command(id).0.len());
    assert(address_command(wired_interface()).0.len() != delete_command(id).0.len());
    assert(profiles_command().1[0] == "-t"@);
    assert(delete_command(id).1[0] == "c"@);
    assert("-t"@.len() != "c"@.len());
}

/// How a selection proceeds before it ends: it first lists the stored profiles; once the
/// profile is brought up it arms a 20 second deadline and looks at the interface; until
/// the interface names a network or the deadline passes, it waits half a second between
/// two looks; when the interface names a network it drops the deadline, with the result
/// whether that network is the one asked for.
pub proof fn law_select_steps(s: SelectView, iface: Seq<char>, r: ReplyView)
    requires
        select_accepts(s, r),
    ensures
        ({
            let (next, out) = select_next(s, iface, r);
            &&& s matches SelectView::Start { ssid } ==> next == (SelectView::Listing { ssid })
                && out == StepView::<Result<bool, WifiError>>::Act(ActionView::Run(profiles_command()))
            &&& s matches SelectView::Listing { ssid } ==> (out is Act ==> next == (
            SelectView::Selecting { ssid }))
            &&& s matches SelectView::Selecting { ssid } ==> (out is Act ==> next == (
            SelectView::Arming { ssid }))
            &&& s matches SelectView::Arming { ssid } ==> next == (SelectView::Polling { ssid })
                && out == StepView::<Result<bool, WifiError>>::Act(
                ActionView::Run(current_command(iface)),
            )
            &&& s matches SelectView::Polling { ssid } ==> (match r {
                ReplyView::Output(Ok(b)) => match current_report(b) {
                    Ok(Some(n)) => next == (SelectView::Disarming { connected: n == ssid })
                        && out == StepView::<Result<bool, WifiError>>::Act(ActionView::StopTimer),
                    _ => next == (SelectView::Waiting { ssid }) && out == StepView::<
                        Result<bool, WifiError>,
                    >::Act(ActionView::Sleep(POLL_INTERVAL_MS)),
                },
                ReplyView::Output(Err(_)) => next == (SelectView::Waiting { ssid }) && out
                    == StepView::<Result<bool, WifiError>>::Act(ActionView::Sleep(POLL_INTERVAL_MS)),
                _ => true,
            })
            &&& s matches SelectView::Waiting { ssid } ==> (r is Slept ==> next == (
            SelectView::Polling { ssid }) && out == StepView::<Result<bool, WifiError>>::Act(
                ActionView::Run(current_command(iface)),
            ))
        }),
{
}

/// A removal first lists the stored profiles, then deletes the one of its network.
pub proof fn law_remove_steps(s: RemoveView, r: ReplyView)
    requires
        remove_accepts(s, r),
    ensures
        ({
            let (next, out) = remove_next(s, r);
            &&& s matches RemoveView::Start { ssid } ==> next == (RemoveView::Listing { ssid })
                && out == StepView::<Result<bool, WifiError>>::Act(ActionView::Run(profiles_command()))
            &&& s matches RemoveView::Listing { ssid } ==> (r matches ReplyView::Output(Ok(b)) ==> (
            profile_lookup(b, ssid) matches Ok(Some(id)) ==> next == RemoveView::Removing && out
                == StepView::<Result<bool, WifiError>>::Act(ActionView::Run(delete_command(id)))))
        }),
{
}

/// A connection first reads the network the interface is on, then selects the network
/// asked for while remembering the one read; the actions of a selection are passed on
/// unchanged, and the network remembered does not change.
pub proof fn law_connect_steps(s: ConnectView, iface: Seq<char>, r: ReplyView)
    requires
        connect_accepts(s, r),
    ensures
        ({
            let (next, out) = connect_next(s, iface, r);
            &&& s matches ConnectView::Start { ssid } ==> next == (ConnectView::Reading { ssid })
                && out == StepView::<Result<(), WifiError>>::Act(
                ActionView::Run(current_command(iface)),
            )
            &&& s matches ConnectView::Reading { ssid } ==> (r matches ReplyView::Output(Ok(b)) ==> (
            current_report(b) matches Ok(cur) ==> next == (ConnectView::Selecting {
                previous: cur,
                select: SelectView::Listing { ssid },
            }) && out == StepView::<Result<(), WifiError>>::Act(ActionView::Run(profiles_command()))))
            &&& s matches ConnectView::Selecting { previous, select } ==> (select_next(
                select,
                iface,
                r,
            ).1 matches StepView::Act(a) ==> next == (ConnectView::Selecting {
                previous,
                select: select_next(select, iface, r).0,
            }) && out == StepView::<Result<(), WifiError>>::Act(a))
            &&& s matches ConnectView::Reverting { select } ==> (select_next(select, iface, r).1 matches StepView::Act(
                a,
            ) ==> next == (ConnectView::Reverting { select: select_next(select, iface, r).0 })
                && out == StepView::<Result<(), WifiError>>::Act(a))
        }),
{
}

/// An addition first joins the network with its password; when asked to connect it then
/// reads the network the interface is on and selects the new network while remembering
/// the one read; the actions of its selections and of the removal are passed on
/// unchanged, and the new network and the one remembered do not change.
pub proof fn law_add_steps(s: AddView, iface: Seq<char>, r: ReplyView)
    requires
        add_accepts(s, r),
    ensures
        ({
            let (next, out) = add_next(s, iface, r);
            &&& s matches AddView::Start { ssid, psk, connect } ==> next == (AddView::Adding {
                ssid,
                connect,
            }) && out == StepView::<Result<(), WifiError>>::Act(
                ActionView::Run(join_command(ssid, psk)),
            )
            &&& s matches AddView::Adding { ssid, connect } ==> (r matches ReplyView::Output(Ok(_))
                ==> if connect {
                next == (AddView::Reading { ssid }) && out == StepView::<Result<(), WifiError>>::Act(
                    ActionView::Run(current_command(iface)),
                )
            } else {
                next == AddView::Finished && out == StepView::<Result<(), WifiError>>::Done(Ok(()))
            })
            &&& s matches AddView::Reading { ssid } ==> (r matches ReplyView::Output(Ok(b)) ==> (
            current_report(b) matches Ok(cur) ==> next == (AddView::Selecting {
                ssid,
                previous: cur,
                select: SelectView::Listing { ssid },
            }) && out == StepView::<Result<(), WifiError>>::Act(ActionView::Run(profiles_command()))))
            &&& s matches AddView::Selecting { ssid, previous, select } ==> (select_next(
                select,
                iface,
                r,
            ).1 matches StepView::Act(a) ==> next == (AddView::Selecting {
                ssid,
                previous,
                select: select_next(select, iface, r).0,
            }) && out == StepView::<Result<(), WifiError>>::Act(a))
            &&& s matches AddView::Removing { previous, remove } ==> (remove_next(remove, r).1 matches StepView::Act(
                a,
            ) ==> next == (AddView::Removing { previous, remove: remove_next(remove, r).0 })
                && out == StepView::<Result<(), WifiError>>::Act(a))
            &&& s matches AddView::Reverting { select } ==> (select_next(select, iface, r).1 matches StepView::Act(
                a,
            ) ==> next == (AddView::Reverting { select: select_next(select, iface, r).0 }) && out
                == StepView::<Result<(), WifiError>>::Act(a))
        }),
{
}

/// A deletion first reads the network the interface is on; the actions of its removal
/// are passed on unchanged.
pub proof fn law_delete_steps(s: DeleteView, iface: Seq<char>, r: ReplyView)
    requires
        delete_accepts(s, r),
    ensures
        ({
            let (next, out) = delete_next(s, iface, r);
            &&& s matches DeleteView::Start { ssid } ==> next == (DeleteView::Reading { ssid })
                && out == StepView::<Result<(), WifiError>>::Act(
                ActionView::Run(current_command(iface)),
            )
            &&& s matches DeleteView::Removing { remove } ==> (remove_next(remove, r).1 matches StepView::Act(
                a,
            ) ==> next == (DeleteView::Removing { remove: remove_next(remove, r).0 }) && out
                == StepView::<Result<(), WifiError>>::Act(a))
        }),
{
}

/// A stored-profile report line made of fields without `:` joined by `:` names a profile
/// exactly when it has at least four fields: its first field is the name and its second
/// the UUID.
pub proof fn law_profile_line(fs: Seq<Seq<char>>)
    requires
        fs.len() >= 1,
        forall|i: int| 0 <= i < fs.len() ==> !(#[trigger] fs[i]).contains(':'),
    ensures
        profile_of_line(join(fs, seq![':'])) == (if fs.len() >= 4 {
            Some((fs[0], fs[1]))
        } else {
            None
        }),
{
    lemma_split_join(fs, ':');
}

/// A scan report line `ssid:signal:security` (fields without `:`, perhaps followed by
/// more) reports the network `ssid` with the strength read from `signal` and the
/// security protocols that the space-separated words of its third field name.
pub proof fn law_scan_line(
    ssid: Seq<char>,
    signal: Seq<char>,
    words: Seq<Seq<char>>,
    rest: Seq<Seq<char>>,
)
    requires
        words.len() >= 1,
        forall|i: int|
            0 <= i < words.len() ==> !(#[trigger] words[i]).contains(' ') && !words[i].contains(
                ':',
            ),
        forall|i: int| 0 <= i < rest.len() ==> !(#[trigger] rest[i]).contains(':'),
        !ssid.contains(':'),
        !signal.contains(':'),
    ensures
        scan_of_line(join(seq![ssid, signal, join(words, seq![' '])] + rest, seq![':'])) == Some(
            (ssid, (clamp_strength(parse_u8(signal)), words)),
        ),
{
    let sec = join(words, seq![' ']);
    lemma_split_join(words, ' ');
    lemma_join_free(words, ' ', ':');
    let fs = seq![ssid, signal, sec] + rest;
    assert forall|i: int| 0 <= i < fs.len() implies !(#[trigger] fs[i]).contains(':') by {
        if i >= 3 {
            assert(fs[i] == rest[i - 3]);
        }
    }
    lemma_split_join(fs, ':');
    assert(fs[0] == ssid && fs[1] == signal && fs[2] == sec);
}

/// Joining pieces without `c` by a separator other than `c` gives a text without `c`.
proof fn lemma_join_free(parts: Seq<Seq<char>>, sep: char, c: char)
    requires
        sep != c,
        forall|i: int| 0 <= i < parts.len() ==> !(#[trigger] parts[i]).contains(c),
    ensures
        !join(parts, seq![sep]).contains(c),
    decreases parts.len(),
{
    if parts.len() > 1 {
        let init = parts.drop_last();
        assert forall|i: int| 0 <= i < init.len() implies !(#[trigger] init[i]).contains(c) by {
            assert(init[i] == parts[i]);
        }
        lemma_join_free(init, sep, c);
        let j = join(parts, seq![sep]);
        let a = join(init, seq![sep]);
        let l = parts.last();
        assert(!l.contains(c));
        assert(j =~= a + seq![sep] + l);
        if j.contains(c) {
            let k = choose|k: int| 0 <= k < j.len() && j[k] == c;
            if k < a.len() {
                assert(a[k] == c);
            } else if k > a.len() {
                assert(l[k - a.len() - 1] == c);
            }
        }
    } else if parts.len() == 1 {
        assert(!parts[0].contains(c));
    }
}

/// The decimal numeral of a number is made of digits and has that number as its value.
pub proof fn law_decimal_value(n: nat)
    ensures
        decimal(n).len() >= 1,
        all_digits(decimal(n)),
        digits_value(decimal(n)) == n,
    decreases n,
{
    if n >= 10 {
        law_decimal_value(n / 10);
        let d = decimal(n / 10);
        let e = decimal(n);
        assert(e == d.push(digit_char(n % 10)));
        assert(e.drop_last() =~= d);
        assert(digit_char(n % 10) as int - 48 == n % 10);
        assert(e.last() == digit_char(n % 10));
        assert(digits_value(e) == digits_value(d) * 10 + (n % 10));
        assert((n / 10) * 10 + n % 10 == n) by (nonlinear_arith);
        assert forall|i: int| 0 <= i < e.len() implies '0' <= #[trigger] e[i] && e[i] <= '9' by {
            if i < d.len() {
                assert(e[i] == d[i]);
            }
        }
    } else {
        assert(digit_char(n) as int - 48 == n);
        let e = decimal(n);
        assert(e == seq![digit_char(n)]);
        assert(e.drop_last() =~= Seq::<char>::empty());
        assert(digits_value(e.drop_last()) == 0);
        assert(e.last() == digit_char(n));
        assert(digits_value(e) == digits_value(e.drop_last()) * 10 + (e.last() as int - 48));
    }
}

/// Reading the decimal numeral of a byte, as the signal of a scan line is read, gives
/// that byte back.
pub proof fn law_parse_reads_decimal(n: u8)
    ensures
        parse_u8(decimal(n as nat)) == Some(n),
{
    law_decimal_value(n as nat);
}

} // verus!
