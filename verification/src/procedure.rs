use vstd::prelude::*;

use crate::model::{CommandLine, Psk, Ssid, WifiError};
use crate::wpa::{
    address_command, address_report, current_command, current_report, delete_command,
    interface_command, join_command, profiles, profiles_command, text_of, up_command, WpaCli,
};
use crate::text::lines;

verus! {

/// How long, in milliseconds, a selection waits for the interface to report a network.
pub const SELECT_TIMEOUT_MS: u64 = 20000;

/// How long, in milliseconds, a selection waits between two looks at the interface.
pub const POLL_INTERVAL_MS: u64 = 500;

/// The outside work that a procedure asks for next.
#[derive(Debug)]
pub enum Action {
    /// Run the command; answer with `Reply::Output`.
    Run(CommandLine),
    /// Wait this many milliseconds; answer with `Reply::Slept`.
    Sleep(u64),
    /// Start a deadline this many milliseconds away; answer with `Reply::TimerStarted`.
    /// Until `StopTimer`, when the deadline passes before the answer to a `Run` or a
    /// `Sleep`, answer with `Reply::TimedOut` instead.
    StartTimer(u64),
    /// Drop the deadline; answer with `Reply::TimerStopped`.
    StopTimer,
}

/// What came of the outside work.
#[derive(Debug)]
pub enum Reply {
    /// The procedure starts.
    Begin,
    /// The command printed these bytes, or could not run or failed.
    Output(Result<Vec<u8>, WifiError>),
    Slept,
    TimerStarted,
    TimerStopped,
    TimedOut,
}

/// The next action, or the end of a procedure with its result.
#[derive(Debug)]
pub enum Step<R> {
    Act(Action),
    Done(R),
}

pub enum ActionView {
    Run((Seq<char>, Seq<Seq<char>>)),
    Sleep(u64),
    StartTimer(u64),
    StopTimer,
}

pub enum ReplyView {
    Begin,
    Output(Result<Seq<u8>, WifiError>),
    Slept,
    TimerStarted,
    TimerStopped,
    TimedOut,
}

pub enum StepView<R> {
    Act(ActionView),
    Done(R),
}

impl View for Action {
    type V = ActionView;

    open spec fn view(&self) -> ActionView {
        match self {
            Action::Run(c) => ActionView::Run(c@),
            Action::Sleep(ms) => ActionView::Sleep(*ms),
            Action::StartTimer(ms) => ActionView::StartTimer(*ms),
            Action::StopTimer => ActionView::StopTimer,
        }
    }
}

impl View for Reply {
    type V = ReplyView;

    open spec fn view(&self) -> ReplyView {
        match self {
            Reply::Begin => ReplyView::Begin,
            Reply::Output(Ok(b)) => ReplyView::Output(Ok(b@)),
            Reply::Output(Err(e)) => ReplyView::Output(Err(*e)),
            Reply::Slept => ReplyView::Slept,
            Reply::TimerStarted => ReplyView::TimerStarted,
            Reply::TimerStopped => ReplyView::TimerStopped,
            Reply::TimedOut => ReplyView::TimedOut,
        }
    }
}

impl<R> View for Step<R> {
    type V = StepView<R>;

    open spec fn view(&self) -> StepView<R> {
        match self {
            Step::Act(a) => StepView::Act(a@),
            Step::Done(r) => StepView::Done(*r),
        }
    }
}

/// Whether `r` answers the action `a` as `Action` documents it, with a deadline armed
/// or not.
pub open spec fn answers(a: ActionView, armed: bool, r: ReplyView) -> bool {
    match a {
        ActionView::Run(_) => r is Output || (armed && r is TimedOut),
        ActionView::Sleep(_) => r is Slept || (armed && r is TimedOut),
        ActionView::StartTimer(_) => r is TimerStarted,
        ActionView::StopTimer => r is TimerStopped,
    }
}

/// Whether a deadline is armed once the step's action is given, when `armed` said so
/// before: `StartTimer` arms one, `StopTimer` drops it, anything else leaves it as it was.
pub open spec fn deadline_after<R>(armed: bool, out: StepView<R>) -> bool {
    match out {
        StepView::Act(ActionView::StartTimer(_)) => true,
        StepView::Act(ActionView::StopTimer) => false,
        _ => armed,
    }
}

pub open spec fn ssid_view(o: Option<Ssid>) -> Option<Seq<char>> {
    match o {
        Some(s) => Some(s@),
        None => None,
    }
}

/// The stored profile of `ssid` in the report `bytes`: the failure to read the report,
/// or the profile's UUID if there is one.
pub open spec fn profile_lookup(bytes: Seq<u8>, ssid: Seq<char>) -> Result<
    Option<Seq<char>>,
    WifiError,
> {
    match text_of(bytes) {
        None => Err(WifiError::InvalidUtf8),
        Some(t) => if profiles(lines(t)).dom().contains(ssid) {
            Ok(Some(profiles(lines(t))[ssid]))
        } else {
            Ok(None)
        },
    }
}

// ---------------------------------------------------------------------------------------
// Selecting a network
// ---------------------------------------------------------------------------------------

/// Bringing a stored network up and waiting up to 20 seconds for the interface to join
/// some network; the result says whether the network it joined is the one asked for.
#[derive(Debug)]
pub enum SelectNetwork {
    Start { ssid: Ssid },
    Listing { ssid: Ssid },
    Selecting { ssid: Ssid },
    Arming { ssid: Ssid },
    Polling { ssid: Ssid },
    Waiting { ssid: Ssid },
    /// The deadline is being dropped; `connected` is the result to give afterwards.
    Disarming { connected: bool },
    Finished,
}

pub enum SelectView {
    Start { ssid: Seq<char> },
    Listing { ssid: Seq<char> },
    Selecting { ssid: Seq<char> },
    Arming { ssid: Seq<char> },
    Polling { ssid: Seq<char> },
    Waiting { ssid: Seq<char> },
    Disarming { connected: bool },
    Finished,
}

impl View for SelectNetwork {
    type V = SelectView;

    open spec fn view(&self) -> SelectView {
        match self {
            SelectNetwork::Start { ssid } => SelectView::Start { ssid: ssid@ },
            SelectNetwork::Listing { ssid } => SelectView::Listing { ssid: ssid@ },
            SelectNetwork::Selecting { ssid } => SelectView::Selecting { ssid: ssid@ },
            SelectNetwork::Arming { ssid } => SelectView::Arming { ssid: ssid@ },
            SelectNetwork::Polling { ssid } => SelectView::Polling { ssid: ssid@ },
            SelectNetwork::Waiting { ssid } => SelectView::Waiting { ssid: ssid@ },
            SelectNetwork::Disarming { connected } => SelectView::Disarming {
                connected: *connected,
            },
            SelectNetwork::Finished => SelectView::Finished,
        }
    }
}

/// Whether the selection's deadline is armed in state `s`: from the `StartTimer` that
/// `Selecting` gives until the `StopTimer` that leads to `Disarming`.
pub open spec fn select_armed(s: SelectView) -> bool {
    s is Arming || s is Polling || s is Waiting
}

/// The replies that a selection in state `s` waits for.
pub open spec fn select_accepts(s: SelectView, r: ReplyView) -> bool {
    match s {
        SelectView::Start { .. } => r is Begin,
        SelectView::Listing { .. } => r is Output,
        SelectView::Selecting { .. } => r is Output,
        SelectView::Arming { .. } => r is TimerStarted,
        SelectView::Polling { .. } => r is Output || r is TimedOut,
        SelectView::Waiting { .. } => r is Slept || r is TimedOut,
        SelectView::Disarming { .. } => r is TimerStopped,
        SelectView::Finished => false,
    }
}

/// One step of a selection: list the stored profiles, fail when the network has none,
/// bring its profile up, then under a 20 second deadline look at the interface every
/// half second until it names a network. Whether the interface named a network or the
/// deadline passed, the deadline is dropped before the selection ends.
pub open spec fn select_next(s: SelectView, iface: Seq<char>, r: ReplyView) -> (
    SelectView,
    StepView<Result<bool, WifiError>>,
) {
    match s {
        SelectView::Start { ssid } => (
            SelectView::Listing { ssid },
            StepView::Act(ActionView::Run(profiles_command())),
        ),
        SelectView::Listing { ssid } => match r {
            ReplyView::Output(Ok(b)) => match profile_lookup(b, ssid) {
                Err(e) => (SelectView::Finished, StepView::Done(Err(e))),
                Ok(None) => (SelectView::Finished, StepView::Done(Err(WifiError::SsidNotFound))),
                Ok(Some(id)) => (
                    SelectView::Selecting { ssid },
                    StepView::Act(ActionView::Run(up_command(id))),
                ),
            },
            ReplyView::Output(Err(e)) => (SelectView::Finished, StepView::Done(Err(e))),
            _ => (s, StepView::Done(Err(WifiError::SsidNotFound))),
        },
        SelectView::Selecting { ssid } => match r {
            ReplyView::Output(Ok(_)) => (
                SelectView::Arming { ssid },
                StepView::Act(ActionView::StartTimer(SELECT_TIMEOUT_MS)),
            ),
            ReplyView::Output(Err(e)) => (SelectView::Finished, StepView::Done(Err(e))),
            _ => (s, StepView::Done(Err(WifiError::SsidNotFound))),
        },
        SelectView::Arming { ssid } => (
            SelectView::Polling { ssid },
            StepView::Act(ActionView::Run(current_command(iface))),
        ),
        SelectView::Polling { ssid } => match r {
            ReplyView::TimedOut => (
                SelectView::Disarming { connected: false },
                StepView::Act(ActionView::StopTimer),
            ),
            ReplyView::Output(Ok(b)) => match current_report(b) {
                Ok(Some(n)) => (
                    SelectView::Disarming { connected: n == ssid },
                    StepView::Act(ActionView::StopTimer),
                ),
                _ => (SelectView::Waiting { ssid }, StepView::Act(ActionView::Sleep(POLL_INTERVAL_MS))),
            },
            _ => (SelectView::Waiting { ssid }, StepView::Act(ActionView::Sleep(POLL_INTERVAL_MS))),
        },
        SelectView::Waiting { ssid } => match r {
            ReplyView::TimedOut => (
                SelectView::Disarming { connected: false },
                StepView::Act(ActionView::StopTimer),
            ),
            _ => (
                SelectView::Polling { ssid },
                StepView::Act(ActionView::Run(current_command(iface))),
            ),
        },
        SelectView::Disarming { connected } => (SelectView::Finished, StepView::Done(Ok(connected))),
        SelectView::Finished => (s, StepView::Done(Ok(false))),
    }
}

impl SelectNetwork {
    /// Whether the selection waits for `reply` now.
    pub fn accepts(&self, reply: &Reply) -> (res: bool)
        ensures
            res == select_accepts(self@, reply@),
    {
        match self {
            SelectNetwork::Start { .. } => matches!(reply, Reply::Begin),
            SelectNetwork::Listing { .. } => matches!(reply, Reply::Output(_)),
            SelectNetwork::Selecting { .. } => matches!(reply, Reply::Output(_)),
            SelectNetwork::Arming { .. } => matches!(reply, Reply::TimerStarted),
            SelectNetwork::Polling { .. } => matches!(reply, Reply::Output(_) | Reply::TimedOut),
            SelectNetwork::Waiting { .. } => matches!(reply, Reply::Slept | Reply::TimedOut),
            SelectNetwork::Disarming { .. } => matches!(reply, Reply::TimerStopped),
            SelectNetwork::Finished => false,
        }
    }

    pub fn step(self, cli: &WpaCli, reply: Reply) -> (res: (SelectNetwork, Step<Result<bool, WifiError>>))
        requires
            select_accepts(self@, reply@),
        ensures
            (res.0@, res.1@) == select_next(self@, cli.interface@, reply@),
    {
        match self {
            SelectNetwork::Start { ssid } => (
                SelectNetwork::Listing { ssid },
                Step::Act(Action::Run(cli.list_networks_command())),
            ),
            SelectNetwork::Listing { ssid } => match reply {
                Reply::Output(Ok(bytes)) => match cli.list_networks_low(bytes) {
                    Err(e) => (SelectNetwork::Finished, Step::Done(Err(e))),
                    Ok(networks) => match cli.check_network(&networks, &ssid) {
                        None => (SelectNetwork::Finished, Step::Done(Err(WifiError::SsidNotFound))),
                        Some(id) => {
                            let cmd = cli.select_network_low(&id);
                            (SelectNetwork::Selecting { ssid }, Step::Act(Action::Run(cmd)))
                        },
                    },
                },
                Reply::Output(Err(e)) => (SelectNetwork::Finished, Step::Done(Err(e))),
                _ => (SelectNetwork::Finished, Step::Done(Err(WifiError::SsidNotFound))),
            },
            SelectNetwork::Selecting { ssid } => match reply {
                Reply::Output(Ok(_)) => (
                    SelectNetwork::Arming { ssid },
                    Step::Act(Action::StartTimer(SELECT_TIMEOUT_MS)),
                ),
                Reply::Output(Err(e)) => (SelectNetwork::Finished, Step::Done(Err(e))),
                _ => (SelectNetwork::Finished, Step::Done(Err(WifiError::SsidNotFound))),
            },
            SelectNetwork::Arming { ssid } => (
                SelectNetwork::Polling { ssid },
                Step::Act(Action::Run(cli.current_network_command())),
            ),
            SelectNetwork::Polling { ssid } => match reply {
                Reply::TimedOut => (
                    SelectNetwork::Disarming { connected: false },
                    Step::Act(Action::StopTimer),
                ),
                Reply::Output(Ok(bytes)) => match cli.get_current_network(bytes) {
                    Ok(Some(n)) => {
                        let connected = n.0 == ssid.0;
                        (SelectNetwork::Disarming { connected }, Step::Act(Action::StopTimer))
                    },
                    _ => (SelectNetwork::Waiting { ssid }, Step::Act(Action::Sleep(POLL_INTERVAL_MS))),
                },
                _ => (SelectNetwork::Waiting { ssid }, Step::Act(Action::Sleep(POLL_INTERVAL_MS))),
            },
            SelectNetwork::Waiting { ssid } => match reply {
                Reply::TimedOut => (
                    SelectNetwork::Disarming { connected: false },
                    Step::Act(Action::StopTimer),
                ),
                _ => (
                    SelectNetwork::Polling { ssid },
                    Step::Act(Action::Run(cli.current_network_command())),
                ),
            },
            SelectNetwork::Disarming { connected } => (SelectNetwork::Finished, Step::Done(Ok(connected))),
            SelectNetwork::Finished => (SelectNetwork::Finished, Step::Done(Ok(false))),
        }
    }
}

// ---------------------------------------------------------------------------------------
// Removing a network
// ---------------------------------------------------------------------------------------

/// Deleting the stored profile of a network; the result says whether there was one.
#[derive(Debug)]
pub enum RemoveNetwork {
    Start { ssid: Ssid },
    Listing { ssid: Ssid },
    Removing,
    Finished,
}

pub enum RemoveView {
    Start { ssid: Seq<char> },
    Listing { ssid: Seq<char> },
    Removing,
    Finished,
}

impl View for RemoveNetwork {
    type V = RemoveView;

    open spec fn view(&self) -> RemoveView {
        match self {
            RemoveNetwork::Start { ssid } => RemoveView::Start { ssid: ssid@ },
            RemoveNetwork::Listing { ssid } => RemoveView::Listing { ssid: ssid@ },
            RemoveNetwork::Removing => RemoveView::Removing,
            RemoveNetwork::Finished => RemoveView::Finished,
        }
    }
}

/// The replies that a removal in state `s` waits for.
pub open spec fn remove_accepts(s: RemoveView, r: ReplyView) -> bool {
    match s {
        RemoveView::Start { .. } => r is Begin,
        RemoveView::Listing { .. } => r is Output,
        RemoveView::Removing => r is Output,
        RemoveView::Finished => false,
    }
}

/// One step of a removal: list the stored profiles; without one for the network the
/// result is `false`, else delete it and the result is `true`.
pub open spec fn remove_next(s: RemoveView, r: ReplyView) -> (
    RemoveView,
    StepView<Result<bool, WifiError>>,
) {
    match s {
        RemoveView::Start { ssid } => (
            RemoveView::Listing { ssid },
            StepView::Act(ActionView::Run(profiles_command())),
        ),
        RemoveView::Listing { ssid } => match r {
            ReplyView::Output(Ok(b)) => match profile_lookup(b, ssid) {
                Err(e) => (RemoveView::Finished, StepView::Done(Err(e))),
                Ok(None) => (RemoveView::Finished, StepView::Done(Ok(false))),
                Ok(Some(id)) => (RemoveView::Removing, StepView::Act(ActionView::Run(delete_command(id)))),
            },
            ReplyView::Output(Err(e)) => (RemoveView::Finished, StepView::Done(Err(e))),
            _ => (s, StepView::Done(Ok(false))),
        },
        RemoveView::Removing => match r {
            ReplyView::Output(Err(e)) => (RemoveView::Finished, StepView::Done(Err(e))),
            _ => (RemoveView::Finished, StepView::Done(Ok(true))),
        },
        RemoveView::Finished => (s, StepView::Done(Ok(false))),
    }
}

impl RemoveNetwork {
    /// Whether the removal waits for `reply` now.
    pub fn accepts(&self, reply: &Reply) -> (res: bool)
        ensures
            res == remove_accepts(self@, reply@),
    {
        match self {
            RemoveNetwork::Start { .. } => matches!(reply, Reply::Begin),
            RemoveNetwork::Listing { .. } => matches!(reply, Reply::Output(_)),
            RemoveNetwork::Removing => matches!(reply, Reply::Output(_)),
            RemoveNetwork::Finished => false,
        }
    }

    pub fn step(self, cli: &WpaCli, reply: Reply) -> (res: (RemoveNetwork, Step<Result<bool, WifiError>>))
        requires
            remove_accepts(self@, reply@),
        ensures
            (res.0@, res.1@) == remove_next(self@, reply@),
    {
        match self {
            RemoveNetwork::Start { ssid } => (
                RemoveNetwork::Listing { ssid },
                Step::Act(Action::Run(cli.list_networks_command())),
            ),
            RemoveNetwork::Listing { ssid } => match reply {
                Reply::Output(Ok(bytes)) => match cli.list_networks_low(bytes) {
                    Err(e) => (RemoveNetwork::Finished, Step::Done(Err(e))),
                    Ok(networks) => match cli.check_network(&networks, &ssid) {
                        None => (RemoveNetwork::Finished, Step::Done(Ok(false))),
                        Some(id) => {
                            let cmd = cli.remove_network_low(id);
                            (RemoveNetwork::Removing, Step::Act(Action::Run(cmd)))
                        },
                    },
                },
                Reply::Output(Err(e)) => (RemoveNetwork::Finished, Step::Done(Err(e))),
                _ => (RemoveNetwork::Finished, Step::Done(Ok(false))),
            },
            RemoveNetwork::Removing => match reply {
                Reply::Output(Err(e)) => (RemoveNetwork::Finished, Step::Done(Err(e))),
                _ => (RemoveNetwork::Finished, Step::Done(Ok(true))),
            },
            RemoveNetwork::Finished => (RemoveNetwork::Finished, Step::Done(Ok(false))),
        }
    }
}

impl WpaCli {
    /// Starts bringing the stored network `ssid` up.
    pub fn select_network(&self, ssid: &Ssid) -> (res: SelectNetwork)
        ensures
            res@ == (SelectView::Start { ssid: ssid@ }),
    {
        SelectNetwork::Start { ssid: ssid.clone() }
    }

    /// Starts deleting the stored profile of `ssid`.
    pub fn remove_network(&self, ssid: &Ssid) -> (res: RemoveNetwork)
        ensures
            res@ == (RemoveView::Start { ssid: ssid@ }),
    {
        RemoveNetwork::Start { ssid: ssid.clone() }
    }
}

// ---------------------------------------------------------------------------------------
// Connecting to a network
// ---------------------------------------------------------------------------------------

/// Connecting to a stored network; when the interface ends up elsewhere, the network it
/// was on before is selected again.
#[derive(Debug)]
pub enum ConnectProcedure {
    Start { ssid: Ssid },
    Reading { ssid: Ssid },
    Selecting { previous: Option<Ssid>, select: SelectNetwork },
    Reverting { select: SelectNetwork },
    Finished,
}

pub enum ConnectView {
    Start { ssid: Seq<char> },
    Reading { ssid: Seq<char> },
    Selecting { previous: Option<Seq<char>>, select: SelectView },
    Reverting { select: SelectView },
    Finished,
}

impl View for ConnectProcedure {
    type V = ConnectView;

    open spec fn view(&self) -> ConnectView {
        match self {
            ConnectProcedure::Start { ssid } => ConnectView::Start { ssid: ssid@ },
            ConnectProcedure::Reading { ssid } => ConnectView::Reading { ssid: ssid@ },
            ConnectProcedure::Selecting { previous, select } => ConnectView::Selecting {
                previous: ssid_view(*previous),
                select: select@,
            },
            ConnectProcedure::Reverting { select } => ConnectView::Reverting { select: select@ },
            ConnectProcedure::Finished => ConnectView::Finished,
        }
    }
}

/// Whether a deadline is armed in state `s` of a connection: only inside a selection.
pub open spec fn connect_armed(s: ConnectView) -> bool {
    match s {
        ConnectView::Selecting { select, .. } => select_armed(select),
        ConnectView::Reverting { select } => select_armed(select),
        _ => false,
    }
}

/// The replies that a connection in state `s` waits for.
pub open spec fn connect_accepts(s: ConnectView, r: ReplyView) -> bool {
    match s {
        ConnectView::Start { .. } => r is Begin,
        ConnectView::Reading { .. } => r is Output,
        ConnectView::Selecting { select, .. } => select_accepts(select, r),
        ConnectView::Reverting { select } => select_accepts(select, r),
        ConnectView::Finished => false,
    }
}

/// One step of a connection: read the current network, select the new one, and when
/// that does not end on the new network, select the previous one if there was one.
pub open spec fn connect_next(s: ConnectView, iface: Seq<char>, r: ReplyView) -> (
    ConnectView,
    StepView<Result<(), WifiError>>,
) {
    match s {
        ConnectView::Start { ssid } => (
            ConnectView::Reading { ssid },
            StepView::Act(ActionView::Run(current_command(iface))),
        ),
        ConnectView::Reading { ssid } => match r {
            ReplyView::Output(Ok(b)) => match current_report(b) {
                Err(e) => (ConnectView::Finished, StepView::Done(Err(e))),
                Ok(cur) => (
                    ConnectView::Selecting { previous: cur, select: SelectView::Listing { ssid } },
                    StepView::Act(ActionView::Run(profiles_command())),
                ),
            },
            ReplyView::Output(Err(e)) => (ConnectView::Finished, StepView::Done(Err(e))),
            _ => (s, StepView::Done(Ok(()))),
        },
        ConnectView::Selecting { previous, select } => {
            let (next, out) = select_next(select, iface, r);
            match out {
                StepView::Act(a) => (ConnectView::Selecting { previous, select: next }, StepView::Act(a)),
                StepView::Done(Err(e)) => (ConnectView::Finished, StepView::Done(Err(e))),
                StepView::Done(Ok(true)) => (ConnectView::Finished, StepView::Done(Ok(()))),
                StepView::Done(Ok(false)) => match previous {
                    None => (ConnectView::Finished, StepView::Done(Ok(()))),
                    Some(p) => (
                        ConnectView::Reverting { select: SelectView::Listing { ssid: p } },
                        StepView::Act(ActionView::Run(profiles_command())),
                    ),
                },
            }
        },
        ConnectView::Reverting { select } => {
            let (next, out) = select_next(select, iface, r);
            match out {
                StepView::Act(a) => (ConnectView::Reverting { select: next }, StepView::Act(a)),
                StepView::Done(Err(e)) => (ConnectView::Finished, StepView::Done(Err(e))),
                StepView::Done(Ok(_)) => (ConnectView::Finished, StepView::Done(Ok(()))),
            }
        },
        ConnectView::Finished => (s, StepView::Done(Ok(()))),
    }
}

impl ConnectProcedure {
    /// Whether the connection waits for `reply` now.
    pub fn accepts(&self, reply: &Reply) -> (res: bool)
        ensures
            res == connect_accepts(self@, reply@),
    {
        match self {
            ConnectProcedure::Start { .. } => matches!(reply, Reply::Begin),
            ConnectProcedure::Reading { .. } => matches!(reply, Reply::Output(_)),
            ConnectProcedure::Selecting { select, .. } => select.accepts(reply),
            ConnectProcedure::Reverting { select } => select.accepts(reply),
            ConnectProcedure::Finished => false,
        }
    }

    pub fn step(self, cli: &WpaCli, reply: Reply) -> (res: (ConnectProcedure, Step<Result<(), WifiError>>))
        requires
            connect_accepts(self@, reply@),
        ensures
            (res.0@, res.1@) == connect_next(self@, cli.interface@, reply@),
    {
        match self {
            ConnectProcedure::Start { ssid } => (
                ConnectProcedure::Reading { ssid },
                Step::Act(Action::Run(cli.current_network_command())),
            ),
            ConnectProcedure::Reading { ssid } => match reply {
                Reply::Output(Ok(bytes)) => match cli.get_current_network(bytes) {
                    Err(e) => (ConnectProcedure::Finished, Step::Done(Err(e))),
                    Ok(cur) => (
                        ConnectProcedure::Selecting {
                            previous: cur,
                            select: SelectNetwork::Listing { ssid },
                        },
                        Step::Act(Action::Run(cli.list_networks_command())),
                    ),
                },
                Reply::Output(Err(e)) => (ConnectProcedure::Finished, Step::Done(Err(e))),
                _ => (ConnectProcedure::Finished, Step::Done(Ok(()))),
            },
            ConnectProcedure::Selecting { previous, select } => {
                let (next, out) = select.step(cli, reply);
                match out {
                    Step::Act(a) => (ConnectProcedure::Selecting { previous, select: next }, Step::Act(a)),
                    Step::Done(Err(e)) => (ConnectProcedure::Finished, Step::Done(Err(e))),
                    Step::Done(Ok(true)) => (ConnectProcedure::Finished, Step::Done(Ok(()))),
                    Step::Done(Ok(false)) => match previous {
                        None => (ConnectProcedure::Finished, Step::Done(Ok(()))),
                        Some(p) => (
                            ConnectProcedure::Reverting { select: SelectNetwork::Listing { ssid: p } },
                            Step::Act(Action::Run(cli.list_networks_command())),
                        ),
                    },
                }
            },
            ConnectProcedure::Reverting { select } => {
                let (next, out) = select.step(cli, reply);
                match out {
                    Step::Act(a) => (ConnectProcedure::Reverting { select: next }, Step::Act(a)),
                    Step::Done(Err(e)) => (ConnectProcedure::Finished, Step::Done(Err(e))),
                    Step::Done(Ok(_)) => (ConnectProcedure::Finished, Step::Done(Ok(()))),
                }
            },
            ConnectProcedure::Finished => (ConnectProcedure::Finished, Step::Done(Ok(()))),
        }
    }
}

// ---------------------------------------------------------------------------------------
// Adding a network
// ---------------------------------------------------------------------------------------

/// Adding a network with its password and, when asked, connecting to it; when the
/// interface then ends up elsewhere, the new network's profile is deleted and the network
/// it was on before is selected again.
#[derive(Debug)]
pub enum AddProcedure {
    Start { ssid: Ssid, psk: Psk, priority: isize, connect: bool },
    Adding { ssid: Ssid, connect: bool },
    Reading { ssid: Ssid },
    Selecting { ssid: Ssid, previous: Option<Ssid>, select: SelectNetwork },
    Removing { previous: Option<Ssid>, remove: RemoveNetwork },
    Reverting { select: SelectNetwork },
    Finished,
}

pub enum AddView {
    Start { ssid: Seq<char>, psk: Seq<char>, connect: bool },
    Adding { ssid: Seq<char>, connect: bool },
    Reading { ssid: Seq<char> },
    Selecting { ssid: Seq<char>, previous: Option<Seq<char>>, select: SelectView },
    Removing { previous: Option<Seq<char>>, remove: RemoveView },
    Reverting { select: SelectView },
    Finished,
}

impl View for AddProcedure {
    type V = AddView;

    open spec fn view(&self) -> AddView {
        match self {
            AddProcedure::Start { ssid, psk, connect, .. } => AddView::Start {
                ssid: ssid@,
                psk: psk@,
                connect: *connect,
            },
            AddProcedure::Adding { ssid, connect } => AddView::Adding { ssid: ssid@, connect: *connect },
            AddProcedure::Reading { ssid } => AddView::Reading { ssid: ssid@ },
            AddProcedure::Selecting { ssid, previous, select } => AddView::Selecting {
                ssid: ssid@,
                previous: ssid_view(*previous),
                select: select@,
            },
            AddProcedure::Removing { previous, remove } => AddView::Removing {
                previous: ssid_view(*previous),
                remove: remove@,
            },
            AddProcedure::Reverting { select } => AddView::Reverting { select: select@ },
            AddProcedure::Finished => AddView::Finished,
        }
    }
}

/// Whether a deadline is armed in state `s` of an addition: only inside a selection.
pub open spec fn add_armed(s: AddView) -> bool {
    match s {
        AddView::Selecting { select, .. } => select_armed(select),
        AddView::Reverting { select } => select_armed(select),
        _ => false,
    }
}

/// The replies that an addition in state `s` waits for.
pub open spec fn add_accepts(s: AddView, r: ReplyView) -> bool {
    match s {
        AddView::Start { .. } => r is Begin,
        AddView::Adding { .. } => r is Output,
        AddView::Reading { .. } => r is Output,
        AddView::Selecting { select, .. } => select_accepts(select, r),
        AddView::Removing { remove, .. } => remove_accepts(remove, r),
        AddView::Reverting { select } => select_accepts(select, r),
        AddView::Finished => false,
    }
}

/// One step of an addition: join the network with its password; when asked to connect,
/// read the current network and select the new one; when that does not end on the new
/// network, delete its profile and select the previous network if there was one.
pub open spec fn add_next(s: AddView, iface: Seq<char>, r: ReplyView) -> (
    AddView,
    StepView<Result<(), WifiError>>,
) {
    match s {
        AddView::Start { ssid, psk, connect } => (
            AddView::Adding { ssid, connect },
            StepView::Act(ActionView::Run(join_command(ssid, psk))),
        ),
        AddView::Adding { ssid, connect } => match r {
            ReplyView::Output(Err(e)) => (AddView::Finished, StepView::Done(Err(e))),
            _ => if connect {
                (AddView::Reading { ssid }, StepView::Act(ActionView::Run(current_command(iface))))
            } else {
                (AddView::Finished, StepView::Done(Ok(())))
            },
        },
        AddView::Reading { ssid } => match r {
            ReplyView::Output(Ok(b)) => match current_report(b) {
                Err(e) => (AddView::Finished, StepView::Done(Err(e))),
                Ok(cur) => (
                    AddView::Selecting { ssid, previous: cur, select: SelectView::Listing { ssid } },
                    StepView::Act(ActionView::Run(profiles_command())),
                ),
            },
            ReplyView::Output(Err(e)) => (AddView::Finished, StepView::Done(Err(e))),
            _ => (s, StepView::Done(Ok(()))),
        },
        AddView::Selecting { ssid, previous, select } => {
            let (next, out) = select_next(select, iface, r);
            match out {
                StepView::Act(a) => (
                    AddView::Selecting { ssid, previous, select: next },
                    StepView::Act(a),
                ),
                StepView::Done(Err(e)) => (AddView::Finished, StepView::Done(Err(e))),
                StepView::Done(Ok(true)) => (AddView::Finished, StepView::Done(Ok(()))),
                StepView::Done(Ok(false)) => (
                    AddView::Removing { previous, remove: RemoveView::Listing { ssid } },
                    StepView::Act(ActionView::Run(profiles_command())),
                ),
            }
        },
        AddView::Removing { previous, remove } => {
            let (next, out) = remove_next(remove, r);
            match out {
                StepView::Act(a) => (AddView::Removing { previous, remove: next }, StepView::Act(a)),
                StepView::Done(Err(e)) => (AddView::Finished, StepView::Done(Err(e))),
                StepView::Done(Ok(_)) => match previous {
                    None => (AddView::Finished, StepView::Done(Ok(()))),
                    Some(p) => (
                        AddView::Reverting { select: SelectView::Listing { ssid: p } },
                        StepView::Act(ActionView::Run(profiles_command())),
                    ),
                },
            }
        },
        AddView::Reverting { select } => {
            let (next, out) = select_next(select, iface, r);
            match out {
                StepView::Act(a) => (AddView::Reverting { select: next }, StepView::Act(a)),
                StepView::Done(Err(e)) => (AddView::Finished, StepView::Done(Err(e))),
                StepView::Done(Ok(_)) => (AddView::Finished, StepView::Done(Ok(()))),
            }
        },
        AddView::Finished => (s, StepView::Done(Ok(()))),
    }
}

impl AddProcedure {
    /// Whether the addition waits for `reply` now.
    pub fn accepts(&self, reply: &Reply) -> (res: bool)
        ensures
            res == add_accepts(self@, reply@),
    {
        match self {
            AddProcedure::Start { .. } => matches!(reply, Reply::Begin),
            AddProcedure::Adding { .. } => matches!(reply, Reply::Output(_)),
            AddProcedure::Reading { .. } => matches!(reply, Reply::Output(_)),
            AddProcedure::Selecting { select, .. } => select.accepts(reply),
            AddProcedure::Removing { remove, .. } => remove.accepts(reply),
            AddProcedure::Reverting { select } => select.accepts(reply),
            AddProcedure::Finished => false,
        }
    }

    pub fn step(self, cli: &WpaCli, reply: Reply) -> (res: (AddProcedure, Step<Result<(), WifiError>>))
        requires
            add_accepts(self@, reply@),
        ensures
            (res.0@, res.1@) == add_next(self@, cli.interface@, reply@),
    {
        match self {
            AddProcedure::Start { ssid, psk, priority, connect } => {
                let cmd = cli.add_network(&ssid, &psk, priority);
                (AddProcedure::Adding { ssid, connect }, Step::Act(Action::Run(cmd)))
            },
            AddProcedure::Adding { ssid, connect } => match reply {
                Reply::Output(Err(e)) => (AddProcedure::Finished, Step::Done(Err(e))),
                _ => if connect {
                    (
                        AddProcedure::Reading { ssid },
                        Step::Act(Action::Run(cli.current_network_command())),
                    )
                } else {
                    (AddProcedure::Finished, Step::Done(Ok(())))
                },
            },
            AddProcedure::Reading { ssid } => match reply {
                Reply::Output(Ok(bytes)) => match cli.get_current_network(bytes) {
                    Err(e) => (AddProcedure::Finished, Step::Done(Err(e))),
                    Ok(cur) => {
                        let select = SelectNetwork::Listing { ssid: ssid.clone() };
                        (
                            AddProcedure::Selecting { ssid, previous: cur, select },
                            Step::Act(Action::Run(cli.list_networks_command())),
                        )
                    },
                },
                Reply::Output(Err(e)) => (AddProcedure::Finished, Step::Done(Err(e))),
                _ => (AddProcedure::Finished, Step::Done(Ok(()))),
            },
            AddProcedure::Selecting { ssid, previous, select } => {
                let (next, out) = select.step(cli, reply);
                match out {
                    Step::Act(a) => (
                        AddProcedure::Selecting { ssid, previous, select: next },
                        Step::Act(a),
                    ),
                    Step::Done(Err(e)) => (AddProcedure::Finished, Step::Done(Err(e))),
                    Step::Done(Ok(true)) => (AddProcedure::Finished, Step::Done(Ok(()))),
                    Step::Done(Ok(false)) => (
                        AddProcedure::Removing { previous, remove: RemoveNetwork::Listing { ssid } },
                        Step::Act(Action::Run(cli.list_networks_command())),
                    ),
                }
            },
            AddProcedure::Removing { previous, remove } => {
                let (next, out) = remove.step(cli, reply);
                match out {
                    Step::Act(a) => (AddProcedure::Removing { previous, remove: next }, Step::Act(a)),
                    Step::Done(Err(e)) => (AddProcedure::Finished, Step::Done(Err(e))),
                    Step::Done(Ok(_)) => match previous {
                        None => (AddProcedure::Finished, Step::Done(Ok(()))),
                        Some(p) => (
                            AddProcedure::Reverting { select: SelectNetwork::Listing { ssid: p } },
                            Step::Act(Action::Run(cli.list_networks_command())),
                        ),
                    },
                }
            },
            AddProcedure::Reverting { select } => {
                let (next, out) = select.step(cli, reply);
                match out {
                    Step::Act(a) => (AddProcedure::Reverting { select: next }, Step::Act(a)),
                    Step::Done(Err(e)) => (AddProcedure::Finished, Step::Done(Err(e))),
                    Step::Done(Ok(_)) => (AddProcedure::Finished, Step::Done(Ok(()))),
                }
            },
            AddProcedure::Finished => (AddProcedure::Finished, Step::Done(Ok(()))),
        }
    }
}

// ---------------------------------------------------------------------------------------
// Deleting a network
// ---------------------------------------------------------------------------------------

/// Deleting a network's stored profile, unless the interface is on that network and the
/// wired interface has no address.
#[derive(Debug)]
pub enum DeleteProcedure {
    Start { ssid: Ssid },
    Reading { ssid: Ssid },
    Checking { ssid: Ssid },
    Removing { remove: RemoveNetwork },
    Finished,
}

pub enum DeleteView {
    Start { ssid: Seq<char> },
    Reading { ssid: Seq<char> },
    Checking { ssid: Seq<char> },
    Removing { remove: RemoveView },
    Finished,
}

impl View for DeleteProcedure {
    type V = DeleteView;

    open spec fn view(&self) -> DeleteView {
        match self {
            DeleteProcedure::Start { ssid } => DeleteView::Start { ssid: ssid@ },
            DeleteProcedure::Reading { ssid } => DeleteView::Reading { ssid: ssid@ },
            DeleteProcedure::Checking { ssid } => DeleteView::Checking { ssid: ssid@ },
            DeleteProcedure::Removing { remove } => DeleteView::Removing { remove: remove@ },
            DeleteProcedure::Finished => DeleteView::Finished,
        }
    }
}

/// The wired interface whose address makes it safe to drop the wireless connection.
pub open spec fn wired_interface() -> Seq<char> {
    "eth0"@
}

/// The replies that a deletion in state `s` waits for.
pub open spec fn delete_accepts(s: DeleteView, r: ReplyView) -> bool {
    match s {
        DeleteView::Start { .. } => r is Begin,
        DeleteView::Reading { .. } => r is Output,
        DeleteView::Checking { .. } => r is Output,
        DeleteView::Removing { remove } => remove_accepts(remove, r),
        DeleteView::Finished => false,
    }
}

/// One step of a deletion: read the current network; on no network, delete the profile;
/// on this network, delete it only when the wired interface has an address and refuse
/// otherwise; on another network, do nothing.
pub open spec fn delete_next(s: DeleteView, iface: Seq<char>, r: ReplyView) -> (
    DeleteView,
    StepView<Result<(), WifiError>>,
) {
    match s {
        DeleteView::Start { ssid } => (
            DeleteView::Reading { ssid },
            StepView::Act(ActionView::Run(current_command(iface))),
        ),
        DeleteView::Reading { ssid } => match r {
            ReplyView::Output(Ok(b)) => match current_report(b) {
                Err(e) => (DeleteView::Finished, StepView::Done(Err(e))),
                Ok(None) => (
                    DeleteView::Removing { remove: RemoveView::Listing { ssid } },
                    StepView::Act(ActionView::Run(profiles_command())),
                ),
                Ok(Some(c)) => if c == ssid {
                    (
                        DeleteView::Checking { ssid },
                        StepView::Act(ActionView::Run(address_command(wired_interface()))),
                    )
                } else {
                    (DeleteView::Finished, StepView::Done(Ok(())))
                },
            },
            ReplyView::Output(Err(e)) => (DeleteView::Finished, StepView::Done(Err(e))),
            _ => (s, StepView::Done(Ok(()))),
        },
        DeleteView::Checking { ssid } => match r {
            ReplyView::Output(Ok(b)) => match address_report(b) {
                Err(e) => (DeleteView::Finished, StepView::Done(Err(e))),
                Ok(true) => (
                    DeleteView::Removing { remove: RemoveView::Listing { ssid } },
                    StepView::Act(ActionView::Run(profiles_command())),
                ),
                Ok(false) => (DeleteView::Finished, StepView::Done(Err(WifiError::DeleteWouldDisconnect))),
            },
            ReplyView::Output(Err(e)) => (DeleteView::Finished, StepView::Done(Err(e))),
            _ => (s, StepView::Done(Ok(()))),
        },
        DeleteView::Removing { remove } => {
            let (next, out) = remove_next(remove, r);
            match out {
                StepView::Act(a) => (DeleteView::Removing { remove: next }, StepView::Act(a)),
                StepView::Done(Err(e)) => (DeleteView::Finished, StepView::Done(Err(e))),
                StepView::Done(Ok(_)) => (DeleteView::Finished, StepView::Done(Ok(()))),
            }
        },
        DeleteView::Finished => (s, StepView::Done(Ok(()))),
    }
}

impl DeleteProcedure {
    /// Whether the deletion waits for `reply` now.
    pub fn accepts(&self, reply: &Reply) -> (res: bool)
        ensures
            res == delete_accepts(self@, reply@),
    {
        match self {
            DeleteProcedure::Start { .. } => matches!(reply, Reply::Begin),
            DeleteProcedure::Reading { .. } => matches!(reply, Reply::Output(_)),
            DeleteProcedure::Checking { .. } => matches!(reply, Reply::Output(_)),
            DeleteProcedure::Removing { remove } => remove.accepts(reply),
            DeleteProcedure::Finished => false,
        }
    }

    pub fn step(self, cli: &WpaCli, reply: Reply) -> (res: (DeleteProcedure, Step<Result<(), WifiError>>))
        requires
            delete_accepts(self@, reply@),
        ensures
            (res.0@, res.1@) == delete_next(self@, cli.interface@, reply@),
    {
        match self {
            DeleteProcedure::Start { ssid } => (
                DeleteProcedure::Reading { ssid },
                Step::Act(Action::Run(cli.current_network_command())),
            ),
            DeleteProcedure::Reading { ssid } => match reply {
                Reply::Output(Ok(bytes)) => match cli.get_current_network(bytes) {
                    Err(e) => (DeleteProcedure::Finished, Step::Done(Err(e))),
                    Ok(None) => (
                        DeleteProcedure::Removing { remove: RemoveNetwork::Listing { ssid } },
                        Step::Act(Action::Run(cli.list_networks_command())),
                    ),
                    Ok(Some(current)) => if current.0 == ssid.0 {
                        (
                            DeleteProcedure::Checking { ssid },
                            Step::Act(Action::Run(interface_command("eth0"))),
                        )
                    } else {
                        (DeleteProcedure::Finished, Step::Done(Ok(())))
                    },
                },
                Reply::Output(Err(e)) => (DeleteProcedure::Finished, Step::Done(Err(e))),
                _ => (DeleteProcedure::Finished, Step::Done(Ok(()))),
            },
            DeleteProcedure::Checking { ssid } => match reply {
                Reply::Output(Ok(bytes)) => match crate::wpa::interface_connected(bytes) {
                    Err(e) => (DeleteProcedure::Finished, Step::Done(Err(e))),
                    Ok(true) => (
                        DeleteProcedure::Removing { remove: RemoveNetwork::Listing { ssid } },
                        Step::Act(Action::Run(cli.list_networks_command())),
                    ),
                    Ok(false) => (
                        DeleteProcedure::Finished,
                        Step::Done(Err(WifiError::DeleteWouldDisconnect)),
                    ),
                },
                Reply::Output(Err(e)) => (DeleteProcedure::Finished, Step::Done(Err(e))),
                _ => (DeleteProcedure::Finished, Step::Done(Ok(()))),
            },
            DeleteProcedure::Removing { remove } => {
                let (next, out) = remove.step(cli, reply);
                match out {
                    Step::Act(a) => (DeleteProcedure::Removing { remove: next }, Step::Act(a)),
                    Step::Done(Err(e)) => (DeleteProcedure::Finished, Step::Done(Err(e))),
                    Step::Done(Ok(_)) => (DeleteProcedure::Finished, Step::Done(Ok(()))),
                }
            },
            DeleteProcedure::Finished => (DeleteProcedure::Finished, Step::Done(Ok(()))),
        }
    }
}

} // verus!
