//! What the interface does with each event of a running test: a state machine
//! from the current state and one event to the next state and the actions to
//! perform on the widgets.
use vstd::prelude::*;

use crate::parser::{Event, EventView};
use crate::rate::{Rate, RateView};
use crate::config::ClientConfig;
use crate::text::{decimal, decimal_string, signed_decimal, signed_decimal_string};

verus! {

/// One thing to do on the interface.
#[derive(Debug)]
pub enum UiAction {
    /// Move the meter's needle towards this reading.
    SetTarget(Rate),
    /// Show the live reading in the status line.
    ShowMeasuring(Rate),
    /// Show the final result (send and receive) in the status line.
    ShowResult { sender: Rate, receiver: Rate },
    /// Show this text in the status line.
    SetStatus(String),
    /// Return the needle to zero and clear the retained peak.
    ResetMeter,
    /// Forget the running session.
    ClearSession,
    /// Put the start button back in its idle look, with this label.
    RestoreButton(String),
    /// Stop consuming events.
    StopLoop,
}

/// An action seen as plain values.
pub enum ActionView {
    SetTarget(RateView),
    ShowMeasuring(RateView),
    ShowResult(RateView, RateView),
    SetStatus(Seq<char>),
    ResetMeter,
    ClearSession,
    RestoreButton(Seq<char>),
    StopLoop,
}

impl View for UiAction {
    type V = ActionView;

    open spec fn view(&self) -> ActionView {
        match self {
            UiAction::SetTarget(r) => ActionView::SetTarget(r@),
            UiAction::ShowMeasuring(r) => ActionView::ShowMeasuring(r@),
            UiAction::ShowResult { sender, receiver } => ActionView::ShowResult(sender@, receiver@),
            UiAction::SetStatus(s) => ActionView::SetStatus(s@),
            UiAction::ResetMeter => ActionView::ResetMeter,
            UiAction::ClearSession => ActionView::ClearSession,
            UiAction::RestoreButton(s) => ActionView::RestoreButton(s@),
            UiAction::StopLoop => ActionView::StopLoop,
        }
    }
}

/// A list of actions seen as plain values.
pub open spec fn actions_view(v: Seq<UiAction>) -> Seq<ActionView> {
    v.map_values(|a: UiAction| a@)
}

/// The monitor's state seen as plain values.
pub struct MonitorView {
    pub is_server: bool,
    /// The first error message of the run, kept so that the generic exit
    /// message does not hide it.
    pub first_error: Option<Seq<char>>,
}

pub open spec fn connected_status(peer: Seq<char>) -> Seq<char> {
    "Client connected: "@ + peer + " — measuring…"@
}

pub open spec fn waiting_status() -> Seq<char> {
    "Waiting for client connections…"@
}

/// The label of the idle start button.
pub open spec fn start_label(is_server: bool) -> Seq<char> {
    if is_server {
        "Start server"@
    } else {
        "Start test"@
    }
}

/// The status after an abnormal exit: the first error iperf3 reported, or the
/// exit code.
pub open spec fn exit_status(first_error: Option<Seq<char>>, code: i32) -> Seq<char> {
    match first_error {
        Some(e) => "iperf3 error: "@ + e,
        None => "iperf3 terminated (code "@ + signed_decimal(code as int) + ")."@,
    }
}

/// What one event does: the next state and the actions, in order.
pub open spec fn react(st: MonitorView, ev: EventView) -> (MonitorView, Seq<ActionView>) {
    match ev {
        EventView::Interval(r) => (
            st,
            if st.is_server {
                seq![ActionView::SetTarget(r)]
            } else {
                seq![ActionView::SetTarget(r), ActionView::ShowMeasuring(r)]
            },
        ),
        EventView::Summary(s, r) => (st, seq![ActionView::ShowResult(s, r)]),
        EventView::ClientConnected(peer) => (
            st,
            seq![ActionView::SetStatus(connected_status(peer))],
        ),
        EventView::ClientDisconnected => (st, seq![ActionView::ResetMeter]),
        EventView::Listening => (
            st,
            if st.is_server {
                seq![ActionView::SetStatus(waiting_status())]
            } else {
                Seq::empty()
            },
        ),
        EventView::Error(msg) => (
            MonitorView {
                first_error: if st.first_error is Some {
                    st.first_error
                } else {
                    Some(msg)
                },
                ..st
            },
            seq![ActionView::SetStatus(msg)],
        ),
        EventView::Log(_) => (st, Seq::empty()),
        EventView::Finished(code) => {
            let ending = seq![
                ActionView::ClearSession,
                ActionView::ResetMeter,
                ActionView::RestoreButton(start_label(st.is_server)),
            ];
            (
                st,
                if code != 0 && code != -1 {
                    ending + seq![
                        ActionView::SetStatus(exit_status(st.first_error, code)),
                        ActionView::StopLoop,
                    ]
                } else {
                    ending + seq![ActionView::StopLoop]
                },
            )
        },
    }
}

/// Consumes the events of one run and tells the interface what to do.
pub struct EventMonitor {
    is_server: bool,
    first_error: Option<String>,
}

impl View for EventMonitor {
    type V = MonitorView;

    closed spec fn view(&self) -> MonitorView {
        MonitorView {
            is_server: self.is_server,
            first_error: match self.first_error {
                Some(e) => Some(e@),
                None => None,
            },
        }
    }
}

fn text(s: &str) -> (r: String)
    ensures
        r@ == s@,
{
    String::from_str(s)
}

impl EventMonitor {
    pub fn new(is_server: bool) -> (m: Self)
        ensures
            m@ == (MonitorView { is_server, first_error: None }),
    {
        EventMonitor { is_server, first_error: None }
    }

    /// The actions for one event, in order.
    pub fn handle(&mut self, ev: &Event) -> (out: Vec<UiAction>)
        ensures
            final(self)@ == react(old(self)@, ev@).0,
            actions_view(out@) == react(old(self)@, ev@).1,
    {
        let mut out: Vec<UiAction> = Vec::new();
        match ev {
            Event::Interval { mbps } => {
                out.push(UiAction::SetTarget(mbps.clone()));
                if !self.is_server {
                    out.push(UiAction::ShowMeasuring(mbps.clone()));
                }
            },
            Event::Summary { sender_mbps, receiver_mbps } => {
                out.push(
                    UiAction::ShowResult {
                        sender: sender_mbps.clone(),
                        receiver: receiver_mbps.clone(),
                    },
                );
            },
            Event::ClientConnected { peer } => {
                let mut m = text("Client connected: ");
                m.append(peer.as_str());
                m.append(" — measuring…");
                out.push(UiAction::SetStatus(m));
            },
            Event::ClientDisconnected => {
                out.push(UiAction::ResetMeter);
            },
            Event::Listening => {
                if self.is_server {
                    out.push(UiAction::SetStatus(text("Waiting for client connections…")));
                }
            },
            Event::Error(msg) => {
                // Keep the first error: it is the most informative one.
                if self.first_error.is_none() {
                    self.first_error = Some(msg.clone());
                }
                out.push(UiAction::SetStatus(msg.clone()));
            },
            Event::Log(_) => {},
            Event::Finished(code) => {
                out.push(UiAction::ClearSession);
                out.push(UiAction::ResetMeter);
                let label = if self.is_server {
                    text("Start server")
                } else {
                    text("Start test")
                };
                out.push(UiAction::RestoreButton(label));
                if *code != 0 && *code != -1 {
                    // When iperf3 already gave a reason on its error output,
                    // keep it in view instead of the generic message.
                    let status = match &self.first_error {
                        Some(err) => {
                            let mut m = text("iperf3 error: ");
                            m.append(err.as_str());
                            m
                        },
                        None => {
                            let mut m = text("iperf3 terminated (code ");
                            let n = signed_decimal_string(*code);
                            m.append(n.as_str());
                            m.append(").");
                            m
                        },
                    };
                    out.push(UiAction::SetStatus(status));
                }
                out.push(UiAction::StopLoop);
            },
        }
        assert(actions_view(out@) =~= react(old(self)@, ev@).1);
        out
    }
}

// ---------------------------------------------------------------------------
// The start/stop button
// ---------------------------------------------------------------------------

/// What a click on the start/stop button does.
#[derive(Debug)]
pub enum Click {
    /// Stop the running session, reset the meter, show `status` and put the
    /// button back with `label`.
    Stop { status: String, label: String },
    /// Do not start: show `status`.
    Refuse { status: String },
    /// Reset the meter, start a session, show `status` and label the button
    /// `label`.
    Start { status: String, label: String },
}

/// A click seen as plain values.
pub enum ClickView {
    Stop(Seq<char>, Seq<char>),
    Refuse(Seq<char>),
    Start(Seq<char>, Seq<char>),
}

impl View for Click {
    type V = ClickView;

    open spec fn view(&self) -> ClickView {
        match self {
            Click::Stop { status, label } => ClickView::Stop(status@, label@),
            Click::Refuse { status } => ClickView::Refuse(status@),
            Click::Start { status, label } => ClickView::Start(status@, label@),
        }
    }
}

/// The client page's button: stops a running test; refuses to start without
/// a server; otherwise starts one.
pub open spec fn client_click_spec(running: bool, cfg: ClientConfig) -> ClickView {
    if running {
        ClickView::Stop("Test stopped."@, start_label(false))
    } else if cfg.host@.len() == 0 {
        ClickView::Refuse("Specify a server (host or IP)."@)
    } else {
        ClickView::Start("Connecting…"@, "Stop"@)
    }
}

/// The server page's button: stops a running server, otherwise starts one on
/// `port`.
pub open spec fn server_click_spec(running: bool, port: u16) -> ClickView {
    if running {
        ClickView::Stop("Stopped."@, start_label(true))
    } else {
        ClickView::Start("Listening on port "@ + decimal(port as nat) + "…"@, "Stop server"@)
    }
}

/// What a click on the client page's button does; `running` tells whether a
/// test is in progress.
pub fn client_click(running: bool, cfg: &ClientConfig) -> (c: Click)
    ensures
        c@ == client_click_spec(running, *cfg),
{
    if running {
        Click::Stop { status: text("Test stopped."), label: text("Start test") }
    } else if cfg.host.as_str().is_empty() {
        Click::Refuse { status: text("Specify a server (host or IP).") }
    } else {
        Click::Start { status: text("Connecting…"), label: text("Stop") }
    }
}

/// What a click on the server page's button does; `running` tells whether the
/// server is up.
pub fn server_click(running: bool, port: u16) -> (c: Click)
    ensures
        c@ == server_click_spec(running, port),
{
    if running {
        Click::Stop { status: text("Stopped."), label: text("Start server") }
    } else {
        let mut m = text("Listening on port ");
        let n = decimal_string(port as u64);
        m.append(n.as_str());
        m.append("…");
        Click::Start { status: m, label: text("Stop server") }
    }
}

// ---------------------------------------------------------------------------
// Laws
// ---------------------------------------------------------------------------

/// The first error of a run is kept for good: later errors do not replace it,
/// and the first one is recorded.
pub proof fn law_first_error_is_kept(st: MonitorView, ev: EventView)
    ensures
        st.first_error is Some ==> react(st, ev).0.first_error == st.first_error,
        st.first_error is None ==> (ev matches EventView::Error(m) ==> react(st, ev).0.first_error
            == Some(m)),
        react(st, ev).0.is_server == st.is_server,
{
}

/// Every interval reading moves the meter's needle to it, on the server page as
/// well as on the client page; only the client page also shows it as text.
pub proof fn law_interval_moves_the_needle(st: MonitorView, r: RateView)
    ensures
        react(st, EventView::Interval(r)).1.len() > 0,
        react(st, EventView::Interval(r)).1[0] == ActionView::SetTarget(r),
        (exists|i: int|
            0 <= i < react(st, EventView::Interval(r)).1.len() && #[trigger] react(
                st,
                EventView::Interval(r),
            ).1[i] is ShowMeasuring) <==> !st.is_server,
{
    let acts = react(st, EventView::Interval(r)).1;
    if !st.is_server {
        assert(acts[1] is ShowMeasuring);
    }
}

/// What each event shows: the summary's two readings unchanged; an error's
/// message as the status; a connection's status naming the peer; a finished
/// client's disconnection resets the meter; raw log lines change nothing.
pub proof fn law_events_show_their_content(st: MonitorView, ev: EventView)
    ensures
        ev matches EventView::Summary(s, r) ==> react(st, ev).1 == seq![
            ActionView::ShowResult(s, r),
        ],
        ev matches EventView::Error(m) ==> react(st, ev).1 == seq![ActionView::SetStatus(m)],
        ev matches EventView::ClientConnected(p) ==> (react(st, ev).1.len() == 1 && (react(
            st,
            ev,
        ).1[0] matches ActionView::SetStatus(text) && text.subrange(
            "Client connected: "@.len() as int,
            ("Client connected: "@.len() + p.len()) as int,
        ) == p)),
        ev is ClientDisconnected ==> react(st, ev).1 == seq![ActionView::ResetMeter],
        ev is Log ==> react(st, ev).1.len() == 0 && react(st, ev).0 == st,
        ev is Listening ==> (react(st, ev).1.len() > 0 <==> st.is_server),
{
    if let EventView::ClientConnected(p) = ev {
        let text = connected_status(p);
        let k = "Client connected: "@.len() as int;
        assert(text.subrange(k, k + p.len()) =~= p);
    }
}

/// The monitor's state after a whole run of events.
pub open spec fn react_all(st: MonitorView, evs: Seq<EventView>) -> MonitorView
    decreases evs.len(),
{
    if evs.len() == 0 {
        st
    } else {
        react_all(react(st, evs[0]).0, evs.drop_first())
    }
}

/// The message of the first error event in `evs`, if any.
pub open spec fn first_error_in(evs: Seq<EventView>) -> Option<Seq<char>>
    decreases evs.len(),
{
    if evs.len() == 0 {
        None
    } else if let EventView::Error(m) = evs[0] {
        Some(m)
    } else {
        first_error_in(evs.drop_first())
    }
}

/// Over any run of events, the error kept is the first one of the run (or the
/// one kept before the run started).
pub proof fn law_run_keeps_first_error(st: MonitorView, evs: Seq<EventView>)
    ensures
        st.first_error is Some ==> react_all(st, evs).first_error == st.first_error,
        st.first_error is None ==> react_all(st, evs).first_error == first_error_in(evs),
        react_all(st, evs).is_server == st.is_server,
    decreases evs.len(),
{
    if evs.len() > 0 {
        law_first_error_is_kept(st, evs[0]);
        law_run_keeps_first_error(react(st, evs[0]).0, evs.drop_first());
    }
}

/// Only the end of the process stops the loop, and it always does, after
/// forgetting the session, resetting the meter and restoring the button.
pub proof fn law_finish_ends_the_run(st: MonitorView, ev: EventView)
    ensures
        ({
            let acts = react(st, ev).1;
            (ev is Finished) <==> (acts.len() > 0 && acts.last() is StopLoop)
        }),
        (forall|i: int|
            0 <= i < react(st, ev).1.len() - 1 ==> !(#[trigger] react(st, ev).1[i] is StopLoop)),
        ev is Finished ==> react(st, ev).1[0] is ClearSession && react(st, ev).1[1] is ResetMeter
            && react(st, ev).1[2] == ActionView::RestoreButton(start_label(st.is_server)),
{
}

/// An abnormal exit shows the first error iperf3 reported, when there was one.
pub proof fn law_abnormal_exit_shows_first_error(st: MonitorView, code: i32, e: Seq<char>)
    requires
        code != 0,
        code != -1,
        st.first_error == Some(e),
    ensures
        react(st, EventView::Finished(code)).1[3] == ActionView::SetStatus("iperf3 error: "@ + e),
{
}

/// An idle client page refuses to start exactly when no server is given, and
/// starts otherwise; an idle server page always starts, and its status names
/// the port.
pub proof fn law_idle_click_starts(cfg: ClientConfig, port: u16)
    ensures
        (client_click_spec(false, cfg) is Refuse) <==> cfg.host@.len() == 0,
        (client_click_spec(false, cfg) is Start) <==> cfg.host@.len() > 0,
        server_click_spec(false, port) matches ClickView::Start(text, _) && text.subrange(
            "Listening on port "@.len() as int,
            ("Listening on port "@.len() + decimal(port as nat).len()) as int,
        ) == decimal(port as nat),
{
    let k = "Listening on port "@.len() as int;
    let text = "Listening on port "@ + decimal(port as nat) + "…"@;
    assert(text.subrange(k, k + decimal(port as nat).len()) =~= decimal(port as nat));
}

/// A click on a running page always stops it, whatever the settings, and
/// puts back the same idle label that the end of a run puts back.
pub proof fn law_click_stops_a_running_page(cfg: ClientConfig, port: u16)
    ensures
        client_click_spec(true, cfg) matches ClickView::Stop(_, l) && l == start_label(false),
        server_click_spec(true, port) matches ClickView::Stop(_, l) && l == start_label(true),
{
}

} // verus!
