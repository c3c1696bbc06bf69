//! The state machine that turns iperf3's human-readable output, line by line,
//! into events for the interface.
use vstd::prelude::*;

use crate::rate::{line_rate, rate_of_chars, Rate, RateView};
use crate::text::{
    chars_of, contains, contains_chars, find, find_chars, is_ws, lemma_find_from, lemma_trim_piece,
    match_at, string_of_range, trim, trim_range, trim_start,
};

verus! {

/// What the output reader reports to the interface.
#[derive(Debug)]
pub enum Event {
    /// Throughput reading of one interval.
    Interval { mbps: Rate },
    /// Final test summary (send and receive).
    Summary { sender_mbps: Rate, receiver_mbps: Rate },
    /// (Server) a client just connected.
    ClientConnected { peer: String },
    /// (Server) the client's test ended.
    ClientDisconnected,
    /// The server is listening and free.
    Listening,
    /// Raw output line.
    Log(String),
    /// Error message (stderr or launch failure).
    Error(String),
    /// The process terminated with the given code.
    Finished(i32),
}

/// An event seen as plain values.
pub enum EventView {
    Interval(RateView),
    Summary(RateView, RateView),
    ClientConnected(Seq<char>),
    ClientDisconnected,
    Listening,
    Log(Seq<char>),
    Error(Seq<char>),
    Finished(i32),
}

impl View for Event {
    type V = EventView;

    open spec fn view(&self) -> EventView {
        match self {
            Event::Interval { mbps } => EventView::Interval(mbps@),
            Event::Summary { sender_mbps, receiver_mbps } => EventView::Summary(
                sender_mbps@,
                receiver_mbps@,
            ),
            Event::ClientConnected { peer } => EventView::ClientConnected(peer@),
            Event::ClientDisconnected => EventView::ClientDisconnected,
            Event::Listening => EventView::Listening,
            Event::Log(s) => EventView::Log(s@),
            Event::Error(s) => EventView::Error(s@),
            Event::Finished(c) => EventView::Finished(*c),
        }
    }
}

impl Clone for Event {
    fn clone(&self) -> (r: Self)
        ensures
            r@ == self@,
    {
        match self {
            Event::Interval { mbps } => Event::Interval { mbps: mbps.clone() },
            Event::Summary { sender_mbps, receiver_mbps } => Event::Summary {
                sender_mbps: sender_mbps.clone(),
                receiver_mbps: receiver_mbps.clone(),
            },
            Event::ClientConnected { peer } => Event::ClientConnected { peer: peer.clone() },
            Event::ClientDisconnected => Event::ClientDisconnected,
            Event::Listening => Event::Listening,
            Event::Log(s) => Event::Log(s.clone()),
            Event::Error(s) => Event::Error(s.clone()),
            Event::Finished(c) => Event::Finished(*c),
        }
    }
}

/// A list of events seen as plain values.
pub open spec fn events_view(v: Seq<Event>) -> Seq<EventView> {
    v.map_values(|e: Event| e@)
}

pub open spec fn rate_opt_view(r: Option<Rate>) -> Option<RateView> {
    match r {
        Some(x) => Some(x@),
        None => None,
    }
}

/// The parser's state seen as plain values.
pub struct ParserView {
    pub is_server: bool,
    /// A `[SUM]` line was seen in the current session.
    pub seen_sum: bool,
    /// (Server) a client test is in progress.
    pub client_active: bool,
    pub pending_sender: Option<RateView>,
    pub pending_receiver: Option<RateView>,
}

// ---------------------------------------------------------------------------
// The markers iperf3 prints
// ---------------------------------------------------------------------------

pub open spec fn accepted_marker() -> Seq<char> {
    "Accepted connection from"@
}

pub open spec fn listening_marker() -> Seq<char> {
    "Server listening"@
}

pub open spec fn sender_marker() -> Seq<char> {
    "sender"@
}

pub open spec fn receiver_marker() -> Seq<char> {
    "receiver"@
}

pub open spec fn sum_marker() -> Seq<char> {
    "[SUM]"@
}

pub open spec fn header_marker() -> Seq<char> {
    "[ ID]"@
}

// ---------------------------------------------------------------------------
// The transition
// ---------------------------------------------------------------------------

/// The peer address in an `Accepted connection from <addr>, port <n>` line whose
/// marker starts at `idx`: the text after the marker, trimmed, up to the first
/// comma, trimmed again.
pub open spec fn peer_of(line: Seq<char>, idx: int) -> Seq<char> {
    let t = trim(line.skip(idx + accepted_marker().len()));
    let field = match find(t, seq![',']) {
        Some(c) => t.take(c),
        None => t,
    };
    trim(field)
}

/// The line starts, after whitespace, with `[` (a per-stream or `[SUM]` line).
pub open spec fn starts_with_bracket(line: Seq<char>) -> bool {
    trim_start(line).len() > 0 && trim_start(line)[0] == '['
}

/// A measurement line is parsed when it is a `[SUM]` line, or a per-stream line
/// (not the `[ ID]` header) while no `[SUM]` line has been seen.
pub open spec fn wanted(st: ParserView, line: Seq<char>) -> bool {
    contains(line, sum_marker()) || (starts_with_bracket(line) && !contains(line, header_marker())
        && !st.seen_sum)
}

/// A summary line: it names the sender or the receiver.
pub open spec fn is_summary_line(line: Seq<char>) -> bool {
    contains(line, sender_marker()) || contains(line, receiver_marker())
}

/// What a measurement line (not a connection line) does.
pub open spec fn measurement_step(st: ParserView, line: Seq<char>) -> (ParserView, Seq<EventView>) {
    let st1 = ParserView { seen_sum: st.seen_sum || contains(line, sum_marker()), ..st };
    if !wanted(st, line) {
        (st1, Seq::empty())
    } else {
        match line_rate(line) {
            None => (st1, Seq::empty()),
            Some(r) => if is_summary_line(line) {
                let sender = if contains(line, sender_marker()) {
                    Some(r)
                } else {
                    st.pending_sender
                };
                if contains(line, receiver_marker()) {
                    let sent = match sender {
                        Some(x) => x,
                        None => r,
                    };
                    let ends_client = st.is_server && st.client_active;
                    (
                        ParserView {
                            pending_sender: sender,
                            pending_receiver: Some(r),
                            client_active: st.client_active && !ends_client,
                            ..st1
                        },
                        if ends_client {
                            seq![EventView::Summary(sent, r), EventView::ClientDisconnected]
                        } else {
                            seq![EventView::Summary(sent, r)]
                        },
                    )
                } else {
                    (ParserView { pending_sender: sender, ..st1 }, Seq::empty())
                }
            } else {
                (st1, seq![EventView::Interval(r)])
            },
        }
    }
}

/// What feeding one line does: the next state and the events emitted.
pub open spec fn step(st: ParserView, line: Seq<char>) -> (ParserView, Seq<EventView>) {
    if st.is_server && find(line, accepted_marker()) is Some {
        (
            ParserView {
                seen_sum: false,
                client_active: true,
                pending_sender: None,
                pending_receiver: None,
                ..st
            },
            seq![EventView::ClientConnected(peer_of(line, find(line, accepted_marker())->0))],
        )
    } else if st.is_server && contains(line, listening_marker()) {
        (
            ParserView { client_active: false, ..st },
            if st.client_active {
                seq![EventView::ClientDisconnected, EventView::Listening]
            } else {
                seq![EventView::Listening]
            },
        )
    } else {
        measurement_step(st, line)
    }
}

/// State machine that turns iperf3 text lines into `Event`s.
pub struct OutputParser {
    is_server: bool,
    /// Set on the first `[SUM]` line of the session. From then on the aggregate
    /// lines are preferred and the per-stream lines ignored, so nothing is
    /// counted twice. Reset with each new connection on the server.
    seen_sum: bool,
    /// (Server) whether a client test is in progress.
    client_active: bool,
    /// Best estimate of the summary, emitted at the end.
    pending_sender: Option<Rate>,
    pending_receiver: Option<Rate>,
}

impl View for OutputParser {
    type V = ParserView;

    closed spec fn view(&self) -> ParserView {
        ParserView {
            is_server: self.is_server,
            seen_sum: self.seen_sum,
            client_active: self.client_active,
            pending_sender: rate_opt_view(self.pending_sender),
            pending_receiver: rate_opt_view(self.pending_receiver),
        }
    }
}

/// The first comma in `s[lo..hi]`, as `find` on that piece states it.
fn comma_in(s: &Vec<char>, lo: usize, hi: usize) -> (r: usize)
    requires
        lo <= hi <= s.len(),
    ensures
        lo <= r <= hi,
        match find(s@.subrange(lo as int, hi as int), seq![',']) {
            Some(c) => r == lo + c,
            None => r == hi,
        },
{
    let ghost t = s@.subrange(lo as int, hi as int);
    let mut c = lo;
    while c < hi && s[c] != ','
        invariant
            lo <= c <= hi <= s.len(),
            t == s@.subrange(lo as int, hi as int),
            forall|j: int| lo <= j < c ==> s@[j] != ',',
        decreases hi - c,
    {
        c = c + 1;
    }
    proof {
        lemma_find_from(t, seq![','], 0);
        assert forall|j: int| 0 <= j < c - lo implies !#[trigger] match_at(t, seq![','], j) by {
            if match_at(t, seq![','], j) {
                assert(t.subrange(j, j + 1)[0] == t[j]);
                assert(t[j] == s@[lo + j]);
            }
        }
        if c < hi {
            assert(t.subrange(c - lo, c - lo + 1) =~= seq![',']);
            assert(match_at(t, seq![','], c - lo));
        } else {
            assert forall|j: int| 0 <= j implies !#[trigger] match_at(t, seq![','], j) by {
                if j < c - lo {
                } else {
                    assert(j + 1 > t.len());
                }
            }
        }
    }
    c
}

impl OutputParser {
    pub fn new(is_server: bool) -> (p: Self)
        ensures
            p@ == (ParserView {
                is_server,
                seen_sum: false,
                client_active: false,
                pending_sender: None,
                pending_receiver: None,
            }),
    {
        OutputParser {
            is_server,
            seen_sum: false,
            client_active: false,
            pending_sender: None,
            pending_receiver: None,
        }
    }

    /// Feeds one output line; returns the events it produces.
    pub fn feed(&mut self, line: &str) -> (out: Vec<Event>)
        ensures
            final(self)@ == step(old(self)@, line@).0,
            events_view(out@) == step(old(self)@, line@).1,
    {
        let s = chars_of(line);
        let mut out: Vec<Event> = Vec::new();

        // --- Client connection (server side) ---
        if self.is_server {
            let accepted = chars_of("Accepted connection from");
            if let Some(idx) = find_chars(&s, &accepted) {
                proof {
                    lemma_find_from(s@, accepted@, 0);
                }
                let (a, b) = trim_range(&s, idx + accepted.len(), s.len());
                let c = comma_in(&s, a, b);
                let (p, q) = trim_range(&s, a, c);
                proof {
                    let t = s@.subrange(a as int, b as int);
                    assert(s@.skip(idx + accepted@.len()) =~= s@.subrange(
                        idx + accepted@.len(),
                        s@.len() as int,
                    ));
                    match find(t, seq![',']) {
                        Some(k) => {
                            assert(t.take(k) =~= s@.subrange(a as int, c as int));
                        },
                        None => {
                            assert(t =~= s@.subrange(a as int, c as int));
                        },
                    }
                }
                let peer = string_of_range(&s, p, q);
                self.client_active = true;
                self.seen_sum = false;
                self.pending_sender = None;
                self.pending_receiver = None;
                out.push(Event::ClientConnected { peer });
                assert(events_view(out@) =~= step(old(self)@, line@).1);
                return out;
            }
            let listening = chars_of("Server listening");
            if contains_chars(&s, &listening) {
                if self.client_active {
                    self.client_active = false;
                    out.push(Event::ClientDisconnected);
                }
                out.push(Event::Listening);
                assert(events_view(out@) =~= step(old(self)@, line@).1);
                return out;
            }
        }
        let sender = chars_of("sender");
        let receiver = chars_of("receiver");
        let sum = chars_of("[SUM]");
        let header = chars_of("[ ID]");
        let has_sender = contains_chars(&s, &sender);
        let has_receiver = contains_chars(&s, &receiver);
        let is_summary = has_sender || has_receiver;
        let is_sum_line = contains_chars(&s, &sum);
        let was_seen = self.seen_sum;
        if is_sum_line {
            self.seen_sum = true;
        }
        // Prefer `[SUM]` lines once the session uses them; otherwise the
        // per-stream `[  N]` lines.
        let parse_this = if is_sum_line {
            true
        } else {
            let (a, _b) = trim_range(&s, 0, s.len());
            assert(s@.subrange(0, s@.len() as int) =~= s@);
            let bracket = a < s.len() && s[a] == '[';
            assert(bracket == starts_with_bracket(s@)) by {
                if a < s.len() {
                    assert(trim_start(s@)[0] == s@[a as int]);
                }
            }
            bracket && !contains_chars(&s, &header) && !was_seen
        };
        if !parse_this {
            assert(events_view(out@) =~= step(old(self)@, line@).1);
            return out;
        }
        let mbps = match rate_of_chars(&s) {
            Some(r) => r,
            None => {
                assert(events_view(out@) =~= step(old(self)@, line@).1);
                return out;
            },
        };
        if is_summary {
            if has_sender {
                self.pending_sender = Some(mbps.clone());
            }
            if has_receiver {
                self.pending_receiver = Some(mbps.clone());
                // The receiver line is the last one of the summary: emit it.
                let sent = match &self.pending_sender {
                    Some(x) => x.clone(),
                    None => mbps.clone(),
                };
                out.push(Event::Summary { sender_mbps: sent, receiver_mbps: mbps });
                if self.is_server && self.client_active {
                    self.client_active = false;
                    out.push(Event::ClientDisconnected);
                }
            }
        } else {
            // Live interval: drives the needle.
            out.push(Event::Interval { mbps });
        }
        assert(events_view(out@) =~= step(old(self)@, line@).1);
        out
    }
}

// ---------------------------------------------------------------------------
// Laws
// ---------------------------------------------------------------------------

/// A connection-control line for this parser: on a server, the
/// `Accepted connection from` and `Server listening` lines.
pub open spec fn is_control_line(st: ParserView, line: Seq<char>) -> bool {
    st.is_server && (contains(line, accepted_marker()) || contains(line, listening_marker()))
}

/// Feeding a sequence of lines, one after another: the final state and all
/// events, in order.
pub open spec fn run(st: ParserView, lines: Seq<Seq<char>>) -> (ParserView, Seq<EventView>)
    decreases lines.len(),
{
    if lines.len() == 0 {
        (st, Seq::empty())
    } else {
        let (mid, first) = step(st, lines[0]);
        let (last, rest) = run(mid, lines.drop_first());
        (last, first + rest)
    }
}

/// Whether the parser runs as a server never changes.
pub proof fn law_role_is_kept(st: ParserView, line: Seq<char>)
    ensures
        step(st, line).0.is_server == st.is_server,
{
}

/// Once a `[SUM]` line has been seen, a per-stream line (any line that is
/// neither a `[SUM]` line nor a connection-control line) yields no event and
/// leaves the state as it was: aggregate readings are never counted twice.
pub proof fn law_sum_lines_win(st: ParserView, line: Seq<char>)
    requires
        st.seen_sum,
        !contains(line, sum_marker()),
        !is_control_line(st, line),
    ensures
        step(st, line).1.len() == 0,
        step(st, line).0 == st,
{
}

/// A new connection on the server starts a fresh session: no `[SUM]` seen, no
/// pending summary, a client in progress, and one `ClientConnected` event.
pub proof fn law_connection_resets(st: ParserView, line: Seq<char>)
    requires
        st.is_server,
        contains(line, accepted_marker()),
    ensures
        step(st, line).0 == (ParserView {
            is_server: true,
            seen_sum: false,
            client_active: true,
            pending_sender: None,
            pending_receiver: None,
        }),
        step(st, line).1.len() == 1,
        step(st, line).1[0] is ClientConnected,
{
}

/// `ClientDisconnected` is emitted only while a client is in progress, then the
/// client is over, and never twice for one line.
pub proof fn law_disconnect_once(st: ParserView, line: Seq<char>, i: int)
    requires
        0 <= i < step(st, line).1.len(),
        step(st, line).1[i] is ClientDisconnected,
    ensures
        st.is_server,
        st.client_active,
        !step(st, line).0.client_active,
        forall|j: int|
            0 <= j < step(st, line).1.len() && j != i ==> !(step(st, line).1[j] is ClientDisconnected),
{
}

/// Every reading that an event carries is the reading of the line just fed.
pub proof fn law_readings_come_from_the_line(st: ParserView, line: Seq<char>, i: int)
    requires
        0 <= i < step(st, line).1.len(),
    ensures
        step(st, line).1[i] matches EventView::Interval(r) ==> line_rate(line) == Some(r),
        step(st, line).1[i] matches EventView::Summary(_, r) ==> line_rate(line) == Some(r)
            && contains(line, receiver_marker()),
{
}

/// The aggregate receiver line of a multi-stream run always yields the summary,
/// whatever the state: the first event is a `Summary` whose receiver reading is
/// the line's reading.
pub proof fn law_sum_receiver_line_gives_summary(st: ParserView, line: Seq<char>)
    requires
        contains(line, sum_marker()),
        contains(line, receiver_marker()),
        line_rate(line) is Some,
        !is_control_line(st, line),
    ensures
        step(st, line).1.len() > 0,
        step(st, line).1[0] matches EventView::Summary(_, r) && r == line_rate(line)->0,
{
}

/// The summary pairs the sender reading seen on an earlier line with the
/// receiver reading: a `[SUM]` sender line followed by a `[SUM]` receiver line
/// gives one summary of both readings.
pub proof fn law_summary_pairs_sender_and_receiver(
    st: ParserView,
    sender_line: Seq<char>,
    receiver_line: Seq<char>,
)
    requires
        contains(sender_line, sum_marker()),
        contains(sender_line, sender_marker()),
        !contains(sender_line, receiver_marker()),
        line_rate(sender_line) is Some,
        !is_control_line(st, sender_line),
        contains(receiver_line, sum_marker()),
        contains(receiver_line, receiver_marker()),
        !contains(receiver_line, sender_marker()),
        line_rate(receiver_line) is Some,
        !is_control_line(st, receiver_line),
    ensures
        step(st, sender_line).1.len() == 0,
        step(step(st, sender_line).0, receiver_line).1[0] == EventView::Summary(
            line_rate(sender_line)->0,
            line_rate(receiver_line)->0,
        ),
{
}

/// Before any `[SUM]` line, a per-stream measurement line (starting with `[`,
/// not the `[ ID]` header, naming neither sender nor receiver) yields exactly
/// one interval event carrying the line's reading.
pub proof fn law_stream_line_gives_interval(st: ParserView, line: Seq<char>)
    requires
        !st.seen_sum,
        starts_with_bracket(line),
        !contains(line, header_marker()),
        !contains(line, sender_marker()),
        !contains(line, receiver_marker()),
        line_rate(line) is Some,
        !is_control_line(st, line),
    ensures
        step(st, line).1 == seq![EventView::Interval(line_rate(line)->0)],
{
}

/// A `[SUM]` line naming neither sender nor receiver yields exactly one interval
/// event carrying the line's reading, whatever was seen before.
pub proof fn law_sum_line_gives_interval(st: ParserView, line: Seq<char>)
    requires
        contains(line, sum_marker()),
        !contains(line, sender_marker()),
        !contains(line, receiver_marker()),
        line_rate(line) is Some,
        !is_control_line(st, line),
    ensures
        step(st, line).1 == seq![EventView::Interval(line_rate(line)->0)],
        step(st, line).0.seen_sum,
{
}

/// On a server, `Server listening` announces the free server last, after
/// closing a client still in progress, and leaves no client in progress.
pub proof fn law_listening_frees_the_server(st: ParserView, line: Seq<char>)
    requires
        st.is_server,
        contains(line, listening_marker()),
        !contains(line, accepted_marker()),
    ensures
        step(st, line).1.len() == (if st.client_active {
            2int
        } else {
            1int
        }),
        step(st, line).1.last() is Listening,
        st.client_active ==> step(st, line).1[0] is ClientDisconnected,
        !step(st, line).0.client_active,
{
}

/// The peer address of a connection holds no comma and does not start or end
/// with whitespace.
pub proof fn law_peer_is_clean(st: ParserView, line: Seq<char>)
    requires
        st.is_server,
        contains(line, accepted_marker()),
    ensures
        step(st, line).1[0] matches EventView::ClientConnected(peer) && (forall|i: int|
            0 <= i < peer.len() ==> #[trigger] peer[i] != ',') && (peer.len() > 0 ==> !is_ws(
            peer[0],
        ) && !is_ws(peer.last())),
{
    let idx = find(line, accepted_marker())->0;
    let t = trim(line.skip(idx + accepted_marker().len()));
    let field = match find(t, seq![',']) {
        Some(c) => t.take(c),
        None => t,
    };
    lemma_find_from(t, seq![','], 0);
    assert forall|j: int| 0 <= j < field.len() implies #[trigger] field[j] != ',' by {
        if field[j] == ',' {
            assert(t[j] == ',');
            assert(t.subrange(j, j + 1) =~= seq![',']);
            assert(match_at(t, seq![','], j));
        }
    }
    let peer = trim(field);
    lemma_trim_piece(field);
    let i = choose|i: int|
        0 <= i && i + peer.len() <= field.len() && #[trigger] field.subrange(i, i + peer.len())
            == peer;
    assert forall|k: int| 0 <= k < peer.len() implies #[trigger] peer[k] != ',' by {
        assert(peer[k] == field.subrange(i, i + peer.len())[k]);
        assert(field[i + k] != ',');
    }
    assert(peer_of(line, idx) == peer);
}

/// The `[SUM]` flag only goes from unset to set, except when a new client
/// connects.
pub proof fn law_sum_flag_is_monotone(st: ParserView, line: Seq<char>)
    requires
        !is_control_line(st, line),
    ensures
        st.seen_sum ==> step(st, line).0.seen_sum,
        contains(line, sum_marker()) ==> step(st, line).0.seen_sum,
{
}

/// A client-side parser fed any sequence of lines emits only interval and
/// summary events, and stays a client.
pub proof fn law_client_emits_only_measurements(st: ParserView, lines: Seq<Seq<char>>)
    requires
        !st.is_server,
    ensures
        !run(st, lines).0.is_server,
        forall|i: int|
            0 <= i < run(st, lines).1.len() ==> (#[trigger] run(st, lines).1[i] is Interval
                || run(st, lines).1[i] is Summary),
    decreases lines.len(),
{
    if lines.len() > 0 {
        let (mid, first) = step(st, lines[0]);
        law_client_emits_only_measurements(mid, lines.drop_first());
        let rest = run(mid, lines.drop_first()).1;
        assert forall|i: int| 0 <= i < run(st, lines).1.len() implies (#[trigger] run(
            st,
            lines,
        ).1[i] is Interval || run(st, lines).1[i] is Summary) by {
            if i < first.len() {
                assert(run(st, lines).1[i] == first[i]);
            } else {
                assert(run(st, lines).1[i] == rest[i - first.len()]);
            }
        }
    }
}

/// After a `[SUM]` line, a whole run of per-stream lines (no `[SUM]`, no
/// connection-control line) yields nothing and changes nothing.
pub proof fn law_sum_lines_win_over_runs(st: ParserView, lines: Seq<Seq<char>>)
    requires
        st.seen_sum,
        forall|i: int|
            0 <= i < lines.len() ==> !contains(#[trigger] lines[i], sum_marker())
                && !is_control_line(st, lines[i]),
    ensures
        run(st, lines).0 == st,
        run(st, lines).1.len() == 0,
    decreases lines.len(),
{
    if lines.len() > 0 {
        law_sum_lines_win(st, lines[0]);
        assert forall|i: int| 0 <= i < lines.drop_first().len() implies !contains(
            #[trigger] lines.drop_first()[i],
            sum_marker(),
        ) && !is_control_line(st, lines.drop_first()[i]) by {
            assert(lines.drop_first()[i] == lines[i + 1]);
        }
        law_sum_lines_win_over_runs(st, lines.drop_first());
    }
}

} // verus!
