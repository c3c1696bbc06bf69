//! Messages about the iperf3 process itself: its error output and a failed
//! launch.
use vstd::prelude::*;

use crate::text::{chars_of, is_ws, lemma_trim_piece, match_at, string_of_range, trim, trim_range};

verus! {

/// `s` begins with `prefix`.
pub open spec fn starts_with(s: Seq<char>, prefix: Seq<char>) -> bool {
    match_at(s, prefix, 0)
}

pub open spec fn exiting_line() -> Seq<char> {
    "iperf3: exiting"@
}

pub open spec fn error_prefix() -> Seq<char> {
    "iperf3: error - "@
}

pub open spec fn tool_prefix() -> Seq<char> {
    "iperf3: "@
}

/// What a line of iperf3's error output tells the user: nothing for a blank
/// line or the closing `iperf3: exiting` (which would hide the real reason);
/// otherwise the trimmed line without its noisy `iperf3: error - ` or
/// `iperf3: ` prefix.
pub open spec fn error_message(line: Seq<char>) -> Option<Seq<char>> {
    let t = trim(line);
    if t.len() == 0 || t == exiting_line() {
        None
    } else if starts_with(t, error_prefix()) {
        Some(t.skip(error_prefix().len() as int))
    } else if starts_with(t, tool_prefix()) {
        Some(t.skip(tool_prefix().len() as int))
    } else {
        Some(t)
    }
}

/// Whether `s[lo..hi]` begins with `pat`.
fn range_starts_with(s: &Vec<char>, lo: usize, hi: usize, pat: &Vec<char>) -> (b: bool)
    requires
        lo <= hi <= s.len(),
    ensures
        b == starts_with(s@.subrange(lo as int, hi as int), pat@),
{
    let ghost t = s@.subrange(lo as int, hi as int);
    if pat.len() > hi - lo {
        return false;
    }
    let mut k: usize = 0;
    while k < pat.len()
        invariant
            lo + pat.len() <= hi <= s.len(),
            t == s@.subrange(lo as int, hi as int),
            k <= pat.len(),
            forall|j: int| 0 <= j < k ==> s@[lo + j] == pat@[j],
        decreases pat.len() - k,
    {
        if s[lo + k] != pat[k] {
            assert(t.subrange(0, pat@.len() as int)[k as int] == s@[lo + k]);
            return false;
        }
        k = k + 1;
    }
    assert(t.subrange(0, pat@.len() as int) =~= pat@);
    true
}

/// The message to show for one line of iperf3's error output, if any.
pub fn clean_error_line(line: &str) -> (r: Option<String>)
    ensures
        match (r, error_message(line@)) {
            (Some(m), Some(v)) => m@ == v,
            (None, None) => true,
            _ => false,
        },
{
    let s = chars_of(line);
    let (a, b) = trim_range(&s, 0, s.len());
    let ghost t = s@.subrange(a as int, b as int);
    assert(s@.subrange(0, s@.len() as int) =~= s@);
    let exiting = chars_of("iperf3: exiting");
    let is_exiting = exiting.len() == b - a && range_starts_with(&s, a, b, &exiting);
    assert(is_exiting == (t == exiting_line())) by {
        if t == exiting_line() {
            assert(t.subrange(0, t.len() as int) =~= t);
        }
        if is_exiting {
            assert(t =~= t.subrange(0, exiting@.len() as int));
        }
    }
    if a == b || is_exiting {
        return None;
    }
    let err = chars_of("iperf3: error - ");
    if range_starts_with(&s, a, b, &err) {
        assert(t.skip(err@.len() as int) =~= s@.subrange(a + err@.len(), b as int));
        return Some(string_of_range(&s, a + err.len(), b));
    }
    let tool = chars_of("iperf3: ");
    if range_starts_with(&s, a, b, &tool) {
        assert(t.skip(tool@.len() as int) =~= s@.subrange(a + tool@.len(), b as int));
        return Some(string_of_range(&s, a + tool.len(), b));
    }
    Some(string_of_range(&s, a, b))
}

pub open spec fn not_found_message() -> Seq<char> {
    "iperf3 not found in PATH. Install it (e.g. 'sudo apt install iperf3' or 'sudo dnf install iperf3')."@
}

pub open spec fn launch_failed_prefix() -> Seq<char> {
    "Could not launch iperf3: "@
}

/// The message for a failed launch: installation advice when the program is
/// missing, otherwise the system's reason after a fixed lead-in.
pub open spec fn launch_message(not_found: bool, reason: Seq<char>) -> Seq<char> {
    if not_found {
        not_found_message()
    } else {
        launch_failed_prefix() + reason
    }
}

/// The message for a failed launch of iperf3; `not_found` tells whether the
/// program was missing, `reason` is the system's description of the failure.
pub fn launch_error_message(not_found: bool, reason: &str) -> (m: String)
    ensures
        m@ == launch_message(not_found, reason@),
{
    if not_found {
        String::from_str(
            "iperf3 not found in PATH. Install it (e.g. 'sudo apt install iperf3' or 'sudo dnf install iperf3').",
        )
    } else {
        let mut m = String::from_str("Could not launch iperf3: ");
        m.append(reason);
        m
    }
}

// ---------------------------------------------------------------------------
// Laws
// ---------------------------------------------------------------------------

/// A reported message is never empty, does not end with whitespace, and is the
/// end part of the trimmed line.
pub proof fn law_messages_are_not_blank(line: Seq<char>)
    requires
        error_message(line) is Some,
    ensures
        ({
            let m = error_message(line)->0;
            let t = trim(line);
            &&& m.len() > 0
            &&& !is_ws(m.last())
            &&& m.len() <= t.len() && m == t.skip(t.len() - m.len())
        }),
{
    let t = trim(line);
    lemma_trim_piece(line);
    reveal_strlit("iperf3: error - ");
    reveal_strlit("iperf3: ");
    let m = error_message(line)->0;
    if starts_with(t, error_prefix()) {
        assert(t.subrange(0, 16)[15] == t[15]);
        assert(error_prefix()[15] == ' ');
        assert(t.len() > 16) by {
            if t.len() == 16 {
                assert(t.last() == t[15]);
                assert(is_ws(' '));
            }
        }
        assert(m =~= t.skip(t.len() - m.len()));
        assert(m.last() == t.last());
    } else if starts_with(t, tool_prefix()) {
        assert(t.subrange(0, 8)[7] == t[7]);
        assert(tool_prefix()[7] == ' ');
        assert(t.len() > 8) by {
            if t.len() == 8 {
                assert(t.last() == t[7]);
                assert(is_ws(' '));
            }
        }
        assert(m =~= t.skip(t.len() - m.len()));
        assert(m.last() == t.last());
    } else {
        assert(t.skip(0) =~= t);
    }
}

/// A missing program always gets the same advice, whatever the system said;
/// any other failure shows the system's reason at the end, so different reasons
/// give different messages.
pub proof fn law_launch_message_carries_the_reason(r1: Seq<char>, r2: Seq<char>)
    ensures
        launch_message(true, r1) == launch_message(true, r2),
        launch_message(false, r1).len() >= r1.len(),
        launch_message(false, r1).skip(launch_message(false, r1).len() - r1.len()) == r1,
        r1 != r2 ==> launch_message(false, r1) != launch_message(false, r2),
{
    let m1 = launch_message(false, r1);
    let m2 = launch_message(false, r2);
    assert(m1.skip(m1.len() - r1.len()) =~= r1);
    assert(m2.skip(m2.len() - r2.len()) =~= r2);
    if r1 != r2 && m1 == m2 {
        assert(r1.len() == r2.len());
    }
}

/// The closing `iperf3: exiting` line is never reported.
pub proof fn law_exiting_is_dropped(line: Seq<char>)
    requires
        trim(line) == exiting_line(),
    ensures
        error_message(line) is None,
{
}

/// Lines that do not start with iperf3's own prefix are reported as they are,
/// only trimmed.
pub proof fn law_foreign_lines_kept(line: Seq<char>)
    requires
        trim(line).len() > 0,
        !starts_with(trim(line), tool_prefix()),
    ensures
        error_message(line) == Some(trim(line)),
{
    reveal_strlit("iperf3: error - ");
    reveal_strlit("iperf3: exiting");
    reveal_strlit("iperf3: ");
    let t = trim(line);
    assert(error_prefix().subrange(0, 8) =~= tool_prefix());
    assert(exiting_line().subrange(0, 8) =~= tool_prefix());
    if starts_with(t, error_prefix()) {
        assert(t.subrange(0, 8) =~= t.subrange(0, 16).subrange(0, 8));
        assert(match_at(t, tool_prefix(), 0));
    }
    if t == exiting_line() {
        assert(t.subrange(0, 8) =~= tool_prefix());
        assert(match_at(t, tool_prefix(), 0));
    }
}

} // verus!
