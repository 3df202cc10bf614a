//! Progress reporting for step execution: the counter and the lines shown.
use crate::text::{dec, owned, push_dec, push_str, same_text};
use vstd::prelude::*;

verus! {

/// The icon shown for a step's status.
pub open spec fn icon_spec(status: Seq<char>) -> Seq<char> {
    if status == "ok"@ {
        "✓"@
    } else if status == "error"@ {
        "✗"@
    } else if status == "skipped"@ {
        "⊘"@
    } else {
        "•"@
    }
}

/// The icon for `status`: a check mark, a cross, a slashed circle for a
/// skipped step, and a dot for anything else.
pub fn status_icon(status: &str) -> (r: &'static str)
    ensures
        r@ == icon_spec(status@),
{
    if same_text(status, "ok") {
        "✓"
    } else if same_text(status, "error") {
        "✗"
    } else if same_text(status, "skipped") {
        "⊘"
    } else {
        "•"
    }
}

/// Counts finished steps and renders one line per step, for verbose mode.
#[derive(Debug)]
pub struct ProgressReporter {
    pub current: usize,
    pub total: usize,
}

/// The line reported for a finished step.
pub open spec fn report_line(current: usize, total: usize, step_name: Seq<char>, status: Seq<
    char,
>) -> Seq<char> {
    "["@ + dec(current as nat) + "/"@ + dec(total as nat) + "] "@ + icon_spec(status) + " "@
        + step_name
}

impl ProgressReporter {
    pub fn new(total: usize) -> (r: Self)
        ensures
            r.current == 0,
            r.total == total,
    {
        ProgressReporter { current: 0, total }
    }

    /// Counts one more finished step (wrapping like an atomic counter) and
    /// returns the line to show for it.
    pub fn report(&mut self, _step_index: usize, step_name: &str, status: &str) -> (line: String)
        ensures
            final(self).total == old(self).total,
            final(self).current == vstd::wrapping::usize_specs::wrapping_add(old(self).current, 1),
            line@ == report_line(final(self).current, final(self).total, step_name@, status@),
    {
        self.current = self.current.wrapping_add(1);
        let mut line = owned("[");
        push_dec(&mut line, self.current as u64);
        push_str(&mut line, "/");
        push_dec(&mut line, self.total as u64);
        push_str(&mut line, "] ");
        push_str(&mut line, status_icon(status));
        push_str(&mut line, " ");
        push_str(&mut line, step_name);
        line
    }
}

} // verus!
