//! The assignee-tracking fold: the highest number of simultaneous
//! assignees over an issue's timeline of assignment events.

use vstd::prelude::*;

verus! {

/// One timeline event: someone was assigned or unassigned.
#[derive(Debug, Clone, Copy, PartialEq, Eq, Structural)]
pub enum AssigneeEvent {
    Assigned,
    Unassigned,
}

/// The running assignee count after the first `i` events, starting at zero:
/// an assignment adds one, an unassignment takes one away.
pub open spec fn count_after(events: Seq<AssigneeEvent>, i: int) -> int
    decreases i,
{
    if i <= 0 {
        0
    } else {
        count_after(events, i - 1) + (match events[i - 1] {
            AssigneeEvent::Assigned => 1int,
            AssigneeEvent::Unassigned => -1int,
        })
    }
}

/// The highest running count seen within the first `i` events (at least
/// zero, the starting count).
pub open spec fn max_count(events: Seq<AssigneeEvent>, i: int) -> int
    decreases i,
{
    if i <= 0 {
        0
    } else {
        let prev = max_count(events, i - 1);
        let cur = count_after(events, i);
        if cur > prev {
            cur
        } else {
            prev
        }
    }
}

proof fn lemma_count_bounds(events: Seq<AssigneeEvent>, i: int)
    requires
        0 <= i <= events.len(),
    ensures
        -i <= count_after(events, i) <= i,
        0 <= max_count(events, i) <= i,
    decreases i,
{
    if i > 0 {
        lemma_count_bounds(events, i - 1);
    }
}

/// Computes the highest number of simultaneous assignees over a timeline of
/// assignment events.
pub fn max_assignees(events: &Vec<AssigneeEvent>) -> (r: i64)
    requires
        events@.len() <= i64::MAX,
    ensures
        r == max_count(events@, events@.len() as int),
{
    let mut count: i64 = 0;
    let mut maxcount: i64 = 0;
    let mut i: usize = 0;
    while i < events.len()
        invariant
            i <= events@.len(),
            events@.len() <= i64::MAX,
            count == count_after(events@, i as int),
            maxcount == max_count(events@, i as int),
            -(i as int) <= count <= i as int,
            0 <= maxcount <= i as int,
        decreases events@.len() - i,
    {
        match events[i] {
            AssigneeEvent::Assigned => {
                count = count + 1;
            },
            AssigneeEvent::Unassigned => {
                count = count - 1;
            },
        }
        if count > maxcount {
            maxcount = count;
        }
        i += 1;
    }
    maxcount
}

} // verus!
