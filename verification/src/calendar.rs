//! Calendar: the stored events, or a sample day when none are stored.
use vstd::prelude::*;
use crate::text::{concat2, lit};

verus! {

broadcast use vstd::string::group_string_axioms;

/// An event of the calendar.
pub struct CalendarEvent {
    pub title: String,
    pub start_time: String,
    pub end_time: String,
    pub is_deep_work_block: bool,
}

impl CalendarEvent {
    pub open spec fn shown(self) -> (Seq<char>, Seq<char>, Seq<char>, bool) {
        (self.title@, self.start_time@, self.end_time@, self.is_deep_work_block)
    }
}

/// The sample day shown before any event is stored, on the date `today`
/// (`%Y-%m-%d`): planning at 08:45, deep work at 09:30, a sync at 14:00.
pub open spec fn sample_day(today: Seq<char>) -> Seq<(Seq<char>, Seq<char>, Seq<char>, bool)> {
    seq![
        ("Morning planning and priority review"@, today + " 08:45"@, today + " 09:15"@, false),
        ("Deep work: overlay command pipeline"@, today + " 09:30"@, today + " 11:30"@, true),
        ("Design sync and sprint updates"@, today + " 14:00"@, today + " 14:45"@, false),
    ]
}

pub open spec fn events_view(v: Seq<CalendarEvent>) -> Seq<(Seq<char>, Seq<char>, Seq<char>, bool)> {
    Seq::new(v.len(), |i: int| v[i].shown())
}

/// The events to show: the stored ones when there are any, else the sample day.
pub fn calendar_events_or_sample(stored: Vec<CalendarEvent>, today: &str) -> (r: Vec<CalendarEvent>)
    ensures
        stored@.len() > 0 ==> r == stored,
        stored@.len() == 0 ==> events_view(r@) == sample_day(today@),
{
    if stored.len() > 0 {
        return stored;
    }
    let r = vec![
        CalendarEvent {
            title: lit("Morning planning and priority review"),
            start_time: concat2(today, " 08:45"),
            end_time: concat2(today, " 09:15"),
            is_deep_work_block: false,
        },
        CalendarEvent {
            title: lit("Deep work: overlay command pipeline"),
            start_time: concat2(today, " 09:30"),
            end_time: concat2(today, " 11:30"),
            is_deep_work_block: true,
        },
        CalendarEvent {
            title: lit("Design sync and sprint updates"),
            start_time: concat2(today, " 14:00"),
            end_time: concat2(today, " 14:45"),
            is_deep_work_block: false,
        },
    ];
    assert(events_view(r@) =~= sample_day(today@));
    r
}

} // verus!
