//! The texts that the scheduler sends: the listing of the queue and the
//! announcement of an event.

use crate::store::{event_views, DailyEvent, EventModel};
use crate::text::{decimal, join, joined, push_decimal};
use vstd::prelude::*;
use vstd::string::StringExecFns;

verus! {

/// The mention of a user.
pub open spec fn mention(user: u64) -> Seq<char> {
    "<@"@ + decimal(user as nat) + ">"@
}

/// The mentions of `subscribers`, in order.
pub open spec fn mentions(subscribers: Seq<u64>) -> Seq<Seq<char>> {
    subscribers.map_values(|user: u64| mention(user))
}

/// The mentions of `subscribers` with `sep` between them, or `none` where
/// there is no subscriber.
pub open spec fn mention_line(subscribers: Seq<u64>, sep: Seq<char>, none: Seq<char>) -> Seq<char> {
    if subscribers.len() == 0 {
        none
    } else {
        joined(mentions(subscribers), sep)
    }
}

/// The text `t`, or `none` where there is no text.
pub open spec fn text_or(t: Option<Seq<char>>, none: Seq<char>) -> Seq<char> {
    match t {
        Some(s) => s,
        None => none,
    }
}

/// The entry of an event in the listing of the queue.
pub open spec fn listing(e: EventModel) -> Seq<char> {
    "Event: "@ + e.name + "\nID: "@ + decimal(e.id as nat) + "\nMessage: "@ + text_or(
        e.message,
        "No Message"@,
    ) + "\nTime: "@ + e.timestamp.text() + "\nSubscribers: "@ + mention_line(
        e.subscribers,
        ", "@,
        "No Subscribers"@,
    ) + "\nCommand: "@ + text_or(e.command, "No Command"@) + "\nDate: "@ + e.date.text()
        + "\nInterval: "@ + e.interval.name() + "\n\n"@
}

/// The listing of a queue: the entries of its events, an empty line between
/// each two of them.
pub open spec fn listings(events: Seq<EventModel>) -> Seq<char> {
    joined(events.map_values(|e: EventModel| listing(e)), "\n\n"@)
}

/// The announcement of an event: its name in bold, its message, and the
/// mentions of its subscribers, one to a line.
pub open spec fn announcement(e: EventModel) -> Seq<char> {
    "**"@ + e.name + "**\n"@ + text_or(e.message, "---"@) + "\n"@ + mention_line(
        e.subscribers,
        "\n"@,
        "---"@,
    )
}

/// The mention of a user.
pub fn mention_text(user: u64) -> (out: String)
    ensures
        out@ == mention(user),
{
    let mut out: String = String::new();
    out.append("<@");
    push_decimal(&mut out, user);
    out.append(">");
    assert(out@ =~= mention(user));
    out
}

/// The mentions of `subscribers` with `sep` between them, or `none` where
/// there is no subscriber.
pub fn mention_list(subscribers: &Vec<u64>, sep: &str, none: &str) -> (out: String)
    ensures
        out@ == mention_line(subscribers@, sep@, none@),
{
    if subscribers.len() == 0 {
        return none.to_owned();
    }
    let mut parts: Vec<String> = Vec::new();
    let mut i: usize = 0;
    while i < subscribers.len()
        invariant
            i <= subscribers.len(),
            parts@.len() == i,
            forall|k: int| 0 <= k < i ==> parts@[k]@ == mention(subscribers@[k]),
        decreases subscribers.len() - i,
    {
        parts.push(mention_text(subscribers[i]));
        i += 1;
    }
    assert(parts.deep_view() =~= mentions(subscribers@));
    join(&parts, sep)
}

/// Appends `t`, or `none` where there is no text.
fn push_text_or(out: &mut String, t: &Option<String>, none: &str)
    ensures
        final(out)@ == old(out)@ + text_or(crate::store::text_view(*t), none@),
{
    match t {
        Some(s) => out.append(s.as_str()),
        None => out.append(none),
    }
}

/// The entry of an event in the listing of the queue.
pub fn formatEvent(event: &DailyEvent) -> (out: String)
    ensures
        out@ == listing(event@),
{
    let mut out: String = String::new();
    out.append("Event: ");
    out.append(event.name.as_str());
    out.append("\nID: ");
    push_decimal(&mut out, event.id);
    out.append("\nMessage: ");
    push_text_or(&mut out, &event.message, "No Message");
    out.append("\nTime: ");
    out.append(event.timestamp.to_text().as_str());
    out.append("\nSubscribers: ");
    out.append(mention_list(&event.subscribers, ", ", "No Subscribers").as_str());
    out.append("\nCommand: ");
    push_text_or(&mut out, &event.command, "No Command");
    out.append("\nDate: ");
    out.append(event.date.to_text().as_str());
    out.append("\nInterval: ");
    out.append(event.interval.label());
    out.append("\n\n");
    assert(out@ =~= listing(event@));
    out
}

/// The listing of a queue.
pub fn formatEvents(events: &[DailyEvent]) -> (out: String)
    ensures
        out@ == listings(event_views(events@)),
{
    let mut parts: Vec<String> = Vec::new();
    let mut i: usize = 0;
    while i < events.len()
        invariant
            i <= events.len(),
            parts@.len() == i,
            forall|k: int| 0 <= k < i ==> parts@[k]@ == listing(events@[k]@),
        decreases events.len() - i,
    {
        parts.push(formatEvent(&events[i]));
        i += 1;
    }
    assert(parts.deep_view() =~= event_views(events@).map_values(|e: EventModel| listing(e)));
    join(&parts, "\n\n")
}

/// The announcement of an event.
pub fn announce(event: &DailyEvent) -> (out: String)
    ensures
        out@ == announcement(event@),
{
    let mut out: String = String::new();
    out.append("**");
    out.append(event.name.as_str());
    out.append("**\n");
    push_text_or(&mut out, &event.message, "---");
    out.append("\n");
    out.append(mention_list(&event.subscribers, "\n", "---").as_str());
    assert(out@ =~= announcement(event@));
    out
}

} // verus!
