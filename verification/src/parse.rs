//! Reading requests out of chat text. The fields of a request are found
//! with regular expressions; what is made of the text they capture is
//! decided here.

use crate::clock::{is_calendar_day, local_date, EventDate, EventTime};
use crate::scheduler::{Command, EventSignal, SignalModel};
use crate::store::{text_view, DailyEvent, EventModel, Timeslice, NO_SUBSCRIBER};
use crate::text::{begins_with, lowercase, numeral_value, parse_number, same_text, starts_with};
use regex::Regex;
use vstd::prelude::*;

verus! {

/// The word that a request to the scheduler begins with.
pub const EVENT: &'static str = "$event ";

/// The word that selects what is asked of the scheduler.
pub const MODE_PATTERN: &'static str = "(create|list|delete|subscribe|unsubscribe|channel)";

/// The field that names an event.
pub const NAME_PATTERN: &'static str = "name=\\[(.*?)\\]";

/// The field that describes an event.
pub const DESCRIPTION_PATTERN: &'static str = "description=\\[(.*?)\\]";

/// The field that gives the time of day of an event, in 24 hours.
pub const TIME_PATTERN: &'static str = "time=\\[([01]\\d|2[0-3]):([0-5]\\d)\\]";

/// The field that says whether the author subscribes.
pub const SUBSCRIBE_PATTERN: &'static str = "subscribe=\\[(0|1)\\]";

/// The field that gives the command to send when the event fires.
pub const COMMAND_PATTERN: &'static str = "command=\\[(.*?)\\]";

/// The field that gives the anchor date: day, month, year.
pub const DATE_PATTERN: &'static str = "date=(?P<day>\\d{2})/(?P<month>\\d{2})/(?P<year>\\d{4})";

/// The field that names the interval, in any mix of upper and lower case.
pub const INTERVAL_PATTERN: &'static str = "(?i)interval=(Daily|Weekly|Monthly|Yearly|Once)";

/// The field that gives the number of an event.
pub const ID_PATTERN: &'static str = "id=(\\d+)";

/// The groups of the leftmost match of the regular expression `pattern` in
/// `text`, the whole match first, each with the text it captured if it took
/// part in the match; none where `text` holds no match, or `pattern` is no
/// regular expression.
pub uninterp spec fn captured(pattern: Seq<char>, text: Seq<char>) -> Option<
    Seq<Option<Seq<char>>>,
>;

/// Compiles `pattern` with `Regex::new` of the regex crate, searches `text`
/// with `Regex::captures`, and reads the groups with `Captures::iter`, each
/// as the text of its `Match`. A pattern that does not compile counts as no
/// match. The groups are a function of pattern and text alone; they are
/// named, not computed here.
#[verifier::external_body]
pub(crate) fn captures(pattern: &str, text: &str) -> (found: Option<Vec<Option<String>>>)
    ensures
        found.deep_view() == captured(pattern@, text@),
{
    let re = match Regex::new(pattern) {
        Ok(re) => re,
        Err(_) => return None,
    };
    let caps = re.captures(text)?;
    Some(caps.iter().map(|group| group.map(|m| m.as_str().to_owned())).collect())
}

/// The text of group `index` of a match, where there is a match and the
/// group took part in it.
pub open spec fn group(found: Option<Seq<Option<Seq<char>>>>, index: int) -> Option<Seq<char>> {
    match found {
        Some(groups) => if 0 <= index < groups.len() {
            groups[index]
        } else {
            None
        },
        None => None,
    }
}

/// The time of day that the two groups of a match of the time field spell:
/// none where there is no match or a group is no numeral; otherwise the
/// time, where hour and minute exist.
pub open spec fn time_of(found: Option<Seq<Option<Seq<char>>>>) -> Option<Option<EventTime>> {
    match (group(found, 1), group(found, 2)) {
        (Some(hours), Some(minutes)) => match (
            numeral_value(hours, u32::MAX as nat),
            numeral_value(minutes, u32::MAX as nat),
        ) {
            (Some(h), Some(m)) => Some(
                if h < 24 && m < 60 {
                    Some(EventTime { hour: h as u32, minute: m as u32, second: 0 })
                } else {
                    None
                },
            ),
            _ => None,
        },
        _ => None,
    }
}

/// Whether the author subscribes, by the group of a match of the subscribe
/// field: yes exactly for the text `1`.
pub open spec fn subscribe_of(found: Option<Seq<Option<Seq<char>>>>) -> Option<bool> {
    match group(found, 1) {
        Some(flag) => Some(flag == "1"@),
        None => None,
    }
}

/// The number that a group spells, 0 where the group took no part in the
/// match; none where it is no numeral up to `max`.
pub open spec fn number_or_zero(part: Option<Seq<char>>, max: nat) -> Option<nat> {
    match part {
        Some(s) => numeral_value(s, max),
        None => Some(0),
    }
}

/// The date that the three groups of a match of the date field spell, in
/// the order day, month, year: none where there is no match, a group is no
/// numeral, or the day does not exist.
pub open spec fn date_of(found: Option<Seq<Option<Seq<char>>>>) -> Option<EventDate> {
    if found is None {
        None
    } else {
        match (
            number_or_zero(group(found, 1), u32::MAX as nat),
            number_or_zero(group(found, 2), u32::MAX as nat),
            number_or_zero(group(found, 3), i32::MAX as nat),
        ) {
            (Some(d), Some(m), Some(y)) => if is_calendar_day(y as int, m as int, d as int) {
                Some(EventDate { year: y as i32, month: m as u32, day: d as u32 })
            } else {
                None
            },
            _ => None,
        }
    }
}

/// The interval that the group of a match of the interval field names.
pub open spec fn interval_of(found: Option<Seq<Option<Seq<char>>>>) -> Option<Timeslice> {
    match group(found, 1) {
        Some(name) => Timeslice::named(lowercase(name)),
        None => None,
    }
}

/// The number that the group of a match of the number field spells.
pub open spec fn id_of(found: Option<Seq<Option<Seq<char>>>>) -> Option<u64> {
    match group(found, 1) {
        Some(s) => match numeral_value(s, u64::MAX as nat) {
            Some(n) => Some(n as u64),
            None => None,
        },
        None => None,
    }
}

/// The text of group `index` of a match.
pub fn group_text(found: &Option<Vec<Option<String>>>, index: usize) -> (part: Option<String>)
    ensures
        part.deep_view() == group(found.deep_view(), index as int),
{
    match found {
        Some(groups) => {
            if index < groups.len() {
                match &groups[index] {
                    Some(s) => Some(s.clone()),
                    None => None,
                }
            } else {
                None
            }
        },
        None => None,
    }
}

/// The time of day that the groups of a match of the time field spell.
pub fn time_from(found: &Option<Vec<Option<String>>>) -> (time: Option<Option<EventTime>>)
    ensures
        time == time_of(found.deep_view()),
{
    let hours: Option<String> = group_text(found, 1);
    let minutes: Option<String> = group_text(found, 2);
    match (hours, minutes) {
        (Some(hours), Some(minutes)) => {
            let h: Option<u64> = parse_number(hours.as_str(), 0xffff_ffff);
            let m: Option<u64> = parse_number(minutes.as_str(), 0xffff_ffff);
            match (h, m) {
                (Some(h), Some(m)) => Some(EventTime::from_hms_opt(h as u32, m as u32, 0)),
                _ => None,
            }
        },
        _ => None,
    }
}

/// Whether the author subscribes, by the group of a match of the subscribe
/// field.
pub fn subscribe_from(found: &Option<Vec<Option<String>>>) -> (flag: Option<bool>)
    ensures
        flag == subscribe_of(found.deep_view()),
{
    match group_text(found, 1) {
        Some(flag) => Some(same_text(flag.as_str(), "1")),
        None => None,
    }
}

/// The number that a group spells, 0 where the group took no part in the
/// match.
fn number_or_zero_from(part: &Option<String>, max: u64) -> (n: Option<u64>)
    ensures
        n == match number_or_zero(part.deep_view(), max as nat) {
            Some(v) => Some(v as u64),
            None => None::<u64>,
        },
{
    match part {
        Some(s) => parse_number(s.as_str(), max),
        None => Some(0),
    }
}

/// The date that the groups of a match of the date field spell.
pub fn date_from(found: &Option<Vec<Option<String>>>) -> (date: Option<EventDate>)
    ensures
        date == date_of(found.deep_view()),
{
    if found.is_none() {
        return None;
    }
    let d: Option<u64> = number_or_zero_from(&group_text(found, 1), 0xffff_ffff);
    let m: Option<u64> = number_or_zero_from(&group_text(found, 2), 0xffff_ffff);
    let y: Option<u64> = number_or_zero_from(&group_text(found, 3), 0x7fff_ffff);
    match (d, m, y) {
        (Some(d), Some(m), Some(y)) => EventDate::from_ymd_opt(y as i32, m as u32, d as u32),
        _ => None,
    }
}

/// The interval that the group of a match of the interval field names.
pub fn interval_from(found: &Option<Vec<Option<String>>>) -> (interval: Option<Timeslice>)
    ensures
        interval == interval_of(found.deep_view()),
{
    match group_text(found, 1) {
        Some(name) => match Timeslice::from_str(name.as_str()) {
            Ok(f) => Some(f),
            Err(_) => None,
        },
        None => None,
    }
}

/// The number that the group of a match of the number field spells.
pub fn id_from(found: &Option<Vec<Option<String>>>) -> (id: Option<u64>)
    ensures
        id == id_of(found.deep_view()),
{
    match group_text(found, 1) {
        Some(s) => parse_number(s.as_str(), u64::MAX),
        None => None,
    }
}

/// The text that the first group of the leftmost match of `pattern` in
/// `text` captured.
pub fn parse_first_match(text: &str, pattern: &str) -> (part: Option<String>)
    ensures
        part.deep_view() == group(captured(pattern@, text@), 1),
{
    group_text(&captures(pattern, text), 1)
}

/// The time of day that the time field of `text` gives.
pub fn parse_time(text: &str) -> (time: Option<Option<EventTime>>)
    ensures
        time == time_of(captured(TIME_PATTERN@, text@)),
{
    time_from(&captures(TIME_PATTERN, text))
}

/// Whether the subscribe field of `text` has the author subscribe.
pub fn parse_subscribe(text: &str) -> (flag: Option<bool>)
    ensures
        flag == subscribe_of(captured(SUBSCRIBE_PATTERN@, text@)),
{
    subscribe_from(&captures(SUBSCRIBE_PATTERN, text))
}

/// The date that the date field of `text` gives.
pub fn parse_date(text: &str) -> (date: Option<EventDate>)
    ensures
        date == date_of(captured(DATE_PATTERN@, text@)),
{
    date_from(&captures(DATE_PATTERN, text))
}

/// The interval that the interval field of `text` names.
pub fn parse_interval(text: &str) -> (interval: Option<Timeslice>)
    ensures
        interval == interval_of(captured(INTERVAL_PATTERN@, text@)),
{
    interval_from(&captures(INTERVAL_PATTERN, text))
}

/// The number that the number field of `text` gives.
pub fn parse_id(text: &str) -> (id: Option<u64>)
    ensures
        id == id_of(captured(ID_PATTERN@, text@)),
{
    id_from(&captures(ID_PATTERN, text))
}

/// The signal that asks for nothing.
pub open spec fn invalid_signal() -> SignalModel {
    SignalModel { event_type: Command::Invalid, event_info: None, channel_id: 1 }
}

/// The event that a request about an existing event carries: its number
/// and the user who asks, all else at its default.
pub open spec fn reference(name: Seq<char>, id: u64, subscribers: Seq<u64>) -> EventModel {
    EventModel {
        name,
        id,
        message: None,
        timestamp: EventTime { hour: 0, minute: 0, second: 0 },
        subscribers,
        command: None,
        date: EventDate { year: 1970, month: 1, day: 1 },
        interval: Timeslice::Daily,
    }
}

/// The signal of `kind` about the event numbered `id`, from `channel`;
/// invalid where no number was given.
pub open spec fn reference_signal(
    kind: Command,
    name: Seq<char>,
    id: Option<u64>,
    subscribers: Seq<u64>,
    channel: u64,
) -> SignalModel {
    match id {
        Some(num) => SignalModel {
            event_type: kind,
            event_info: Some(reference(name, num, subscribers)),
            channel_id: channel,
        },
        None => invalid_signal(),
    }
}

/// The date a new event is anchored to: the date given, but not before
/// `today`; `today` where none was given.
pub open spec fn anchor(date: Option<EventDate>, today: EventDate) -> EventDate {
    match date {
        Some(d) => if d.precedes(&today) {
            today
        } else {
            d
        },
        None => today,
    }
}

/// The subscriber a new event starts with: its author if the author asked
/// to subscribe, else the marker for none.
pub open spec fn first_subscriber(subscribe: Option<bool>, author: u64) -> u64 {
    match subscribe {
        Some(true) => author,
        _ => NO_SUBSCRIBER,
    }
}

/// The signal that asks to create an event from the fields given. Name and
/// time are needed; without either the signal is invalid. The interval is
/// daily where none was given.
pub open spec fn insert_signal(
    name: Option<Seq<char>>,
    description: Option<Seq<char>>,
    time: Option<Option<EventTime>>,
    subscribe: Option<bool>,
    command: Option<Seq<char>>,
    date: Option<EventDate>,
    interval: Option<Timeslice>,
    author: u64,
    channel: u64,
    today: EventDate,
) -> SignalModel {
    if name is Some && time is Some && time->0 is Some {
        SignalModel {
            event_type: Command::Create,
            event_info: Some(
                EventModel {
                    name: name->0,
                    id: 0,
                    message: description,
                    timestamp: time->0->0,
                    subscribers: seq![first_subscriber(subscribe, author)],
                    command,
                    date: anchor(date, today),
                    interval: match interval {
                        Some(i) => i,
                        None => Timeslice::Daily,
                    },
                },
            ),
            channel_id: channel,
        }
    } else {
        invalid_signal()
    }
}

/// The signal that asks to create the event that `text` describes.
pub open spec fn insert_request(text: Seq<char>, author: u64, channel: u64, today: EventDate) -> SignalModel {
    insert_signal(
        group(captured(NAME_PATTERN@, text), 1),
        group(captured(DESCRIPTION_PATTERN@, text), 1),
        time_of(captured(TIME_PATTERN@, text)),
        subscribe_of(captured(SUBSCRIBE_PATTERN@, text)),
        group(captured(COMMAND_PATTERN@, text), 1),
        date_of(captured(DATE_PATTERN@, text)),
        interval_of(captured(INTERVAL_PATTERN@, text)),
        author,
        channel,
        today,
    )
}

/// The signal of `kind` that `text` asks for.
pub open spec fn request_of_kind(
    kind: Command,
    text: Seq<char>,
    author: u64,
    channel: u64,
    today: EventDate,
) -> SignalModel {
    let id = id_of(captured(ID_PATTERN@, text));
    match kind {
        Command::Create => insert_request(text, author, channel, today),
        Command::List => SignalModel {
            event_type: Command::List,
            event_info: None,
            channel_id: channel,
        },
        Command::Delete => reference_signal(Command::Delete, "Delete"@, id, Seq::empty(), channel),
        Command::Subscribe => reference_signal(
            Command::Subscribe,
            "Subscribe"@,
            id,
            seq![author],
            channel,
        ),
        Command::Unsubscribe => reference_signal(
            Command::Unsubscribe,
            "Unsubscribe"@,
            id,
            seq![author],
            channel,
        ),
        Command::Channel => SignalModel {
            event_type: Command::Channel,
            event_info: None,
            channel_id: channel,
        },
        Command::Invalid => invalid_signal(),
    }
}

/// The signal that the chat text `content` asks for: none unless it begins
/// with the scheduler's word and a word that selects a kind follows.
pub open spec fn request(content: Seq<char>, author: u64, channel: u64, today: EventDate) -> Option<
    SignalModel,
> {
    if !begins_with(content, EVENT@) {
        None
    } else {
        match group(captured(MODE_PATTERN@, content.skip(EVENT@.len() as int)), 1) {
            Some(word) => match Command::selected(word) {
                Some(kind) => Some(request_of_kind(kind, content, author, channel, today)),
                None => None,
            },
            None => None,
        }
    }
}

/// The view of a signal that may be missing.
pub open spec fn signal_view(signal: Option<EventSignal>) -> Option<SignalModel> {
    match signal {
        Some(s) => Some(s@),
        None => None,
    }
}

/// The signal that asks for nothing.
pub fn createInvalid() -> (signal: EventSignal)
    ensures
        signal@ == invalid_signal(),
{
    EventSignal { event_type: Command::Invalid, event_info: None, channel_id: 1 }
}

/// The signal that asks to make `channel` the channel for announcements.
pub fn createChannelEvent(channel: u64) -> (signal: EventSignal)
    ensures
        signal@ == (SignalModel {
            event_type: Command::Channel,
            event_info: None,
            channel_id: channel,
        }),
{
    EventSignal { event_type: Command::Channel, event_info: None, channel_id: channel }
}

/// The signal that asks for the listing of the queue.
pub fn createListEvent(channel: u64) -> (signal: EventSignal)
    ensures
        signal@ == (SignalModel {
            event_type: Command::List,
            event_info: None,
            channel_id: channel,
        }),
{
    EventSignal { event_type: Command::List, event_info: None, channel_id: channel }
}

/// The signal of `kind` about the event numbered `id`; invalid where no
/// number was given.
pub fn refer(kind: Command, name: &str, id: Option<u64>, subscribers: Vec<u64>, channel: u64) -> (signal:
    EventSignal)
    ensures
        signal@ == reference_signal(kind, name@, id, subscribers@, channel),
{
    match id {
        Some(num) => EventSignal {
            event_type: kind,
            event_info: Some(
                DailyEvent {
                    name: name.to_owned(),
                    id: num,
                    message: None,
                    timestamp: EventTime::midnight(),
                    subscribers,
                    command: None,
                    date: EventDate::epoch(),
                    interval: Timeslice::Daily,
                },
            ),
            channel_id: channel,
        },
        None => createInvalid(),
    }
}

/// A list of one user.
fn one_user(user: u64) -> (users: Vec<u64>)
    ensures
        users@ == seq![user],
{
    let mut users: Vec<u64> = Vec::new();
    users.push(user);
    assert(users@ =~= seq![user]);
    users
}

/// The signal by which `author` asks to subscribe to the event that `text`
/// gives the number of.
pub fn createSubscribeEvent(text: &str, author: u64, channel: u64) -> (signal: EventSignal)
    ensures
        signal@ == request_of_kind(
            Command::Subscribe,
            text@,
            author,
            channel,
            EventDate { year: 1970, month: 1, day: 1 },
        ),
{
    refer(Command::Subscribe, "Subscribe", parse_id(text), one_user(author), channel)
}

/// The signal by which `author` asks to leave the event that `text` gives
/// the number of.
pub fn createUnsubscribeEvent(text: &str, author: u64, channel: u64) -> (signal: EventSignal)
    ensures
        signal@ == request_of_kind(
            Command::Unsubscribe,
            text@,
            author,
            channel,
            EventDate { year: 1970, month: 1, day: 1 },
        ),
{
    refer(Command::Unsubscribe, "Unsubscribe", parse_id(text), one_user(author), channel)
}

/// The signal that asks to delete the event that `text` gives the number
/// of.
pub fn createDeleteEvent(text: &str, channel: u64) -> (signal: EventSignal)
    ensures
        signal@ == request_of_kind(
            Command::Delete,
            text@,
            0,
            channel,
            EventDate { year: 1970, month: 1, day: 1 },
        ),
{
    let none: Vec<u64> = Vec::new();
    assert(none@ =~= Seq::<u64>::empty());
    refer(Command::Delete, "Delete", parse_id(text), none, channel)
}

/// The signal that asks to create an event from the fields given.
pub fn build_insert(
    name: Option<String>,
    description: Option<String>,
    time: Option<Option<EventTime>>,
    subscribe: Option<bool>,
    command: Option<String>,
    date: Option<EventDate>,
    interval: Option<Timeslice>,
    author: u64,
    channel: u64,
    today: &EventDate,
) -> (signal: EventSignal)
    ensures
        signal@ == insert_signal(
            text_view(name),
            text_view(description),
            time,
            subscribe,
            text_view(command),
            date,
            interval,
            author,
            channel,
            *today,
        ),
{
    let event_subscribe: u64 = match subscribe {
        Some(true) => author,
        _ => NO_SUBSCRIBER,
    };
    let event_date: EventDate = match date {
        Some(d) => if d.is_before(today) {
            *today
        } else {
            d
        },
        None => *today,
    };
    let event_interval: Timeslice = match interval {
        Some(i) => i,
        None => Timeslice::Daily,
    };
    match (name, time) {
        (Some(event_name), Some(Some(event_time))) => EventSignal {
            event_type: Command::Create,
            event_info: Some(
                DailyEvent {
                    name: event_name,
                    id: 0,
                    message: description,
                    timestamp: event_time,
                    subscribers: one_user(event_subscribe),
                    command,
                    date: event_date,
                    interval: event_interval,
                },
            ),
            channel_id: channel,
        },
        _ => createInvalid(),
    }
}

/// The signal that asks to create the event that `text` describes, written
/// by `author` in `channel` on `today`.
pub fn createInsert(text: &str, author: u64, channel: u64, today: &EventDate) -> (signal:
    EventSignal)
    ensures
        signal@ == insert_request(text@, author, channel, *today),
{
    let event_name: Option<String> = parse_first_match(text, NAME_PATTERN);
    let event_description: Option<String> = parse_first_match(text, DESCRIPTION_PATTERN);
    let event_time: Option<Option<EventTime>> = parse_time(text);
    let event_subscribe: Option<bool> = parse_subscribe(text);
    let event_command: Option<String> = parse_first_match(text, COMMAND_PATTERN);
    let event_date: Option<EventDate> = parse_date(text);
    let event_interval: Option<Timeslice> = parse_interval(text);
    build_insert(
        event_name,
        event_description,
        event_time,
        event_subscribe,
        event_command,
        event_date,
        event_interval,
        author,
        channel,
        today,
    )
}

/// The signal of `kind` that `text` asks for.
pub fn create_signal(kind: Command, text: &str, author: u64, channel: u64, today: &EventDate) -> (signal:
    EventSignal)
    ensures
        signal@ == request_of_kind(kind, text@, author, channel, *today),
{
    match kind {
        Command::Create => createInsert(text, author, channel, today),
        Command::List => createListEvent(channel),
        Command::Delete => createDeleteEvent(text, channel),
        Command::Subscribe => createSubscribeEvent(text, author, channel),
        Command::Unsubscribe => createUnsubscribeEvent(text, author, channel),
        Command::Channel => createChannelEvent(channel),
        Command::Invalid => createInvalid(),
    }
}

/// The kind that the word `mode` selects, and with it the signal that
/// `content` asks for; none where no word was found or it selects nothing.
pub fn select(mode: Option<String>, content: &str, author: u64, channel: u64, today: &EventDate) -> (signal:
    Option<EventSignal>)
    ensures
        signal_view(signal) == match text_view(mode) {
            Some(word) => match Command::selected(word) {
                Some(kind) => Some(request_of_kind(kind, content@, author, channel, *today)),
                None => None,
            },
            None => None::<SignalModel>,
        },
{
    match mode {
        Some(word) => match Command::from_str(word.as_str()) {
            Some(kind) => Some(create_signal(kind, content, author, channel, today)),
            None => None,
        },
        None => None,
    }
}

/// Reads the chat text `content`, written by `author` in `channel` on
/// `today`, as a request to the scheduler.
pub fn parse(content: &str, author: u64, channel: u64, today: &EventDate) -> (signal: Option<
    EventSignal,
>)
    ensures
        signal_view(signal) == request(content@, author, channel, *today),
{
    proof {
        reveal_strlit("$event ");
    }
    if !starts_with(content, EVENT) {
        return None;
    }
    let len: usize = content.unicode_len();
    let stripped: &str = content.substring_char(7, len);
    assert(content@.subrange(7, len as int) =~= content@.skip(7));
    let mode: Option<String> = parse_first_match(stripped, MODE_PATTERN);
    select(mode, content, author, channel, today)
}

/// Reads the chat text `content` as a request to the scheduler, on the date
/// that the clock gives.
pub fn eventHandler(content: &str, author: u64, channel: u64) -> (signal: Option<EventSignal>)
    ensures
        exists|today: EventDate|
            today.wf() && signal_view(signal) == #[trigger] request(
                content@,
                author,
                channel,
                today,
            ),
{
    let today: EventDate = local_date();
    let signal = parse(content, author, channel, &today);
    assert(signal_view(signal) == request(content@, author, channel, today));
    signal
}

} // verus!
