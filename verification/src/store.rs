//! The event store: an ordered queue of reminders, the channel they are
//! announced in, and the counter that numbers them.

use crate::clock::{local_time, wrap_distance, EventDate, EventTime};
use crate::text::{lowercase, same_text};
use vstd::prelude::*;

verus! {

/// How often an event recurs.
#[derive(Clone, Copy, Debug, PartialEq, Eq, Structural)]
pub enum Timeslice {
    Daily,
    Weekly,
    Monthly,
    Yearly,
    Once,
}

impl Timeslice {
    /// The name of the interval.
    pub open spec fn name(self) -> Seq<char> {
        match self {
            Timeslice::Daily => "Daily"@,
            Timeslice::Weekly => "Weekly"@,
            Timeslice::Monthly => "Monthly"@,
            Timeslice::Yearly => "Yearly"@,
            Timeslice::Once => "Once"@,
        }
    }

    /// The interval that `lower`, a name in lower case, stands for.
    pub open spec fn named(lower: Seq<char>) -> Option<Timeslice> {
        if lower == "daily"@ {
            Some(Timeslice::Daily)
        } else if lower == "weekly"@ {
            Some(Timeslice::Weekly)
        } else if lower == "monthly"@ {
            Some(Timeslice::Monthly)
        } else if lower == "yearly"@ {
            Some(Timeslice::Yearly)
        } else if lower == "once"@ {
            Some(Timeslice::Once)
        } else {
            None
        }
    }

    /// The name of the interval.
    pub fn label(&self) -> (name: &'static str)
        ensures
            name@ == self.name(),
    {
        match self {
            Timeslice::Daily => "Daily",
            Timeslice::Weekly => "Weekly",
            Timeslice::Monthly => "Monthly",
            Timeslice::Yearly => "Yearly",
            Timeslice::Once => "Once",
        }
    }

    /// The interval that a name in lower case stands for.
    pub fn from_lower(lower: &str) -> (t: Option<Timeslice>)
        ensures
            t == Timeslice::named(lower@),
    {
        if same_text(lower, "daily") {
            Some(Timeslice::Daily)
        } else if same_text(lower, "weekly") {
            Some(Timeslice::Weekly)
        } else if same_text(lower, "monthly") {
            Some(Timeslice::Monthly)
        } else if same_text(lower, "yearly") {
            Some(Timeslice::Yearly)
        } else if same_text(lower, "once") {
            Some(Timeslice::Once)
        } else {
            None
        }
    }

    /// The interval that `input` names, in any mix of upper and lower case.
    pub fn from_str(input: &str) -> (t: Result<Timeslice, ()>)
        ensures
            t == match Timeslice::named(lowercase(input@)) {
                Some(slice) => Ok::<Timeslice, ()>(slice),
                None => Err::<Timeslice, ()>(()),
            },
    {
        let lower: String = input.to_lowercase();
        match Timeslice::from_lower(lower.as_str()) {
            Some(slice) => Ok(slice),
            None => Err(()),
        }
    }
}

/// The subscriber a new event carries when its author does not subscribe.
pub const NO_SUBSCRIBER: u64 = 1;

/// A reminder.
#[derive(Debug, Clone, PartialEq, Eq)]
pub struct DailyEvent {
    pub name: String,
    pub id: u64,
    pub message: Option<String>,
    pub timestamp: EventTime,
    pub subscribers: Vec<u64>,
    pub command: Option<String>,
    pub date: EventDate,
    pub interval: Timeslice,
}

/// What a reminder holds, as mathematical values.
pub struct EventModel {
    pub name: Seq<char>,
    pub id: u64,
    pub message: Option<Seq<char>>,
    pub timestamp: EventTime,
    pub subscribers: Seq<u64>,
    pub command: Option<Seq<char>>,
    pub date: EventDate,
    pub interval: Timeslice,
}

/// The view of an optional text.
pub open spec fn text_view(t: Option<String>) -> Option<Seq<char>> {
    match t {
        Some(s) => Some(s@),
        None => None,
    }
}

impl View for DailyEvent {
    type V = EventModel;

    open spec fn view(&self) -> EventModel {
        EventModel {
            name: self.name@,
            id: self.id,
            message: text_view(self.message),
            timestamp: self.timestamp,
            subscribers: self.subscribers@,
            command: text_view(self.command),
            date: self.date,
            interval: self.interval,
        }
    }
}

/// The store.
#[derive(Debug, Clone, PartialEq, Eq)]
pub struct RinrOptions {
    pub bot_channel: Option<u64>,
    pub events: Vec<DailyEvent>,
    pub id_counter: u64,
    pub reserved2: u64,
    pub reserved3: u64,
}

/// What the store holds, as mathematical values.
pub struct StoreModel {
    pub bot_channel: Option<u64>,
    pub events: Seq<EventModel>,
    pub id_counter: u64,
    pub reserved: (u64, u64),
}

/// The views of a sequence of events.
pub open spec fn event_views(events: Seq<DailyEvent>) -> Seq<EventModel> {
    events.map_values(|e: DailyEvent| e@)
}

impl View for RinrOptions {
    type V = StoreModel;

    open spec fn view(&self) -> StoreModel {
        StoreModel {
            bot_channel: self.bot_channel,
            events: event_views(self.events@),
            id_counter: self.id_counter,
            reserved: (self.reserved2, self.reserved3),
        }
    }
}

/// The subscribers other than `user`.
pub open spec fn other_than(user: u64) -> spec_fn(u64) -> bool {
    |u: u64| u != user
}

/// The events not numbered `id`.
pub open spec fn not_numbered(id: u64) -> spec_fn(EventModel) -> bool {
    |e: EventModel| e.id != id
}

impl EventModel {
    /// The event with its number replaced by `id`, and without subscribers
    /// where its first subscriber is the marker for none.
    pub open spec fn admitted(self, id: u64) -> EventModel {
        EventModel {
            id,
            subscribers: if self.subscribers.len() > 0 && self.subscribers[0] == NO_SUBSCRIBER {
                Seq::empty()
            } else {
                self.subscribers
            },
            ..self
        }
    }

    /// The event with `user` added as its last subscriber.
    pub open spec fn with_subscriber(self, user: u64) -> EventModel {
        EventModel { subscribers: self.subscribers.push(user), ..self }
    }

    /// The event with every occurrence of `user` taken out of its subscribers.
    pub open spec fn without_subscriber(self, user: u64) -> EventModel {
        EventModel { subscribers: self.subscribers.filter(other_than(user)), ..self }
    }

    /// Seconds until the event's time of day next occurs, on a clock that
    /// reads `now` seconds since midnight.
    pub open spec fn distance(self, now: int) -> int {
        wrap_distance(now, self.timestamp.seconds())
    }
}

/// The first position at or after `from` of an event numbered `id` whose
/// subscribers hold `user` exactly when `present` says so; the length of
/// `events` where there is none.
pub open spec fn first_candidate(
    events: Seq<EventModel>,
    id: u64,
    user: u64,
    present: bool,
    from: int,
) -> int
    decreases events.len() - from,
{
    if from < 0 || from >= events.len() {
        events.len() as int
    } else if events[from].id == id && events[from].subscribers.contains(user) == present {
        from
    } else {
        first_candidate(events, id, user, present, from + 1)
    }
}

impl StoreModel {
    /// No two events share a number, every number lies below the counter,
    /// and no event lists a subscriber twice.
    pub open spec fn wf(self) -> bool {
        &&& forall|i: int, j: int|
            0 <= i < j < self.events.len() ==> self.events[i].id != self.events[j].id
        &&& forall|i: int| 0 <= i < self.events.len() ==> self.events[i].id < self.id_counter
        &&& forall|i: int| 0 <= i < self.events.len() ==> self.events[i].subscribers.no_duplicates()
    }

    /// Whether some event is numbered `id`.
    pub open spec fn has_id(self, id: u64) -> bool {
        exists|i: int| 0 <= i < self.events.len() && self.events[i].id == id
    }

    /// The store after `event` joined it.
    pub open spec fn inserted(self, event: EventModel) -> StoreModel {
        StoreModel {
            events: self.events.push(event.admitted(self.id_counter)),
            id_counter: (self.id_counter + 1) as u64,
            ..self
        }
    }

    /// The position of the event that a subscription of `user` to `id`
    /// changes; the number of events where it changes none.
    pub open spec fn subscribe_target(self, user: u64, id: u64) -> int {
        first_candidate(self.events, id, user, false, 0)
    }

    /// The store after `user` asked to subscribe to `id`.
    pub open spec fn subscribed(self, user: u64, id: u64) -> StoreModel {
        let at = self.subscribe_target(user, id);
        if at < self.events.len() {
            StoreModel { events: self.events.update(at, self.events[at].with_subscriber(user)), ..self }
        } else {
            self
        }
    }

    /// The position of the event that `user` leaving `id` changes; the number
    /// of events where it changes none.
    pub open spec fn unsubscribe_target(self, user: u64, id: u64) -> int {
        first_candidate(self.events, id, user, true, 0)
    }

    /// The store after `user` asked to leave `id`.
    pub open spec fn unsubscribed(self, user: u64, id: u64) -> StoreModel {
        let at = self.unsubscribe_target(user, id);
        if at < self.events.len() {
            StoreModel {
                events: self.events.update(at, self.events[at].without_subscriber(user)),
                ..self
            }
        } else {
            self
        }
    }

    /// The store without the events numbered `id`.
    pub open spec fn removed(self, id: u64) -> StoreModel {
        StoreModel { events: self.events.filter(not_numbered(id)), ..self }
    }

    /// The store announcing in `channel`.
    pub open spec fn with_channel(self, channel: u64) -> StoreModel {
        StoreModel { bot_channel: Some(channel), ..self }
    }
}

impl Default for Timeslice {
    /// An event recurs daily unless its creator says otherwise.
    fn default() -> (t: Timeslice)
        ensures
            t == Timeslice::Daily,
    {
        Timeslice::Daily
    }
}

impl Default for DailyEvent {
    /// An event that stands for none: it would fire once, at midnight, for
    /// nobody.
    fn default() -> (e: DailyEvent)
        ensures
            e@ == (EventModel {
                name: "Default"@,
                id: 0,
                message: None,
                timestamp: EventTime { hour: 0, minute: 0, second: 0 },
                subscribers: Seq::empty(),
                command: None,
                date: EventDate { year: 1970, month: 1, day: 1 },
                interval: Timeslice::Once,
            }),
    {
        DailyEvent {
            name: "Default".to_owned(),
            id: 0,
            message: None,
            timestamp: EventTime::midnight(),
            subscribers: Vec::new(),
            command: None,
            date: EventDate::epoch(),
            interval: Timeslice::Once,
        }
    }
}

impl Default for RinrOptions {
    /// The store of a fresh start: no channel, no event, numbers from 0.
    fn default() -> (s: RinrOptions)
        ensures
            s@ == (StoreModel {
                bot_channel: None,
                events: Seq::empty(),
                id_counter: 0,
                reserved: (0, 0),
            }),
            s@.wf(),
    {
        let s = RinrOptions {
            bot_channel: None,
            events: Vec::new(),
            id_counter: 0,
            reserved2: 0,
            reserved3: 0,
        };
        assert(s@.events =~= Seq::empty());
        s
    }
}

/// The operations of the store.
pub trait States {
    /// The store as mathematical values.
    spec fn model(&self) -> StoreModel;

    /// Numbers `event` with the counter, drops its subscribers where the
    /// first of them is the marker for none, puts it last, and advances the
    /// counter.
    fn insert(&mut self, event: DailyEvent)
        requires
            old(self).model().id_counter < u64::MAX,
            event.subscribers@.len() > 0,
        ensures
            final(self).model() == old(self).model().inserted(event@),
    ;

    /// Adds the first subscriber of `event_data` to the first event that
    /// carries the number of `event_data` and does not list that subscriber
    /// yet. Returns whether there was such an event.
    fn subscribe(&mut self, event_data: DailyEvent) -> (changed: bool)
        requires
            event_data.subscribers@.len() > 0,
        ensures
            final(self).model() == old(self).model().subscribed(
                event_data.subscribers@[0],
                event_data.id,
            ),
            changed == (old(self).model().subscribe_target(
                event_data.subscribers@[0],
                event_data.id,
            ) < old(self).model().events.len()),
    ;

    /// Takes the first subscriber of `event_data` out of the first event that
    /// carries the number of `event_data` and lists that subscriber. Returns
    /// whether there was such an event.
    fn unsubscribe(&mut self, event_data: DailyEvent) -> (changed: bool)
        requires
            event_data.subscribers@.len() > 0,
        ensures
            final(self).model() == old(self).model().unsubscribed(
                event_data.subscribers@[0],
                event_data.id,
            ),
            changed == (old(self).model().unsubscribe_target(
                event_data.subscribers@[0],
                event_data.id,
            ) < old(self).model().events.len()),
    ;

    /// Drops every event numbered `num`, keeping the others in order.
    fn removeEntry(&mut self, num: u64)
        ensures
            final(self).model() == old(self).model().removed(num),
    ;

    /// Makes `num` the channel that events are announced in.
    fn setChannel(&mut self, num: u64)
        ensures
            final(self).model() == old(self).model().with_channel(num),
    ;

    /// Reads the time of day from the clock and puts the queue in order for
    /// it: soonest next occurrence first, equally distant events in their
    /// former order.
    fn resortEvents(&mut self)
        ensures
            exists|now: EventTime|
                now.wf() && #[trigger] final(self).model().is_resorted(
                    old(self).model(),
                    now.seconds(),
                ),
    ;
}

/// Whether `user` is among `subscribers`.
pub fn has_subscriber(subscribers: &Vec<u64>, user: u64) -> (found: bool)
    ensures
        found == subscribers@.contains(user),
{
    let mut i: usize = 0;
    while i < subscribers.len()
        invariant
            i <= subscribers.len(),
            forall|k: int| 0 <= k < i ==> subscribers@[k] != user,
        decreases subscribers.len() - i,
    {
        if subscribers[i] == user {
            return true;
        }
        i += 1;
    }
    false
}

/// The subscribers other than `user`, in order.
pub fn drop_subscriber(subscribers: &Vec<u64>, user: u64) -> (kept: Vec<u64>)
    ensures
        kept@ == subscribers@.filter(other_than(user)),
{
    let mut kept: Vec<u64> = Vec::new();
    let mut i: usize = 0;
    proof {
        reveal(Seq::filter);
        assert(subscribers@.take(0) =~= Seq::<u64>::empty());
    }
    while i < subscribers.len()
        invariant
            i <= subscribers.len(),
            kept@ == subscribers@.take(i as int).filter(other_than(user)),
        decreases subscribers.len() - i,
    {
        let u: u64 = subscribers[i];
        proof {
            reveal(Seq::filter);
            assert(subscribers@.take(i + 1).drop_last() =~= subscribers@.take(i as int));
        }
        if u != user {
            kept.push(u);
        }
        i += 1;
    }
    proof {
        assert(subscribers@.take(subscribers@.len() as int) =~= subscribers@);
    }
    kept
}

/// Views commute with appending an event.
pub proof fn lemma_views_push(events: Seq<DailyEvent>, event: DailyEvent)
    ensures
        event_views(events.push(event)) == event_views(events).push(event@),
{
    assert(event_views(events.push(event)) =~= event_views(events).push(event@));
}

/// Looking for a candidate from `from` on finds nothing before the first
/// candidate and stops at it.
pub proof fn lemma_first_candidate(
    events: Seq<EventModel>,
    id: u64,
    user: u64,
    present: bool,
    from: int,
)
    requires
        0 <= from <= events.len(),
    ensures
        from <= first_candidate(events, id, user, present, from) <= events.len(),
        forall|k: int|
            from <= k < first_candidate(events, id, user, present, from) ==> !(events[k].id == id
                && events[k].subscribers.contains(user) == present),
        first_candidate(events, id, user, present, from) < events.len() ==> {
            let at = first_candidate(events, id, user, present, from);
            events[at].id == id && events[at].subscribers.contains(user) == present
        },
    decreases events.len() - from,
{
    if from < events.len() && !(events[from].id == id && events[from].subscribers.contains(user)
        == present) {
        lemma_first_candidate(events, id, user, present, from + 1);
    }
}

impl States for RinrOptions {
    open spec fn model(&self) -> StoreModel {
        self@
    }

    fn insert(&mut self, event: DailyEvent) {
        let mut event = event;
        let ghost given = event@;
        event.id = self.id_counter;
        if event.subscribers[0] == NO_SUBSCRIBER {
            event.subscribers.clear();
        }
        assert(event@ =~= given.admitted(self.id_counter));
        proof {
            lemma_views_push(self.events@, event);
        }
        self.events.push(event);
        self.id_counter += 1;
    }

    fn subscribe(&mut self, event_data: DailyEvent) -> (changed: bool) {
        let user: u64 = event_data.subscribers[0];
        let id: u64 = event_data.id;
        let mut i: usize = 0;
        while i < self.events.len()
            invariant
                i <= self.events.len(),
                *self == *old(self),
                event_data.subscribers@.len() > 0,
                user == event_data.subscribers@[0],
                id == event_data.id,
                first_candidate(self@.events, id, user, false, 0) == first_candidate(
                    self@.events,
                    id,
                    user,
                    false,
                    i as int,
                ),
            decreases self.events.len() - i,
        {
            assert(self@.events[i as int] == self.events@[i as int]@);
            if self.events[i].id == id && !has_subscriber(&self.events[i].subscribers, user) {
                let ghost before = self@;
                assert(first_candidate(before.events, id, user, false, i as int) == i);
                let mut event = self.events.remove(i);
                event.subscribers.push(user);
                assert(event@ == before.events[i as int].with_subscriber(user));
                self.events.insert(i, event);
                assert(self@.events =~= before.events.update(
                    i as int,
                    before.events[i as int].with_subscriber(user),
                ));
                return true;
            }
            i += 1;
        }
        false
    }

    fn unsubscribe(&mut self, event_data: DailyEvent) -> (changed: bool) {
        let user: u64 = event_data.subscribers[0];
        let id: u64 = event_data.id;
        let mut i: usize = 0;
        while i < self.events.len()
            invariant
                i <= self.events.len(),
                *self == *old(self),
                event_data.subscribers@.len() > 0,
                user == event_data.subscribers@[0],
                id == event_data.id,
                first_candidate(self@.events, id, user, true, 0) == first_candidate(
                    self@.events,
                    id,
                    user,
                    true,
                    i as int,
                ),
            decreases self.events.len() - i,
        {
            assert(self@.events[i as int] == self.events@[i as int]@);
            if self.events[i].id == id && has_subscriber(&self.events[i].subscribers, user) {
                let ghost before = self@;
                assert(first_candidate(before.events, id, user, true, i as int) == i);
                let mut event = self.events.remove(i);
                event.subscribers = drop_subscriber(&event.subscribers, user);
                assert(event@ == before.events[i as int].without_subscriber(user));
                self.events.insert(i, event);
                assert(self@.events =~= before.events.update(
                    i as int,
                    before.events[i as int].without_subscriber(user),
                ));
                return true;
            }
            i += 1;
        }
        false
    }

    fn removeEntry(&mut self, num: u64) {
        let ghost orig = self.events@;
        let ghost keep = not_numbered(num);
        let ghost mut k: int = 0;
        let mut i: usize = 0;
        proof {
            reveal(Seq::filter);
            assert(event_views(orig.take(0)) =~= Seq::<EventModel>::empty());
            assert(event_views(self.events@.take(0)) =~= Seq::<EventModel>::empty());
            assert(self.events@.skip(0) =~= orig.skip(0));
        }
        while i < self.events.len()
            invariant
                i <= self.events.len(),
                0 <= k <= orig.len(),
                self.bot_channel == old(self).bot_channel,
                self.id_counter == old(self).id_counter,
                self.reserved2 == old(self).reserved2,
                self.reserved3 == old(self).reserved3,
                orig == old(self).events@,
                keep == not_numbered(num),
                event_views(self.events@.take(i as int)) == event_views(orig.take(k)).filter(keep),
                self.events@.skip(i as int) == orig.skip(k),
            decreases self.events.len() - i,
        {
            proof {
                reveal(Seq::filter);
                assert(self.events@.skip(i as int).len() == self.events@.len() - i);
                assert(k < orig.len());
                assert(self.events@[i as int] == self.events@.skip(i as int)[0]);
                assert(orig.skip(k)[0] == orig[k]);
                assert(event_views(orig.take(k + 1)).drop_last() =~= event_views(orig.take(k)));
            }
            if self.events[i].id == num {
                let ghost before = self.events@;
                self.events.remove(i);
                proof {
                    assert(self.events@.take(i as int) =~= before.take(i as int));
                    assert forall|j: int| 0 <= j < orig.skip(k + 1).len() implies self.events@.skip(
                        i as int,
                    )[j] == #[trigger] orig.skip(k + 1)[j] by {
                        assert(before.skip(i as int)[j + 1] == orig.skip(k)[j + 1]);
                    }
                    assert(self.events@.skip(i as int) =~= orig.skip(k + 1));
                    k = k + 1;
                }
            } else {
                proof {
                    assert(event_views(self.events@.take(i + 1)) =~= event_views(
                        self.events@.take(i as int),
                    ).push(orig[k]@));
                    assert forall|j: int| 0 <= j < orig.skip(k + 1).len() implies self.events@.skip(
                        i + 1,
                    )[j] == #[trigger] orig.skip(k + 1)[j] by {
                        assert(self.events@.skip(i as int)[j + 1] == orig.skip(k)[j + 1]);
                    }
                    assert(self.events@.skip(i + 1) =~= orig.skip(k + 1));
                    k = k + 1;
                }
                i += 1;
            }
        }
        proof {
            assert(self.events@.take(i as int) =~= self.events@);
            assert(orig.skip(k).len() == 0);
            assert(orig.take(k) =~= orig);
        }
    }

    fn setChannel(&mut self, num: u64) {
        self.bot_channel = Some(num);
    }

    fn resortEvents(&mut self) {
        let curr_time: EventTime = local_time();
        self.resort_at(&curr_time);
        assert(self.model().is_resorted(old(self).model(), curr_time.seconds()));
    }
}

} // verus!
