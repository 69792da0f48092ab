//! The scheduler's decisions: what a signal or an elapsed wait does to the
//! store, and what is to be sent and saved afterwards. The loop that waits,
//! sends and saves runs elsewhere and performs the actions returned here.

use crate::clock::{local_date, Diff, EventDate, EventTime};
use crate::notify::{announce, announcement, formatEvents, listings};
use crate::recurrence::{decision, evaluate_on, Firing};
use crate::store::{DailyEvent, EventModel, RinrOptions, States, StoreModel, Timeslice};
use crate::text::same_text;
use vstd::prelude::*;

verus! {

/// The kind of a signal.
#[derive(Clone, Copy, Debug, PartialEq, Eq, Structural)]
pub enum Command {
    Create,
    List,
    Delete,
    Subscribe,
    Unsubscribe,
    Channel,
    Invalid,
}

impl Command {
    /// The kind that the word `command` selects.
    pub open spec fn selected(command: Seq<char>) -> Option<Command> {
        if command == "list"@ {
            Some(Command::List)
        } else if command == "create"@ {
            Some(Command::Create)
        } else if command == "delete"@ {
            Some(Command::Delete)
        } else if command == "channel"@ {
            Some(Command::Channel)
        } else if command == "subscribe"@ {
            Some(Command::Subscribe)
        } else if command == "unsubscribe"@ {
            Some(Command::Unsubscribe)
        } else {
            None
        }
    }

    /// The kind that the word `command` selects.
    pub fn from_str(command: &str) -> (kind: Option<Command>)
        ensures
            kind == Command::selected(command@),
    {
        if same_text(command, "list") {
            Some(Command::List)
        } else if same_text(command, "create") {
            Some(Command::Create)
        } else if same_text(command, "delete") {
            Some(Command::Delete)
        } else if same_text(command, "channel") {
            Some(Command::Channel)
        } else if same_text(command, "subscribe") {
            Some(Command::Subscribe)
        } else if same_text(command, "unsubscribe") {
            Some(Command::Unsubscribe)
        } else {
            None
        }
    }
}

/// A request to the scheduler.
#[derive(Debug, Clone, PartialEq, Eq)]
pub struct EventSignal {
    pub event_type: Command,
    pub event_info: Option<DailyEvent>,
    pub channel_id: u64,
}

/// What a signal holds, as mathematical values.
pub struct SignalModel {
    pub event_type: Command,
    pub event_info: Option<EventModel>,
    pub channel_id: u64,
}

impl View for EventSignal {
    type V = SignalModel;

    open spec fn view(&self) -> SignalModel {
        SignalModel {
            event_type: self.event_type,
            event_info: match self.event_info {
                Some(e) => Some(e@),
                None => None,
            },
            channel_id: self.channel_id,
        }
    }
}

/// What the loop is to do after a decision.
#[derive(Debug, Clone, PartialEq, Eq)]
pub enum Action {
    /// Save the store.
    Persist,
    /// Send `text` to `channel`.
    Send { channel: u64, text: String },
}

/// An action, as mathematical values.
pub enum ActionModel {
    Persist,
    Send { channel: u64, text: Seq<char> },
}

impl View for Action {
    type V = ActionModel;

    open spec fn view(&self) -> ActionModel {
        match self {
            Action::Persist => ActionModel::Persist,
            Action::Send { channel, text } => ActionModel::Send { channel: *channel, text: text@ },
        }
    }
}

/// The views of a sequence of actions.
pub open spec fn action_views(actions: Seq<Action>) -> Seq<ActionModel> {
    actions.map_values(|a: Action| a@)
}

/// The action of sending `text` to `channel`.
pub open spec fn send(channel: u64, text: Seq<char>) -> ActionModel {
    ActionModel::Send { channel, text }
}

/// Saving the store, then confirming to `channel` with `text`.
pub open spec fn saved_and_confirmed(channel: u64, text: Seq<char>) -> Seq<ActionModel> {
    seq![ActionModel::Persist, send(channel, text)]
}

/// The request to name a channel for announcements first.
pub open spec fn setup_notice() -> Seq<char> {
    "Please configure the Bot channel!\nYou can do this by using $event channel."@
}

impl SignalModel {
    /// The signal carries an event with at least one subscriber.
    pub open spec fn names_user(self) -> bool {
        self.event_info is Some && self.event_info->0.subscribers.len() > 0
    }

    /// The first subscriber of the event that the signal carries.
    pub open spec fn user(self) -> u64 {
        self.event_info->0.subscribers[0]
    }

    /// The number of the event that the signal carries.
    pub open spec fn id(self) -> u64 {
        self.event_info->0.id
    }
}

impl StoreModel {
    /// The actions that answer a request for the listing from `channel`.
    pub open spec fn listed(self, channel: u64) -> Seq<ActionModel> {
        match self.bot_channel {
            None => seq![send(channel, setup_notice())],
            Some(bot) => seq![
                send(
                    bot,
                    if self.events.len() == 0 {
                        "No Events Available"@
                    } else {
                        listings(self.events)
                    },
                ),
            ],
        }
    }

    /// The store and the actions after a request to create the event of
    /// `signal`.
    pub open spec fn created(self, signal: SignalModel) -> (StoreModel, Seq<ActionModel>) {
        if self.bot_channel is None {
            (self, seq![send(signal.channel_id, setup_notice())])
        } else {
            (
                self.inserted(signal.event_info->0),
                saved_and_confirmed(signal.channel_id, "Successfully added event"@),
            )
        }
    }

    /// The store and the actions after a request to delete the event of
    /// `signal`: the events of that number leave, and the store is saved and
    /// the request confirmed. Where no event carries the number, nothing
    /// changes and nothing is sent.
    pub open spec fn deleted(self, signal: SignalModel) -> (StoreModel, Seq<ActionModel>) {
        if self.has_id(signal.id()) {
            (
                self.removed(signal.id()),
                saved_and_confirmed(signal.channel_id, "Successfully deleted event"@),
            )
        } else {
            (self, Seq::empty())
        }
    }

    /// The actions after a request to subscribe: none where it changed
    /// nothing.
    pub open spec fn subscribe_actions(self, signal: SignalModel) -> Seq<ActionModel> {
        if self.subscribe_target(signal.user(), signal.id()) < self.events.len() {
            saved_and_confirmed(signal.channel_id, "Successfully subscribed to Event"@)
        } else {
            Seq::empty()
        }
    }

    /// The actions after a request to unsubscribe: none where it changed
    /// nothing.
    pub open spec fn unsubscribe_actions(self, signal: SignalModel) -> Seq<ActionModel> {
        if self.unsubscribe_target(signal.user(), signal.id()) < self.events.len() {
            saved_and_confirmed(signal.channel_id, "Successfully unsubscribed from Event"@)
        } else {
            Seq::empty()
        }
    }

    /// The decision for the event at the head of the queue on `today`.
    pub open spec fn head_decision(self, today: EventDate) -> Firing {
        let head = self.events[0];
        decision(head.interval, head.date, today, today.days_since(&head.date))
    }

    /// Whether an elapsed wait announces the event at the head of the queue
    /// on `today`: there is a channel to announce in, there is an event, and
    /// its interval lets it fire.
    pub open spec fn head_fires(self, today: EventDate) -> bool {
        self.bot_channel is Some && self.events.len() > 0 && self.head_decision(today)
            != Firing::Skip
    }

    /// What is sent when the event at the head of the queue fires: its
    /// announcement, then its command where it has one.
    pub open spec fn head_sends(self) -> Seq<ActionModel> {
        let head = self.events[0];
        let channel = self.bot_channel->0;
        let first = seq![send(channel, announcement(head))];
        match head.command {
            Some(command) => first.push(send(channel, command)),
            None => first,
        }
    }

    /// The store and the actions after the wait for the head of the queue
    /// elapsed on `today`.
    pub open spec fn activated(self, today: EventDate) -> (StoreModel, Seq<ActionModel>) {
        if !self.head_fires(today) {
            (self, Seq::empty())
        } else if self.head_decision(today) == Firing::FireAndRemove {
            (self.removed(self.events[0].id), self.head_sends().push(ActionModel::Persist))
        } else {
            (self, self.head_sends())
        }
    }

    /// The dates that the decision for the head of the queue counts days
    /// between exist: asked only of a weekly event.
    pub open spec fn head_dated(self, today: EventDate) -> bool {
        self.bot_channel is Some && self.events.len() > 0 && self.events[0].interval
            == Timeslice::Weekly ==> today.wf() && self.events[0].date.wf()
    }

    /// Whether `signal` carries what a request of its kind needs: an event
    /// to delete, an event with a subscriber to subscribe, unsubscribe or
    /// create, and for creation a number left to give it. Creation without
    /// a channel for announcements needs nothing, as it only asks for one.
    pub open spec fn accepts(self, signal: SignalModel) -> bool {
        match signal.event_type {
            Command::Create => self.bot_channel is None || (signal.names_user()
                && self.id_counter < u64::MAX),
            Command::Delete => signal.event_info is Some,
            Command::Subscribe | Command::Unsubscribe => signal.names_user(),
            Command::List | Command::Channel | Command::Invalid => true,
        }
    }

    /// The store and the actions after `signal` arrived. A signal that is
    /// invalid, or lacks what its kind needs, changes and causes nothing.
    pub open spec fn dispatched(self, signal: SignalModel) -> (StoreModel, Seq<ActionModel>) {
        if !self.accepts(signal) {
            (self, Seq::empty())
        } else {
            match signal.event_type {
                Command::List => (self, self.listed(signal.channel_id)),
                Command::Delete => self.deleted(signal),
                Command::Create => self.created(signal),
                Command::Subscribe => (
                    self.subscribed(signal.user(), signal.id()),
                    self.subscribe_actions(signal),
                ),
                Command::Unsubscribe => (
                    self.unsubscribed(signal.user(), signal.id()),
                    self.unsubscribe_actions(signal),
                ),
                Command::Channel => (
                    self.with_channel(signal.channel_id),
                    saved_and_confirmed(signal.channel_id, "Bot Channel Configured!"@),
                ),
                Command::Invalid => (self, Seq::empty()),
            }
        }
    }

    /// Seconds to wait for the head of the queue on a clock that reads
    /// `now`; an hour where the queue is empty.
    pub open spec fn wait(self, now: int) -> int {
        if self.events.len() == 0 {
            3600
        } else {
            self.events[0].distance(now)
        }
    }
}

/// The action of sending `text` to `channel`.
fn send_to(channel: u64, text: &str) -> (a: Action)
    ensures
        a@ == send(channel, text@),
{
    Action::Send { channel, text: text.to_owned() }
}

/// Saving the store, then confirming to `channel` with `text`.
fn save_and_confirm(channel: u64, text: &str) -> (out: Vec<Action>)
    ensures
        action_views(out@) == saved_and_confirmed(channel, text@),
{
    let mut out: Vec<Action> = Vec::new();
    out.push(Action::Persist);
    out.push(send_to(channel, text));
    assert(action_views(out@) =~= saved_and_confirmed(channel, text@));
    out
}

/// No action.
fn nothing() -> (out: Vec<Action>)
    ensures
        action_views(out@) == Seq::<ActionModel>::empty(),
{
    let out: Vec<Action> = Vec::new();
    assert(action_views(out@) =~= Seq::<ActionModel>::empty());
    out
}

/// One action.
fn only(a: Action) -> (out: Vec<Action>)
    ensures
        action_views(out@) == seq![a@],
{
    let mut out: Vec<Action> = Vec::new();
    out.push(a);
    assert(action_views(out@) =~= seq![a@]);
    out
}

/// Subscribes the first subscriber of the signal's event to the event of
/// that number; saves and confirms where that changed the store.
pub fn subscribeEvent(config: &mut RinrOptions, data: EventSignal) -> (out: Vec<Action>)
    requires
        data@.names_user(),
    ensures
        final(config)@ == old(config)@.subscribed(data@.user(), data@.id()),
        action_views(out@) == old(config)@.subscribe_actions(data@),
{
    let channel: u64 = data.channel_id;
    let ret: bool = match data.event_info {
        Some(info) => config.subscribe(info),
        None => false,
    };
    if ret {
        save_and_confirm(channel, "Successfully subscribed to Event")
    } else {
        nothing()
    }
}

/// Takes the first subscriber of the signal's event out of the event of
/// that number; saves and confirms where that changed the store.
pub fn unsubscribeEvent(config: &mut RinrOptions, data: EventSignal) -> (out: Vec<Action>)
    requires
        data@.names_user(),
    ensures
        final(config)@ == old(config)@.unsubscribed(data@.user(), data@.id()),
        action_views(out@) == old(config)@.unsubscribe_actions(data@),
{
    let channel: u64 = data.channel_id;
    let ret: bool = match data.event_info {
        Some(info) => config.unsubscribe(info),
        None => false,
    };
    if ret {
        save_and_confirm(channel, "Successfully unsubscribed from Event")
    } else {
        nothing()
    }
}

/// Whether some event of the store is numbered `id`.
pub fn has_event(config: &RinrOptions, id: u64) -> (found: bool)
    ensures
        found == config@.has_id(id),
{
    let mut i: usize = 0;
    while i < config.events.len()
        invariant
            i <= config.events.len(),
            forall|k: int| 0 <= k < i ==> config@.events[k].id != id,
        decreases config.events.len() - i,
    {
        assert(config@.events[i as int] == config.events@[i as int]@);
        if config.events[i].id == id {
            return true;
        }
        i += 1;
    }
    false
}

/// Drops the events that carry the number of the signal's event, saves and
/// confirms. Where no event carries that number, the store stays as it is
/// and nothing is sent.
pub fn deleteEvent(config: &mut RinrOptions, data: EventSignal) -> (out: Vec<Action>)
    requires
        data@.event_info is Some,
    ensures
        (final(config)@, action_views(out@)) == old(config)@.deleted(data@),
{
    match data.event_info {
        Some(info) => {
            if has_event(config, info.id) {
                config.removeEntry(info.id);
                save_and_confirm(data.channel_id, "Successfully deleted event")
            } else {
                nothing()
            }
        },
        None => nothing(),
    }
}

/// Puts the signal's event into the queue, saves and confirms; where no
/// channel for announcements is set, asks for one instead and leaves the
/// store as it is.
pub fn createEvent(config: &mut RinrOptions, data: EventSignal) -> (out: Vec<Action>)
    requires
        old(config).bot_channel is Some ==> data@.names_user() && old(config).id_counter
            < u64::MAX,
    ensures
        (final(config)@, action_views(out@)) == old(config)@.created(data@),
{
    if config.bot_channel.is_none() {
        return only(
            send_to(
                data.channel_id,
                "Please configure the Bot channel!\nYou can do this by using $event channel.",
            ),
        );
    }
    match data.event_info {
        Some(info) => config.insert(info),
        None => {},
    }
    save_and_confirm(data.channel_id, "Successfully added event")
}

/// Makes `id` the channel for announcements, saves and confirms there.
pub fn channelEvent(config: &mut RinrOptions, id: u64) -> (out: Vec<Action>)
    ensures
        final(config)@ == old(config)@.with_channel(id),
        action_views(out@) == saved_and_confirmed(id, "Bot Channel Configured!"@),
{
    config.setChannel(id);
    save_and_confirm(id, "Bot Channel Configured!")
}

/// Sends the listing of the queue to the channel for announcements; where
/// none is set, asks `id` for one.
pub fn listEvent(config: &RinrOptions, id: u64) -> (out: Vec<Action>)
    ensures
        action_views(out@) == config@.listed(id),
{
    match config.bot_channel {
        None => only(
            send_to(
                id,
                "Please configure the Bot channel!\nYou can do this by using $event channel.",
            ),
        ),
        Some(bot) => {
            if config.events.len() == 0 {
                only(send_to(bot, "No Events Available"))
            } else {
                let form: String = formatEvents(config.events.as_slice());
                only(Action::Send { channel: bot, text: form })
            }
        },
    }
}

/// Announces the event at the head of the queue if its interval lets it
/// fire on `today`, and takes it out of the queue if it fires once only.
pub fn activate_on(config: &mut RinrOptions, today: &EventDate) -> (out: Vec<Action>)
    requires
        old(config)@.head_dated(*today),
    ensures
        (final(config)@, action_views(out@)) == old(config)@.activated(*today),
{
    let channel: u64 = match config.bot_channel {
        Some(c) => c,
        None => {
            return nothing();
        },
    };
    if config.events.len() == 0 {
        return nothing();
    }
    assert(config@.events[0] == config.events@[0]@);
    let verdict: Firing = evaluate_on(config.events[0].interval, &config.events[0].date, today);
    if verdict == Firing::Skip {
        return nothing();
    }
    let mut out: Vec<Action> = Vec::new();
    out.push(Action::Send { channel, text: announce(&config.events[0]) });
    match &config.events[0].command {
        Some(command) => out.push(send_to(channel, command.as_str())),
        None => {},
    }
    assert(action_views(out@) =~= config@.head_sends());
    if verdict == Firing::FireAndRemove {
        let id: u64 = config.events[0].id;
        config.removeEntry(id);
        let ghost sent = action_views(out@);
        out.push(Action::Persist);
        assert(action_views(out@) =~= sent.push(ActionModel::Persist));
    }
    out
}

/// Reads today's date from the clock and lets the wait for the head of the
/// queue elapse on it.
pub fn activateEvent(config: &mut RinrOptions) -> (out: Vec<Action>)
    requires
        old(config)@.events.len() > 0 && old(config)@.events[0].interval == Timeslice::Weekly
            ==> old(config)@.events[0].date.wf(),
    ensures
        exists|today: EventDate|
            today.wf() && (final(config)@, action_views(out@)) == old(config)@.activated(today),
{
    let today: EventDate = local_date();
    activate_on(config, &today)
}

/// Whether `data` carries an event with at least one subscriber.
fn names_user(data: &EventSignal) -> (named: bool)
    ensures
        named == data@.names_user(),
{
    match &data.event_info {
        Some(info) => info.subscribers.len() > 0,
        None => false,
    }
}

/// Carries out the request of `data` on the store and returns what is to be
/// saved and sent. A signal that is invalid, or lacks what its kind needs,
/// is dropped.
pub fn dispatch(config: &mut RinrOptions, data: EventSignal) -> (out: Vec<Action>)
    ensures
        (final(config)@, action_views(out@)) == old(config)@.dispatched(data@),
{
    match data.event_type {
        Command::List => listEvent(config, data.channel_id),
        Command::Delete => {
            if data.event_info.is_some() {
                deleteEvent(config, data)
            } else {
                nothing()
            }
        },
        Command::Create => {
            if config.bot_channel.is_none() || (names_user(&data) && config.id_counter
                < u64::MAX) {
                createEvent(config, data)
            } else {
                nothing()
            }
        },
        Command::Subscribe => {
            if names_user(&data) {
                subscribeEvent(config, data)
            } else {
                nothing()
            }
        },
        Command::Unsubscribe => {
            if names_user(&data) {
                unsubscribeEvent(config, data)
            } else {
                nothing()
            }
        },
        Command::Channel => channelEvent(config, data.channel_id),
        Command::Invalid => nothing(),
    }
}

/// What ended a wait of the scheduler.
#[derive(Debug, Clone, PartialEq, Eq)]
pub enum Wake {
    /// A signal arrived before the wait was over.
    Signal(EventSignal),
    /// The wait for the head of the queue elapsed.
    Timeout,
}

/// One turn of the scheduler on `today`: a signal is carried out, an
/// elapsed wait lets the head of the queue come due.
pub fn step(config: &mut RinrOptions, wake: Wake, today: &EventDate) -> (out: Vec<Action>)
    requires
        wake is Timeout ==> old(config)@.head_dated(*today),
    ensures
        (final(config)@, action_views(out@)) == match wake {
            Wake::Signal(data) => old(config)@.dispatched(data@),
            Wake::Timeout => old(config)@.activated(*today),
        },
{
    match wake {
        Wake::Signal(data) => dispatch(config, data),
        Wake::Timeout => activate_on(config, today),
    }
}

/// Puts the queue in order for a clock that reads `now` and tells how many
/// seconds to wait for its head: the distance of the head, or an hour where
/// the queue is empty.
pub fn plan_wait(config: &mut RinrOptions, now: &EventTime) -> (seconds: u64)
    requires
        now.wf(),
    ensures
        final(config)@.is_resorted(old(config)@, now.seconds()),
        seconds == final(config)@.wait(now.seconds()),
        seconds > 0,
{
    config.resort_at(now);
    if config.events.len() == 0 {
        3600
    } else {
        assert(config@.events[0] == config.events@[0]@);
        let d: i64 = now.timeDif(&config.events[0].timestamp);
        d as u64
    }
}

} // verus!
