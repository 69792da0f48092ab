//! What the operations of the store keep true, and what follows for
//! repeated requests.

use crate::clock::{EventDate, EventTime};
use crate::parse::{date_of, insert_request, insert_signal, time_of};
use crate::recurrence::Firing;
use crate::scheduler::{ActionModel, Command, SignalModel};
use crate::store::{
    lemma_first_candidate, not_numbered, other_than, EventModel, StoreModel, Timeslice,
};
use vstd::prelude::*;

verus! {

/// What holds of every two items of a sequence, the earlier given first,
/// holds of every two items that a filter keeps; and the filter keeps only
/// items of the sequence.
pub proof fn lemma_filter_keeps_pairs<A>(
    s: Seq<A>,
    keep: spec_fn(A) -> bool,
    holds: spec_fn(A, A) -> bool,
)
    requires
        forall|i: int, j: int| 0 <= i < j < s.len() ==> holds(s[i], s[j]),
    ensures
        forall|i: int, j: int|
            0 <= i < j < s.filter(keep).len() ==> holds(s.filter(keep)[i], s.filter(keep)[j]),
        forall|i: int| 0 <= i < s.filter(keep).len() ==> s.contains(#[trigger] s.filter(keep)[i]),
        forall|i: int| 0 <= i < s.filter(keep).len() ==> keep(#[trigger] s.filter(keep)[i]),
    decreases s.len(),
{
    reveal(Seq::filter);
    if s.len() > 0 {
        let front = s.drop_last();
        assert forall|i: int, j: int| 0 <= i < j < front.len() implies holds(
            front[i],
            front[j],
        ) by {
            assert(front[i] == s[i] && front[j] == s[j]);
        }
        lemma_filter_keeps_pairs(front, keep, holds);
        let kept = s.filter(keep);
        let kept_front = front.filter(keep);
        assert forall|i: int| 0 <= i < kept.len() implies s.contains(#[trigger] kept[i]) by {
            if i < kept_front.len() {
                assert(kept[i] == kept_front[i]);
                assert(front.contains(kept_front[i]));
                let k = choose|k: int| 0 <= k < front.len() && front[k] == kept_front[i];
                assert(s[k] == kept[i]);
            } else {
                assert(kept[i] == s[s.len() - 1]);
            }
        }
        assert forall|i: int, j: int| 0 <= i < j < kept.len() implies holds(kept[i], kept[j]) by {
            if j < kept_front.len() {
                assert(kept[i] == kept_front[i] && kept[j] == kept_front[j]);
            } else {
                assert(kept[j] == s.last());
                assert(kept[i] == kept_front[i]);
                assert(front.contains(kept_front[i]));
                let k = choose|k: int| 0 <= k < front.len() && front[k] == kept_front[i];
                assert(holds(s[k], s[s.len() - 1]));
            }
        }
    }
}

/// Inserting keeps the store in order, where a number is left to give and
/// the event lists no subscriber twice once it is admitted.
pub proof fn lemma_inserted_wf(store: StoreModel, event: EventModel)
    requires
        store.wf(),
        store.id_counter < u64::MAX,
        event.admitted(store.id_counter).subscribers.no_duplicates(),
    ensures
        store.inserted(event).wf(),
        store.inserted(event).events.len() == store.events.len() + 1,
        store.inserted(event).has_id(store.id_counter),
{
    let after = store.inserted(event);
    assert(after.events[store.events.len() as int].id == store.id_counter);
}

/// Subscribing keeps the store in order.
pub proof fn lemma_subscribed_wf(store: StoreModel, user: u64, id: u64)
    requires
        store.wf(),
    ensures
        store.subscribed(user, id).wf(),
        store.subscribed(user, id).events.len() == store.events.len(),
{
    lemma_first_candidate(store.events, id, user, false, 0);
    let at = store.subscribe_target(user, id);
    if at < store.events.len() {
        let before = store.events[at].subscribers;
        assert(!before.contains(user));
        assert(before.push(user).no_duplicates());
    }
}

/// Unsubscribing keeps the store in order, and the user is gone from the
/// event it changed.
pub proof fn lemma_unsubscribed_wf(store: StoreModel, user: u64, id: u64)
    requires
        store.wf(),
    ensures
        store.unsubscribed(user, id).wf(),
        store.unsubscribed(user, id).events.len() == store.events.len(),
        store.unsubscribe_target(user, id) < store.events.len() ==> !store.unsubscribed(
            user,
            id,
        ).events[store.unsubscribe_target(user, id)].subscribers.contains(user),
{
    lemma_first_candidate(store.events, id, user, true, 0);
    let at = store.unsubscribe_target(user, id);
    if at < store.events.len() {
        let before = store.events[at].subscribers;
        lemma_filter_keeps_pairs(before, other_than(user), |a: u64, b: u64| a != b);
        let after = before.filter(other_than(user));
        if after.contains(user) {
            let k = choose|k: int| 0 <= k < after.len() && after[k] == user;
            assert(other_than(user)(after[k]));
        }
    }
}

/// Removing keeps the store in order, and leaves no event with the number
/// that was removed.
pub proof fn lemma_removed_wf(store: StoreModel, id: u64)
    requires
        store.wf(),
    ensures
        store.removed(id).wf(),
        !store.removed(id).has_id(id),
{
    lemma_filter_keeps_pairs(
        store.events,
        not_numbered(id),
        |a: EventModel, b: EventModel| a.id != b.id,
    );
    let kept = store.events.filter(not_numbered(id));
    assert forall|i: int| 0 <= i < kept.len() implies kept[i].id < store.id_counter
        && kept[i].subscribers.no_duplicates() by {
        assert(store.events.contains(kept[i]));
        let k = choose|k: int| 0 <= k < store.events.len() && store.events[k] == kept[i];
    }
    assert forall|i: int| 0 <= i < kept.len() implies kept[i].id != id by {
        assert(not_numbered(id)(kept[i]));
    }
}

/// Removing a number that no event carries changes nothing.
pub proof fn lemma_remove_absent(store: StoreModel, id: u64)
    requires
        !store.has_id(id),
    ensures
        store.removed(id) == store,
{
    lemma_keep_all(store.events, not_numbered(id));
}

/// A filter that every item passes keeps the sequence as it is.
pub proof fn lemma_keep_all<A>(s: Seq<A>, keep: spec_fn(A) -> bool)
    requires
        forall|i: int| 0 <= i < s.len() ==> keep(s[i]),
    ensures
        s.filter(keep) == s,
    decreases s.len(),
{
    reveal(Seq::filter);
    if s.len() > 0 {
        let front = s.drop_last();
        assert forall|i: int| 0 <= i < front.len() implies keep(front[i]) by {
            assert(front[i] == s[i]);
        }
        lemma_keep_all(front, keep);
        assert(front.push(s.last()) =~= s);
    }
}

/// Removing the same number a second time changes nothing: the first
/// removal leaves no event to remove.
pub proof fn lemma_remove_twice(store: StoreModel, id: u64)
    ensures
        store.removed(id).removed(id) == store.removed(id),
{
    let once = store.removed(id);
    lemma_filter_keeps_pairs(store.events, not_numbered(id), |a: EventModel, b: EventModel| true);
    assert forall|i: int| 0 <= i < once.events.len() implies not_numbered(id)(
        once.events[i],
    ) by {}
    lemma_keep_all(once.events, not_numbered(id));
}

/// A request to subscribe a user to a number changes nothing and is
/// answered with no, where every event of that number lists the user
/// already.
pub proof fn lemma_subscribe_again(store: StoreModel, user: u64, id: u64)
    requires
        forall|i: int|
            0 <= i < store.events.len() && store.events[i].id == id
                ==> store.events[i].subscribers.contains(user),
    ensures
        store.subscribe_target(user, id) == store.events.len(),
        store.subscribed(user, id) == store,
{
    lemma_first_candidate(store.events, id, user, false, 0);
}

/// In a store in order, a second request to subscribe the same user to the
/// same number changes nothing.
pub proof fn lemma_subscribe_twice(store: StoreModel, user: u64, id: u64)
    requires
        store.wf(),
    ensures
        store.subscribed(user, id).subscribed(user, id) == store.subscribed(user, id),
        store.subscribed(user, id).subscribe_target(user, id) == store.events.len(),
{
    lemma_first_candidate(store.events, id, user, false, 0);
    let once = store.subscribed(user, id);
    let at = store.subscribe_target(user, id);
    assert forall|i: int|
        0 <= i < once.events.len() && once.events[i].id == id implies once.events[i].subscribers.contains(
        user,
    ) by {
        if at < store.events.len() {
            if i == at {
                let subs = store.events[at].subscribers.push(user);
                assert(subs[subs.len() - 1] == user);
            } else {
                assert(store.events[i].id == store.events[at].id);
            }
        }
    }
    lemma_subscribe_again(once, user, id);
}

/// In a store in order, removing the number of the first event takes out
/// that event and no other.
pub proof fn lemma_remove_head(store: StoreModel)
    requires
        store.wf(),
        store.events.len() > 0,
    ensures
        store.removed(store.events[0].id).events == store.events.drop_first(),
{
    let id = store.events[0].id;
    let keep = not_numbered(id);
    let head = seq![store.events[0]];
    let rest = store.events.drop_first();
    assert(store.events =~= head + rest);
    Seq::filter_distributes_over_add(head, rest, keep);
    assert(head.all(|e: EventModel| !keep(e)));
    head.lemma_all_neg_filter_empty(keep);
    assert(head.filter(keep) =~= Seq::empty());
    assert forall|i: int| 0 <= i < rest.len() implies keep(rest[i]) by {
        assert(rest[i] == store.events[i + 1]);
    }
    lemma_keep_all(rest, keep);
    assert(head.filter(keep) + rest.filter(keep) =~= rest);
}

/// A one-time event at the head of the queue whose anchor is today or lies
/// in the past is announced when its wait elapses, and leaves a store in
/// order for good: the queue is one event shorter, the other events are as
/// they were, and no event carries its number any more.
pub proof fn lemma_overdue_once_fires_once(store: StoreModel, today: EventDate)
    requires
        store.wf(),
        store.bot_channel is Some,
        store.events.len() > 0,
        store.events[0].interval == Timeslice::Once,
        store.events[0].date == today || store.events[0].date.precedes(&today),
    ensures
        store.head_decision(today) == Firing::FireAndRemove,
        store.activated(today).0.events == store.events.drop_first(),
        store.activated(today).0.events.len() == store.events.len() - 1,
        !store.activated(today).0.has_id(store.events[0].id),
        store.activated(today).0.wf(),
        store.activated(today).1 == store.head_sends().push(ActionModel::Persist),
{
    lemma_remove_head(store);
    lemma_removed_wf(store, store.events[0].id);
}

/// Removing a number leaves no event that carries it.
pub proof fn lemma_removed_is_gone(store: StoreModel, id: u64)
    ensures
        !store.removed(id).has_id(id),
{
    lemma_filter_keeps_pairs(store.events, not_numbered(id), |a: EventModel, b: EventModel| true);
    let kept = store.events.filter(not_numbered(id));
    assert forall|i: int| 0 <= i < kept.len() implies kept[i].id != id by {
        assert(not_numbered(id)(kept[i]));
    }
}

/// A request to delete a number that no event carries changes nothing and
/// is answered with nothing; so is a second request to delete the same
/// number, whatever the first one did.
pub proof fn lemma_delete_again(store: StoreModel, signal: SignalModel)
    ensures
        !store.has_id(signal.id()) ==> store.deleted(signal) == (
            store,
            Seq::<ActionModel>::empty(),
        ),
        store.deleted(signal).0.deleted(signal) == (
            store.deleted(signal).0,
            Seq::<ActionModel>::empty(),
        ),
{
    lemma_removed_is_gone(store, signal.id());
}

/// Whatever a signal asks for, carrying it out keeps the store in order,
/// provided that an event to create lists no subscriber twice.
pub proof fn lemma_dispatched_wf(store: StoreModel, signal: SignalModel)
    requires
        store.wf(),
        signal.event_type == Command::Create && signal.event_info is Some
            ==> signal.event_info->0.admitted(store.id_counter).subscribers.no_duplicates(),
    ensures
        store.dispatched(signal).0.wf(),
{
    if store.accepts(signal) {
        match signal.event_type {
            Command::Create => {
                if store.bot_channel is Some {
                    lemma_inserted_wf(store, signal.event_info->0);
                }
            },
            Command::Delete => {
                lemma_removed_wf(store, signal.id());
            },
            Command::Subscribe => {
                lemma_subscribed_wf(store, signal.user(), signal.id());
            },
            Command::Unsubscribe => {
                lemma_unsubscribed_wf(store, signal.user(), signal.id());
            },
            _ => {},
        }
    }
}

/// An elapsed wait keeps the store in order, whatever the day.
pub proof fn lemma_activated_wf(store: StoreModel, today: EventDate)
    requires
        store.wf(),
    ensures
        store.activated(today).0.wf(),
{
    if store.head_fires(today) && store.head_decision(today) == Firing::FireAndRemove {
        lemma_removed_wf(store, store.events[0].id);
    }
}

/// An elapsed wait takes no event out of the queue unless the head fires
/// once only, and never puts one in.
pub proof fn lemma_activated_keeps_others(store: StoreModel, today: EventDate)
    ensures
        store.activated(today).0 == store || (store.events.len() > 0
            && store.events[0].interval == Timeslice::Once && store.activated(today).0
            == store.removed(store.events[0].id)),
{
}

/// The event of a request to create holds a time of day, is anchored today
/// or later, starts with exactly one subscriber, who can make no duplicate,
/// and holds a date that exists where today and the date asked for do.
pub proof fn lemma_created_event(
    name: Option<Seq<char>>,
    description: Option<Seq<char>>,
    time: Option<Option<EventTime>>,
    subscribe: Option<bool>,
    command: Option<Seq<char>>,
    date: Option<EventDate>,
    interval: Option<Timeslice>,
    author: u64,
    channel: u64,
    today: EventDate,
)
    requires
        time is Some && time->0 is Some ==> time->0->0.wf(),
    ensures
        ({
            let signal = insert_signal(
                name,
                description,
                time,
                subscribe,
                command,
                date,
                interval,
                author,
                channel,
                today,
            );
            signal.event_info matches Some(e) ==> {
                &&& signal.event_type == Command::Create
                &&& e.timestamp.wf()
                &&& !e.date.precedes(&today)
                &&& e.subscribers.len() == 1
                &&& e.subscribers.no_duplicates()
                &&& forall|id: u64| e.admitted(id).subscribers.no_duplicates()
                &&& today.wf() && (date is Some ==> date->0.wf()) ==> e.date.wf()
            }
        }),
{
}

/// A time read out of a match is a time of day, and a date read out of a
/// match exists.
pub proof fn lemma_fields_exist(found: Option<Seq<Option<Seq<char>>>>)
    ensures
        time_of(found) matches Some(Some(t)) ==> t.wf(),
        date_of(found) matches Some(d) ==> d.wf(),
{
}

/// The event that a chat text asks to create on a day that exists holds a
/// time of day and a date that exists, is anchored that day or later, and
/// starts with exactly one subscriber.
pub proof fn lemma_created_from_text(text: Seq<char>, author: u64, channel: u64, today: EventDate)
    requires
        today.wf(),
    ensures
        insert_request(text, author, channel, today).event_info matches Some(e) ==> {
            &&& e.timestamp.wf()
            &&& e.date.wf()
            &&& !e.date.precedes(&today)
            &&& e.subscribers.len() == 1
            &&& e.id == 0
        },
{
    lemma_fields_exist(crate::parse::captured(crate::parse::TIME_PATTERN@, text));
    lemma_fields_exist(crate::parse::captured(crate::parse::DATE_PATTERN@, text));
}

} // verus!
