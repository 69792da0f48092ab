//! The order of the queue: soonest next occurrence first, and among events
//! that are equally far away, the order they had before.

use crate::clock::{Diff, EventTime};
use crate::store::{event_views, DailyEvent, EventModel, RinrOptions, StoreModel};
use vstd::prelude::*;

verus! {

/// The events whose time of day is `distance` seconds away on a clock that
/// reads `now`.
pub open spec fn due_in(now: int, distance: int) -> spec_fn(EventModel) -> bool {
    |e: EventModel| e.distance(now) == distance
}

/// No event is further away than one behind it.
pub open spec fn soonest_first(events: Seq<EventModel>, now: int) -> bool {
    forall|i: int, j: int|
        0 <= i < j < events.len() ==> events[i].distance(now) <= events[j].distance(now)
}

/// For each distance, `after` and `before` hold the same events that far
/// away, in the same order.
pub open spec fn same_order_among_equals(
    after: Seq<EventModel>,
    before: Seq<EventModel>,
    now: int,
) -> bool {
    forall|distance: int| #[trigger]
        after.filter(due_in(now, distance)) == before.filter(due_in(now, distance))
}

/// `after` is `before` sorted by distance, equally distant events in their
/// former order.
pub open spec fn is_resort_of(after: Seq<EventModel>, before: Seq<EventModel>, now: int) -> bool {
    &&& soonest_first(after, now)
    &&& same_order_among_equals(after, before, now)
    &&& after.to_multiset() == before.to_multiset()
}

impl StoreModel {
    /// `self` is `before` with its queue put in order for a clock that reads
    /// `now` seconds since midnight, and nothing else changed.
    pub open spec fn is_resorted(self, before: StoreModel, now: int) -> bool {
        &&& is_resort_of(self.events, before.events, now)
        &&& self.bot_channel == before.bot_channel
        &&& self.id_counter == before.id_counter
        &&& self.reserved == before.reserved
        &&& before.wf() ==> self.wf()
    }
}

/// Moving the event at `from` forward to `to` keeps, for every distance, the
/// events that far away in order, provided that every event it passes is
/// strictly further away than it.
pub proof fn lemma_move_keeps_order(s: Seq<EventModel>, from: int, to: int, now: int)
    requires
        0 <= to <= from < s.len(),
        forall|k: int| to <= k < from ==> s[k].distance(now) > s[from].distance(now),
    ensures
        same_order_among_equals(s.remove(from).insert(to, s[from]), s, now),
{
    let moved = s.remove(from).insert(to, s[from]);
    let head = s.take(to);
    let passed = s.subrange(to, from);
    let x = seq![s[from]];
    let tail = s.skip(from + 1);
    assert(s =~= head + passed + x + tail);
    assert(moved =~= head + x + passed + tail);
    assert forall|distance: int| #[trigger]
        moved.filter(due_in(now, distance)) == s.filter(due_in(now, distance)) by {
        let p = due_in(now, distance);
        Seq::filter_distributes_over_add(head, passed, p);
        Seq::filter_distributes_over_add(head + passed, x, p);
        Seq::filter_distributes_over_add(head + passed + x, tail, p);
        Seq::filter_distributes_over_add(head, x, p);
        Seq::filter_distributes_over_add(head + x, passed, p);
        Seq::filter_distributes_over_add(head + x + passed, tail, p);
        if p(s[from]) {
            assert(passed.all(|e: EventModel| !p(e)));
            passed.lemma_all_neg_filter_empty(p);
            assert(passed.filter(p) =~= Seq::empty());
        } else {
            assert(x.all(|e: EventModel| !p(e)));
            x.lemma_all_neg_filter_empty(p);
            assert(x.filter(p) =~= Seq::empty());
        }
        assert(head.filter(p) + passed.filter(p) + x.filter(p) + tail.filter(p) =~= head.filter(p)
            + x.filter(p) + passed.filter(p) + tail.filter(p));
    }
}

/// Moving the event at `from` to `to` leaves the first `from + 1` events in
/// order, where the first `from` were in order, no event before `to` is
/// further away than the moved one, and every event it passes is.
pub proof fn lemma_move_sorts_prefix(s: Seq<EventModel>, from: int, to: int, now: int)
    requires
        0 <= to <= from < s.len(),
        soonest_first(s.take(from), now),
        forall|k: int| to <= k < from ==> s[k].distance(now) > s[from].distance(now),
        forall|k: int| 0 <= k < to ==> s[k].distance(now) <= s[from].distance(now),
    ensures
        soonest_first(s.remove(from).insert(to, s[from]).take(from + 1), now),
{
    let moved = s.remove(from).insert(to, s[from]).take(from + 1);
    assert forall|i: int, j: int| 0 <= i < j < moved.len() implies moved[i].distance(now)
        <= moved[j].distance(now) by {
        let a = if i < to {
            i
        } else if i == to {
            from
        } else {
            i - 1
        };
        let b = if j < to {
            j
        } else if j == to {
            from
        } else {
            j - 1
        };
        assert(moved[i] == s[a]);
        assert(moved[j] == s[b]);
        if a < from && b < from {
            assert(s.take(from)[a] == s[a]);
            assert(s.take(from)[b] == s[b]);
        }
    }
}

/// An event that a filter by distance keeps stands in the sequence and is
/// that far away.
proof fn lemma_kept_is_due(s: Seq<EventModel>, now: int, distance: int, i: int)
    requires
        0 <= i < s.filter(due_in(now, distance)).len(),
    ensures
        s.contains(s.filter(due_in(now, distance))[i]),
        s.filter(due_in(now, distance))[i].distance(now) == distance,
    decreases s.len(),
{
    reveal(Seq::filter);
    let p = due_in(now, distance);
    if s.len() > 0 {
        let front = s.drop_last();
        if i < front.filter(p).len() {
            lemma_kept_is_due(front, now, distance, i);
            let e = front.filter(p)[i];
            let k = choose|k: int| 0 <= k < front.len() && front[k] == e;
            assert(s[k] == e);
        } else {
            assert(s.filter(p)[i] == s.last());
            assert(s[s.len() - 1] == s.last());
        }
    }
}

/// Two orderings of the same queue for the same clock are one and the
/// same: being sorted, with equally distant events in their former order,
/// leaves no choice.
pub proof fn lemma_resort_is_unique(
    a: Seq<EventModel>,
    b: Seq<EventModel>,
    before: Seq<EventModel>,
    now: int,
)
    requires
        is_resort_of(a, before, now),
        is_resort_of(b, before, now),
    ensures
        a == b,
{
    assert(a.len() == b.len()) by {
        a.to_multiset_ensures();
        b.to_multiset_ensures();
    }
    assert forall|distance: int| #[trigger]
        a.filter(due_in(now, distance)) == b.filter(due_in(now, distance)) by {
        assert(a.filter(due_in(now, distance)) == before.filter(due_in(now, distance)));
        assert(b.filter(due_in(now, distance)) == before.filter(due_in(now, distance)));
    }
    lemma_sorted_alike(a, b, now);
}

/// Two sorted sequences of one length that agree, for each distance, on
/// the events that far away and their order, are equal.
proof fn lemma_sorted_alike(a: Seq<EventModel>, b: Seq<EventModel>, now: int)
    requires
        a.len() == b.len(),
        soonest_first(a, now),
        soonest_first(b, now),
        forall|distance: int| #[trigger]
            a.filter(due_in(now, distance)) == b.filter(due_in(now, distance)),
    ensures
        a == b,
    decreases a.len(),
{
    if a.len() == 0 {
        assert(a =~= b);
    } else {
        reveal(Seq::filter);
        let da = a.last().distance(now);
        let db = b.last().distance(now);
        let pa = due_in(now, da);
        let pb = due_in(now, db);
        // the last of each is due as far away as the last of the other
        assert(a.filter(pa) == b.filter(pa));
        assert(a.filter(pa).len() > 0);
        lemma_kept_is_due(b, now, da, 0);
        let ib = choose|k: int| 0 <= k < b.len() && b[k] == b.filter(pa)[0];
        assert(b[ib].distance(now) <= b[b.len() - 1].distance(now));
        assert(a.filter(pb) == b.filter(pb));
        assert(b.filter(pb).len() > 0);
        lemma_kept_is_due(a, now, db, 0);
        let ia = choose|k: int| 0 <= k < a.len() && a[k] == a.filter(pb)[0];
        assert(a[ia].distance(now) <= a[a.len() - 1].distance(now));
        assert(da == db);
        // so the last events are the same, and the fronts agree again
        assert(a.filter(pa) == a.drop_last().filter(pa).push(a.last()));
        assert(b.filter(pa) == b.drop_last().filter(pa).push(b.last()));
        assert(a.last() == a.filter(pa).last());
        assert(b.last() == b.filter(pa).last());
        assert(a.last() == b.last());
        let fa = a.drop_last();
        let fb = b.drop_last();
        assert forall|distance: int| #[trigger]
            fa.filter(due_in(now, distance)) == fb.filter(due_in(now, distance)) by {
            let p = due_in(now, distance);
            assert(a.filter(p) == b.filter(p));
            if distance == da {
                assert(fa.filter(p) == a.filter(p).drop_last());
                assert(fb.filter(p) == b.filter(p).drop_last());
            }
        }
        assert forall|i: int, j: int| 0 <= i < j < fa.len() implies fa[i].distance(now)
            <= fa[j].distance(now) by {
            assert(fa[i] == a[i] && fa[j] == a[j]);
        }
        assert forall|i: int, j: int| 0 <= i < j < fb.len() implies fb[i].distance(now)
            <= fb[j].distance(now) by {
            assert(fb[i] == b[i] && fb[j] == b[j]);
        }
        lemma_sorted_alike(fa, fb, now);
        assert(a =~= fa.push(a.last()));
        assert(b =~= fb.push(b.last()));
    }
}

/// Moving an event keeps a store in order.
pub proof fn lemma_move_keeps_wf(store: StoreModel, from: int, to: int)
    requires
        0 <= to <= from < store.events.len(),
        store.wf(),
    ensures
        (StoreModel {
            events: store.events.remove(from).insert(to, store.events[from]),
            ..store
        }).wf(),
{
    let s = store.events;
    let moved = s.remove(from).insert(to, s[from]);
    let origin = |i: int|
        if i < to {
            i
        } else if i == to {
            from
        } else if i <= from {
            i - 1
        } else {
            i
        };
    assert forall|i: int| 0 <= i < moved.len() implies moved[i] == s[origin(i)] by {}
    assert forall|i: int, j: int| 0 <= i < j < moved.len() implies moved[i].id != moved[j].id by {
        assert(moved[i] == s[origin(i)]);
        assert(moved[j] == s[origin(j)]);
        assert(origin(i) != origin(j));
    }
    assert forall|i: int| 0 <= i < moved.len() implies moved[i].id < store.id_counter
        && moved[i].subscribers.no_duplicates() by {
        assert(moved[i] == s[origin(i)]);
    }
}

/// Views commute with moving an event.
pub proof fn lemma_views_move(events: Seq<DailyEvent>, from: int, to: int)
    requires
        0 <= to <= from < events.len(),
    ensures
        event_views(events.remove(from).insert(to, events[from])) == event_views(events).remove(
            from,
        ).insert(to, events[from]@),
{
    assert(event_views(events.remove(from).insert(to, events[from])) =~= event_views(
        events,
    ).remove(from).insert(to, events[from]@));
}

impl RinrOptions {
    /// Puts the queue in order for a clock that reads `now`: soonest next
    /// occurrence first, equally distant events in their former order.
    pub fn resort_at(&mut self, now: &EventTime)
        ensures
            final(self)@.is_resorted(old(self)@, now.seconds()),
    {
        let ghost orig = self@.events;
        let ghost clock = now.seconds();
        let mut i: usize = 0;
        while i < self.events.len()
            invariant
                i <= self.events.len(),
                clock == now.seconds(),
                orig == old(self)@.events,
                self.bot_channel == old(self).bot_channel,
                self.id_counter == old(self).id_counter,
                self.reserved2 == old(self).reserved2,
                self.reserved3 == old(self).reserved3,
                soonest_first(self@.events.take(i as int), clock),
                same_order_among_equals(self@.events, orig, clock),
                self@.events.to_multiset() == orig.to_multiset(),
                old(self)@.wf() ==> self@.wf(),
            decreases self.events.len() - i,
        {
            let key: i64 = now.timeDif(&self.events[i].timestamp);
            let mut j: usize = i;
            while j > 0 && now.timeDif(&self.events[j - 1].timestamp) > key
                invariant
                    j <= i < self.events.len(),
                    clock == now.seconds(),
                    key == self@.events[i as int].distance(clock),
                    forall|k: int| j <= k < i ==> self@.events[k].distance(clock) > key,
                decreases j,
            {
                j -= 1;
            }
            let ghost before = self@.events;
            proof {
                assert forall|k: int| 0 <= k < j implies before[k].distance(clock) <= key by {
                    assert(before.take(i as int)[k] == before[k]);
                    assert(before.take(i as int)[j - 1] == before[j - 1]);
                }
                if self@.wf() {
                    lemma_move_keeps_wf(self@, i as int, j as int);
                }
                lemma_move_keeps_order(before, i as int, j as int, clock);
                lemma_move_sorts_prefix(before, i as int, j as int, clock);
                lemma_views_move(self.events@, i as int, j as int);
                before.to_multiset_ensures();
                vstd::seq_lib::to_multiset_remove(before, i as int);
                vstd::seq_lib::to_multiset_insert(before.remove(i as int), j as int, before[i as int]);
                assert(before.remove(i as int).insert(j as int, before[i as int]).to_multiset()
                    =~= before.to_multiset());
            }
            let event: DailyEvent = self.events.remove(i);
            self.events.insert(j, event);
            proof {
                let moved = before.remove(i as int).insert(j as int, before[i as int]);
                assert(self@.events == moved);
                assert forall|distance: int| #[trigger]
                    moved.filter(due_in(clock, distance)) == orig.filter(
                        due_in(clock, distance),
                    ) by {
                    assert(before.filter(due_in(clock, distance)) == orig.filter(
                        due_in(clock, distance),
                    ));
                }
            }
            i += 1;
        }
        proof {
            assert(self@.events.take(i as int) =~= self@.events);
        }
    }
}

} // verus!
