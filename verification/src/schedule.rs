//! When each viewport is to be painted again.

use std::collections::HashMap;
use vstd::prelude::*;

verus! {

broadcast use vstd::std_specs::hash::group_hash_axioms;

/// The time at which each viewport that asked for it is to be painted again, in nanoseconds.
pub struct RepaintSchedule {
    at: HashMap<u64, u128>,
}

impl View for RepaintSchedule {
    type V = Map<u64, u128>;

    closed spec fn view(&self) -> Map<u64, u128> {
        self.at@
    }
}

/// Whether some viewport's time has passed.
pub open spec fn any_expired(schedule: Map<u64, u128>, now: u128) -> bool {
    exists|id: u64| #[trigger] schedule.contains_key(id) && schedule[id] < now
}

/// Whether the viewport's time has come.
pub open spec fn is_due(schedule: Map<u64, u128>, id: u64, now: u128) -> bool {
    schedule.contains_key(id) && schedule[id] <= now
}

/// The schedule once the viewport has been painted, if its time has come.
pub open spec fn settled(schedule: Map<u64, u128>, id: u64, now: u128) -> Map<u64, u128> {
    if is_due(schedule, id, now) {
        schedule.remove(id)
    } else {
        schedule
    }
}

/// A requested repaint comes due once its delay is over, not earlier; until then settling the
/// viewport leaves it on the schedule, and once painted it is due no more.
pub proof fn law_repaint_waits_for_its_delay(
    schedule: Map<u64, u128>,
    id: u64,
    now: u128,
    delay: u128,
    later: u128,
)
    requires
        now + delay <= u128::MAX,
    ensures
        ({
            let asked = schedule.insert(id, (now + delay) as u128);
            &&& is_due(asked, id, later) <==> now + delay <= later
            &&& now + delay > later ==> settled(asked, id, later) == asked
            &&& !is_due(settled(asked, id, later), id, later)
        }),
{
}

/// Settling a viewport changes no other viewport's time.
pub proof fn law_settling_is_local(schedule: Map<u64, u128>, id: u64, other: u64, now: u128)
    requires
        id != other,
    ensures
        settled(schedule, id, now).contains_key(other) == schedule.contains_key(other),
        schedule.contains_key(other) ==> settled(schedule, id, now)[other] == schedule[other],
        is_due(settled(schedule, id, now), other, now) == is_due(schedule, other, now),
{
}

/// A frame is only drawn when some viewport is due in it.
pub proof fn law_expired_is_due(schedule: Map<u64, u128>, now: u128)
    requires
        any_expired(schedule, now),
    ensures
        exists|id: u64| #[trigger] is_due(schedule, id, now),
{
    let id = choose|id: u64| #[trigger] schedule.contains_key(id) && schedule[id] < now;
    assert(is_due(schedule, id, now));
}

/// A time that has passed calls for a frame, however long ago it passed; without one there is no
/// frame.
pub proof fn law_passed_time_calls_for_a_frame(schedule: Map<u64, u128>, now: u128)
    ensures
        forall|id: u64| #[trigger]
            schedule.contains_key(id) && schedule[id] < now ==> any_expired(schedule, now),
        (forall|id: u64| #[trigger] schedule.contains_key(id) ==> now <= schedule[id])
            ==> !any_expired(schedule, now),
{
}

/// Once a frame is called for, it stays called for as time goes on.
pub proof fn law_expired_stays_expired(schedule: Map<u64, u128>, now: u128, later: u128)
    requires
        any_expired(schedule, now),
        now <= later,
    ensures
        any_expired(schedule, later),
{
    let id = choose|id: u64| #[trigger] schedule.contains_key(id) && schedule[id] < now;
    assert(schedule.contains_key(id) && schedule[id] < later);
}

/// A request calls for a frame as soon as its delay has passed, at every time from then on, and
/// as long as nothing else does, not before.
pub proof fn law_request_calls_for_a_frame(
    schedule: Map<u64, u128>,
    id: u64,
    now: u128,
    delay: u128,
    later: u128,
)
    requires
        now + delay <= u128::MAX,
    ensures
        ({
            let asked = schedule.insert(id, (now + delay) as u128);
            &&& now + delay < later ==> any_expired(asked, later)
            &&& now + delay >= later && !any_expired(schedule, later) ==> !any_expired(
                asked,
                later,
            )
        }),
{
    let asked = schedule.insert(id, (now + delay) as u128);
    assert(asked.contains_key(id));
    if now + delay >= later && any_expired(asked, later) {
        let other = choose|other: u64| #[trigger]
            asked.contains_key(other) && asked[other] < later;
        assert(schedule.contains_key(other) && schedule[other] < later);
    }
}

/// A viewport is due from its time on and never before, and one without a time never is. Settling
/// takes a viewport off the schedule exactly if it is due, and takes off nothing else.
pub proof fn law_settling_takes_off_what_is_due(schedule: Map<u64, u128>, id: u64, now: u128)
    ensures
        schedule.contains_key(id) ==> (is_due(schedule, id, now) <==> schedule[id] <= now),
        !schedule.contains_key(id) ==> !is_due(schedule, id, now),
        settled(schedule, id, now).dom() == (if is_due(schedule, id, now) {
            schedule.dom().remove(id)
        } else {
            schedule.dom()
        }),
        forall|other: u64| #[trigger]
            settled(schedule, id, now).contains_key(other) ==> settled(schedule, id, now)[other]
                == schedule[other],
{
    assert(settled(schedule, id, now).dom() =~= (if is_due(schedule, id, now) {
        schedule.dom().remove(id)
    } else {
        schedule.dom()
    }));
}

impl RepaintSchedule {
    /// A schedule without entries.
    pub fn new() -> (schedule: RepaintSchedule)
        ensures
            schedule@ == Map::<u64, u128>::empty(),
    {
        RepaintSchedule { at: HashMap::new() }
    }

    /// Has the viewport painted again after the delay. An earlier request gives way.
    pub fn request(&mut self, id: u64, now: u128, delay: u128)
        requires
            now + delay <= u128::MAX,
        ensures
            final(self)@ == old(self)@.insert(id, (now + delay) as u128),
    {
        self.at.insert(id, now + delay);
    }

    /// Whether some viewport's time has passed.
    pub fn should_repaint(&self, now: u128) -> (expired: bool)
        ensures
            expired == any_expired(self@, now),
            forall|id: u64| #[trigger]
                self@.contains_key(id) && self@[id] < now ==> expired,
            (forall|id: u64| #[trigger] self@.contains_key(id) ==> self@[id] >= now) ==> !expired,
    {
        for id in iter: self.at.keys()
            invariant
                forall|i: int| 0 <= i < iter.index() ==> self.at@[*#[trigger] iter.seq()[i]] >= now,
        {
            if let Some(at) = self.at.get(id) {
                if *at < now {
                    assert(self@.contains_key(*id));
                    return true;
                }
            }
        }
        false
    }

    /// Takes the viewport off the schedule if its time has come, and tells whether it had.
    pub fn settle(&mut self, id: u64, now: u128) -> (due: bool)
        ensures
            due == is_due(old(self)@, id, now),
            final(self)@ == settled(old(self)@, id, now),
            due <==> old(self)@.contains_key(id) && old(self)@[id] <= now,
            final(self)@ == (if due {
                old(self)@.remove(id)
            } else {
                old(self)@
            }),
    {
        match self.at.remove(&id) {
            Some(at) => {
                if at <= now {
                    true
                } else {
                    self.at.insert(id, at);
                    assert(self@ =~= old(self)@);
                    false
                }
            },
            None => {
                assert(self@ =~= old(self)@);
                false
            },
        }
    }
}

} // verus!
