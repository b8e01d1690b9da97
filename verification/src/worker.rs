//! The poll-diff-emit step machine a subscription's background thread
//! drives, and the countdown that bounds its shutdown latency.

use vstd::prelude::*;

use crate::device::device_models;
use crate::device::DeviceModel;
use crate::device::UsbDevice;
use crate::diff::added_models;
use crate::diff::dedup_devices;
use crate::diff::dedup_models;
use crate::diff::diff;
use crate::diff::lemma_dedup_models_props;
use crate::diff::removed_models;
use crate::events::event_models;
use crate::events::Event;
use crate::events::EventModel;

verus! {

/// The events one poll tick emits: a Disconnect for each device the old
/// population holds and the new one lacks, then a Connect for each device
/// the new population holds and the old one lacks.
pub open spec fn tick_events(
    prev: Seq<DeviceModel>,
    next: Seq<DeviceModel>,
) -> Seq<EventModel> {
    removed_models(prev, next).map_values(|m: DeviceModel| EventModel::Disconnect(m))
        + added_models(prev, next).map_values(|m: DeviceModel| EventModel::Connect(m))
}

/// A tick emits no Initial event: every element of its event sequence is a
/// Disconnect or a Connect.
pub proof fn lemma_tick_events_no_initial(prev: Seq<DeviceModel>, next: Seq<DeviceModel>)
    ensures
        forall|k: int|
            0 <= k < tick_events(prev, next).len() ==> !(#[trigger] tick_events(prev, next)[k]
                is Initial),
{
    let removed = removed_models(prev, next).map_values(
        |m: DeviceModel| EventModel::Disconnect(m),
    );
    let added = added_models(prev, next).map_values(|m: DeviceModel| EventModel::Connect(m));
    assert forall|k: int| 0 <= k < tick_events(prev, next).len() implies !(
    #[trigger] tick_events(prev, next)[k] is Initial) by {
        if k < removed.len() {
            assert(tick_events(prev, next)[k] == removed[k]);
        } else {
            assert(tick_events(prev, next)[k] == added[k - removed.len()]);
        }
    }
}

/// Law: a tick whose snapshot equals the stored population emits no event
/// at all.
pub proof fn lemma_tick_no_change(s: Seq<DeviceModel>)
    ensures
        tick_events(s, s) == Seq::<EventModel>::empty(),
{
    crate::diff::lemma_diff_no_change(s);
    assert(tick_events(s, s) =~= Seq::<EventModel>::empty());
}

/// The state of one subscription's background worker: the device population
/// of the latest poll. Each new snapshot is turned into the events the
/// subscriber is owed, and replaces the population.
pub struct Worker {
    population: Vec<UsbDevice>,
}

impl Worker {
    /// The population the worker considers currently attached.
    pub closed spec fn population_models(&self) -> Seq<DeviceModel> {
        device_models(self.population@)
    }

    /// No device occurs twice in the population.
    pub open spec fn wf(&self) -> bool {
        forall|i: int, j: int|
            0 <= i < j < self.population_models().len() ==> self.population_models()[i]
                != self.population_models()[j]
    }

    /// Start a worker from the first enumeration. The Initial event carries
    /// that snapshot as it was handed in; the worker's population is its
    /// de-duplication.
    pub fn start(initial: Vec<UsbDevice>) -> (r: (Worker, Event))
        ensures
            r.1@ == EventModel::Initial(device_models(initial@)),
            r.0.population_models() == dedup_models(device_models(initial@)),
            r.0.wf(),
    {
        let population = dedup_devices(&initial);
        proof {
            lemma_dedup_models_props(device_models(initial@));
        }
        (Worker { population }, Event::Initial(initial))
    }

    /// One poll tick: diff the stored population against a fresh snapshot,
    /// emit all Disconnects, then all Connects, and store the snapshot's
    /// de-duplication as the new population. An unchanged population emits
    /// nothing, and no tick ever emits an Initial event.
    pub fn tick(&mut self, snapshot: Vec<UsbDevice>) -> (events: Vec<Event>)
        ensures
            event_models(events@) == tick_events(
                old(self).population_models(),
                dedup_models(device_models(snapshot@)),
            ),
            final(self).population_models() == dedup_models(device_models(snapshot@)),
            final(self).wf(),
            forall|k: int| 0 <= k < events@.len() ==> !(#[trigger] events@[k]@ is Initial),
    {
        let next = dedup_devices(&snapshot);
        let changes = diff(&self.population, &next);
        let ghost prev_models = self.population_models();
        let ghost next_models = device_models(next@);
        let ghost rem = removed_models(prev_models, next_models).map_values(
            |m: DeviceModel| EventModel::Disconnect(m),
        );
        let ghost add = added_models(prev_models, next_models).map_values(
            |m: DeviceModel| EventModel::Connect(m),
        );
        let mut events: Vec<Event> = Vec::new();
        let mut i: usize = 0;
        while i < changes.removed.len()
            invariant
                i <= changes.removed@.len(),
                device_models(changes.removed@) == removed_models(prev_models, next_models),
                rem == removed_models(prev_models, next_models).map_values(
                    |m: DeviceModel| EventModel::Disconnect(m),
                ),
                event_models(events@) =~= rem.take(i as int),
            decreases changes.removed@.len() - i,
        {
            let ghost events_before = event_models(events@);
            events.push(Event::Disconnect(changes.removed[i].duplicate()));
            proof {
                assert(event_models(events@) =~= events_before.push(rem[i as int]));
                assert(event_models(events@) =~= rem.take(i + 1));
            }
            i = i + 1;
        }
        proof {
            assert(rem.take(rem.len() as int) =~= rem);
        }
        let mut j: usize = 0;
        while j < changes.added.len()
            invariant
                j <= changes.added@.len(),
                device_models(changes.added@) == added_models(prev_models, next_models),
                add == added_models(prev_models, next_models).map_values(
                    |m: DeviceModel| EventModel::Connect(m),
                ),
                rem == removed_models(prev_models, next_models).map_values(
                    |m: DeviceModel| EventModel::Disconnect(m),
                ),
                event_models(events@) =~= rem + add.take(j as int),
            decreases changes.added@.len() - j,
        {
            let ghost events_before = event_models(events@);
            events.push(Event::Connect(changes.added[j].duplicate()));
            proof {
                assert(event_models(events@) =~= events_before.push(add[j as int]));
                assert(event_models(events@) =~= rem + add.take(j + 1));
            }
            j = j + 1;
        }
        self.population = next;
        proof {
            assert(add.take(add.len() as int) =~= add);
            assert(event_models(events@) == tick_events(prev_models, next_models));
            lemma_dedup_models_props(device_models(snapshot@));
            lemma_tick_events_no_initial(prev_models, next_models);
            assert forall|k: int| 0 <= k < events@.len() implies !(#[trigger] events@[k]@
                is Initial) by {
                assert(events@[k]@ == event_models(events@)[k]);
                assert(!(tick_events(prev_models, next_models)[k] is Initial));
            }
        }
        events
    }
}

/// The population a worker holds after a start snapshot and a sequence of
/// tick snapshots.
pub open spec fn population_after(
    initial: Seq<DeviceModel>,
    snapshots: Seq<Seq<DeviceModel>>,
) -> Seq<DeviceModel> {
    if snapshots.len() == 0 {
        dedup_models(initial)
    } else {
        dedup_models(snapshots.last())
    }
}

/// The whole event stream of a run: the Initial event of the start
/// snapshot, then each tick's events in order.
pub open spec fn run_events(
    initial: Seq<DeviceModel>,
    snapshots: Seq<Seq<DeviceModel>>,
) -> Seq<EventModel>
    decreases snapshots.len(),
{
    if snapshots.len() == 0 {
        seq![EventModel::Initial(initial)]
    } else {
        run_events(initial, snapshots.drop_last()) + tick_events(
            population_after(initial, snapshots.drop_last()),
            dedup_models(snapshots.last()),
        )
    }
}

/// Law: whatever snapshots the polls return, a subscription's event stream
/// begins with the Initial event of the start snapshot, and no other
/// Initial event ever occurs in it.
pub proof fn lemma_initial_exactly_once(
    initial: Seq<DeviceModel>,
    snapshots: Seq<Seq<DeviceModel>>,
)
    ensures
        run_events(initial, snapshots).len() >= 1,
        run_events(initial, snapshots)[0] == EventModel::Initial(initial),
        forall|k: int|
            1 <= k < run_events(initial, snapshots).len() ==> !(#[trigger] run_events(
                initial,
                snapshots,
            )[k] is Initial),
    decreases snapshots.len(),
{
    if snapshots.len() > 0 {
        lemma_initial_exactly_once(initial, snapshots.drop_last());
        let front = run_events(initial, snapshots.drop_last());
        let tick = tick_events(
            population_after(initial, snapshots.drop_last()),
            dedup_models(snapshots.last()),
        );
        lemma_tick_events_no_initial(
            population_after(initial, snapshots.drop_last()),
            dedup_models(snapshots.last()),
        );
        let all = run_events(initial, snapshots);
        assert forall|k: int| 1 <= k < all.len() implies !(#[trigger] all[k] is Initial) by {
            if k < front.len() {
                assert(all[k] == front[k]);
            } else {
                assert(all[k] == tick[k - front.len()]);
            }
        }
    }
}

/// The countdown of one poll wait. The interval is waited out in bounded
/// quarter-second increments rather than one long sleep, and the
/// cancellation token is checked at every increment, so observing
/// cancellation stops the worker within one increment whatever the
/// configured interval.
pub struct WaitCounter {
    remaining: u64,
}

impl WaitCounter {
    /// How many increments of the wait are still to run.
    pub closed spec fn spec_remaining(&self) -> u64 {
        self.remaining
    }

    /// A fresh countdown for a poll interval in whole seconds: four
    /// quarter-second increments per second.
    pub fn new(poll_interval_seconds: u32) -> (w: WaitCounter)
        ensures
            w.spec_remaining() == 4 * poll_interval_seconds as u64,
    {
        WaitCounter { remaining: 4 * (poll_interval_seconds as u64) }
    }

    /// Whether the wait is over.
    pub fn done(&self) -> (r: bool)
        ensures
            r == (self.spec_remaining() == 0),
    {
        self.remaining == 0
    }

    /// One increment has elapsed. The worker stops exactly when cancellation
    /// was observed during the increment, however much of the wait remains.
    pub fn step(&mut self, cancellation_observed: bool) -> (stop: bool)
        requires
            old(self).spec_remaining() > 0,
        ensures
            stop == cancellation_observed,
            final(self).spec_remaining() == old(self).spec_remaining() - 1,
    {
        self.remaining = self.remaining - 1;
        cancellation_observed
    }
}

} // verus!
