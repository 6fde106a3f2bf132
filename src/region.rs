//! A region: one independently scheduled polling target, and the transition
//! that turns a report on its last poll into the dispatch of its next one.
use std::sync::mpsc::Sender;
use vstd::prelude::*;

use crate::alert::Topic;
use crate::event::{BACKOFF_SCALE, InputEvent, OutputEvent, QUOTA_CEILING};
use crate::sink::{clone_sender, send_event};

verus! {

/// Why a region could not hand a dispatch request to the channel.
#[derive(PartialEq, Eq, Structural, Debug, Clone, Copy)]
pub enum SinkError {
    /// No producer handle was ever attached to the region.
    Missing,
    /// The channel's receiving half is gone.
    Closed,
}

/// A single region.
#[derive(Debug)]
pub struct ResourceRegion {
    /// Minimum delay, in milliseconds, between two dispatches of the region.
    pub tick: u64,
    /// Routing key of the region.
    pub id: u64,
    /// Highest item identifier the region has confirmed seen.
    pub since_id: u64,
    /// When set, reports that do not advance `since_id` are discarded.
    pub compare_since_id: bool,
    /// Serialized query parameters that define the region.
    pub params: String,
    /// Destination the region's requests are published to.
    pub topic: String,
    /// Producer handle of the dispatch channel.
    pub channel: Option<Sender<OutputEvent>>,
}

impl ResourceRegion {
    /// A report is stale when strict comparison is on and it does not
    /// advance the watermark.
    pub open spec fn stale(&self, event: InputEvent) -> bool {
        self.compare_since_id && event.max_id <= self.since_id
    }

    /// The delay of the dispatch that follows `event`: the cadence plus the
    /// report's backoff, held at the largest representable value.
    pub open spec fn next_delay(&self, event: InputEvent) -> u64 {
        let d = self.tick + event.backoff();
        if d <= u64::MAX { d as u64 } else { u64::MAX }
    }

    /// `out` is this region's dispatch request with the given delay.
    pub open spec fn is_dispatch(&self, out: OutputEvent, delay: u64) -> bool {
        &&& out.delay == delay
        &&& out.region_id == self.id
        &&& out.since_id == self.since_id
        &&& out.params@ == self.params@
        &&& out.topic@ == self.topic@
    }

    /// The region after it has taken in `event`: a stale report leaves it as
    /// it is, any other moves the watermark to the report's highest id.
    pub open spec fn advanced(&self, event: InputEvent) -> ResourceRegion {
        if self.stale(event) {
            *self
        } else {
            ResourceRegion { since_id: event.max_id, ..*self }
        }
    }

    /// `alert` is what a sink failure of this region raises, if anything.
    pub open spec fn sink_alert_ok(&self, alert: Option<Topic>) -> bool {
        &&& self.channel is None ==> alert == Some(Topic::DispatchSinkClosed { region_id: self.id })
        &&& alert is None || alert == Some(Topic::DispatchSinkClosed { region_id: self.id })
    }

    /// `next` and `alert` are the region and the alert after `self` took in
    /// `event`: a stale report changes nothing and raises nothing; any other
    /// report advances the watermark and dispatches, and a failed dispatch
    /// raises a closed-sink alert.
    pub open spec fn handled(&self, event: InputEvent, next: &ResourceRegion, alert: Option<Topic>) -> bool {
        &&& *next == self.advanced(event)
        &&& self.stale(event) ==> alert is None
        &&& !self.stale(event) ==> self.sink_alert_ok(alert)
    }

    /// Builds a new region with the default settings.
    pub fn new(id: u64, topic: String, params: String) -> (r: ResourceRegion)
        ensures
            r.id == id,
            r.topic == topic,
            r.params == params,
            r.tick == 1,
            r.since_id == 0,
            r.compare_since_id,
            r.channel is None,
    {
        ResourceRegion { id, tick: 1, since_id: 0, topic, channel: None, params, compare_since_id: true }
    }

    /// Sets the cadence, in milliseconds.
    pub fn tick(&mut self, millis: u64) -> (r: &mut ResourceRegion)
        ensures
            *r == (ResourceRegion { tick: millis, ..*old(self) }),
            *final(self) == *final(r),
    {
        self.tick = millis;
        self
    }

    /// Attaches the producer handle of the dispatch channel.
    pub fn channel(&mut self, tx: Sender<OutputEvent>) -> (r: &mut ResourceRegion)
        ensures
            *r == (ResourceRegion { channel: Some(tx), ..*old(self) }),
            *final(self) == *final(r),
    {
        self.channel = Some(tx);
        self
    }

    /// Sets the watermark.
    pub fn since_id(&mut self, since_id: u64) -> (r: &mut ResourceRegion)
        ensures
            *r == (ResourceRegion { since_id, ..*old(self) }),
            *final(self) == *final(r),
    {
        self.since_id = since_id;
        self
    }

    /// Turns strict watermark comparison on or off.
    pub fn compare_since_id(&mut self, compare_since_id: bool) -> (r: &mut ResourceRegion)
        ensures
            *r == (ResourceRegion { compare_since_id, ..*old(self) }),
            *final(self) == *final(r),
    {
        self.compare_since_id = compare_since_id;
        self
    }

    /// The request that dispatches this region after `delay` milliseconds.
    pub fn dispatch(&self, delay: u64) -> (r: OutputEvent)
        ensures
            self.is_dispatch(r, delay),
    {
        OutputEvent {
            delay,
            region_id: self.id,
            params: self.params.clone(),
            since_id: self.since_id,
            topic: self.topic.clone(),
        }
    }

    /// Takes in a report: advances the watermark and returns the request for
    /// the next dispatch, or returns nothing for a stale report.
    pub fn next_dispatch(&mut self, event: InputEvent) -> (r: Option<OutputEvent>)
        requires
            event.wf(),
        ensures
            *final(self) == old(self).advanced(event),
            old(self).stale(event) <==> r is None,
            r matches Some(out) ==> final(self).is_dispatch(out, old(self).next_delay(event)),
    {
        if self.compare_since_id && event.max_id <= self.since_id {
            return None;
        }
        self.since_id = event.max_id;
        let delay: u64 = match event.error {
            Some(wait) => self.tick.saturating_add(wait),
            None => self.tick.saturating_add((QUOTA_CEILING - event.resources_count) * BACKOFF_SCALE),
        };
        Some(self.dispatch(delay))
    }

    /// Enqueues this region's dispatch request with the given delay.
    pub fn fire_in(&mut self, delay: u64) -> (r: Result<(), SinkError>)
        ensures
            *final(self) == *old(self),
            old(self).channel is None <==> r matches Err(SinkError::Missing),
            r matches Err(SinkError::Closed) ==> old(self).channel is Some,
    {
        let payload = self.dispatch(delay);
        match &self.channel {
            Some(tx) => match send_event(tx, payload) {
                Ok(()) => Ok(()),
                Err(_) => Err(SinkError::Closed),
            },
            None => Err(SinkError::Missing),
        }
    }

    /// Takes in a report and enqueues the next dispatch that it calls for.
    /// Returns the alert to raise, if the dispatch could not be enqueued.
    pub fn handle_event(&mut self, event: InputEvent) -> (r: Option<Topic>)
        requires
            event.wf(),
        ensures
            old(self).handled(event, final(self), r),
    {
        match self.next_dispatch(event) {
            None => None,
            Some(out) => {
                let sent = self.fire_in(out.delay);
                sink_alert(self.id, sent)
            },
        }
    }
}

/// The alert that the outcome of an enqueue raises for region `region_id`.
pub fn sink_alert(region_id: u64, sent: Result<(), SinkError>) -> (r: Option<Topic>)
    ensures
        sent is Ok ==> r is None,
        sent is Err ==> r == Some(Topic::DispatchSinkClosed { region_id }),
{
    match sent {
        Ok(()) => None,
        Err(_) => Some(Topic::DispatchSinkClosed { region_id }),
    }
}

/// Region `i` is the one a report for `id` is routed to: the first with that id.
pub open spec fn routes_to(regions: Seq<ResourceRegion>, id: u64, i: int) -> bool {
    &&& 0 <= i < regions.len()
    &&& regions[i].id == id
    &&& forall|j: int| 0 <= j < i ==> regions[j].id != id
}

/// Some region of the table has identifier `id`.
pub open spec fn knows(regions: Seq<ResourceRegion>, id: u64) -> bool {
    exists|i: int| 0 <= i < regions.len() && regions[i].id == id
}

/// Routes a report to the region it names and lets that region handle it.
/// Returns the alert to raise: an unknown region, or a failed dispatch.
pub fn route_event(regions: &mut Vec<ResourceRegion>, event: InputEvent) -> (r: Option<Topic>)
    requires
        event.wf(),
    ensures
        !knows(old(regions)@, event.region_id) ==> {
            &&& final(regions)@ == old(regions)@
            &&& r == Some(Topic::UnknownRegion { region_id: event.region_id })
        },
        forall|i: int| routes_to(old(regions)@, event.region_id, i) ==> {
            &&& final(regions)@.len() == old(regions)@.len()
            &&& forall|j: int| 0 <= j < old(regions)@.len() && j != i ==> final(regions)@[j] == old(regions)@[j]
            &&& old(regions)@[i].handled(event, &final(regions)@[i], r)
        },
{
    let mut i: usize = 0;
    while i < regions.len()
        invariant
            i <= regions.len(),
            event.wf(),
            *regions == *old(regions),
            forall|j: int| 0 <= j < i ==> regions@[j].id != event.region_id,
        decreases regions.len() - i,
    {
        if regions[i].id == event.region_id {
            let alert = regions[i].handle_event(event);
            return alert;
        }
        i += 1;
    }
    Some(Topic::UnknownRegion { region_id: event.region_id })
}

/// Fires every region at once, at its current watermark. Returns, for each
/// region, the alert its enqueue raised.
pub fn fire_all(regions: &mut Vec<ResourceRegion>) -> (alerts: Vec<Option<Topic>>)
    ensures
        final(regions)@ == old(regions)@,
        alerts@.len() == old(regions)@.len(),
        forall|i: int| 0 <= i < alerts@.len() ==> old(regions)@[i].sink_alert_ok(#[trigger] alerts@[i]),
{
    let mut alerts: Vec<Option<Topic>> = Vec::new();
    let mut i: usize = 0;
    while i < regions.len()
        invariant
            i <= regions.len(),
            regions@ == old(regions)@,
            alerts@.len() == i,
            forall|j: int| 0 <= j < i ==> old(regions)@[j].sink_alert_ok(#[trigger] alerts@[j]),
        decreases regions.len() - i,
    {
        let id = regions[i].id;
        let sent = regions[i].fire_in(0);
        alerts.push(sink_alert(id, sent));
        i += 1;
    }
    alerts
}

/// Hands every region a producer handle of the channel that `tx` feeds.
pub fn attach_all(regions: &mut Vec<ResourceRegion>, tx: &Sender<OutputEvent>)
    ensures
        final(regions)@.len() == old(regions)@.len(),
        forall|i: int| 0 <= i < old(regions)@.len() ==> {
            &&& (#[trigger] final(regions)@[i]).channel is Some
            &&& final(regions)@[i] == (ResourceRegion { channel: final(regions)@[i].channel, ..old(regions)@[i] })
        },
{
    let mut i: usize = 0;
    while i < regions.len()
        invariant
            i <= regions.len(),
            regions@.len() == old(regions)@.len(),
            forall|j: int| i <= j < regions@.len() ==> regions@[j] == old(regions)@[j],
            forall|j: int| 0 <= j < i ==> {
                &&& (#[trigger] regions@[j]).channel is Some
                &&& regions@[j] == (ResourceRegion { channel: regions@[j].channel, ..old(regions)@[j] })
            },
        decreases regions.len() - i,
    {
        regions[i].channel(clone_sender(tx));
        i += 1;
    }
}

/// The region after it has taken in every report of `events`, in order.
pub open spec fn run(region: ResourceRegion, events: Seq<InputEvent>) -> ResourceRegion
    decreases events.len(),
{
    if events.len() == 0 {
        region
    } else {
        run(region, events.drop_last()).advanced(events.last())
    }
}

proof fn lemma_run_step(region: ResourceRegion, events: Seq<InputEvent>, i: int)
    requires
        0 <= i < events.len(),
    ensures
        run(region, events.take(i + 1)) == run(region, events.take(i)).advanced(events[i]),
        run(region, events.take(i + 1)).compare_since_id == run(region, events.take(i)).compare_since_id,
{
    assert(events.take(i + 1).drop_last() =~= events.take(i));
}

proof fn lemma_run_keeps_mode(region: ResourceRegion, events: Seq<InputEvent>, i: int)
    requires
        0 <= i <= events.len(),
    ensures
        run(region, events.take(i)).compare_since_id == region.compare_since_id,
    decreases i,
{
    if i == 0 {
        assert(events.take(0) =~= Seq::<InputEvent>::empty());
    } else {
        lemma_run_keeps_mode(region, events, i - 1);
        lemma_run_step(region, events, i - 1);
    }
}

proof fn lemma_run_monotone_from(region: ResourceRegion, events: Seq<InputEvent>, i: int, j: int)
    requires
        region.compare_since_id,
        0 <= i <= j <= events.len(),
    ensures
        run(region, events.take(i)).since_id <= run(region, events.take(j)).since_id,
    decreases j - i,
{
    if i < j {
        lemma_run_monotone_from(region, events, i, j - 1);
        lemma_run_step(region, events, j - 1);
        lemma_run_keeps_mode(region, events, j - 1);
    }
}

/// Under strict comparison, a region's watermark never decreases over any
/// sequence of reports, and every report whose highest id does not exceed the
/// watermark it meets is stale, so it dispatches nothing.
pub proof fn lemma_watermark_monotone(region: ResourceRegion, events: Seq<InputEvent>)
    requires
        region.compare_since_id,
    ensures
        forall|i: int, j: int|
            0 <= i <= j <= events.len() ==> #[trigger] run(region, events.take(i)).since_id <= #[trigger] run(
                region,
                events.take(j),
            ).since_id,
        forall|i: int|
            0 <= i < events.len() && events[i].max_id <= #[trigger] run(region, events.take(i)).since_id
                ==> run(region, events.take(i)).stale(events[i]),
{
    assert forall|i: int, j: int| 0 <= i <= j <= events.len() implies #[trigger] run(
        region,
        events.take(i),
    ).since_id <= #[trigger] run(region, events.take(j)).since_id by {
        lemma_run_monotone_from(region, events, i, j);
    }
    assert forall|i: int|
        0 <= i < events.len() && events[i].max_id <= #[trigger] run(region, events.take(i)).since_id implies run(
        region,
        events.take(i),
    ).stale(events[i]) by {
        lemma_run_keeps_mode(region, events, i);
    }
}

/// A report of a failed poll delays the next dispatch by the region's cadence
/// plus the suggested wait, exactly, whenever that sum is representable.
pub proof fn lemma_error_delay(region: ResourceRegion, event: InputEvent)
    requires
        event.error is Some,
        region.tick + event.error->Some_0 <= u64::MAX,
    ensures
        region.next_delay(event) == region.tick + event.error->Some_0,
{
}

/// A report of a clean poll delays the next dispatch by the cadence plus the
/// scaled number of empty result slots, exactly whenever the largest such
/// sum is representable; a full result adds nothing and an empty one adds the
/// most.
pub proof fn lemma_clean_delay(region: ResourceRegion, event: InputEvent, other: InputEvent)
    requires
        event.wf(),
        other.wf(),
        event.error is None,
        other.error is None,
    ensures
        region.tick + QUOTA_CEILING * BACKOFF_SCALE <= u64::MAX ==> region.next_delay(event) == region.tick
            + (QUOTA_CEILING - event.resources_count) * BACKOFF_SCALE,
        event.resources_count == QUOTA_CEILING ==> region.next_delay(event) == region.tick,
        event.resources_count == 0 ==> region.next_delay(other) <= region.next_delay(event),
{
}

} // verus!
