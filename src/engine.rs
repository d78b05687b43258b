use vstd::prelude::*;
use crate::camera::{as_triple, fits_i64, lemma_forward_twice, Camera, Direction, CAMERA_STEP};
use crate::entity::EntityManager;

verus! {

/// Nominal duration of one tick, in milliseconds, published to every worker.
pub const TICK_MILLIS: usize = 16;

/// How long one receive of the harvest waits for a worker batch, in
/// milliseconds; a worker sends its batch with the same budget.
pub const RECEIVE_TIMEOUT_MILLIS: u64 = 16;

/// Capacity of the channel that carries worker batches to the coordinator.
pub const EVENTS_CHANNEL_CAPACITY: usize = 10;

/// Slots per subscriber of the tick and state broadcasts: a publish waits
/// until every worker has taken the previous one.
pub const BROADCAST_CAPACITY: usize = 1;

/// Decoded input, as the input collaborator delivers it.
#[derive(Clone, Copy, Debug, PartialEq, Eq, Structural)]
pub enum InputEvent {
    /// A request to move the camera one step.
    Move(Direction),
    /// A key or button that no handler of this layer uses.
    Unmapped(u32),
}

/// Item of the per-frame state snapshot broadcast to workers.
#[derive(Clone, Copy, Debug, PartialEq, Eq, Structural)]
pub enum GameStateEvent {
    InputEvent(InputEvent),
}

/// Event that a step unit hands to the coordinator.
#[derive(Clone, Copy, Debug, PartialEq, Eq, Structural)]
pub enum SystemEvent {
    /// Fatal: the frame loop stops.
    ShutdownEngine,
    /// Routed to the camera handler.
    InputEvent(InputEvent),
    /// Left for layers above this one.
    Custom(u32),
}

/// What the frame loop does after a frame.
#[derive(Clone, Copy, Debug, PartialEq, Eq, Structural)]
pub enum FrameOutcome {
    Continue,
    Shutdown,
}

/// The camera after one input event.
pub open spec fn apply_input(c: Camera, i: InputEvent) -> Camera {
    match i {
        InputEvent::Move(d) => c.moved(d),
        InputEvent::Unmapped(_) => c,
    }
}

/// The camera after dispatching `events` in order, and whether a shutdown was
/// met; nothing after the first shutdown is dispatched.
pub open spec fn dispatch_spec(events: Seq<SystemEvent>, c: Camera) -> (Camera, bool)
    decreases events.len(),
{
    if events.len() == 0 {
        (c, false)
    } else {
        match events[0] {
            SystemEvent::ShutdownEngine => (c, true),
            SystemEvent::InputEvent(i) => dispatch_spec(events.drop_first(), apply_input(c, i)),
            SystemEvent::Custom(_) => dispatch_spec(events.drop_first(), c),
        }
    }
}

proof fn lemma_dispatch_keeps_wf(events: Seq<SystemEvent>, c: Camera)
    requires
        c.wf(),
    ensures
        dispatch_spec(events, c).0.wf(),
    decreases events.len(),
{
    if events.len() > 0 {
        match events[0] {
            SystemEvent::ShutdownEngine => {},
            SystemEvent::InputEvent(i) => lemma_dispatch_keeps_wf(events.drop_first(), apply_input(c, i)),
            SystemEvent::Custom(_) => lemma_dispatch_keeps_wf(events.drop_first(), c),
        }
    }
}

/// Dispatches a frame's events in order: input moves the camera, custom
/// events pass through, and a shutdown ends the frame loop.
pub fn dispatch_events(events: &Vec<SystemEvent>, camera: &mut Camera) -> (r: FrameOutcome)
    requires
        old(camera).wf(),
    ensures
        (*final(camera), r == FrameOutcome::Shutdown) == dispatch_spec(events@, *old(camera)),
        final(camera).wf(),
{
    proof {
        lemma_dispatch_keeps_wf(events@, *camera);
        assert(events@.subrange(0, events@.len() as int) =~= events@);
    }
    let mut i: usize = 0;
    while i < events.len()
        invariant
            0 <= i <= events@.len(),
            camera.wf(),
            dispatch_spec(events@.subrange(i as int, events@.len() as int), *camera)
                == dispatch_spec(events@, *old(camera)),
        decreases events@.len() - i,
    {
        let e = events[i];
        proof {
            assert(events@.subrange(i + 1, events@.len() as int) =~= events@.subrange(
                i as int,
                events@.len() as int,
            ).drop_first());
        }
        match e {
            SystemEvent::ShutdownEngine => {
                return FrameOutcome::Shutdown;
            },
            SystemEvent::InputEvent(input) => {
                match input {
                    InputEvent::Move(d) => {
                        camera.move_camera(d);
                    },
                    InputEvent::Unmapped(_) => {},
                }
            },
            SystemEvent::Custom(_) => {},
        }
        i = i + 1;
    }
    FrameOutcome::Continue
}

/// A frame whose only event is a forward move leaves the loop running and
/// moves the camera one step along its facing; a frame with two such moves
/// moves it two steps. Front and up stay as they were.
pub proof fn lemma_dispatch_forward(c: Camera)
    requires
        c.wf(),
        fits_i64(
            (
                c.pos.x + 2 * CAMERA_STEP * c.front.x,
                c.pos.y + 2 * CAMERA_STEP * c.front.y,
                c.pos.z + 2 * CAMERA_STEP * c.front.z,
            ),
        ),
    ensures
        ({
            let (c1, stop) = dispatch_spec(seq![forward_event()], c);
            &&& !stop
            &&& as_triple(c1.pos) == (
                c.pos.x + CAMERA_STEP * c.front.x,
                c.pos.y + CAMERA_STEP * c.front.y,
                c.pos.z + CAMERA_STEP * c.front.z,
            )
            &&& c1.front == c.front
            &&& c1.up == c.up
        }),
        ({
            let (c2, stop) = dispatch_spec(seq![forward_event(), forward_event()], c);
            &&& !stop
            &&& as_triple(c2.pos) == (
                c.pos.x + 2 * CAMERA_STEP * c.front.x,
                c.pos.y + 2 * CAMERA_STEP * c.front.y,
                c.pos.z + 2 * CAMERA_STEP * c.front.z,
            )
            &&& c2.front == c.front
            &&& c2.up == c.up
        }),
{
    lemma_forward_twice(c);
    let e = forward_event();
    let c1 = c.moved(Direction::Forward);
    assert(seq![e].drop_first() =~= Seq::<SystemEvent>::empty());
    assert(seq![e, e].drop_first() =~= seq![e]);
    assert(dispatch_spec(Seq::<SystemEvent>::empty(), c1) == (c1, false));
    assert(dispatch_spec(seq![e], c) == dispatch_spec(Seq::<SystemEvent>::empty(), c1));
    assert(dispatch_spec(Seq::<SystemEvent>::empty(), c1.moved(Direction::Forward)) == (
        c1.moved(Direction::Forward),
        false,
    ));
    assert(dispatch_spec(seq![e], c1) == dispatch_spec(Seq::<SystemEvent>::empty(), c1.moved(Direction::Forward)));
    assert(dispatch_spec(seq![e, e], c) == dispatch_spec(seq![e], c1));
}

pub open spec fn forward_event() -> SystemEvent {
    SystemEvent::InputEvent(InputEvent::Move(Direction::Forward))
}

/// Loads a level before the frame loop starts: its resources first, then
/// the entities it places in the table.
pub trait LevelManager {
    fn load_resources(&mut self);

    fn create_entities(&mut self, entity_manager: &mut EntityManager);
}

/// State of one frame's harvest, as a value.
pub ghost struct HarvestView {
    pub events: Seq<SystemEvent>,
    pub received: nat,
    pub expected: nat,
    pub done: bool,
}

/// A harvest that waits for `expected` batches; with none to wait for it is
/// over before it starts.
pub open spec fn fresh_harvest(expected: nat) -> HarvestView {
    HarvestView { events: Seq::empty(), received: 0, expected, done: expected == 0 }
}

/// One receive: a batch is appended and counted, and the harvest ends when
/// the count reaches the expected number; a timeout (`None`) ends it at once.
pub open spec fn harvest_step(s: HarvestView, batch: Option<Seq<SystemEvent>>) -> HarvestView {
    match batch {
        Some(b) => HarvestView {
            events: s.events + b,
            received: s.received + 1,
            done: s.received + 1 >= s.expected,
            ..s
        },
        None => HarvestView { done: true, ..s },
    }
}

/// Feeds receive results to a harvest until it ends or they run out; gives
/// the final state and how many receives were made.
pub open spec fn harvest_run(s: HarvestView, batches: Seq<Option<Seq<SystemEvent>>>) -> (
    HarvestView,
    nat,
)
    decreases batches.len(),
{
    if s.done || batches.len() == 0 {
        (s, 0)
    } else {
        let (t, n) = harvest_run(harvest_step(s, batches[0]), batches.drop_first());
        (t, n + 1)
    }
}

pub open spec fn batch_view(b: Option<Vec<SystemEvent>>) -> Option<Seq<SystemEvent>> {
    match b {
        Some(v) => Some(v@),
        None => None,
    }
}

/// Collects worker batches for one frame, in arrival order.
pub struct Harvest {
    events: Vec<SystemEvent>,
    received: usize,
    expected: usize,
    done: bool,
}

impl View for Harvest {
    type V = HarvestView;

    closed spec fn view(&self) -> HarvestView {
        HarvestView {
            events: self.events@,
            received: self.received as nat,
            expected: self.expected as nat,
            done: self.done,
        }
    }
}

impl Harvest {
    /// An unfinished harvest has fewer batches than it expects.
    pub open spec fn wf(&self) -> bool {
        &&& self@.received <= self@.expected
        &&& !self@.done ==> self@.received < self@.expected
    }

    pub fn new(expected: usize) -> (r: Harvest)
        ensures
            r.wf(),
            r@ == fresh_harvest(expected as nat),
    {
        Harvest { events: Vec::new(), received: 0, expected, done: expected == 0 }
    }

    pub fn is_done(&self) -> (r: bool)
        ensures
            r == self@.done,
    {
        self.done
    }

    /// Takes the result of one receive: a batch, or `None` after a timeout.
    pub fn on_receive(&mut self, batch: Option<Vec<SystemEvent>>)
        requires
            old(self).wf(),
            !old(self)@.done,
        ensures
            final(self).wf(),
            final(self)@ == harvest_step(old(self)@, batch_view(batch)),
    {
        match batch {
            Some(b) => {
                let mut b = b;
                self.events.append(&mut b);
                self.received = self.received + 1;
                self.done = self.received >= self.expected;
            },
            None => {
                self.done = true;
            },
        }
    }

    /// The events gathered so far, in arrival order.
    pub fn into_events(self) -> (r: Vec<SystemEvent>)
        ensures
            r@ == self@.events,
    {
        self.events
    }
}

/// The contents of the batches that came, in order; a timeout adds nothing.
pub open spec fn joined(batches: Seq<Option<Seq<SystemEvent>>>) -> Seq<SystemEvent>
    decreases batches.len(),
{
    if batches.len() == 0 {
        Seq::empty()
    } else {
        match batches[0] {
            Some(b) => b + joined(batches.drop_first()),
            None => joined(batches.drop_first()),
        }
    }
}

proof fn lemma_joined_front(batches: Seq<Option<Seq<SystemEvent>>>, k: int)
    requires
        1 <= k <= batches.len(),
    ensures
        joined(batches.take(k)) == match batches[0] {
            Some(b) => b + joined(batches.drop_first().take(k - 1)),
            None => joined(batches.drop_first().take(k - 1)),
        },
{
    assert(batches.take(k).drop_first() =~= batches.drop_first().take(k - 1));
    assert(batches.take(k)[0] == batches[0]);
}

proof fn lemma_run_all_arrive(s: HarvestView, batches: Seq<Option<Seq<SystemEvent>>>)
    requires
        !s.done,
        s.received < s.expected,
        batches.len() >= s.expected - s.received,
        forall|k: int| 0 <= k < batches.len() ==> (#[trigger] batches[k]) is Some,
    ensures
        harvest_run(s, batches).1 == s.expected - s.received,
        harvest_run(s, batches).0.received == s.expected,
        harvest_run(s, batches).0.done,
        harvest_run(s, batches).0.events == s.events + joined(
            batches.take(s.expected - s.received),
        ),
    decreases batches.len(),
{
    let t = harvest_step(s, batches[0]);
    let rest = batches.drop_first();
    let n = s.expected - s.received;
    assert(batches[0] is Some);
    let b = batches[0]->Some_0;
    lemma_joined_front(batches, n);
    if t.received < s.expected {
        assert forall|k: int| 0 <= k < rest.len() implies (#[trigger] rest[k]) is Some by {
            assert(rest[k] == batches[k + 1]);
        }
        lemma_run_all_arrive(t, rest);
        assert(t.events + joined(rest.take(n - 1)) =~= s.events + (b + joined(rest.take(n - 1))));
    } else {
        assert(harvest_run(t, rest) == (t, 0nat));
        assert(rest.take(0) =~= Seq::<Option<Seq<SystemEvent>>>::empty());
        assert(b + joined(rest.take(0)) =~= b);
    }
    assert(harvest_run(s, batches) == (harvest_run(t, rest).0, harvest_run(t, rest).1 + 1));
}

proof fn lemma_run_times_out(s: HarvestView, batches: Seq<Option<Seq<SystemEvent>>>, k: nat)
    requires
        !s.done,
        s.received + k < s.expected,
        k < batches.len(),
        batches[k as int] is None,
        forall|j: int| 0 <= j < k ==> (#[trigger] batches[j]) is Some,
    ensures
        harvest_run(s, batches).1 == k + 1,
        harvest_run(s, batches).0.received == s.received + k,
        harvest_run(s, batches).0.done,
        harvest_run(s, batches).0.events == s.events + joined(batches.take(k as int)),
    decreases k,
{
    let rest = batches.drop_first();
    if k == 0 {
        assert(batches.take(0) =~= Seq::<Option<Seq<SystemEvent>>>::empty());
        assert(s.events + Seq::<SystemEvent>::empty() =~= s.events);
    }
    if k > 0 {
        lemma_joined_front(batches, k as int);
        let b = batches[0]->Some_0;
        let t = harvest_step(s, batches[0]);
        assert(t.events + joined(rest.take(k - 1)) =~= s.events + (b + joined(rest.take(k - 1))));
        assert(batches[0] is Some);
        assert(rest[k - 1] == batches[k as int]);
        assert forall|j: int| 0 <= j < k - 1 implies (#[trigger] rest[j]) is Some by {
            assert(rest[j] == batches[j + 1]);
        }
        lemma_run_times_out(harvest_step(s, batches[0]), rest, (k - 1) as nat);
    } else {
        assert(harvest_run(harvest_step(s, batches[0]), rest) == (harvest_step(s, batches[0]), 0nat));
    }
    let t = harvest_step(s, batches[0]);
    assert(harvest_run(s, batches) == (harvest_run(t, rest).0, harvest_run(t, rest).1 + 1));
}

/// With `m` workers, a harvest in which every receive brings a batch ends
/// after exactly `m` receives, however many more batches could arrive, and
/// holds the first `m` batches in order.
pub proof fn lemma_harvest_stops_at_expected(m: nat, batches: Seq<Option<Seq<SystemEvent>>>)
    requires
        m >= 1,
        batches.len() >= m,
        forall|k: int| 0 <= k < batches.len() ==> (#[trigger] batches[k]) is Some,
    ensures
        harvest_run(fresh_harvest(m), batches).1 == m,
        harvest_run(fresh_harvest(m), batches).0.received == m,
        harvest_run(fresh_harvest(m), batches).0.done,
        harvest_run(fresh_harvest(m), batches).0.events == joined(batches.take(m as int)),
{
    lemma_run_all_arrive(fresh_harvest(m), batches);
    assert(Seq::<SystemEvent>::empty() + joined(batches.take(m as int)) =~= joined(batches.take(m as int)));
}

/// A receive that times out before `m` batches have come ends the harvest
/// there, holding the `k` batches that came before it in order.
pub proof fn lemma_harvest_stops_on_timeout(
    m: nat,
    batches: Seq<Option<Seq<SystemEvent>>>,
    k: nat,
)
    requires
        k < m,
        k < batches.len(),
        batches[k as int] is None,
        forall|j: int| 0 <= j < k ==> (#[trigger] batches[j]) is Some,
    ensures
        harvest_run(fresh_harvest(m), batches).1 == k + 1,
        harvest_run(fresh_harvest(m), batches).0.received == k,
        harvest_run(fresh_harvest(m), batches).0.done,
        harvest_run(fresh_harvest(m), batches).0.events == joined(batches.take(k as int)),
{
    lemma_run_times_out(fresh_harvest(m), batches, k);
    assert(Seq::<SystemEvent>::empty() + joined(batches.take(k as int)) =~= joined(batches.take(k as int)));
}

} // verus!
