use std::time::Duration;

use daima::camera::{Camera, Direction};
use daima::engine::{
    dispatch_events, FrameOutcome, Harvest, InputEvent, SystemEvent, BROADCAST_CAPACITY,
    EVENTS_CHANNEL_CAPACITY, RECEIVE_TIMEOUT_MILLIS, TICK_MILLIS,
};
use daima::entity::EntityManager;
use daima::system::{AssetLoaderSystem, RenderSystem, SampleSystem, System, WindowState};
use daima::worker::{
    chunk_size, events_channel_size, finish_hand_off, partition_systems, step_units,
};

fn sample(name: &str) -> System {
    System::SampleSystem(SampleSystem { name: name.to_string() })
}

fn names(chunks: &[Vec<System>]) -> Vec<Vec<String>> {
    chunks
        .iter()
        .map(|c| {
            c.iter()
                .map(|s| match s {
                    System::SampleSystem(s) => s.name.clone(),
                    _ => String::new(),
                })
                .collect()
        })
        .collect()
}

fn units(n: usize) -> Vec<System> {
    (0..n).map(|i| sample(&i.to_string())).collect()
}

fn ready_render() -> RenderSystem {
    let mut r = RenderSystem::new();
    r.attach(3, 4);
    r
}

#[test]
fn chunk_sizes_and_worker_counts() {
    assert_eq!(chunk_size(5, 2), 3);
    assert_eq!(events_channel_size(5, 2), 2);
    assert_eq!(chunk_size(5, 4), 2);
    assert_eq!(events_channel_size(5, 4), 3);
    assert_eq!(chunk_size(6, 4), 2);
    assert_eq!(events_channel_size(6, 4), 3);
    assert_eq!(chunk_size(4, 4), 1);
    assert_eq!(events_channel_size(4, 4), 4);
    assert_eq!(chunk_size(3, 8), 1);
    assert_eq!(events_channel_size(3, 8), 3);
    assert_eq!(chunk_size(5, 1), 5);
    assert_eq!(events_channel_size(5, 1), 1);
    assert_eq!(chunk_size(0, 3), 1);
    assert_eq!(events_channel_size(0, 3), 0);
}

#[test]
fn partition_keeps_every_unit_once_in_order() {
    let chunks = partition_systems(units(5), 2);
    assert_eq!(names(&chunks), vec![vec!["0", "1", "2"], vec!["3", "4"]]);
    let chunks = partition_systems(units(5), 4);
    assert_eq!(names(&chunks), vec![vec!["0", "1"], vec!["2", "3"], vec!["4"]]);
    let chunks = partition_systems(units(5), 1);
    assert_eq!(names(&chunks), vec![vec!["0", "1", "2", "3", "4"]]);
}

#[test]
fn partition_with_more_threads_than_units() {
    let chunks = partition_systems(units(3), 8);
    assert_eq!(names(&chunks), vec![vec!["0"], vec!["1"], vec!["2"]]);
}

#[test]
fn partition_of_no_units() {
    assert!(partition_systems(units(0), 4).is_empty());
}

#[test]
fn step_results_by_kind() {
    let w = WindowState::quiet();
    let world = EntityManager::new();
    assert!(sample("a").update(TICK_MILLIS, &w, &world).unwrap().is_empty());
    let mut asset = System::AssetSystem(AssetLoaderSystem::new());
    assert!(asset.update(TICK_MILLIS, &w, &world).unwrap().is_empty());
    let err = System::RenderSystem(RenderSystem::new()).update(TICK_MILLIS, &w, &world).unwrap_err();
    assert_eq!(err.name, "render");
    assert_eq!(err.description, "stepped before its drawing context was made");
    let input = WindowState {
        should_close: false,
        inputs: vec![InputEvent::Move(Direction::Up), InputEvent::Unmapped(9)],
    };
    let r = System::RenderSystem(ready_render()).update(TICK_MILLIS, &input, &EntityManager::new()).unwrap();
    assert_eq!(
        r,
        vec![
            SystemEvent::InputEvent(InputEvent::Move(Direction::Up)),
            SystemEvent::InputEvent(InputEvent::Unmapped(9)),
        ]
    );
    let closing = WindowState { should_close: true, inputs: vec![InputEvent::Unmapped(1)] };
    let r = System::RenderSystem(ready_render()).update(TICK_MILLIS, &closing, &EntityManager::new()).unwrap();
    assert_eq!(r, vec![SystemEvent::ShutdownEngine]);
}

#[test]
fn init_leaves_every_kind_as_it_was() {
    let mut s = sample("a");
    s.init();
    match &s {
        System::SampleSystem(x) => assert_eq!(x.name, "a"),
        _ => panic!("sample unit changed kind"),
    }
    let mut r = System::RenderSystem(ready_render());
    r.init();
    match &r {
        System::RenderSystem(x) => assert_eq!((x.shader_program(), x.vao()), (Some(3), Some(4))),
        _ => panic!("render unit changed kind"),
    }
    let mut a = System::AssetSystem(AssetLoaderSystem::new());
    a.init();
    assert!(matches!(a, System::AssetSystem(_)));
}

#[test]
fn render_unit_keeps_its_gpu_handles() {
    let r = ready_render();
    assert_eq!(r.shader_program(), Some(3));
    assert_eq!(r.vao(), Some(4));
    assert_eq!(RenderSystem::new().vao(), None);
}

#[test]
fn worker_batch_keeps_unit_order_and_skips_failures() {
    let mut owned = vec![
        System::RenderSystem(ready_render()),
        System::RenderSystem(RenderSystem::new()),
        sample("s"),
        System::RenderSystem(ready_render()),
    ];
    let w = WindowState {
        should_close: false,
        inputs: vec![InputEvent::Move(Direction::Left)],
    };
    let mut buffer = vec![SystemEvent::Custom(7)];
    step_units(&mut owned, TICK_MILLIS, &w, &EntityManager::new(), &mut buffer);
    assert_eq!(owned.len(), 4);
    let left = SystemEvent::InputEvent(InputEvent::Move(Direction::Left));
    assert_eq!(buffer, vec![SystemEvent::Custom(7), left, left]);
}

#[test]
fn hand_off_clears_only_delivered_batches() {
    let mut buffer = vec![SystemEvent::Custom(1)];
    finish_hand_off(&mut buffer, false);
    assert_eq!(buffer, vec![SystemEvent::Custom(1)]);
    finish_hand_off(&mut buffer, true);
    assert!(buffer.is_empty());
}

#[test]
fn second_tick_waits_for_the_first_to_be_taken() {
    let mut bus: bus::Bus<usize> = bus::Bus::new(BROADCAST_CAPACITY);
    let mut rx = bus.add_rx();
    assert!(bus.try_broadcast(TICK_MILLIS).is_ok());
    assert_eq!(bus.try_broadcast(TICK_MILLIS + 1), Err(TICK_MILLIS + 1));
    assert_eq!(rx.recv(), Ok(TICK_MILLIS));
    assert!(bus.try_broadcast(TICK_MILLIS + 1).is_ok());
    assert_eq!(rx.recv(), Ok(TICK_MILLIS + 1));
}

#[test]
fn harvest_stops_after_expected_batches() {
    let (tx, rx) = crossbeam_channel::bounded::<Vec<SystemEvent>>(EVENTS_CHANNEL_CAPACITY);
    tx.send(vec![SystemEvent::Custom(1)]).unwrap();
    tx.send(vec![]).unwrap();
    tx.send(vec![SystemEvent::Custom(3)]).unwrap();
    let mut h = Harvest::new(2);
    let mut receives = 0;
    while !h.is_done() {
        h.on_receive(rx.recv_timeout(Duration::from_millis(RECEIVE_TIMEOUT_MILLIS)).ok());
        receives += 1;
    }
    assert_eq!(receives, 2);
    assert_eq!(h.into_events(), vec![SystemEvent::Custom(1)]);
    assert_eq!(rx.len(), 1);
}

#[test]
fn harvest_stops_early_on_timeout() {
    let (tx, rx) = crossbeam_channel::bounded::<Vec<SystemEvent>>(EVENTS_CHANNEL_CAPACITY);
    tx.send(vec![SystemEvent::Custom(5)]).unwrap();
    let mut h = Harvest::new(3);
    let mut receives = 0;
    while !h.is_done() {
        h.on_receive(rx.recv_timeout(Duration::from_millis(RECEIVE_TIMEOUT_MILLIS)).ok());
        receives += 1;
    }
    assert_eq!(receives, 2);
    assert_eq!(h.into_events(), vec![SystemEvent::Custom(5)]);
}

#[test]
fn harvest_with_no_workers_is_done_at_once() {
    let h = Harvest::new(0);
    assert!(h.is_done());
    assert!(h.into_events().is_empty());
}

fn run_frame(
    workers: &mut [Vec<System>],
    windows: &[WindowState],
    camera: &mut Camera,
) -> (Vec<SystemEvent>, FrameOutcome) {
    let (tx, rx) = crossbeam_channel::bounded::<Vec<SystemEvent>>(EVENTS_CHANNEL_CAPACITY);
    let world = EntityManager::new();
    for (owned, w) in workers.iter_mut().zip(windows) {
        let mut buffer = vec![];
        step_units(owned, TICK_MILLIS, w, &world, &mut buffer);
        let delivered = tx
            .send_timeout(buffer.clone(), Duration::from_millis(RECEIVE_TIMEOUT_MILLIS))
            .is_ok();
        finish_hand_off(&mut buffer, delivered);
    }
    let mut h = Harvest::new(workers.len());
    while !h.is_done() {
        h.on_receive(rx.recv_timeout(Duration::from_millis(RECEIVE_TIMEOUT_MILLIS)).ok());
    }
    let events = h.into_events();
    let outcome = dispatch_events(&events, camera);
    (events, outcome)
}

#[test]
fn scenario_five_noop_units_one_worker() {
    let mut workers = partition_systems(units(5), 1);
    assert_eq!(workers.len(), 1);
    let mut camera = Camera::new();
    let (events, outcome) = run_frame(&mut workers, &[WindowState::quiet()], &mut camera);
    assert!(events.is_empty());
    assert_eq!(outcome, FrameOutcome::Continue);
}

#[test]
fn scenario_shutdown_on_third_invocation() {
    let mut workers = partition_systems(vec![System::RenderSystem(ready_render()), sample("s")], 1);
    let mut camera = Camera::new();
    let mut frames = 0;
    loop {
        frames += 1;
        let w = WindowState { should_close: frames == 3, inputs: vec![] };
        let (events, outcome) = run_frame(&mut workers, &[w], &mut camera);
        if frames < 3 {
            assert!(events.is_empty());
            assert_eq!(outcome, FrameOutcome::Continue);
        } else {
            assert_eq!(events, vec![SystemEvent::ShutdownEngine]);
            assert_eq!(outcome, FrameOutcome::Shutdown);
            break;
        }
    }
    assert_eq!(frames, 3);
}

#[test]
fn scenario_input_moves_camera_through_a_frame() {
    let mut workers = partition_systems(vec![System::RenderSystem(ready_render())], 4);
    let mut camera = Camera::new();
    let w = WindowState { should_close: false, inputs: vec![InputEvent::Move(Direction::Forward)] };
    let (_, outcome) = run_frame(&mut workers, &[w], &mut camera);
    assert_eq!(outcome, FrameOutcome::Continue);
    assert_eq!(camera.pos.z, -50);
}
