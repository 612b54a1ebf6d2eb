use nuance::debounce::{Debouncer, DEFAULT_WINDOW};
use nuance::engine::{Action, Command, Engine, LoadError, LoadOutcome};
use nuance::extractor::{extract, ExtractionError};
use nuance::globals::Globals;
use nuance::pacer::{FramePacer, PacerDecision};
use nuance::pipeline::{params_binding_size, FeedbackPair};

fn engine() -> Engine<u32> {
    Engine::new(
        Globals::new(640, 480, (640.0f32 / 480.0).to_bits()),
        FramePacer::new(30, 0),
        Debouncer::new(DEFAULT_WINDOW),
    )
}

fn load(e: &mut Engine<u32>, path: &str, src: &str, pipeline: u32) -> Result<(), LoadError> {
    let outcome = match extract(src.as_bytes()) {
        Ok(extraction) => {
            let defaults = extraction.params.iter().map(|p| p.default.mantissa as u32).collect();
            LoadOutcome::Built { extraction, defaults, pipeline }
        }
        Err(err) => LoadOutcome::Invalid(err),
    };
    e.finish_load(path.to_string(), outcome)
}

#[test]
fn load_makes_pipeline_current_and_resets_counters() {
    let mut e = engine();
    e.frame_completed();
    e.frame_completed();
    e.globals.time = 5;
    assert!(matches!(e.handle(Command::Load("a.frag".to_string())), Action::LoadFile(p) if p == "a.frag"));
    assert_eq!(e.globals.frame, 2);
    assert_eq!(load(&mut e, "a.frag", "#param a(0, 9, 3)\n", 1), Ok(()));
    assert_eq!(e.pipeline, Some(1));
    assert_eq!(e.params.len(), 1);
    assert_eq!(e.params[0].value, 3);
    assert_eq!(e.globals.frame, 0);
    assert_eq!(e.globals.time, 0);
    assert_eq!(e.active.as_deref(), Some("a.frag"));
    assert_eq!(e.param_bytes(), vec![3, 0, 0, 0]);
}

#[test]
fn invalid_reload_changes_nothing() {
    let mut e = engine();
    load(&mut e, "a.frag", "#param a(0, 9, 3)\n", 1).unwrap();
    e.params[0].value = 8;
    e.frame_completed();
    e.frame_completed();
    e.frame_completed();
    assert_eq!(
        load(&mut e, "a.frag", "#param a(0, 9)\n", 2),
        Err(LoadError::Extraction(ExtractionError::Malformed))
    );
    assert_eq!(e.pipeline, Some(1));
    assert_eq!(e.params.len(), 1);
    assert_eq!(e.params[0].value, 8);
    assert_eq!(e.globals.frame, 3);
    assert_eq!(e.finish_load("a.frag".to_string(), LoadOutcome::Rejected), Err(LoadError::Pipeline));
    assert_eq!(e.pipeline, Some(1));
    assert_eq!(e.globals.frame, 3);
}

#[test]
fn missing_file_changes_nothing() {
    let mut e = engine();
    load(&mut e, "a.frag", "#param a(0, 9, 3)\n", 1).unwrap();
    e.frame_completed();
    assert_eq!(
        e.finish_load("missing.frag".to_string(), LoadOutcome::Unreadable),
        Err(LoadError::Unreadable)
    );
    assert_eq!(e.pipeline, Some(1));
    assert_eq!(e.params.len(), 1);
    assert_eq!(e.globals.frame, 1);
    assert_eq!(e.active.as_deref(), Some("a.frag"));
}

#[test]
fn reload_of_same_file_keeps_live_values() {
    let mut e = engine();
    load(&mut e, "a.frag", "#param a(0, 9, 3)\n#param b(0, 9, 4)\n", 1).unwrap();
    e.params[0].value = 8;
    assert!(matches!(e.handle(Command::Reload), Action::LoadFile(p) if p == "a.frag"));
    load(&mut e, "a.frag", "#param b(0, 9, 4)\n#param a(0, 9, 3)\n", 2).unwrap();
    assert_eq!(e.params[0].name, b"b".to_vec());
    assert_eq!(e.params[0].value, 4);
    assert_eq!(e.params[1].value, 8);
    load(&mut e, "other.frag", "#param a(0, 9, 3)\n", 3).unwrap();
    assert_eq!(e.params[0].value, 3);
}

#[test]
fn reload_without_shader_is_reported() {
    let mut e = engine();
    assert!(matches!(e.handle(Command::Reload), Action::NoActiveShader));
}

#[test]
fn frame_index_counts_draws_and_restart_resets() {
    let mut e = engine();
    let before = e.feedback;
    for k in 1..=5u32 {
        e.frame_completed();
        assert_eq!(e.globals.frame, k);
    }
    assert_ne!(e.feedback, before);
    e.globals.mouse_wheel = 1.5f32.to_bits();
    e.globals.time = 2.0f32.to_bits();
    assert!(matches!(e.handle(Command::Restart), Action::RestartClock));
    assert_eq!(e.globals.frame, 0);
    assert_eq!(e.globals.time, 0);
    assert_eq!(e.globals.mouse_wheel, 0);
    assert!(e.pipeline.is_none());
    e.globals.frame = u32::MAX;
    e.frame_completed();
    assert_eq!(e.globals.frame, 0);
}

#[test]
fn feedback_roles_swap_each_frame() {
    let mut f = FeedbackPair::new();
    assert_eq!((f.read_index(), f.write_index()), (0, 1));
    f.swap();
    assert_eq!((f.read_index(), f.write_index()), (1, 0));
    f.swap();
    assert_eq!(f.read_index(), 0);
}

#[test]
fn watch_then_two_writes_give_one_load() {
    let mut e = engine();
    let p = "shader.frag".to_string();
    match e.handle(Command::Watch(p.clone())) {
        Action::Subscribe { path, previous } => {
            assert_eq!(path, p);
            assert!(previous.is_none());
        }
        _ => panic!("expected a subscription"),
    }
    assert!(e.watched.is_none());
    e.watch_started(p.clone());
    e.file_written(&p, 1000);
    assert!(e.poll_watch(1010).is_none());
    e.file_written(&p, 1050);
    assert!(e.poll_watch(1100).is_none());
    assert!(e.poll_watch(1199).is_none());
    assert!(matches!(e.poll_watch(1200), Some(Command::Load(q)) if q == p));
    assert!(e.poll_watch(1500).is_none());
}

#[test]
fn writes_beyond_window_each_give_a_load() {
    let mut d = Debouncer::new(200);
    let mut loads = 0;
    for k in 0..4u64 {
        d.write(k * 300);
        if d.poll(k * 300 + 250) {
            loads += 1;
        }
    }
    assert_eq!(loads, 4);
    let mut d = Debouncer::new(200);
    let mut loads = 0;
    for t in [0u64, 40, 80, 120, 160] {
        d.write(t);
        if d.poll(t + 10) {
            loads += 1;
        }
    }
    if d.poll(200) {
        loads += 1;
    }
    assert_eq!(loads, 1);
}

#[test]
fn writes_to_other_files_are_ignored() {
    let mut e = engine();
    e.watch_started("a.frag".to_string());
    e.file_written(&"b.frag".to_string(), 0);
    assert!(e.poll_watch(1000).is_none());
    assert!(matches!(e.handle(Command::Unwatch), Action::Unsubscribe(p) if p == "a.frag"));
    assert!(e.watched.is_none());
    e.file_written(&"a.frag".to_string(), 0);
    assert!(e.poll_watch(1000).is_none());
    assert!(matches!(e.handle(Command::Unwatch), Action::Nothing));
}

fn draws_in_one_second(fps: i16) -> u32 {
    let mut e = engine();
    e.handle(Command::TargetFps(fps));
    let mut draws = 0;
    let mut now: u64 = 0;
    while now < 1_000_000_000 {
        now += 1_000_000;
        if e.pacer.tick(now) == PacerDecision::Draw {
            draws += 1;
        }
    }
    draws
}

#[test]
fn halving_framerate_halves_redraws() {
    let fast = draws_in_one_second(60);
    let slow = draws_in_one_second(30);
    assert!((55..=60).contains(&fast));
    assert!((28..=30).contains(&slow));
    assert!(fast >= 2 * slow - 4 && fast <= 2 * slow + 4);
}

#[test]
fn pacer_waits_for_the_rest_of_the_interval() {
    let mut p = FramePacer::new(10, 0);
    assert_eq!(p.interval, 100_000_000);
    assert_eq!(p.tick(30_000_000), PacerDecision::Wait(70_000_000));
    assert_eq!(p.tick(100_000_000), PacerDecision::Draw);
    assert_eq!(p.last_draw, 100_000_000);
    assert!(!p.set_target_framerate(0));
    assert!(!p.set_target_framerate(-5));
    assert_eq!(p.interval, 100_000_000);
    assert!(p.set_target_framerate(4));
    assert_eq!(p.interval, 250_000_000);
}

#[test]
fn invalid_framerate_is_reported() {
    let mut e = engine();
    assert!(matches!(e.handle(Command::TargetFps(0)), Action::InvalidFramerate));
    assert_eq!(e.pacer.interval, 1_000_000_000 / 30);
    assert!(matches!(e.handle(Command::Exit), Action::Exit));
    assert!(e.exit);
}

#[test]
fn globals_layout() {
    let mut g = Globals::new(800, 600, 1.25f32.to_bits());
    g.mouse_x = 3;
    g.time = 0.5f32.to_bits();
    g.frame = 258;
    let b = g.to_bytes();
    assert_eq!(b.len(), 32);
    assert_eq!(&b[0..4], &800u32.to_le_bytes());
    assert_eq!(&b[4..8], &600u32.to_le_bytes());
    assert_eq!(&b[8..12], &3u32.to_le_bytes());
    assert_eq!(&b[16..20], &0f32.to_le_bytes());
    assert_eq!(&b[20..24], &1.25f32.to_le_bytes());
    assert_eq!(&b[24..28], &0.5f32.to_le_bytes());
    assert_eq!(&b[28..32], &[2, 1, 0, 0]);
}

#[test]
fn parameter_binding_only_for_parameters() {
    assert_eq!(params_binding_size(0), None);
    assert_eq!(params_binding_size(3), Some(12));
}
