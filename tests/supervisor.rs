use std::collections::HashMap;

use viper::catalog::BandCatalog;
use viper::chooser::{get, ChooseError, ChooserPlugin};
use viper::params::Params;
use viper::rotate::RotateChooserPlugin;
use viper::supervisor::{Action, Event, Phase, Supervisor};
use serde_json::Value;

fn three_bands() -> BandCatalog {
    let mut m = HashMap::new();
    m.insert(11, vec![1]);
    m.insert(13, vec![2]);
    m.insert(17, vec![3]);
    BandCatalog::new(m).unwrap()
}

fn params(pairs: &[(&str, &str)]) -> Params {
    let mut p = Params::new();
    for (k, v) in pairs {
        p.insert(k, v);
    }
    p
}

fn spawned(a: Action) -> Vec<u32> {
    match a {
        Action::Spawn(f) => f,
        _ => panic!("expected a spawn"),
    }
}

#[test]
fn exit_leads_to_new_pick_and_spawn() {
    let c = three_bands();
    let p = params(&[("start", "13"), ("type", "inc")]);
    let mut s = Supervisor::new(ChooserPlugin::Rotate(RotateChooserPlugin::with_seed(1)));
    assert_eq!(spawned(s.step(&c, &p, Event::Select)), vec![2]);
    assert_eq!(s.current_phase(), Phase::Running);
    assert!(matches!(s.step(&c, &p, Event::Exited), Action::Terminate));
    assert_eq!(s.current_phase(), Phase::Draining);
    assert!(matches!(s.step(&c, &p, Event::Drained), Action::Select));
    assert_eq!(s.current_phase(), Phase::SelectingBand);
    assert_eq!(spawned(s.step(&c, &p, Event::Select)), vec![3]);
    assert_eq!(s.current_phase(), Phase::Running);
}

#[test]
fn spawn_failure_retries_same_band() {
    let c = three_bands();
    let p = params(&[("start", "13")]);
    let mut s = Supervisor::new(ChooserPlugin::Rotate(RotateChooserPlugin::with_seed(1)));
    assert_eq!(spawned(s.step(&c, &p, Event::Select)), vec![2]);
    assert!(matches!(s.step(&c, &p, Event::SpawnFailed), Action::Backoff));
    assert_eq!(s.current_phase(), Phase::SelectingBand);
    assert_eq!(spawned(s.step(&c, &p, Event::Select)), vec![2]);
}

#[test]
fn timeout_depends_on_policy() {
    let c = three_bands();
    let p = params(&[("band", "11")]);
    let mut fixed = Supervisor::new(get("single").unwrap());
    assert_eq!(spawned(fixed.step(&c, &p, Event::Select)), vec![1]);
    assert!(matches!(fixed.step(&c, &p, Event::Timeout), Action::Wait));
    assert_eq!(fixed.current_phase(), Phase::Running);

    let q = params(&[("start", "11")]);
    let mut rot = Supervisor::new(ChooserPlugin::Rotate(RotateChooserPlugin::with_seed(1)));
    assert_eq!(spawned(rot.step(&c, &q, Event::Select)), vec![1]);
    assert!(matches!(rot.step(&c, &q, Event::Timeout), Action::Terminate));
    assert_eq!(rot.current_phase(), Phase::Draining);
}

#[test]
fn frames_never_force_a_switch() {
    let c = three_bands();
    let p = params(&[("start", "11")]);
    let mut s = Supervisor::new(ChooserPlugin::Rotate(RotateChooserPlugin::with_seed(1)));
    s.step(&c, &p, Event::Select);
    for _ in 0..3 {
        assert!(matches!(s.step(&c, &p, Event::Line(Value::Null)), Action::Wait));
        assert_eq!(s.current_phase(), Phase::Running);
    }
}

#[test]
fn bad_configuration_fails_the_run() {
    let c = three_bands();
    let p = params(&[]);
    let mut s = Supervisor::new(get("single").unwrap());
    assert!(matches!(
        s.step(&c, &p, Event::Select),
        Action::Abort(ChooseError::InvalidParameter)
    ));
    assert_eq!(s.current_phase(), Phase::Failed);
    assert!(matches!(s.step(&c, &p, Event::Select), Action::Wait));
    assert_eq!(s.current_phase(), Phase::Failed);
}

#[test]
fn events_out_of_place_are_ignored() {
    let c = three_bands();
    let p = params(&[("start", "11")]);
    let mut s = Supervisor::new(ChooserPlugin::Rotate(RotateChooserPlugin::with_seed(1)));
    assert!(matches!(s.step(&c, &p, Event::Timeout), Action::Wait));
    assert!(matches!(s.step(&c, &p, Event::Drained), Action::Wait));
    assert_eq!(s.current_phase(), Phase::SelectingBand);
}
