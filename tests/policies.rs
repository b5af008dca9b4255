use std::collections::HashMap;

use viper::catalog::BandCatalog;
use viper::chooser::{get, ChooseError, ChooserPlugin};
use viper::params::Params;
use viper::rotate::{advance_index, RotateChooserPlugin, RotateKind};
use viper::single::SingleChooserPlugin;
use viper::target::{pick_unvisited, TargetChooserPlugin};
use serde_json::Value;

fn catalog(entries: &[(u32, Vec<u32>)]) -> BandCatalog {
    let mut m = HashMap::new();
    for (k, v) in entries {
        m.insert(*k, v.clone());
    }
    BandCatalog::new(m).expect("a catalog with bands")
}

fn params(pairs: &[(&str, &str)]) -> Params {
    let mut p = Params::new();
    for (k, v) in pairs {
        p.insert(k, v);
    }
    p
}

fn three_bands() -> BandCatalog {
    catalog(&[(11, vec![1]), (13, vec![2]), (17, vec![3])])
}

fn many_bands(n: u32) -> BandCatalog {
    let entries: Vec<(u32, Vec<u32>)> = (1..=n).map(|b| (b, vec![b * 1000])).collect();
    catalog(&entries)
}

#[test]
fn empty_catalog_is_refused() {
    assert!(BandCatalog::new(HashMap::new()).is_none());
}

#[test]
fn catalog_lists_bands_ascending() {
    let c = catalog(&[(17, vec![3]), (11, vec![1]), (13, vec![2])]);
    assert_eq!(c.ids(), vec![11, 13, 17]);
    assert_eq!(c.len(), 3);
    assert_eq!(c.id_at(1), 13);
    assert_eq!(c.get(13), Some(&vec![2]));
    assert_eq!(c.get(12), None);
}

#[test]
fn fixed_single_band_every_call() {
    let c = catalog(&[(13, vec![11384000])]);
    let p = params(&[("band", "13")]);
    let s = SingleChooserPlugin::new();
    for _ in 0..5 {
        assert_eq!(s.choose_band(&c, &p), Ok(&vec![11384000]));
    }
}

#[test]
fn fixed_errors() {
    let c = three_bands();
    let s = SingleChooserPlugin::new();
    assert_eq!(s.choose_band(&c, &params(&[])), Err(ChooseError::InvalidParameter));
    assert_eq!(
        s.choose_band(&c, &params(&[("band", "abc")])),
        Err(ChooseError::InvalidParameter)
    );
    assert_eq!(
        s.choose_band(&c, &params(&[("band", "12")])),
        Err(ChooseError::UnknownBand(12))
    );
    assert!(!s.on_timeout());
    assert!(!s.on_update(&Value::Null));
}

#[test]
fn rotate_inc_from_thirteen() {
    let c = three_bands();
    let p = params(&[("start", "13"), ("type", "inc")]);
    let mut r = RotateChooserPlugin::with_seed(1);
    let seen: Vec<u32> = (0..4).map(|_| r.choose_band(&c, &p).unwrap()[0]).collect();
    assert_eq!(seen, vec![2, 3, 1, 2]);
}

#[test]
fn rotate_dec_is_reverse() {
    let c = three_bands();
    let p = params(&[("start", "13"), ("type", "dec")]);
    let mut r = RotateChooserPlugin::with_seed(1);
    let seen: Vec<u32> = (0..4).map(|_| r.choose_band(&c, &p).unwrap()[0]).collect();
    assert_eq!(seen, vec![2, 1, 3, 2]);
}

#[test]
fn rotate_inc_visits_each_band_once() {
    let c = many_bands(9);
    let p = params(&[("start", "4")]);
    let mut r = RotateChooserPlugin::with_seed(1);
    let seen: Vec<u32> = (0..9).map(|_| r.choose_band(&c, &p).unwrap()[0] / 1000).collect();
    assert_eq!(seen, vec![4, 5, 6, 7, 8, 9, 1, 2, 3]);
}

#[test]
fn rotate_defaults_to_band_thirteen_and_inc() {
    let c = three_bands();
    let p = params(&[]);
    let mut r = RotateChooserPlugin::with_seed(1);
    assert_eq!(r.choose_band(&c, &p), Ok(&vec![2]));
    assert_eq!(r.choose_band(&c, &p), Ok(&vec![3]));
    assert!(r.on_timeout());
    assert!(!r.on_update(&Value::Null));
}

#[test]
fn rotate_random_never_repeats() {
    let c = many_bands(5);
    let p = params(&[("start", "1"), ("type", "random")]);
    let mut r = RotateChooserPlugin::with_seed(7);
    let mut last = r.choose_band(&c, &p).unwrap()[0];
    assert_eq!(last, 1000);
    for _ in 0..200 {
        let next = r.choose_band(&c, &p).unwrap()[0];
        assert_ne!(next, last);
        last = next;
    }
}

#[test]
fn rotate_random_over_two_bands_alternates() {
    let c = catalog(&[(5, vec![50]), (8, vec![80])]);
    let p = params(&[("start", "5"), ("type", "random")]);
    let mut r = RotateChooserPlugin::with_seed(3);
    let seen: Vec<u32> = (0..5).map(|_| r.choose_band(&c, &p).unwrap()[0]).collect();
    assert_eq!(seen, vec![50, 80, 50, 80, 50]);
}

#[test]
fn rotate_random_needs_two_bands() {
    let c = catalog(&[(13, vec![2])]);
    let p = params(&[("type", "random")]);
    let mut r = RotateChooserPlugin::with_seed(1);
    assert_eq!(r.choose_band(&c, &p), Ok(&vec![2]));
    assert_eq!(r.choose_band(&c, &p), Err(ChooseError::InvalidParameter));
}

#[test]
fn rotate_bad_start_keeps_state() {
    let c = three_bands();
    let mut r = RotateChooserPlugin::with_seed(1);
    assert_eq!(
        r.choose_band(&c, &params(&[("start", "x13")])),
        Err(ChooseError::InvalidParameter)
    );
    assert_eq!(
        r.choose_band(&c, &params(&[("start", "99")])),
        Err(ChooseError::UnknownBand(99))
    );
    assert_eq!(r.choose_band(&c, &params(&[("start", "17")])), Ok(&vec![3]));
}

#[test]
fn advance_index_values() {
    assert_eq!(advance_index(RotateKind::Inc, 2, 3, 0), 0);
    assert_eq!(advance_index(RotateKind::Inc, 0, 3, 0), 1);
    assert_eq!(advance_index(RotateKind::Dec, 0, 3, 0), 2);
    assert_eq!(advance_index(RotateKind::Dec, 2, 3, 0), 1);
    assert_eq!(advance_index(RotateKind::Random, 1, 3, 0), 0);
    assert_eq!(advance_index(RotateKind::Random, 1, 3, 1), 2);
    assert_eq!(advance_index(RotateKind::Random, 0, 3, 0), 1);
}

#[test]
fn target_needs_target() {
    let c = three_bands();
    let mut t = TargetChooserPlugin::with_seed(1);
    assert_eq!(t.choose_band(&c, &params(&[])), Err(ChooseError::InvalidParameter));
    assert!(t.choose_band(&c, &params(&[("target", "KJFK")])).is_ok());
    assert!(t.choose_band(&c, &params(&[])).is_ok());
    assert!(t.on_timeout());
    assert!(!t.on_update(&Value::Null));
}

#[test]
fn target_avoids_six_latest() {
    let c = many_bands(8);
    let p = params(&[("target", "Shannon")]);
    let mut t = TargetChooserPlugin::with_seed(11);
    let picks: Vec<u32> = (0..40).map(|_| t.choose_band(&c, &p).unwrap()[0]).collect();
    for i in 0..picks.len() {
        for j in (i + 1)..picks.len().min(i + 7) {
            assert_ne!(picks[i], picks[j]);
        }
    }
}

#[test]
fn target_falls_back_when_all_visited() {
    let c = three_bands();
    let p = params(&[("target", "x")]);
    let mut t = TargetChooserPlugin::with_seed(5);
    let first: Vec<u32> = (0..3).map(|_| t.choose_band(&c, &p).unwrap()[0]).collect();
    let mut sorted = first.clone();
    sorted.sort();
    assert_eq!(sorted, vec![1, 2, 3]);
    for _ in 0..10 {
        let b = t.choose_band(&c, &p).unwrap()[0];
        assert!([1, 2, 3].contains(&b));
    }
}

#[test]
fn pick_unvisited_values() {
    assert_eq!(pick_unvisited(&vec![5, 3, 9], &vec![5]), 3);
    assert_eq!(pick_unvisited(&vec![5, 3, 9], &vec![]), 5);
    assert_eq!(pick_unvisited(&vec![5, 3, 9], &vec![9, 3, 5]), 5);
    assert_eq!(pick_unvisited(&vec![5, 3, 9], &vec![5, 3]), 9);
}

#[test]
fn policies_by_name() {
    assert!(matches!(get("rotate"), Some(ChooserPlugin::Rotate(_))));
    assert!(matches!(get("single"), Some(ChooserPlugin::Single(_))));
    assert!(matches!(get("target"), Some(ChooserPlugin::Target(_))));
    assert!(get("").is_none());
    assert!(get("rotates").is_none());
    assert!(get("Single").is_none());
}

#[test]
fn dispatch_through_policy() {
    let c = three_bands();
    let p = params(&[("band", "17")]);
    let mut s = get("single").unwrap();
    assert_eq!(s.choose_band(&c, &p), Ok(&vec![3]));
    assert!(!s.on_timeout());
    let r = get("rotate").unwrap();
    assert!(r.on_timeout());
}

#[test]
fn target_first_pick_varies_with_seed() {
    let c = many_bands(8);
    let p = params(&[("target", "x")]);
    let mut firsts: Vec<u32> = (0..30)
        .map(|seed| TargetChooserPlugin::with_seed(seed).choose_band(&c, &p).unwrap()[0])
        .collect();
    firsts.sort();
    firsts.dedup();
    assert!(firsts.len() > 1);
}

#[test]
fn rotate_random_reaches_every_other_band() {
    let c = many_bands(5);
    let p = params(&[("start", "3"), ("type", "random")]);
    let mut r = RotateChooserPlugin::with_seed(42);
    let mut seen: Vec<u32> = (0..200).map(|_| r.choose_band(&c, &p).unwrap()[0] / 1000).collect();
    seen.sort();
    seen.dedup();
    assert_eq!(seen, vec![1, 2, 3, 4, 5]);
}
