use viper::args::{override_setting, Args};
use viper::params::Params;
use viper::text::parse_u32;

fn args_with(chooser: &str) -> Args {
    Args {
        bin: "/usr/bin/dumphfdl".to_string(),
        sys_table: "/etc/systable.conf".to_string(),
        es_idx: "hfdl_db".to_string(),
        es_url: "http://localhost:5900".to_string(),
        driver: "driver=airspyhf".to_string(),
        chooser: chooser.to_string(),
        verbose: false,
        quiet: false,
        timeout: 5,
    }
}

#[test]
fn name_without_parameters() {
    let a = args_with("rotate");
    let (name, p) = a.chooser_params();
    assert_eq!(name, "rotate");
    assert_eq!(p.get("start"), None);
}

#[test]
fn name_with_parameters() {
    let a = args_with("rotate:start=13,type=inc");
    let (name, p) = a.chooser_params();
    assert_eq!(name, "rotate");
    assert_eq!(p.get("start"), Some("13"));
    assert_eq!(p.get("type"), Some("inc"));
    assert_eq!(p.get("band"), None);
}

#[test]
fn default_chooser_token() {
    let a = args_with("single:band=13");
    let (name, p) = a.chooser_params();
    assert_eq!(name, "single");
    assert_eq!(p.get("band"), Some("13"));
}

#[test]
fn key_without_value_is_empty() {
    let a = args_with("target:target,x=1");
    let (name, p) = a.chooser_params();
    assert_eq!(name, "target");
    assert_eq!(p.get("target"), Some(""));
    assert_eq!(p.get("x"), Some("1"));
}

#[test]
fn later_key_replaces_earlier() {
    let a = args_with("rotate:start=11,start=17");
    let (_, p) = a.chooser_params();
    assert_eq!(p.get("start"), Some("17"));
}

#[test]
fn value_keeps_later_equals_and_colons() {
    let a = args_with("x:k=v=w,u=a:b");
    let (name, p) = a.chooser_params();
    assert_eq!(name, "x");
    assert_eq!(p.get("k"), Some("v=w"));
    assert_eq!(p.get("u"), Some("a:b"));
}

#[test]
fn empty_after_colon_gives_empty_key() {
    let a = args_with("single:");
    let (name, p) = a.chooser_params();
    assert_eq!(name, "single");
    assert_eq!(p.get(""), Some(""));
}

#[test]
fn empty_token_has_empty_name() {
    let a = args_with("");
    let (name, p) = a.chooser_params();
    assert_eq!(name, "");
    assert_eq!(p.get(""), None);
}

#[test]
fn params_insert_and_replace() {
    let mut p = Params::new();
    assert_eq!(p.get("a"), None);
    p.insert("a", "1");
    p.insert("b", "2");
    p.insert("a", "3");
    assert_eq!(p.get("a"), Some("3"));
    assert_eq!(p.get("b"), Some("2"));
}

#[test]
fn decimals_read_as_std_does() {
    assert_eq!(parse_u32("13"), Some(13));
    assert_eq!(parse_u32("+7"), Some(7));
    assert_eq!(parse_u32("007"), Some(7));
    assert_eq!(parse_u32("4294967295"), Some(u32::MAX));
    assert_eq!(parse_u32("4294967296"), None);
    assert_eq!(parse_u32(""), None);
    assert_eq!(parse_u32("+"), None);
    assert_eq!(parse_u32("-1"), None);
    assert_eq!(parse_u32("1a"), None);
    assert_eq!(parse_u32(" 1"), None);
    for s in ["0", "1", "99", "65536", "123456789"] {
        assert_eq!(parse_u32(s), s.parse::<u32>().ok());
    }
}

#[test]
fn environment_override_wins_when_not_empty() {
    assert_eq!(override_setting(Some("driver=rtlsdr"), "driver=airspyhf"), "driver=rtlsdr");
    assert_eq!(override_setting(Some(""), "driver=airspyhf"), "driver=airspyhf");
    assert_eq!(override_setting(None, "driver=airspyhf"), "driver=airspyhf");
}
