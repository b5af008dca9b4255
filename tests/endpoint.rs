use viper::endpoint::{check_es_url, judge_es_url, EsUrlError};

#[test]
fn http_addresses_are_accepted() {
    let u = check_es_url("http://localhost:5900").unwrap();
    assert_eq!(u.scheme(), "http");
    assert!(check_es_url("https://search.example.org/index").is_ok());
}

#[test]
fn other_schemes_are_refused() {
    assert!(matches!(check_es_url("ftp://example.org"), Err(EsUrlError::NotHttp)));
}

#[test]
fn data_urls_are_refused() {
    assert!(matches!(
        check_es_url("data:text/plain,Stuff"),
        Err(EsUrlError::CannotBeABase)
    ));
}

#[test]
fn malformed_addresses_are_invalid() {
    assert!(matches!(check_es_url("not a url"), Err(EsUrlError::Invalid(_))));
    assert!(matches!(check_es_url(""), Err(EsUrlError::Invalid(_))));
}

#[test]
fn judge_values() {
    assert!(judge_es_url(false, "http").is_ok());
    assert!(judge_es_url(false, "https").is_ok());
    assert!(matches!(judge_es_url(false, "httpx"), Err(EsUrlError::NotHttp)));
    assert!(matches!(judge_es_url(true, "http"), Err(EsUrlError::CannotBeABase)));
}
