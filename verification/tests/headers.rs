use http_client::message::eq_ignore_ascii_case;
use http_client::message::Headers;

#[test]
fn lookup_is_ascii_case_insensitive() {
    let mut headers = Headers::new();
    headers.append(b"Content-Type".to_vec(), b"application/json".to_vec());
    headers.append(b"Accept".to_vec(), b"text/event-stream".to_vec());
    assert_eq!(
        headers.get(&b"content-type".to_vec()),
        Some(b"application/json".to_vec())
    );
    assert_eq!(
        headers.get(&b"ACCEPT".to_vec()),
        Some(b"text/event-stream".to_vec())
    );
    assert_eq!(headers.get(&b"authorization".to_vec()), None);
}

#[test]
fn lookup_returns_the_first_of_equal_names() {
    let mut headers = Headers::new();
    headers.append(b"x-tag".to_vec(), b"first".to_vec());
    headers.append(b"X-Tag".to_vec(), b"second".to_vec());
    assert_eq!(headers.get(&b"x-tag".to_vec()), Some(b"first".to_vec()));
}

#[test]
fn name_comparison_folds_only_ascii_letters() {
    assert!(eq_ignore_ascii_case(&b"Accept".to_vec(), &b"aCCEPT".to_vec()));
    assert!(!eq_ignore_ascii_case(&b"Accept".to_vec(), &b"Accept ".to_vec()));
    assert!(!eq_ignore_ascii_case(&b"a".to_vec(), &b"b".to_vec()));
}
