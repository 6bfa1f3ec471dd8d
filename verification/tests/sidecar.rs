use metasort::sidecar::{find_sidecar, sidecar_date, sidecar_name, timestamp_date, SidecarDate};

fn date(content: &str) -> Option<String> {
    match sidecar_date(content) {
        SidecarDate::Date(s) => Some(s),
        SidecarDate::Absent => None,
        SidecarDate::OutOfRange(t) => Some(format!("out of range: {}", t)),
    }
}

#[test]
fn a_recorded_time_becomes_a_date() {
    let content = r#"{"title": "x", "photoTakenTime": {"timestamp": "1577934245", "formatted": "y"}}"#;
    assert_eq!(date(content), Some("2020:01:02 03:04:05".to_string()));
    let old = r#"{"photoTakenTime": {"timestamp": "-1"}}"#;
    assert_eq!(date(old), Some("1969:12:31 23:59:59".to_string()));
    let zero = r#"{"photoTakenTime": {"timestamp": "0"}}"#;
    assert_eq!(date(zero), Some("1970:01:01 00:00:00".to_string()));
}

#[test]
fn anything_else_has_no_date() {
    for content in [
        "",
        "not json",
        "[]",
        "null",
        "{}",
        r#"{"photoTakenTime": "1577934245"}"#,
        r#"{"photoTakenTime": {"timestamp": 1577934245}}"#,
        r#"{"photoTakenTime": {"timestamp": "soon"}}"#,
        r#"{"photoTakenTime": {"timestamp": ""}}"#,
        r#"{"creationTime": {"timestamp": "1577934245"}}"#,
        r#"{"photoTakenTime": {"timestamp": "1577934245"}"#,
    ] {
        assert_eq!(date(content), None, "{}", content);
    }
}

#[test]
fn times_beyond_the_calendar_are_reported() {
    assert!(matches!(timestamp_date("8210266876799"), SidecarDate::Date(_)));
    assert!(matches!(timestamp_date("8210266876800"), SidecarDate::OutOfRange(8210266876800)));
    assert!(matches!(timestamp_date("-8334601228800"), SidecarDate::Date(_)));
    assert!(matches!(timestamp_date("-8334601228801"), SidecarDate::OutOfRange(-8334601228801)));
    assert!(matches!(timestamp_date("9223372036854775807"), SidecarDate::OutOfRange(i64::MAX)));
    assert!(matches!(timestamp_date("9223372036854775808"), SidecarDate::Absent));
}

#[test]
fn dates_are_never_shorter_than_their_pattern() {
    for t in ["0", "-62167219200", "-62167219201", "253402300799", "253402300800", "-8334601228800"] {
        match timestamp_date(t) {
            SidecarDate::Date(s) => assert!(s.len() >= 19, "{}", s),
            _ => panic!("no date for {}", t),
        }
    }
}

#[test]
fn the_first_fitting_entry_is_taken() {
    let entries: Vec<String> = ["IMG.jpg", "IMG.jpg.txt", "IMG.jpg.supplemental.json", "IMG.jpg.json"]
        .iter()
        .map(|s| s.to_string())
        .collect();
    assert_eq!(find_sidecar("IMG.jpg", &entries), Some("IMG.jpg.supplemental.json".to_string()));
    assert_eq!(find_sidecar("IMG", &entries), Some("IMG.jpg.supplemental.json".to_string()));
    assert_eq!(find_sidecar("MG.jpg", &entries), None);
    assert_eq!(find_sidecar("IMG.jpg", &Vec::new()), None);
    let tight = vec!["a.json".to_string()];
    assert_eq!(find_sidecar("a", &tight), Some("a.json".to_string()));
    assert_eq!(sidecar_name("IMG.jpg"), "IMG.jpg.json");
}
