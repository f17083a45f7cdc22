use aschenbrenner_unlimited::fixed::{Fixed, FAR, ONE, WIDE};
use aschenbrenner_unlimited::json::{number_from_text, whole_document, Json, JsonNumber};
use aschenbrenner_unlimited::numerals::parse_decimal;
use aschenbrenner_unlimited::str_map::StrMap;
use aschenbrenner_unlimited::vault::{
    high_water, high_water_document, is_listed, record_nav, run_record_name, temporary_name, ReadCache, SUBFOLDERS,
};

fn fx(x: f64) -> Fixed {
    parse_decimal(&format!("{}", x)).unwrap()
}

#[test]
fn high_water_roundtrips() {
    let mut m = StrMap::new();
    m.insert("GEV".to_string(), fx(1049.0));
    m.insert("CEG".to_string(), fx(267.0));
    let doc = high_water_document(&m, "2026-06-22T10:00:00");
    let got = high_water(&doc);
    assert_eq!(got.get("GEV").copied(), Some(fx(1049.0)));
    assert_eq!(got.get("CEG").copied(), Some(fx(267.0)));
    assert_eq!(got.len(), 2);
    assert_eq!(doc.text_at("saved_at").as_deref(), Some("2026-06-22T10:00:00"));
}

#[test]
fn nav_history_dedupes_by_date_and_caps() {
    let doc = record_nav(&Json::Null, "2026-06-19", fx(40_000.0), 3);
    let doc = record_nav(&doc, "2026-06-19", fx(40_500.0), 3);
    let doc = record_nav(&doc, "2026-06-20", fx(41_000.0), 3);
    let arr = doc.list_at("points").unwrap();
    assert_eq!(arr.len(), 2);
    assert_eq!(arr[0].number_at("nav").unwrap(), fx(40_500.0));
}

#[test]
fn the_oldest_points_leave() {
    let mut doc = Json::Null;
    for (d, x) in [("2026-06-03", 3.0), ("2026-06-01", 1.0), ("2026-06-02", 2.0), ("2026-06-04", 4.006)] {
        doc = record_nav(&doc, d, fx(x), 3);
    }
    let arr = doc.list_at("points").unwrap();
    let days: Vec<String> = arr.iter().map(|p| p.text_at("date").unwrap()).collect();
    assert_eq!(days, vec!["2026-06-02", "2026-06-03", "2026-06-04"]);
    // In whole cents.
    assert_eq!(arr[2].number_at("nav"), Some(fx(4.01)));
}

#[test]
fn halves_of_a_cent_go_away_from_zero() {
    let at = |x: f64| record_nav(&Json::Null, "d", fx(x), 5).list_at("points").unwrap()[0].number_at("nav").unwrap();
    assert_eq!(at(1.005), fx(1.01));
    assert_eq!(at(-1.005), fx(-1.01));
    assert_eq!(at(1.0049), fx(1.0));
}

#[test]
fn points_that_cannot_be_read_are_dropped() {
    let point = |d: Json, n: Json| Json::Object(vec![("date".to_string(), d), ("nav".to_string(), n)]);
    let num = |x: f64| Json::Number(JsonNumber::new(fx(x), None));
    let doc = Json::Object(vec![(
        "points".to_string(),
        Json::Array(vec![
            point(Json::Text("a".to_string()), num(1.0)),
            point(Json::Null, num(2.0)),
            point(Json::Text("b".to_string()), Json::Null),
            Json::Null,
        ]),
    )]);
    let doc = record_nav(&doc, "c", fx(3.0), 10);
    assert_eq!(doc.list_at("points").unwrap().len(), 2);
}

#[test]
fn marks_that_are_no_numbers_are_dropped() {
    let marks = Json::Object(vec![
        ("GEV".to_string(), Json::Text("x".to_string())),
        ("CEG".to_string(), Json::Number(JsonNumber::new(fx(2.5), None))),
    ]);
    let m = high_water(&Json::Object(vec![("marks".to_string(), marks)]));
    assert_eq!(m.keys(), vec!["CEG".to_string()]);
    assert!(high_water(&Json::Null).is_empty());
    // A large mark comes back as it is; one past the largest number comes back as that.
    let mut m = StrMap::new();
    m.insert("X".to_string(), WIDE + 1);
    m.insert("Y".to_string(), FAR + 1);
    let back = high_water(&high_water_document(&m, "t"));
    assert_eq!((back.get("X"), back.get("Y")), (Some(&(WIDE + 1)), Some(&FAR)));
}

#[test]
fn what_was_read_is_kept_for_five_minutes() {
    let mut c = ReadCache::new();
    assert_eq!(c.cached("/v/a", 0), None);
    c.keep("/v/a", "one", 1_000);
    assert_eq!(c.cached("/v/a", 300_999).as_deref(), Some("one"));
    assert_eq!(c.cached("/v/a", 301_000), None);
    c.keep("/v/a", "two", 2_000);
    c.keep("/v\\b", "three", 2_000);
    assert_eq!(c.cached("/v/a", 2_000).as_deref(), Some("two"));
    assert_eq!(c.cached("/v/b", 2_000).as_deref(), Some("three"));
    c.forget("/v/a");
    assert_eq!(c.cached("/v/a", 2_000), None);
    assert_eq!(c.cached("/v/b", 2_000).as_deref(), Some("three"));
    c.forget("/v\\b");
    assert_eq!(c.cached("/v/b", 2_000), None);
    assert_eq!(c.cached("/v\\b", 2_000), None);
}

#[test]
fn names_of_files() {
    assert_eq!(SUBFOLDERS, ["state", "cards", "reflections", "meta"]);
    assert!(is_listed("cards-2026-06-22.json", "2026", ".json"));
    assert!(!is_listed(".cards-2026.json", "2026", ".json"));
    assert!(!is_listed("cards.json", "2026", ".json"));
    assert!(!is_listed("cards-2026.md", "2026", ".json"));
    assert!(is_listed("x", "", ""));
    assert_eq!(temporary_name("a.json", 42), ".a.json.42.tmp");
    assert_eq!(run_record_name("2026-06-22", "daily"), "run-2026-06-22-daily.json");
}

#[test]
fn documents_are_read_from_text() {
    let d = Json::parse(r#"{"b":[1,-2.5e3,null,true],"a":{"x":"é\n"},"n":1000000000000000000}"#).unwrap();
    let items = d.list_at("b").unwrap();
    assert_eq!(items.len(), 4);
    assert_eq!(items[0], number_from_text("1"));
    assert_eq!(items[1], number_from_text("-2500.0"));
    assert_eq!((&items[2], &items[3]), (&Json::Null, &Json::Bool(true)));
    assert_eq!(d.object_at("a").unwrap().text_at("x").as_deref(), Some("é\n"));
    assert_eq!(d.whole_at("n"), Some(1_000_000_000_000_000_000));
    // A member that comes twice counts once, the last time.
    assert_eq!(Json::parse(r#"{"k":1,"k":2}"#).unwrap().whole_at("k"), Some(2));
    assert!(Json::parse("{").is_none());
    assert!(Json::parse("").is_none());
    assert_eq!(Json::parse_or_null(Some("nonsense")), Json::Null);
    assert_eq!(Json::parse_or_null(None), Json::Null);
    assert_eq!(Json::parse_or_null(Some("true")), Json::Bool(true));
    assert_eq!(Json::from_value(serde_json::Value::from(3)).items(), None);
}

#[test]
fn numbers_of_a_document() {
    let whole = |t: &str| match number_from_text(t) {
        Json::Number(n) => n.written_whole(),
        _ => None,
    };
    let value = |t: &str| match number_from_text(t) {
        Json::Number(n) => Some(n.get()),
        _ => None,
    };
    assert_eq!((whole("61"), value("61")), (Some(61), Some(61 * ONE)));
    assert_eq!((whole("61.0"), value("61.0")), (None, Some(61 * ONE)));
    assert_eq!((whole("1e3"), value("1e3")), (None, Some(1_000 * ONE)));
    // Too large for a whole number of 64 bits.
    assert_eq!(value("1e19"), Some(10_000_000_000_000_000_000 * ONE));
    assert_eq!(value("2e25"), Some(FAR));
    assert_eq!(whole_document(-4), number_from_text("-4"));
    assert_eq!(whole_document(i64::MAX), number_from_text("9223372036854775807"));
}
