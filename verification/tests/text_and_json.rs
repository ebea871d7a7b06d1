use watcher::json::{names_at, Json, JsonNumber};
use watcher::text::{copy_opt, decimal_text, join_texts, text_contains, text_eq, urlencoding};

fn s(t: &str) -> String {
    t.to_string()
}

fn obj(members: Vec<(&str, Json)>) -> Json {
    Json::Object(members.into_iter().map(|(k, v)| (k.to_string(), v)).collect())
}

#[test]
fn urlencoding_replaces_every_space() {
    assert_eq!(urlencoding("the dark knight"), "the%20dark%20knight");
    assert_eq!(urlencoding("  "), "%20%20");
    assert_eq!(urlencoding(""), "");
    assert_eq!(urlencoding("amélie"), "amélie");
}

#[test]
fn decimal_text_writes_like_format() {
    for n in [0i64, 7, 10, 603, -1, -120, i64::MAX, i64::MIN] {
        assert_eq!(decimal_text(n), format!("{}", n));
    }
}

#[test]
fn join_texts_puts_separator_between() {
    let parts = vec![s("Drama"), s("Crime"), s("Thriller")];
    assert_eq!(join_texts(&parts, ", "), "Drama, Crime, Thriller");
    assert_eq!(join_texts(&vec![s("One")], ", "), "One");
    assert_eq!(join_texts(&vec![], ", "), "");
}

#[test]
fn text_contains_finds_substrings() {
    assert!(text_contains("From a director you love", "director"));
    assert!(text_contains("Recommended based on your favorites", "favorites"));
    assert!(!text_contains("Matches your search", "director"));
    assert!(text_contains("abc", ""));
    assert!(!text_contains("ab", "abc"));
    assert!(text_eq("tv", "tv"));
    assert!(!text_eq("tv", "movie"));
    assert_eq!(copy_opt(&Some(s("x"))), Some(s("x")));
}

#[test]
fn json_accessors_follow_index_semantics() {
    let v = obj(vec![
        ("title", Json::Str(s("Heat"))),
        ("id", Json::Number(JsonNumber::PosInt(949))),
        ("big", Json::Number(JsonNumber::PosInt(u64::MAX))),
        ("neg", Json::Number(JsonNumber::NegInt(-4))),
        ("avg", Json::Number(JsonNumber::Float(7.9f64.to_bits()))),
        ("genres", Json::Array(vec![obj(vec![("name", Json::Str(s("Crime")))]), obj(vec![("id", Json::Null)])])),
    ]);
    assert_eq!(v.text_at("title"), Some(s("Heat")));
    assert_eq!(v.text_at("id"), None);
    assert_eq!(v.text_at("missing"), None);
    assert_eq!(v.int_at("id"), Some(949));
    assert_eq!(v.int_at("big"), None);
    assert_eq!(v.int_at("neg"), Some(-4));
    assert_eq!(v.int_at("avg"), None);
    assert_eq!(v.number_at("avg"), Some(JsonNumber::Float(7.9f64.to_bits())));
    assert_eq!(v.number_at("title"), None);
    assert_eq!(v.array_at("genres").map(|a| a.len()), Some(2));
    assert!(v.array_at("title").is_none());
    assert!(v.get("missing").is_none());
    assert!(Json::Str(s("x")).get("title").is_none());
    assert_eq!(names_at(&v, "genres"), vec![s("Crime")]);
    assert_eq!(names_at(&v, "missing"), Vec::<String>::new());
}
