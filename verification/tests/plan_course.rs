use watcher::json::{Json, JsonNumber};
use watcher::plan::{Fetch, RecommendationPlan};

fn s(t: &str) -> String {
    t.to_string()
}

fn obj(members: Vec<(&str, Json)>) -> Json {
    Json::Object(members.into_iter().map(|(k, v)| (k.to_string(), v)).collect())
}

fn items(ids: std::ops::RangeInclusive<u64>) -> Json {
    Json::Array(ids.map(|i| obj(vec![("id", Json::Number(JsonNumber::PosInt(i))), ("title", Json::Str(format!("t{}", i)))])).collect())
}

fn describe(f: &Fetch) -> String {
    match f {
        Fetch::MovieRecommendations(id) => format!("movie:{}", id),
        Fetch::TvRecommendations(id) => format!("tv:{}", id),
        Fetch::SearchMulti(t) => format!("search:{}", t),
        Fetch::DirectorFilms(id) => format!("director:{}", id),
    }
}

#[test]
fn plan_walks_all_phases_in_order() {
    let mut plan = RecommendationPlan::new(vec![], Some(77), Some(s("tv")), vec![1, 2], Some(s("space")), vec![9]);
    let mut asked = Vec::new();
    while let Some(f) = plan.next_fetch() {
        asked.push(describe(&f));
        plan.deliver(None);
    }
    assert_eq!(asked, vec!["tv:77", "movie:1", "movie:2", "search:space", "director:9"]);
    assert!(plan.is_done());
    assert_eq!(plan.ranking_prompt(), Some(s("space")));
    assert_eq!(plan.into_candidates().len(), 0);
}

#[test]
fn plan_skips_what_was_not_asked_for() {
    let mut plan = RecommendationPlan::new(vec![], None, None, vec![], Some(s("")), vec![]);
    assert!(plan.next_fetch().is_none());
    assert!(plan.is_done());
    assert_eq!(plan.ranking_prompt(), None);
    let reference_default = RecommendationPlan::new(vec![], Some(5), None, vec![], None, vec![]);
    assert_eq!(reference_default.next_fetch().map(|f| describe(&f)), Some(s("movie:5")));
}

#[test]
fn plan_stops_asking_favorites_once_full() {
    let mut plan = RecommendationPlan::new(vec![(3, s("movie"))], None, None, vec![10, 11, 12], None, vec![4]);
    let mut asked = Vec::new();
    while let Some(f) = plan.next_fetch() {
        let d = describe(&f);
        let answer = if d == "movie:10" { Some(items(1..=25)) } else if d == "director:4" { Some(items(40..=50)) } else { None };
        asked.push(d);
        plan.deliver(answer.as_ref());
    }
    assert_eq!(asked, vec!["movie:10", "director:4"]);
    let cs = plan.into_candidates();
    assert_eq!(cs.len(), 23);
    assert_eq!(cs[0].tmdb_id, 1);
    assert_eq!(cs[2].tmdb_id, 4);
    assert_eq!(cs[19].tmdb_id, 21);
    assert_eq!(cs[20].tmdb_id, 40);
    assert_eq!(cs[22].match_reason, "From a director you love");
}
