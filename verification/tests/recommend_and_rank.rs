use watcher::json::{Json, JsonNumber};
use watcher::ranking::{rank_indices, MAX_RECOMMENDATIONS};
use watcher::recommend::{find_cached, reason_bonuses, Candidate, CandidatePool};

fn s(t: &str) -> String {
    t.to_string()
}

fn obj(members: Vec<(&str, Json)>) -> Json {
    Json::Object(members.into_iter().map(|(k, v)| (k.to_string(), v)).collect())
}

fn item(id: u64, title: &str) -> Json {
    obj(vec![
        ("id", Json::Number(JsonNumber::PosInt(id))),
        ("title", Json::Str(s(title))),
        ("vote_average", Json::Number(JsonNumber::Float(6.5f64.to_bits()))),
    ])
}

fn keys(cs: &[Candidate]) -> Vec<(i64, String)> {
    cs.iter().map(|c| (c.tmdb_id, c.media_type.clone())).collect()
}

#[test]
fn reference_items_skip_watched_and_repeated() {
    let mut pool = CandidatePool::new(vec![(1, s("movie")), (2, s("tv"))]);
    let answer = Json::Array(vec![
        item(1, "Watched"),
        item(2, "Same id, other type"),
        obj(vec![("id", Json::Number(JsonNumber::PosInt(3))), ("name", Json::Str(s("Show name"))), ("first_air_date", Json::Str(s("2001-01-01")))]),
        item(3, "Again"),
    ]);
    pool.add_reference_items(&answer, "movie");
    let cs = pool.into_candidates();
    assert_eq!(keys(&cs), vec![(2, s("movie")), (3, s("movie"))]);
    assert_eq!(cs[1].title, "Show name");
    assert_eq!(cs[1].release_date, Some(s("2001-01-01")));
    assert_eq!(cs[0].match_reason, "Similar to what you're watching");
    assert_eq!(cs[0].vote_average, Some(JsonNumber::Float(6.5f64.to_bits())));
}

#[test]
fn reference_items_of_a_non_array_add_nothing() {
    let mut pool = CandidatePool::new(vec![]);
    pool.add_reference_items(&obj(vec![]), "tv");
    assert_eq!(pool.into_candidates().len(), 0);
}

#[test]
fn favorites_stop_at_twenty() {
    let mut pool = CandidatePool::new(vec![(5, s("movie"))]);
    let first: Vec<Json> = (1..=15).map(|i| item(i, "a")).collect();
    pool.add_favorite_items(&Json::Array(first));
    assert!(!pool.favorites_full());
    let second: Vec<Json> = (10..=40).map(|i| item(i, "b")).collect();
    pool.add_favorite_items(&Json::Array(second));
    assert!(pool.favorites_full());
    let cs = pool.into_candidates();
    assert_eq!(cs.len(), 20);
    let ids: Vec<i64> = cs.iter().map(|c| c.tmdb_id).collect();
    let mut expected: Vec<i64> = (1..=15).filter(|i| *i != 5).collect();
    expected.extend(16..=21);
    assert_eq!(ids, expected);
    assert!(cs.iter().all(|c| c.match_reason == "Recommended based on your favorites" && c.media_type == "movie"));
}

#[test]
fn search_items_take_five_films_or_shows() {
    let mut pool = CandidatePool::new(vec![]);
    let mk = |id: u64, mt: Option<&str>| {
        let mut m = vec![("id", Json::Number(JsonNumber::PosInt(id))), ("name", Json::Str(s("n")))];
        if let Some(t) = mt {
            m.push(("media_type", Json::Str(s(t))));
        }
        obj(m)
    };
    let answer = Json::Array(vec![mk(1, Some("person")), mk(2, Some("tv")), mk(3, None), mk(4, Some("movie")), mk(5, Some("tv")), mk(6, Some("movie"))]);
    pool.add_search_items(&answer);
    let cs = pool.into_candidates();
    assert_eq!(keys(&cs), vec![(2, s("tv")), (3, s("movie")), (4, s("movie")), (5, s("tv"))]);
    assert_eq!(cs[0].title, "n");
    assert_eq!(cs[0].match_reason, "Matches your search");
}

#[test]
fn director_items_take_three() {
    let mut pool = CandidatePool::new(vec![(2, s("movie"))]);
    let answer = Json::Array((1..=6).map(|i| item(i, "d")).collect());
    pool.add_director_items(&answer);
    let cs = pool.into_candidates();
    assert_eq!(keys(&cs), vec![(1, s("movie")), (3, s("movie"))]);
    assert_eq!(cs[0].match_reason, "From a director you love");
}

#[test]
fn bonuses_follow_the_reason() {
    assert_eq!(reason_bonuses("From a director you love"), (true, false));
    assert_eq!(reason_bonuses("Recommended based on your favorites"), (false, true));
    assert_eq!(reason_bonuses("Matches your search"), (false, false));
}

#[test]
fn cached_embedding_found_by_first_id() {
    let ids = vec![7, 9, 7];
    assert_eq!(find_cached(&ids, 7), Some(0));
    assert_eq!(find_cached(&ids, 9), Some(1));
    assert_eq!(find_cached(&ids, 8), None);
}

#[test]
fn ranking_dedups_sorts_and_cuts() {
    let ids = vec![10, 11, 10, 12, 13, 11];
    let keys = vec![5, 9, 100, 9, 1, 50];
    assert_eq!(rank_indices(&ids, &keys, 24), vec![1, 3, 0, 4]);
    assert_eq!(rank_indices(&ids, &keys, 2), vec![1, 3]);
    assert_eq!(rank_indices(&ids, &keys, 0), Vec::<usize>::new());
    assert_eq!(rank_indices(&vec![], &vec![], 24), Vec::<usize>::new());
}

#[test]
fn ranking_with_equal_keys_keeps_order() {
    let ids: Vec<i64> = (0..30).collect();
    let keys = vec![0u64; 30];
    let r = rank_indices(&ids, &keys, MAX_RECOMMENDATIONS);
    assert_eq!(r, (0..24).collect::<Vec<usize>>());
}
