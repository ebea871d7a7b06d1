use watcher::credits::{assemble_movie_credits, assemble_tv_credits, credit_entry, credit_people, crew_role_type, CreditPerson};
use watcher::json::{Json, JsonNumber};
use watcher::tmdb::{
    discover_by_person_url, movie_credits_url, movie_details_url, movie_keywords, movie_keywords_url,
    movie_recommendations_url, needs_credits_fallback, person_combined_credits_url, person_details_url,
    search_multi_url, search_results, tv_aggregate_credits_url, tv_credits_url, tv_details_url, tv_keywords,
    tv_keywords_url, tv_recommendations_url, tv_season_url,
};

fn s(t: &str) -> String {
    t.to_string()
}

fn obj(members: Vec<(&str, Json)>) -> Json {
    Json::Object(members.into_iter().map(|(k, v)| (k.to_string(), v)).collect())
}

fn text(t: &str) -> Json {
    Json::Str(t.to_string())
}

fn num(n: u64) -> Json {
    Json::Number(JsonNumber::PosInt(n))
}

const BASE: &str = "https://api.themoviedb.org/3";

#[test]
fn endpoint_urls_are_exact() {
    assert_eq!(search_multi_url("blade runner", "K"), format!("{}/search/multi?query=blade%20runner&include_adult=false&language=en-US&page=1&api_key=K", BASE));
    assert_eq!(movie_details_url(550, "K"), format!("{}/movie/550?language=en-US&api_key=K", BASE));
    assert_eq!(tv_details_url(1399, "K"), format!("{}/tv/1399?language=en-US&append_to_response=external_ids&api_key=K", BASE));
    assert_eq!(movie_credits_url(550, "K"), format!("{}/movie/550/credits?language=en-US&api_key=K", BASE));
    assert_eq!(tv_aggregate_credits_url(1399, "K"), format!("{}/tv/1399/aggregate_credits?language=en-US&api_key=K", BASE));
    assert_eq!(tv_credits_url(1399, "K"), format!("{}/tv/1399/credits?language=en-US&api_key=K", BASE));
    assert_eq!(tv_season_url(1399, 2, "K"), format!("{}/tv/1399/season/2?language=en-US&api_key=K", BASE));
    assert_eq!(person_details_url(287, "K"), format!("{}/person/287?language=en-US&api_key=K", BASE));
    assert_eq!(movie_keywords_url(550, "K"), format!("{}/movie/550/keywords?api_key=K", BASE));
    assert_eq!(tv_keywords_url(1399, "K"), format!("{}/tv/1399/keywords?api_key=K", BASE));
    assert_eq!(person_combined_credits_url(287, "K"), format!("{}/person/287/combined_credits?language=en-US&api_key=K", BASE));
    assert_eq!(movie_recommendations_url(550, "K"), format!("{}/movie/550/recommendations?language=en-US&page=1&api_key=K", BASE));
    assert_eq!(tv_recommendations_url(1399, "K"), format!("{}/tv/1399/recommendations?language=en-US&page=1&api_key=K", BASE));
    assert_eq!(movie_details_url(-3, ""), format!("{}/movie/-3?language=en-US&api_key=", BASE));
}

#[test]
fn discover_url_picks_cast_or_crew() {
    assert_eq!(
        discover_by_person_url(525, "movie", "director", "K"),
        format!("{}/discover/movie?with_crew=525&sort_by=vote_average.desc&vote_count.gte=50&language=en-US&page=1&api_key=K", BASE)
    );
    assert_eq!(
        discover_by_person_url(31, "tv", "actor", "K"),
        format!("{}/discover/tv?with_cast=31&sort_by=vote_average.desc&vote_count.gte=50&language=en-US&page=1&api_key=K", BASE)
    );
}

#[test]
fn aggregate_credits_fallback_only_when_empty() {
    assert!(needs_credits_fallback(&obj(vec![])));
    assert!(needs_credits_fallback(&obj(vec![("cast", Json::Array(vec![])), ("crew", Json::Null)])));
    assert!(!needs_credits_fallback(&obj(vec![("cast", Json::Array(vec![obj(vec![])]))])));
    assert!(!needs_credits_fallback(&obj(vec![("crew", Json::Array(vec![obj(vec![])]))])));
}

#[test]
fn keywords_come_from_their_lists() {
    let movie = obj(vec![("keywords", Json::Array(vec![obj(vec![("name", text("heist"))]), obj(vec![("name", num(3))]), obj(vec![("name", text("la"))])]))]);
    assert_eq!(movie_keywords(&movie), vec![s("heist"), s("la")]);
    assert_eq!(tv_keywords(&movie), Vec::<String>::new());
    let show = obj(vec![("results", Json::Array(vec![obj(vec![("name", text("dragons"))])]))]);
    assert_eq!(tv_keywords(&show), vec![s("dragons")]);
}

#[test]
fn search_keeps_films_and_shows_only() {
    let results = Json::Array(vec![
        obj(vec![("media_type", text("movie")), ("id", num(1)), ("title", text("Alien")), ("release_date", text("1979-05-25")), ("vote_average", Json::Number(JsonNumber::Float(8.1f64.to_bits())))]),
        obj(vec![("media_type", text("person")), ("id", num(2)), ("name", text("Sigourney Weaver"))]),
        obj(vec![("media_type", text("tv")), ("id", num(3)), ("name", text("Alien: Earth")), ("first_air_date", text("2025-08-12"))]),
        obj(vec![("id", num(4)), ("title", text("No type"))]),
    ]);
    let hits = search_results(&results);
    assert_eq!(hits.len(), 2);
    assert_eq!(hits[0].id, 1);
    assert_eq!(hits[0].title, Some(s("Alien")));
    assert_eq!(hits[0].name, None);
    assert_eq!(hits[0].release_date, Some(s("1979-05-25")));
    assert_eq!(hits[0].vote_average, Some(JsonNumber::Float(8.1f64.to_bits())));
    assert_eq!(hits[1].media_type, "tv");
    assert_eq!(hits[1].title, Some(s("Alien: Earth")));
    assert_eq!(hits[1].name, Some(s("Alien: Earth")));
    assert_eq!(hits[1].release_date, Some(s("2025-08-12")));
    assert_eq!(hits[1].first_air_date, Some(s("2025-08-12")));
    assert_eq!(search_results(&Json::Null).len(), 0);
}

#[test]
fn crew_jobs_map_to_roles() {
    assert_eq!(crew_role_type("Director"), Some(s("director")));
    assert_eq!(crew_role_type("Producer"), Some(s("producer")));
    assert_eq!(crew_role_type("Director of Photography"), Some(s("cinematographer")));
    assert_eq!(crew_role_type("Cinematography"), Some(s("cinematographer")));
    assert_eq!(crew_role_type("Original Music Composer"), Some(s("music_composer")));
    assert_eq!(crew_role_type("Music"), Some(s("music_composer")));
    assert_eq!(crew_role_type("Composer"), Some(s("music_composer")));
    assert_eq!(crew_role_type("Editor"), None);
    assert_eq!(crew_role_type(""), None);
}

fn credits_answer() -> Json {
    obj(vec![
        ("crew", Json::Array(vec![
            obj(vec![("id", num(10)), ("name", text("Ridley Scott")), ("job", text("Director"))]),
            obj(vec![("id", num(11)), ("name", text("Editor Person")), ("job", text("Editor"))]),
            obj(vec![("id", num(10)), ("name", text("Ridley Scott")), ("job", text("Director"))]),
            obj(vec![("id", num(12)), ("job", text("Composer")), ("profile_path", text("/j.jpg"))]),
        ])),
        ("cast", Json::Array(vec![
            obj(vec![("id", num(20)), ("name", text("Sigourney Weaver")), ("character", text("Ripley"))]),
            obj(vec![("id", num(21)), ("name", text("Tom Skerritt")), ("roles", Json::Array(vec![obj(vec![("character", text("Dallas"))])]))]),
        ])),
    ])
}

#[test]
fn credit_people_read_crew_then_cast() {
    let movie = credit_people(&credits_answer(), false);
    assert_eq!(movie.crew.len(), 3);
    assert_eq!(movie.crew[0].role_type, "director");
    assert_eq!(movie.crew[2].name, "");
    assert_eq!(movie.crew[2].profile_path, Some(s("/j.jpg")));
    assert_eq!(movie.crew[2].role_type, "music_composer");
    assert_eq!(movie.cast.len(), 2);
    assert_eq!(movie.cast[0].character_name, Some(s("Ripley")));
    assert_eq!(movie.cast[1].character_name, None);
    assert_eq!(movie.cast[1].role_type, "actor");
    let show = credit_people(&credits_answer(), true);
    assert_eq!(show.cast[1].character_name, Some(s("Dallas")));
    assert_eq!(credit_people(&Json::Null, true).crew.len(), 0);
}

#[test]
fn tv_credits_keep_one_entry_per_person_and_role() {
    let people = credit_people(&credits_answer(), true);
    let crew_ids = vec![100, 100, 102];
    let cast_ids = vec![200, 201];
    let tv = assemble_tv_credits(&people, &crew_ids, &cast_ids);
    let roles: Vec<(i64, String)> = tv.iter().map(|e| (e.person_id, e.role_type.clone())).collect();
    assert_eq!(roles, vec![(100, s("director")), (102, s("music_composer")), (200, s("actor")), (201, s("actor"))]);
    let movie = assemble_movie_credits(&people, &crew_ids, &cast_ids);
    assert_eq!(movie.len(), 5);
    assert_eq!(movie[1].person_id, 100);
    assert_eq!(movie[4].character_name, Some(s("Dallas")));
}

#[test]
fn credit_entry_copies_the_person() {
    let p = CreditPerson { tmdb_person_id: 5, name: s("N"), profile_path: None, role_type: s("actor"), character_name: Some(s("C")) };
    let e = credit_entry(&p, 42);
    assert_eq!((e.person_id, e.tmdb_person_id, e.person_name.as_str(), e.role_type.as_str()), (42, 5, "N", "actor"));
    assert_eq!(e.character_name, Some(s("C")));
    assert_eq!(e.profile_path, None);
}
