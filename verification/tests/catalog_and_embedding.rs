use watcher::catalog::{
    dashboard_stats, episode_row, favorite_people_sql, is_tv, movie_row, next_watch_order, on_watchlist,
    pending_migrations, season_row, seasons_to_fetch, tv_show_row, watchlist_toggle, WatchlistChange,
};
use watcher::embedding::{build_embedding_text, build_embedding_text_from_json, pack_groups, unpack_groups};
use watcher::json::{Json, JsonNumber};
use watcher::models::DashboardStats;

fn s(t: &str) -> String {
    t.to_string()
}

fn obj(members: Vec<(&str, Json)>) -> Json {
    Json::Object(members.into_iter().map(|(k, v)| (k.to_string(), v)).collect())
}

fn text(t: &str) -> Json {
    Json::Str(t.to_string())
}

fn num(n: i64) -> Json {
    if n < 0 { Json::Number(JsonNumber::NegInt(n)) } else { Json::Number(JsonNumber::PosInt(n as u64)) }
}

fn genre(name: &str) -> Json {
    obj(vec![("id", num(1)), ("name", text(name))])
}

#[test]
fn movie_row_reads_details() {
    let d = obj(vec![
        ("title", text("Heat")),
        ("imdb_id", text("tt0113277")),
        ("runtime", num(170)),
        ("budget", num(60000000)),
        ("genres", Json::Array(vec![genre("Action"), genre("Crime"), obj(vec![("id", num(2))])])),
        ("vote_average", Json::Number(JsonNumber::Float(7.9f64.to_bits()))),
    ]);
    let r = movie_row(&d, 949);
    assert_eq!(r.tmdb_id, 949);
    assert_eq!(r.title, "Heat");
    assert_eq!(r.original_title, Some(s("Heat")));
    assert_eq!(r.imdb_id, Some(s("tt0113277")));
    assert_eq!(r.genres, "Action, Crime");
    assert_eq!(r.runtime, Some(170));
    assert_eq!(r.budget, Some(60000000));
    assert_eq!(r.revenue, None);
    assert_eq!(r.vote_average, Some(JsonNumber::Float(7.9f64.to_bits())));
    let empty = movie_row(&obj(vec![]), 1);
    assert_eq!(empty.title, "Untitled");
    assert_eq!(empty.original_title, None);
    assert_eq!(empty.genres, "");
}

#[test]
fn tv_show_row_falls_back_on_external_ids() {
    let d = obj(vec![
        ("name", text("Severance")),
        ("original_name", text("Severance (orig)")),
        ("external_ids", obj(vec![("imdb_id", text("tt11280740"))])),
        ("number_of_seasons", num(2)),
        ("genres", Json::Array(vec![genre("Drama")])),
    ]);
    let r = tv_show_row(&d, 95396);
    assert_eq!(r.imdb_id, Some(s("tt11280740")));
    assert_eq!(r.name, "Severance");
    assert_eq!(r.original_name, Some(s("Severance (orig)")));
    assert_eq!(r.number_of_seasons, Some(2));
    assert_eq!(r.genres, "Drama");
    let direct = tv_show_row(&obj(vec![("imdb_id", text("tt1")), ("external_ids", obj(vec![("imdb_id", text("tt2"))]))]), 1);
    assert_eq!(direct.imdb_id, Some(s("tt1")));
    assert_eq!(direct.name, "Untitled");
}

#[test]
fn season_and_episode_rows() {
    let season = obj(vec![("id", num(77)), ("name", text("Specials")), ("episode_count", num(3))]);
    let r = season_row(&season);
    assert_eq!((r.tmdb_season_id, r.season_number, r.episode_count), (Some(77), 0, Some(3)));
    assert_eq!(r.name, Some(s("Specials")));
    let seasons = vec![obj(vec![("season_number", num(0))]), obj(vec![("season_number", num(-1))]), obj(vec![]), obj(vec![("season_number", num(2))])];
    assert_eq!(seasons_to_fetch(&seasons), vec![0, 0, 2]);
    let ep = episode_row(&obj(vec![("id", num(9)), ("episode_number", num(4)), ("runtime", num(52)), ("still_path", text("/s.jpg"))]));
    assert_eq!((ep.tmdb_episode_id, ep.episode_number, ep.runtime), (Some(9), Some(4), Some(52)));
    assert_eq!(ep.still_path, Some(s("/s.jpg")));
    assert_eq!(ep.name, None);
}

#[test]
fn migrations_pending_by_version() {
    assert_eq!(pending_migrations(0), vec![1, 2, 3]);
    assert_eq!(pending_migrations(-5), vec![1, 2, 3]);
    assert_eq!(pending_migrations(1), vec![2, 3]);
    assert_eq!(pending_migrations(2), vec![3]);
    assert_eq!(pending_migrations(3), Vec::<u32>::new());
    assert_eq!(pending_migrations(9), Vec::<u32>::new());
}

#[test]
fn plays_and_watchlist_rules() {
    assert_eq!(next_watch_order(0), 1);
    assert_eq!(next_watch_order(4), 5);
    assert_eq!(watchlist_toggle(true), (WatchlistChange::Remove, false));
    assert_eq!(watchlist_toggle(false), (WatchlistChange::Add, true));
    assert!(on_watchlist(1));
    assert!(!on_watchlist(0));
    assert!(is_tv("tv"));
    assert!(!is_tv("movie"));
    assert!(!is_tv("TV"));
}

#[test]
fn dashboard_totals_add_up() {
    let d = dashboard_stats(3, 10, 2, 1, 4, 5, 300, 450);
    assert_eq!(
        d,
        DashboardStats {
            movie_total_plays: 3,
            tv_total_plays: 10,
            movie_unique_titles: 2,
            tv_unique_shows: 1,
            movie_watchlist_count: 4,
            tv_watchlist_count: 5,
            total_runtime_minutes: 750,
            total_plays: 13,
        }
    );
}

#[test]
fn favorite_people_sql_names_the_role_three_times() {
    let sql = favorite_people_sql("director");
    assert_eq!(sql.matches("'director'").count(), 3);
    assert!(sql.starts_with("SELECT p.tmdb_person_id, p.name, p.profile_path, 'director',"));
    assert!(sql.ends_with("ORDER BY avg_rating DESC, appearance_count DESC"));
}

#[test]
fn embedding_texts() {
    assert_eq!(build_embedding_text("Heat", Some("A heist.")), "Heat A heist.");
    assert_eq!(build_embedding_text("Heat", Some("")), "Heat");
    assert_eq!(build_embedding_text("Heat", None), "Heat");
    let d = obj(vec![("name", text("Dark")), ("tagline", text("")), ("overview", text("Time travel."))]);
    assert_eq!(build_embedding_text_from_json(&d), "Dark Time travel.");
    let m = obj(vec![("title", text("Heat")), ("name", text("x")), ("tagline", text("A Los Angeles crime saga"))]);
    assert_eq!(build_embedding_text_from_json(&m), "Heat A Los Angeles crime saga");
    assert_eq!(build_embedding_text_from_json(&obj(vec![("overview", text("Only"))])), "Only");
}

#[test]
fn embedding_bytes_round_trip() {
    let values = [0.5f32, -1.25, 3.0];
    let groups: Vec<[u8; 4]> = values.iter().map(|f| f.to_le_bytes()).collect();
    let bytes = pack_groups(&groups);
    let expected: Vec<u8> = values.iter().flat_map(|f| f.to_le_bytes()).collect();
    assert_eq!(bytes, expected);
    assert_eq!(unpack_groups(&bytes), groups);
    let mut longer = bytes.clone();
    longer.extend([1u8, 2]);
    assert_eq!(unpack_groups(&longer), groups);
    assert_eq!(unpack_groups(&vec![1, 2, 3]), Vec::<[u8; 4]>::new());
}
