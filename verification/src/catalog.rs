//! The diary's own rules for what it stores: the rows written for a film, a
//! show, a season and an episode, the schema upgrades still to run, the order
//! of a new play within its day, the watchlist toggle and the dashboard sums.
use vstd::prelude::*;
use crate::json::{Json, JsonNumber, opt_text, or_else, item_names, elements_or_empty, names_at};
use crate::models::DashboardStats;
use crate::text::{join, join_texts, text_eq};

verus! {

/// The latest schema version.
pub const SCHEMA_VERSION: u32 = 3;

/// The genres of a details answer, by name, joined with `", "` (empty when
/// there is no genre list).
pub open spec fn genres_text(details: Json) -> Seq<char> {
    join(item_names(elements_or_empty(details.at("genres"@))), ", "@)
}

fn genres_of(details: &Json) -> (r: String)
    ensures
        r@ == genres_text(*details),
{
    let names = names_at(details, "genres");
    join_texts(&names, ", ")
}

fn text_or_default(details: &Json, key: &str, default: &str) -> (r: String)
    ensures
        r@ == match details.at(key@).text() {
            Some(t) => t,
            None => default@,
        },
{
    match details.text_at(key) {
        Some(t) => t,
        None => String::from_str(default),
    }
}

/// The values written for a film.
pub struct MovieRow {
    pub tmdb_id: i64,
    pub title: String,
    pub original_title: Option<String>,
    pub imdb_id: Option<String>,
    pub poster: Option<String>,
    pub tagline: Option<String>,
    pub overview: Option<String>,
    pub original_language: Option<String>,
    pub genres: String,
    pub runtime: Option<i64>,
    pub release_date: Option<String>,
    pub budget: Option<i64>,
    pub vote_average: Option<JsonNumber>,
    pub vote_count: Option<i64>,
    pub revenue: Option<i64>,
}

/// The film row read from a details answer: the title is `"Untitled"` when
/// missing, the original title falls back on the title.
pub open spec fn movie_row_ok(r: MovieRow, details: Json, tmdb_id: i64) -> bool {
    &&& r.tmdb_id == tmdb_id
    &&& r.title@ == match details.at("title"@).text() {
        Some(t) => t,
        None => "Untitled"@,
    }
    &&& opt_text(r.original_title) == or_else(details.at("original_title"@).text(), details.at("title"@).text())
    &&& opt_text(r.imdb_id) == details.at("imdb_id"@).text()
    &&& opt_text(r.poster) == details.at("poster_path"@).text()
    &&& opt_text(r.tagline) == details.at("tagline"@).text()
    &&& opt_text(r.overview) == details.at("overview"@).text()
    &&& opt_text(r.original_language) == details.at("original_language"@).text()
    &&& r.genres@ == genres_text(details)
    &&& r.runtime == details.at("runtime"@).integer()
    &&& opt_text(r.release_date) == details.at("release_date"@).text()
    &&& r.budget == details.at("budget"@).integer()
    &&& r.vote_average == details.at("vote_average"@).number()
    &&& r.vote_count == details.at("vote_count"@).integer()
    &&& r.revenue == details.at("revenue"@).integer()
}

/// The row stored for a film from its TMDB details.
pub fn movie_row(details: &Json, tmdb_id: i64) -> (r: MovieRow)
    ensures
        movie_row_ok(r, *details, tmdb_id),
{
    let original_title = match details.text_at("original_title") {
        Some(t) => Some(t),
        None => details.text_at("title"),
    };
    MovieRow {
        tmdb_id,
        title: text_or_default(details, "title", "Untitled"),
        original_title,
        imdb_id: details.text_at("imdb_id"),
        poster: details.text_at("poster_path"),
        tagline: details.text_at("tagline"),
        overview: details.text_at("overview"),
        original_language: details.text_at("original_language"),
        genres: genres_of(details),
        runtime: details.int_at("runtime"),
        release_date: details.text_at("release_date"),
        budget: details.int_at("budget"),
        vote_average: details.number_at("vote_average"),
        vote_count: details.int_at("vote_count"),
        revenue: details.int_at("revenue"),
    }
}

/// Law: each column of a film row is read from the details member of the
/// same name (the poster from `poster_path`): the title is `"Untitled"` when
/// absent, the original title falls back on the title, and the genres are
/// the genre names joined with `", "`.
pub proof fn lemma_movie_row_fields(r: MovieRow, details: Json, tmdb_id: i64)
    requires
        movie_row_ok(r, details, tmdb_id),
    ensures
        r.tmdb_id == tmdb_id,
        r.title@ == match details.at("title"@).text() {
            Some(t) => t,
            None => "Untitled"@,
        },
        opt_text(r.original_title) == match details.at("original_title"@).text() {
            Some(t) => Some(t),
            None => details.at("title"@).text(),
        },
        opt_text(r.imdb_id) == details.at("imdb_id"@).text(),
        opt_text(r.poster) == details.at("poster_path"@).text(),
        opt_text(r.tagline) == details.at("tagline"@).text(),
        opt_text(r.overview) == details.at("overview"@).text(),
        opt_text(r.original_language) == details.at("original_language"@).text(),
        r.genres@ == join(item_names(elements_or_empty(details.at("genres"@))), ", "@),
        r.runtime == details.at("runtime"@).integer(),
        opt_text(r.release_date) == details.at("release_date"@).text(),
        r.budget == details.at("budget"@).integer(),
        r.vote_average == details.at("vote_average"@).number(),
        r.vote_count == details.at("vote_count"@).integer(),
        r.revenue == details.at("revenue"@).integer(),
{
}

/// The values written for a show.
pub struct TvShowRow {
    pub tmdb_id: i64,
    pub imdb_id: Option<String>,
    pub name: String,
    pub original_name: Option<String>,
    pub poster_path: Option<String>,
    pub backdrop_path: Option<String>,
    pub tagline: Option<String>,
    pub overview: Option<String>,
    pub original_language: Option<String>,
    pub genres: String,
    pub first_air_date: Option<String>,
    pub last_air_date: Option<String>,
    pub status: Option<String>,
    pub number_of_seasons: Option<i64>,
    pub number_of_episodes: Option<i64>,
    pub vote_average: Option<JsonNumber>,
    pub vote_count: Option<i64>,
}

/// The show row read from a details answer: the name is `"Untitled"` when
/// missing, the original name falls back on the name, the IMDb id on the one
/// among the external ids.
pub open spec fn tv_show_row_ok(r: TvShowRow, details: Json, tmdb_id: i64) -> bool {
    &&& r.tmdb_id == tmdb_id
    &&& opt_text(r.imdb_id) == or_else(details.at("imdb_id"@).text(), details.at("external_ids"@).at("imdb_id"@).text())
    &&& r.name@ == match details.at("name"@).text() {
        Some(t) => t,
        None => "Untitled"@,
    }
    &&& opt_text(r.original_name) == or_else(details.at("original_name"@).text(), details.at("name"@).text())
    &&& opt_text(r.poster_path) == details.at("poster_path"@).text()
    &&& opt_text(r.backdrop_path) == details.at("backdrop_path"@).text()
    &&& opt_text(r.tagline) == details.at("tagline"@).text()
    &&& opt_text(r.overview) == details.at("overview"@).text()
    &&& opt_text(r.original_language) == details.at("original_language"@).text()
    &&& r.genres@ == genres_text(details)
    &&& opt_text(r.first_air_date) == details.at("first_air_date"@).text()
    &&& opt_text(r.last_air_date) == details.at("last_air_date"@).text()
    &&& opt_text(r.status) == details.at("status"@).text()
    &&& r.number_of_seasons == details.at("number_of_seasons"@).integer()
    &&& r.number_of_episodes == details.at("number_of_episodes"@).integer()
    &&& r.vote_average == details.at("vote_average"@).number()
    &&& r.vote_count == details.at("vote_count"@).integer()
}

/// Law: each column of a show row is read from the details member of the
/// same name: `first_air_date` from `"first_air_date"`, `last_air_date` from
/// `"last_air_date"`, and so on; the name is `"Untitled"` when absent, the
/// original name falls back on the name, the IMDb id on the one among the
/// external ids, and the genres are the genre names joined with `", "`.
pub proof fn lemma_tv_show_row_fields(r: TvShowRow, details: Json, tmdb_id: i64)
    requires
        tv_show_row_ok(r, details, tmdb_id),
    ensures
        r.tmdb_id == tmdb_id,
        opt_text(r.imdb_id) == match details.at("imdb_id"@).text() {
            Some(t) => Some(t),
            None => details.at("external_ids"@).at("imdb_id"@).text(),
        },
        r.name@ == match details.at("name"@).text() {
            Some(t) => t,
            None => "Untitled"@,
        },
        opt_text(r.original_name) == match details.at("original_name"@).text() {
            Some(t) => Some(t),
            None => details.at("name"@).text(),
        },
        opt_text(r.poster_path) == details.at("poster_path"@).text(),
        opt_text(r.backdrop_path) == details.at("backdrop_path"@).text(),
        opt_text(r.tagline) == details.at("tagline"@).text(),
        opt_text(r.overview) == details.at("overview"@).text(),
        opt_text(r.original_language) == details.at("original_language"@).text(),
        r.genres@ == join(item_names(elements_or_empty(details.at("genres"@))), ", "@),
        opt_text(r.first_air_date) == details.at("first_air_date"@).text(),
        opt_text(r.last_air_date) == details.at("last_air_date"@).text(),
        opt_text(r.status) == details.at("status"@).text(),
        r.number_of_seasons == details.at("number_of_seasons"@).integer(),
        r.number_of_episodes == details.at("number_of_episodes"@).integer(),
        r.vote_average == details.at("vote_average"@).number(),
        r.vote_count == details.at("vote_count"@).integer(),
{
}

/// The row stored for a show from its TMDB details.
pub fn tv_show_row(details: &Json, tmdb_id: i64) -> (r: TvShowRow)
    ensures
        tv_show_row_ok(r, *details, tmdb_id),
{
    let imdb_id = match details.text_at("imdb_id") {
        Some(t) => Some(t),
        None => match details.get("external_ids") {
            Some(ext) => ext.text_at("imdb_id"),
            None => None,
        },
    };
    let original_name = match details.text_at("original_name") {
        Some(t) => Some(t),
        None => details.text_at("name"),
    };
    TvShowRow {
        tmdb_id,
        imdb_id,
        name: text_or_default(details, "name", "Untitled"),
        original_name,
        poster_path: details.text_at("poster_path"),
        backdrop_path: details.text_at("backdrop_path"),
        tagline: details.text_at("tagline"),
        overview: details.text_at("overview"),
        original_language: details.text_at("original_language"),
        genres: genres_of(details),
        first_air_date: details.text_at("first_air_date"),
        last_air_date: details.text_at("last_air_date"),
        status: details.text_at("status"),
        number_of_seasons: details.int_at("number_of_seasons"),
        number_of_episodes: details.int_at("number_of_episodes"),
        vote_average: details.number_at("vote_average"),
        vote_count: details.int_at("vote_count"),
    }
}

/// The values written for a season of a show.
pub struct SeasonRow {
    pub tmdb_season_id: Option<i64>,
    pub season_number: i64,
    pub name: Option<String>,
    pub overview: Option<String>,
    pub air_date: Option<String>,
    pub poster_path: Option<String>,
    pub episode_count: Option<i64>,
    pub vote_average: Option<JsonNumber>,
    pub vote_count: Option<i64>,
}

/// The season number of a season item (0 when it has none).
pub open spec fn season_number_of(season: Json) -> i64 {
    match season.at("season_number"@).integer() {
        Some(n) => n,
        None => 0,
    }
}

/// The season row read from a season item of a show's details.
pub open spec fn season_row_ok(r: SeasonRow, season: Json) -> bool {
    &&& r.tmdb_season_id == season.at("id"@).integer()
    &&& r.season_number == season_number_of(season)
    &&& opt_text(r.name) == season.at("name"@).text()
    &&& opt_text(r.overview) == season.at("overview"@).text()
    &&& opt_text(r.air_date) == season.at("air_date"@).text()
    &&& opt_text(r.poster_path) == season.at("poster_path"@).text()
    &&& r.episode_count == season.at("episode_count"@).integer()
    &&& r.vote_average == season.at("vote_average"@).number()
    &&& r.vote_count == season.at("vote_count"@).integer()
}

/// Law: each column of a season row is read from the season item's member
/// of the same name (the TMDB season id from `id`); the season number is 0
/// when absent.
pub proof fn lemma_season_row_fields(r: SeasonRow, season: Json)
    requires
        season_row_ok(r, season),
    ensures
        r.tmdb_season_id == season.at("id"@).integer(),
        r.season_number == match season.at("season_number"@).integer() {
            Some(n) => n,
            None => 0,
        },
        opt_text(r.name) == season.at("name"@).text(),
        opt_text(r.overview) == season.at("overview"@).text(),
        opt_text(r.air_date) == season.at("air_date"@).text(),
        opt_text(r.poster_path) == season.at("poster_path"@).text(),
        r.episode_count == season.at("episode_count"@).integer(),
        r.vote_average == season.at("vote_average"@).number(),
        r.vote_count == season.at("vote_count"@).integer(),
{
}

/// The row stored for a season.
pub fn season_row(season: &Json) -> (r: SeasonRow)
    ensures
        season_row_ok(r, *season),
{
    SeasonRow {
        tmdb_season_id: season.int_at("id"),
        season_number: match season.int_at("season_number") {
            Some(n) => n,
            None => 0,
        },
        name: season.text_at("name"),
        overview: season.text_at("overview"),
        air_date: season.text_at("air_date"),
        poster_path: season.text_at("poster_path"),
        episode_count: season.int_at("episode_count"),
        vote_average: season.number_at("vote_average"),
        vote_count: season.int_at("vote_count"),
    }
}

/// The season numbers whose episodes are asked for: every season's number
/// (0 when it has none), except negative ones, in order.
pub open spec fn seasons_to_fetch_spec(seasons: Seq<Json>) -> Seq<i64>
    decreases seasons.len(),
{
    if seasons.len() == 0 {
        Seq::empty()
    } else if season_number_of(seasons.last()) < 0 {
        seasons_to_fetch_spec(seasons.drop_last())
    } else {
        seasons_to_fetch_spec(seasons.drop_last()).push(season_number_of(seasons.last()))
    }
}

/// Law: the seasons asked for are the seasons whose number (0 when absent)
/// is not negative: each number asked for is such a season's, and every such
/// season's number is asked for; no more are asked for than there are seasons.
pub proof fn lemma_seasons_to_fetch_sources(seasons: Seq<Json>)
    ensures
        seasons_to_fetch_spec(seasons).len() <= seasons.len(),
        forall|k: int| 0 <= k < seasons_to_fetch_spec(seasons).len() ==> {
            &&& #[trigger] seasons_to_fetch_spec(seasons)[k] >= 0
            &&& exists|i: int| #![trigger seasons[i]] 0 <= i < seasons.len() && seasons_to_fetch_spec(seasons)[k] == match seasons[i].at("season_number"@).integer() {
                Some(n) => n,
                None => 0,
            }
        },
        forall|i: int| 0 <= i < seasons.len() && (match (#[trigger] seasons[i]).at("season_number"@).integer() {
            Some(n) => n,
            None => 0,
        }) >= 0 ==> seasons_to_fetch_spec(seasons).contains(match seasons[i].at("season_number"@).integer() {
            Some(n) => n,
            None => 0,
        }),
    decreases seasons.len(),
{
    if seasons.len() > 0 {
        let front = seasons.drop_last();
        lemma_seasons_to_fetch_sources(front);
        let before = seasons_to_fetch_spec(front);
        let now = seasons_to_fetch_spec(seasons);
        let last = seasons[seasons.len() - 1];
        assert(seasons.last() == last);
        assert forall|k: int| 0 <= k < now.len() implies {
            &&& #[trigger] now[k] >= 0
            &&& exists|i: int| #![trigger seasons[i]] 0 <= i < seasons.len() && now[k] == match seasons[i].at("season_number"@).integer() {
                Some(n) => n,
                None => 0,
            }
        } by {
            if k < before.len() {
                assert(now[k] == before[k]);
                let i = choose|i: int| #![trigger front[i]] 0 <= i < front.len() && before[k] == match front[i].at("season_number"@).integer() {
                    Some(n) => n,
                    None => 0,
                };
                assert(seasons[i] == front[i]);
            } else {
                assert(now[k] == season_number_of(seasons[seasons.len() - 1]));
            }
        }
        assert forall|i: int| 0 <= i < seasons.len() && (match (#[trigger] seasons[i]).at("season_number"@).integer() {
            Some(n) => n,
            None => 0,
        }) >= 0 implies now.contains(season_number_of(seasons[i])) by {
            if i < front.len() {
                assert(seasons[i] == front[i]);
                let k = choose|k: int| 0 <= k < before.len() && before[k] == season_number_of(front[i]);
                assert(now[k] == before[k]);
            } else {
                assert(now[before.len() as int] == season_number_of(last));
            }
        }
    }
}

/// The season numbers whose episodes are asked for.
pub fn seasons_to_fetch(seasons: &Vec<Json>) -> (r: Vec<i64>)
    ensures
        r@ == seasons_to_fetch_spec(seasons@),
{
    let mut out: Vec<i64> = Vec::new();
    let n = seasons.len();
    let mut i: usize = 0;
    while i < n
        invariant
            n == seasons@.len(),
            i <= n,
            out@ == seasons_to_fetch_spec(seasons@.take(i as int)),
        decreases n - i,
    {
        assert(seasons@.take(i + 1).drop_last() =~= seasons@.take(i as int));
        let sn = match seasons[i].int_at("season_number") {
            Some(n) => n,
            None => 0,
        };
        if sn >= 0 {
            out.push(sn);
        }
        i = i + 1;
    }
    assert(seasons@.take(n as int) =~= seasons@);
    out
}

/// The values written for an episode.
pub struct EpisodeRow {
    pub tmdb_episode_id: Option<i64>,
    pub episode_number: Option<i64>,
    pub name: Option<String>,
    pub overview: Option<String>,
    pub air_date: Option<String>,
    pub runtime: Option<i64>,
    pub still_path: Option<String>,
    pub vote_average: Option<JsonNumber>,
    pub vote_count: Option<i64>,
}

/// The episode row read from an episode item of a season answer.
pub open spec fn episode_row_ok(r: EpisodeRow, episode: Json) -> bool {
    &&& r.tmdb_episode_id == episode.at("id"@).integer()
    &&& r.episode_number == episode.at("episode_number"@).integer()
    &&& opt_text(r.name) == episode.at("name"@).text()
    &&& opt_text(r.overview) == episode.at("overview"@).text()
    &&& opt_text(r.air_date) == episode.at("air_date"@).text()
    &&& r.runtime == episode.at("runtime"@).integer()
    &&& opt_text(r.still_path) == episode.at("still_path"@).text()
    &&& r.vote_average == episode.at("vote_average"@).number()
    &&& r.vote_count == episode.at("vote_count"@).integer()
}

/// Law: each column of an episode row is read from the episode item's
/// member of the same name (the TMDB episode id from `id`); in particular
/// the air date is the item's `air_date` text.
pub proof fn lemma_episode_row_fields(r: EpisodeRow, episode: Json)
    requires
        episode_row_ok(r, episode),
    ensures
        r.tmdb_episode_id == episode.at("id"@).integer(),
        r.episode_number == episode.at("episode_number"@).integer(),
        opt_text(r.name) == episode.at("name"@).text(),
        opt_text(r.overview) == episode.at("overview"@).text(),
        opt_text(r.air_date) == episode.at("air_date"@).text(),
        r.runtime == episode.at("runtime"@).integer(),
        opt_text(r.still_path) == episode.at("still_path"@).text(),
        r.vote_average == episode.at("vote_average"@).number(),
        r.vote_count == episode.at("vote_count"@).integer(),
{
}

/// The row stored for an episode.
pub fn episode_row(episode: &Json) -> (r: EpisodeRow)
    ensures
        episode_row_ok(r, *episode),
{
    EpisodeRow {
        tmdb_episode_id: episode.int_at("id"),
        episode_number: episode.int_at("episode_number"),
        name: episode.text_at("name"),
        overview: episode.text_at("overview"),
        air_date: episode.text_at("air_date"),
        runtime: episode.int_at("runtime"),
        still_path: episode.text_at("still_path"),
        vote_average: episode.number_at("vote_average"),
        vote_count: episode.int_at("vote_count"),
    }
}

/// The schema upgrades still to run from `version`, in order: each `k` of
/// 1, 2, 3 above it.
pub open spec fn pending_migrations_spec(version: int) -> Seq<u32> {
    if version < 1 {
        seq![1u32, 2u32, 3u32]
    } else if version < 2 {
        seq![2u32, 3u32]
    } else if version < 3 {
        seq![3u32]
    } else {
        Seq::empty()
    }
}

/// The schema version once the pending upgrades have run.
pub open spec fn version_after(version: int) -> int {
    if version < SCHEMA_VERSION {
        SCHEMA_VERSION as int
    } else {
        version
    }
}

/// The schema upgrades still to run from `version`.
pub fn pending_migrations(version: i64) -> (r: Vec<u32>)
    ensures
        r@ == pending_migrations_spec(version as int),
        forall|k: int| 0 <= k < r@.len() ==> version < #[trigger] r@[k] <= SCHEMA_VERSION,
{
    let mut out: Vec<u32> = Vec::new();
    if version < 1 {
        out.push(1);
    }
    if version < 2 {
        out.push(2);
    }
    if version < 3 {
        out.push(3);
    }
    assert(out@ =~= pending_migrations_spec(version as int));
    out
}

/// Law: after the pending upgrades have run, none is pending any more, and
/// the schema is at least at the latest version.
pub proof fn lemma_migrations_settle(version: int)
    ensures
        pending_migrations_spec(version_after(version)).len() == 0,
        version_after(version) >= SCHEMA_VERSION,
        pending_migrations_spec(version).len() > 0 ==> pending_migrations_spec(version).last() as int == version_after(version),
{
}

/// The watch order of a new play, given the largest order among the plays of
/// the same day (0 when there is none).
pub fn next_watch_order(day_max: i64) -> (r: i64)
    requires
        day_max < i64::MAX,
    ensures
        r == day_max + 1,
{
    day_max + 1
}

/// Law: a new play is ordered after every play of its day.
pub proof fn lemma_new_play_orders_last(day_orders: Seq<i64>, day_max: i64)
    requires
        forall|k: int| 0 <= k < day_orders.len() ==> day_orders[k] <= day_max,
        day_max < i64::MAX,
    ensures
        forall|k: int| 0 <= k < day_orders.len() ==> day_orders[k] < day_max + 1,
{
}

/// What toggling a title on the watchlist does.
#[derive(PartialEq, Eq, Structural, Clone, Copy, Debug)]
pub enum WatchlistChange {
    Remove,
    Add,
}

/// Membership after a change.
pub open spec fn member_after(change: WatchlistChange) -> bool {
    change == WatchlistChange::Add
}

/// What toggling does: removes a title that is on the watchlist, adds one
/// that is not. The answer of the toggle is whether the title is on it after.
pub fn watchlist_toggle(on_list: bool) -> (r: (WatchlistChange, bool))
    ensures
        r.0 == (if on_list { WatchlistChange::Remove } else { WatchlistChange::Add }),
        r.1 == member_after(r.0),
        r.1 == !on_list,
{
    if on_list {
        (WatchlistChange::Remove, false)
    } else {
        (WatchlistChange::Add, true)
    }
}

/// Law: toggling twice leaves the watchlist membership as it was.
pub proof fn lemma_toggle_twice(on_list: bool)
    ensures
        member_after(if member_after(if on_list { WatchlistChange::Remove } else { WatchlistChange::Add }) {
            WatchlistChange::Remove
        } else {
            WatchlistChange::Add
        }) == on_list,
{
}

/// Whether a title is on the watchlist, from the number of its watchlist rows.
pub fn on_watchlist(rows: i64) -> (r: bool)
    ensures
        r == (rows > 0),
{
    rows > 0
}

/// Whether a play, a media type or a source names a show (`"tv"`) rather than a film.
pub fn is_tv(kind: &str) -> (r: bool)
    ensures
        r == (kind@ == "tv"@),
{
    text_eq(kind, "tv")
}

/// The dashboard from its counts; the totals add films and shows.
pub fn dashboard_stats(
    movie_plays: i64,
    tv_plays: i64,
    movie_unique: i64,
    tv_unique: i64,
    movie_watchlist: i64,
    tv_watchlist: i64,
    movie_runtime: i64,
    tv_runtime: i64,
) -> (r: DashboardStats)
    requires
        i64::MIN <= movie_plays + tv_plays <= i64::MAX,
        i64::MIN <= movie_runtime + tv_runtime <= i64::MAX,
    ensures
        r == (DashboardStats {
            movie_total_plays: movie_plays,
            tv_total_plays: tv_plays,
            movie_unique_titles: movie_unique,
            tv_unique_shows: tv_unique,
            movie_watchlist_count: movie_watchlist,
            tv_watchlist_count: tv_watchlist,
            total_runtime_minutes: (movie_runtime + tv_runtime) as i64,
            total_plays: (movie_plays + tv_plays) as i64,
        }),
{
    DashboardStats {
        movie_total_plays: movie_plays,
        tv_total_plays: tv_plays,
        movie_unique_titles: movie_unique,
        tv_unique_shows: tv_unique,
        movie_watchlist_count: movie_watchlist,
        tv_watchlist_count: tv_watchlist,
        total_runtime_minutes: movie_runtime + tv_runtime,
        total_plays: movie_plays + tv_plays,
    }
}

/// The query for the people whose titles the user rated, in `role`.
pub open spec fn favorite_people_query(role: Seq<char>) -> Seq<char> {
    "SELECT p.tmdb_person_id, p.name, p.profile_path, '"@ + role
        + "',\n                    AVG(pl.user_rating), COUNT(DISTINCT pl.title_id)\n             FROM (\n                SELECT c.person_id, plays.user_rating, plays.movie_id as title_id\n                FROM plays JOIN credits c ON c.movie_id = plays.movie_id\n                WHERE plays.user_rating IS NOT NULL AND c.role_type = '"@
        + role
        + "'\n                UNION ALL\n                SELECT tc.person_id, tep.user_rating, tep.show_id\n                FROM tv_episode_plays tep\n                JOIN tv_credits tc ON tc.show_id = tep.show_id\n                WHERE tep.user_rating IS NOT NULL AND tc.role_type = '"@
        + role
        + "'\n             ) pl\n             JOIN persons p ON p.id = pl.person_id\n             GROUP BY p.tmdb_person_id\n             HAVING COUNT(DISTINCT pl.title_id) >= ?1 AND AVG(pl.user_rating) >= 5.0\n             ORDER BY avg_rating DESC, appearance_count DESC"@
}

/// The query for the favorite people in `role`, with the role written into it
/// in the three places that name it.
pub fn favorite_people_sql(role: &str) -> (r: String)
    ensures
        r@ == favorite_people_query(role@),
{
    let mut sql = String::from_str("SELECT p.tmdb_person_id, p.name, p.profile_path, '");
    sql.append(role);
    sql.append("',\n                    AVG(pl.user_rating), COUNT(DISTINCT pl.title_id)\n             FROM (\n                SELECT c.person_id, plays.user_rating, plays.movie_id as title_id\n                FROM plays JOIN credits c ON c.movie_id = plays.movie_id\n                WHERE plays.user_rating IS NOT NULL AND c.role_type = '");
    sql.append(role);
    sql.append("'\n                UNION ALL\n                SELECT tc.person_id, tep.user_rating, tep.show_id\n                FROM tv_episode_plays tep\n                JOIN tv_credits tc ON tc.show_id = tep.show_id\n                WHERE tep.user_rating IS NOT NULL AND tc.role_type = '");
    sql.append(role);
    sql.append("'\n             ) pl\n             JOIN persons p ON p.id = pl.person_id\n             GROUP BY p.tmdb_person_id\n             HAVING COUNT(DISTINCT pl.title_id) >= ?1 AND AVG(pl.user_rating) >= 5.0\n             ORDER BY avg_rating DESC, appearance_count DESC");
    sql
}

} // verus!
