//! The records that the diary shows and exports, where they hold no
//! floating-point field.
use vstd::prelude::*;
use crate::json::opt_text;

verus! {

/// The counts shown on the dashboard.
#[derive(Debug, Clone, Copy, PartialEq, Eq, Structural)]
pub struct DashboardStats {
    pub movie_total_plays: i64,
    pub tv_total_plays: i64,
    pub movie_unique_titles: i64,
    pub tv_unique_shows: i64,
    pub movie_watchlist_count: i64,
    pub tv_watchlist_count: i64,
    pub total_runtime_minutes: i64,
    pub total_plays: i64,
}

/// A place where titles are watched.
#[derive(Debug)]
pub struct Place {
    pub id: i64,
    pub name: String,
    pub is_cinema: bool,
}

/// One person in the credits of a film or show.
#[derive(Debug)]
pub struct CreditEntry {
    pub person_id: i64,
    pub tmdb_person_id: i64,
    pub person_name: String,
    pub profile_path: Option<String>,
    pub role_type: String,
    pub character_name: Option<String>,
}

/// The value of a credit entry.
pub struct CreditEntryView {
    pub person_id: i64,
    pub tmdb_person_id: i64,
    pub person_name: Seq<char>,
    pub profile_path: Option<Seq<char>>,
    pub role_type: Seq<char>,
    pub character_name: Option<Seq<char>>,
}

impl View for CreditEntry {
    type V = CreditEntryView;

    open spec fn view(&self) -> CreditEntryView {
        CreditEntryView {
            person_id: self.person_id,
            tmdb_person_id: self.tmdb_person_id,
            person_name: self.person_name@,
            profile_path: opt_text(self.profile_path),
            role_type: self.role_type@,
            character_name: opt_text(self.character_name),
        }
    }
}

/// One season of a show, with how many of its episodes were watched.
#[derive(Debug)]
pub struct SeasonInfo {
    pub id: i64,
    pub season_number: i64,
    pub name: Option<String>,
    pub episode_count: Option<i64>,
    pub total_episodes: i64,
    pub watched_episodes: i64,
    pub air_date: Option<String>,
}

/// How far the user is through a show.
#[derive(Debug, Clone, Copy, PartialEq, Eq, Structural)]
pub struct EpisodeProgress {
    pub total_episodes: i64,
    pub watched_episodes: i64,
    pub total_seasons: i64,
    pub completed_seasons: i64,
}

/// A show as the diary exports it.
#[derive(Debug)]
pub struct TvShowExport {
    pub tmdb_id: i64,
    pub name: String,
    pub original_name: Option<String>,
    pub imdb_id: Option<String>,
}

} // verus!
