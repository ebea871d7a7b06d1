//! What the diary asks the TMDB service, and how it reads some of the answers.
use vstd::prelude::*;
use crate::json::{Json, JsonNumber, opt_text, or_else, item_names, elements_or_empty, names_at};
use crate::text::{decimal, decimal_text, encode_spaces, urlencoding, text_eq};
use crate::recommend::item_id;

verus! {

/// The root of the TMDB service.
pub open spec fn base_url() -> Seq<char> {
    "https://api.themoviedb.org/3"@
}

/// `base + prefix + id + suffix + key`.
fn id_url(prefix: &str, id: i64, suffix: &str, api_key: &str) -> (r: String)
    ensures
        r@ == base_url() + prefix@ + decimal(id as int) + suffix@ + api_key@,
{
    let mut url = String::from_str("https://api.themoviedb.org/3");
    url.append(prefix);
    let number = decimal_text(id);
    url.append(number.as_str());
    url.append(suffix);
    url.append(api_key);
    url
}

/// The search for films, shows and people matching `query` (spaces escaped).
pub fn search_multi_url(query: &str, api_key: &str) -> (r: String)
    ensures
        r@ == base_url() + "/search/multi?query="@ + encode_spaces(query@)
            + "&include_adult=false&language=en-US&page=1&api_key="@ + api_key@,
{
    let mut url = String::from_str("https://api.themoviedb.org/3");
    url.append("/search/multi?query=");
    let q = urlencoding(query);
    url.append(q.as_str());
    url.append("&include_adult=false&language=en-US&page=1&api_key=");
    url.append(api_key);
    url
}

/// The details of a film.
pub fn movie_details_url(tmdb_id: i64, api_key: &str) -> (r: String)
    ensures
        r@ == base_url() + "/movie/"@ + decimal(tmdb_id as int) + "?language=en-US&api_key="@ + api_key@,
{
    id_url("/movie/", tmdb_id, "?language=en-US&api_key=", api_key)
}

/// The details of a show, with its external ids.
pub fn tv_details_url(tmdb_id: i64, api_key: &str) -> (r: String)
    ensures
        r@ == base_url() + "/tv/"@ + decimal(tmdb_id as int)
            + "?language=en-US&append_to_response=external_ids&api_key="@ + api_key@,
{
    id_url("/tv/", tmdb_id, "?language=en-US&append_to_response=external_ids&api_key=", api_key)
}

/// The cast and crew of a film.
pub fn movie_credits_url(tmdb_id: i64, api_key: &str) -> (r: String)
    ensures
        r@ == base_url() + "/movie/"@ + decimal(tmdb_id as int) + "/credits?language=en-US&api_key="@ + api_key@,
{
    id_url("/movie/", tmdb_id, "/credits?language=en-US&api_key=", api_key)
}

/// The cast and crew of a show over all its seasons.
pub fn tv_aggregate_credits_url(tmdb_id: i64, api_key: &str) -> (r: String)
    ensures
        r@ == base_url() + "/tv/"@ + decimal(tmdb_id as int) + "/aggregate_credits?language=en-US&api_key="@
            + api_key@,
{
    id_url("/tv/", tmdb_id, "/aggregate_credits?language=en-US&api_key=", api_key)
}

/// The cast and crew of a show's latest season.
pub fn tv_credits_url(tmdb_id: i64, api_key: &str) -> (r: String)
    ensures
        r@ == base_url() + "/tv/"@ + decimal(tmdb_id as int) + "/credits?language=en-US&api_key="@ + api_key@,
{
    id_url("/tv/", tmdb_id, "/credits?language=en-US&api_key=", api_key)
}

/// One season of a show, with its episodes.
pub fn tv_season_url(tmdb_id: i64, season: i64, api_key: &str) -> (r: String)
    ensures
        r@ == base_url() + "/tv/"@ + decimal(tmdb_id as int) + "/season/"@ + decimal(season as int)
            + "?language=en-US&api_key="@ + api_key@,
{
    let mut url = id_url("/tv/", tmdb_id, "/season/", "");
    proof { reveal_strlit(""); }
    assert(url@ == base_url() + "/tv/"@ + decimal(tmdb_id as int) + "/season/"@);
    let number = decimal_text(season);
    url.append(number.as_str());
    url.append("?language=en-US&api_key=");
    url.append(api_key);
    url
}

/// The details of a person.
pub fn person_details_url(person_id: i64, api_key: &str) -> (r: String)
    ensures
        r@ == base_url() + "/person/"@ + decimal(person_id as int) + "?language=en-US&api_key="@ + api_key@,
{
    id_url("/person/", person_id, "?language=en-US&api_key=", api_key)
}

/// The keywords of a film.
pub fn movie_keywords_url(tmdb_id: i64, api_key: &str) -> (r: String)
    ensures
        r@ == base_url() + "/movie/"@ + decimal(tmdb_id as int) + "/keywords?api_key="@ + api_key@,
{
    id_url("/movie/", tmdb_id, "/keywords?api_key=", api_key)
}

/// The keywords of a show.
pub fn tv_keywords_url(tmdb_id: i64, api_key: &str) -> (r: String)
    ensures
        r@ == base_url() + "/tv/"@ + decimal(tmdb_id as int) + "/keywords?api_key="@ + api_key@,
{
    id_url("/tv/", tmdb_id, "/keywords?api_key=", api_key)
}

/// Everything a person played in or worked on.
pub fn person_combined_credits_url(person_id: i64, api_key: &str) -> (r: String)
    ensures
        r@ == base_url() + "/person/"@ + decimal(person_id as int) + "/combined_credits?language=en-US&api_key="@
            + api_key@,
{
    id_url("/person/", person_id, "/combined_credits?language=en-US&api_key=", api_key)
}

/// TMDB's recommendations for a film.
pub fn movie_recommendations_url(tmdb_id: i64, api_key: &str) -> (r: String)
    ensures
        r@ == base_url() + "/movie/"@ + decimal(tmdb_id as int) + "/recommendations?language=en-US&page=1&api_key="@
            + api_key@,
{
    id_url("/movie/", tmdb_id, "/recommendations?language=en-US&page=1&api_key=", api_key)
}

/// TMDB's recommendations for a show.
pub fn tv_recommendations_url(tmdb_id: i64, api_key: &str) -> (r: String)
    ensures
        r@ == base_url() + "/tv/"@ + decimal(tmdb_id as int) + "/recommendations?language=en-US&page=1&api_key="@
            + api_key@,
{
    id_url("/tv/", tmdb_id, "/recommendations?language=en-US&page=1&api_key=", api_key)
}

/// The query parameter that selects titles by a person in `role`.
pub open spec fn person_param(role: Seq<char>) -> Seq<char> {
    if role == "actor"@ {
        "with_cast"@
    } else {
        "with_crew"@
    }
}

/// Law: titles are selected by their cast for an actor and by their crew
/// for any other role.
pub proof fn lemma_person_param(role: Seq<char>)
    ensures
        role == "actor"@ ==> person_param(role) == "with_cast"@,
        role != "actor"@ ==> person_param(role) == "with_crew"@,
{
}

/// The best-rated titles of `media_type` with a person: in the cast for an
/// actor, in the crew for any other role.
pub fn discover_by_person_url(person_id: i64, media_type: &str, role: &str, api_key: &str) -> (r: String)
    ensures
        r@ == base_url() + "/discover/"@ + media_type@ + "?"@ + person_param(role@) + "="@ + decimal(person_id as int)
            + "&sort_by=vote_average.desc&vote_count.gte=50&language=en-US&page=1&api_key="@ + api_key@,
{
    let mut url = String::from_str("https://api.themoviedb.org/3");
    url.append("/discover/");
    url.append(media_type);
    url.append("?");
    if text_eq(role, "actor") {
        url.append("with_cast");
    } else {
        url.append("with_crew");
    }
    url.append("=");
    let number = decimal_text(person_id);
    url.append(number.as_str());
    url.append("&sort_by=vote_average.desc&vote_count.gte=50&language=en-US&page=1&api_key=");
    url.append(api_key);
    url
}

/// A list member that is absent, not an array, or an empty array.
pub open spec fn empty_or_absent(v: Json) -> bool {
    match v.elements() {
        Some(a) => a.len() == 0,
        None => true,
    }
}

/// Law: a list member counts as empty when it is absent or not an array,
/// and when it is an array with no element; an array with an element does not.
pub proof fn lemma_empty_or_absent(v: Json)
    ensures
        !(v is Array) ==> empty_or_absent(v),
        v matches Json::Array(a) ==> (empty_or_absent(v) <==> a@.len() == 0),
{
}

/// Whether an aggregate credits answer holds nobody, so that the plain
/// credits of the show are to be asked for instead.
pub fn needs_credits_fallback(aggregate: &Json) -> (r: bool)
    ensures
        r == (empty_or_absent(aggregate.at("cast"@)) && empty_or_absent(aggregate.at("crew"@))),
{
    let no_cast = match aggregate.array_at("cast") {
        Some(a) => a.len() == 0,
        None => true,
    };
    let no_crew = match aggregate.array_at("crew") {
        Some(a) => a.len() == 0,
        None => true,
    };
    no_cast && no_crew
}

/// The keywords of a film's keywords answer.
pub fn movie_keywords(answer: &Json) -> (r: Vec<String>)
    ensures
        r@.map_values(|t: String| t@) == item_names(elements_or_empty(answer.at("keywords"@))),
{
    names_at(answer, "keywords")
}

/// The keywords of a show's keywords answer.
pub fn tv_keywords(answer: &Json) -> (r: Vec<String>)
    ensures
        r@.map_values(|t: String| t@) == item_names(elements_or_empty(answer.at("results"@))),
{
    names_at(answer, "results")
}

/// One film or show found by a search.
pub struct TmdbSearchResult {
    pub id: i64,
    pub title: Option<String>,
    pub name: Option<String>,
    pub media_type: String,
    pub poster_path: Option<String>,
    pub release_date: Option<String>,
    pub first_air_date: Option<String>,
    pub vote_average: Option<JsonNumber>,
    pub overview: Option<String>,
}

/// The value of a search result.
pub struct TmdbSearchResultView {
    pub id: i64,
    pub title: Option<Seq<char>>,
    pub name: Option<Seq<char>>,
    pub media_type: Seq<char>,
    pub poster_path: Option<Seq<char>>,
    pub release_date: Option<Seq<char>>,
    pub first_air_date: Option<Seq<char>>,
    pub vote_average: Option<JsonNumber>,
    pub overview: Option<Seq<char>>,
}

impl View for TmdbSearchResult {
    type V = TmdbSearchResultView;

    open spec fn view(&self) -> TmdbSearchResultView {
        TmdbSearchResultView {
            id: self.id,
            title: opt_text(self.title),
            name: opt_text(self.name),
            media_type: self.media_type@,
            poster_path: opt_text(self.poster_path),
            release_date: opt_text(self.release_date),
            first_air_date: opt_text(self.first_air_date),
            vote_average: self.vote_average,
            overview: opt_text(self.overview),
        }
    }
}

/// The result read from a search item, if it is a film or a show.
pub open spec fn search_hit(item: Json) -> Option<TmdbSearchResultView> {
    match item.at("media_type"@).text() {
        Some(media) => if media == "movie"@ || media == "tv"@ {
            Some(
                TmdbSearchResultView {
                    id: item_id(item),
                    title: or_else(item.at("title"@).text(), item.at("name"@).text()),
                    name: item.at("name"@).text(),
                    media_type: media,
                    poster_path: item.at("poster_path"@).text(),
                    release_date: or_else(item.at("release_date"@).text(), item.at("first_air_date"@).text()),
                    first_air_date: item.at("first_air_date"@).text(),
                    vote_average: item.at("vote_average"@).number(),
                    overview: item.at("overview"@).text(),
                },
            )
        } else {
            None
        },
        None => None,
    }
}

/// The films and shows among search items, in order.
pub open spec fn search_hits(items: Seq<Json>) -> Seq<TmdbSearchResultView>
    decreases items.len(),
{
    if items.len() == 0 {
        Seq::empty()
    } else {
        match search_hit(items.last()) {
            Some(h) => search_hits(items.drop_last()).push(h),
            None => search_hits(items.drop_last()),
        }
    }
}

/// Law: an item is a hit exactly when its `media_type` text is `"movie"` or
/// `"tv"`; a hit keeps that media type, takes its id from `id` (0 when
/// absent), its poster from `poster_path`, its name, first air date,
/// overview and vote average from the members of those names, its title from
/// `title` or else `name`, and its release date from `release_date` or else
/// `first_air_date`.
pub proof fn lemma_search_hit_fields(item: Json)
    ensures
        search_hit(item) is Some <==> (item.at("media_type"@).text() == Some("movie"@)
            || item.at("media_type"@).text() == Some("tv"@)),
        search_hit(item) matches Some(h) ==> {
            &&& Some(h.media_type) == item.at("media_type"@).text()
            &&& h.id == match item.at("id"@).integer() {
                Some(n) => n,
                None => 0,
            }
            &&& h.poster_path == item.at("poster_path"@).text()
            &&& h.name == item.at("name"@).text()
            &&& h.first_air_date == item.at("first_air_date"@).text()
            &&& h.overview == item.at("overview"@).text()
            &&& h.vote_average == item.at("vote_average"@).number()
            &&& h.title == match item.at("title"@).text() {
                Some(t) => Some(t),
                None => item.at("name"@).text(),
            }
            &&& h.release_date == match item.at("release_date"@).text() {
                Some(d) => Some(d),
                None => item.at("first_air_date"@).text(),
            }
        },
{
}

/// Law: every hit of a list of search items is the hit read from one of the
/// items, and every item that is a hit is among them; there are no more hits
/// than items.
pub proof fn lemma_search_hits_sources(items: Seq<Json>)
    ensures
        search_hits(items).len() <= items.len(),
        forall|k: int| 0 <= k < search_hits(items).len() ==>
            exists|i: int| 0 <= i < items.len() && search_hit(items[i]) == Some(#[trigger] search_hits(items)[k]),
        forall|i: int| 0 <= i < items.len() && (#[trigger] search_hit(items[i])) is Some ==>
            search_hits(items).contains(search_hit(items[i])->0),
    decreases items.len(),
{
    if items.len() > 0 {
        let front = items.drop_last();
        lemma_search_hits_sources(front);
        let before = search_hits(front);
        let now = search_hits(items);
        let last = items[items.len() - 1];
        assert(items.last() == last);
        assert forall|k: int| 0 <= k < now.len() implies
            exists|i: int| 0 <= i < items.len() && search_hit(items[i]) == Some(#[trigger] now[k]) by {
            if k < before.len() {
                assert(now[k] == before[k]);
                let i = choose|i: int| 0 <= i < front.len() && search_hit(front[i]) == Some(before[k]);
                assert(items[i] == front[i]);
            } else {
                assert(search_hit(items[items.len() - 1]) == Some(now[k]));
            }
        }
        assert forall|i: int| 0 <= i < items.len() && (#[trigger] search_hit(items[i])) is Some implies
            now.contains(search_hit(items[i])->0) by {
            if i < front.len() {
                assert(items[i] == front[i]);
                assert(search_hit(front[i]) is Some);
                let k = choose|k: int| 0 <= k < before.len() && before[k] == search_hit(front[i])->0;
                assert(now[k] == before[k]);
            } else {
                assert(now[before.len() as int] == search_hit(last)->0);
            }
        }
    }
}

fn search_hit_of(item: &Json) -> (r: Option<TmdbSearchResult>)
    ensures
        match r {
            Some(h) => search_hit(*item) == Some(h@),
            None => search_hit(*item) is None,
        },
{
    let media = match item.text_at("media_type") {
        Some(m) => m,
        None => return None,
    };
    if !text_eq(media.as_str(), "movie") && !text_eq(media.as_str(), "tv") {
        return None;
    }
    let title = match item.text_at("title") {
        Some(t) => Some(t),
        None => item.text_at("name"),
    };
    let release_date = match item.text_at("release_date") {
        Some(t) => Some(t),
        None => item.text_at("first_air_date"),
    };
    Some(
        TmdbSearchResult {
            id: match item.int_at("id") {
                Some(n) => n,
                None => 0,
            },
            title,
            name: item.text_at("name"),
            media_type: media,
            poster_path: item.text_at("poster_path"),
            release_date,
            first_air_date: item.text_at("first_air_date"),
            vote_average: item.number_at("vote_average"),
            overview: item.text_at("overview"),
        },
    )
}

/// The films and shows of a search answer (the `results` list), in order;
/// people and anything that is not an array give nothing.
pub fn search_results(results: &Json) -> (r: Vec<TmdbSearchResult>)
    ensures
        r@.map_values(|h: TmdbSearchResult| h@) == search_hits(elements_or_empty(*results)),
{
    let mut out: Vec<TmdbSearchResult> = Vec::new();
    match results.as_array() {
        Some(items) => {
            let n = items.len();
            let mut i: usize = 0;
            while i < n
                invariant
                    n == items@.len(),
                    i <= n,
                    out@.map_values(|h: TmdbSearchResult| h@) == search_hits(items@.take(i as int)),
                decreases n - i,
            {
                assert(items@.take(i + 1).drop_last() =~= items@.take(i as int));
                let ghost before = out@;
                match search_hit_of(&items[i]) {
                    Some(h) => {
                        out.push(h);
                        assert(out@.map_values(|h: TmdbSearchResult| h@) =~= before.map_values(|h: TmdbSearchResult| h@).push(out@.last()@));
                    },
                    None => {},
                }
                i = i + 1;
            }
            assert(items@.take(n as int) =~= items@);
        },
        None => {
            assert(out@.map_values(|h: TmdbSearchResult| h@) =~= Seq::<TmdbSearchResultView>::empty());
        },
    }
    out
}

} // verus!
