//! Gathering recommendation candidates from TMDB answers.
//!
//! A pool starts from the titles the user has already watched, each named by
//! its TMDB id and media type. Every strategy offers the items of one TMDB
//! answer in order; an item is taken only when its (id, media type) is
//! neither watched nor already taken. Taking from the user's favorites stops
//! after twenty candidates.
use vstd::prelude::*;
use crate::json::{Json, JsonNumber, opt_text, or_else};
use crate::text::{text_eq, text_contains, occurs_in};

verus! {

/// How many candidates the favorites strategy may add in all.
pub const FAVORITES_QUOTA: usize = 20;

/// How many items of a text search are looked at.
pub const SEARCH_ITEMS: usize = 5;

/// How many items of one person's filmography are looked at.
pub const PERSON_ITEMS: usize = 3;

/// A title that might be recommended, before any scoring.
pub struct Candidate {
    pub tmdb_id: i64,
    pub media_type: String,
    pub title: String,
    pub poster: Option<String>,
    pub release_date: Option<String>,
    pub overview: Option<String>,
    /// TMDB's `vote_average`, as the answer gave it.
    pub vote_average: Option<JsonNumber>,
    pub match_reason: String,
}

/// The value of a candidate.
pub struct CandidateView {
    pub tmdb_id: i64,
    pub media_type: Seq<char>,
    pub title: Seq<char>,
    pub poster: Option<Seq<char>>,
    pub release_date: Option<Seq<char>>,
    pub overview: Option<Seq<char>>,
    pub vote_average: Option<JsonNumber>,
    pub match_reason: Seq<char>,
}

impl View for Candidate {
    type V = CandidateView;

    open spec fn view(&self) -> CandidateView {
        CandidateView {
            tmdb_id: self.tmdb_id,
            media_type: self.media_type@,
            title: self.title@,
            poster: opt_text(self.poster),
            release_date: opt_text(self.release_date),
            overview: opt_text(self.overview),
            vote_average: self.vote_average,
            match_reason: self.match_reason@,
        }
    }
}

/// The value of a pool: the watched titles, the candidates taken so far, and
/// how many of them the favorites strategy added.
pub struct PoolView {
    pub watched: Seq<(i64, Seq<char>)>,
    pub candidates: Seq<CandidateView>,
    pub favorites_added: nat,
}

/// The key of a candidate: its TMDB id and media type.
pub open spec fn key_of(c: CandidateView) -> (i64, Seq<char>) {
    (c.tmdb_id, c.media_type)
}

/// The keys of a list of candidates, in order.
pub open spec fn keys_of(cs: Seq<CandidateView>) -> Seq<(i64, Seq<char>)> {
    cs.map_values(|c: CandidateView| key_of(c))
}

/// A key that the pool already knows: watched, or taken.
pub open spec fn known(p: PoolView, k: (i64, Seq<char>)) -> bool {
    p.watched.contains(k) || keys_of(p.candidates).contains(k)
}

/// The pool after `c` is offered: it is appended unless its key is known.
pub open spec fn offer(p: PoolView, c: CandidateView) -> PoolView {
    if known(p, key_of(c)) {
        p
    } else {
        PoolView { candidates: p.candidates.push(c), ..p }
    }
}

/// The pool after each item is offered in turn, through `make` (an item for
/// which `make` gives nothing is passed over).
pub open spec fn offer_each(
    p: PoolView,
    items: Seq<Json>,
    make: spec_fn(Json) -> Option<CandidateView>,
) -> PoolView
    decreases items.len(),
{
    if items.len() == 0 {
        p
    } else {
        let q = offer_each(p, items.drop_last(), make);
        match make(items.last()) {
            Some(c) => offer(q, c),
            None => q,
        }
    }
}

/// The pool after a favorites candidate is offered: nothing happens once the
/// quota is reached; otherwise the candidate is offered and counted if taken.
pub open spec fn offer_favorite(p: PoolView, c: CandidateView) -> PoolView {
    if p.favorites_added >= FAVORITES_QUOTA || known(p, key_of(c)) {
        p
    } else {
        PoolView {
            candidates: p.candidates.push(c),
            favorites_added: p.favorites_added + 1,
            ..p
        }
    }
}

/// The pool after each favorites item is offered in turn.
pub open spec fn offer_favorites(p: PoolView, items: Seq<Json>) -> PoolView
    decreases items.len(),
{
    if items.len() == 0 {
        p
    } else {
        offer_favorite(offer_favorites(p, items.drop_last()), movie_candidate(items.last(), reason_favorites()))
    }
}

/// At most the first `n` elements.
pub open spec fn first_n<T>(s: Seq<T>, n: nat) -> Seq<T> {
    if s.len() <= n {
        s
    } else {
        s.take(n as int)
    }
}

/// An absent text stands for the empty one.
pub open spec fn text_or_empty(o: Option<Seq<char>>) -> Seq<char> {
    match o {
        Some(t) => t,
        None => Seq::empty(),
    }
}

/// `item["id"].as_i64().unwrap_or(0)`.
pub open spec fn item_id(item: Json) -> i64 {
    match item.at("id"@).integer() {
        Some(n) => n,
        None => 0,
    }
}

pub open spec fn reason_similar() -> Seq<char> {
    "Similar to what you're watching"@
}

pub open spec fn reason_favorites() -> Seq<char> {
    "Recommended based on your favorites"@
}

pub open spec fn reason_search() -> Seq<char> {
    "Matches your search"@
}

pub open spec fn reason_director() -> Seq<char> {
    "From a director you love"@
}

/// A candidate read from an item that may be a film or a show: the title
/// falls back on the name, the release date on the first air date.
pub open spec fn wide_candidate(item: Json, media: Seq<char>, reason: Seq<char>) -> CandidateView {
    CandidateView {
        tmdb_id: item_id(item),
        media_type: media,
        title: text_or_empty(or_else(item.at("title"@).text(), item.at("name"@).text())),
        poster: item.at("poster_path"@).text(),
        release_date: or_else(item.at("release_date"@).text(), item.at("first_air_date"@).text()),
        overview: item.at("overview"@).text(),
        vote_average: item.at("vote_average"@).number(),
        match_reason: reason,
    }
}

/// A candidate read from an item known to be a film.
pub open spec fn movie_candidate(item: Json, reason: Seq<char>) -> CandidateView {
    CandidateView {
        tmdb_id: item_id(item),
        media_type: "movie"@,
        title: text_or_empty(item.at("title"@).text()),
        poster: item.at("poster_path"@).text(),
        release_date: item.at("release_date"@).text(),
        overview: item.at("overview"@).text(),
        vote_average: item.at("vote_average"@).number(),
        match_reason: reason,
    }
}

/// The media type of a search item (`"movie"` when it names none).
pub open spec fn search_media(item: Json) -> Seq<char> {
    match item.at("media_type"@).text() {
        Some(t) => t,
        None => "movie"@,
    }
}

/// Items like the one the user is looking at.
pub open spec fn reference_maker(media: Seq<char>) -> spec_fn(Json) -> Option<CandidateView> {
    |item: Json| Some(wide_candidate(item, media, reason_similar()))
}

/// Search items: only films and shows.
pub open spec fn search_maker() -> spec_fn(Json) -> Option<CandidateView> {
    |item: Json|
        if search_media(item) == "movie"@ || search_media(item) == "tv"@ {
            Some(wide_candidate(item, search_media(item), reason_search()))
        } else {
            None
        }
}

/// Films of a favorite director.
pub open spec fn director_maker() -> spec_fn(Json) -> Option<CandidateView> {
    |item: Json| Some(movie_candidate(item, reason_director()))
}

/// The elements of an answer, or none when it is not an array.
pub open spec fn answer_items(answer: Json) -> Seq<Json> {
    match answer.elements() {
        Some(a) => a,
        None => Seq::empty(),
    }
}

/// Law: the items of an answer are the elements of the array it is, in
/// order, and there are none when it is not an array.
pub proof fn lemma_answer_items(answer: Json)
    ensures
        answer matches Json::Array(a) ==> answer_items(answer) == a@,
        !(answer is Array) ==> answer_items(answer) == Seq::<Json>::empty(),
{
}

/// The pool of candidates.
pub struct CandidatePool {
    watched: Vec<(i64, String)>,
    candidates: Vec<Candidate>,
    favorites_added: usize,
}

impl View for CandidatePool {
    type V = PoolView;

    closed spec fn view(&self) -> PoolView {
        PoolView {
            watched: self.watched@.map_values(|k: (i64, String)| (k.0, k.1@)),
            candidates: self.candidates@.map_values(|c: Candidate| c@),
            favorites_added: self.favorites_added as nat,
        }
    }
}

/// The candidates of a pool are told apart by their keys, and none of them is watched.
pub open spec fn pool_wf(p: PoolView) -> bool {
    &&& keys_of(p.candidates).no_duplicates()
    &&& forall|i: int| 0 <= i < p.candidates.len() ==> !p.watched.contains(#[trigger] key_of(p.candidates[i]))
    &&& p.favorites_added <= FAVORITES_QUOTA
}

/// Builds the candidate for an item that may be a film or a show.
fn wide_candidate_of(item: &Json, media: &str, reason: &str) -> (c: Candidate)
    ensures
        c@ == wide_candidate(*item, media@, reason@),
{
    let title = match item.text_at("title") {
        Some(t) => t,
        None => match item.text_at("name") {
            Some(t) => t,
            None => String::new(),
        },
    };
    let release_date = match item.text_at("release_date") {
        Some(t) => Some(t),
        None => item.text_at("first_air_date"),
    };
    Candidate {
        tmdb_id: match item.int_at("id") {
            Some(n) => n,
            None => 0,
        },
        media_type: String::from_str(media),
        title,
        poster: item.text_at("poster_path"),
        release_date,
        overview: item.text_at("overview"),
        vote_average: item.number_at("vote_average"),
        match_reason: String::from_str(reason),
    }
}

/// Builds the candidate for an item known to be a film.
fn movie_candidate_of(item: &Json, reason: &str) -> (c: Candidate)
    ensures
        c@ == movie_candidate(*item, reason@),
{
    let title = match item.text_at("title") {
        Some(t) => t,
        None => String::new(),
    };
    Candidate {
        tmdb_id: match item.int_at("id") {
            Some(n) => n,
            None => 0,
        },
        media_type: String::from_str("movie"),
        title,
        poster: item.text_at("poster_path"),
        release_date: item.text_at("release_date"),
        overview: item.text_at("overview"),
        vote_average: item.number_at("vote_average"),
        match_reason: String::from_str(reason),
    }
}

impl CandidatePool {
    pub closed spec fn spec_watched_len(&self) -> nat {
        self.watched@.len()
    }

    /// A pool that knows the watched titles and holds no candidate.
    pub fn new(watched: Vec<(i64, String)>) -> (p: CandidatePool)
        ensures
            p@.watched == watched@.map_values(|k: (i64, String)| (k.0, k.1@)),
            p@.candidates == Seq::<CandidateView>::empty(),
            p@.favorites_added == 0,
            pool_wf(p@),
    {
        let p = CandidatePool { watched, candidates: Vec::new(), favorites_added: 0 };
        assert(p@.candidates =~= Seq::<CandidateView>::empty());
        p
    }

    /// Whether the key `(id, media)` is watched or taken.
    fn knows(&self, id: i64, media: &String) -> (r: bool)
        ensures
            r == known(self@, (id, media@)),
    {
        let ghost p = self@;
        let n = self.watched.len();
        let mut i: usize = 0;
        while i < n
            invariant
                n == self.watched@.len(),
                i <= n,
                p == self@,
                forall|j: int| 0 <= j < i ==> p.watched[j] != (id, media@),
            decreases n - i,
        {
            assert(p.watched[i as int] == (self.watched@[i as int].0, self.watched@[i as int].1@));
            if self.watched[i].0 == id && self.watched[i].1 == *media {
                assert(p.watched.contains((id, media@)));
                return true;
            }
            i = i + 1;
        }
        let m = self.candidates.len();
        let mut j: usize = 0;
        while j < m
            invariant
                m == self.candidates@.len(),
                j <= m,
                p == self@,
                forall|k: int| 0 <= k < n ==> p.watched[k] != (id, media@),
                p.watched.len() == n,
                forall|k: int| 0 <= k < j ==> keys_of(p.candidates)[k] != (id, media@),
            decreases m - j,
        {
            assert(keys_of(p.candidates)[j as int] == (self.candidates@[j as int].tmdb_id, self.candidates@[j as int].media_type@));
            if self.candidates[j].tmdb_id == id && self.candidates[j].media_type == *media {
                assert(keys_of(p.candidates).contains((id, media@)));
                return true;
            }
            j = j + 1;
        }
        false
    }

    /// Offers one candidate: it is taken unless its key is known.
    fn offer_one(&mut self, c: Candidate) -> (taken: bool)
        requires
            pool_wf(old(self)@),
        ensures
            final(self)@ == offer(old(self)@, c@),
            taken == !known(old(self)@, key_of(c@)),
            pool_wf(final(self)@),
    {
        if self.knows(c.tmdb_id, &c.media_type) {
            false
        } else {
            let ghost old_view = self@;
            let ghost cv = c@;
            self.candidates.push(c);
            proof {
                assert(self@.candidates =~= old_view.candidates.push(cv));
                assert(keys_of(old_view.candidates.push(cv)) =~= keys_of(old_view.candidates).push(key_of(cv)));
                assert(self@ == offer(old_view, cv));
                let ks = keys_of(self@.candidates);
                assert forall|a: int, b: int| 0 <= a < ks.len() && 0 <= b < ks.len() && a != b implies ks[a] != ks[b] by {
                    if a == ks.len() - 1 {
                        assert(keys_of(old_view.candidates).contains(ks[b]));
                    } else if b == ks.len() - 1 {
                        assert(keys_of(old_view.candidates).contains(ks[a]));
                    }
                }
            }
            true
        }
    }

    /// Offers the items of the answer for a reference title, as films or
    /// shows of type `media`.
    pub fn add_reference_items(&mut self, answer: &Json, media: &str)
        requires
            pool_wf(old(self)@),
        ensures
            final(self)@ == offer_each(old(self)@, answer_items(*answer), reference_maker(media@)),
            pool_wf(final(self)@),
    {
        if let Some(items) = answer.as_array() {
            let ghost start = self@;
            let n = items.len();
            let mut i: usize = 0;
            while i < n
                invariant
                    n == items@.len(),
                    i <= n,
                    pool_wf(self@),
                    self@ == offer_each(start, items@.take(i as int), reference_maker(media@)),
                decreases n - i,
            {
                assert(items@.take(i + 1).drop_last() =~= items@.take(i as int));
                let c = wide_candidate_of(&items[i], media, "Similar to what you're watching");
                self.offer_one(c);
                i = i + 1;
            }
            assert(items@.take(n as int) =~= items@);
        }
    }

    /// Whether the favorites strategy has added all it may.
    pub fn favorites_full(&self) -> (r: bool)
        ensures
            r == (self@.favorites_added >= FAVORITES_QUOTA),
    {
        self.favorites_added >= FAVORITES_QUOTA
    }

    /// Offers the items of the answer for one of the user's favorite films,
    /// as films, until the quota is reached.
    pub fn add_favorite_items(&mut self, answer: &Json)
        requires
            pool_wf(old(self)@),
        ensures
            final(self)@ == offer_favorites(old(self)@, answer_items(*answer)),
            pool_wf(final(self)@),
    {
        if let Some(items) = answer.as_array() {
            let ghost start = self@;
            let n = items.len();
            let mut i: usize = 0;
            while i < n
                invariant
                    n == items@.len(),
                    i <= n,
                    pool_wf(self@),
                    self@ == offer_favorites(start, items@.take(i as int)),
                decreases n - i,
            {
                assert(items@.take(i + 1).drop_last() =~= items@.take(i as int));
                if self.favorites_added < FAVORITES_QUOTA {
                    let c = movie_candidate_of(&items[i], "Recommended based on your favorites");
                    let taken = self.offer_one(c);
                    if taken {
                        self.favorites_added = self.favorites_added + 1;
                    }
                }
                i = i + 1;
            }
            assert(items@.take(n as int) =~= items@);
        }
    }

    /// Offers the first items of a text search that are films or shows.
    pub fn add_search_items(&mut self, answer: &Json)
        requires
            pool_wf(old(self)@),
        ensures
            final(self)@ == offer_each(old(self)@, first_n(answer_items(*answer), SEARCH_ITEMS as nat), search_maker()),
            pool_wf(final(self)@),
    {
        proof {
            reveal_strlit("movie");
            reveal_strlit("tv");
        }
        if let Some(items) = answer.as_array() {
            let ghost start = self@;
            let n = if items.len() < SEARCH_ITEMS { items.len() } else { SEARCH_ITEMS };
            let ghost firsts = first_n(items@, SEARCH_ITEMS as nat);
            assert(firsts.len() == n);
            let mut i: usize = 0;
            while i < n
                invariant
                    n == firsts.len(),
                    n <= items@.len(),
                    forall|k: int| 0 <= k < n ==> firsts[k] == items@[k],
                    i <= n,
                    pool_wf(self@),
                    self@ == offer_each(start, firsts.take(i as int), search_maker()),
                decreases n - i,
            {
                assert(firsts.take(i + 1).drop_last() =~= firsts.take(i as int));
                assert(firsts.take(i + 1).last() == items@[i as int]);
                let media = match items[i].text_at("media_type") {
                    Some(t) => t,
                    None => String::from_str("movie"),
                };
                if text_eq(media.as_str(), "movie") || text_eq(media.as_str(), "tv") {
                    let c = wide_candidate_of(&items[i], media.as_str(), "Matches your search");
                    self.offer_one(c);
                }
                i = i + 1;
            }
            assert(firsts.take(n as int) =~= firsts);
        }
    }

    /// Offers the first films of the filmography of a favorite director.
    pub fn add_director_items(&mut self, answer: &Json)
        requires
            pool_wf(old(self)@),
        ensures
            final(self)@ == offer_each(old(self)@, first_n(answer_items(*answer), PERSON_ITEMS as nat), director_maker()),
            pool_wf(final(self)@),
    {
        if let Some(items) = answer.as_array() {
            let ghost start = self@;
            let n = if items.len() < PERSON_ITEMS { items.len() } else { PERSON_ITEMS };
            let ghost firsts = first_n(items@, PERSON_ITEMS as nat);
            assert(firsts.len() == n);
            let mut i: usize = 0;
            while i < n
                invariant
                    n == firsts.len(),
                    n <= items@.len(),
                    forall|k: int| 0 <= k < n ==> firsts[k] == items@[k],
                    i <= n,
                    pool_wf(self@),
                    self@ == offer_each(start, firsts.take(i as int), director_maker()),
                decreases n - i,
            {
                assert(firsts.take(i + 1).drop_last() =~= firsts.take(i as int));
                assert(firsts.take(i + 1).last() == items@[i as int]);
                let c = movie_candidate_of(&items[i], "From a director you love");
                self.offer_one(c);
                i = i + 1;
            }
            assert(firsts.take(n as int) =~= firsts);
        }
    }

    /// The candidates taken, in the order they were taken.
    pub fn into_candidates(self) -> (r: Vec<Candidate>)
        ensures
            r@.map_values(|c: Candidate| c@) == self@.candidates,
    {
        self.candidates
    }
}

/// Law: offering only ever appends; what was taken stays, in its place.
pub proof fn lemma_offer_each_extends(p: PoolView, items: Seq<Json>, make: spec_fn(Json) -> Option<CandidateView>)
    ensures
        p.candidates.is_prefix_of(offer_each(p, items, make).candidates),
        offer_each(p, items, make).watched == p.watched,
        offer_each(p, items, make).favorites_added == p.favorites_added,
    decreases items.len(),
{
    if items.len() > 0 {
        lemma_offer_each_extends(p, items.drop_last(), make);
    }
}

/// Law: a candidate read from an item that may be a film or a show takes its
/// id from the item's `id` (0 when absent), its title from `title` or else
/// `name` (empty when neither), its poster from `poster_path`, its release
/// date from `release_date` or else `first_air_date`, its overview and vote
/// average from the members of those names; the media type and the reason
/// are the ones given.
pub proof fn lemma_wide_candidate_fields(item: Json, media: Seq<char>, reason: Seq<char>)
    ensures
        wide_candidate(item, media, reason).tmdb_id == match item.at("id"@).integer() {
            Some(n) => n,
            None => 0,
        },
        wide_candidate(item, media, reason).media_type == media,
        wide_candidate(item, media, reason).title == match item.at("title"@).text() {
            Some(t) => t,
            None => match item.at("name"@).text() {
                Some(t) => t,
                None => Seq::<char>::empty(),
            },
        },
        wide_candidate(item, media, reason).poster == item.at("poster_path"@).text(),
        wide_candidate(item, media, reason).release_date == match item.at("release_date"@).text() {
            Some(d) => Some(d),
            None => item.at("first_air_date"@).text(),
        },
        wide_candidate(item, media, reason).overview == item.at("overview"@).text(),
        wide_candidate(item, media, reason).vote_average == item.at("vote_average"@).number(),
        wide_candidate(item, media, reason).match_reason == reason,
{
}

/// Law: a candidate read from a film item is a `"movie"`; it takes its id
/// from the item's `id` (0 when absent), its title from `title` (empty when
/// absent), and its poster, release date, overview and vote average from
/// `poster_path`, `release_date`, `overview` and `vote_average`; the reason
/// is the one given.
pub proof fn lemma_movie_candidate_fields(item: Json, reason: Seq<char>)
    ensures
        movie_candidate(item, reason).tmdb_id == match item.at("id"@).integer() {
            Some(n) => n,
            None => 0,
        },
        movie_candidate(item, reason).media_type == "movie"@,
        movie_candidate(item, reason).title == match item.at("title"@).text() {
            Some(t) => t,
            None => Seq::<char>::empty(),
        },
        movie_candidate(item, reason).poster == item.at("poster_path"@).text(),
        movie_candidate(item, reason).release_date == item.at("release_date"@).text(),
        movie_candidate(item, reason).overview == item.at("overview"@).text(),
        movie_candidate(item, reason).vote_average == item.at("vote_average"@).number(),
        movie_candidate(item, reason).match_reason == reason,
{
}

/// Law: an offered candidate is taken, at the end, exactly when neither a
/// watched title nor a candidate already taken has its id and media type;
/// otherwise the pool is left as it was.
pub proof fn lemma_offer_takes_new(p: PoolView, c: CandidateView)
    ensures
        !p.watched.contains((c.tmdb_id, c.media_type)) && !keys_of(p.candidates).contains((c.tmdb_id, c.media_type))
            ==> offer(p, c) == (PoolView { candidates: p.candidates.push(c), ..p }),
        p.watched.contains((c.tmdb_id, c.media_type)) || keys_of(p.candidates).contains((c.tmdb_id, c.media_type))
            ==> offer(p, c) == p,
{
}

/// A key that a pool knows stays known once another candidate is offered.
proof fn lemma_offer_keeps_known(p: PoolView, c: CandidateView, k: (i64, Seq<char>))
    requires
        known(p, k),
    ensures
        known(offer(p, c), k),
{
    if !known(p, key_of(c)) {
        let q = offer(p, c);
        assert(keys_of(q.candidates) =~= keys_of(p.candidates).push(key_of(c)));
        if keys_of(p.candidates).contains(k) {
            let j = choose|j: int| 0 <= j < keys_of(p.candidates).len() && keys_of(p.candidates)[j] == k;
            assert(keys_of(q.candidates)[j] == k);
        }
    }
}

/// Law: offering items forgets no key; each candidate it adds is what `make`
/// gives for one of the items, with a key the pool did not know before; and
/// afterwards the key of every item that gives a candidate is known.
pub proof fn lemma_offer_each_sources(p: PoolView, items: Seq<Json>, make: spec_fn(Json) -> Option<CandidateView>)
    ensures
        forall|k: (i64, Seq<char>)| known(p, k) ==> #[trigger] known(offer_each(p, items, make), k),
        forall|j: int| p.candidates.len() <= j < offer_each(p, items, make).candidates.len() ==>
            !known(p, key_of(#[trigger] offer_each(p, items, make).candidates[j])),
        forall|j: int| p.candidates.len() <= j < offer_each(p, items, make).candidates.len() ==>
            exists|i: int| 0 <= i < items.len() && make(items[i]) == Some(#[trigger] offer_each(p, items, make).candidates[j]),
        forall|i: int| 0 <= i < items.len() && (#[trigger] make(items[i])) is Some ==>
            known(offer_each(p, items, make), key_of(make(items[i])->0)),
    decreases items.len(),
{
    if items.len() > 0 {
        let front = items.drop_last();
        lemma_offer_each_sources(p, front, make);
        lemma_offer_each_extends(p, front, make);
        let r = offer_each(p, front, make);
        let q = offer_each(p, items, make);
        let last = items[items.len() - 1];
        assert(items.last() == last);
        match make(last) {
            Some(c) => {
                assert(q == offer(r, c));
                assert forall|k: (i64, Seq<char>)| known(p, k) implies #[trigger] known(q, k) by {
                    assert(known(r, k));
                    lemma_offer_keeps_known(r, c, k);
                }
                assert forall|j: int| p.candidates.len() <= j < q.candidates.len() implies
                    !known(p, key_of(#[trigger] q.candidates[j]))
                    && exists|i: int| 0 <= i < items.len() && make(items[i]) == Some(q.candidates[j]) by {
                    if j < r.candidates.len() {
                        assert(q.candidates[j] == r.candidates[j]);
                        assert(!known(p, key_of(r.candidates[j])));
                        let i = choose|i: int| 0 <= i < front.len() && make(front[i]) == Some(r.candidates[j]);
                        assert(items[i] == front[i]);
                    } else {
                        assert(q.candidates[j] == c);
                        assert(!known(r, key_of(c)));
                        assert(make(items[items.len() - 1]) == Some(q.candidates[j]));
                    }
                }
                assert forall|i: int| 0 <= i < items.len() && (#[trigger] make(items[i])) is Some implies
                    known(q, key_of(make(items[i])->0)) by {
                    if i < front.len() {
                        assert(front[i] == items[i]);
                        assert(make(front[i]) is Some);
                        lemma_offer_keeps_known(r, c, key_of(make(items[i])->0));
                    } else if !known(r, key_of(c)) {
                        assert(keys_of(q.candidates) =~= keys_of(r.candidates).push(key_of(c)));
                        assert(keys_of(q.candidates)[r.candidates.len() as int] == key_of(c));
                    }
                }
            },
            None => {
                assert(q == r);
                assert forall|k: (i64, Seq<char>)| known(p, k) implies #[trigger] known(q, k) by {
                    assert(known(r, k));
                }
                assert forall|j: int| p.candidates.len() <= j < q.candidates.len() implies
                    !known(p, key_of(#[trigger] q.candidates[j]))
                    && exists|i: int| 0 <= i < items.len() && make(items[i]) == Some(q.candidates[j]) by {
                    assert(!known(p, key_of(r.candidates[j])));
                    let i = choose|i: int| 0 <= i < front.len() && make(front[i]) == Some(r.candidates[j]);
                    assert(items[i] == front[i]);
                }
                assert forall|i: int| 0 <= i < items.len() && (#[trigger] make(items[i])) is Some implies
                    known(q, key_of(make(items[i])->0)) by {
                    assert(i < front.len());
                    assert(front[i] == items[i]);
                    assert(make(front[i]) is Some);
                }
            },
        }
    }
}

/// Law: the favorites strategy forgets no key and never lowers its count;
/// each candidate it adds is the film read from one of the items, with a key
/// the pool did not know before; and afterwards the key of every item is
/// known, unless the quota has been reached.
pub proof fn lemma_offer_favorites_sources(p: PoolView, items: Seq<Json>)
    ensures
        forall|k: (i64, Seq<char>)| known(p, k) ==> #[trigger] known(offer_favorites(p, items), k),
        offer_favorites(p, items).favorites_added >= p.favorites_added,
        forall|j: int| p.candidates.len() <= j < offer_favorites(p, items).candidates.len() ==>
            !known(p, key_of(#[trigger] offer_favorites(p, items).candidates[j])),
        forall|j: int| p.candidates.len() <= j < offer_favorites(p, items).candidates.len() ==>
            exists|i: int| 0 <= i < items.len()
                && #[trigger] offer_favorites(p, items).candidates[j] == movie_candidate(items[i], reason_favorites()),
        forall|i: int| 0 <= i < items.len() ==>
            known(offer_favorites(p, items), key_of(movie_candidate(#[trigger] items[i], reason_favorites())))
            || offer_favorites(p, items).favorites_added >= FAVORITES_QUOTA,
    decreases items.len(),
{
    if items.len() > 0 {
        let front = items.drop_last();
        lemma_offer_favorites_sources(p, front);
        lemma_favorites_prefix(p, front);
        let r = offer_favorites(p, front);
        let q = offer_favorites(p, items);
        let c = movie_candidate(items[items.len() - 1], reason_favorites());
        assert(items.last() == items[items.len() - 1]);
        assert(q == offer_favorite(r, c));
        if r.favorites_added >= FAVORITES_QUOTA || known(r, key_of(c)) {
            assert(q == r);
            assert forall|k: (i64, Seq<char>)| known(p, k) implies #[trigger] known(q, k) by {
                assert(known(r, k));
            }
            assert forall|j: int| p.candidates.len() <= j < q.candidates.len() implies
                !known(p, key_of(#[trigger] q.candidates[j]))
                && exists|i: int| 0 <= i < items.len() && q.candidates[j] == movie_candidate(items[i], reason_favorites()) by {
                assert(!known(p, key_of(r.candidates[j])));
                let i = choose|i: int| 0 <= i < front.len() && r.candidates[j] == movie_candidate(front[i], reason_favorites());
                assert(items[i] == front[i]);
            }
            assert forall|i: int| 0 <= i < items.len() implies
                known(q, key_of(movie_candidate(#[trigger] items[i], reason_favorites())))
                || q.favorites_added >= FAVORITES_QUOTA by {
                if i < front.len() {
                    assert(front[i] == items[i]);
                }
            }
        } else {
            assert(q.candidates == offer(r, c).candidates);
            assert(q.watched == offer(r, c).watched);
            assert forall|k: (i64, Seq<char>)| known(p, k) implies #[trigger] known(q, k) by {
                assert(known(r, k));
                lemma_offer_keeps_known(r, c, k);
            }
            assert forall|j: int| p.candidates.len() <= j < q.candidates.len() implies
                !known(p, key_of(#[trigger] q.candidates[j]))
                && exists|i: int| 0 <= i < items.len() && q.candidates[j] == movie_candidate(items[i], reason_favorites()) by {
                if j < r.candidates.len() {
                    assert(q.candidates[j] == r.candidates[j]);
                    assert(!known(p, key_of(r.candidates[j])));
                    let i = choose|i: int| 0 <= i < front.len() && r.candidates[j] == movie_candidate(front[i], reason_favorites());
                    assert(items[i] == front[i]);
                } else {
                    assert(q.candidates[j] == c);
                }
            }
            assert forall|i: int| 0 <= i < items.len() implies
                known(q, key_of(movie_candidate(#[trigger] items[i], reason_favorites())))
                || q.favorites_added >= FAVORITES_QUOTA by {
                if i < front.len() {
                    assert(front[i] == items[i]);
                    if known(r, key_of(movie_candidate(items[i], reason_favorites()))) {
                        lemma_offer_keeps_known(r, c, key_of(movie_candidate(items[i], reason_favorites())));
                    }
                } else {
                    assert(keys_of(q.candidates) =~= keys_of(r.candidates).push(key_of(c)));
                    assert(keys_of(q.candidates)[r.candidates.len() as int] == key_of(c));
                }
            }
        }
    }
}

/// Law: what was taken before a favorites answer stays, in its place, and
/// the watched titles are unchanged, whatever the count.
pub proof fn lemma_favorites_prefix(p: PoolView, items: Seq<Json>)
    ensures
        p.candidates.is_prefix_of(offer_favorites(p, items).candidates),
        offer_favorites(p, items).watched == p.watched,
    decreases items.len(),
{
    if items.len() > 0 {
        lemma_favorites_prefix(p, items.drop_last());
    }
}

/// Law: the favorites strategy appends exactly the candidates it counts, and
/// never counts past the quota, however many items it is offered.
pub proof fn lemma_favorites_bounded(p: PoolView, items: Seq<Json>)
    requires
        p.favorites_added <= FAVORITES_QUOTA,
    ensures
        p.candidates.is_prefix_of(offer_favorites(p, items).candidates),
        offer_favorites(p, items).candidates.len() - p.candidates.len()
            == offer_favorites(p, items).favorites_added - p.favorites_added,
        offer_favorites(p, items).favorites_added <= FAVORITES_QUOTA,
        offer_favorites(p, items).watched == p.watched,
    decreases items.len(),
{
    if items.len() > 0 {
        lemma_favorites_bounded(p, items.drop_last());
    }
}

/// Law: once the favorites quota is reached, favorites answers change nothing.
pub proof fn lemma_favorites_full_is_inert(p: PoolView, items: Seq<Json>)
    requires
        p.favorites_added >= FAVORITES_QUOTA,
    ensures
        offer_favorites(p, items) == p,
    decreases items.len(),
{
    if items.len() > 0 {
        lemma_favorites_full_is_inert(p, items.drop_last());
    }
}

/// Law: no candidate of a well-formed pool is a watched title, and no two
/// candidates share a key.
pub proof fn lemma_pool_excludes_watched(p: PoolView, i: int, j: int)
    requires
        pool_wf(p),
        0 <= i < p.candidates.len(),
        0 <= j < p.candidates.len(),
        i != j,
    ensures
        !p.watched.contains(key_of(p.candidates[i])),
        key_of(p.candidates[i]) != key_of(p.candidates[j]),
{
    assert(keys_of(p.candidates)[i] == key_of(p.candidates[i]));
    assert(keys_of(p.candidates)[j] == key_of(p.candidates[j]));
}

/// Whether a match reason earns the director bonus and the favorites bonus in
/// the final scoring: it does when it names a director, resp. the favorites.
pub fn reason_bonuses(reason: &str) -> (r: (bool, bool))
    ensures
        r.0 == occurs_in(reason@, "director"@),
        r.1 == occurs_in(reason@, "favorites"@),
{
    (text_contains(reason, "director"), text_contains(reason, "favorites"))
}

/// The position of the first cached embedding that belongs to `id`.
pub fn find_cached(ids: &Vec<i64>, id: i64) -> (r: Option<usize>)
    ensures
        r matches Some(k) ==> k < ids@.len() && ids@[k as int] == id && forall|j: int| 0 <= j < k ==> ids@[j] != id,
        r is None ==> !ids@.contains(id),
{
    let n = ids.len();
    let mut i: usize = 0;
    while i < n
        invariant
            n == ids@.len(),
            i <= n,
            forall|j: int| 0 <= j < i ==> ids@[j] != id,
        decreases n - i,
    {
        if ids[i] == id {
            return Some(i);
        }
        i = i + 1;
    }
    None
}

} // verus!
