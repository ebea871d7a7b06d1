//! The course of a recommendation request, as a state machine.
//!
//! The caller asks the plan what to fetch next, fetches it from TMDB, and
//! hands the answer back (nothing when the fetch failed). The plan goes
//! through four phases: the recommendations for the title the user is
//! looking at, those for the user's best-rated films until the favorites
//! quota is full, a text search when the user typed one, and the films of
//! the directors the user rates highly.
use vstd::prelude::*;
use crate::json::Json;
use crate::recommend::{
    answer_items, director_maker, first_n, keys_of, known, lemma_offer_each_extends, lemma_offer_each_sources,
    lemma_offer_favorites_sources, lemma_favorites_prefix, movie_candidate, offer_each, offer_favorites, pool_wf, reference_maker,
    search_maker, wide_candidate, Candidate, CandidatePool, CandidateView, PoolView, FAVORITES_QUOTA, PERSON_ITEMS,
    SEARCH_ITEMS,
};
use crate::text::text_eq;

verus! {

/// Where a plan stands.
#[derive(PartialEq, Eq, Structural, Clone, Copy, Debug)]
pub enum Phase {
    Reference,
    Favorites(usize),
    Search,
    Directors(usize),
    Done,
}

/// What to fetch from TMDB next.
#[derive(Debug)]
pub enum Fetch {
    MovieRecommendations(i64),
    TvRecommendations(i64),
    SearchMulti(String),
    DirectorFilms(i64),
}

/// The value of a fetch.
pub enum FetchView {
    MovieRecommendations(i64),
    TvRecommendations(i64),
    SearchMulti(Seq<char>),
    DirectorFilms(i64),
}

impl View for Fetch {
    type V = FetchView;

    open spec fn view(&self) -> FetchView {
        match self {
            Fetch::MovieRecommendations(id) => FetchView::MovieRecommendations(*id),
            Fetch::TvRecommendations(id) => FetchView::TvRecommendations(*id),
            Fetch::SearchMulti(t) => FetchView::SearchMulti(t@),
            Fetch::DirectorFilms(id) => FetchView::DirectorFilms(*id),
        }
    }
}

/// The value of a plan.
pub struct PlanView {
    pub pool: PoolView,
    /// The title the user is looking at, with its media type.
    pub reference: Option<(i64, Seq<char>)>,
    /// The user's best-rated films, best first.
    pub favorites: Seq<i64>,
    pub prompt: Option<Seq<char>>,
    /// The directors whose films the user rates highly.
    pub directors: Seq<i64>,
    pub phase: Phase,
}

/// Whether a phase has something to fetch.
pub open spec fn active(p: PlanView, ph: Phase) -> bool {
    match ph {
        Phase::Reference => p.reference is Some,
        Phase::Favorites(i) => i < p.favorites.len() && p.pool.favorites_added < FAVORITES_QUOTA,
        Phase::Search => match p.prompt {
            Some(t) => t.len() > 0,
            None => false,
        },
        Phase::Directors(i) => i < p.directors.len(),
        Phase::Done => true,
    }
}

/// The phase after one with nothing (more) to fetch.
pub open spec fn skip(ph: Phase) -> Phase {
    match ph {
        Phase::Reference => Phase::Favorites(0),
        Phase::Favorites(_) => Phase::Search,
        Phase::Search => Phase::Directors(0),
        Phase::Directors(_) => Phase::Done,
        Phase::Done => Phase::Done,
    }
}

/// The phase after a fetch has been answered.
pub open spec fn advance(ph: Phase) -> Phase {
    match ph {
        Phase::Reference => Phase::Favorites(0),
        Phase::Favorites(i) => Phase::Favorites((i + 1) as usize),
        Phase::Search => Phase::Directors(0),
        Phase::Directors(i) => Phase::Directors((i + 1) as usize),
        Phase::Done => Phase::Done,
    }
}

pub open spec fn rank(ph: Phase) -> nat {
    match ph {
        Phase::Reference => 4,
        Phase::Favorites(_) => 3,
        Phase::Search => 2,
        Phase::Directors(_) => 1,
        Phase::Done => 0,
    }
}

/// The first phase from `ph` on that has something to fetch.
pub open spec fn settle(p: PlanView, ph: Phase) -> Phase
    decreases rank(ph),
{
    if active(p, ph) || ph == Phase::Done {
        ph
    } else {
        settle(p, skip(ph))
    }
}

/// The media type of the reference title (`"movie"` when none is given).
pub open spec fn reference_media(media: Option<Seq<char>>) -> Seq<char> {
    match media {
        Some(m) => m,
        None => "movie"@,
    }
}

/// Law: the reference title is taken as a film unless its media type is given.
pub proof fn lemma_reference_media(media: Option<Seq<char>>)
    ensures
        media is None ==> reference_media(media) == "movie"@,
        media matches Some(m) ==> reference_media(media) == m,
{
}

/// What a plan fetches in its phase.
pub open spec fn fetch_of(p: PlanView) -> Option<FetchView> {
    match p.phase {
        Phase::Reference => match p.reference {
            Some(r) => Some(
                if r.1 == "tv"@ {
                    FetchView::TvRecommendations(r.0)
                } else {
                    FetchView::MovieRecommendations(r.0)
                },
            ),
            None => None,
        },
        Phase::Favorites(i) => Some(FetchView::MovieRecommendations(p.favorites[i as int])),
        Phase::Search => match p.prompt {
            Some(t) => Some(FetchView::SearchMulti(t)),
            None => None,
        },
        Phase::Directors(i) => Some(FetchView::DirectorFilms(p.directors[i as int])),
        Phase::Done => None,
    }
}

/// The pool once the answer to the phase's fetch is taken in.
pub open spec fn take_answer(p: PlanView, answer: Json) -> PoolView {
    match p.phase {
        Phase::Reference => match p.reference {
            Some(r) => offer_each(p.pool, answer_items(answer), reference_maker(r.1)),
            None => p.pool,
        },
        Phase::Favorites(_) => offer_favorites(p.pool, answer_items(answer)),
        Phase::Search => offer_each(p.pool, first_n(answer_items(answer), SEARCH_ITEMS as nat), search_maker()),
        Phase::Directors(_) => offer_each(p.pool, first_n(answer_items(answer), PERSON_ITEMS as nat), director_maker()),
        Phase::Done => p.pool,
    }
}

/// How many fetches a plan may still ask for, at most.
pub open spec fn steps_left(p: PlanView, ph: Phase) -> int {
    match ph {
        Phase::Reference => (2 + p.favorites.len() + p.directors.len()) as int,
        Phase::Favorites(i) => p.favorites.len() - i + 1 + p.directors.len(),
        Phase::Search => (1 + p.directors.len()) as int,
        Phase::Directors(i) => p.directors.len() - i,
        Phase::Done => 0,
    }
}

/// A plan is well formed: its pool is, and it stands at a phase with something to fetch.
pub open spec fn plan_wf(p: PlanView) -> bool {
    &&& pool_wf(p.pool)
    &&& settle(p, p.phase) == p.phase
    &&& match p.phase {
        Phase::Favorites(i) => i <= p.favorites.len(),
        Phase::Directors(i) => i <= p.directors.len(),
        _ => true,
    }
}

/// Two plans that differ at most in their phase.
pub open spec fn same_but_phase(p: PlanView, q: PlanView) -> bool {
    &&& p.pool == q.pool
    &&& p.reference == q.reference
    &&& p.favorites == q.favorites
    &&& p.prompt == q.prompt
    &&& p.directors == q.directors
}

/// Where a plan settles does not depend on the phase it stands at.
proof fn lemma_settle_phase_free(p: PlanView, q: PlanView, ph: Phase)
    requires
        same_but_phase(p, q),
    ensures
        settle(p, ph) == settle(q, ph),
    decreases rank(ph),
{
    if !(active(p, ph) || ph == Phase::Done) {
        lemma_settle_phase_free(p, q, skip(ph));
    }
}

/// Moving on to the next phase with something to fetch does not add steps.
proof fn lemma_settle_steps(p: PlanView, ph: Phase)
    requires
        match ph {
            Phase::Favorites(i) => i <= p.favorites.len(),
            Phase::Directors(i) => i <= p.directors.len(),
            _ => true,
        },
    ensures
        steps_left(p, settle(p, ph)) <= steps_left(p, ph),
        settle(p, settle(p, ph)) == settle(p, ph),
        match settle(p, ph) {
            Phase::Favorites(i) => i <= p.favorites.len(),
            Phase::Directors(i) => i <= p.directors.len(),
            _ => true,
        },
        settle(p, ph) != Phase::Done ==> active(p, settle(p, ph)),
        rank(settle(p, ph)) <= rank(ph),
        !(active(p, ph) || ph == Phase::Done) ==> rank(settle(p, ph)) < rank(ph),
    decreases rank(ph),
{
    if !(active(p, ph) || ph == Phase::Done) {
        lemma_settle_steps(p, skip(ph));
    }
}

/// Law: the phases come in a fixed order. Once the fetch of a phase is
/// answered, the plan moves on to the next favorite film or director of the
/// same phase, or from the reference title to the first favorite film and
/// from the search to the first director; a phase with nothing to fetch is
/// left for the first item of the next one.
pub proof fn lemma_phase_order(i: usize)
    ensures
        advance(Phase::Reference) == Phase::Favorites(0),
        i < usize::MAX ==> advance(Phase::Favorites(i)) == Phase::Favorites((i + 1) as usize),
        advance(Phase::Search) == Phase::Directors(0),
        i < usize::MAX ==> advance(Phase::Directors(i)) == Phase::Directors((i + 1) as usize),
        advance(Phase::Done) == Phase::Done,
        skip(Phase::Reference) == Phase::Favorites(0),
        skip(Phase::Favorites(i)) == Phase::Search,
        skip(Phase::Search) == Phase::Directors(0),
        skip(Phase::Directors(i)) == Phase::Done,
        skip(Phase::Done) == Phase::Done,
{
}

/// Law: a well-formed plan only ever stands at a phase with work to do: the
/// reference phase has a reference title, a favorites phase has a favorite
/// film left and a favorites quota not yet full, the search phase has a
/// non-empty text, and a directors phase has a director left.
pub proof fn lemma_plan_phase_has_work(p: PlanView)
    requires
        plan_wf(p),
    ensures
        p.phase == Phase::Reference ==> p.reference is Some,
        p.phase matches Phase::Favorites(i) ==> i < p.favorites.len() && p.pool.favorites_added < 20,
        p.phase == Phase::Search ==> (p.prompt matches Some(t) && t.len() > 0),
        p.phase matches Phase::Directors(i) ==> i < p.directors.len(),
{
    lemma_settle_steps(p, p.phase);
}

/// Law: what a plan fetches names the title, film or director of its phase:
/// for the reference title, the recommendations for a show when its media
/// type is `"tv"` and for a film otherwise; for the i-th favorite film, that
/// film's recommendations; in the search phase, a search for the typed text;
/// for the i-th director, that director's films; nothing once done.
pub proof fn lemma_fetch_names_subject(p: PlanView)
    requires
        plan_wf(p),
    ensures
        p.phase == Phase::Reference ==> fetch_of(p) == Some(
            if (p.reference->0).1 == "tv"@ {
                FetchView::TvRecommendations((p.reference->0).0)
            } else {
                FetchView::MovieRecommendations((p.reference->0).0)
            },
        ),
        p.phase matches Phase::Favorites(i) ==> fetch_of(p) == Some(FetchView::MovieRecommendations(p.favorites[i as int])),
        p.phase == Phase::Search ==> fetch_of(p) == Some(FetchView::SearchMulti(p.prompt->0)),
        p.phase matches Phase::Directors(i) ==> fetch_of(p) == Some(FetchView::DirectorFilms(p.directors[i as int])),
        p.phase == Phase::Done ==> fetch_of(p) is None,
{
    lemma_plan_phase_has_work(p);
}

/// Law: a new plan stands at the first phase that has work to do: the
/// reference title when one is given, else the first favorite film while the
/// quota allows, else the search when the text is not empty, else the first
/// director, else it is done.
pub proof fn lemma_first_phase(p: PlanView)
    requires
        p.pool.favorites_added < 20,
    ensures
        settle(p, Phase::Reference) == if p.reference is Some {
            Phase::Reference
        } else if p.favorites.len() > 0 {
            Phase::Favorites(0)
        } else if (p.prompt matches Some(t) && t.len() > 0) {
            Phase::Search
        } else if p.directors.len() > 0 {
            Phase::Directors(0)
        } else {
            Phase::Done
        },
{
    reveal_with_fuel(settle, 5);
}

/// Law: in the reference phase, what was taken stays, in its place; every
/// candidate taken from the answer is read from one of its items, carries
/// the reference title's media type and the reason "Similar to what you're
/// watching", and its key (id, that media type) was neither watched nor
/// taken before; afterwards the key (id, that media type) of every item of
/// the answer is watched or taken.
pub proof fn lemma_reference_answer(p: PlanView, answer: Json, id: i64, media: Seq<char>)
    requires
        p.phase == Phase::Reference,
        p.reference == Some((id, media)),
    ensures
        p.pool.candidates.is_prefix_of(take_answer(p, answer).candidates),
        take_answer(p, answer).watched == p.pool.watched,
        forall|j: int| p.pool.candidates.len() <= j < take_answer(p, answer).candidates.len() ==> {
            &&& (#[trigger] take_answer(p, answer).candidates[j]).media_type == media
            &&& take_answer(p, answer).candidates[j].match_reason == "Similar to what you're watching"@
            &&& !p.pool.watched.contains((take_answer(p, answer).candidates[j].tmdb_id, media))
            &&& !keys_of(p.pool.candidates).contains((take_answer(p, answer).candidates[j].tmdb_id, media))
            &&& exists|i: int| 0 <= i < answer_items(answer).len()
                && take_answer(p, answer).candidates[j] == wide_candidate(answer_items(answer)[i], media, "Similar to what you're watching"@)
        },
        forall|i: int| 0 <= i < answer_items(answer).len() ==> {
            ||| take_answer(p, answer).watched.contains((match (#[trigger] answer_items(answer)[i]).at("id"@).integer() {
                Some(n) => n,
                None => 0,
            }, media))
            ||| keys_of(take_answer(p, answer).candidates).contains((match answer_items(answer)[i].at("id"@).integer() {
                Some(n) => n,
                None => 0,
            }, media))
        },
{
    let items = answer_items(answer);
    let make = reference_maker(media);
    let q = take_answer(p, answer);
    assert(q == offer_each(p.pool, items, make));
    lemma_offer_each_extends(p.pool, items, make);
    lemma_offer_each_sources(p.pool, items, make);
    assert forall|j: int| p.pool.candidates.len() <= j < q.candidates.len() implies {
        &&& (#[trigger] q.candidates[j]).media_type == media
        &&& q.candidates[j].match_reason == "Similar to what you're watching"@
        &&& !p.pool.watched.contains((q.candidates[j].tmdb_id, media))
        &&& !keys_of(p.pool.candidates).contains((q.candidates[j].tmdb_id, media))
        &&& exists|i: int| 0 <= i < items.len()
            && q.candidates[j] == wide_candidate(items[i], media, "Similar to what you're watching"@)
    } by {
        let i = choose|i: int| 0 <= i < items.len() && make(items[i]) == Some(q.candidates[j]);
        assert(q.candidates[j] == wide_candidate(items[i], media, "Similar to what you're watching"@));
        assert(!known(p.pool, crate::recommend::key_of(q.candidates[j])));
    }
    assert forall|i: int| 0 <= i < items.len() implies {
        ||| q.watched.contains((match (#[trigger] items[i]).at("id"@).integer() {
            Some(n) => n,
            None => 0,
        }, media))
        ||| keys_of(q.candidates).contains((match items[i].at("id"@).integer() {
            Some(n) => n,
            None => 0,
        }, media))
    } by {
        assert(make(items[i]) is Some);
        assert(known(q, crate::recommend::key_of(make(items[i])->0)));
    }
}

/// Law: in a favorites phase, what was taken stays, in its place; every
/// candidate taken from the answer is a film (`"movie"`) read from one of its
/// items, with the reason "Recommended based on your favorites", and its key
/// (id, `"movie"`) was neither watched nor taken before; afterwards the key
/// (id, `"movie"`) of every item is watched or taken, unless the favorites
/// quota has been reached.
pub proof fn lemma_favorites_answer(p: PlanView, answer: Json, i0: usize)
    requires
        p.phase == Phase::Favorites(i0),
    ensures
        p.pool.candidates.is_prefix_of(take_answer(p, answer).candidates),
        take_answer(p, answer).watched == p.pool.watched,
        forall|j: int| p.pool.candidates.len() <= j < take_answer(p, answer).candidates.len() ==> {
            &&& (#[trigger] take_answer(p, answer).candidates[j]).media_type == "movie"@
            &&& take_answer(p, answer).candidates[j].match_reason == "Recommended based on your favorites"@
            &&& !p.pool.watched.contains((take_answer(p, answer).candidates[j].tmdb_id, "movie"@))
            &&& !keys_of(p.pool.candidates).contains((take_answer(p, answer).candidates[j].tmdb_id, "movie"@))
            &&& exists|i: int| 0 <= i < answer_items(answer).len()
                && take_answer(p, answer).candidates[j] == movie_candidate(answer_items(answer)[i], "Recommended based on your favorites"@)
        },
        forall|i: int| 0 <= i < answer_items(answer).len() ==> {
            ||| take_answer(p, answer).watched.contains((match (#[trigger] answer_items(answer)[i]).at("id"@).integer() {
                Some(n) => n,
                None => 0,
            }, "movie"@))
            ||| keys_of(take_answer(p, answer).candidates).contains((match answer_items(answer)[i].at("id"@).integer() {
                Some(n) => n,
                None => 0,
            }, "movie"@))
            ||| take_answer(p, answer).favorites_added >= FAVORITES_QUOTA
        },
{
    let items = answer_items(answer);
    let q = take_answer(p, answer);
    assert(q == offer_favorites(p.pool, items));
    lemma_favorites_prefix(p.pool, items);
    lemma_offer_favorites_sources(p.pool, items);
    assert forall|j: int| p.pool.candidates.len() <= j < q.candidates.len() implies {
        &&& (#[trigger] q.candidates[j]).media_type == "movie"@
        &&& q.candidates[j].match_reason == "Recommended based on your favorites"@
        &&& !p.pool.watched.contains((q.candidates[j].tmdb_id, "movie"@))
        &&& !keys_of(p.pool.candidates).contains((q.candidates[j].tmdb_id, "movie"@))
        &&& exists|i: int| 0 <= i < items.len()
            && q.candidates[j] == movie_candidate(items[i], "Recommended based on your favorites"@)
    } by {
        let i = choose|i: int| 0 <= i < items.len() && q.candidates[j] == movie_candidate(items[i], crate::recommend::reason_favorites());
        assert(!known(p.pool, crate::recommend::key_of(q.candidates[j])));
    }
    assert forall|i: int| 0 <= i < items.len() implies {
        ||| q.watched.contains((match (#[trigger] items[i]).at("id"@).integer() {
            Some(n) => n,
            None => 0,
        }, "movie"@))
        ||| keys_of(q.candidates).contains((match items[i].at("id"@).integer() {
            Some(n) => n,
            None => 0,
        }, "movie"@))
        ||| q.favorites_added >= FAVORITES_QUOTA
    } by {
        assert(known(q, crate::recommend::key_of(movie_candidate(items[i], crate::recommend::reason_favorites())))
            || q.favorites_added >= FAVORITES_QUOTA);
    }
}

/// Law: in the search phase, what was taken stays, in its place; every
/// candidate taken from the answer is read from one of its first five items,
/// carries that item's `media_type` (`"movie"` when it names none), which is
/// `"movie"` or `"tv"`, and the reason "Matches your search", and its key was
/// neither watched nor taken before; afterwards the key of each of the first
/// five items that is a film or a show is watched or taken.
pub proof fn lemma_search_answer(p: PlanView, answer: Json)
    requires
        p.phase == Phase::Search,
    ensures
        p.pool.candidates.is_prefix_of(take_answer(p, answer).candidates),
        take_answer(p, answer).watched == p.pool.watched,
        forall|j: int| p.pool.candidates.len() <= j < take_answer(p, answer).candidates.len() ==> {
            &&& ((#[trigger] take_answer(p, answer).candidates[j]).media_type == "movie"@
                || take_answer(p, answer).candidates[j].media_type == "tv"@)
            &&& take_answer(p, answer).candidates[j].match_reason == "Matches your search"@
            &&& !p.pool.watched.contains(crate::recommend::key_of(take_answer(p, answer).candidates[j]))
            &&& !keys_of(p.pool.candidates).contains(crate::recommend::key_of(take_answer(p, answer).candidates[j]))
            &&& exists|i: int| 0 <= i < answer_items(answer).len() && i < 5
                && take_answer(p, answer).candidates[j] == wide_candidate(
                    answer_items(answer)[i],
                    match answer_items(answer)[i].at("media_type"@).text() {
                        Some(t) => t,
                        None => "movie"@,
                    },
                    "Matches your search"@,
                )
        },
        forall|i: int| 0 <= i < answer_items(answer).len() && i < 5 && ({
            let m = match (#[trigger] answer_items(answer)[i]).at("media_type"@).text() {
                Some(t) => t,
                None => "movie"@,
            };
            m == "movie"@ || m == "tv"@
        }) ==> known(take_answer(p, answer), (
            match answer_items(answer)[i].at("id"@).integer() {
                Some(n) => n,
                None => 0,
            },
            match answer_items(answer)[i].at("media_type"@).text() {
                Some(t) => t,
                None => "movie"@,
            },
        )),
{
    let all = answer_items(answer);
    let items = first_n(all, SEARCH_ITEMS as nat);
    let make = search_maker();
    let q = take_answer(p, answer);
    assert(q == offer_each(p.pool, items, make));
    assert(forall|i: int| 0 <= i < items.len() ==> items[i] == all[i] && i < 5);
    lemma_offer_each_extends(p.pool, items, make);
    lemma_offer_each_sources(p.pool, items, make);
    assert forall|j: int| p.pool.candidates.len() <= j < q.candidates.len() implies {
        &&& ((#[trigger] q.candidates[j]).media_type == "movie"@ || q.candidates[j].media_type == "tv"@)
        &&& q.candidates[j].match_reason == "Matches your search"@
        &&& !p.pool.watched.contains(crate::recommend::key_of(q.candidates[j]))
        &&& !keys_of(p.pool.candidates).contains(crate::recommend::key_of(q.candidates[j]))
        &&& exists|i: int| 0 <= i < all.len() && i < 5
            && q.candidates[j] == wide_candidate(
                all[i],
                match all[i].at("media_type"@).text() {
                    Some(t) => t,
                    None => "movie"@,
                },
                "Matches your search"@,
            )
    } by {
        let i = choose|i: int| 0 <= i < items.len() && make(items[i]) == Some(q.candidates[j]);
        assert(items[i] == all[i]);
    }
    assert forall|i: int| 0 <= i < all.len() && i < 5 && ({
        let m = match (#[trigger] all[i]).at("media_type"@).text() {
            Some(t) => t,
            None => "movie"@,
        };
        m == "movie"@ || m == "tv"@
    }) implies known(q, (
        match all[i].at("id"@).integer() {
            Some(n) => n,
            None => 0,
        },
        match all[i].at("media_type"@).text() {
            Some(t) => t,
            None => "movie"@,
        },
    )) by {
        assert(i < items.len());
        assert(items[i] == all[i]);
        assert(make(items[i]) is Some);
    }
}

/// Law: in a directors phase, what was taken stays, in its place; every
/// candidate taken from the answer is a film (`"movie"`) read from one of its
/// first three items, with the reason "From a director you love", and its
/// key (id, `"movie"`) was neither watched nor taken before; afterwards the
/// key (id, `"movie"`) of each of the first three items is watched or taken.
pub proof fn lemma_directors_answer(p: PlanView, answer: Json, i0: usize)
    requires
        p.phase == Phase::Directors(i0),
    ensures
        p.pool.candidates.is_prefix_of(take_answer(p, answer).candidates),
        take_answer(p, answer).watched == p.pool.watched,
        forall|j: int| p.pool.candidates.len() <= j < take_answer(p, answer).candidates.len() ==> {
            &&& (#[trigger] take_answer(p, answer).candidates[j]).media_type == "movie"@
            &&& take_answer(p, answer).candidates[j].match_reason == "From a director you love"@
            &&& !p.pool.watched.contains((take_answer(p, answer).candidates[j].tmdb_id, "movie"@))
            &&& !keys_of(p.pool.candidates).contains((take_answer(p, answer).candidates[j].tmdb_id, "movie"@))
            &&& exists|i: int| 0 <= i < answer_items(answer).len() && i < 3
                && take_answer(p, answer).candidates[j] == movie_candidate(answer_items(answer)[i], "From a director you love"@)
        },
        forall|i: int| 0 <= i < answer_items(answer).len() && i < 3 ==> {
            ||| take_answer(p, answer).watched.contains((match (#[trigger] answer_items(answer)[i]).at("id"@).integer() {
                Some(n) => n,
                None => 0,
            }, "movie"@))
            ||| keys_of(take_answer(p, answer).candidates).contains((match answer_items(answer)[i].at("id"@).integer() {
                Some(n) => n,
                None => 0,
            }, "movie"@))
        },
{
    let all = answer_items(answer);
    let items = first_n(all, PERSON_ITEMS as nat);
    let make = director_maker();
    let q = take_answer(p, answer);
    assert(q == offer_each(p.pool, items, make));
    assert(forall|i: int| 0 <= i < items.len() ==> items[i] == all[i] && i < 3);
    lemma_offer_each_extends(p.pool, items, make);
    lemma_offer_each_sources(p.pool, items, make);
    assert forall|j: int| p.pool.candidates.len() <= j < q.candidates.len() implies {
        &&& (#[trigger] q.candidates[j]).media_type == "movie"@
        &&& q.candidates[j].match_reason == "From a director you love"@
        &&& !p.pool.watched.contains((q.candidates[j].tmdb_id, "movie"@))
        &&& !keys_of(p.pool.candidates).contains((q.candidates[j].tmdb_id, "movie"@))
        &&& exists|i: int| 0 <= i < all.len() && i < 3
            && q.candidates[j] == movie_candidate(all[i], "From a director you love"@)
    } by {
        let i = choose|i: int| 0 <= i < items.len() && make(items[i]) == Some(q.candidates[j]);
        assert(items[i] == all[i]);
        assert(!known(p.pool, crate::recommend::key_of(q.candidates[j])));
    }
    assert forall|i: int| 0 <= i < all.len() && i < 3 implies {
        ||| q.watched.contains((match (#[trigger] all[i]).at("id"@).integer() {
            Some(n) => n,
            None => 0,
        }, "movie"@))
        ||| keys_of(q.candidates).contains((match all[i].at("id"@).integer() {
            Some(n) => n,
            None => 0,
        }, "movie"@))
    } by {
        assert(i < items.len());
        assert(items[i] == all[i]);
        assert(make(items[i]) is Some);
        assert(known(q, crate::recommend::key_of(make(items[i])->0)));
    }
}

/// The plan of one recommendation request.
pub struct RecommendationPlan {
    pool: CandidatePool,
    reference: Option<(i64, String)>,
    favorites: Vec<i64>,
    prompt: Option<String>,
    directors: Vec<i64>,
    phase: Phase,
}

impl View for RecommendationPlan {
    type V = PlanView;

    closed spec fn view(&self) -> PlanView {
        PlanView {
            pool: self.pool@,
            reference: match self.reference {
                Some(r) => Some((r.0, r.1@)),
                None => None,
            },
            favorites: self.favorites@,
            prompt: crate::json::opt_text(self.prompt),
            directors: self.directors@,
            phase: self.phase,
        }
    }
}

impl RecommendationPlan {
    /// Moves to the first phase from the current one that has something to fetch.
    fn settle_phase(&mut self)
        requires
            match old(self)@.phase {
                Phase::Favorites(i) => i <= old(self)@.favorites.len(),
                Phase::Directors(i) => i <= old(self)@.directors.len(),
                _ => true,
            },
        ensures
            same_but_phase(final(self)@, old(self)@),
            final(self)@.phase == settle(old(self)@, old(self)@.phase),
    {
        loop
            invariant_except_break
                self@.pool == old(self)@.pool,
                self@.reference == old(self)@.reference,
                self@.favorites == old(self)@.favorites,
                self@.prompt == old(self)@.prompt,
                self@.directors == old(self)@.directors,
                settle(self@, self@.phase) == settle(old(self)@, old(self)@.phase),
                match self@.phase {
                    Phase::Favorites(i) => i <= self@.favorites.len(),
                    Phase::Directors(i) => i <= self@.directors.len(),
                    _ => true,
                },
            ensures
                same_but_phase(self@, old(self)@),
                self@.phase == settle(old(self)@, old(self)@.phase),
            decreases rank(self@.phase),
        {
            let is_active = match self.phase {
                Phase::Reference => self.reference.is_some(),
                Phase::Favorites(i) => i < self.favorites.len() && !self.pool.favorites_full(),
                Phase::Search => match &self.prompt {
                    Some(t) => t.as_str().unicode_len() > 0,
                    None => false,
                },
                Phase::Directors(i) => i < self.directors.len(),
                Phase::Done => true,
            };
            if is_active {
                assert(settle(self@, self@.phase) == self@.phase);
                break;
            }
            let ghost before = self@;
            self.phase = match self.phase {
                Phase::Reference => Phase::Favorites(0),
                Phase::Favorites(_) => Phase::Search,
                Phase::Search => Phase::Directors(0),
                Phase::Directors(_) => Phase::Done,
                Phase::Done => Phase::Done,
            };
            proof {
                assert(settle(before, before.phase) == settle(before, skip(before.phase)));
                lemma_settle_phase_free(before, self@, skip(before.phase));
                lemma_settle_phase_free(before, self@, self@.phase);
            }
        }
    }

    /// A plan for a request: the watched titles, the title the user is
    /// looking at (with its media type, `"movie"` when not given), the
    /// user's best-rated films, the typed text, and the favorite directors.
    pub fn new(
        watched: Vec<(i64, String)>,
        reference_tmdb_id: Option<i64>,
        reference_media_type: Option<String>,
        favorites: Vec<i64>,
        prompt: Option<String>,
        directors: Vec<i64>,
    ) -> (r: RecommendationPlan)
        ensures
            r@.pool.watched == watched@.map_values(|k: (i64, String)| (k.0, k.1@)),
            r@.pool.candidates == Seq::<CandidateView>::empty(),
            r@.pool.favorites_added == 0,
            r@.reference == match reference_tmdb_id {
                Some(id) => Some((id, reference_media(crate::json::opt_text(reference_media_type)))),
                None => None,
            },
            r@.favorites == favorites@,
            r@.prompt == crate::json::opt_text(prompt),
            r@.directors == directors@,
            r@.phase == settle(r@, Phase::Reference),
            plan_wf(r@),
    {
        let reference = match reference_tmdb_id {
            Some(id) => Some(
                (
                    id,
                    match reference_media_type {
                        Some(m) => m,
                        None => String::from_str("movie"),
                    },
                ),
            ),
            None => None,
        };
        let mut plan = RecommendationPlan {
            pool: CandidatePool::new(watched),
            reference,
            favorites,
            prompt,
            directors,
            phase: Phase::Reference,
        };
        let ghost before = plan@;
        plan.settle_phase();
        proof {
            lemma_settle_steps(before, Phase::Reference);
            lemma_settle_phase_free(before, plan@, Phase::Reference);
            lemma_settle_phase_free(before, plan@, plan@.phase);
            assert(plan@.pool.candidates =~= Seq::<CandidateView>::empty());
        }
        plan
    }

    /// What to fetch next; nothing once the plan is done.
    pub fn next_fetch(&self) -> (r: Option<Fetch>)
        requires
            plan_wf(self@),
        ensures
            match r {
                Some(f) => fetch_of(self@) == Some(f@),
                None => fetch_of(self@) is None,
            },
            r is None <==> self@.phase == Phase::Done,
    {
        proof {
            lemma_settle_steps(self@, self@.phase);
        }
        match self.phase {
            Phase::Reference => match &self.reference {
                Some(r) => {
                    if text_eq(r.1.as_str(), "tv") {
                        Some(Fetch::TvRecommendations(r.0))
                    } else {
                        Some(Fetch::MovieRecommendations(r.0))
                    }
                },
                None => None,
            },
            Phase::Favorites(i) => Some(Fetch::MovieRecommendations(self.favorites[i])),
            Phase::Search => match &self.prompt {
                Some(t) => Some(Fetch::SearchMulti(t.clone())),
                None => None,
            },
            Phase::Directors(i) => Some(Fetch::DirectorFilms(self.directors[i])),
            Phase::Done => None,
        }
    }

    /// Takes in the answer to the fetch of the current phase (nothing when
    /// the fetch failed) and moves on.
    pub fn deliver(&mut self, answer: Option<&Json>)
        requires
            plan_wf(old(self)@),
            old(self)@.phase != Phase::Done,
        ensures
            plan_wf(final(self)@),
            final(self)@.pool == match answer {
                Some(a) => take_answer(old(self)@, *a),
                None => old(self)@.pool,
            },
            final(self)@.reference == old(self)@.reference,
            final(self)@.favorites == old(self)@.favorites,
            final(self)@.prompt == old(self)@.prompt,
            final(self)@.directors == old(self)@.directors,
            final(self)@.phase == settle(final(self)@, advance(old(self)@.phase)),
            steps_left(final(self)@, final(self)@.phase) < steps_left(old(self)@, old(self)@.phase),
    {
        proof {
            lemma_settle_steps(old(self)@, old(self)@.phase);
            assert(active(old(self)@, old(self)@.phase));
        }
        let ghost start = self@;
        match answer {
            Some(a) => match self.phase {
                Phase::Reference => match &self.reference {
                    Some(r) => {
                        let media = r.1.clone();
                        self.pool.add_reference_items(a, media.as_str());
                    },
                    None => {},
                },
                Phase::Favorites(_) => {
                    self.pool.add_favorite_items(a);
                },
                Phase::Search => {
                    self.pool.add_search_items(a);
                },
                Phase::Directors(_) => {
                    self.pool.add_director_items(a);
                },
                Phase::Done => {},
            },
            None => {},
        }
        assert(self@.favorites == start.favorites && self@.directors == start.directors && self@.phase == start.phase);
        let favorites_len = self.favorites.len();
        let directors_len = self.directors.len();
        self.phase = match self.phase {
            Phase::Reference => Phase::Favorites(0),
            Phase::Favorites(i) => {
                assert(i < favorites_len);
                Phase::Favorites(i + 1)
            },
            Phase::Search => Phase::Directors(0),
            Phase::Directors(i) => {
                assert(i < directors_len);
                Phase::Directors(i + 1)
            },
            Phase::Done => Phase::Done,
        };
        let ghost moved = self@;
        self.settle_phase();
        proof {
            lemma_settle_steps(moved, moved.phase);
            lemma_settle_phase_free(moved, self@, moved.phase);
            lemma_settle_phase_free(moved, self@, self@.phase);
        }
    }

    /// Whether the plan is done.
    pub fn is_done(&self) -> (r: bool)
        ensures
            r == (self@.phase == Phase::Done),
    {
        self.phase == Phase::Done
    }

    /// The typed text, when the candidates are to be ranked against it: the
    /// request had a non-empty one.
    pub fn ranking_prompt(&self) -> (r: Option<String>)
        ensures
            crate::json::opt_text(r) == match self@.prompt {
                Some(t) => if t.len() > 0 {
                    Some(t)
                } else {
                    None
                },
                None => None,
            },
    {
        match &self.prompt {
            Some(t) => if t.as_str().unicode_len() > 0 {
                Some(t.clone())
            } else {
                None
            },
            None => None,
        }
    }

    /// The candidates gathered, in the order they were taken.
    pub fn into_candidates(self) -> (r: Vec<Candidate>)
        ensures
            r@.map_values(|c: Candidate| c@) == self@.pool.candidates,
    {
        self.pool.into_candidates()
    }
}

} // verus!
