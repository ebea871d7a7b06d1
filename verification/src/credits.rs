//! Reading the cast and crew of a film or show from a TMDB credits answer.
//!
//! Of the crew only directors, producers, cinematographers and composers are
//! kept; every cast member is kept as an actor. A show lists the same person
//! under the same crew role once.
use vstd::prelude::*;
use crate::json::{Json, opt_text, or_else};
use crate::models::{CreditEntry, CreditEntryView};
use crate::recommend::{text_or_empty, answer_items};
use crate::text::{text_eq, copy_opt};

verus! {

/// The role that the diary records for a crew job, if it records one.
pub open spec fn crew_role(job: Seq<char>) -> Option<Seq<char>> {
    if job == "Director"@ {
        Some("director"@)
    } else if job == "Producer"@ {
        Some("producer"@)
    } else if job == "Director of Photography"@ || job == "Cinematography"@ {
        Some("cinematographer"@)
    } else if job == "Original Music Composer"@ || job == "Music"@ || job == "Composer"@ {
        Some("music_composer"@)
    } else {
        None
    }
}

/// A person read from a credits answer, before the diary has stored them.
pub struct CreditPerson {
    pub tmdb_person_id: i64,
    pub name: String,
    pub profile_path: Option<String>,
    pub role_type: String,
    pub character_name: Option<String>,
}

/// The value of a credit person.
pub struct CreditPersonView {
    pub tmdb_person_id: i64,
    pub name: Seq<char>,
    pub profile_path: Option<Seq<char>>,
    pub role_type: Seq<char>,
    pub character_name: Option<Seq<char>>,
}

impl View for CreditPerson {
    type V = CreditPersonView;

    open spec fn view(&self) -> CreditPersonView {
        CreditPersonView {
            tmdb_person_id: self.tmdb_person_id,
            name: self.name@,
            profile_path: opt_text(self.profile_path),
            role_type: self.role_type@,
            character_name: opt_text(self.character_name),
        }
    }
}

/// The crew and the cast of a credits answer, in its order.
pub struct CreditPeople {
    pub crew: Vec<CreditPerson>,
    pub cast: Vec<CreditPerson>,
}

/// `member["id"].as_i64().unwrap_or(0)`.
pub open spec fn member_id(member: Json) -> i64 {
    match member.at("id"@).integer() {
        Some(n) => n,
        None => 0,
    }
}

/// A crew member, when their job is one the diary records.
pub open spec fn crew_person(member: Json) -> Option<CreditPersonView> {
    match crew_role(text_or_empty(member.at("job"@).text())) {
        Some(role) => Some(
            CreditPersonView {
                tmdb_person_id: member_id(member),
                name: text_or_empty(member.at("name"@).text()),
                profile_path: member.at("profile_path"@).text(),
                role_type: role,
                character_name: None,
            },
        ),
        None => None,
    }
}

/// The character of a show's cast member taken from their first role.
pub open spec fn first_role_character(member: Json) -> Option<Seq<char>> {
    match member.at("roles"@).elements() {
        Some(roles) => if roles.len() > 0 {
            match roles[0].lookup("character"@) {
                Some(c) => c.text(),
                None => None,
            }
        } else {
            None
        },
        None => None,
    }
}

/// A cast member. For a show the character falls back on the first role's.
pub open spec fn cast_person(member: Json, show: bool) -> CreditPersonView {
    CreditPersonView {
        tmdb_person_id: member_id(member),
        name: text_or_empty(member.at("name"@).text()),
        profile_path: member.at("profile_path"@).text(),
        role_type: "actor"@,
        character_name: if show {
            or_else(member.at("character"@).text(), first_role_character(member))
        } else {
            member.at("character"@).text()
        },
    }
}

/// The recorded crew among `members`, in order.
pub open spec fn crew_people(members: Seq<Json>) -> Seq<CreditPersonView>
    decreases members.len(),
{
    if members.len() == 0 {
        Seq::empty()
    } else {
        match crew_person(members.last()) {
            Some(p) => crew_people(members.drop_last()).push(p),
            None => crew_people(members.drop_last()),
        }
    }
}

/// The cast `members`, in order.
pub open spec fn cast_people(members: Seq<Json>, show: bool) -> Seq<CreditPersonView> {
    members.map_values(|m: Json| cast_person(m, show))
}

/// The entry of a stored person.
pub open spec fn entry_of(p: CreditPersonView, person_id: i64) -> CreditEntryView {
    CreditEntryView {
        person_id: person_id,
        tmdb_person_id: p.tmdb_person_id,
        person_name: p.name,
        profile_path: p.profile_path,
        role_type: p.role_type,
        character_name: p.character_name,
    }
}

/// The entries of stored people, each with the local id at the same position.
pub open spec fn entries_of(people: Seq<CreditPersonView>, ids: Seq<i64>) -> Seq<CreditEntryView> {
    Seq::new(people.len(), |i: int| entry_of(people[i], ids[i]))
}

/// What tells two crew entries of a show apart: the person and the role.
pub open spec fn person_role(e: CreditEntryView) -> (i64, Seq<char>) {
    (e.person_id, e.role_type)
}

/// `entries` without those whose person and role came earlier.
pub open spec fn first_per_person_role(entries: Seq<CreditEntryView>) -> Seq<CreditEntryView>
    decreases entries.len(),
{
    if entries.len() == 0 {
        Seq::empty()
    } else {
        let kept = first_per_person_role(entries.drop_last());
        if kept.map_values(|e: CreditEntryView| person_role(e)).contains(person_role(entries.last())) {
            kept
        } else {
            kept.push(entries.last())
        }
    }
}

/// Law: after the crew of a show is cut to one entry per person and role, no
/// two entries share a person and role, every entry kept was in the list,
/// and every person and role of the list is still there.
pub proof fn lemma_first_per_person_role(entries: Seq<CreditEntryView>)
    ensures
        first_per_person_role(entries).map_values(|e: CreditEntryView| person_role(e)).no_duplicates(),
        forall|k: int| 0 <= k < first_per_person_role(entries).len() ==> entries.contains(#[trigger] first_per_person_role(entries)[k]),
        forall|i: int| 0 <= i < entries.len() ==> first_per_person_role(entries).map_values(|e: CreditEntryView| person_role(e)).contains(
            person_role(#[trigger] entries[i]),
        ),
    decreases entries.len(),
{
    if entries.len() > 0 {
        let front = entries.drop_last();
        lemma_first_per_person_role(front);
        let kept = first_per_person_role(front);
        let ks = kept.map_values(|e: CreditEntryView| person_role(e));
        let last = entries.last();
        assert forall|k: int| 0 <= k < kept.len() implies entries.contains(#[trigger] kept[k]) by {
            let i = choose|i: int| 0 <= i < front.len() && front[i] == kept[k];
            assert(entries[i] == kept[k]);
        }
        if !ks.contains(person_role(last)) {
            let now = kept.push(last);
            assert(now.map_values(|e: CreditEntryView| person_role(e)) =~= ks.push(person_role(last)));
            assert(entries[entries.len() - 1] == last);
            assert forall|i: int| 0 <= i < entries.len() implies now.map_values(|e: CreditEntryView| person_role(e)).contains(
                person_role(#[trigger] entries[i]),
            ) by {
                if i < entries.len() - 1 {
                    assert(front[i] == entries[i]);
                    let k = choose|k: int| 0 <= k < ks.len() && ks[k] == person_role(front[i]);
                    assert(now.map_values(|e: CreditEntryView| person_role(e))[k] == ks[k]);
                } else {
                    assert(now.map_values(|e: CreditEntryView| person_role(e))[kept.len() as int] == person_role(last));
                }
            }
        } else {
            assert forall|i: int| 0 <= i < entries.len() implies ks.contains(person_role(#[trigger] entries[i])) by {
                if i < entries.len() - 1 {
                    assert(front[i] == entries[i]);
                }
            }
        }
    }
}

/// Law: the crew jobs the diary records, and the role each is recorded as;
/// any other job is not recorded.
pub proof fn lemma_crew_role_table(job: Seq<char>)
    ensures
        crew_role("Director"@) == Some("director"@),
        crew_role("Producer"@) == Some("producer"@),
        crew_role("Director of Photography"@) == Some("cinematographer"@),
        crew_role("Cinematography"@) == Some("cinematographer"@),
        crew_role("Original Music Composer"@) == Some("music_composer"@),
        crew_role("Music"@) == Some("music_composer"@),
        crew_role("Composer"@) == Some("music_composer"@),
        job != "Director"@ && job != "Producer"@ && job != "Director of Photography"@ && job != "Cinematography"@
            && job != "Original Music Composer"@ && job != "Music"@ && job != "Composer"@ ==> crew_role(job) is None,
{
    reveal_strlit("Director");
    reveal_strlit("Producer");
    reveal_strlit("Director of Photography");
    reveal_strlit("Cinematography");
    reveal_strlit("Original Music Composer");
    reveal_strlit("Music");
    reveal_strlit("Composer");
    assert("Director"@.len() == 8 && "Producer"@.len() == 8 && "Composer"@.len() == 8);
    assert("Director of Photography"@.len() == 23 && "Original Music Composer"@.len() == 23);
    assert("Cinematography"@.len() == 14 && "Music"@.len() == 5);
    assert("Director"@[0] != "Producer"@[0] && "Director"@[0] != "Composer"@[0] && "Producer"@[0] != "Composer"@[0]);
    assert("Director of Photography"@[0] != "Original Music Composer"@[0]);
}

/// Law: a cast member is stored as an actor under the TMDB person id of the
/// member's `id` (0 when absent), with the `name` (empty when absent) and the
/// `profile_path`; the character is the member's `character`, and for a show,
/// when that is absent, the `character` of the member's first role.
pub proof fn lemma_cast_person_fields(member: Json, show: bool)
    ensures
        cast_person(member, show).tmdb_person_id == match member.at("id"@).integer() {
            Some(n) => n,
            None => 0,
        },
        cast_person(member, show).name == match member.at("name"@).text() {
            Some(t) => t,
            None => Seq::<char>::empty(),
        },
        cast_person(member, show).profile_path == member.at("profile_path"@).text(),
        cast_person(member, show).role_type == "actor"@,
        !show ==> cast_person(member, show).character_name == member.at("character"@).text(),
        show ==> cast_person(member, show).character_name == match member.at("character"@).text() {
            Some(c) => Some(c),
            None => match member.at("roles"@).elements() {
                Some(roles) => if roles.len() > 0 {
                    match roles[0].lookup("character"@) {
                        Some(c) => c.text(),
                        None => None,
                    }
                } else {
                    None
                },
                None => None,
            },
        },
{
}

/// Law: a crew member is kept exactly when their `job` (empty when absent) is
/// one the diary records; then they are stored under the TMDB person id of
/// the member's `id` (0 when absent), with the `name` (empty when absent),
/// the `profile_path`, the role of the job, and no character.
pub proof fn lemma_crew_person_fields(member: Json)
    ensures
        crew_person(member) is Some <==> crew_role(match member.at("job"@).text() {
            Some(t) => t,
            None => Seq::<char>::empty(),
        }) is Some,
        crew_person(member) matches Some(p) ==> {
            &&& p.tmdb_person_id == match member.at("id"@).integer() {
                Some(n) => n,
                None => 0,
            }
            &&& p.name == match member.at("name"@).text() {
                Some(t) => t,
                None => Seq::<char>::empty(),
            }
            &&& p.profile_path == member.at("profile_path"@).text()
            &&& Some(p.role_type) == crew_role(match member.at("job"@).text() {
                Some(t) => t,
                None => Seq::<char>::empty(),
            })
            &&& p.character_name is None
        },
{
}

/// Law: the cast of an answer keeps every member, in order, each as the
/// actor read from the member at the same position; in particular the TMDB
/// person id of each is the member's `id` (0 when absent).
pub proof fn lemma_cast_people_fields(members: Seq<Json>, show: bool)
    ensures
        cast_people(members, show).len() == members.len(),
        forall|i: int| 0 <= i < members.len() ==> #[trigger] cast_people(members, show)[i] == cast_person(members[i], show),
        forall|i: int| 0 <= i < members.len() ==> (#[trigger] cast_people(members, show)[i]).tmdb_person_id == match members[i].at("id"@).integer() {
            Some(n) => n,
            None => 0,
        },
{
}

/// Law: every crew person kept is the one read from some member of the
/// list, and every member whose job is recorded is kept; no more are kept
/// than there are members.
pub proof fn lemma_crew_people_sources(members: Seq<Json>)
    ensures
        crew_people(members).len() <= members.len(),
        forall|k: int| 0 <= k < crew_people(members).len() ==>
            exists|i: int| 0 <= i < members.len() && crew_person(members[i]) == Some(#[trigger] crew_people(members)[k]),
        forall|i: int| 0 <= i < members.len() && (#[trigger] crew_person(members[i])) is Some ==>
            crew_people(members).contains(crew_person(members[i])->0),
    decreases members.len(),
{
    if members.len() > 0 {
        let front = members.drop_last();
        lemma_crew_people_sources(front);
        let before = crew_people(front);
        let now = crew_people(members);
        let last = members[members.len() - 1];
        assert(members.last() == last);
        assert forall|k: int| 0 <= k < now.len() implies
            exists|i: int| 0 <= i < members.len() && crew_person(members[i]) == Some(#[trigger] now[k]) by {
            if k < before.len() {
                assert(now[k] == before[k]);
                let i = choose|i: int| 0 <= i < front.len() && crew_person(front[i]) == Some(before[k]);
                assert(members[i] == front[i]);
            } else {
                assert(crew_person(members[members.len() - 1]) == Some(now[k]));
            }
        }
        assert forall|i: int| 0 <= i < members.len() && (#[trigger] crew_person(members[i])) is Some implies
            now.contains(crew_person(members[i])->0) by {
            if i < front.len() {
                assert(members[i] == front[i]);
                assert(crew_person(front[i]) is Some);
                let k = choose|k: int| 0 <= k < before.len() && before[k] == crew_person(front[i])->0;
                assert(now[k] == before[k]);
            } else {
                assert(now[before.len() as int] == crew_person(last)->0);
            }
        }
    }
}

/// Law: the entry at each position pairs the person at that position with
/// the local id at that position, and keeps the person's TMDB id, name,
/// profile path, role and character.
pub proof fn lemma_entries_fields(people: Seq<CreditPersonView>, ids: Seq<i64>)
    ensures
        entries_of(people, ids).len() == people.len(),
        forall|i: int| 0 <= i < people.len() ==> {
            &&& (#[trigger] entries_of(people, ids)[i]).person_id == ids[i]
            &&& entries_of(people, ids)[i].tmdb_person_id == people[i].tmdb_person_id
            &&& entries_of(people, ids)[i].person_name == people[i].name
            &&& entries_of(people, ids)[i].profile_path == people[i].profile_path
            &&& entries_of(people, ids)[i].role_type == people[i].role_type
            &&& entries_of(people, ids)[i].character_name == people[i].character_name
        },
{
}

/// The role the diary records for a crew job (`None` for any other job).
pub fn crew_role_type(job: &str) -> (r: Option<String>)
    ensures
        opt_text(r) == crew_role(job@),
{
    if text_eq(job, "Director") {
        Some(String::from_str("director"))
    } else if text_eq(job, "Producer") {
        Some(String::from_str("producer"))
    } else if text_eq(job, "Director of Photography") || text_eq(job, "Cinematography") {
        Some(String::from_str("cinematographer"))
    } else if text_eq(job, "Original Music Composer") || text_eq(job, "Music") || text_eq(job, "Composer") {
        Some(String::from_str("music_composer"))
    } else {
        None
    }
}

fn member_id_of(member: &Json) -> (r: i64)
    ensures
        r == member_id(*member),
{
    match member.int_at("id") {
        Some(n) => n,
        None => 0,
    }
}

fn name_of(member: &Json) -> (r: String)
    ensures
        r@ == text_or_empty(member.at("name"@).text()),
{
    match member.text_at("name") {
        Some(t) => t,
        None => String::new(),
    }
}

fn crew_person_of(member: &Json) -> (r: Option<CreditPerson>)
    ensures
        match r {
            Some(p) => crew_person(*member) == Some(p@),
            None => crew_person(*member) is None,
        },
{
    let job = match member.text_at("job") {
        Some(t) => t,
        None => String::new(),
    };
    match crew_role_type(job.as_str()) {
        Some(role) => Some(
            CreditPerson {
                tmdb_person_id: member_id_of(member),
                name: name_of(member),
                profile_path: member.text_at("profile_path"),
                role_type: role,
                character_name: None,
            },
        ),
        None => None,
    }
}

fn first_role_character_of(member: &Json) -> (r: Option<String>)
    ensures
        opt_text(r) == first_role_character(*member),
{
    match member.array_at("roles") {
        Some(roles) => {
            if roles.len() > 0 {
                match roles[0].get("character") {
                    Some(Json::Str(c)) => Some(c.clone()),
                    _ => None,
                }
            } else {
                None
            }
        },
        None => None,
    }
}

fn cast_person_of(member: &Json, show: bool) -> (r: CreditPerson)
    ensures
        r@ == cast_person(*member, show),
{
    let character = if show {
        match member.text_at("character") {
            Some(c) => Some(c),
            None => first_role_character_of(member),
        }
    } else {
        member.text_at("character")
    };
    CreditPerson {
        tmdb_person_id: member_id_of(member),
        name: name_of(member),
        profile_path: member.text_at("profile_path"),
        role_type: String::from_str("actor"),
        character_name: character,
    }
}

/// The people of a credits answer: the recorded crew, then the cast; `show`
/// tells a show's answer from a film's.
pub fn credit_people(credits: &Json, show: bool) -> (r: CreditPeople)
    ensures
        r.crew@.map_values(|p: CreditPerson| p@) == crew_people(answer_items(credits.at("crew"@))),
        r.cast@.map_values(|p: CreditPerson| p@) == cast_people(answer_items(credits.at("cast"@)), show),
{
    let mut crew: Vec<CreditPerson> = Vec::new();
    match credits.array_at("crew") {
        Some(members) => {
            let n = members.len();
            let mut i: usize = 0;
            while i < n
                invariant
                    n == members@.len(),
                    i <= n,
                    crew@.map_values(|p: CreditPerson| p@) == crew_people(members@.take(i as int)),
                decreases n - i,
            {
                assert(members@.take(i + 1).drop_last() =~= members@.take(i as int));
                let ghost before = crew@;
                match crew_person_of(&members[i]) {
                    Some(p) => {
                        crew.push(p);
                        assert(crew@.map_values(|p: CreditPerson| p@) =~= before.map_values(|p: CreditPerson| p@).push(crew@.last()@));
                    },
                    None => {},
                }
                i = i + 1;
            }
            assert(members@.take(n as int) =~= members@);
        },
        None => {
            assert(crew@.map_values(|p: CreditPerson| p@) =~= Seq::<CreditPersonView>::empty());
        },
    }
    let mut cast: Vec<CreditPerson> = Vec::new();
    match credits.array_at("cast") {
        Some(members) => {
            let n = members.len();
            let mut i: usize = 0;
            while i < n
                invariant
                    n == members@.len(),
                    i <= n,
                    cast@.map_values(|p: CreditPerson| p@) == cast_people(members@.take(i as int), show),
                decreases n - i,
            {
                let ghost before = cast@;
                let p = cast_person_of(&members[i], show);
                cast.push(p);
                assert(cast@.map_values(|p: CreditPerson| p@) =~= before.map_values(|p: CreditPerson| p@).push(cast_person(members@[i as int], show)));
                assert(cast_people(members@.take(i + 1), show) =~= cast_people(members@.take(i as int), show).push(cast_person(members@[i as int], show)));
                assert(cast@.map_values(|p: CreditPerson| p@) =~= cast_people(members@.take(i + 1), show));
                i = i + 1;
            }
            assert(members@.take(n as int) =~= members@);
        },
        None => {
            assert(cast@.map_values(|p: CreditPerson| p@) =~= cast_people(Seq::empty(), show));
        },
    }
    CreditPeople { crew, cast }
}

/// The entry of a person once the diary has stored them under `person_id`.
pub fn credit_entry(p: &CreditPerson, person_id: i64) -> (e: CreditEntry)
    ensures
        e@ == entry_of(p@, person_id),
{
    CreditEntry {
        person_id,
        tmdb_person_id: p.tmdb_person_id,
        person_name: p.name.clone(),
        profile_path: copy_opt(&p.profile_path),
        role_type: p.role_type.clone(),
        character_name: copy_opt(&p.character_name),
    }
}

/// Appends the entries of `people`, each with the id at its position.
fn push_entries(out: &mut Vec<CreditEntry>, people: &Vec<CreditPerson>, ids: &Vec<i64>)
    requires
        people@.len() == ids@.len(),
    ensures
        final(out)@.map_values(|e: CreditEntry| e@) == old(out)@.map_values(|e: CreditEntry| e@)
            + entries_of(people@.map_values(|p: CreditPerson| p@), ids@),
{
    let ghost start = out@.map_values(|e: CreditEntry| e@);
    let ghost pv = people@.map_values(|p: CreditPerson| p@);
    let n = people.len();
    let mut i: usize = 0;
    while i < n
        invariant
            n == people@.len(),
            n == ids@.len(),
            i <= n,
            pv == people@.map_values(|p: CreditPerson| p@),
            out@.map_values(|e: CreditEntry| e@) == start + entries_of(pv.take(i as int), ids@.take(i as int)),
        decreases n - i,
    {
        let ghost before = out@;
        let e = credit_entry(&people[i], ids[i]);
        out.push(e);
        assert(out@.map_values(|e: CreditEntry| e@) =~= before.map_values(|e: CreditEntry| e@).push(e@));
        assert(e@ == entry_of(pv[i as int], ids@[i as int]));
        assert(entries_of(pv.take(i + 1), ids@.take(i + 1)) =~= entries_of(pv.take(i as int), ids@.take(i as int)).push(e@));
        assert(out@.map_values(|e: CreditEntry| e@) =~= start + entries_of(pv.take(i + 1), ids@.take(i + 1)));
        i = i + 1;
    }
    assert(pv.take(n as int) =~= pv);
    assert(ids@.take(n as int) =~= ids@);
}

/// The credits of a film: the crew entries, then the cast entries, each with
/// the local id the diary gave the person (`crew_ids`, `cast_ids`, by position).
pub fn assemble_movie_credits(people: &CreditPeople, crew_ids: &Vec<i64>, cast_ids: &Vec<i64>) -> (r: Vec<CreditEntry>)
    requires
        crew_ids@.len() == people.crew@.len(),
        cast_ids@.len() == people.cast@.len(),
    ensures
        r@.map_values(|e: CreditEntry| e@) == entries_of(people.crew@.map_values(|p: CreditPerson| p@), crew_ids@)
            + entries_of(people.cast@.map_values(|p: CreditPerson| p@), cast_ids@),
{
    let mut out: Vec<CreditEntry> = Vec::new();
    assert(out@.map_values(|e: CreditEntry| e@) =~= Seq::<CreditEntryView>::empty());
    push_entries(&mut out, &people.crew, crew_ids);
    push_entries(&mut out, &people.cast, cast_ids);
    assert(Seq::<CreditEntryView>::empty() + entries_of(people.crew@.map_values(|p: CreditPerson| p@), crew_ids@)
        =~= entries_of(people.crew@.map_values(|p: CreditPerson| p@), crew_ids@));
    out
}

/// The credits of a show: the crew entries, each person and role once (the
/// first), then all cast entries.
pub fn assemble_tv_credits(people: &CreditPeople, crew_ids: &Vec<i64>, cast_ids: &Vec<i64>) -> (r: Vec<CreditEntry>)
    requires
        crew_ids@.len() == people.crew@.len(),
        cast_ids@.len() == people.cast@.len(),
    ensures
        r@.map_values(|e: CreditEntry| e@) == first_per_person_role(
            entries_of(people.crew@.map_values(|p: CreditPerson| p@), crew_ids@),
        ) + entries_of(people.cast@.map_values(|p: CreditPerson| p@), cast_ids@),
{
    let ghost crew_entries = entries_of(people.crew@.map_values(|p: CreditPerson| p@), crew_ids@);
    let mut out: Vec<CreditEntry> = Vec::new();
    let n = people.crew.len();
    let mut i: usize = 0;
    while i < n
        invariant
            n == people.crew@.len(),
            n == crew_ids@.len(),
            i <= n,
            crew_entries == entries_of(people.crew@.map_values(|p: CreditPerson| p@), crew_ids@),
            out@.map_values(|e: CreditEntry| e@) == first_per_person_role(crew_entries.take(i as int)),
        decreases n - i,
    {
        let ghost kept = out@.map_values(|e: CreditEntry| e@);
        assert(crew_entries.take(i + 1).drop_last() =~= crew_entries.take(i as int));
        let e = credit_entry(&people.crew[i], crew_ids[i]);
        assert(e@ == crew_entries[i as int]);
        let m = out.len();
        let mut j: usize = 0;
        let mut seen = false;
        while j < m
            invariant
                m == out@.len(),
                j <= m,
                kept == out@.map_values(|e: CreditEntry| e@),
                !seen ==> forall|k: int| 0 <= k < j ==> person_role(kept[k]) != person_role(e@),
                seen ==> kept.map_values(|x: CreditEntryView| person_role(x)).contains(person_role(e@)),
            decreases m - j,
        {
            if !seen && out[j].person_id == e.person_id && out[j].role_type == e.role_type {
                assert(kept.map_values(|x: CreditEntryView| person_role(x))[j as int] == person_role(e@));
                seen = true;
            }
            j = j + 1;
        }
        if !seen {
            let ghost ks = kept.map_values(|x: CreditEntryView| person_role(x));
            assert(!ks.contains(person_role(e@))) by {
                if ks.contains(person_role(e@)) {
                    let k = choose|k: int| 0 <= k < ks.len() && #[trigger] ks[k] == person_role(e@);
                    assert(person_role(kept[k]) == person_role(e@));
                }
            }
            out.push(e);
            assert(out@.map_values(|e: CreditEntry| e@) =~= kept.push(crew_entries[i as int]));
        }
        i = i + 1;
    }
    assert(crew_entries.take(n as int) =~= crew_entries);
    push_entries(&mut out, &people.cast, cast_ids);
    out
}

} // verus!
