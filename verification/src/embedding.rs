//! The text that describes a title to the sentence model, and how an
//! embedding is laid out in storage: each component as four little-endian
//! bytes, one after the other.
use vstd::prelude::*;
use crate::json::{Json, or_else};
use crate::text::{join, join_texts};

verus! {

/// The parts of the text for a title with an overview: the title, then the
/// overview when it is not empty.
pub open spec fn title_parts(title: Seq<char>, overview: Option<Seq<char>>) -> Seq<Seq<char>> {
    match overview {
        Some(o) => if o.len() > 0 {
            seq![title, o]
        } else {
            seq![title]
        },
        None => seq![title],
    }
}

/// The text describing a candidate: its title and its overview, if any,
/// separated by a space.
pub fn build_embedding_text(title: &str, overview: Option<&str>) -> (r: String)
    ensures
        r@ == join(title_parts(title@, match overview {
            Some(o) => Some(o@),
            None => None,
        }), " "@),
{
    let mut parts: Vec<String> = Vec::new();
    parts.push(String::from_str(title));
    match overview {
        Some(o) => {
            if o.unicode_len() > 0 {
                parts.push(String::from_str(o));
            }
        },
        None => {},
    }
    let ghost views = parts@.map_values(|p: String| p@);
    assert(views =~= title_parts(title@, match overview {
        Some(o) => Some(o@),
        None => None,
    }));
    join_texts(&parts, " ")
}

/// Law: the text for a title is the title alone when there is no overview
/// or it is empty, and otherwise the title, one space and the overview.
pub proof fn lemma_embedding_text(title: Seq<char>, overview: Option<Seq<char>>)
    ensures
        join(title_parts(title, overview), " "@) == match overview {
            Some(o) => if o.len() > 0 {
                title + " "@ + o
            } else {
                title
            },
            None => title,
        },
{
    match overview {
        Some(o) => if o.len() > 0 {
            assert(seq![title, o].drop_last() =~= seq![title]);
            assert(join(seq![title], " "@) == title);
            assert(join(seq![title, o], " "@) == join(seq![title], " "@) + " "@ + o);
        },
        None => {},
    }
}

/// A non-empty text, as a list of one part.
pub open spec fn nonempty_part(t: Option<Seq<char>>) -> Seq<Seq<char>> {
    match t {
        Some(s) => if s.len() > 0 {
            seq![s]
        } else {
            Seq::empty()
        },
        None => Seq::empty(),
    }
}

/// The parts of the text for a title's details: the title (or else the
/// name) when there is one, the tagline and the overview when not empty.
pub open spec fn details_parts(details: Json) -> Seq<Seq<char>> {
    let head = match or_else(details.at("title"@).text(), details.at("name"@).text()) {
        Some(t) => seq![t],
        None => Seq::empty(),
    };
    head + nonempty_part(details.at("tagline"@).text()) + nonempty_part(details.at("overview"@).text())
}

/// Law: the text for a title's details is its title (or else its name), its
/// tagline and its overview, one space between each two, leaving out what is
/// absent and a tagline or overview that is empty.
pub proof fn lemma_details_text(details: Json)
    ensures
        details_parts(details) == (match details.at("title"@).text() {
            Some(t) => seq![t],
            None => match details.at("name"@).text() {
                Some(t) => seq![t],
                None => Seq::<Seq<char>>::empty(),
            },
        }) + (match details.at("tagline"@).text() {
            Some(g) => if g.len() > 0 {
                seq![g]
            } else {
                Seq::<Seq<char>>::empty()
            },
            None => Seq::<Seq<char>>::empty(),
        }) + (match details.at("overview"@).text() {
            Some(o) => if o.len() > 0 {
                seq![o]
            } else {
                Seq::<Seq<char>>::empty()
            },
            None => Seq::<Seq<char>>::empty(),
        }),
        match (details.at("title"@).text(), details.at("tagline"@).text(), details.at("overview"@).text()) {
            (Some(t), Some(g), Some(o)) => g.len() > 0 && o.len() > 0 ==> join(details_parts(details), " "@) == t
                + " "@ + g + " "@ + o,
            _ => true,
        },
{
    match (details.at("title"@).text(), details.at("tagline"@).text(), details.at("overview"@).text()) {
        (Some(t), Some(g), Some(o)) => {
            if g.len() > 0 && o.len() > 0 {
                let parts = details_parts(details);
                assert(parts =~= seq![t, g, o]);
                assert(parts.drop_last() =~= seq![t, g]);
                assert(parts.drop_last().drop_last() =~= seq![t]);
                assert(join(seq![t], " "@) == t);
                assert(join(seq![t, g], " "@) == join(seq![t], " "@) + " "@ + g);
                assert(join(seq![t, g, o], " "@) == join(seq![t, g], " "@) + " "@ + o);
            }
        },
        _ => {},
    }
}

fn push_nonempty(parts: &mut Vec<String>, t: Option<String>)
    ensures
        final(parts)@.map_values(|p: String| p@) == old(parts)@.map_values(|p: String| p@) + nonempty_part(
            crate::json::opt_text(t),
        ),
{
    let ghost before = parts@;
    match t {
        Some(s) => {
            if s.as_str().unicode_len() > 0 {
                parts.push(s);
                assert(parts@.map_values(|p: String| p@) =~= before.map_values(|p: String| p@) + seq![parts@.last()@]);
            } else {
                assert(parts@.map_values(|p: String| p@) =~= before.map_values(|p: String| p@) + Seq::<Seq<char>>::empty());
            }
        },
        None => {
            assert(parts@.map_values(|p: String| p@) =~= before.map_values(|p: String| p@) + Seq::<Seq<char>>::empty());
        },
    }
}

/// The text describing a film or show from its TMDB details: title (or
/// name), tagline and overview, separated by spaces.
pub fn build_embedding_text_from_json(details: &Json) -> (r: String)
    ensures
        r@ == join(details_parts(*details), " "@),
{
    let mut parts: Vec<String> = Vec::new();
    let head = match details.text_at("title") {
        Some(t) => Some(t),
        None => details.text_at("name"),
    };
    match head {
        Some(t) => {
            parts.push(t);
        },
        None => {},
    }
    let ghost first = parts@.map_values(|p: String| p@);
    assert(first =~= match or_else(details.at("title"@).text(), details.at("name"@).text()) {
        Some(t) => seq![t],
        None => Seq::<Seq<char>>::empty(),
    });
    push_nonempty(&mut parts, details.text_at("tagline"));
    push_nonempty(&mut parts, details.text_at("overview"));
    join_texts(&parts, " ")
}

/// Groups of bytes laid one after the other.
pub open spec fn flatten_groups(groups: Seq<Seq<u8>>) -> Seq<u8>
    decreases groups.len(),
{
    if groups.len() == 0 {
        Seq::empty()
    } else {
        flatten_groups(groups.drop_last()) + groups.last()
    }
}

/// The whole groups of four bytes in `bytes`, in order; a shorter tail is dropped.
pub open spec fn groups_of_four(bytes: Seq<u8>) -> Seq<Seq<u8>> {
    Seq::new(bytes.len() / 4, |k: int| bytes.subrange(4 * k, 4 * k + 4))
}

/// The views of a list of four-byte groups.
pub open spec fn group_views(groups: Seq<[u8; 4]>) -> Seq<Seq<u8>> {
    groups.map_values(|g: [u8; 4]| g@)
}

/// The bytes stored for an embedding whose components are given as their
/// four little-endian bytes.
pub fn pack_groups(groups: &Vec<[u8; 4]>) -> (r: Vec<u8>)
    ensures
        r@ == flatten_groups(group_views(groups@)),
{
    let mut out: Vec<u8> = Vec::new();
    let n = groups.len();
    let mut i: usize = 0;
    while i < n
        invariant
            n == groups@.len(),
            i <= n,
            out@ == flatten_groups(group_views(groups@.take(i as int))),
        decreases n - i,
    {
        assert(group_views(groups@.take(i + 1)).drop_last() =~= group_views(groups@.take(i as int)));
        let g = groups[i];
        let ghost before = out@;
        out.push(g[0]);
        out.push(g[1]);
        out.push(g[2]);
        out.push(g[3]);
        assert(out@ =~= before + g@);
        i = i + 1;
    }
    assert(groups@.take(n as int) =~= groups@);
    out
}

/// The four-byte groups of stored embedding bytes, in order; trailing bytes
/// that do not fill a group are dropped.
pub fn unpack_groups(bytes: &Vec<u8>) -> (r: Vec<[u8; 4]>)
    ensures
        group_views(r@) == groups_of_four(bytes@),
{
    let mut out: Vec<[u8; 4]> = Vec::new();
    let len = bytes.len();
    let n = len / 4;
    let mut k: usize = 0;
    while k < n
        invariant
            len == bytes@.len(),
            n == bytes@.len() / 4,
            k <= n,
            group_views(out@) == groups_of_four(bytes@).take(k as int),
        decreases n - k,
    {
        assert(4 * k + 4 <= bytes@.len()) by (nonlinear_arith)
            requires
                k < bytes@.len() / 4,
        ;
        assert(4 * k + 4 <= len);
        let at = 4 * k;
        let g: [u8; 4] = [bytes[at], bytes[at + 1], bytes[at + 2], bytes[at + 3]];
        let ghost before = out@;
        out.push(g);
        assert(g@ =~= bytes@.subrange(4 * k, 4 * k + 4));
        assert(group_views(out@) =~= group_views(before).push(g@));
        assert(groups_of_four(bytes@)[k as int] == bytes@.subrange(4 * k, 4 * k + 4));
        assert(group_views(out@) =~= groups_of_four(bytes@).take(k + 1));
        k = k + 1;
    }
    assert(groups_of_four(bytes@).take(n as int) =~= groups_of_four(bytes@));
    out
}

/// All groups have four bytes.
pub open spec fn all_fours(groups: Seq<Seq<u8>>) -> bool {
    forall|k: int| 0 <= k < groups.len() ==> #[trigger] groups[k].len() == 4
}

proof fn lemma_flatten_len(groups: Seq<Seq<u8>>)
    requires
        all_fours(groups),
    ensures
        flatten_groups(groups).len() == 4 * groups.len(),
    decreases groups.len(),
{
    if groups.len() > 0 {
        lemma_flatten_len(groups.drop_last());
    }
}

/// Law: reading stored embedding bytes gives back the groups that were
/// stored, in order.
pub proof fn lemma_groups_roundtrip(groups: Seq<Seq<u8>>)
    requires
        all_fours(groups),
    ensures
        groups_of_four(flatten_groups(groups)) == groups,
    decreases groups.len(),
{
    lemma_flatten_len(groups);
    if groups.len() > 0 {
        let front = groups.drop_last();
        lemma_groups_roundtrip(front);
        lemma_flatten_len(front);
        let flat = flatten_groups(groups);
        assert(flat == flatten_groups(front) + groups.last());
        assert forall|k: int| 0 <= k < groups.len() implies #[trigger] groups_of_four(flat)[k] == groups[k] by {
            if k < groups.len() - 1 {
                assert(groups_of_four(flatten_groups(front))[k] == front[k]);
                assert(flat.subrange(4 * k, 4 * k + 4) =~= flatten_groups(front).subrange(4 * k, 4 * k + 4));
            } else {
                assert(flat.subrange(4 * k, 4 * k + 4) =~= groups.last());
            }
        }
        assert(groups_of_four(flat) =~= groups);
    }
}

} // verus!
