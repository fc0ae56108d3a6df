use vstd::prelude::*;

use crate::store::{BuildRecord, NewBuild, records_of};

verus! {

/// The value of an optional string.
pub open spec fn opt_text(o: Option<String>) -> Option<Seq<char>> {
    match o {
        Some(s) => Some(s@),
        None => None,
    }
}

/// The value of the members read from a payload.
pub open spec fn members_view(m: Option<Vec<Option<String>>>) -> Option<Seq<Option<Seq<char>>>> {
    match m {
        Some(v) => Some(v@.map_values(|e: Option<String>| opt_text(e))),
        None => None,
    }
}

/// What `serde_json` reads in `text` taken as a JSON array: for each element,
/// its string member `key` when it has one; none when `text` is no JSON array.
pub uninterp spec fn json_array_string_members(text: Seq<char>, key: Seq<char>) -> Option<
    Seq<Option<Seq<char>>>,
>;

/// Relies on serde_json::from_str to read `text` as an array of JSON values,
/// and on Value::get and Value::as_str to pick each element's string member
/// `key`.
#[verifier::external_body]
fn string_members(text: &str, key: &str) -> (r: Option<Vec<Option<String>>>)
    ensures
        members_view(r) == json_array_string_members(text@, key@),
{
    let values = serde_json::from_str::<Vec<serde_json::Value>>(text).ok()?;
    Some(values.iter().map(|v| v.get(key).and_then(|m| m.as_str()).map(|m| m.to_string())).collect())
}

/// The identity pair (champion id, alias) of a payload: the `id` and `alias`
/// string members of its first variant.
pub open spec fn identity_of(
    ids: Option<Seq<Option<Seq<char>>>>,
    aliases: Option<Seq<Option<Seq<char>>>>,
) -> Option<(Seq<char>, Seq<char>)> {
    match (ids, aliases) {
        (Some(i), Some(a)) => if i.len() > 0 && a.len() > 0 && i[0] is Some && a[0] is Some {
            Some((i[0]->0, a[0]->0))
        } else {
            None
        },
        _ => None,
    }
}

/// The record of a payload whose members were read as `ids` and `aliases`:
/// keyed by its identity pair, holding the payload text itself as content.
pub open spec fn normalized(
    source: Seq<char>,
    version: Seq<char>,
    text: Seq<char>,
    ids: Option<Seq<Option<Seq<char>>>>,
    aliases: Option<Seq<Option<Seq<char>>>>,
) -> Option<BuildRecord> {
    match identity_of(ids, aliases) {
        Some((id, alias)) => Some(
            BuildRecord {
                source,
                version,
                champion_alias: alias,
                champion_id: id,
                content: text,
            },
        ),
        None => None,
    }
}

/// The record of a payload text, or none when it is skipped.
pub open spec fn normalize_spec(source: Seq<char>, version: Seq<char>, text: Seq<char>) -> Option<
    BuildRecord,
> {
    normalized(
        source,
        version,
        text,
        json_array_string_members(text, "id"@),
        json_array_string_members(text, "alias"@),
    )
}

/// The value of an optional record.
pub open spec fn opt_record(r: Option<NewBuild>) -> Option<BuildRecord> {
    match r {
        Some(b) => Some(b@),
        None => None,
    }
}

/// The member read from the first element, if any.
fn first_member(m: &Option<Vec<Option<String>>>) -> (r: Option<String>)
    ensures
        opt_text(r) == match members_view(*m) {
            Some(s) => if s.len() > 0 {
                s[0]
            } else {
                None
            },
            None => None,
        },
{
    match m {
        Some(v) => {
            if v.len() > 0 {
                match &v[0] {
                    Some(s) => Some(s.clone()),
                    None => None,
                }
            } else {
                None
            }
        },
        None => None,
    }
}

/// Builds the record of one payload from the `id` and `alias` members read
/// from its variants; none when the first variant lacks either.
pub fn normalize_members(
    source: &str,
    version: &str,
    text: &str,
    ids: &Option<Vec<Option<String>>>,
    aliases: &Option<Vec<Option<String>>>,
) -> (r: Option<NewBuild>)
    ensures
        opt_record(r) == normalized(source@, version@, text@, members_view(*ids), members_view(*aliases)),
{
    let id = first_member(ids);
    let alias = first_member(aliases);
    match (id, alias) {
        (Some(id), Some(alias)) => Some(
            NewBuild {
                source: source.to_owned(),
                version: version.to_owned(),
                champion_alias: alias,
                champion_id: id,
                content: text.to_owned(),
            },
        ),
        _ => None,
    }
}

/// Validates one retrieved payload and makes its build record: the text must
/// be a JSON array whose first variant has string members `id` and `alias`.
/// The record's content is the text, unchanged.
pub fn normalize(source: &str, version: &str, text: &str) -> (r: Option<NewBuild>)
    ensures
        opt_record(r) == normalize_spec(source@, version@, text@),
{
    let ids = string_members(text, "id");
    let aliases = string_members(text, "alias");
    normalize_members(source, version, text, &ids, &aliases)
}

/// The records of a batch of retrievals, in batch order: a failed retrieval
/// (none) or a skipped payload adds nothing.
pub open spec fn prepared(source: Seq<char>, version: Seq<char>, retrieved: Seq<Option<Seq<char>>>) -> Seq<
    BuildRecord,
>
    decreases retrieved.len(),
{
    if retrieved.len() == 0 {
        Seq::empty()
    } else {
        let rest = prepared(source, version, retrieved.drop_last());
        match retrieved.last() {
            Some(t) => match normalize_spec(source, version, t) {
                Some(b) => rest.push(b),
                None => rest,
            },
            None => rest,
        }
    }
}

/// The value of a batch of retrievals.
pub open spec fn retrieved_view(retrieved: Seq<Option<String>>) -> Seq<Option<Seq<char>>> {
    retrieved.map_values(|o: Option<String>| opt_text(o))
}

/// Normalizes a batch of retrievals of one source at one version; each entry
/// is a retrieved payload text, or none where its retrieval failed.
pub fn prepare_builds(source: &str, version: &str, retrieved: &Vec<Option<String>>) -> (r: Vec<
    NewBuild,
>)
    ensures
        records_of(r@) == prepared(source@, version@, retrieved_view(retrieved@)),
{
    let ghost all = retrieved_view(retrieved@);
    let mut out: Vec<NewBuild> = Vec::new();
    let mut idx: usize = 0;
    while idx < retrieved.len()
        invariant
            idx <= retrieved@.len(),
            all == retrieved_view(retrieved@),
            records_of(out@) == prepared(source@, version@, all.take(idx as int)),
        decreases retrieved@.len() - idx,
    {
        assert(all.take(idx + 1).drop_last() =~= all.take(idx as int));
        assert(all.take(idx + 1).last() == opt_text(retrieved@[idx as int]));
        let ghost before = out@;
        match &retrieved[idx] {
            Some(text) => {
                match normalize(source, version, text.as_str()) {
                    Some(b) => {
                        out.push(b);
                        assert(records_of(out@) =~= records_of(before).push(b@));
                    },
                    None => {},
                }
            },
            None => {},
        }
        idx = idx + 1;
    }
    assert(all.take(retrieved@.len() as int) =~= all);
    out
}

proof fn lemma_prepared_remove(
    source: Seq<char>,
    version: Seq<char>,
    retrieved: Seq<Option<Seq<char>>>,
    a: int,
)
    requires
        0 <= a < retrieved.len(),
        retrieved[a] is None,
    ensures
        prepared(source, version, retrieved) == prepared(source, version, retrieved.remove(a)),
    decreases retrieved.len(),
{
    if a == retrieved.len() - 1 {
        assert(retrieved.remove(a) =~= retrieved.drop_last());
    } else {
        let shorter = retrieved.remove(a);
        assert(shorter.drop_last() =~= retrieved.drop_last().remove(a));
        assert(shorter.last() == retrieved.last());
        lemma_prepared_remove(source, version, retrieved.drop_last(), a);
    }
}

proof fn lemma_prepared_contains(
    source: Seq<char>,
    version: Seq<char>,
    retrieved: Seq<Option<Seq<char>>>,
    b: int,
)
    requires
        0 <= b < retrieved.len(),
        retrieved[b] is Some,
        normalize_spec(source, version, retrieved[b]->0) is Some,
    ensures
        prepared(source, version, retrieved).contains(
            normalize_spec(source, version, retrieved[b]->0)->0,
        ),
    decreases retrieved.len(),
{
    let rec = normalize_spec(source, version, retrieved[b]->0)->0;
    let rest = prepared(source, version, retrieved.drop_last());
    if b == retrieved.len() - 1 {
        assert(prepared(source, version, retrieved) == rest.push(rec));
        assert(rest.push(rec)[rest.len() as int] == rec);
    } else {
        assert(retrieved.drop_last()[b] == retrieved[b]);
        lemma_prepared_contains(source, version, retrieved.drop_last(), b);
        let j = choose|j: int| 0 <= j < rest.len() && rest[j] == rec;
        match retrieved.last() {
            Some(t) => match normalize_spec(source, version, t) {
                Some(c) => {
                    assert(rest.push(c)[j] == rec);
                },
                None => {},
            },
            None => {},
        }
    }
}

/// In a batch where the retrieval at `a` failed and the one at `b` gave a
/// valid payload, the prepared records hold the record of `b`, and nothing
/// comes from `a`: they are those of the batch without `a`.
pub proof fn lemma_failure_isolated(
    source: Seq<char>,
    version: Seq<char>,
    retrieved: Seq<Option<Seq<char>>>,
    a: int,
    b: int,
)
    requires
        0 <= a < retrieved.len(),
        0 <= b < retrieved.len(),
        retrieved[a] is None,
        retrieved[b] is Some,
        normalize_spec(source, version, retrieved[b]->0) is Some,
    ensures
        prepared(source, version, retrieved).contains(
            normalize_spec(source, version, retrieved[b]->0)->0,
        ),
        prepared(source, version, retrieved) == prepared(source, version, retrieved.remove(a)),
{
    lemma_prepared_contains(source, version, retrieved, b);
    lemma_prepared_remove(source, version, retrieved, a);
}

/// The content of a record made from a payload is the payload's text, so it
/// reads back as the very sequence of variants that the payload held.
pub proof fn lemma_content_round_trip(source: Seq<char>, version: Seq<char>, text: Seq<char>)
    requires
        normalize_spec(source, version, text) is Some,
    ensures
        normalize_spec(source, version, text)->0.content == text,
        forall|key: Seq<char>|
            json_array_string_members(normalize_spec(source, version, text)->0.content, key)
                == json_array_string_members(text, key),
{
}

} // verus!
