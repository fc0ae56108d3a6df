use vstd::prelude::*;

use crate::model::{ChampionMapResp, Source};
use crate::store::NewSource;

verus! {

/// The version recorded for a source row when the catalog is synced.
pub const DEFAULT_SOURCE_VERSION: &'static str = "1.0.0";

/// The row that a catalog entry becomes: its label as name, its identifier
/// as source, and the default version.
pub fn new_source_from(s: &Source) -> (r: NewSource)
    ensures
        r.name@ == s.label@,
        r.source@ == s.value@,
        r.version@ == DEFAULT_SOURCE_VERSION@,
{
    NewSource {
        name: s.label.clone(),
        source: s.value.clone(),
        version: DEFAULT_SOURCE_VERSION.to_owned(),
    }
}

/// The source rows of a whole catalog, one per entry, in catalog order.
pub fn new_sources(list: &Vec<Source>) -> (r: Vec<NewSource>)
    ensures
        r@.len() == list@.len(),
        forall|i: int|
            0 <= i < list@.len() ==> (#[trigger] r@[i]).name@ == list@[i].label@ && r@[i].source@
                == list@[i].value@ && r@[i].version@ == DEFAULT_SOURCE_VERSION@,
{
    let mut out: Vec<NewSource> = Vec::new();
    let mut i: usize = 0;
    while i < list.len()
        invariant
            i <= list@.len(),
            out@.len() == i,
            forall|j: int|
                0 <= j < i ==> (#[trigger] out@[j]).name@ == list@[j].label@ && out@[j].source@
                    == list@[j].value@ && out@[j].version@ == DEFAULT_SOURCE_VERSION@,
        decreases list@.len() - i,
    {
        out.push(new_source_from(&list[i]));
        i = i + 1;
    }
    out
}

/// The latest game version: the first of the published list, newest first.
pub fn latest_version(versions: &Vec<String>) -> (r: Option<String>)
    ensures
        r is Some <==> versions@.len() > 0,
        r is Some ==> r->0@ == versions@[0]@,
{
    if versions.len() > 0 {
        Some(versions[0].clone())
    } else {
        None
    }
}

/// The identifiers of every champion of the roster, in roster order; the
/// direct strategy fetches one payload for each.
pub fn champion_ids(roster: &ChampionMapResp) -> (r: Vec<String>)
    ensures
        r@.len() == roster.data@.len(),
        forall|i: int| 0 <= i < r@.len() ==> (#[trigger] r@[i])@ == roster.data@[i].id@,
{
    let mut out: Vec<String> = Vec::new();
    let mut i: usize = 0;
    while i < roster.data.len()
        invariant
            i <= roster.data@.len(),
            out@.len() == i,
            forall|j: int| 0 <= j < i ==> (#[trigger] out@[j])@ == roster.data@[j].id@,
        decreases roster.data@.len() - i,
    {
        out.push(roster.data[i].id.clone());
        i = i + 1;
    }
    out
}

} // verus!
