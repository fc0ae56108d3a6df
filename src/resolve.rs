use vstd::prelude::*;
use vstd::string::*;

use crate::model::Package;

verus! {

/// How the payloads of a source are retrieved.
#[derive(Clone, Copy, Debug, PartialEq, Eq, Structural)]
pub enum Strategy {
    /// One request per champion against the content-delivery network.
    Direct,
    /// One archive of the whole package, unpacked and read locally.
    Archive,
}

/// The kinds of failure of a sync run.
#[derive(Clone, Copy, Debug, PartialEq, Eq, Structural)]
pub enum SyncError {
    Network,
    Parse,
    VersionResolution,
    Filesystem,
    Storage,
}

/// A source's configured retrieval strategy.
#[derive(Clone, Debug)]
pub struct Provider {
    pub source: String,
    pub strategy: Strategy,
}

/// The strategy configured for `source`: that of the first provider entry
/// naming it, and the archive strategy when no entry does.
pub fn strategy_for(providers: &Vec<Provider>, source: &String) -> (r: Strategy)
    ensures
        (exists|i: int|
            0 <= i < providers@.len() && providers@[i].source@ == source@ && r
                == providers@[i].strategy && forall|j: int|
                0 <= j < i ==> (#[trigger] providers@[j]).source@ != source@) || (r
            == Strategy::Archive && forall|j: int|
            0 <= j < providers@.len() ==> (#[trigger] providers@[j]).source@ != source@),
{
    let mut i: usize = 0;
    while i < providers.len()
        invariant
            i <= providers@.len(),
            forall|j: int| 0 <= j < i ==> (#[trigger] providers@[j]).source@ != source@,
        decreases providers@.len() - i,
    {
        if providers[i].source == *source {
            return providers[i].strategy;
        }
        i = i + 1;
    }
    Strategy::Archive
}

/// What version resolution yields: the version to fetch and, for the
/// archive strategy, where its archive lies.
#[derive(Clone, Debug)]
pub struct Resolved {
    pub version: String,
    pub artifact: Option<String>,
}

/// The metadata record is usable: it exists, names a version, and names an
/// archive where the archive strategy needs one.
pub open spec fn resolvable(pkg: Option<Package>, strategy: Strategy) -> bool {
    match pkg {
        Some(p) => p.version@.len() > 0 && (strategy == Strategy::Archive ==> p.dist.tarball@.len()
            > 0),
        None => false,
    }
}

/// Resolves a source's latest version from its metadata record (none when
/// the registry has no entry for it).
pub fn resolve_version(pkg: Option<Package>, strategy: Strategy) -> (r: Result<Resolved, SyncError>)
    ensures
        r is Ok <==> resolvable(pkg, strategy),
        r is Err ==> r->Err_0 == SyncError::VersionResolution,
        r is Ok ==> r->Ok_0.version@ == pkg->0.version@,
        r is Ok && strategy == Strategy::Archive ==> r->Ok_0.artifact is Some
            && r->Ok_0.artifact->0@ == pkg->0.dist.tarball@,
        r is Ok && strategy == Strategy::Direct ==> r->Ok_0.artifact is None,
{
    match pkg {
        Some(p) => {
            if p.version.as_str().is_empty() {
                return Err(SyncError::VersionResolution);
            }
            match strategy {
                Strategy::Direct => Ok(Resolved { version: p.version, artifact: None }),
                Strategy::Archive => {
                    if p.dist.tarball.as_str().is_empty() {
                        Err(SyncError::VersionResolution)
                    } else {
                        Ok(Resolved { version: p.version, artifact: Some(p.dist.tarball) })
                    }
                },
            }
        },
        None => Err(SyncError::VersionResolution),
    }
}

/// The address of a source's "latest" metadata record under `registry`.
pub fn package_url(registry: &str, source: &str) -> (r: String)
    ensures
        r@ == registry@ + "/"@ + source@ + "/latest"@,
{
    let mut s = registry.to_owned();
    s.append("/");
    s.append(source);
    s.append("/latest");
    s
}

/// The address of the roster of game version `version` under `base`.
pub fn champion_data_url(base: &str, version: &str) -> (r: String)
    ensures
        r@ == base@ + "/cdn/"@ + version@ + "/data/en_US/champion.json"@,
{
    let mut s = base.to_owned();
    s.append("/cdn/");
    s.append(version);
    s.append("/data/en_US/champion.json");
    s
}

} // verus!
