use vstd::prelude::*;
use vstd::string::*;

use crate::resolve::SyncError;

verus! {

/// The package manifest that an archive holds beside the build files.
pub const MANIFEST_FILE: &'static str = "package.json";

/// The address of one champion's payload.
pub open spec fn build_url_spec(
    cdn: Seq<char>,
    source: Seq<char>,
    version: Seq<char>,
    champion: Seq<char>,
) -> Seq<char> {
    cdn + "/"@ + source + "@"@ + version + "/"@ + champion + ".json"@
}

/// The address of one champion's payload: `{cdn}/{source}@{version}/{champion}.json`.
pub fn build_url(cdn: &str, source: &str, version: &str, champion: &str) -> (r: String)
    ensures
        r@ == build_url_spec(cdn@, source@, version@, champion@),
{
    let mut s = cdn.to_owned();
    s.append("/");
    s.append(source);
    s.append("@");
    s.append(version);
    s.append("/");
    s.append(champion);
    s.append(".json");
    s
}

/// The addresses that the direct strategy fetches for a source at a version:
/// one per champion, in the order given.
pub fn direct_urls(cdn: &str, source: &str, version: &str, champions: &Vec<String>) -> (r: Vec<
    String,
>)
    ensures
        r@.len() == champions@.len(),
        forall|i: int|
            0 <= i < r@.len() ==> (#[trigger] r@[i])@ == build_url_spec(
                cdn@,
                source@,
                version@,
                champions@[i]@,
            ),
{
    let mut out: Vec<String> = Vec::new();
    let mut i: usize = 0;
    while i < champions.len()
        invariant
            i <= champions@.len(),
            out@.len() == i,
            forall|j: int|
                0 <= j < i ==> (#[trigger] out@[j])@ == build_url_spec(
                    cdn@,
                    source@,
                    version@,
                    champions@[j]@,
                ),
        decreases champions@.len() - i,
    {
        out.push(build_url(cdn, source, version, champions[i].as_str()));
        i = i + 1;
    }
    out
}

/// The scratch directory of a source under `root`.
pub fn scratch_dir(root: &str, source: &str) -> (r: String)
    ensures
        r@ == root@ + "/"@ + source@,
{
    let mut s = root.to_owned();
    s.append("/");
    s.append(source);
    s
}

/// The directory that an archive unpacks into, inside a scratch directory.
pub fn extracted_dir(scratch: &str) -> (r: String)
    ensures
        r@ == scratch@ + "/package"@,
{
    let mut s = scratch.to_owned();
    s.append("/package");
    s
}

/// One entry of an unpacked archive directory.
#[derive(Clone, Debug)]
pub struct ExtractedEntry {
    pub name: String,
    pub is_file: bool,
}

/// A file other than the manifest.
pub open spec fn is_build_file_spec(name: Seq<char>, is_file: bool) -> bool {
    is_file && name != MANIFEST_FILE@
}

/// An entry holds a build payload: it is a file and not the manifest.
pub fn is_build_file(entry: &ExtractedEntry) -> (r: bool)
    ensures
        r == is_build_file_spec(entry.name@, entry.is_file),
{
    entry.is_file && !(entry.name == MANIFEST_FILE.to_owned())
}

/// The names of the build files among `entries`, in entry order.
pub open spec fn build_file_names(entries: Seq<ExtractedEntry>) -> Seq<Seq<char>>
    decreases entries.len(),
{
    if entries.len() == 0 {
        Seq::empty()
    } else {
        let rest = build_file_names(entries.drop_last());
        if is_build_file_spec(entries.last().name@, entries.last().is_file) {
            rest.push(entries.last().name@)
        } else {
            rest
        }
    }
}

/// Selects the files of an unpacked archive that are to be read.
pub fn build_files(entries: &Vec<ExtractedEntry>) -> (r: Vec<String>)
    ensures
        r@.map_values(|s: String| s@) == build_file_names(entries@),
{
    let mut out: Vec<String> = Vec::new();
    let mut i: usize = 0;
    while i < entries.len()
        invariant
            i <= entries@.len(),
            out@.map_values(|s: String| s@) == build_file_names(entries@.take(i as int)),
        decreases entries@.len() - i,
    {
        assert(entries@.take(i + 1).drop_last() =~= entries@.take(i as int));
        assert(entries@.take(i + 1).last() == entries@[i as int]);
        let ghost before = out@;
        if is_build_file(&entries[i]) {
            out.push(entries[i].name.clone());
            assert(out@.map_values(|s: String| s@) =~= before.map_values(|s: String| s@).push(
                entries@[i as int].name@,
            ));
        }
        i = i + 1;
    }
    assert(entries@.take(entries@.len() as int) =~= entries@);
    out
}

/// What gzip decoding makes of `bytes`: the decompressed bytes, or none when
/// `bytes` is no valid gzip stream.
pub uninterp spec fn gunzip_of(bytes: Seq<u8>) -> Option<Seq<u8>>;

/// Relies on flate2::read::GzDecoder to decompress a gzip stream held in memory.
#[verifier::external_body]
fn gunzip(bytes: &[u8]) -> (r: Option<Vec<u8>>)
    ensures
        r is Some <==> gunzip_of(bytes@) is Some,
        r is Some ==> r->0@ == gunzip_of(bytes@)->0,
{
    let mut out = Vec::new();
    std::io::Read::read_to_end(&mut flate2::read::GzDecoder::new(bytes), &mut out).ok()?;
    Some(out)
}

/// Decompresses a downloaded archive; a stream that does not decode is a
/// filesystem failure of the source, as no unpacked tree can be trusted.
pub fn decompress_archive(bytes: &Vec<u8>) -> (r: Result<Vec<u8>, SyncError>)
    ensures
        r is Ok <==> gunzip_of(bytes@) is Some,
        r is Ok ==> r->Ok_0@ == gunzip_of(bytes@)->0,
        r is Err ==> r->Err_0 == SyncError::Filesystem,
{
    match gunzip(bytes.as_slice()) {
        Some(out) => Ok(out),
        None => Err(SyncError::Filesystem),
    }
}

} // verus!
