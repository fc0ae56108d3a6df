use champ_sync::catalog::{champion_ids, latest_version, new_source_from, new_sources, DEFAULT_SOURCE_VERSION};
use champ_sync::fetch::{
    build_files, build_url, decompress_archive, direct_urls, extracted_dir, is_build_file,
    scratch_dir, ExtractedEntry, MANIFEST_FILE,
};
use champ_sync::model::{empty_rune_type, Champion, ChampionMapResp, CustomError, Dist, Package, Source};
use champ_sync::normalize::{normalize, normalize_members, prepare_builds};
use champ_sync::resolve::{
    champion_data_url, package_url, resolve_version, strategy_for, Provider, Strategy, SyncError,
};
use champ_sync::store::{BuildTable, NewBuild};
use champ_sync::sync::{step, Action, Event, Phase, RunReport};

const AATROX: &str = r#"[{"index":0,"id":"266","alias":"Aatrox","itemBuilds":[{"title":"core"}],"runes":[{"alias":"Aatrox"}]}]"#;
const AHRI: &str = r#"[{"index":0,"id":"103","alias":"Ahri","itemBuilds":[],"runes":[]},{"index":1,"id":"103","alias":"Ahri","itemBuilds":[],"runes":[]}]"#;

fn package(version: &str, tarball: &str) -> Package {
    Package {
        name: "@champ-r/op-gg".to_string(),
        version: version.to_string(),
        source_version: "13.1".to_string(),
        description: String::new(),
        dist: Dist { tarball: tarball.to_string(), file_count: 3, unpacked_size: 100 },
    }
}

fn new_build(id: &str, alias: &str, version: &str, content: &str) -> NewBuild {
    NewBuild {
        source: "op-gg".to_string(),
        version: version.to_string(),
        champion_alias: alias.to_string(),
        champion_id: id.to_string(),
        content: content.to_string(),
    }
}

#[test]
fn direct_fetch_of_aatrox_is_stored_verbatim() {
    let url = build_url("https://cdn.jsdelivr.net/npm/@champ-r", "op-gg", "10.1.0", "Aatrox");
    assert_eq!(url, "https://cdn.jsdelivr.net/npm/@champ-r/op-gg@10.1.0/Aatrox.json");
    let b = normalize("op-gg", "10.1.0", AATROX).expect("valid payload");
    assert_eq!(b.champion_id, "266");
    assert_eq!(b.champion_alias, "Aatrox");
    assert_eq!(b.source, "op-gg");
    assert_eq!(b.version, "10.1.0");
    assert_eq!(b.content, AATROX);
    let mut t = BuildTable::new();
    assert_eq!(t.upsert_builds(vec![b]), 1);
    assert_eq!(t.rows()[0].content, AATROX);
    let stored: serde_json::Value = serde_json::from_str(&t.rows()[0].content).unwrap();
    let original: serde_json::Value = serde_json::from_str(AATROX).unwrap();
    assert_eq!(stored, original);
}

#[test]
fn unregistered_source_is_skipped_without_fetch() {
    assert_eq!(resolve_version(None, Strategy::Direct).unwrap_err(), SyncError::VersionResolution);
    assert_eq!(resolve_version(None, Strategy::Archive).unwrap_err(), SyncError::VersionResolution);
    let (phase, action) = step(Phase::VersionResolving, Event::VersionFailed);
    assert_eq!(phase, Phase::SkippedOnError(SyncError::VersionResolution));
    assert_eq!(action, Action::Report);
    assert!(phase.is_terminal());
    for e in [Event::Start, Event::VersionResolved, Event::Fetched, Event::Normalized, Event::Stored] {
        assert_eq!(step(phase, e), (phase, Action::Wait));
    }
}

#[test]
fn upsert_twice_gives_same_rows_and_count() {
    let list = vec![new_build("266", "Aatrox", "1", AATROX), new_build("103", "Ahri", "1", AHRI)];
    let mut t = BuildTable::new();
    let again: Vec<NewBuild> = list.iter().map(|b| b.copy()).collect();
    assert_eq!(t.upsert_builds(list), 2);
    let first: Vec<_> = t.rows().iter().map(|r| (r.id, r.content.clone(), r.version.clone())).collect();
    assert_eq!(t.upsert_builds(again), 2);
    let second: Vec<_> = t.rows().iter().map(|r| (r.id, r.content.clone(), r.version.clone())).collect();
    assert_eq!(first, second);
    assert_eq!(t.len(), 2);
}

#[test]
fn conflicting_upsert_updates_row_in_place() {
    let mut t = BuildTable::new();
    t.upsert_builds(vec![new_build("266", "Aatrox", "1.0.0", "[1]"), new_build("103", "Ahri", "1.0.0", "[2]")]);
    let id = t.rows()[0].id;
    assert_eq!(t.upsert_builds(vec![new_build("266", "Aatrox", "2.0.0", "[3]")]), 1);
    assert_eq!(t.len(), 2);
    assert_eq!(t.rows()[0].id, id);
    assert_eq!(t.rows()[0].version, "2.0.0");
    assert_eq!(t.rows()[0].content, "[3]");
    assert_eq!(t.rows()[1].content, "[2]");
}

#[test]
fn new_key_gets_new_row_and_id() {
    let mut t = BuildTable::new();
    t.upsert_builds(vec![new_build("266", "Aatrox", "1", "[1]")]);
    t.upsert_builds(vec![new_build("266", "aatrox", "1", "[2]")]);
    assert_eq!(t.len(), 2);
    assert_eq!(t.rows()[0].id, 1);
    assert_eq!(t.rows()[1].id, 2);
}

#[test]
fn failed_retrieval_adds_nothing() {
    let batch = vec![None, Some(AHRI.to_string())];
    let out = prepare_builds("op-gg", "1.0.0", &batch);
    assert_eq!(out.len(), 1);
    assert_eq!(out[0].champion_alias, "Ahri");
    assert_eq!(out[0].champion_id, "103");
    let mut t = BuildTable::new();
    t.upsert_builds(out);
    assert_eq!(t.len(), 1);
    assert_eq!(t.rows()[0].champion_alias, "Ahri");
}

#[test]
fn malformed_payloads_are_skipped() {
    assert!(normalize("s", "v", "not json").is_none());
    assert!(normalize("s", "v", "[]").is_none());
    assert!(normalize("s", "v", r#"{"id":"1","alias":"A"}"#).is_none());
    assert!(normalize("s", "v", r#"[{"id":"1"}]"#).is_none());
    assert!(normalize("s", "v", r#"[{"alias":"A"}]"#).is_none());
    assert!(normalize("s", "v", r#"[{"id":1,"alias":"A"}]"#).is_none());
    let batch = vec![Some("oops".to_string()), Some(AATROX.to_string()), None];
    let out = prepare_builds("s", "v", &batch);
    assert_eq!(out.len(), 1);
    assert_eq!(out[0].champion_id, "266");
}

#[test]
fn identity_comes_from_first_variant() {
    let text = r#"[{"id":"1","alias":"A"},{"id":"2","alias":"B"}]"#;
    let b = normalize("s", "v", text).unwrap();
    assert_eq!((b.champion_id.as_str(), b.champion_alias.as_str()), ("1", "A"));
    assert_eq!(b.content, text);
}

#[test]
fn members_given_directly() {
    let ids = Some(vec![Some("7".to_string())]);
    let aliases = Some(vec![Some("Zed".to_string()), None]);
    let b = normalize_members("s", "v", "[..]", &ids, &aliases).unwrap();
    assert_eq!(b.champion_id, "7");
    assert_eq!(b.champion_alias, "Zed");
    assert_eq!(b.content, "[..]");
    assert!(normalize_members("s", "v", "x", &None, &aliases).is_none());
    assert!(normalize_members("s", "v", "x", &Some(vec![None]), &aliases).is_none());
    assert!(normalize_members("s", "v", "x", &Some(vec![]), &aliases).is_none());
}

#[test]
fn resolution_by_strategy() {
    let r = resolve_version(Some(package("10.1.0", "https://x/y.tgz")), Strategy::Archive).unwrap();
    assert_eq!(r.version, "10.1.0");
    assert_eq!(r.artifact.as_deref(), Some("https://x/y.tgz"));
    let r = resolve_version(Some(package("10.1.0", "")), Strategy::Direct).unwrap();
    assert_eq!(r.version, "10.1.0");
    assert!(r.artifact.is_none());
    assert_eq!(
        resolve_version(Some(package("10.1.0", "")), Strategy::Archive).unwrap_err(),
        SyncError::VersionResolution
    );
    assert_eq!(
        resolve_version(Some(package("", "https://x")), Strategy::Direct).unwrap_err(),
        SyncError::VersionResolution
    );
}

#[test]
fn strategy_lookup() {
    let providers = vec![
        Provider { source: "op-gg".to_string(), strategy: Strategy::Direct },
        Provider { source: "op-gg".to_string(), strategy: Strategy::Archive },
        Provider { source: "lolalytics".to_string(), strategy: Strategy::Archive },
    ];
    assert_eq!(strategy_for(&providers, &"op-gg".to_string()), Strategy::Direct);
    assert_eq!(strategy_for(&providers, &"lolalytics".to_string()), Strategy::Archive);
    assert_eq!(strategy_for(&providers, &"u-gg".to_string()), Strategy::Archive);
    assert_eq!(strategy_for(&vec![], &"u-gg".to_string()), Strategy::Archive);
}

#[test]
fn urls() {
    assert_eq!(
        package_url("https://registry.npmjs.org/@champ-r", "op-gg"),
        "https://registry.npmjs.org/@champ-r/op-gg/latest"
    );
    assert_eq!(
        champion_data_url("http://ddragon.leagueoflegends.com", "13.1.1"),
        "http://ddragon.leagueoflegends.com/cdn/13.1.1/data/en_US/champion.json"
    );
    let urls = direct_urls("c", "s", "1", &vec!["A".to_string(), "B".to_string()]);
    assert_eq!(urls, vec!["c/s@1/A.json".to_string(), "c/s@1/B.json".to_string()]);
    assert!(direct_urls("c", "s", "1", &vec![]).is_empty());
}

#[test]
fn scratch_paths_are_source_scoped() {
    let dir = scratch_dir("./output", "op-gg");
    assert_eq!(dir, "./output/op-gg");
    assert_eq!(extracted_dir(&dir), "./output/op-gg/package");
}

#[test]
fn manifest_is_not_read() {
    let entries = vec![
        ExtractedEntry { name: "Aatrox.json".to_string(), is_file: true },
        ExtractedEntry { name: MANIFEST_FILE.to_string(), is_file: true },
        ExtractedEntry { name: "nested".to_string(), is_file: false },
        ExtractedEntry { name: "Ahri.json".to_string(), is_file: true },
    ];
    assert!(!is_build_file(&entries[1]));
    assert!(!is_build_file(&entries[2]));
    assert!(is_build_file(&entries[0]));
    assert_eq!(build_files(&entries), vec!["Aatrox.json".to_string(), "Ahri.json".to_string()]);
}

#[test]
fn archive_decompresses() {
    let mut enc = flate2::write::GzEncoder::new(Vec::new(), flate2::Compression::default());
    std::io::Write::write_all(&mut enc, b"tar bytes here").unwrap();
    let gz = enc.finish().unwrap();
    assert_eq!(decompress_archive(&gz).unwrap(), b"tar bytes here".to_vec());
    assert_eq!(decompress_archive(&b"plain".to_vec()).unwrap_err(), SyncError::Filesystem);
}

#[test]
fn catalog_rows() {
    let list = vec![
        Source { label: "OP.GG".to_string(), value: "op-gg".to_string(), is_aram: None, is_urf: Some(false) },
        Source { label: "U.GG".to_string(), value: "u-gg".to_string(), is_aram: Some(true), is_urf: None },
    ];
    let one = new_source_from(&list[0]);
    assert_eq!((one.name.as_str(), one.source.as_str(), one.version.as_str()), ("OP.GG", "op-gg", "1.0.0"));
    let rows = new_sources(&list);
    assert_eq!(rows.len(), 2);
    assert_eq!(rows[1].name, "U.GG");
    assert_eq!(rows[1].source, "u-gg");
    assert_eq!(rows[1].version, DEFAULT_SOURCE_VERSION);
    assert!(new_sources(&vec![]).is_empty());
}

#[test]
fn roster_and_versions() {
    assert_eq!(latest_version(&vec!["13.2.1".to_string(), "13.1.1".to_string()]).unwrap(), "13.2.1");
    assert!(latest_version(&vec![]).is_none());
    let champ = |id: &str, key: &str| Champion {
        version: "13.2.1".to_string(),
        id: id.to_string(),
        key: key.to_string(),
        name: id.to_string(),
        title: String::new(),
    };
    let roster = ChampionMapResp {
        type_field: "champion".to_string(),
        format: "standAloneComplex".to_string(),
        version: "13.2.1".to_string(),
        data: vec![champ("Aatrox", "266"), champ("Ahri", "103")],
    };
    assert_eq!(champion_ids(&roster), vec!["Aatrox".to_string(), "Ahri".to_string()]);
}

#[test]
fn full_source_lifecycle() {
    let mut phase = Phase::Idle;
    let mut actions = Vec::new();
    for e in [Event::Start, Event::VersionResolved, Event::Fetched, Event::Normalized, Event::Stored] {
        let (p, a) = step(phase, e);
        phase = p;
        actions.push(a);
    }
    assert_eq!(phase, Phase::Done);
    assert_eq!(
        actions,
        vec![Action::ResolveVersion, Action::Fetch, Action::Normalize, Action::Upsert, Action::Report]
    );
    assert_eq!(step(Phase::Fetching, Event::FetchFailed).0, Phase::SkippedOnError(SyncError::Filesystem));
    assert_eq!(step(Phase::Upserting, Event::StoreFailed).0, Phase::SkippedOnError(SyncError::Storage));
    assert_eq!(step(Phase::Fetching, Event::DownloadFailed).0, Phase::SkippedOnError(SyncError::Network));
    assert_eq!(step(Phase::Fetching, Event::DownloadFailed).1, Action::Report);
    assert_eq!(step(Phase::Idle, Event::Stored), (Phase::Idle, Action::Wait));
}

#[test]
fn run_report_counts_failures() {
    let mut r = RunReport::new();
    assert!(!r.all_failed());
    r.record_skipped("a".to_string(), SyncError::VersionResolution);
    assert!(r.all_failed());
    r.record_done("b".to_string(), 12);
    r.record_skipped("c".to_string(), SyncError::Storage);
    assert_eq!(r.failure_count(), 2);
    assert!(!r.all_failed());
    assert_eq!(r.outcomes().len(), 3);
    assert_eq!(r.outcomes()[1].result, Ok(12));
}

#[test]
fn error_responses() {
    assert_eq!(CustomError::BadRequest.status_code(), 400);
    assert_eq!(CustomError::InternalServerError.status_code(), 500);
    assert_eq!(CustomError::BadRequest.message(), "Bad Request");
    assert_eq!(CustomError::InternalServerError.message(), "Internal Server Error");
    assert_eq!(empty_rune_type(), "");
}
