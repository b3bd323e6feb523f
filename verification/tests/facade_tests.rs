use registry_source::registry::{
    DependencyRequirement, DownloadPlan, PackageIdentity, RegistryError, RegistrySource,
    SourceIdentity, SourceKind, UnpackPlan,
};
use registry_source::version::Version;

fn sha256_hex(data: &[u8]) -> Vec<u8> {
    let digest = <sha2::Sha256 as sha2::Digest>::digest(data);
    registry_source::checksum::to_hex(AsRef::<[u8]>::as_ref(&digest))
}

fn test_source() -> RegistrySource {
    let sid = SourceIdentity {
        url: b"https://example.com/index".to_vec(),
        kind: SourceKind::Registry,
    };
    RegistrySource::new(sid, b"/tmp/index", b"/tmp/cache", b"/tmp/src").unwrap()
}

fn identity(rs: &RegistrySource, name: &[u8], vers: Version) -> PackageIdentity {
    PackageIdentity {
        name: name.to_vec(),
        vers,
        source: SourceIdentity {
            url: rs.source_id.url.clone(),
            kind: rs.source_id.kind,
        },
    }
}

fn v(major: u32, minor: u32, patch: u32) -> Version {
    Version { major, minor, patch }
}

fn requirement(name: &[u8], req: &str) -> DependencyRequirement {
    DependencyRequirement::parse(name.to_vec(), req.as_bytes()).unwrap()
}

#[test]
fn new_derives_paths_from_host_and_hash() {
    let rs = test_source();
    let path = String::from_utf8(rs.checkout_path.clone()).unwrap();
    assert!(path.starts_with("/tmp/index/example.com-"));
    let cache = String::from_utf8(rs.cache_path.clone()).unwrap();
    assert!(cache.starts_with("/tmp/cache/example.com-"));
    assert_eq!(&path["/tmp/index".len()..], &cache["/tmp/cache".len()..]);
}

#[test]
fn new_rejects_url_without_host() {
    let sid = SourceIdentity { url: b"not a url".to_vec(), kind: SourceKind::Registry };
    assert!(RegistrySource::new(sid, b"/i", b"/c", b"/s").is_none());
}

#[test]
fn url_prefers_override_and_falls_back_to_default() {
    assert_eq!(RegistrySource::url(Some(b"https://mine")), b"https://mine".to_vec());
    assert_eq!(RegistrySource::url(None), b"https://example.com".to_vec());
    assert_eq!(RegistrySource::default_url(), b"https://example.com".to_vec());
}

#[test]
fn config_decodes_document() {
    let rs = test_source();
    let cfg = rs
        .config(Some(br#"{"dl":"https://dl.example.com/api/v1/crates","api":"https://example.com"}"#))
        .unwrap();
    assert_eq!(cfg.dl, b"https://dl.example.com/api/v1/crates".to_vec());
    assert_eq!(cfg.api, b"https://example.com".to_vec());
}

#[test]
fn config_missing_or_malformed_is_config_missing_error() {
    let rs = test_source();
    assert!(matches!(rs.config(None), Err(RegistryError::ConfigMissingError)));
    assert!(matches!(rs.config(Some(b"{}")), Err(RegistryError::ConfigMissingError)));
}

#[test]
fn update_outcome_maps_failures() {
    let rs = test_source();
    assert!(matches!(rs.update_outcome(false, false), Err(RegistryError::IndexFetchError)));
    assert!(matches!(rs.update_outcome(true, false), Err(RegistryError::IndexIntegrityError)));
    assert!(rs.update_outcome(true, true).is_ok());
}

#[test]
fn refspec_and_tracking_ref_are_fixed() {
    assert_eq!(
        RegistrySource::fetch_refspec(),
        b"refs/heads/*:refs/remotes/origin/*".to_vec()
    );
    assert_eq!(RegistrySource::tracking_ref(), b"refs/remotes/origin/master".to_vec());
}

#[test]
fn query_without_shard_file_is_empty_not_error() {
    let mut rs = test_source();
    let dep = requirement(b"missing", ">=0.0.0");
    let r = rs.query(&dep, None).unwrap();
    assert_eq!(r.len(), 0);
}

#[test]
fn query_fails_whole_shard_on_one_malformed_line() {
    let mut rs = test_source();
    let good = br#"{"name":"sample","vers":"1.0.0","deps":[],"features":{},"cksum":"aa"}"#;
    let mut shard = Vec::new();
    shard.extend_from_slice(good);
    shard.extend_from_slice(b"\nthis is not a record\n");
    let dep = requirement(b"sample", ">=1.0.0");
    match rs.query(&dep, Some(&shard)) {
        Err(RegistryError::MetadataParseError { dependency }) => {
            assert_eq!(dependency, b"sample".to_vec());
        }
        other => panic!("expected MetadataParseError, got {:?}", other.is_ok()),
    }
}

#[test]
fn query_skips_blank_lines_and_filters_by_requirement() {
    let mut rs = test_source();
    let shard = "{\"name\":\"sample\",\"vers\":\"1.0.0\",\"deps\":[],\"features\":{},\"cksum\":\"aa\"}\n  \n{\"name\":\"sample\",\"vers\":\"2.0.0\",\"deps\":[],\"features\":{},\"cksum\":\"bb\"}\n";
    let dep = requirement(b"sample", "<1.5.0");
    let r = rs.query(&dep, Some(shard.as_bytes())).unwrap();
    assert_eq!(r.len(), 1);
    assert_eq!(r[0].identity.name, b"sample".to_vec());
    assert_eq!(r[0].identity.vers, v(1, 0, 0));
}

#[test]
fn download_before_query_fails_fast_with_cache_miss() {
    let mut rs = test_source();
    let id = identity(&rs, b"sample", v(1, 0, 0));
    match rs.accept_download(&id, 200, b"body".to_vec()) {
        Err(RegistryError::ChecksumCacheMiss { name, vers }) => {
            assert_eq!(name, b"sample".to_vec());
            assert_eq!(vers, v(1, 0, 0));
        }
        _ => panic!("expected ChecksumCacheMiss"),
    }
}

#[test]
fn non_success_status_is_transport_error() {
    let mut rs = test_source();
    let id = identity(&rs, b"sample", v(1, 0, 0));
    match rs.accept_download(&id, 404, b"nope".to_vec()) {
        Err(RegistryError::TransportError { status }) => assert_eq!(status, 404),
        _ => panic!("expected TransportError"),
    }
}

#[test]
fn checksum_mismatch_rejects_body_and_leaves_no_cache_entry() {
    let mut rs = test_source();
    let shard = "{\"name\":\"sample\",\"vers\":\"1.0.0\",\"deps\":[],\"features\":{},\"cksum\":\"deadbeef\"}\n";
    let dep = requirement(b"sample", ">=1.0.0");
    rs.query(&dep, Some(shard.as_bytes())).unwrap();
    let id = identity(&rs, b"sample", v(1, 0, 0));
    match rs.accept_download(&id, 200, b"corrupt body".to_vec()) {
        Err(RegistryError::ChecksumMismatch { name, vers }) => {
            assert_eq!(name, b"sample".to_vec());
            assert_eq!(vers, v(1, 0, 0));
        }
        _ => panic!("expected ChecksumMismatch"),
    }
    // Nothing was stored, so the next plan still fetches.
    assert_eq!(rs.plan_download(&id, false), DownloadPlan::Fetch);
}

#[test]
fn verified_download_is_stored_and_checksum_is_case_insensitive() {
    let mut rs = test_source();
    let body = b"the archive bytes";
    let hex = sha256_hex(body);
    let hex_upper: Vec<u8> = hex.iter().map(|b| b.to_ascii_uppercase()).collect();
    let mut shard = Vec::new();
    shard.extend_from_slice(br#"{"name":"sample","vers":"1.0.1","deps":[],"features":{},"cksum":""#);
    shard.extend_from_slice(&hex_upper);
    shard.extend_from_slice(b"\"}\n");
    let dep = requirement(b"sample", ">=1.0.0");
    rs.query(&dep, Some(&shard)).unwrap();
    let id = identity(&rs, b"sample", v(1, 0, 1));
    let stored = rs.accept_download(&id, 200, body.to_vec()).unwrap();
    assert_eq!(stored, body.to_vec());
}

#[test]
fn second_download_performs_no_transfer() {
    let mut rs = test_source();
    let body = b"archive";
    let hex = sha256_hex(body);
    let mut shard = Vec::new();
    shard.extend_from_slice(br#"{"name":"pkg","vers":"0.2.0","deps":[],"features":{},"cksum":""#);
    shard.extend_from_slice(&hex);
    shard.extend_from_slice(b"\"}\n");
    let dep = requirement(b"pkg", ">=0.1.0");
    rs.query(&dep, Some(&shard)).unwrap();
    let id = identity(&rs, b"pkg", v(0, 2, 0));
    assert_eq!(rs.plan_download(&id, false), DownloadPlan::Fetch);
    rs.accept_download(&id, 200, body.to_vec()).unwrap();
    // One network transfer happened; the second call skips it.
    assert_eq!(rs.plan_download(&id, false), DownloadPlan::UseCached);
    // A cache file surviving from an earlier run also skips it.
    assert_eq!(rs.plan_download(&id, true), DownloadPlan::UseCached);
}

#[test]
fn second_unpack_does_no_extraction_work() {
    let mut rs = test_source();
    let id = identity(&rs, b"pkg", v(0, 2, 0));
    assert_eq!(rs.plan_unpack(&id, false), UnpackPlan::Extract);
    rs.finish_unpack(&id);
    assert_eq!(rs.plan_unpack(&id, false), UnpackPlan::AlreadyUnpacked);
    assert_eq!(rs.plan_unpack(&id, true), UnpackPlan::AlreadyUnpacked);
}

#[test]
fn decompress_archive_inverts_gzip() {
    let rs = test_source();
    let original = b"tar archive contents go here".to_vec();
    let mut encoder =
        flate2::write::GzEncoder::new(Vec::new(), flate2::Compression::default());
    std::io::Write::write_all(&mut encoder, &original).unwrap();
    let gz = encoder.finish().unwrap();
    let out = rs.decompress_archive(&gz).unwrap();
    assert_eq!(out, original);
}

#[test]
fn decompress_archive_rejects_garbage() {
    let rs = test_source();
    assert!(matches!(
        rs.decompress_archive(b"definitely not gzip"),
        Err(RegistryError::UnpackError)
    ));
}

#[test]
fn download_url_and_paths_follow_the_layout() {
    let rs = test_source();
    let id = identity(&rs, b"sample", v(1, 0, 1));
    let url = RegistrySource::download_url(b"https://dl.example.com", b"sample", &v(1, 0, 1));
    assert_eq!(url, b"https://dl.example.com/sample/1.0.1/download".to_vec());
    let cache = rs.cache_file_path(&id);
    assert!(cache.ends_with(b"/sample-1.0.1.tar.gz"));
    let dir = rs.unpack_dir(&id);
    assert!(dir.ends_with(b"/sample-1.0.1"));
    let marker = rs.marker_path(&id);
    assert!(marker.ends_with(b"/sample-1.0.1/.cargo-ok"));
}

#[test]
fn fingerprint_is_the_version_string() {
    let rs = test_source();
    let id = identity(&rs, b"sample", v(1, 2, 3));
    assert_eq!(rs.fingerprint(&id), b"1.2.3".to_vec());
}

#[test]
fn belongs_distinguishes_sources() {
    let rs = test_source();
    let id = identity(&rs, b"sample", v(1, 0, 0));
    assert!(rs.belongs(&id));
    let other = PackageIdentity {
        name: b"sample".to_vec(),
        vers: v(1, 0, 0),
        source: SourceIdentity { url: b"https://other.example.com".to_vec(), kind: SourceKind::Registry },
    };
    assert!(!rs.belongs(&other));
}

#[test]
fn registered_sources_accumulate_in_order() {
    let mut rs = test_source();
    rs.register_source(b"/tmp/src/a-1.0.0".to_vec());
    rs.register_source(b"/tmp/src/b-2.0.0".to_vec());
    let dirs = rs.registered_sources();
    assert_eq!(dirs.len(), 2);
    assert_eq!(dirs[0], b"/tmp/src/a-1.0.0".to_vec());
    assert_eq!(dirs[1], b"/tmp/src/b-2.0.0".to_vec());
}

#[test]
fn end_to_end_query_download_unpack() {
    let mut rs = test_source();
    let body = b"pretend this is sample-1.0.1.tar.gz";
    let h1 = sha256_hex(body);
    let h0 = sha256_hex(b"some other content");
    let mut shard = Vec::new();
    shard.extend_from_slice(br#"{"name":"sample","vers":"1.0.0","deps":[],"features":{},"cksum":""#);
    shard.extend_from_slice(&h0);
    shard.extend_from_slice(b"\"}\n");
    shard.extend_from_slice(br#"{"name":"sample","vers":"1.0.1","deps":[],"features":{},"cksum":""#);
    shard.extend_from_slice(&h1);
    shard.extend_from_slice(b"\"}\n");

    let dep = requirement(b"sample", ">=1.0.0, <1.1.0");
    let summaries = rs.query(&dep, Some(&shard)).unwrap();
    assert_eq!(summaries.len(), 2);
    assert_eq!(summaries[0].identity.vers, v(1, 0, 0));
    assert_eq!(summaries[1].identity.vers, v(1, 0, 1));

    let id = identity(&rs, b"sample", v(1, 0, 1));
    assert_eq!(rs.plan_download(&id, false), DownloadPlan::Fetch);
    let verified = rs.accept_download(&id, 200, body.to_vec()).unwrap();
    assert_eq!(verified, body.to_vec());
    assert_eq!(rs.plan_download(&id, false), DownloadPlan::UseCached);

    assert_eq!(rs.plan_unpack(&id, false), UnpackPlan::Extract);
    let dir = rs.unpack_dir(&id);
    assert!(dir.ends_with(b"/sample-1.0.1"));
    rs.finish_unpack(&id);
    rs.register_source(dir.clone());
    assert_eq!(rs.plan_unpack(&id, false), UnpackPlan::AlreadyUnpacked);
    assert!(rs.marker_path(&id).ends_with(b"/sample-1.0.1/.cargo-ok"));
}
