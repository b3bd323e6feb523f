use registry_source::codec::{encode_record, parse_record};
use registry_source::shard::shard_path;
use registry_source::version::{e_req, parse_req, render_req, CmpOp, Comparator, Version};

fn v(major: u32, minor: u32, patch: u32) -> Version {
    Version { major, minor, patch }
}

#[test]
fn shard_path_matches_the_table_for_every_class() {
    assert_eq!(shard_path(b"a"), b"1/a".to_vec());
    assert_eq!(shard_path(b"ab"), b"2/ab".to_vec());
    assert_eq!(shard_path(b"abc"), b"3/a/abc".to_vec());
    assert_eq!(shard_path(b"abcd"), b"ab/cd/abcd".to_vec());
    assert_eq!(shard_path(b"sample"), b"sa/mp/sample".to_vec());
}

#[test]
fn requirement_parsing_and_matching() {
    let req = parse_req(b">=1.0.0, <1.1.0").unwrap();
    assert_eq!(req.len(), 2);
    assert_eq!(req[0], Comparator { op: CmpOp::GreaterEq, version: v(1, 0, 0) });
    assert_eq!(req[1], Comparator { op: CmpOp::Less, version: v(1, 1, 0) });
    // A bare version means an exact match.
    let exact = parse_req(b"2.3.4").unwrap();
    assert_eq!(exact[0], Comparator { op: CmpOp::Exact, version: v(2, 3, 4) });
}

#[test]
fn requirement_grammar_rejects_malformed_text() {
    assert!(parse_req(b"").is_none());
    assert!(parse_req(b">=1.0").is_none());
    assert!(parse_req(b"01.2.3").is_none());
    assert!(parse_req(b"1.2.3, ").is_none());
    assert!(parse_req(b"1.2.3 trailing").is_none());
}

#[test]
fn requirement_round_trips_through_its_rendering() {
    let req = parse_req(b">=1.0.0, <2.0.0, 1.5.0").unwrap();
    let text = render_req(&req);
    assert_eq!(text, b">=1.0.0, <2.0.0, =1.5.0".to_vec());
    let again = parse_req(&text).unwrap();
    assert_eq!(req, again);
}

#[test]
fn version_components_are_bounded_and_canonical() {
    assert!(parse_req(b"999999999.0.1").is_some());
    // Ten digits in one component exceed the format.
    assert!(parse_req(b"1000000000.0.1").is_none());
    assert!(e_req(b"=0.0.0").is_some());
}

#[test]
fn metadata_line_decodes_every_field() {
    let line = "{\"name\":\"sample\",\"vers\":\"1.2.3\",\"deps\":[{\"name\":\"libc\",\"req\":\">=0.1.0\",\"features\":[\"extra\"],\"optional\":false,\"default_features\":true,\"target\":null},{\"name\":\"winlib\",\"req\":\"=0.2.0\",\"features\":[],\"optional\":true,\"default_features\":false,\"target\":\"windows\"}],\"features\":{\"default\":[\"libc\"],\"full\":[\"libc\",\"more\"]},\"cksum\":\"abcdef012345\"}";
    let rec = parse_record(line.as_bytes()).unwrap();
    assert_eq!(rec.name, b"sample".to_vec());
    assert_eq!(rec.vers, v(1, 2, 3));
    assert_eq!(rec.deps.len(), 2);
    assert_eq!(rec.deps[0].name, b"libc".to_vec());
    assert_eq!(rec.deps[0].req[0], Comparator { op: CmpOp::GreaterEq, version: v(0, 1, 0) });
    assert_eq!(rec.deps[0].features, vec![b"extra".to_vec()]);
    assert!(!rec.deps[0].optional);
    assert!(rec.deps[0].default_features);
    assert!(rec.deps[0].target.is_none());
    assert_eq!(rec.deps[1].target.as_deref(), Some(b"windows".as_slice()));
    assert_eq!(rec.features.len(), 2);
    assert_eq!(rec.features[0].name, b"default".to_vec());
    assert_eq!(rec.features[1].enables, vec![b"libc".to_vec(), b"more".to_vec()]);
    assert_eq!(rec.cksum, b"abcdef012345".to_vec());
}

#[test]
fn metadata_line_round_trips_through_the_reference_encoder() {
    let line = "{\"name\":\"sample\",\"vers\":\"1.0.1\",\"deps\":[{\"name\":\"dep\",\"req\":\">=0.4.0\",\"features\":[\"a\",\"b\"],\"optional\":true,\"default_features\":true,\"target\":\"cfg(unix)\"}],\"features\":{\"extra\":[\"dep\"]},\"cksum\":\"00ff\"}";
    let first = parse_record(line.as_bytes()).unwrap();
    let encoded = encode_record(&first);
    assert_eq!(encoded, line.as_bytes().to_vec());
    let second = parse_record(&encoded).unwrap();
    assert_eq!(second.name, first.name);
    assert_eq!(second.vers, first.vers);
    assert_eq!(second.deps.len(), first.deps.len());
    assert_eq!(second.deps[0].name, first.deps[0].name);
    assert_eq!(second.deps[0].req, first.deps[0].req);
    assert_eq!(second.deps[0].features, first.deps[0].features);
    assert_eq!(second.deps[0].optional, first.deps[0].optional);
    assert_eq!(second.deps[0].default_features, first.deps[0].default_features);
    assert_eq!(second.deps[0].target, first.deps[0].target);
    assert_eq!(second.features.len(), first.features.len());
    assert_eq!(second.features[0].name, first.features[0].name);
    assert_eq!(second.features[0].enables, first.features[0].enables);
    assert_eq!(second.cksum, first.cksum);
}

#[test]
fn malformed_lines_are_rejected() {
    assert!(parse_record(b"").is_none());
    assert!(parse_record(b"not json at all").is_none());
    // Truncated record.
    assert!(parse_record(br#"{"name":"sample","vers":"1.0.0""#).is_none());
    // Trailing bytes after the record.
    let line = br#"{"name":"a","vers":"1.0.0","deps":[],"features":{},"cksum":"aa"} extra"#;
    assert!(parse_record(line).is_none());
    // A string with a backslash escape is outside the format.
    let esc = br#"{"name":"a\b","vers":"1.0.0","deps":[],"features":{},"cksum":"aa"}"#;
    assert!(parse_record(esc).is_none());
}

#[test]
fn hex_rendering_is_lowercase_two_digits_per_byte() {
    assert_eq!(registry_source::checksum::to_hex(&[0x00, 0xff, 0x1a]), b"00ff1a".to_vec());
    assert_eq!(registry_source::checksum::to_hex(&[]), b"".to_vec());
}
