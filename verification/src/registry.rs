//! The registry source facade: it owns the identity-derived on-disk layout,
//! decodes shard files into version summaries while populating the checksum
//! cache, verifies downloads against that cache, and tracks which archives
//! are already cached or unpacked so repeated calls skip finished work.
//!
//! All I/O (git synchronization, HTTP transfer, extraction) happens outside;
//! the facade's methods take the outcome of each outside step as plain values
//! and decide what happens next.
use vstd::prelude::*;
use crate::version::{Version, Comparator, req_matches, enc_version, p_req, e_dec, dec, matches_req};
use crate::codec::{
    WireRecord, WireDependency, FeatureEntry, DepView, RecordView, p_record, parse_record,
    p_config, bytes_views, record_wf, enc_record,
};
use crate::checksum::{checksum_ok, checksum_matches};
use crate::bytes::{bytes_eq, push_all, copy_bytes};

verus! {

// ---------------------------------------------------------------------------
// Identities and domain types
// ---------------------------------------------------------------------------

/// What kind of source an identity refers to.
#[derive(Clone, Copy, PartialEq, Eq, Structural, Debug)]
pub enum SourceKind {
    Registry,
    Git,
    Path,
}

/// Immutable identifier of a source: its URL and kind.
pub struct SourceIdentity {
    pub url: Vec<u8>,
    pub kind: SourceKind,
}

pub ghost struct SourceIdView {
    pub url: Seq<u8>,
    pub kind: SourceKind,
}

impl View for SourceIdentity {
    type V = SourceIdView;

    open spec fn view(&self) -> SourceIdView {
        SourceIdView { url: self.url@, kind: self.kind }
    }
}

/// Unique key of a published artifact: name, version and source.
pub struct PackageIdentity {
    pub name: Vec<u8>,
    pub vers: Version,
    pub source: SourceIdentity,
}

pub ghost struct PackageIdView {
    pub name: Seq<u8>,
    pub vers: Version,
    pub source: SourceIdView,
}

impl View for PackageIdentity {
    type V = PackageIdView;

    open spec fn view(&self) -> PackageIdView {
        PackageIdView { name: self.name@, vers: self.vers, source: self.source@ }
    }
}

/// A resolver query: a package name and a version requirement, with the
/// feature and target filters the resolver may carry.  The filters take no
/// part in version matching here; acting on the target filter is an open
/// question left to the caller.
pub struct DependencyRequirement {
    pub name: Vec<u8>,
    pub req: Vec<Comparator>,
    pub features: Vec<Vec<u8>>,
    pub target: Option<Vec<u8>>,
}

/// One published version in queryable form.
pub struct VersionSummary {
    pub identity: PackageIdentity,
    pub deps: Vec<WireDependency>,
    pub features: Vec<FeatureEntry>,
}

pub ghost struct SummaryView {
    pub identity: PackageIdView,
    pub deps: Seq<DepView>,
    pub features: Seq<(Seq<u8>, Seq<Seq<u8>>)>,
}

impl View for VersionSummary {
    type V = SummaryView;

    open spec fn view(&self) -> SummaryView {
        SummaryView {
            identity: self.identity@,
            deps: self.deps@.map_values(|d: WireDependency| d@),
            features: self.features@.map_values(|f: FeatureEntry| f@),
        }
    }
}

/// The registry's hosted configuration document: download and API bases.
pub struct RegistryConfig {
    pub dl: Vec<u8>,
    pub api: Vec<u8>,
}

/// Everything that can go wrong in this layer.
#[derive(Debug)]
pub enum RegistryError {
    IndexOpenError,
    IndexFetchError,
    IndexIntegrityError,
    MetadataParseError { dependency: Vec<u8> },
    ConfigMissingError,
    TransportError { status: u32 },
    ChecksumCacheMiss { name: Vec<u8>, vers: Version },
    ChecksumMismatch { name: Vec<u8>, vers: Version },
    UnpackError,
}

// ---------------------------------------------------------------------------
// The checksum cache: (name, version) to expected hex checksum
// ---------------------------------------------------------------------------

/// One checksum-cache entry.
pub struct ChecksumEntry {
    pub name: Vec<u8>,
    pub vers: Version,
    pub cksum: Vec<u8>,
}

impl View for ChecksumEntry {
    type V = (Seq<u8>, Version, Seq<u8>);

    open spec fn view(&self) -> (Seq<u8>, Version, Seq<u8>) {
        (self.name@, self.vers, self.cksum@)
    }
}

/// The checksum recorded for (name, version): the most recently inserted
/// entry wins, as in a map overwritten on insert.
pub open spec fn lookup_hash(
    entries: Seq<(Seq<u8>, Version, Seq<u8>)>,
    name: Seq<u8>,
    v: Version,
) -> Option<Seq<u8>>
    decreases entries.len(),
{
    if entries.len() == 0 {
        None
    } else if entries.last().0 == name && entries.last().1 == v {
        Some(entries.last().2)
    } else {
        lookup_hash(entries.drop_last(), name, v)
    }
}

fn find_hash(entries: &Vec<ChecksumEntry>, name: &[u8], v: &Version) -> (r: Option<Vec<u8>>)
    ensures
        match r {
            Some(c) => lookup_hash(entries@.map_values(|e: ChecksumEntry| e@), name@, *v)
                == Some(c@),
            None => lookup_hash(entries@.map_values(|e: ChecksumEntry| e@), name@, *v) is None,
        },
{
    let ghost all = entries@.map_values(|e: ChecksumEntry| e@);
    assert(all.take(entries@.len() as int) =~= all);
    let mut i: usize = entries.len();
    while i > 0
        invariant
            0 <= i <= entries@.len(),
            all == entries@.map_values(|e: ChecksumEntry| e@),
            lookup_hash(all, name@, *v) == lookup_hash(all.take(i as int), name@, *v),
        decreases i,
    {
        i -= 1;
        let e = &entries[i];
        proof {
            assert(all.take(i + 1).drop_last() =~= all.take(i as int));
            assert(all.take(i + 1).last() == all[i as int]);
        }
        if bytes_eq(e.name.as_slice(), name) && e.vers.major == v.major && e.vers.minor == v.minor
            && e.vers.patch == v.patch {
            return Some(copy_bytes(e.cksum.as_slice()));
        }
    }
    assert(all.take(0) =~= Seq::<(Seq<u8>, Version, Seq<u8>)>::empty());
    None
}

// ---------------------------------------------------------------------------
// Shard file contents: lines, blank lines, record decoding
// ---------------------------------------------------------------------------

/// Index of the first newline, or the length if there is none.
pub open spec fn nl_idx(s: Seq<u8>) -> int
    decreases s.len(),
{
    if s.len() == 0 {
        0
    } else if s[0] == 10 {
        0
    } else {
        1 + nl_idx(s.skip(1))
    }
}

proof fn lemma_nl_idx_split(s: Seq<u8>, j: int)
    requires
        0 <= j <= s.len(),
        forall|k: int| 0 <= k < j ==> s[k] != 10,
        j == s.len() || s[j] == 10,
    ensures
        nl_idx(s) == j,
    decreases j,
{
    if j == 0 {
    } else {
        lemma_nl_idx_split(s.skip(1), j - 1);
        if j < s.len() {
            assert(s.skip(1)[j - 1] == s[j]);
        }
    }
}

/// The lines of a shard file, split on newline bytes.
pub open spec fn split_lines(s: Seq<u8>) -> Seq<Seq<u8>>
    decreases s.len(),
{
    if s.len() == 0 {
        Seq::empty()
    } else {
        let j = nl_idx(s);
        if 0 <= j && j < s.len() {
            seq![s.take(j)] + split_lines(s.skip(j + 1))
        } else {
            seq![s]
        }
    }
}

/// A line of only spaces, tabs and carriage returns, or nothing at all.
pub open spec fn is_blank(l: Seq<u8>) -> bool {
    forall|i: int| 0 <= i < l.len() ==> l[i] == 32 || l[i] == 9 || (#[trigger] l[i]) == 13
}

/// The lines that carry content, in order.
pub open spec fn nonblank(ls: Seq<Seq<u8>>) -> Seq<Seq<u8>>
    decreases ls.len(),
{
    if ls.len() == 0 {
        Seq::empty()
    } else if is_blank(ls.last()) {
        nonblank(ls.drop_last())
    } else {
        nonblank(ls.drop_last()) + seq![ls.last()]
    }
}

/// Decode every line, failing if any single line is malformed.
pub open spec fn decode_lines(ls: Seq<Seq<u8>>) -> Option<Seq<RecordView>>
    decreases ls.len(),
{
    if ls.len() == 0 {
        Some(Seq::empty())
    } else {
        match decode_lines(ls.drop_last()) {
            None => None,
            Some(rs) => match p_record(ls.last()) {
                None => None,
                Some(r) => Some(rs.push(r)),
            },
        }
    }
}

proof fn lemma_decode_prefix_none(ls: Seq<Seq<u8>>, i: int)
    requires
        0 <= i <= ls.len(),
        decode_lines(ls.take(i)) is None,
    ensures
        decode_lines(ls) is None,
    decreases ls.len() - i,
{
    if i == ls.len() {
        assert(ls.take(i) =~= ls);
    } else {
        assert(ls.take(i + 1).drop_last() =~= ls.take(i));
        lemma_decode_prefix_none(ls, i + 1);
    }
}

fn e_nl_idx(s: &[u8]) -> (r: usize)
    ensures
        r as int == nl_idx(s@),
        0 <= r <= s@.len(),
{
    let mut j: usize = 0;
    while j < s.len() && s[j] != 10
        invariant
            0 <= j <= s@.len(),
            forall|k: int| 0 <= k < j ==> s@[k] != 10,
        decreases s@.len() - j,
    {
        j += 1;
    }
    proof {
        lemma_nl_idx_split(s@, j as int);
    }
    j
}

fn split_into_lines(c: &[u8]) -> (r: Vec<Vec<u8>>)
    ensures
        bytes_views(r@) == split_lines(c@),
    decreases c@.len(),
{
    if c.len() == 0 {
        let r: Vec<Vec<u8>> = Vec::new();
        assert(bytes_views(r@) =~= split_lines(c@));
        r
    } else {
        let j = e_nl_idx(c);
        if j < c.len() {
            let (head, _) = c.split_at(j);
            let line = copy_bytes(head);
            assert(line@ =~= c@.take(j as int));
            let tail = crate::version::slice_skip(c, j + 1);
            let mut rest = split_into_lines(tail);
            let ghost pre = rest@;
            rest.insert(0, line);
            proof {
                assert(rest@ =~= seq![line] + pre);
                assert(bytes_views(rest@) =~= seq![c@.take(j as int)] + bytes_views(pre));
            }
            rest
        } else {
            let mut r: Vec<Vec<u8>> = Vec::new();
            r.push(copy_bytes(c));
            assert(bytes_views(r@) =~= seq![c@]);
            r
        }
    }
}

fn e_is_blank(l: &[u8]) -> (r: bool)
    ensures
        r == is_blank(l@),
{
    let mut i: usize = 0;
    while i < l.len()
        invariant
            0 <= i <= l@.len(),
            forall|k: int| 0 <= k < i ==> l@[k] == 32 || l@[k] == 9 || (#[trigger] l@[k]) == 13,
        decreases l@.len() - i,
    {
        let b = l[i];
        if !(b == 32 || b == 9 || b == 13) {
            return false;
        }
        i += 1;
    }
    true
}

// ---------------------------------------------------------------------------
// Fixed strings of the layer
// ---------------------------------------------------------------------------

/// The byte string `https://example.com`.
pub open spec fn lit_central_url() -> Seq<u8> {
    seq![104u8, 116, 116, 112, 115, 58, 47, 47, 101, 120, 97, 109, 112, 108, 101, 46, 99, 111, 109]
}

fn x_central_url() -> (r: Vec<u8>)
    ensures
        r@ == lit_central_url(),
{
    let mut v: Vec<u8> = Vec::new();
    v.push(104);
    v.push(116);
    v.push(116);
    v.push(112);
    v.push(115);
    v.push(58);
    v.push(47);
    v.push(47);
    v.push(101);
    v.push(120);
    v.push(97);
    v.push(109);
    v.push(112);
    v.push(108);
    v.push(101);
    v.push(46);
    v.push(99);
    v.push(111);
    v.push(109);
    assert(v@ =~= lit_central_url());
    v
}

/// The byte string `refs/heads/*:refs/remotes/origin/*`.
pub open spec fn lit_fetch_refspec_text() -> Seq<u8> {
    seq![114u8, 101, 102, 115, 47, 104, 101, 97, 100, 115, 47, 42, 58, 114, 101, 102, 115, 47, 114, 101, 109, 111, 116, 101, 115, 47, 111, 114, 105, 103, 105, 110, 47, 42]
}

fn x_fetch_refspec_text() -> (r: Vec<u8>)
    ensures
        r@ == lit_fetch_refspec_text(),
{
    let mut v: Vec<u8> = Vec::new();
    v.push(114);
    v.push(101);
    v.push(102);
    v.push(115);
    v.push(47);
    v.push(104);
    v.push(101);
    v.push(97);
    v.push(100);
    v.push(115);
    v.push(47);
    v.push(42);
    v.push(58);
    v.push(114);
    v.push(101);
    v.push(102);
    v.push(115);
    v.push(47);
    v.push(114);
    v.push(101);
    v.push(109);
    v.push(111);
    v.push(116);
    v.push(101);
    v.push(115);
    v.push(47);
    v.push(111);
    v.push(114);
    v.push(105);
    v.push(103);
    v.push(105);
    v.push(110);
    v.push(47);
    v.push(42);
    assert(v@ =~= lit_fetch_refspec_text());
    v
}

/// The byte string `refs/remotes/origin/master`.
pub open spec fn lit_tracking_ref_text() -> Seq<u8> {
    seq![114u8, 101, 102, 115, 47, 114, 101, 109, 111, 116, 101, 115, 47, 111, 114, 105, 103, 105, 110, 47, 109, 97, 115, 116, 101, 114]
}

fn x_tracking_ref_text() -> (r: Vec<u8>)
    ensures
        r@ == lit_tracking_ref_text(),
{
    let mut v: Vec<u8> = Vec::new();
    v.push(114);
    v.push(101);
    v.push(102);
    v.push(115);
    v.push(47);
    v.push(114);
    v.push(101);
    v.push(109);
    v.push(111);
    v.push(116);
    v.push(101);
    v.push(115);
    v.push(47);
    v.push(111);
    v.push(114);
    v.push(105);
    v.push(103);
    v.push(105);
    v.push(110);
    v.push(47);
    v.push(109);
    v.push(97);
    v.push(115);
    v.push(116);
    v.push(101);
    v.push(114);
    assert(v@ =~= lit_tracking_ref_text());
    v
}

/// The byte string `/download`.
pub open spec fn lit_download_segment() -> Seq<u8> {
    seq![47u8, 100, 111, 119, 110, 108, 111, 97, 100]
}

fn x_download_segment() -> (r: Vec<u8>)
    ensures
        r@ == lit_download_segment(),
{
    let mut v: Vec<u8> = Vec::new();
    v.push(47);
    v.push(100);
    v.push(111);
    v.push(119);
    v.push(110);
    v.push(108);
    v.push(111);
    v.push(97);
    v.push(100);
    assert(v@ =~= lit_download_segment());
    v
}

/// The byte string `.tar.gz`.
pub open spec fn lit_archive_suffix() -> Seq<u8> {
    seq![46u8, 116, 97, 114, 46, 103, 122]
}

fn x_archive_suffix() -> (r: Vec<u8>)
    ensures
        r@ == lit_archive_suffix(),
{
    let mut v: Vec<u8> = Vec::new();
    v.push(46);
    v.push(116);
    v.push(97);
    v.push(114);
    v.push(46);
    v.push(103);
    v.push(122);
    assert(v@ =~= lit_archive_suffix());
    v
}

/// The byte string `/.cargo-ok`.
pub open spec fn lit_marker_name() -> Seq<u8> {
    seq![47u8, 46, 99, 97, 114, 103, 111, 45, 111, 107]
}

fn x_marker_name() -> (r: Vec<u8>)
    ensures
        r@ == lit_marker_name(),
{
    let mut v: Vec<u8> = Vec::new();
    v.push(47);
    v.push(46);
    v.push(99);
    v.push(97);
    v.push(114);
    v.push(103);
    v.push(111);
    v.push(45);
    v.push(111);
    v.push(107);
    assert(v@ =~= lit_marker_name());
    v
}
// ---------------------------------------------------------------------------
// Trusted views of the outside world
// ---------------------------------------------------------------------------

/// The host of a URL as the outside URL library parses it: `None` when the
/// text is not a valid URL or has no host; a fixed function of the text.
pub uninterp spec fn url_host_of(u: Seq<u8>) -> Option<Seq<u8>>;

/// Relies on url's `Url::parse` and `Url::host_str`: parsing and host
/// extraction depend on the URL text alone.
#[verifier::external_body]
fn url_host(u: &[u8]) -> (r: Option<Vec<u8>>)
    ensures
        match r {
            Some(h) => url_host_of(u@) == Some(h@),
            None => url_host_of(u@) is None,
        },
{
    let text = match core::str::from_utf8(u) {
        Ok(t) => t,
        Err(_) => { return None; },
    };
    let parsed = match url::Url::parse(text) {
        Ok(p) => p,
        Err(_) => { return None; },
    };
    parsed.host_str().map(|h| h.as_bytes().to_vec())
}

/// What the gzip stream decompresses to: `None` when the bytes are not a
/// well-formed gzip stream; a fixed function of the bytes.
pub uninterp spec fn gunzip_of(data: Seq<u8>) -> Option<Seq<u8>>;

/// Relies on flate2's `read::GzDecoder`: decompression depends on the input
/// bytes alone.
#[verifier::external_body]
fn gunzip(data: &[u8]) -> (r: Option<Vec<u8>>)
    ensures
        match r {
            Some(o) => gunzip_of(data@) == Some(o@),
            None => gunzip_of(data@) is None,
        },
{
    let mut decoder = flate2::read::GzDecoder::new(data);
    let mut out: Vec<u8> = Vec::new();
    match std::io::Read::read_to_end(&mut decoder, &mut out) {
        Ok(_) => Some(out),
        Err(_) => None,
    }
}

// ---------------------------------------------------------------------------
// Identity-derived layout
// ---------------------------------------------------------------------------

/// Tag byte distinguishing source kinds inside the identity hash input.
pub open spec fn kind_byte(k: SourceKind) -> u8 {
    match k {
        SourceKind::Registry => 114,
        SourceKind::Git => 103,
        SourceKind::Path => 112,
    }
}

/// The bytes hashed to namespace one source identity.
pub open spec fn hash_input(sid: SourceIdView) -> Seq<u8> {
    seq![kind_byte(sid.kind)] + sid.url
}

/// One step of the identity hash: multiply by 31 and add the next byte,
/// modulo two to the thirty-two.
pub open spec fn hash32_step(h: u32, b: u8) -> u32 {
    (((h * 31) + b) % 0x1_0000_0000) as u32
}

/// Short identity hash over a byte string.
pub open spec fn hash32(s: Seq<u8>) -> u32
    decreases s.len(),
{
    if s.len() == 0 {
        17
    } else {
        hash32_step(hash32(s.drop_last()), s.last())
    }
}

fn e_hash32(s: &[u8]) -> (r: u32)
    ensures
        r == hash32(s@),
{
    let mut h: u32 = 17;
    let mut i: usize = 0;
    while i < s.len()
        invariant
            0 <= i <= s@.len(),
            h == hash32(s@.take(i as int)),
        decreases s@.len() - i,
    {
        proof {
            assert(s@.take(i + 1).drop_last() =~= s@.take(i as int));
            assert(s@.take(i + 1).last() == s@[i as int]);
        }
        let wide: u64 = h as u64 * 31 + s[i] as u64;
        h = (wide % 0x1_0000_0000) as u32;
        i += 1;
    }
    assert(s@.take(s@.len() as int) =~= s@);
    h
}

/// A base directory joined with one more component.
pub open spec fn joined(base: Seq<u8>, part: Seq<u8>) -> Seq<u8> {
    base + seq![47u8] + part
}

fn join_path(base: &[u8], part: &[u8]) -> (r: Vec<u8>)
    ensures
        r@ == joined(base@, part@),
{
    let mut out = copy_bytes(base);
    out.push(47);
    push_all(&mut out, part);
    assert(out@ =~= joined(base@, part@));
    out
}

/// The directory component that namespaces one registry: its URL's host and
/// a short hash of the whole identity.
pub open spec fn ident_part(host: Seq<u8>, sid: SourceIdView) -> Seq<u8> {
    host + seq![45u8] + dec(hash32(hash_input(sid)) as nat)
}

/// A fresh copy of a source identity.
pub fn dup_source(s: &SourceIdentity) -> (r: SourceIdentity)
    ensures
        r@ == s@,
{
    SourceIdentity { url: copy_bytes(s.url.as_slice()), kind: s.kind }
}

// ---------------------------------------------------------------------------
// The facade
// ---------------------------------------------------------------------------

/// A registry source instance: identity, derived paths, the checksum cache,
/// and the record of work already finished in this instance's lifetime.
pub struct RegistrySource {
    pub source_id: SourceIdentity,
    pub checkout_path: Vec<u8>,
    pub cache_path: Vec<u8>,
    pub src_path: Vec<u8>,
    pub hashes: Vec<ChecksumEntry>,
    pub cached: Vec<(Vec<u8>, Version)>,
    pub unpacked: Vec<(Vec<u8>, Version)>,
    pub sources: Vec<Vec<u8>>,
}

pub open spec fn hashes_view(s: RegistrySource) -> Seq<(Seq<u8>, Version, Seq<u8>)> {
    s.hashes@.map_values(|e: ChecksumEntry| e@)
}

pub open spec fn cached_view(s: RegistrySource) -> Seq<(Seq<u8>, Version)> {
    s.cached@.map_values(|e: (Vec<u8>, Version)| (e.0@, e.1))
}

pub open spec fn unpacked_view(s: RegistrySource) -> Seq<(Seq<u8>, Version)> {
    s.unpacked@.map_values(|e: (Vec<u8>, Version)| (e.0@, e.1))
}

pub open spec fn sources_view(s: RegistrySource) -> Seq<Seq<u8>> {
    bytes_views(s.sources@)
}

/// Identity and paths unchanged between two states.
pub open spec fn steady(a: RegistrySource, b: RegistrySource) -> bool {
    &&& a.source_id@ == b.source_id@
    &&& a.checkout_path@ == b.checkout_path@
    &&& a.cache_path@ == b.cache_path@
    &&& a.src_path@ == b.src_path@
}

/// What `open` decided after trying the existing checkout.
#[derive(Clone, Copy, PartialEq, Eq, Structural, Debug)]
pub enum OpenAction {
    UseExisting,
    CreateFresh,
}

/// What one download needs: nothing, or a network fetch.
#[derive(Clone, Copy, PartialEq, Eq, Structural, Debug)]
pub enum DownloadPlan {
    UseCached,
    Fetch,
}

/// What one unpack needs: nothing, or extraction.
#[derive(Clone, Copy, PartialEq, Eq, Structural, Debug)]
pub enum UnpackPlan {
    AlreadyUnpacked,
    Extract,
}

impl RegistrySource {
    /// Build a registry source for an identity, deriving the checkout, cache
    /// and unpack roots under the given bases.  Returns nothing when the
    /// identity's URL has no parseable host.
    pub fn new(
        source_id: SourceIdentity,
        index_base: &[u8],
        cache_base: &[u8],
        src_base: &[u8],
    ) -> (r: Option<RegistrySource>)
        ensures
            match r {
                None => url_host_of(source_id@.url) is None,
                Some(rs) => {
                    &&& url_host_of(source_id@.url) matches Some(host)
                        && rs.checkout_path@ == joined(index_base@, ident_part(host, source_id@))
                        && rs.cache_path@ == joined(cache_base@, ident_part(host, source_id@))
                        && rs.src_path@ == joined(src_base@, ident_part(host, source_id@))
                    &&& rs.source_id@ == source_id@
                    &&& hashes_view(rs).len() == 0
                    &&& cached_view(rs).len() == 0
                    &&& unpacked_view(rs).len() == 0
                    &&& sources_view(rs).len() == 0
                },
            },
    {
        let host = match url_host(source_id.url.as_slice()) {
            None => { return None; },
            Some(h) => h,
        };
        let mut input: Vec<u8> = Vec::new();
        input.push(match source_id.kind {
            SourceKind::Registry => 114,
            SourceKind::Git => 103,
            SourceKind::Path => 112,
        });
        push_all(&mut input, source_id.url.as_slice());
        assert(input@ =~= hash_input(source_id@));
        let h = e_hash32(input.as_slice());
        let mut part = host;
        part.push(45);
        let digits = e_dec(h);
        push_all(&mut part, digits.as_slice());
        let checkout_path = join_path(index_base, part.as_slice());
        let cache_path = join_path(cache_base, part.as_slice());
        let src_path = join_path(src_base, part.as_slice());
        let rs = RegistrySource {
            source_id,
            checkout_path,
            cache_path,
            src_path,
            hashes: Vec::new(),
            cached: Vec::new(),
            unpacked: Vec::new(),
            sources: Vec::new(),
        };
        Some(rs)
    }

    /// The registry URL in force: a configured override, or the default.
    pub fn url(override_index: Option<&[u8]>) -> (r: Vec<u8>)
        ensures
            match override_index {
                Some(u) => r@ == u@,
                None => r@ == lit_central_url(),
            },
    {
        match override_index {
            Some(u) => copy_bytes(u),
            None => x_central_url(),
        }
    }

    /// The default registry URL.
    pub fn default_url() -> (r: Vec<u8>)
        ensures
            r@ == lit_central_url(),
    {
        x_central_url()
    }

    /// Decode the registry's hosted configuration document.  A missing or
    /// malformed document is `ConfigMissingError`.
    pub fn config(&self, contents: Option<&[u8]>) -> (r: Result<RegistryConfig, RegistryError>)
        ensures
            match contents {
                None => r matches Err(RegistryError::ConfigMissingError),
                Some(c) => match p_config(c@) {
                    Some((dl, api)) => r matches Ok(cfg) && cfg.dl@ == dl && cfg.api@ == api,
                    None => r matches Err(RegistryError::ConfigMissingError),
                },
            },
    {
        let c = match contents {
            None => { return Err(RegistryError::ConfigMissingError); },
            Some(c) => c,
        };
        match crate::codec::parse_config(c) {
            None => Err(RegistryError::ConfigMissingError),
            Some((dl, api)) => Ok(RegistryConfig { dl, api }),
        }
    }

    /// What `open` does next, given whether the existing checkout opened:
    /// failing that, a fresh directory and empty repository are created.
    pub fn open_plan(open_succeeded: bool) -> (r: OpenAction)
        ensures
            r == (if open_succeeded {
                OpenAction::UseExisting
            } else {
                OpenAction::CreateFresh
            }),
    {
        if open_succeeded {
            OpenAction::UseExisting
        } else {
            OpenAction::CreateFresh
        }
    }

    /// The refspec `update` fetches with.
    pub fn fetch_refspec() -> (r: Vec<u8>)
        ensures
            r@ == lit_fetch_refspec_text(),
    {
        x_fetch_refspec_text()
    }

    /// The tracking reference `update` resets to.
    pub fn tracking_ref() -> (r: Vec<u8>)
        ensures
            r@ == lit_tracking_ref_text(),
    {
        x_tracking_ref_text()
    }

    /// Interpret the outcome of one index synchronization: a failed fetch is
    /// `IndexFetchError`; a fetch after which the tracking reference cannot
    /// be resolved is `IndexIntegrityError`.
    pub fn update_outcome(&self, fetch_ok: bool, ref_resolved: bool) -> (r: Result<
        (),
        RegistryError,
    >)
        ensures
            !fetch_ok ==> r matches Err(RegistryError::IndexFetchError),
            fetch_ok && !ref_resolved ==> r matches Err(RegistryError::IndexIntegrityError),
            fetch_ok && ref_resolved ==> r is Ok,
    {
        if !fetch_ok {
            Err(RegistryError::IndexFetchError)
        } else if !ref_resolved {
            Err(RegistryError::IndexIntegrityError)
        } else {
            Ok(())
        }
    }
}

// ---------------------------------------------------------------------------
// Queries
// ---------------------------------------------------------------------------

/// The queryable form of one decoded record under a given source.
pub open spec fn summary_view_of(rec: RecordView, src: SourceIdView) -> SummaryView {
    SummaryView {
        identity: PackageIdView { name: rec.name, vers: rec.vers, source: src },
        deps: rec.deps,
        features: rec.features,
    }
}

/// The checksum-cache entry one decoded record contributes.
pub open spec fn entry_of(rec: RecordView) -> (Seq<u8>, Version, Seq<u8>) {
    (rec.name, rec.vers, rec.cksum)
}

/// The checksum-cache entries of a run of records, in order.
pub open spec fn entries_of(recs: Seq<RecordView>) -> Seq<(Seq<u8>, Version, Seq<u8>)> {
    recs.map_values(|r: RecordView| entry_of(r))
}

/// The summaries of the records that match the queried name and requirement,
/// in file order.
pub open spec fn query_filter(
    recs: Seq<RecordView>,
    name: Seq<u8>,
    req: Seq<Comparator>,
    src: SourceIdView,
) -> Seq<SummaryView>
    decreases recs.len(),
{
    if recs.len() == 0 {
        Seq::empty()
    } else if recs.last().name == name && req_matches(recs.last().vers, req) {
        query_filter(recs.drop_last(), name, req, src) + seq![summary_view_of(recs.last(), src)]
    } else {
        query_filter(recs.drop_last(), name, req, src)
    }
}

impl DependencyRequirement {
    /// Build a requirement from a name and a requirement expression; nothing
    /// when the expression is not a well-formed requirement.
    pub fn parse(name: Vec<u8>, req_text: &[u8]) -> (r: Option<DependencyRequirement>)
        ensures
            match r {
                Some(d) => {
                    &&& d.name@ == name@
                    &&& p_req(req_text@) == Some((d.req@, Seq::<u8>::empty()))
                    &&& d.features@.len() == 0
                    &&& d.target is None
                },
                None => !(p_req(req_text@) matches Some((_, rest)) && rest.len() == 0),
            },
    {
        match crate::version::parse_req(req_text) {
            None => None,
            Some(req) => Some(
                DependencyRequirement { name, req, features: Vec::new(), target: None },
            ),
        }
    }
}

impl RegistrySource {
    /// Look up the versions of a package that satisfy a requirement.
    ///
    /// `shard` is the contents of the shard file at the name's shard path, or
    /// nothing when no such file exists: a package never published here, which
    /// yields an empty list, not an error.  Blank lines are skipped; every
    /// remaining line must decode, and any malformed line fails the whole
    /// query naming the queried dependency, changing nothing.  On success the
    /// checksum cache gains one entry per decoded line, in file order, and
    /// the matching summaries come back in file order.
    #[verifier::rlimit(100)]
    #[verifier::loop_isolation(false)]
    pub fn query(&mut self, dep: &DependencyRequirement, shard: Option<&[u8]>) -> (r: Result<
        Vec<VersionSummary>,
        RegistryError,
    >)
        ensures
            steady(*old(self), *final(self)),
            final(self).cached == old(self).cached,
            final(self).unpacked == old(self).unpacked,
            final(self).sources == old(self).sources,
            match shard {
                None => {
                    &&& r matches Ok(v) && v@.len() == 0
                    &&& *final(self) == *old(self)
                },
                Some(c) => match decode_lines(nonblank(split_lines(c@))) {
                    None => {
                        &&& r matches Err(RegistryError::MetadataParseError { dependency })
                            && dependency@ == dep.name@
                        &&& *final(self) == *old(self)
                    },
                    Some(recs) => {
                        &&& r matches Ok(v) && v@.map_values(|s: VersionSummary| s@)
                            == query_filter(recs, dep.name@, dep.req@, old(self).source_id@)
                        &&& hashes_view(*final(self)) == hashes_view(*old(self)) + entries_of(recs)
                    },
                },
            },
    {
        let c = match shard {
            None => { return Ok(Vec::new()); },
            Some(c) => c,
        };
        let mut lines = split_into_lines(c);
        let ghost all_lines = split_lines(c@);

        // Keep the lines that carry content.
        let mut nb: Vec<Vec<u8>> = Vec::new();
        let ghost mut done: int = 0;
        assert(all_lines.take(0) =~= Seq::<Seq<u8>>::empty());
        assert(all_lines.skip(0) =~= all_lines);
        assert(bytes_views(nb@) =~= nonblank(all_lines.take(0)));
        while lines.len() > 0
            invariant
                0 <= done,
                done + lines@.len() == all_lines.len(),
                bytes_views(lines@) == all_lines.skip(done),
                bytes_views(nb@) == nonblank(all_lines.take(done)),
            decreases lines@.len(),
        {
            let ghost pre = lines@;
            let l = lines.remove(0);
            proof {
                assert(pre.remove(0) =~= pre.skip(1));
                assert(bytes_views(pre.skip(1)) =~= bytes_views(pre).skip(1));
                assert(all_lines.skip(done).skip(1) =~= all_lines.skip(done + 1));
                assert(bytes_views(pre)[0] == pre[0]@);
                assert(all_lines.skip(done)[0] == all_lines[done]);
                assert(l@ == all_lines[done]);
                assert(all_lines.take(done + 1).drop_last() =~= all_lines.take(done));
                assert(all_lines.take(done + 1).last() == all_lines[done]);
            }
            let ghost nb_pre = nb@;
            if !e_is_blank(l.as_slice()) {
                nb.push(l);
                assert(bytes_views(nb@) =~= bytes_views(nb_pre).push(l@));
                assert(bytes_views(nb@) =~= nonblank(all_lines.take(done + 1)));
            }
            proof {
                done = done + 1;
            }
        }
        assert(all_lines.take(all_lines.len() as int) =~= all_lines);
        let ghost nbv = bytes_views(nb@);
        assert(nbv == nonblank(all_lines));

        // Decode every remaining line; one malformed line fails the query.
        let mut recs: Vec<WireRecord> = Vec::new();
        let mut j: usize = 0;
        assert(nbv.take(0) =~= Seq::<Seq<u8>>::empty());
        assert(recs@.map_values(|w: WireRecord| w@) =~= Seq::<RecordView>::empty());
        while j < nb.len()
            invariant
                0 <= j <= nb@.len(),
                nbv == bytes_views(nb@),
                decode_lines(nbv.take(j as int)) == Some(recs@.map_values(|w: WireRecord| w@)),
            decreases nb@.len() - j,
        {
            proof {
                assert(nbv.take(j + 1).drop_last() =~= nbv.take(j as int));
                assert(nbv.take(j + 1).last() == nbv[j as int]);
                assert(nbv[j as int] == nb@[j as int]@);
            }
            match parse_record(nb[j].as_slice()) {
                None => {
                    proof {
                        assert(decode_lines(nbv.take(j + 1)) is None);
                        lemma_decode_prefix_none(nbv, j + 1);
                    }
                    return Err(
                        RegistryError::MetadataParseError {
                            dependency: copy_bytes(dep.name.as_slice()),
                        },
                    );
                },
                Some(rec) => {
                    let ghost rv = rec@;
                    let ghost rpre = recs@.map_values(|w: WireRecord| w@);
                    recs.push(rec);
                    assert(recs@.map_values(|w: WireRecord| w@) =~= rpre.push(rv));
                },
            }
            j += 1;
        }
        assert(nbv.take(nb@.len() as int) =~= nbv);
        let ghost allrecs = recs@.map_values(|w: WireRecord| w@);
        assert(decode_lines(nbv) == Some(allrecs));

        // Commit checksum entries and collect the matching summaries.
        let mut out: Vec<VersionSummary> = Vec::new();
        let ghost mut i: int = 0;
        let ghost h0 = hashes_view(*self);
        let ghost src0 = self.source_id@;
        assert(allrecs.take(0) =~= Seq::<RecordView>::empty());
        assert(allrecs.skip(0) =~= allrecs);
        assert(entries_of(allrecs.take(0)) =~= Seq::<(Seq<u8>, Version, Seq<u8>)>::empty());
        assert(h0 + entries_of(allrecs.take(0)) =~= h0);
        assert(out@.map_values(|s: VersionSummary| s@)
            =~= query_filter(allrecs.take(0), dep.name@, dep.req@, src0));
        while recs.len() > 0
            invariant
                0 <= i,
                i + recs@.len() == allrecs.len(),
                recs@.map_values(|w: WireRecord| w@) == allrecs.skip(i),
                hashes_view(*self) == h0 + entries_of(allrecs.take(i)),
                out@.map_values(|s: VersionSummary| s@)
                    == query_filter(allrecs.take(i), dep.name@, dep.req@, src0),
                steady(*old(self), *self),
                self.source_id@ == src0,
                self.cached == old(self).cached,
                self.unpacked == old(self).unpacked,
                self.sources == old(self).sources,
                h0 == hashes_view(*old(self)),
            decreases recs@.len(),
        {
            let ghost pre = recs@;
            let rec = recs.remove(0);
            proof {
                assert(pre.remove(0) =~= pre.skip(1));
                assert(pre.skip(1).map_values(|w: WireRecord| w@)
                    =~= pre.map_values(|w: WireRecord| w@).skip(1));
                assert(allrecs.skip(i).skip(1) =~= allrecs.skip(i + 1));
                assert(pre.map_values(|w: WireRecord| w@)[0] == pre[0]@);
                assert(allrecs.skip(i)[0] == allrecs[i]);
                assert(rec@ == allrecs[i]);
                assert(allrecs.take(i + 1).drop_last() =~= allrecs.take(i));
                assert(allrecs.take(i + 1).last() == allrecs[i]);
            }
            let ghost rv = rec@;
            let WireRecord { name, vers, deps, features, cksum } = rec;
            let nm = copy_bytes(name.as_slice());
            let ghost hpre = hashes_view(*self);
            let ghost opre = out@.map_values(|s: VersionSummary| s@);
            self.hashes.push(ChecksumEntry { name: nm, vers, cksum });
            proof {
                assert(hashes_view(*self) =~= hpre.push((rv.name, rv.vers, rv.cksum)));
                assert(entries_of(allrecs.take(i + 1))
                    =~= entries_of(allrecs.take(i as int)).push(entry_of(rv)));
                assert(h0 + entries_of(allrecs.take(i + 1))
                    =~= (h0 + entries_of(allrecs.take(i as int))).push(entry_of(rv)));
            }
            if bytes_eq(name.as_slice(), dep.name.as_slice()) && matches_req(&vers, &dep.req) {
                let summary = VersionSummary {
                    identity: PackageIdentity {
                        name,
                        vers,
                        source: dup_source(&self.source_id),
                    },
                    deps,
                    features,
                };
                assert(summary@ == summary_view_of(rv, src0));
                out.push(summary);
                assert(out@.map_values(|s: VersionSummary| s@)
                    =~= opre.push(summary_view_of(rv, src0)));
            }
            proof {
                i = i + 1;
            }
        }
        assert(allrecs.take(allrecs.len() as int) =~= allrecs);
        Ok(out)
    }
}

// ---------------------------------------------------------------------------
// Downloads
// ---------------------------------------------------------------------------

/// Whether this instance has already verified and stored the archive of
/// (name, version).
pub open spec fn cached_contains(s: RegistrySource, name: Seq<u8>, v: Version) -> bool {
    cached_view(s).contains((name, v))
}

/// What `plan_download` decides: the transfer is skipped exactly when the
/// cache file already exists on disk or this instance already stored it.
pub open spec fn download_plan_spec(
    s: RegistrySource,
    name: Seq<u8>,
    v: Version,
    cache_file_exists: bool,
) -> DownloadPlan {
    if cache_file_exists || cached_contains(s, name, v) {
        DownloadPlan::UseCached
    } else {
        DownloadPlan::Fetch
    }
}

/// Whether this instance has already unpacked (name, version).
pub open spec fn unpacked_contains(s: RegistrySource, name: Seq<u8>, v: Version) -> bool {
    unpacked_view(s).contains((name, v))
}

/// What `plan_unpack` decides: extraction is skipped exactly when the
/// completion marker already exists or this instance already extracted.
pub open spec fn unpack_plan_spec(
    s: RegistrySource,
    name: Seq<u8>,
    v: Version,
    marker_exists: bool,
) -> UnpackPlan {
    if marker_exists || unpacked_contains(s, name, v) {
        UnpackPlan::AlreadyUnpacked
    } else {
        UnpackPlan::Extract
    }
}

/// The download URL of one package under a download base.
pub open spec fn download_url_spec(dl: Seq<u8>, name: Seq<u8>, v: Version) -> Seq<u8> {
    dl + seq![47u8] + name + seq![47u8] + enc_version(v) + lit_download_segment()
}

/// The archive file name of one package: `<name>-<version>.tar.gz`.
pub open spec fn archive_name_spec(name: Seq<u8>, v: Version) -> Seq<u8> {
    name + seq![45u8] + enc_version(v) + lit_archive_suffix()
}

/// The unpack directory name of one package: `<name>-<version>`.
pub open spec fn unpack_dir_spec(s: RegistrySource, name: Seq<u8>, v: Version) -> Seq<u8> {
    joined(s.src_path@, name + seq![45u8] + enc_version(v))
}

fn contains_pair(entries: &Vec<(Vec<u8>, Version)>, name: &[u8], v: &Version) -> (r: bool)
    ensures
        r == entries@.map_values(|e: (Vec<u8>, Version)| (e.0@, e.1)).contains((name@, *v)),
{
    let ghost all = entries@.map_values(|e: (Vec<u8>, Version)| (e.0@, e.1));
    let mut i: usize = 0;
    while i < entries.len()
        invariant
            0 <= i <= entries@.len(),
            all == entries@.map_values(|e: (Vec<u8>, Version)| (e.0@, e.1)),
            forall|k: int| 0 <= k < i ==> all[k] != (name@, *v),
        decreases entries@.len() - i,
    {
        let e = &entries[i];
        if bytes_eq(e.0.as_slice(), name) && e.1.major == v.major && e.1.minor == v.minor
            && e.1.patch == v.patch {
            assert(all[i as int] == (name@, *v));
            return true;
        }
        assert(all[i as int] != (name@, *v));
        i += 1;
    }
    assert(!all.contains((name@, *v)));
    false
}

impl RegistrySource {
    /// Whether a package identity belongs to this registry.
    pub fn belongs(&self, id: &PackageIdentity) -> (r: bool)
        ensures
            r == (id.source@ == self.source_id@),
    {
        let kinds_match = match (id.source.kind, self.source_id.kind) {
            (SourceKind::Registry, SourceKind::Registry) => true,
            (SourceKind::Git, SourceKind::Git) => true,
            (SourceKind::Path, SourceKind::Path) => true,
            _ => false,
        };
        kinds_match && bytes_eq(id.source.url.as_slice(), self.source_id.url.as_slice())
    }

    /// The download URL for one package under the configured download base.
    pub fn download_url(dl: &[u8], name: &[u8], v: &Version) -> (r: Vec<u8>)
        ensures
            r@ == download_url_spec(dl@, name@, *v),
    {
        let mut out = copy_bytes(dl);
        out.push(47);
        push_all(&mut out, name);
        out.push(47);
        let ev = crate::version::render_version(v);
        push_all(&mut out, ev.as_slice());
        let seg = x_download_segment();
        push_all(&mut out, seg.as_slice());
        assert(out@ =~= download_url_spec(dl@, name@, *v));
        out
    }

    /// The cache file path for one package.
    pub fn cache_file_path(&self, id: &PackageIdentity) -> (r: Vec<u8>)
        ensures
            r@ == joined(self.cache_path@, archive_name_spec(id.name@, id.vers)),
    {
        let mut fname = copy_bytes(id.name.as_slice());
        fname.push(45);
        let ev = crate::version::render_version(&id.vers);
        push_all(&mut fname, ev.as_slice());
        let suffix = x_archive_suffix();
        push_all(&mut fname, suffix.as_slice());
        assert(fname@ =~= archive_name_spec(id.name@, id.vers));
        join_path(self.cache_path.as_slice(), fname.as_slice())
    }

    /// Decide whether one download needs a network transfer.
    pub fn plan_download(&self, id: &PackageIdentity, cache_file_exists: bool) -> (r:
        DownloadPlan)
        ensures
            r == download_plan_spec(*self, id.name@, id.vers, cache_file_exists),
    {
        if cache_file_exists || contains_pair(&self.cached, id.name.as_slice(), &id.vers) {
            DownloadPlan::UseCached
        } else {
            DownloadPlan::Fetch
        }
    }

    /// Judge a fetched response body.
    ///
    /// A response status other than success is `TransportError`.  A missing
    /// checksum-cache entry means a download was attempted before any query:
    /// `ChecksumCacheMiss`, failing fast.  A body whose SHA-256 digest does
    /// not equal the expected checksum (hex, ignoring case) is
    /// `ChecksumMismatch`, and nothing is recorded, so nothing may later be
    /// written to the cache path.  Only a verified body comes back to be
    /// stored, and the identity is recorded as cached.
    pub fn accept_download(
        &mut self,
        id: &PackageIdentity,
        status: u32,
        body: Vec<u8>,
    ) -> (r: Result<Vec<u8>, RegistryError>)
        ensures
            status != 200 && status != 0 ==> {
                &&& r matches Err(RegistryError::TransportError { status: st }) && st == status
                &&& *final(self) == *old(self)
            },
            (status == 200 || status == 0) ==> match lookup_hash(
                hashes_view(*old(self)),
                id.name@,
                id.vers,
            ) {
                None => {
                    &&& r matches Err(RegistryError::ChecksumCacheMiss { name, vers })
                        && name@ == id.name@ && vers == id.vers
                    &&& *final(self) == *old(self)
                },
                Some(expected) => if checksum_ok(body@, expected) {
                    &&& r matches Ok(b) && b@ == body@
                    &&& cached_view(*final(self)) == cached_view(*old(self)).push(
                        (id.name@, id.vers),
                    )
                    &&& final(self).hashes == old(self).hashes
                    &&& final(self).unpacked == old(self).unpacked
                    &&& final(self).sources == old(self).sources
                    &&& steady(*old(self), *final(self))
                } else {
                    &&& r matches Err(RegistryError::ChecksumMismatch { name, vers })
                        && name@ == id.name@ && vers == id.vers
                    &&& *final(self) == *old(self)
                },
            },
    {
        if status != 200 && status != 0 {
            return Err(RegistryError::TransportError { status });
        }
        let expected = match find_hash(&self.hashes, id.name.as_slice(), &id.vers) {
            None => {
                return Err(
                    RegistryError::ChecksumCacheMiss {
                        name: copy_bytes(id.name.as_slice()),
                        vers: id.vers,
                    },
                );
            },
            Some(e) => e,
        };
        if !checksum_matches(body.as_slice(), expected.as_slice()) {
            return Err(
                RegistryError::ChecksumMismatch {
                    name: copy_bytes(id.name.as_slice()),
                    vers: id.vers,
                },
            );
        }
        let ghost cpre = cached_view(*self);
        self.cached.push((copy_bytes(id.name.as_slice()), id.vers));
        assert(cached_view(*self) =~= cpre.push((id.name@, id.vers)));
        Ok(body)
    }

    /// The directory one package unpacks into.
    pub fn unpack_dir(&self, id: &PackageIdentity) -> (r: Vec<u8>)
        ensures
            r@ == unpack_dir_spec(*self, id.name@, id.vers),
    {
        let mut dname = copy_bytes(id.name.as_slice());
        dname.push(45);
        let ev = crate::version::render_version(&id.vers);
        push_all(&mut dname, ev.as_slice());
        join_path(self.src_path.as_slice(), dname.as_slice())
    }

    /// The completion-marker path inside one package's unpack directory.
    pub fn marker_path(&self, id: &PackageIdentity) -> (r: Vec<u8>)
        ensures
            r@ == unpack_dir_spec(*self, id.name@, id.vers) + lit_marker_name(),
    {
        let mut out = self.unpack_dir(id);
        let m = x_marker_name();
        push_all(&mut out, m.as_slice());
        out
    }

    /// Decide whether one unpack needs extraction work.
    pub fn plan_unpack(&self, id: &PackageIdentity, marker_exists: bool) -> (r: UnpackPlan)
        ensures
            r == unpack_plan_spec(*self, id.name@, id.vers, marker_exists),
    {
        if marker_exists || contains_pair(&self.unpacked, id.name.as_slice(), &id.vers) {
            UnpackPlan::AlreadyUnpacked
        } else {
            UnpackPlan::Extract
        }
    }

    /// Decompress a fetched archive in memory; a malformed stream is
    /// `UnpackError`.
    pub fn decompress_archive(&self, data: &[u8]) -> (r: Result<Vec<u8>, RegistryError>)
        ensures
            match gunzip_of(data@) {
                Some(o) => r matches Ok(b) && b@ == o,
                None => r matches Err(RegistryError::UnpackError),
            },
    {
        match gunzip(data) {
            Some(out) => Ok(out),
            None => Err(RegistryError::UnpackError),
        }
    }

    /// Record that extraction of one package finished, after which its
    /// completion marker may be written.
    pub fn finish_unpack(&mut self, id: &PackageIdentity)
        ensures
            unpacked_view(*final(self)) == unpacked_view(*old(self)).push((id.name@, id.vers)),
            final(self).hashes == old(self).hashes,
            final(self).cached == old(self).cached,
            final(self).sources == old(self).sources,
            steady(*old(self), *final(self)),
    {
        let ghost upre = unpacked_view(*self);
        self.unpacked.push((copy_bytes(id.name.as_slice()), id.vers));
        assert(unpacked_view(*self) =~= upre.push((id.name@, id.vers)));
    }

    /// Keep an unpacked directory as a registered filesystem sub-source.
    pub fn register_source(&mut self, dir: Vec<u8>)
        ensures
            sources_view(*final(self)) == sources_view(*old(self)).push(dir@),
            final(self).hashes == old(self).hashes,
            final(self).cached == old(self).cached,
            final(self).unpacked == old(self).unpacked,
            steady(*old(self), *final(self)),
    {
        let ghost spre = sources_view(*self);
        let ghost dv = dir@;
        self.sources.push(dir);
        assert(sources_view(*self) =~= spre.push(dv));
    }

    /// The registered sub-source directories, in registration order.
    pub fn registered_sources(&self) -> (r: &Vec<Vec<u8>>)
        ensures
            r@ == self.sources@,
    {
        &self.sources
    }

    /// A package's change-detection token: its version string.  Valid
    /// because the registry is append-only and checksum-verified, so (name,
    /// version) determines content.
    pub fn fingerprint(&self, id: &PackageIdentity) -> (r: Vec<u8>)
        ensures
            r@ == enc_version(id.vers),
    {
        crate::version::render_version(&id.vers)
    }
}

// ---------------------------------------------------------------------------
// Laws
// ---------------------------------------------------------------------------

/// Download idempotence: a successful `accept_download` leaves the cache
/// model extended with the downloaded identity, and every later
/// `plan_download` for that identity skips the network transfer, whatever
/// the filesystem reports — so two sequential downloads perform exactly one
/// transfer.
pub proof fn lemma_download_idempotent(
    pre: Seq<(Seq<u8>, Version)>,
    s: RegistrySource,
    name: Seq<u8>,
    v: Version,
    cache_file_exists: bool,
)
    requires
        cached_view(s) == pre.push((name, v)),
    ensures
        download_plan_spec(s, name, v, cache_file_exists) == DownloadPlan::UseCached,
{
    assert(cached_view(s)[pre.len() as int] == (name, v));
}

/// Unpack idempotence: `finish_unpack` leaves the unpack model extended with
/// the identity, and every later `plan_unpack` for it does no extraction
/// work — so a second unpack leaves the directory contents exactly as the
/// first left them.
pub proof fn lemma_unpack_idempotent(
    pre: Seq<(Seq<u8>, Version)>,
    s: RegistrySource,
    name: Seq<u8>,
    v: Version,
    marker_exists: bool,
)
    requires
        unpacked_view(s) == pre.push((name, v)),
    ensures
        unpack_plan_spec(s, name, v, marker_exists) == UnpackPlan::AlreadyUnpacked,
{
    assert(unpacked_view(s)[pre.len() as int] == (name, v));
}

/// Round trip at the summary level: a summary decoded from a well-formed
/// metadata line, re-encoded by the reference encoder and re-decoded, has
/// the same identity, dependency list and feature map, and contributes the
/// same checksum-cache entry.
pub proof fn lemma_summary_round_trip(r: RecordView, src: SourceIdView)
    requires
        record_wf(r),
    ensures
        p_record(enc_record(r)) matches Some(r2) && summary_view_of(r2, src)
            == summary_view_of(r, src) && entry_of(r2) == entry_of(r),
{
    crate::codec::lemma_record_round_trip(r);
}

} // verus!
