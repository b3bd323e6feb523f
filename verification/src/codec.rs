//! The index metadata wire format.
//!
//! One published version is recorded as a single line holding one JSON object
//! in a fixed canonical shape:
//! `{"name":STR,"vers":STR,"deps":[DEP,...],"features":{NAME:[STR,...],...},"cksum":STR}`,
//! where each DEP is
//! `{"name":STR,"req":STR,"features":[STR,...],"optional":BOOL,"default_features":BOOL,"target":STR-or-null}`.
//! Keys come in exactly that order, with no whitespace between tokens, and a
//! string holds no quote, backslash or control byte.  The format has a
//! canonical encoder, and parsing a canonical encoding returns the record
//! unchanged (see the round-trip lemmas).
use vstd::prelude::*;
use crate::version::{Version, Comparator, version_wf, req_wf, p_req, enc_req, p_version, enc_version};
use crate::version as version_mod;
use crate::bytes::push_all;

verus! {

// ---------------------------------------------------------------------------
// Wire records and their mathematical views
// ---------------------------------------------------------------------------

/// One dependency of a published version, as recorded on the wire.
pub struct WireDependency {
    pub name: Vec<u8>,
    pub req: Vec<Comparator>,
    pub features: Vec<Vec<u8>>,
    pub optional: bool,
    pub default_features: bool,
    pub target: Option<Vec<u8>>,
}

/// One feature of a published version: its name and the features it enables.
pub struct FeatureEntry {
    pub name: Vec<u8>,
    pub enables: Vec<Vec<u8>>,
}

/// One decoded metadata line.
pub struct WireRecord {
    pub name: Vec<u8>,
    pub vers: Version,
    pub deps: Vec<WireDependency>,
    pub features: Vec<FeatureEntry>,
    pub cksum: Vec<u8>,
}

pub ghost struct DepView {
    pub name: Seq<u8>,
    pub req: Seq<Comparator>,
    pub features: Seq<Seq<u8>>,
    pub optional: bool,
    pub default_features: bool,
    pub target: Option<Seq<u8>>,
}

pub ghost struct RecordView {
    pub name: Seq<u8>,
    pub vers: Version,
    pub deps: Seq<DepView>,
    pub features: Seq<(Seq<u8>, Seq<Seq<u8>>)>,
    pub cksum: Seq<u8>,
}

impl View for WireDependency {
    type V = DepView;

    open spec fn view(&self) -> DepView {
        DepView {
            name: self.name@,
            req: self.req@,
            features: bytes_views(self.features@),
            optional: self.optional,
            default_features: self.default_features,
            target: opt_bytes_view(self.target),
        }
    }
}

impl View for FeatureEntry {
    type V = (Seq<u8>, Seq<Seq<u8>>);

    open spec fn view(&self) -> (Seq<u8>, Seq<Seq<u8>>) {
        (self.name@, bytes_views(self.enables@))
    }
}

impl View for WireRecord {
    type V = RecordView;

    open spec fn view(&self) -> RecordView {
        RecordView {
            name: self.name@,
            vers: self.vers,
            deps: self.deps@.map_values(|d: WireDependency| d@),
            features: self.features@.map_values(|f: FeatureEntry| f@),
            cksum: self.cksum@,
        }
    }
}

/// A byte a wire string may hold: not a quote, a backslash or a control byte.
pub open spec fn valid_ch(b: u8) -> bool {
    b != 34 && b != 92 && b >= 32
}

pub open spec fn str_wf(s: Seq<u8>) -> bool {
    forall|i: int| 0 <= i < s.len() ==> valid_ch(#[trigger] s[i])
}

pub open spec fn strs_wf(xs: Seq<Seq<u8>>) -> bool {
    forall|i: int| 0 <= i < xs.len() ==> str_wf(#[trigger] xs[i])
}

/// The views of a sequence of byte vectors.
pub open spec fn bytes_views(xs: Seq<Vec<u8>>) -> Seq<Seq<u8>> {
    xs.map_values(|v: Vec<u8>| v@)
}

/// The view of an optional byte vector.
pub open spec fn opt_bytes_view(t: Option<Vec<u8>>) -> Option<Seq<u8>> {
    match t {
        Some(v) => Some(v@),
        None => None,
    }
}

pub open spec fn dep_wf(d: DepView) -> bool {
    &&& str_wf(d.name)
    &&& req_wf(d.req)
    &&& strs_wf(d.features)
    &&& (match d.target {
        Some(t) => str_wf(t),
        None => true,
    })
}

pub open spec fn fentry_wf(f: (Seq<u8>, Seq<Seq<u8>>)) -> bool {
    str_wf(f.0) && strs_wf(f.1)
}

pub open spec fn record_wf(r: RecordView) -> bool {
    &&& str_wf(r.name)
    &&& version_wf(r.vers)
    &&& (forall|i: int| 0 <= i < r.deps.len() ==> dep_wf(#[trigger] r.deps[i]))
    &&& (forall|i: int| 0 <= i < r.features.len() ==> fentry_wf(#[trigger] r.features[i]))
    &&& str_wf(r.cksum)
}

// ---------------------------------------------------------------------------
// Fixed tokens of the format
// ---------------------------------------------------------------------------

/// The byte string `{"name":"`.
pub open spec fn lit_obj_name() -> Seq<u8> {
    seq![123u8, 34, 110, 97, 109, 101, 34, 58, 34]
}

fn x_obj_name() -> (r: Vec<u8>)
    ensures
        r@ == lit_obj_name(),
{
    let mut v: Vec<u8> = Vec::new();
    v.push(123);
    v.push(34);
    v.push(110);
    v.push(97);
    v.push(109);
    v.push(101);
    v.push(34);
    v.push(58);
    v.push(34);
    assert(v@ =~= lit_obj_name());
    v
}

/// The byte string `,"vers":"`.
pub open spec fn lit_vers_key() -> Seq<u8> {
    seq![44u8, 34, 118, 101, 114, 115, 34, 58, 34]
}

fn x_vers_key() -> (r: Vec<u8>)
    ensures
        r@ == lit_vers_key(),
{
    let mut v: Vec<u8> = Vec::new();
    v.push(44);
    v.push(34);
    v.push(118);
    v.push(101);
    v.push(114);
    v.push(115);
    v.push(34);
    v.push(58);
    v.push(34);
    assert(v@ =~= lit_vers_key());
    v
}

/// The byte string `","deps":`.
pub open spec fn lit_deps_key() -> Seq<u8> {
    seq![34u8, 44, 34, 100, 101, 112, 115, 34, 58]
}

fn x_deps_key() -> (r: Vec<u8>)
    ensures
        r@ == lit_deps_key(),
{
    let mut v: Vec<u8> = Vec::new();
    v.push(34);
    v.push(44);
    v.push(34);
    v.push(100);
    v.push(101);
    v.push(112);
    v.push(115);
    v.push(34);
    v.push(58);
    assert(v@ =~= lit_deps_key());
    v
}

/// The byte string `,"features":`.
pub open spec fn lit_feats_key() -> Seq<u8> {
    seq![44u8, 34, 102, 101, 97, 116, 117, 114, 101, 115, 34, 58]
}

fn x_feats_key() -> (r: Vec<u8>)
    ensures
        r@ == lit_feats_key(),
{
    let mut v: Vec<u8> = Vec::new();
    v.push(44);
    v.push(34);
    v.push(102);
    v.push(101);
    v.push(97);
    v.push(116);
    v.push(117);
    v.push(114);
    v.push(101);
    v.push(115);
    v.push(34);
    v.push(58);
    assert(v@ =~= lit_feats_key());
    v
}

/// The byte string `,"cksum":"`.
pub open spec fn lit_cksum_key() -> Seq<u8> {
    seq![44u8, 34, 99, 107, 115, 117, 109, 34, 58, 34]
}

fn x_cksum_key() -> (r: Vec<u8>)
    ensures
        r@ == lit_cksum_key(),
{
    let mut v: Vec<u8> = Vec::new();
    v.push(44);
    v.push(34);
    v.push(99);
    v.push(107);
    v.push(115);
    v.push(117);
    v.push(109);
    v.push(34);
    v.push(58);
    v.push(34);
    assert(v@ =~= lit_cksum_key());
    v
}

/// The byte string `"}`.
pub open spec fn lit_obj_end() -> Seq<u8> {
    seq![34u8, 125]
}

fn x_obj_end() -> (r: Vec<u8>)
    ensures
        r@ == lit_obj_end(),
{
    let mut v: Vec<u8> = Vec::new();
    v.push(34);
    v.push(125);
    assert(v@ =~= lit_obj_end());
    v
}

/// The byte string `,"req":"`.
pub open spec fn lit_req_key() -> Seq<u8> {
    seq![44u8, 34, 114, 101, 113, 34, 58, 34]
}

fn x_req_key() -> (r: Vec<u8>)
    ensures
        r@ == lit_req_key(),
{
    let mut v: Vec<u8> = Vec::new();
    v.push(44);
    v.push(34);
    v.push(114);
    v.push(101);
    v.push(113);
    v.push(34);
    v.push(58);
    v.push(34);
    assert(v@ =~= lit_req_key());
    v
}

/// The byte string `","features":`.
pub open spec fn lit_dep_feats_key() -> Seq<u8> {
    seq![34u8, 44, 34, 102, 101, 97, 116, 117, 114, 101, 115, 34, 58]
}

fn x_dep_feats_key() -> (r: Vec<u8>)
    ensures
        r@ == lit_dep_feats_key(),
{
    let mut v: Vec<u8> = Vec::new();
    v.push(34);
    v.push(44);
    v.push(34);
    v.push(102);
    v.push(101);
    v.push(97);
    v.push(116);
    v.push(117);
    v.push(114);
    v.push(101);
    v.push(115);
    v.push(34);
    v.push(58);
    assert(v@ =~= lit_dep_feats_key());
    v
}

/// The byte string `,"optional":`.
pub open spec fn lit_optional_key() -> Seq<u8> {
    seq![44u8, 34, 111, 112, 116, 105, 111, 110, 97, 108, 34, 58]
}

fn x_optional_key() -> (r: Vec<u8>)
    ensures
        r@ == lit_optional_key(),
{
    let mut v: Vec<u8> = Vec::new();
    v.push(44);
    v.push(34);
    v.push(111);
    v.push(112);
    v.push(116);
    v.push(105);
    v.push(111);
    v.push(110);
    v.push(97);
    v.push(108);
    v.push(34);
    v.push(58);
    assert(v@ =~= lit_optional_key());
    v
}

/// The byte string `,"default_features":`.
pub open spec fn lit_default_key() -> Seq<u8> {
    seq![44u8, 34, 100, 101, 102, 97, 117, 108, 116, 95, 102, 101, 97, 116, 117, 114, 101, 115, 34, 58]
}

fn x_default_key() -> (r: Vec<u8>)
    ensures
        r@ == lit_default_key(),
{
    let mut v: Vec<u8> = Vec::new();
    v.push(44);
    v.push(34);
    v.push(100);
    v.push(101);
    v.push(102);
    v.push(97);
    v.push(117);
    v.push(108);
    v.push(116);
    v.push(95);
    v.push(102);
    v.push(101);
    v.push(97);
    v.push(116);
    v.push(117);
    v.push(114);
    v.push(101);
    v.push(115);
    v.push(34);
    v.push(58);
    assert(v@ =~= lit_default_key());
    v
}

/// The byte string `,"target":`.
pub open spec fn lit_target_key() -> Seq<u8> {
    seq![44u8, 34, 116, 97, 114, 103, 101, 116, 34, 58]
}

fn x_target_key() -> (r: Vec<u8>)
    ensures
        r@ == lit_target_key(),
{
    let mut v: Vec<u8> = Vec::new();
    v.push(44);
    v.push(34);
    v.push(116);
    v.push(97);
    v.push(114);
    v.push(103);
    v.push(101);
    v.push(116);
    v.push(34);
    v.push(58);
    assert(v@ =~= lit_target_key());
    v
}

/// The byte string `true`.
pub open spec fn lit_word_true() -> Seq<u8> {
    seq![116u8, 114, 117, 101]
}

fn x_word_true() -> (r: Vec<u8>)
    ensures
        r@ == lit_word_true(),
{
    let mut v: Vec<u8> = Vec::new();
    v.push(116);
    v.push(114);
    v.push(117);
    v.push(101);
    assert(v@ =~= lit_word_true());
    v
}

/// The byte string `false`.
pub open spec fn lit_word_false() -> Seq<u8> {
    seq![102u8, 97, 108, 115, 101]
}

fn x_word_false() -> (r: Vec<u8>)
    ensures
        r@ == lit_word_false(),
{
    let mut v: Vec<u8> = Vec::new();
    v.push(102);
    v.push(97);
    v.push(108);
    v.push(115);
    v.push(101);
    assert(v@ =~= lit_word_false());
    v
}

/// The byte string `null`.
pub open spec fn lit_word_null() -> Seq<u8> {
    seq![110u8, 117, 108, 108]
}

fn x_word_null() -> (r: Vec<u8>)
    ensures
        r@ == lit_word_null(),
{
    let mut v: Vec<u8> = Vec::new();
    v.push(110);
    v.push(117);
    v.push(108);
    v.push(108);
    assert(v@ =~= lit_word_null());
    v
}

/// The byte string `{"dl":"`.
pub open spec fn lit_dl_key() -> Seq<u8> {
    seq![123u8, 34, 100, 108, 34, 58, 34]
}

fn x_dl_key() -> (r: Vec<u8>)
    ensures
        r@ == lit_dl_key(),
{
    let mut v: Vec<u8> = Vec::new();
    v.push(123);
    v.push(34);
    v.push(100);
    v.push(108);
    v.push(34);
    v.push(58);
    v.push(34);
    assert(v@ =~= lit_dl_key());
    v
}

/// The byte string `,"api":"`.
pub open spec fn lit_api_key() -> Seq<u8> {
    seq![44u8, 34, 97, 112, 105, 34, 58, 34]
}

fn x_api_key() -> (r: Vec<u8>)
    ensures
        r@ == lit_api_key(),
{
    let mut v: Vec<u8> = Vec::new();
    v.push(44);
    v.push(34);
    v.push(97);
    v.push(112);
    v.push(105);
    v.push(34);
    v.push(58);
    v.push(34);
    assert(v@ =~= lit_api_key());
    v
}

// ---------------------------------------------------------------------------
// The grammar, as suffix-style parsing functions: each consumes a prefix of
// the input and returns the parsed value with the unread rest
// ---------------------------------------------------------------------------

/// Consume an exact token.
pub open spec fn p_lit(s: Seq<u8>, lit: Seq<u8>) -> Option<Seq<u8>> {
    if s.len() >= lit.len() && s.take(lit.len() as int) == lit {
        Some(s.skip(lit.len() as int))
    } else {
        None
    }
}

/// Consume string content up to and including the closing quote.
pub open spec fn scan_str(s: Seq<u8>) -> Option<(Seq<u8>, Seq<u8>)>
    decreases s.len(),
{
    if s.len() == 0 {
        None
    } else if s[0] == 34 {
        Some((Seq::empty(), s.skip(1)))
    } else if valid_ch(s[0]) {
        match scan_str(s.skip(1)) {
            None => None,
            Some((c, r)) => Some((seq![s[0]] + c, r)),
        }
    } else {
        None
    }
}

/// Consume a whole quoted string.
pub open spec fn p_str(s: Seq<u8>) -> Option<(Seq<u8>, Seq<u8>)> {
    if s.len() >= 1 && s[0] == 34 {
        scan_str(s.skip(1))
    } else {
        None
    }
}

/// Consume `true` or `false`.
pub open spec fn p_bool(s: Seq<u8>) -> Option<(bool, Seq<u8>)> {
    match p_lit(s, lit_word_true()) {
        Some(r) => Some((true, r)),
        None => match p_lit(s, lit_word_false()) {
            Some(r) => Some((false, r)),
            None => None,
        },
    }
}

/// Consume `null` or a quoted string.
pub open spec fn p_opt_str(s: Seq<u8>) -> Option<(Option<Seq<u8>>, Seq<u8>)> {
    match p_lit(s, lit_word_null()) {
        Some(r) => Some((None, r)),
        None => match p_str(s) {
            Some((c, r)) => Some((Some(c), r)),
            None => None,
        },
    }
}

/// Consume one or more quoted strings separated by commas.
pub open spec fn p_str_items(s: Seq<u8>) -> Option<(Seq<Seq<u8>>, Seq<u8>)>
    decreases s.len(),
{
    match p_str(s) {
        None => None,
        Some((x, r)) => if r.len() >= 1 && r[0] == 44 && r.len() < s.len() {
            match p_str_items(r.skip(1)) {
                None => None,
                Some((xs, r2)) => Some((seq![x] + xs, r2)),
            }
        } else if r.len() >= 1 && r[0] == 44 {
            None
        } else {
            Some((seq![x], r))
        },
    }
}

/// Consume a bracketed, possibly empty, list of quoted strings.
pub open spec fn p_str_list(s: Seq<u8>) -> Option<(Seq<Seq<u8>>, Seq<u8>)> {
    match p_lit(s, seq![91u8]) {
        None => None,
        Some(t) => if t.len() >= 1 && t[0] == 93 {
            Some((Seq::empty(), t.skip(1)))
        } else {
            match p_str_items(t) {
                None => None,
                Some((xs, r)) => if r.len() >= 1 && r[0] == 93 {
                    Some((xs, r.skip(1)))
                } else {
                    None
                },
            }
        },
    }
}

/// Consume one dependency object.
pub open spec fn p_dep(s: Seq<u8>) -> Option<(DepView, Seq<u8>)> {
    match p_lit(s, lit_obj_name()) { None => None, Some(t1) =>
    match scan_str(t1) { None => None, Some((name, t2)) =>
    match p_lit(t2, lit_req_key()) { None => None, Some(t3) =>
    match p_req(t3) { None => None, Some((req, t4)) =>
    match p_lit(t4, lit_dep_feats_key()) { None => None, Some(t5) =>
    match p_str_list(t5) { None => None, Some((features, t6)) =>
    match p_lit(t6, lit_optional_key()) { None => None, Some(t7) =>
    match p_bool(t7) { None => None, Some((optional, t8)) =>
    match p_lit(t8, lit_default_key()) { None => None, Some(t9) =>
    match p_bool(t9) { None => None, Some((default_features, t10)) =>
    match p_lit(t10, lit_target_key()) { None => None, Some(t11) =>
    match p_opt_str(t11) { None => None, Some((target, t12)) =>
    match p_lit(t12, seq![125u8]) { None => None, Some(t13) =>
        Some((DepView { name, req, features, optional, default_features, target }, t13))
    }}}}}}}}}}}}}
}

/// Consume one or more dependency objects separated by commas.
pub open spec fn p_dep_items(s: Seq<u8>) -> Option<(Seq<DepView>, Seq<u8>)>
    decreases s.len(),
{
    match p_dep(s) {
        None => None,
        Some((d, r)) => if r.len() >= 1 && r[0] == 44 && r.len() < s.len() {
            match p_dep_items(r.skip(1)) {
                None => None,
                Some((ds, r2)) => Some((seq![d] + ds, r2)),
            }
        } else if r.len() >= 1 && r[0] == 44 {
            None
        } else {
            Some((seq![d], r))
        },
    }
}

/// Consume a bracketed, possibly empty, list of dependency objects.
pub open spec fn p_dep_list(s: Seq<u8>) -> Option<(Seq<DepView>, Seq<u8>)> {
    match p_lit(s, seq![91u8]) {
        None => None,
        Some(t) => if t.len() >= 1 && t[0] == 93 {
            Some((Seq::empty(), t.skip(1)))
        } else {
            match p_dep_items(t) {
                None => None,
                Some((ds, r)) => if r.len() >= 1 && r[0] == 93 {
                    Some((ds, r.skip(1)))
                } else {
                    None
                },
            }
        },
    }
}

/// Consume one feature-map entry: a key and the list it enables.
pub open spec fn p_fentry(s: Seq<u8>) -> Option<((Seq<u8>, Seq<Seq<u8>>), Seq<u8>)> {
    match p_str(s) { None => None, Some((k, t1)) =>
    match p_lit(t1, seq![58u8]) { None => None, Some(t2) =>
    match p_str_list(t2) { None => None, Some((vs, r)) =>
        Some(((k, vs), r))
    }}}
}

/// Consume one or more feature-map entries separated by commas.
pub open spec fn p_fentries(s: Seq<u8>) -> Option<(Seq<(Seq<u8>, Seq<Seq<u8>>)>, Seq<u8>)>
    decreases s.len(),
{
    match p_fentry(s) {
        None => None,
        Some((f, r)) => if r.len() >= 1 && r[0] == 44 && r.len() < s.len() {
            match p_fentries(r.skip(1)) {
                None => None,
                Some((fs, r2)) => Some((seq![f] + fs, r2)),
            }
        } else if r.len() >= 1 && r[0] == 44 {
            None
        } else {
            Some((seq![f], r))
        },
    }
}

/// Consume a braced, possibly empty, feature map.
pub open spec fn p_fmap(s: Seq<u8>) -> Option<(Seq<(Seq<u8>, Seq<Seq<u8>>)>, Seq<u8>)> {
    match p_lit(s, seq![123u8]) {
        None => None,
        Some(t) => if t.len() >= 1 && t[0] == 125 {
            Some((Seq::empty(), t.skip(1)))
        } else {
            match p_fentries(t) {
                None => None,
                Some((fs, r)) => if r.len() >= 1 && r[0] == 125 {
                    Some((fs, r.skip(1)))
                } else {
                    None
                },
            }
        },
    }
}

/// Consume one whole record object.
pub open spec fn p_record_body(s: Seq<u8>) -> Option<(RecordView, Seq<u8>)> {
    match p_lit(s, lit_obj_name()) { None => None, Some(t1) =>
    match scan_str(t1) { None => None, Some((name, t2)) =>
    match p_lit(t2, lit_vers_key()) { None => None, Some(t3) =>
    match p_version(t3) { None => None, Some((vers, t4)) =>
    match p_lit(t4, lit_deps_key()) { None => None, Some(t5) =>
    match p_dep_list(t5) { None => None, Some((deps, t6)) =>
    match p_lit(t6, lit_feats_key()) { None => None, Some(t7) =>
    match p_fmap(t7) { None => None, Some((features, t8)) =>
    match p_lit(t8, lit_cksum_key()) { None => None, Some(t9) =>
    match scan_str(t9) { None => None, Some((cksum, t10)) =>
    match p_lit(t10, seq![125u8]) { None => None, Some(t11) =>
        Some((RecordView { name, vers, deps, features, cksum }, t11))
    }}}}}}}}}}}
}

/// Parse a whole metadata line; the line must hold exactly one record.
pub open spec fn p_record(s: Seq<u8>) -> Option<RecordView> {
    match p_record_body(s) {
        None => None,
        Some((r, rest)) => if rest.len() == 0 {
            Some(r)
        } else {
            None
        },
    }
}

/// Parse a whole registry configuration document: `{"dl":STR,"api":STR}`.
pub open spec fn p_config(s: Seq<u8>) -> Option<(Seq<u8>, Seq<u8>)> {
    match p_lit(s, lit_dl_key()) { None => None, Some(t1) =>
    match scan_str(t1) { None => None, Some((dl, t2)) =>
    match p_lit(t2, lit_api_key()) { None => None, Some(t3) =>
    match scan_str(t3) { None => None, Some((api, t4)) =>
    match p_lit(t4, seq![125u8]) { None => None, Some(t5) =>
        if t5.len() == 0 { Some((dl, api)) } else { None }
    }}}}}
}

// ---------------------------------------------------------------------------
// The canonical encoding
// ---------------------------------------------------------------------------

pub open spec fn enc_str(s: Seq<u8>) -> Seq<u8> {
    seq![34u8] + s + seq![34u8]
}

pub open spec fn enc_str_items(xs: Seq<Seq<u8>>) -> Seq<u8>
    decreases xs.len(),
{
    if xs.len() == 0 {
        Seq::empty()
    } else if xs.len() == 1 {
        enc_str(xs[0])
    } else {
        enc_str(xs[0]) + seq![44u8] + enc_str_items(xs.skip(1))
    }
}

pub open spec fn enc_str_list(xs: Seq<Seq<u8>>) -> Seq<u8> {
    seq![91u8] + enc_str_items(xs) + seq![93u8]
}

pub open spec fn enc_bool(b: bool) -> Seq<u8> {
    if b {
        lit_word_true()
    } else {
        lit_word_false()
    }
}

pub open spec fn enc_opt_str(t: Option<Seq<u8>>) -> Seq<u8> {
    match t {
        None => lit_word_null(),
        Some(s) => enc_str(s),
    }
}

pub open spec fn enc_dep(d: DepView) -> Seq<u8> {
    lit_obj_name() + d.name + seq![34u8] + lit_req_key() + enc_req(d.req)
        + lit_dep_feats_key() + enc_str_list(d.features) + lit_optional_key()
        + enc_bool(d.optional) + lit_default_key() + enc_bool(d.default_features)
        + lit_target_key() + enc_opt_str(d.target) + seq![125u8]
}

pub open spec fn enc_dep_items(ds: Seq<DepView>) -> Seq<u8>
    decreases ds.len(),
{
    if ds.len() == 0 {
        Seq::empty()
    } else if ds.len() == 1 {
        enc_dep(ds[0])
    } else {
        enc_dep(ds[0]) + seq![44u8] + enc_dep_items(ds.skip(1))
    }
}

pub open spec fn enc_dep_list(ds: Seq<DepView>) -> Seq<u8> {
    seq![91u8] + enc_dep_items(ds) + seq![93u8]
}

pub open spec fn enc_fentry(f: (Seq<u8>, Seq<Seq<u8>>)) -> Seq<u8> {
    enc_str(f.0) + seq![58u8] + enc_str_list(f.1)
}

pub open spec fn enc_fentries(fs: Seq<(Seq<u8>, Seq<Seq<u8>>)>) -> Seq<u8>
    decreases fs.len(),
{
    if fs.len() == 0 {
        Seq::empty()
    } else if fs.len() == 1 {
        enc_fentry(fs[0])
    } else {
        enc_fentry(fs[0]) + seq![44u8] + enc_fentries(fs.skip(1))
    }
}

pub open spec fn enc_fmap(fs: Seq<(Seq<u8>, Seq<Seq<u8>>)>) -> Seq<u8> {
    seq![123u8] + enc_fentries(fs) + seq![125u8]
}

pub open spec fn enc_record(r: RecordView) -> Seq<u8> {
    lit_obj_name() + r.name + seq![34u8] + lit_vers_key() + enc_version(r.vers)
        + lit_deps_key() + enc_dep_list(r.deps) + lit_feats_key() + enc_fmap(r.features)
        + lit_cksum_key() + r.cksum + lit_obj_end()
}

pub open spec fn enc_config(dl: Seq<u8>, api: Seq<u8>) -> Seq<u8> {
    lit_dl_key() + dl + seq![34u8] + lit_api_key() + api + lit_obj_end()
}

// ---------------------------------------------------------------------------
// Round trips: parsing a canonical encoding gives the value back
// ---------------------------------------------------------------------------

pub proof fn lemma_p_lit_rt(lit: Seq<u8>, rest: Seq<u8>)
    ensures
        p_lit(lit + rest, lit) == Some(rest),
{
    let s = lit + rest;
    assert(s.take(lit.len() as int) =~= lit);
    assert(s.skip(lit.len() as int) =~= rest);
}

pub proof fn lemma_scan_rt(c: Seq<u8>, rest: Seq<u8>)
    requires
        str_wf(c),
    ensures
        scan_str(c + (seq![34u8] + rest)) == Some((c, rest)),
    decreases c.len(),
{
    let s = c + (seq![34u8] + rest);
    if c.len() == 0 {
        assert(s =~= seq![34u8] + rest);
        assert(s[0] == 34);
        assert(s.skip(1) =~= rest);
        assert(c =~= Seq::<u8>::empty());
    } else {
        assert(s[0] == c[0]);
        assert(valid_ch(c[0]));
        assert(str_wf(c.skip(1))) by {
            assert(forall|i: int| 0 <= i < c.skip(1).len()
                ==> #[trigger] c.skip(1)[i] == c[i + 1]);
        }
        lemma_scan_rt(c.skip(1), rest);
        assert(s.skip(1) =~= c.skip(1) + (seq![34u8] + rest));
        assert(seq![c[0]] + c.skip(1) =~= c);
    }
}

pub proof fn lemma_p_str_rt(c: Seq<u8>, rest: Seq<u8>)
    requires
        str_wf(c),
    ensures
        p_str(enc_str(c) + rest) == Some((c, rest)),
{
    let s = enc_str(c) + rest;
    assert(s[0] == 34);
    assert(s.skip(1) =~= c + (seq![34u8] + rest));
    lemma_scan_rt(c, rest);
}

pub proof fn lemma_p_bool_rt(b: bool, rest: Seq<u8>)
    ensures
        p_bool(enc_bool(b) + rest) == Some((b, rest)),
{
    let s = enc_bool(b) + rest;
    if b {
        lemma_p_lit_rt(lit_word_true(), rest);
    } else {
        if s.len() >= lit_word_true().len() {
            assert(s.take(lit_word_true().len() as int)[0] == 102);
            assert(p_lit(s, lit_word_true()) is None);
        }
        lemma_p_lit_rt(lit_word_false(), rest);
    }
}

pub proof fn lemma_p_opt_rt(t: Option<Seq<u8>>, rest: Seq<u8>)
    requires
        t matches Some(c) ==> str_wf(c),
    ensures
        p_opt_str(enc_opt_str(t) + rest) == Some((t, rest)),
{
    let s = enc_opt_str(t) + rest;
    match t {
        None => {
            lemma_p_lit_rt(lit_word_null(), rest);
        },
        Some(c) => {
            if s.len() >= lit_word_null().len() {
                assert(s.take(lit_word_null().len() as int)[0] == 34);
                assert(p_lit(s, lit_word_null()) is None);
            }
            lemma_p_str_rt(c, rest);
        },
    }
}

pub proof fn lemma_p_str_items_rt(xs: Seq<Seq<u8>>, rest: Seq<u8>)
    requires
        xs.len() >= 1,
        strs_wf(xs),
        rest.len() == 0 || rest[0] != 44,
    ensures
        p_str_items(enc_str_items(xs) + rest) == Some((xs, rest)),
    decreases xs.len(),
{
    let s = enc_str_items(xs) + rest;
    if xs.len() == 1 {
        assert(s =~= enc_str(xs[0]) + rest);
        lemma_p_str_rt(xs[0], rest);
        assert(seq![xs[0]] =~= xs);
    } else {
        let tail = xs.skip(1);
        assert(strs_wf(tail)) by {
            assert(forall|i: int| 0 <= i < tail.len() ==> #[trigger] tail[i] == xs[i + 1]);
        }
        let r = seq![44u8] + (enc_str_items(tail) + rest);
        assert(s =~= enc_str(xs[0]) + r);
        lemma_p_str_rt(xs[0], r);
        assert(r[0] == 44);
        assert(r.len() < s.len());
        assert(r.skip(1) =~= enc_str_items(tail) + rest);
        lemma_p_str_items_rt(tail, rest);
        assert(seq![xs[0]] + tail =~= xs);
    }
}

pub proof fn lemma_p_str_list_rt(xs: Seq<Seq<u8>>, rest: Seq<u8>)
    requires
        strs_wf(xs),
    ensures
        p_str_list(enc_str_list(xs) + rest) == Some((xs, rest)),
{
    let s = enc_str_list(xs) + rest;
    let t = enc_str_items(xs) + (seq![93u8] + rest);
    assert(s =~= seq![91u8] + t);
    lemma_p_lit_rt(seq![91u8], t);
    if xs.len() == 0 {
        assert(t =~= seq![93u8] + rest);
        assert(t[0] == 93);
        assert(t.skip(1) =~= rest);
        assert(xs =~= Seq::<Seq<u8>>::empty());
    } else {
        assert(enc_str_items(xs)[0] == 34) by {
            if xs.len() == 1 {
                assert(enc_str_items(xs)[0] == enc_str(xs[0])[0]);
            } else {
                assert(enc_str_items(xs)[0] == enc_str(xs[0])[0]);
            }
        }
        assert(t[0] == 34);
        let r = seq![93u8] + rest;
        lemma_p_str_items_rt(xs, r);
        assert(r[0] == 93);
        assert(r.skip(1) =~= rest);
    }
}

#[verifier::rlimit(100)]
proof fn lemma_enc_dep_shape(d: DepView, rest: Seq<u8>)
    ensures
        enc_dep(d) + rest == lit_obj_name() + (d.name + (seq![34u8] + (lit_req_key()
            + (enc_req(d.req) + (lit_dep_feats_key() + (enc_str_list(d.features)
            + (lit_optional_key() + (enc_bool(d.optional) + (lit_default_key()
            + (enc_bool(d.default_features) + (lit_target_key() + (enc_opt_str(d.target)
            + (seq![125u8] + rest))))))))))))),
{
    assert(enc_dep(d) + rest =~= lit_obj_name() + (d.name + (seq![34u8] + (lit_req_key()
        + (enc_req(d.req) + (lit_dep_feats_key() + (enc_str_list(d.features)
        + (lit_optional_key() + (enc_bool(d.optional) + (lit_default_key()
        + (enc_bool(d.default_features) + (lit_target_key() + (enc_opt_str(d.target)
        + (seq![125u8] + rest))))))))))))));
}

#[verifier::rlimit(100)]
pub proof fn lemma_p_dep_rt(d: DepView, rest: Seq<u8>)
    requires
        dep_wf(d),
    ensures
        p_dep(enc_dep(d) + rest) == Some((d, rest)),
{
    let t12 = seq![125u8] + rest;
    let t11 = enc_opt_str(d.target) + t12;
    let t10 = lit_target_key() + t11;
    let t9 = enc_bool(d.default_features) + t10;
    let t8 = lit_default_key() + t9;
    let t7 = enc_bool(d.optional) + t8;
    let t6 = lit_optional_key() + t7;
    let t5 = enc_str_list(d.features) + t6;
    let t4 = lit_dep_feats_key() + t5;
    let t3 = enc_req(d.req) + t4;
    let t2 = lit_req_key() + t3;
    let t1 = d.name + (seq![34u8] + t2);
    let s = lit_obj_name() + t1;
    lemma_enc_dep_shape(d, rest);
    assert(enc_dep(d) + rest == s);
    lemma_p_lit_rt(lit_obj_name(), t1);
    lemma_scan_rt(d.name, t2);
    lemma_p_lit_rt(lit_req_key(), t3);
    assert(t4[0] == 34 && !version_mod::is_digit(t4[0]) && t4[0] != 44);
    version_mod::lemma_p_req_rt(d.req, t4);
    lemma_p_lit_rt(lit_dep_feats_key(), t5);
    lemma_p_str_list_rt(d.features, t6);
    lemma_p_lit_rt(lit_optional_key(), t7);
    lemma_p_bool_rt(d.optional, t8);
    lemma_p_lit_rt(lit_default_key(), t9);
    lemma_p_bool_rt(d.default_features, t10);
    lemma_p_lit_rt(lit_target_key(), t11);
    lemma_p_opt_rt(d.target, t12);
    lemma_p_lit_rt(seq![125u8], rest);
    assert(t12 =~= seq![125u8] + rest);
}

#[verifier::rlimit(100)]
pub proof fn lemma_p_dep_items_rt(ds: Seq<DepView>, rest: Seq<u8>)
    requires
        ds.len() >= 1,
        forall|i: int| 0 <= i < ds.len() ==> dep_wf(#[trigger] ds[i]),
        rest.len() == 0 || rest[0] != 44,
    ensures
        p_dep_items(enc_dep_items(ds) + rest) == Some((ds, rest)),
    decreases ds.len(),
{
    let s = enc_dep_items(ds) + rest;
    if ds.len() == 1 {
        assert(s =~= enc_dep(ds[0]) + rest);
        lemma_p_dep_rt(ds[0], rest);
        assert(seq![ds[0]] =~= ds);
    } else {
        let tail = ds.skip(1);
        assert(forall|i: int| 0 <= i < tail.len() ==> #[trigger] tail[i] == ds[i + 1]);
        let r = seq![44u8] + (enc_dep_items(tail) + rest);
        assert(s =~= enc_dep(ds[0]) + r);
        lemma_p_dep_rt(ds[0], r);
        assert(r[0] == 44);
        assert(enc_dep(ds[0]).len() >= lit_obj_name().len());
        assert(r.len() < s.len());
        assert(r.skip(1) =~= enc_dep_items(tail) + rest);
        lemma_p_dep_items_rt(tail, rest);
        assert(seq![ds[0]] + tail =~= ds);
    }
}

pub proof fn lemma_p_dep_list_rt(ds: Seq<DepView>, rest: Seq<u8>)
    requires
        forall|i: int| 0 <= i < ds.len() ==> dep_wf(#[trigger] ds[i]),
    ensures
        p_dep_list(enc_dep_list(ds) + rest) == Some((ds, rest)),
{
    let s = enc_dep_list(ds) + rest;
    let t = enc_dep_items(ds) + (seq![93u8] + rest);
    assert(s =~= seq![91u8] + t);
    lemma_p_lit_rt(seq![91u8], t);
    if ds.len() == 0 {
        assert(t =~= seq![93u8] + rest);
        assert(t[0] == 93);
        assert(t.skip(1) =~= rest);
        assert(ds =~= Seq::<DepView>::empty());
    } else {
        assert(enc_dep_items(ds)[0] == enc_dep(ds[0])[0]);
        assert(enc_dep(ds[0])[0] == 123);
        assert(t[0] == 123);
        let r = seq![93u8] + rest;
        lemma_p_dep_items_rt(ds, r);
        assert(r[0] == 93);
        assert(r.skip(1) =~= rest);
    }
}

pub proof fn lemma_p_fentry_rt(f: (Seq<u8>, Seq<Seq<u8>>), rest: Seq<u8>)
    requires
        fentry_wf(f),
    ensures
        p_fentry(enc_fentry(f) + rest) == Some((f, rest)),
{
    let t2 = enc_str_list(f.1) + rest;
    let t1 = seq![58u8] + t2;
    let s = enc_fentry(f) + rest;
    assert(s =~= enc_str(f.0) + t1);
    lemma_p_str_rt(f.0, t1);
    lemma_p_lit_rt(seq![58u8], t2);
    lemma_p_str_list_rt(f.1, rest);
}

pub proof fn lemma_p_fentries_rt(fs: Seq<(Seq<u8>, Seq<Seq<u8>>)>, rest: Seq<u8>)
    requires
        fs.len() >= 1,
        forall|i: int| 0 <= i < fs.len() ==> fentry_wf(#[trigger] fs[i]),
        rest.len() == 0 || rest[0] != 44,
    ensures
        p_fentries(enc_fentries(fs) + rest) == Some((fs, rest)),
    decreases fs.len(),
{
    let s = enc_fentries(fs) + rest;
    if fs.len() == 1 {
        assert(s =~= enc_fentry(fs[0]) + rest);
        lemma_p_fentry_rt(fs[0], rest);
        assert(seq![fs[0]] =~= fs);
    } else {
        let tail = fs.skip(1);
        assert(forall|i: int| 0 <= i < tail.len() ==> #[trigger] tail[i] == fs[i + 1]);
        let r = seq![44u8] + (enc_fentries(tail) + rest);
        assert(s =~= enc_fentry(fs[0]) + r);
        lemma_p_fentry_rt(fs[0], r);
        assert(r[0] == 44);
        assert(enc_fentry(fs[0]).len() >= 1);
        assert(r.len() < s.len());
        assert(r.skip(1) =~= enc_fentries(tail) + rest);
        lemma_p_fentries_rt(tail, rest);
        assert(seq![fs[0]] + tail =~= fs);
    }
}

pub proof fn lemma_p_fmap_rt(fs: Seq<(Seq<u8>, Seq<Seq<u8>>)>, rest: Seq<u8>)
    requires
        forall|i: int| 0 <= i < fs.len() ==> fentry_wf(#[trigger] fs[i]),
    ensures
        p_fmap(enc_fmap(fs) + rest) == Some((fs, rest)),
{
    let s = enc_fmap(fs) + rest;
    let t = enc_fentries(fs) + (seq![125u8] + rest);
    assert(s =~= seq![123u8] + t);
    lemma_p_lit_rt(seq![123u8], t);
    if fs.len() == 0 {
        assert(t =~= seq![125u8] + rest);
        assert(t[0] == 125);
        assert(t.skip(1) =~= rest);
        assert(fs =~= Seq::<(Seq<u8>, Seq<Seq<u8>>)>::empty());
    } else {
        assert(enc_fentries(fs)[0] == enc_fentry(fs[0])[0]);
        assert(enc_fentry(fs[0])[0] == enc_str(fs[0].0)[0]);
        assert(t[0] == 34);
        let r = seq![125u8] + rest;
        lemma_p_fentries_rt(fs, r);
        assert(r[0] == 125);
        assert(r.skip(1) =~= rest);
    }
}

/// Round trip of one metadata line: parsing the canonical encoding of a
/// well-formed record yields exactly that record.
#[verifier::rlimit(100)]
pub proof fn lemma_record_round_trip(r: RecordView)
    requires
        record_wf(r),
    ensures
        p_record(enc_record(r)) == Some(r),
{
    let rest = Seq::<u8>::empty();
    let t10 = seq![125u8] + rest;
    let t9 = r.cksum + (seq![34u8] + t10);
    let t8 = lit_cksum_key() + t9;
    let t7 = enc_fmap(r.features) + t8;
    let t6 = lit_feats_key() + t7;
    let t5 = enc_dep_list(r.deps) + t6;
    let t4 = lit_deps_key() + t5;
    let t3 = enc_version(r.vers) + t4;
    let t2 = lit_vers_key() + t3;
    let t1 = r.name + (seq![34u8] + t2);
    let s = lit_obj_name() + t1;
    assert(enc_record(r) =~= s);
    lemma_p_lit_rt(lit_obj_name(), t1);
    lemma_scan_rt(r.name, t2);
    lemma_p_lit_rt(lit_vers_key(), t3);
    assert(t4[0] == 34 && !version_mod::is_digit(t4[0]));
    version_mod::lemma_p_version_rt(r.vers, t4);
    lemma_p_lit_rt(lit_deps_key(), t5);
    lemma_p_dep_list_rt(r.deps, t6);
    lemma_p_lit_rt(lit_feats_key(), t7);
    lemma_p_fmap_rt(r.features, t8);
    lemma_p_lit_rt(lit_cksum_key(), t9);
    lemma_scan_rt(r.cksum, t10);
    lemma_p_lit_rt(seq![125u8], rest);
    assert(t10 =~= seq![125u8] + rest);
}

/// Round trip of the configuration document.
pub proof fn lemma_config_round_trip(dl: Seq<u8>, api: Seq<u8>)
    requires
        str_wf(dl),
        str_wf(api),
    ensures
        p_config(enc_config(dl, api)) == Some((dl, api)),
{
    let rest = Seq::<u8>::empty();
    let t4 = seq![125u8] + rest;
    let t3 = api + (seq![34u8] + t4);
    let t2 = lit_api_key() + t3;
    let t1 = dl + (seq![34u8] + t2);
    let s = lit_dl_key() + t1;
    assert(enc_config(dl, api) =~= s);
    lemma_p_lit_rt(lit_dl_key(), t1);
    lemma_scan_rt(dl, t2);
    lemma_p_lit_rt(lit_api_key(), t3);
    lemma_scan_rt(api, t4);
    lemma_p_lit_rt(seq![125u8], rest);
    assert(t4 =~= seq![125u8] + rest);
}


// ---------------------------------------------------------------------------
// Executable parsing
// ---------------------------------------------------------------------------

use crate::version::slice_skip;
use crate::bytes::copy_bytes;

fn e_lit<'a>(s: &'a [u8], lit: &[u8]) -> (r: Option<&'a [u8]>)
    ensures
        match r {
            Some(rest) => p_lit(s@, lit@) == Some(rest@),
            None => p_lit(s@, lit@) is None,
        },
{
    if s.len() >= lit.len() {
        let (head, tail) = s.split_at(lit.len());
        assert(head@ =~= s@.take(lit@.len() as int));
        assert(tail@ =~= s@.skip(lit@.len() as int));
        if crate::bytes::bytes_eq(head, lit) {
            Some(tail)
        } else {
            None
        }
    } else {
        None
    }
}

proof fn lemma_scan_cases(s: Seq<u8>, j: int)
    requires
        0 <= j <= s.len(),
        forall|k: int| 0 <= k < j ==> valid_ch(#[trigger] s[k]),
        j == s.len() || !valid_ch(s[j]),
    ensures
        j < s.len() && s[j] == 34 ==> scan_str(s) == Some((s.take(j), s.skip(j + 1))),
        !(j < s.len() && s[j] == 34) ==> scan_str(s) is None,
    decreases j,
{
    if j == 0 {
        if 0 < s.len() && s[0] == 34 {
            assert(s.take(0) =~= Seq::<u8>::empty());
        }
    } else {
        lemma_scan_cases(s.skip(1), j - 1);
        if j < s.len() && s[j] == 34 {
            assert(s.skip(1)[j - 1] == s[j]);
            assert(seq![s[0]] + s.skip(1).take(j - 1) =~= s.take(j));
            assert(s.skip(1).skip(j) =~= s.skip(j + 1));
        } else {
            if j < s.len() {
                assert(s.skip(1)[j - 1] == s[j]);
            }
        }
    }
}

fn e_scan(s: &[u8]) -> (r: Option<(Vec<u8>, &[u8])>)
    ensures
        match r {
            Some((c, rest)) => scan_str(s@) == Some((c@, rest@)),
            None => scan_str(s@) is None,
        },
{
    let mut j: usize = 0;
    while j < s.len() && s[j] != 34 && s[j] != 92 && s[j] >= 32
        invariant
            0 <= j <= s@.len(),
            forall|k: int| 0 <= k < j ==> valid_ch(#[trigger] s@[k]),
        decreases s@.len() - j,
    {
        j += 1;
    }
    proof {
        lemma_scan_cases(s@, j as int);
    }
    if j < s.len() && s[j] == 34 {
        let (head, _) = s.split_at(j);
        let content = copy_bytes(head);
        assert(content@ =~= s@.take(j as int));
        Some((content, slice_skip(s, j + 1)))
    } else {
        None
    }
}

fn e_str(s: &[u8]) -> (r: Option<(Vec<u8>, &[u8])>)
    ensures
        match r {
            Some((c, rest)) => p_str(s@) == Some((c@, rest@)),
            None => p_str(s@) is None,
        },
{
    if s.len() >= 1 && s[0] == 34 {
        e_scan(slice_skip(s, 1))
    } else {
        None
    }
}

fn e_bool(s: &[u8]) -> (r: Option<(bool, &[u8])>)
    ensures
        match r {
            Some((b, rest)) => p_bool(s@) == Some((b, rest@)),
            None => p_bool(s@) is None,
        },
{
    let t = x_word_true();
    match e_lit(s, t.as_slice()) {
        Some(rest) => Some((true, rest)),
        None => {
            let f = x_word_false();
            match e_lit(s, f.as_slice()) {
                Some(rest) => Some((false, rest)),
                None => None,
            }
        },
    }
}

fn e_opt_str(s: &[u8]) -> (r: Option<(Option<Vec<u8>>, &[u8])>)
    ensures
        match r {
            Some((t, rest)) => p_opt_str(s@) == Some((opt_bytes_view(t), rest@)),
            None => p_opt_str(s@) is None,
        },
{
    let n = x_word_null();
    match e_lit(s, n.as_slice()) {
        Some(rest) => Some((None, rest)),
        None => match e_str(s) {
            Some((c, rest)) => Some((Some(c), rest)),
            None => None,
        },
    }
}

fn e_str_items(s: &[u8]) -> (r: Option<(Vec<Vec<u8>>, &[u8])>)
    ensures
        match r {
            Some((xs, rest)) => p_str_items(s@) == Some((bytes_views(xs@), rest@)),
            None => p_str_items(s@) is None,
        },
    decreases s@.len(),
{
    let (x, rr) = match e_str(s) {
        None => { return None; },
        Some(v) => v,
    };
    if rr.len() >= 1 && rr[0] == 44 && rr.len() < s.len() {
        match e_str_items(slice_skip(rr, 1)) {
            None => None,
            Some((mut tail, r2)) => {
                let ghost pre = tail@;
                let ghost xv = x@;
                tail.insert(0, x);
                proof {
                    assert(tail@ =~= seq![x] + pre);
                    assert(bytes_views(tail@) =~= seq![xv] + bytes_views(pre));
                }
                Some((tail, r2))
            },
        }
    } else if rr.len() >= 1 && rr[0] == 44 {
        None
    } else {
        let mut xs: Vec<Vec<u8>> = Vec::new();
        let ghost xv = x@;
        xs.push(x);
        assert(bytes_views(xs@) =~= seq![xv]);
        Some((xs, rr))
    }
}

fn e_str_list(s: &[u8]) -> (r: Option<(Vec<Vec<u8>>, &[u8])>)
    ensures
        match r {
            Some((xs, rest)) => p_str_list(s@) == Some((bytes_views(xs@), rest@)),
            None => p_str_list(s@) is None,
        },
{
    if s.len() >= 1 && s[0] == 91 {
        assert(s@.take(1) =~= seq![91u8]);
        let t = slice_skip(s, 1);
        if t.len() >= 1 && t[0] == 93 {
            let xs: Vec<Vec<u8>> = Vec::new();
            assert(bytes_views(xs@) =~= Seq::<Seq<u8>>::empty());
            Some((xs, slice_skip(t, 1)))
        } else {
            match e_str_items(t) {
                None => None,
                Some((xs, rr)) => {
                    if rr.len() >= 1 && rr[0] == 93 {
                        Some((xs, slice_skip(rr, 1)))
                    } else {
                        None
                    }
                },
            }
        }
    } else {
        if s.len() >= 1 {
            assert(s@.take(1)[0] == s@[0]);
        }
        None
    }
}

fn e_dep<'a>(s: &'a [u8]) -> (r: Option<(WireDependency, &'a [u8])>)
    ensures
        match r {
            Some((d, rest)) => p_dep(s@) == Some((d@, rest@)),
            None => p_dep(s@) is None,
        },
{
    let l1 = x_obj_name();
    let t1 = match e_lit(s, l1.as_slice()) { None => { return None; }, Some(t) => t };
    let (name, t2) = match e_scan(t1) { None => { return None; }, Some(v) => v };
    let l2 = x_req_key();
    let t3 = match e_lit(t2, l2.as_slice()) { None => { return None; }, Some(t) => t };
    let (req, t4) = match crate::version::e_req(t3) { None => { return None; }, Some(v) => v };
    let l3 = x_dep_feats_key();
    let t5 = match e_lit(t4, l3.as_slice()) { None => { return None; }, Some(t) => t };
    let (features, t6) = match e_str_list(t5) { None => { return None; }, Some(v) => v };
    let l4 = x_optional_key();
    let t7 = match e_lit(t6, l4.as_slice()) { None => { return None; }, Some(t) => t };
    let (optional, t8) = match e_bool(t7) { None => { return None; }, Some(v) => v };
    let l5 = x_default_key();
    let t9 = match e_lit(t8, l5.as_slice()) { None => { return None; }, Some(t) => t };
    let (default_features, t10) = match e_bool(t9) { None => { return None; }, Some(v) => v };
    let l6 = x_target_key();
    let t11 = match e_lit(t10, l6.as_slice()) { None => { return None; }, Some(t) => t };
    let (target, t12) = match e_opt_str(t11) { None => { return None; }, Some(v) => v };
    let mut rb: Vec<u8> = Vec::new();
    rb.push(125);
    assert(rb@ =~= seq![125u8]);
    let t13 = match e_lit(t12, rb.as_slice()) { None => { return None; }, Some(t) => t };
    Some((WireDependency { name, req, features, optional, default_features, target }, t13))
}

fn e_dep_items(s: &[u8]) -> (r: Option<(Vec<WireDependency>, &[u8])>)
    ensures
        match r {
            Some((ds, rest)) => p_dep_items(s@)
                == Some((ds@.map_values(|d: WireDependency| d@), rest@)),
            None => p_dep_items(s@) is None,
        },
    decreases s@.len(),
{
    let (d, rr) = match e_dep(s) {
        None => { return None; },
        Some(v) => v,
    };
    if rr.len() >= 1 && rr[0] == 44 && rr.len() < s.len() {
        match e_dep_items(slice_skip(rr, 1)) {
            None => None,
            Some((mut tail, r2)) => {
                let ghost pre = tail@;
                let ghost dv = d@;
                tail.insert(0, d);
                proof {
                    assert(tail@ =~= seq![d] + pre);
                    assert(tail@.map_values(|x: WireDependency| x@)
                        =~= seq![dv] + pre.map_values(|x: WireDependency| x@));
                }
                Some((tail, r2))
            },
        }
    } else if rr.len() >= 1 && rr[0] == 44 {
        None
    } else {
        let mut ds: Vec<WireDependency> = Vec::new();
        let ghost dv = d@;
        ds.push(d);
        assert(ds@.map_values(|x: WireDependency| x@) =~= seq![dv]);
        Some((ds, rr))
    }
}

fn e_dep_list(s: &[u8]) -> (r: Option<(Vec<WireDependency>, &[u8])>)
    ensures
        match r {
            Some((ds, rest)) => p_dep_list(s@)
                == Some((ds@.map_values(|d: WireDependency| d@), rest@)),
            None => p_dep_list(s@) is None,
        },
{
    if s.len() >= 1 && s[0] == 91 {
        assert(s@.take(1) =~= seq![91u8]);
        let t = slice_skip(s, 1);
        if t.len() >= 1 && t[0] == 93 {
            let ds: Vec<WireDependency> = Vec::new();
            assert(ds@.map_values(|d: WireDependency| d@) =~= Seq::<DepView>::empty());
            Some((ds, slice_skip(t, 1)))
        } else {
            match e_dep_items(t) {
                None => None,
                Some((ds, rr)) => {
                    if rr.len() >= 1 && rr[0] == 93 {
                        Some((ds, slice_skip(rr, 1)))
                    } else {
                        None
                    }
                },
            }
        }
    } else {
        if s.len() >= 1 {
            assert(s@.take(1)[0] == s@[0]);
        }
        None
    }
}

fn e_fentry<'a>(s: &'a [u8]) -> (r: Option<(FeatureEntry, &'a [u8])>)
    ensures
        match r {
            Some((f, rest)) => p_fentry(s@) == Some((f@, rest@)),
            None => p_fentry(s@) is None,
        },
{
    let (k, t1) = match e_str(s) { None => { return None; }, Some(v) => v };
    let mut colon: Vec<u8> = Vec::new();
    colon.push(58);
    assert(colon@ =~= seq![58u8]);
    let t2 = match e_lit(t1, colon.as_slice()) { None => { return None; }, Some(t) => t };
    let (vs, rr) = match e_str_list(t2) { None => { return None; }, Some(v) => v };
    Some((FeatureEntry { name: k, enables: vs }, rr))
}

fn e_fentries(s: &[u8]) -> (r: Option<(Vec<FeatureEntry>, &[u8])>)
    ensures
        match r {
            Some((fs, rest)) => p_fentries(s@)
                == Some((fs@.map_values(|f: FeatureEntry| f@), rest@)),
            None => p_fentries(s@) is None,
        },
    decreases s@.len(),
{
    let (f, rr) = match e_fentry(s) {
        None => { return None; },
        Some(v) => v,
    };
    if rr.len() >= 1 && rr[0] == 44 && rr.len() < s.len() {
        match e_fentries(slice_skip(rr, 1)) {
            None => None,
            Some((mut tail, r2)) => {
                let ghost pre = tail@;
                let ghost fv = f@;
                tail.insert(0, f);
                proof {
                    assert(tail@ =~= seq![f] + pre);
                    assert(tail@.map_values(|x: FeatureEntry| x@)
                        =~= seq![fv] + pre.map_values(|x: FeatureEntry| x@));
                }
                Some((tail, r2))
            },
        }
    } else if rr.len() >= 1 && rr[0] == 44 {
        None
    } else {
        let mut fs: Vec<FeatureEntry> = Vec::new();
        let ghost fv = f@;
        fs.push(f);
        assert(fs@.map_values(|x: FeatureEntry| x@) =~= seq![fv]);
        Some((fs, rr))
    }
}

fn e_fmap(s: &[u8]) -> (r: Option<(Vec<FeatureEntry>, &[u8])>)
    ensures
        match r {
            Some((fs, rest)) => p_fmap(s@)
                == Some((fs@.map_values(|f: FeatureEntry| f@), rest@)),
            None => p_fmap(s@) is None,
        },
{
    if s.len() >= 1 && s[0] == 123 {
        assert(s@.take(1) =~= seq![123u8]);
        let t = slice_skip(s, 1);
        if t.len() >= 1 && t[0] == 125 {
            let fs: Vec<FeatureEntry> = Vec::new();
            assert(fs@.map_values(|f: FeatureEntry| f@)
                =~= Seq::<(Seq<u8>, Seq<Seq<u8>>)>::empty());
            Some((fs, slice_skip(t, 1)))
        } else {
            match e_fentries(t) {
                None => None,
                Some((fs, rr)) => {
                    if rr.len() >= 1 && rr[0] == 125 {
                        Some((fs, slice_skip(rr, 1)))
                    } else {
                        None
                    }
                },
            }
        }
    } else {
        if s.len() >= 1 {
            assert(s@.take(1)[0] == s@[0]);
        }
        None
    }
}

/// Decode one metadata line into a wire record; the line must hold exactly
/// one record in the canonical shape.
pub fn parse_record(s: &[u8]) -> (r: Option<WireRecord>)
    ensures
        match r {
            Some(rec) => p_record(s@) == Some(rec@),
            None => p_record(s@) is None,
        },
{
    let l1 = x_obj_name();
    let t1 = match e_lit(s, l1.as_slice()) { None => { return None; }, Some(t) => t };
    let (name, t2) = match e_scan(t1) { None => { return None; }, Some(v) => v };
    let l2 = x_vers_key();
    let t3 = match e_lit(t2, l2.as_slice()) { None => { return None; }, Some(t) => t };
    let (vers, t4) = match crate::version::e_version(t3) { None => { return None; }, Some(v) => v };
    let l3 = x_deps_key();
    let t5 = match e_lit(t4, l3.as_slice()) { None => { return None; }, Some(t) => t };
    let (deps, t6) = match e_dep_list(t5) { None => { return None; }, Some(v) => v };
    let l4 = x_feats_key();
    let t7 = match e_lit(t6, l4.as_slice()) { None => { return None; }, Some(t) => t };
    let (features, t8) = match e_fmap(t7) { None => { return None; }, Some(v) => v };
    let l5 = x_cksum_key();
    let t9 = match e_lit(t8, l5.as_slice()) { None => { return None; }, Some(t) => t };
    let (cksum, t10) = match e_scan(t9) { None => { return None; }, Some(v) => v };
    let mut rb: Vec<u8> = Vec::new();
    rb.push(125);
    assert(rb@ =~= seq![125u8]);
    let t11 = match e_lit(t10, rb.as_slice()) { None => { return None; }, Some(t) => t };
    if t11.len() == 0 {
        let rec = WireRecord { name, vers, deps, features, cksum };
        Some(rec)
    } else {
        None
    }
}

/// Decode the registry configuration document `{"dl":STR,"api":STR}`.
pub fn parse_config(s: &[u8]) -> (r: Option<(Vec<u8>, Vec<u8>)>)
    ensures
        match r {
            Some((dl, api)) => p_config(s@) == Some((dl@, api@)),
            None => p_config(s@) is None,
        },
{
    let l1 = x_dl_key();
    let t1 = match e_lit(s, l1.as_slice()) { None => { return None; }, Some(t) => t };
    let (dl, t2) = match e_scan(t1) { None => { return None; }, Some(v) => v };
    let l2 = x_api_key();
    let t3 = match e_lit(t2, l2.as_slice()) { None => { return None; }, Some(t) => t };
    let (api, t4) = match e_scan(t3) { None => { return None; }, Some(v) => v };
    let mut rb: Vec<u8> = Vec::new();
    rb.push(125);
    assert(rb@ =~= seq![125u8]);
    let t5 = match e_lit(t4, rb.as_slice()) { None => { return None; }, Some(t) => t };
    if t5.len() == 0 {
        Some((dl, api))
    } else {
        None
    }
}

// ---------------------------------------------------------------------------
// The reference encoder
// ---------------------------------------------------------------------------

fn w_str(out: &mut Vec<u8>, s: &[u8])
    ensures
        final(out)@ == old(out)@ + enc_str(s@),
{
    out.push(34);
    push_all(out, s);
    out.push(34);
    assert(out@ =~= old(out)@ + enc_str(s@));
}

fn w_str_items(out: &mut Vec<u8>, xs: &Vec<Vec<u8>>, i: usize)
    requires
        i <= xs@.len(),
    ensures
        final(out)@ == old(out)@ + enc_str_items(bytes_views(xs@).skip(i as int)),
    decreases xs@.len() - i,
{
    let ghost sk = bytes_views(xs@).skip(i as int);
    if i >= xs.len() {
        assert(sk =~= Seq::<Seq<u8>>::empty());
        assert(out@ =~= old(out)@ + enc_str_items(sk));
    } else {
        assert(sk[0] == xs@[i as int]@);
        w_str(out, xs[i].as_slice());
        if i + 1 < xs.len() {
            out.push(44);
            w_str_items(out, xs, i + 1);
            assert(sk.skip(1) =~= bytes_views(xs@).skip(i + 1));
            assert(out@ =~= old(out)@ + enc_str_items(sk));
        } else {
            assert(sk.len() == 1);
        }
    }
}

fn w_str_list(out: &mut Vec<u8>, xs: &Vec<Vec<u8>>)
    ensures
        final(out)@ == old(out)@ + enc_str_list(bytes_views(xs@)),
{
    out.push(91);
    w_str_items(out, xs, 0);
    out.push(93);
    assert(bytes_views(xs@).skip(0) =~= bytes_views(xs@));
    assert(out@ =~= old(out)@ + enc_str_list(bytes_views(xs@)));
}

fn w_bool(out: &mut Vec<u8>, b: bool)
    ensures
        final(out)@ == old(out)@ + enc_bool(b),
{
    if b {
        let t = x_word_true();
        push_all(out, t.as_slice());
    } else {
        let f = x_word_false();
        push_all(out, f.as_slice());
    }
}

fn w_opt_str(out: &mut Vec<u8>, t: &Option<Vec<u8>>)
    ensures
        final(out)@ == old(out)@ + enc_opt_str(opt_bytes_view(*t)),
{
    match t {
        None => {
            let n = x_word_null();
            push_all(out, n.as_slice());
        },
        Some(s) => {
            w_str(out, s.as_slice());
        },
    }
}

#[verifier::rlimit(100)]
fn w_dep(out: &mut Vec<u8>, d: &WireDependency)
    ensures
        final(out)@ == old(out)@ + enc_dep(d@),
{
    let l1 = x_obj_name();
    push_all(out, l1.as_slice());
    push_all(out, d.name.as_slice());
    out.push(34);
    let l2 = x_req_key();
    push_all(out, l2.as_slice());
    let rq = crate::version::render_req(&d.req);
    push_all(out, rq.as_slice());
    let l3 = x_dep_feats_key();
    push_all(out, l3.as_slice());
    w_str_list(out, &d.features);
    let l4 = x_optional_key();
    push_all(out, l4.as_slice());
    w_bool(out, d.optional);
    let l5 = x_default_key();
    push_all(out, l5.as_slice());
    w_bool(out, d.default_features);
    let l6 = x_target_key();
    push_all(out, l6.as_slice());
    w_opt_str(out, &d.target);
    out.push(125);
    assert(out@ =~= old(out)@ + enc_dep(d@));
}

fn w_dep_items(out: &mut Vec<u8>, ds: &Vec<WireDependency>, i: usize)
    requires
        i <= ds@.len(),
    ensures
        final(out)@ == old(out)@
            + enc_dep_items(ds@.map_values(|d: WireDependency| d@).skip(i as int)),
    decreases ds@.len() - i,
{
    let ghost sk = ds@.map_values(|d: WireDependency| d@).skip(i as int);
    if i >= ds.len() {
        assert(sk =~= Seq::<DepView>::empty());
        assert(out@ =~= old(out)@ + enc_dep_items(sk));
    } else {
        assert(sk[0] == ds@[i as int]@);
        w_dep(out, &ds[i]);
        if i + 1 < ds.len() {
            out.push(44);
            w_dep_items(out, ds, i + 1);
            assert(sk.skip(1) =~= ds@.map_values(|d: WireDependency| d@).skip(i + 1));
            assert(out@ =~= old(out)@ + enc_dep_items(sk));
        } else {
            assert(sk.len() == 1);
        }
    }
}

fn w_dep_list(out: &mut Vec<u8>, ds: &Vec<WireDependency>)
    ensures
        final(out)@ == old(out)@ + enc_dep_list(ds@.map_values(|d: WireDependency| d@)),
{
    out.push(91);
    w_dep_items(out, ds, 0);
    out.push(93);
    assert(ds@.map_values(|d: WireDependency| d@).skip(0)
        =~= ds@.map_values(|d: WireDependency| d@));
    assert(out@ =~= old(out)@ + enc_dep_list(ds@.map_values(|d: WireDependency| d@)));
}

fn w_fentry(out: &mut Vec<u8>, f: &FeatureEntry)
    ensures
        final(out)@ == old(out)@ + enc_fentry(f@),
{
    w_str(out, f.name.as_slice());
    out.push(58);
    w_str_list(out, &f.enables);
    assert(out@ =~= old(out)@ + enc_fentry(f@));
}

fn w_fentries(out: &mut Vec<u8>, fs: &Vec<FeatureEntry>, i: usize)
    requires
        i <= fs@.len(),
    ensures
        final(out)@ == old(out)@
            + enc_fentries(fs@.map_values(|f: FeatureEntry| f@).skip(i as int)),
    decreases fs@.len() - i,
{
    let ghost sk = fs@.map_values(|f: FeatureEntry| f@).skip(i as int);
    if i >= fs.len() {
        assert(sk =~= Seq::<(Seq<u8>, Seq<Seq<u8>>)>::empty());
        assert(out@ =~= old(out)@ + enc_fentries(sk));
    } else {
        assert(sk[0] == fs@[i as int]@);
        w_fentry(out, &fs[i]);
        if i + 1 < fs.len() {
            out.push(44);
            w_fentries(out, fs, i + 1);
            assert(sk.skip(1) =~= fs@.map_values(|f: FeatureEntry| f@).skip(i + 1));
            assert(out@ =~= old(out)@ + enc_fentries(sk));
        } else {
            assert(sk.len() == 1);
        }
    }
}

fn w_fmap(out: &mut Vec<u8>, fs: &Vec<FeatureEntry>)
    ensures
        final(out)@ == old(out)@ + enc_fmap(fs@.map_values(|f: FeatureEntry| f@)),
{
    out.push(123);
    w_fentries(out, fs, 0);
    out.push(125);
    assert(fs@.map_values(|f: FeatureEntry| f@).skip(0)
        =~= fs@.map_values(|f: FeatureEntry| f@));
    assert(out@ =~= old(out)@ + enc_fmap(fs@.map_values(|f: FeatureEntry| f@)));
}

/// Encode a wire record canonically; this is the reference encoder whose
/// output `parse_record` reads back unchanged.
#[verifier::rlimit(100)]
pub fn encode_record(rec: &WireRecord) -> (r: Vec<u8>)
    ensures
        r@ == enc_record(rec@),
{
    let mut out: Vec<u8> = Vec::new();
    let l1 = x_obj_name();
    push_all(&mut out, l1.as_slice());
    push_all(&mut out, rec.name.as_slice());
    out.push(34);
    let l2 = x_vers_key();
    push_all(&mut out, l2.as_slice());
    let vs = crate::version::render_version(&rec.vers);
    push_all(&mut out, vs.as_slice());
    let l3 = x_deps_key();
    push_all(&mut out, l3.as_slice());
    w_dep_list(&mut out, &rec.deps);
    let l4 = x_feats_key();
    push_all(&mut out, l4.as_slice());
    w_fmap(&mut out, &rec.features);
    let l5 = x_cksum_key();
    push_all(&mut out, l5.as_slice());
    push_all(&mut out, rec.cksum.as_slice());
    let l6 = x_obj_end();
    push_all(&mut out, l6.as_slice());
    assert(out@ =~= enc_record(rec@));
    out
}

/// Encode a registry configuration document canonically.
pub fn encode_config(dl: &[u8], api: &[u8]) -> (r: Vec<u8>)
    ensures
        r@ == enc_config(dl@, api@),
{
    let mut out: Vec<u8> = Vec::new();
    let l1 = x_dl_key();
    push_all(&mut out, l1.as_slice());
    push_all(&mut out, dl);
    out.push(34);
    let l2 = x_api_key();
    push_all(&mut out, l2.as_slice());
    push_all(&mut out, api);
    let l3 = x_obj_end();
    push_all(&mut out, l3.as_slice());
    assert(out@ =~= enc_config(dl@, api@));
    out
}

} // verus!
