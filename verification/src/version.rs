//! Versions and version requirements.
//!
//! A version is a `major.minor.patch` triple of decimal numbers, each with at
//! most nine digits and no superfluous leading zero.  A requirement is a
//! nonempty list of comparators (`=`, `>`, `>=`, `<`, `<=`, or a bare version
//! meaning `=`) separated by `", "`.  Both have a canonical rendering, and
//! parsing the canonical rendering gives back the value (see the round-trip
//! lemmas at the end).
use vstd::prelude::*;
use vstd::arithmetic::div_mod::lemma_fundamental_div_mod;

verus! {

/// A published version: a semantic-version triple.
#[derive(Clone, Copy, PartialEq, Eq, Structural, Debug)]
pub struct Version {
    pub major: u32,
    pub minor: u32,
    pub patch: u32,
}

/// Comparison operator of one requirement comparator.
#[derive(Clone, Copy, PartialEq, Eq, Structural, Debug)]
pub enum CmpOp {
    Exact,
    Greater,
    GreaterEq,
    Less,
    LessEq,
}

/// One comparator of a version requirement.
#[derive(Clone, Copy, PartialEq, Eq, Structural, Debug)]
pub struct Comparator {
    pub op: CmpOp,
    pub version: Version,
}

/// Largest value a version component may take: nine decimal digits.
pub open spec fn max_component() -> nat {
    999_999_999
}

pub open spec fn version_wf(v: Version) -> bool {
    v.major <= max_component() && v.minor <= max_component() && v.patch <= max_component()
}

pub open spec fn req_wf(req: Seq<Comparator>) -> bool {
    req.len() >= 1 && forall|i: int| 0 <= i < req.len() ==> version_wf(#[trigger] req[i].version)
}

// ---------------------------------------------------------------------------
// Ordering and matching
// ---------------------------------------------------------------------------

/// Strict lexicographic order on version triples.
pub open spec fn version_lt(a: Version, b: Version) -> bool {
    a.major < b.major
        || (a.major == b.major && a.minor < b.minor)
        || (a.major == b.major && a.minor == b.minor && a.patch < b.patch)
}

/// Whether a version satisfies one comparator.
pub open spec fn cmp_matches(v: Version, c: Comparator) -> bool {
    match c.op {
        CmpOp::Exact => v == c.version,
        CmpOp::Greater => version_lt(c.version, v),
        CmpOp::GreaterEq => version_lt(c.version, v) || v == c.version,
        CmpOp::Less => version_lt(v, c.version),
        CmpOp::LessEq => version_lt(v, c.version) || v == c.version,
    }
}

/// Whether a version satisfies every comparator of a requirement.
pub open spec fn req_matches(v: Version, req: Seq<Comparator>) -> bool {
    forall|i: int| 0 <= i < req.len() ==> cmp_matches(v, #[trigger] req[i])
}

/// Decide `version_lt` at run time.
pub fn version_lt_exec(a: &Version, b: &Version) -> (r: bool)
    ensures
        r == version_lt(*a, *b),
{
    a.major < b.major
        || (a.major == b.major && a.minor < b.minor)
        || (a.major == b.major && a.minor == b.minor && a.patch < b.patch)
}

/// Decide whether `v` satisfies every comparator of `req`.
pub fn matches_req(v: &Version, req: &Vec<Comparator>) -> (r: bool)
    ensures
        r == req_matches(*v, req@),
{
    let mut i: usize = 0;
    while i < req.len()
        invariant
            0 <= i <= req@.len(),
            forall|k: int| 0 <= k < i ==> cmp_matches(*v, #[trigger] req@[k]),
        decreases req@.len() - i,
    {
        let c = req[i];
        let ok = match c.op {
            CmpOp::Exact => *v == c.version,
            CmpOp::Greater => version_lt_exec(&c.version, v),
            CmpOp::GreaterEq => version_lt_exec(&c.version, v) || *v == c.version,
            CmpOp::Less => version_lt_exec(v, &c.version),
            CmpOp::LessEq => version_lt_exec(v, &c.version) || *v == c.version,
        };
        if !ok {
            return false;
        }
        i += 1;
    }
    true
}

// ---------------------------------------------------------------------------
// Decimal digits
// ---------------------------------------------------------------------------

pub open spec fn is_digit(b: u8) -> bool {
    48 <= b <= 57
}

pub open spec fn all_digits(s: Seq<u8>) -> bool {
    forall|i: int| 0 <= i < s.len() ==> is_digit(#[trigger] s[i])
}

/// Value of a digit run, most significant first.
pub open spec fn digits_val(s: Seq<u8>) -> nat
    decreases s.len(),
{
    if s.len() == 0 {
        0
    } else {
        digits_val(s.drop_last()) * 10 + (s.last() - 48) as nat
    }
}

/// Canonical decimal rendering of a number.
pub open spec fn dec(n: nat) -> Seq<u8>
    decreases n,
{
    if n < 10 {
        seq![(48 + n) as u8]
    } else {
        dec(n / 10).push((48 + n % 10) as u8)
    }
}

pub open spec fn pow10(k: nat) -> nat
    decreases k,
{
    if k == 0 {
        1
    } else {
        10 * pow10((k - 1) as nat)
    }
}

pub proof fn lemma_dec_val(n: nat)
    ensures
        digits_val(dec(n)) == n,
    decreases n,
{
    if n < 10 {
        assert(dec(n) =~= seq![(48 + n) as u8]);
        assert(dec(n).drop_last() =~= Seq::<u8>::empty());
        assert(digits_val(Seq::<u8>::empty()) == 0);
        assert(digits_val(dec(n)) == 0 * 10 + ((48 + n) as u8 - 48) as nat);
    } else {
        lemma_dec_val(n / 10);
        assert(dec(n).drop_last() =~= dec(n / 10));
        lemma_fundamental_div_mod(n as int, 10);
        assert(0 <= n % 10 < 10);
        assert(dec(n).last() == (48 + n % 10) as u8);
        assert((dec(n).last() - 48) as nat == n % 10);
        assert(digits_val(dec(n)) == (n / 10) * 10 + n % 10);
    }
}

pub proof fn lemma_dec_shape(n: nat)
    ensures
        dec(n).len() >= 1,
        all_digits(dec(n)),
        n >= 1 ==> dec(n)[0] != 48,
        n < 10 ==> dec(n).len() == 1,
    decreases n,
{
    if n < 10 {
    } else {
        lemma_dec_shape(n / 10);
        assert(dec(n)[0] == dec(n / 10)[0]);
    }
}

pub proof fn lemma_dec_len(n: nat, k: nat)
    requires
        1 <= k,
        n < pow10(k),
    ensures
        dec(n).len() <= k,
    decreases k,
{
    if n < 10 {
    } else {
        assert(pow10(k) == 10 * pow10((k - 1) as nat));
        if k == 1 {
            assert(pow10(1nat) == 10);
            assert(false);
        }
        lemma_fundamental_div_mod(n as int, 10);
        assert(10 * (n as int / 10) < 10 * pow10((k - 1) as nat));
        assert(n / 10 < pow10((k - 1) as nat));
        lemma_dec_len(n / 10, (k - 1) as nat);
    }
}

// ---------------------------------------------------------------------------
// Parsing (suffix style: a parser consumes a prefix and returns the rest)
// ---------------------------------------------------------------------------

/// Longest run of leading digits, and what follows it.
pub open spec fn scan_digits(s: Seq<u8>) -> (Seq<u8>, Seq<u8>)
    decreases s.len(),
{
    if s.len() > 0 && is_digit(s[0]) {
        let (ds, r) = scan_digits(s.skip(1));
        (seq![s[0]] + ds, r)
    } else {
        (Seq::empty(), s)
    }
}

/// Parse a decimal component: one to nine digits, no leading zero except "0".
pub open spec fn p_num(s: Seq<u8>) -> Option<(u32, Seq<u8>)> {
    let (ds, r) = scan_digits(s);
    if ds.len() < 1 || ds.len() > 9 {
        None
    } else if ds.len() > 1 && ds[0] == 48 {
        None
    } else {
        Some((digits_val(ds) as u32, r))
    }
}

/// Parse `major.minor.patch`.
pub open spec fn p_version(s: Seq<u8>) -> Option<(Version, Seq<u8>)> {
    match p_num(s) {
        None => None,
        Some((major, r1)) => if r1.len() >= 1 && r1[0] == 46 {
            match p_num(r1.skip(1)) {
                None => None,
                Some((minor, r2)) => if r2.len() >= 1 && r2[0] == 46 {
                    match p_num(r2.skip(1)) {
                        None => None,
                        Some((patch, r3)) => Some((Version { major, minor, patch }, r3)),
                    }
                } else {
                    None
                },
            }
        } else {
            None
        },
    }
}

/// Parse one comparator: an optional operator, then a version.
pub open spec fn p_cmp(s: Seq<u8>) -> Option<(Comparator, Seq<u8>)> {
    let (op, t) = if s.len() >= 2 && s[0] == 62 && s[1] == 61 {
        (CmpOp::GreaterEq, s.skip(2))
    } else if s.len() >= 2 && s[0] == 60 && s[1] == 61 {
        (CmpOp::LessEq, s.skip(2))
    } else if s.len() >= 1 && s[0] == 62 {
        (CmpOp::Greater, s.skip(1))
    } else if s.len() >= 1 && s[0] == 60 {
        (CmpOp::Less, s.skip(1))
    } else if s.len() >= 1 && s[0] == 61 {
        (CmpOp::Exact, s.skip(1))
    } else {
        (CmpOp::Exact, s)
    };
    match p_version(t) {
        None => None,
        Some((v, r)) => Some((Comparator { op, version: v }, r)),
    }
}

/// Parse a requirement: comparators separated by `", "`.
pub open spec fn p_req(s: Seq<u8>) -> Option<(Seq<Comparator>, Seq<u8>)>
    decreases s.len(),
{
    match p_cmp(s) {
        None => None,
        Some((c, r)) => if r.len() >= 2 && r[0] == 44 && r[1] == 32 && r.len() < s.len() {
            match p_req(r.skip(2)) {
                None => None,
                Some((cs, r2)) => Some((seq![c] + cs, r2)),
            }
        } else if r.len() >= 2 && r[0] == 44 && r[1] == 32 {
            None
        } else {
            Some((seq![c], r))
        },
    }
}

// ---------------------------------------------------------------------------
// Canonical rendering
// ---------------------------------------------------------------------------

pub open spec fn enc_version(v: Version) -> Seq<u8> {
    dec(v.major as nat) + seq![46u8] + dec(v.minor as nat) + seq![46u8] + dec(v.patch as nat)
}

pub open spec fn enc_op(op: CmpOp) -> Seq<u8> {
    match op {
        CmpOp::Exact => seq![61u8],
        CmpOp::Greater => seq![62u8],
        CmpOp::GreaterEq => seq![62u8, 61u8],
        CmpOp::Less => seq![60u8],
        CmpOp::LessEq => seq![60u8, 61u8],
    }
}

pub open spec fn enc_cmp(c: Comparator) -> Seq<u8> {
    enc_op(c.op) + enc_version(c.version)
}

pub open spec fn enc_req(req: Seq<Comparator>) -> Seq<u8>
    decreases req.len(),
{
    if req.len() == 0 {
        Seq::empty()
    } else if req.len() == 1 {
        enc_cmp(req[0])
    } else {
        enc_cmp(req[0]) + seq![44u8, 32u8] + enc_req(req.skip(1))
    }
}

// ---------------------------------------------------------------------------
// Executable parsing
// ---------------------------------------------------------------------------

pub proof fn lemma_pow10_mono(a: nat, b: nat)
    requires
        a <= b,
    ensures
        pow10(a) <= pow10(b),
    decreases b,
{
    if a < b {
        lemma_pow10_mono(a, (b - 1) as nat);
    }
}

proof fn lemma_scan_digits_split(s: Seq<u8>, j: int)
    requires
        0 <= j <= s.len(),
        forall|k: int| 0 <= k < j ==> is_digit(#[trigger] s[k]),
        j == s.len() || !is_digit(s[j]),
    ensures
        scan_digits(s) == (s.take(j), s.skip(j)),
    decreases j,
{
    if j == 0 {
        assert(s.take(0) =~= Seq::<u8>::empty());
        assert(s.skip(0) =~= s);
    } else {
        lemma_scan_digits_split(s.skip(1), j - 1);
        assert(seq![s[0]] + s.skip(1).take(j - 1) =~= s.take(j));
        assert(s.skip(1).skip(j - 1) =~= s.skip(j));
    }
}

/// Parse one decimal component at the head of `s`.
pub fn e_num(s: &[u8]) -> (r: Option<(u32, &[u8])>)
    ensures
        match r {
            Some((v, rest)) => p_num(s@) == Some((v, rest@)),
            None => p_num(s@) is None,
        },
{
    let mut j: usize = 0;
    while j < s.len() && 48 <= s[j] && s[j] <= 57
        invariant
            0 <= j <= s@.len(),
            forall|k: int| 0 <= k < j ==> is_digit(#[trigger] s@[k]),
        decreases s@.len() - j,
    {
        j += 1;
    }
    proof {
        lemma_scan_digits_split(s@, j as int);
        assert(scan_digits(s@).0 == s@.take(j as int));
        assert(s@.take(j as int).len() == j);
    }
    if j < 1 || j > 9 {
        return None;
    }
    if j > 1 && s[0] == 48 {
        assert(s@.take(j as int)[0] == 48);
        return None;
    }
    let mut val: u32 = 0;
    let mut i: usize = 0;
    while i < j
        invariant
            0 <= i <= j <= 9,
            j <= s@.len(),
            forall|k: int| 0 <= k < j ==> is_digit(#[trigger] s@[k]),
            val == digits_val(s@.take(i as int)),
            val < pow10(i as nat),
        decreases j - i,
    {
        proof {
            lemma_pow10_mono(i as nat, 8);
            reveal_with_fuel(pow10, 10);
            assert(pow10(8) == 100000000);
            assert(s@.take(i + 1).drop_last() =~= s@.take(i as int));
            assert(s@.take(i + 1).last() == s@[i as int]);
        }
        val = val * 10 + (s[i] - 48) as u32;
        i += 1;
    }
    proof {
        assert(s@.take(j as int)[0] == s@[0]);
        assert(digits_val(scan_digits(s@).0) == val);
    }
    Some((val, slice_skip(s, j)))
}

/// The tail of a slice from `n` on.
pub fn slice_skip(s: &[u8], n: usize) -> (r: &[u8])
    requires
        n <= s@.len(),
    ensures
        r@ == s@.skip(n as int),
{
    let r = s.split_at(n).1;
    assert(r@ =~= s@.skip(n as int));
    r
}

/// Parse `major.minor.patch` at the head of `s`.
pub fn e_version(s: &[u8]) -> (r: Option<(Version, &[u8])>)
    ensures
        match r {
            Some((v, rest)) => p_version(s@) == Some((v, rest@)),
            None => p_version(s@) is None,
        },
{
    let (major, r1) = match e_num(s) {
        None => { return None; },
        Some(x) => x,
    };
    if r1.len() < 1 || r1[0] != 46 {
        return None;
    }
    let (minor, r2) = match e_num(slice_skip(r1, 1)) {
        None => { return None; },
        Some(x) => x,
    };
    if r2.len() < 1 || r2[0] != 46 {
        return None;
    }
    let (patch, r3) = match e_num(slice_skip(r2, 1)) {
        None => { return None; },
        Some(x) => x,
    };
    Some((Version { major, minor, patch }, r3))
}

/// Parse one comparator at the head of `s`.
pub fn e_cmp(s: &[u8]) -> (r: Option<(Comparator, &[u8])>)
    ensures
        match r {
            Some((c, rest)) => p_cmp(s@) == Some((c, rest@)),
            None => p_cmp(s@) is None,
        },
{
    assert(s@.skip(0) =~= s@);
    let (op, t) = if s.len() >= 2 && s[0] == 62 && s[1] == 61 {
        (CmpOp::GreaterEq, slice_skip(s, 2))
    } else if s.len() >= 2 && s[0] == 60 && s[1] == 61 {
        (CmpOp::LessEq, slice_skip(s, 2))
    } else if s.len() >= 1 && s[0] == 62 {
        (CmpOp::Greater, slice_skip(s, 1))
    } else if s.len() >= 1 && s[0] == 60 {
        (CmpOp::Less, slice_skip(s, 1))
    } else if s.len() >= 1 && s[0] == 61 {
        (CmpOp::Exact, slice_skip(s, 1))
    } else {
        (CmpOp::Exact, slice_skip(s, 0))
    };
    match e_version(t) {
        None => None,
        Some((v, rest)) => Some((Comparator { op, version: v }, rest)),
    }
}

/// Parse a whole requirement at the head of `s`.
pub fn e_req(s: &[u8]) -> (r: Option<(Vec<Comparator>, &[u8])>)
    ensures
        match r {
            Some((cs, rest)) => p_req(s@) == Some((cs@, rest@)),
            None => p_req(s@) is None,
        },
    decreases s@.len(),
{
    let (c, rest) = match e_cmp(s) {
        None => { return None; },
        Some(x) => x,
    };
    if rest.len() >= 2 && rest[0] == 44 && rest[1] == 32 && rest.len() < s.len() {
        match e_req(slice_skip(rest, 2)) {
            None => None,
            Some((tail, r2)) => {
                let mut cs: Vec<Comparator> = Vec::new();
                cs.push(c);
                let mut k: usize = 0;
                while k < tail.len()
                    invariant
                        0 <= k <= tail@.len(),
                        cs@ == seq![c] + tail@.subrange(0, k as int),
                    decreases tail@.len() - k,
                {
                    cs.push(tail[k]);
                    assert(seq![c] + tail@.subrange(0, k as int) + seq![tail@[k as int]]
                        =~= seq![c] + tail@.subrange(0, k + 1));
                    k += 1;
                }
                assert(tail@.subrange(0, tail@.len() as int) =~= tail@);
                Some((cs, r2))
            },
        }
    } else if rest.len() >= 2 && rest[0] == 44 && rest[1] == 32 {
        None
    } else {
        let mut cs: Vec<Comparator> = Vec::new();
        cs.push(c);
        assert(cs@ =~= seq![c]);
        Some((cs, rest))
    }
}

/// Parse a requirement that must cover the whole input.
pub fn parse_req(s: &[u8]) -> (r: Option<Vec<Comparator>>)
    ensures
        match r {
            Some(cs) => p_req(s@) == Some((cs@, Seq::<u8>::empty())),
            None => !(p_req(s@) matches Some((_, rest)) && rest.len() == 0),
        },
{
    match e_req(s) {
        None => None,
        Some((cs, rest)) => {
            if rest.len() == 0 {
                assert(rest@ =~= Seq::<u8>::empty());
                Some(cs)
            } else {
                None
            }
        },
    }
}

// ---------------------------------------------------------------------------
// Executable rendering
// ---------------------------------------------------------------------------

/// Render a number in decimal.
pub fn e_dec(n: u32) -> (r: Vec<u8>)
    ensures
        r@ == dec(n as nat),
    decreases n,
{
    if n < 10 {
        let mut out: Vec<u8> = Vec::new();
        out.push(48 + n as u8);
        assert(out@ =~= seq![(48 + n as nat) as u8]);
        out
    } else {
        let mut out = e_dec(n / 10);
        out.push(48 + (n % 10) as u8);
        out
    }
}

/// Render a version canonically.
pub fn render_version(v: &Version) -> (r: Vec<u8>)
    ensures
        r@ == enc_version(*v),
{
    let mut out = e_dec(v.major);
    out.push(46);
    let mut minor = e_dec(v.minor);
    crate::bytes::push_all(&mut out, minor.as_slice());
    out.push(46);
    let mut patch = e_dec(v.patch);
    crate::bytes::push_all(&mut out, patch.as_slice());
    assert(out@ =~= enc_version(*v));
    out
}

/// Render one comparator canonically.
pub fn render_cmp(c: &Comparator) -> (r: Vec<u8>)
    ensures
        r@ == enc_cmp(*c),
{
    let mut out: Vec<u8> = Vec::new();
    match c.op {
        CmpOp::Exact => { out.push(61); },
        CmpOp::Greater => { out.push(62); },
        CmpOp::GreaterEq => { out.push(62); out.push(61); },
        CmpOp::Less => { out.push(60); },
        CmpOp::LessEq => { out.push(60); out.push(61); },
    }
    assert(out@ =~= enc_op(c.op));
    let v = render_version(&c.version);
    crate::bytes::push_all(&mut out, v.as_slice());
    out
}

fn render_req_tail(req: &Vec<Comparator>, i: usize) -> (r: Vec<u8>)
    requires
        i <= req@.len(),
    ensures
        r@ == enc_req(req@.skip(i as int)),
    decreases req@.len() - i,
{
    if i >= req.len() {
        let out: Vec<u8> = Vec::new();
        assert(req@.skip(i as int) =~= Seq::<Comparator>::empty());
        out
    } else {
        let mut out = render_cmp(&req[i]);
        assert(req@.skip(i as int)[0] == req@[i as int]);
        if i + 1 < req.len() {
            out.push(44);
            out.push(32);
            let tail = render_req_tail(req, i + 1);
            crate::bytes::push_all(&mut out, tail.as_slice());
            assert(req@.skip(i as int).skip(1) =~= req@.skip(i + 1));
            assert(out@ =~= enc_req(req@.skip(i as int)));
        } else {
            assert(req@.skip(i as int).len() == 1);
        }
        out
    }
}

/// Render a requirement canonically.
pub fn render_req(req: &Vec<Comparator>) -> (r: Vec<u8>)
    ensures
        r@ == enc_req(req@),
{
    let out = render_req_tail(req, 0);
    assert(req@.skip(0) =~= req@);
    out
}

// ---------------------------------------------------------------------------
// Round trips: parsing a canonical rendering gives the value back
// ---------------------------------------------------------------------------

pub proof fn lemma_p_num_rt(n: nat, rest: Seq<u8>)
    requires
        n <= max_component(),
        rest.len() == 0 || !is_digit(rest[0]),
    ensures
        p_num(dec(n) + rest) == Some((n as u32, rest)),
{
    lemma_dec_shape(n);
    reveal_with_fuel(pow10, 10);
    lemma_dec_len(n, 9);
    lemma_dec_val(n);
    let s = dec(n) + rest;
    let j = dec(n).len() as int;
    assert(forall|k: int| 0 <= k < j ==> is_digit(#[trigger] s[k]));
    lemma_scan_digits_split(s, j);
    assert(s.take(j) =~= dec(n));
    assert(s.skip(j) =~= rest);
    if dec(n).len() > 1 {
        assert(n >= 10);
        assert(dec(n)[0] != 48);
    }
    assert(s.take(j)[0] == dec(n)[0]);
}

pub proof fn lemma_p_version_rt(v: Version, rest: Seq<u8>)
    requires
        version_wf(v),
        rest.len() == 0 || !is_digit(rest[0]),
    ensures
        p_version(enc_version(v) + rest) == Some((v, rest)),
{
    let a = dec(v.major as nat);
    let b = dec(v.minor as nat);
    let c = dec(v.patch as nat);
    let r2 = seq![46u8] + (c + rest);
    let r1 = seq![46u8] + (b + r2);
    let s = enc_version(v) + rest;
    assert(s =~= a + r1);
    lemma_p_num_rt(v.major as nat, r1);
    assert(r1.skip(1) =~= b + r2);
    lemma_p_num_rt(v.minor as nat, r2);
    assert(r2.skip(1) =~= c + rest);
    lemma_p_num_rt(v.patch as nat, rest);
}

pub proof fn lemma_enc_version_nonempty(v: Version)
    ensures
        enc_version(v).len() >= 5,
        is_digit(enc_version(v)[0]),
{
    lemma_dec_shape(v.major as nat);
    lemma_dec_shape(v.minor as nat);
    lemma_dec_shape(v.patch as nat);
    assert(enc_version(v)[0] == dec(v.major as nat)[0]);
}

pub proof fn lemma_p_cmp_rt(c: Comparator, rest: Seq<u8>)
    requires
        version_wf(c.version),
        rest.len() == 0 || !is_digit(rest[0]),
    ensures
        p_cmp(enc_cmp(c) + rest) == Some((c, rest)),
{
    let s = enc_cmp(c) + rest;
    lemma_enc_version_nonempty(c.version);
    assert(s =~= enc_op(c.op) + (enc_version(c.version) + rest));
    lemma_p_version_rt(c.version, rest);
    match c.op {
        CmpOp::Exact => {
            assert(s[0] == 61);
            assert(s.skip(1) =~= enc_version(c.version) + rest);
        },
        CmpOp::Greater => {
            assert(s[0] == 62);
            assert(s[1] == enc_version(c.version)[0]);
            assert(s[1] != 61);
            assert(s.skip(1) =~= enc_version(c.version) + rest);
        },
        CmpOp::GreaterEq => {
            assert(s[0] == 62 && s[1] == 61);
            assert(s.skip(2) =~= enc_version(c.version) + rest);
        },
        CmpOp::Less => {
            assert(s[0] == 60);
            assert(s[1] == enc_version(c.version)[0]);
            assert(s[1] != 61);
            assert(s.skip(1) =~= enc_version(c.version) + rest);
        },
        CmpOp::LessEq => {
            assert(s[0] == 60 && s[1] == 61);
            assert(s.skip(2) =~= enc_version(c.version) + rest);
        },
    }
}

pub proof fn lemma_p_req_rt(req: Seq<Comparator>, rest: Seq<u8>)
    requires
        req_wf(req),
        rest.len() == 0 || (rest[0] != 44 && !is_digit(rest[0])),
    ensures
        p_req(enc_req(req) + rest) == Some((req, rest)),
    decreases req.len(),
{
    let s = enc_req(req) + rest;
    if req.len() == 1 {
        lemma_p_cmp_rt(req[0], rest);
        assert(s =~= enc_cmp(req[0]) + rest);
        if rest.len() >= 2 && rest[0] == 44 && rest[1] == 32 {
            assert(false);
        }
        assert(seq![req[0]] =~= req);
    } else {
        let tail = req.skip(1);
        assert(req_wf(tail)) by {
            assert(forall|i: int| 0 <= i < tail.len()
                ==> version_wf(#[trigger] tail[i].version) && tail[i] == req[i + 1]);
        }
        let r1 = seq![44u8, 32u8] + (enc_req(tail) + rest);
        assert(s =~= enc_cmp(req[0]) + r1);
        lemma_p_cmp_rt(req[0], r1);
        lemma_enc_version_nonempty(req[0].version);
        assert(enc_cmp(req[0]).len() >= 1);
        assert(r1.len() < s.len());
        assert(r1.skip(2) =~= enc_req(tail) + rest);
        lemma_p_req_rt(tail, rest);
        assert(seq![req[0]] + tail =~= req);
    }
}

} // verus!

