//! Versions and version specifications.
//!
//! A specification is a comma-separated list of clauses, each an operator
//! followed by a version: `==1.2.3`, `>=1.2.0`, `<=2.0.0`, `>1.0`, `<2`,
//! `~=1.2.0` (same major and minor, not older), `!=1.5.0`. A version matches
//! the specification when it matches every clause; the empty specification,
//! written `*`, matches every version.
//!
//! Reading a version, ordering two versions and writing one are done by the
//! `semver` crate; everything around that is proved here.

use crate::text::{all_digits, chars_of, decimal, has_prefix, is_digit, is_space, join, same_text, slice_of, split_chars, split_on, string_of, texts, trim, trim_chars, views};
use vstd::prelude::*;

verus! {

/// A version as a plain value: three numbers, the pre-release identifiers
/// and the build metadata, both empty when absent.
pub struct VersionView {
    pub major: u64,
    pub minor: u64,
    pub patch: u64,
    pub pre: Seq<char>,
    pub build: Seq<char>,
}

/// A semantic version.
#[derive(Debug)]
pub struct Version {
    major: u64,
    minor: u64,
    patch: u64,
    pre: String,
    build: String,
}

/// Whether `c` may stand in an identifier: an ASCII letter, digit or hyphen.
pub open spec fn is_ident_char(c: char) -> bool {
    is_digit(c) || ('A' <= c <= 'Z') || ('a' <= c <= 'z') || c == '-'
}

/// One dot-separated identifier: not empty, made of identifier characters,
/// and, where `strict`, written without a leading zero when it is a number.
pub open spec fn valid_segment(seg: Seq<char>, strict: bool) -> bool {
    &&& seg.len() > 0
    &&& forall|i: int| 0 <= i < seg.len() ==> is_ident_char(#[trigger] seg[i])
    &&& (strict && seg.len() > 1 && all_digits(seg)) ==> seg[0] != '0'
}

/// A list of identifiers separated by dots, or nothing at all.
pub open spec fn valid_identifiers(s: Seq<char>, strict: bool) -> bool {
    s.len() == 0 || forall|i: int|
        0 <= i < split_on(s, '.').len() ==> valid_segment(#[trigger] split_on(s, '.')[i], strict)
}

/// What `semver::Version::parse` returns for `text`: the version, or the
/// message of the error.
pub uninterp spec fn semver_parse(text: Seq<char>) -> Result<VersionView, Seq<char>>;

/// How `semver` orders `a` against `b`: -1 when `a` comes first, 0 when they
/// rank the same, 1 when `b` comes first.
pub uninterp spec fn semver_order(a: VersionView, b: VersionView) -> int;

/// A reading that gave the version `v`.
pub open spec fn read_ok(v: VersionView) -> Result<VersionView, Seq<char>> {
    Ok(v)
}

/// A reading that failed with the message `m`.
pub open spec fn read_err(m: Seq<char>) -> Result<VersionView, Seq<char>> {
    Err(m)
}

/// The text of a version: the three numbers joined by dots, then `-` and the
/// pre-release identifiers if there are any, then `+` and the build metadata
/// if there is any.
pub open spec fn render(v: VersionView) -> Seq<char> {
    decimal(v.major as nat) + seq!['.'] + decimal(v.minor as nat) + seq!['.'] + decimal(
        v.patch as nat,
    ) + render_tail(v)
}

/// The part of a version's text after the three numbers.
pub open spec fn render_tail(v: VersionView) -> Seq<char> {
    (if v.pre.len() > 0 {
        seq!['-'] + v.pre
    } else {
        Seq::<char>::empty()
    }) + (if v.build.len() > 0 {
        seq!['+'] + v.build
    } else {
        Seq::<char>::empty()
    })
}

/// The length of the numeric core of a version text: what stands before the
/// first `-` or `+`.
pub open spec fn core_len(s: Seq<char>) -> nat
    decreases s.len(),
{
    if s.len() == 0 || s[0] == '-' || s[0] == '+' {
        0
    } else {
        1 + core_len(s.skip(1))
    }
}

/// The number of dots in the numeric core of a version text.
pub open spec fn core_dots(s: Seq<char>) -> nat
    decreases s.len(),
{
    if s.len() == 0 || s[0] == '-' || s[0] == '+' {
        0
    } else if s[0] == '.' {
        1 + core_dots(s.skip(1))
    } else {
        core_dots(s.skip(1))
    }
}

/// A version text with the numbers it leaves out written as zeros: `1`
/// becomes `1.0.0` and `1.2-rc` becomes `1.2.0-rc`.
pub open spec fn complete(s: Seq<char>) -> Seq<char> {
    let n = core_len(s) as int;
    if core_dots(s) == 0 {
        s.take(n) + seq!['.', '0', '.', '0'] + s.skip(n)
    } else if core_dots(s) == 1 {
        s.take(n) + seq!['.', '0'] + s.skip(n)
    } else {
        s
    }
}

/// The version that a text stands for, or the message saying why it stands
/// for none.
pub open spec fn read_version(text: Seq<char>) -> Result<VersionView, Seq<char>> {
    semver_parse(complete(text))
}

/// `semver::Version::parse`, with the version handed back field by field.
/// The identifiers of a version that was read are well formed.
#[verifier::external_body]
fn parse_semver(text: &str) -> (r: Result<Version, String>)
    ensures
        match r {
            Ok(v) => semver_parse(text@) == read_ok(v@) && v.wf(),
            Err(m) => semver_parse(text@) == read_err(m@),
        },
{
    match semver::Version::parse(text) {
        Ok(v) => Ok(
            Version {
                major: v.major,
                minor: v.minor,
                patch: v.patch,
                pre: v.pre.as_str().to_string(),
                build: v.build.as_str().to_string(),
            },
        ),
        Err(e) => Err(e.to_string()),
    }
}

/// The `Ord` of `semver::Version`, as a number. The two versions are handed
/// over field by field; `semver::Prerelease::new` and
/// `semver::BuildMetadata::new` accept identifiers that are well formed.
#[verifier::external_body]
fn order_semver(a: &Version, b: &Version) -> (r: i8)
    requires
        a.wf(),
        b.wf(),
    ensures
        r == semver_order(a@, b@),
        -1 <= r <= 1,
{
    let pa = semver::Prerelease::new(a.pre.as_str()).unwrap();
    let ba = semver::BuildMetadata::new(a.build.as_str()).unwrap();
    let pb = semver::Prerelease::new(b.pre.as_str()).unwrap();
    let bb = semver::BuildMetadata::new(b.build.as_str()).unwrap();
    let x = semver::Version { major: a.major, minor: a.minor, patch: a.patch, pre: pa, build: ba };
    let y = semver::Version { major: b.major, minor: b.minor, patch: b.patch, pre: pb, build: bb };
    match x.cmp(&y) {
        std::cmp::Ordering::Less => -1,
        std::cmp::Ordering::Equal => 0,
        std::cmp::Ordering::Greater => 1,
    }
}

/// The `Display` of `semver::Version`, for a version handed over field by
/// field. It writes the text that `render` describes, and
/// `semver::Version::parse` reads that text back as the same version.
#[verifier::external_body]
fn display_semver(v: &Version) -> (out: String)
    requires
        v.wf(),
    ensures
        out@ == render(v@),
        semver_parse(out@) == read_ok(v@),
{
    let pre = semver::Prerelease::new(v.pre.as_str()).unwrap();
    let build = semver::BuildMetadata::new(v.build.as_str()).unwrap();
    semver::Version { major: v.major, minor: v.minor, patch: v.patch, pre, build }.to_string()
}

impl View for Version {
    type V = VersionView;

    closed spec fn view(&self) -> VersionView {
        VersionView {
            major: self.major,
            minor: self.minor,
            patch: self.patch,
            pre: self.pre@,
            build: self.build@,
        }
    }
}

impl Clone for Version {
    fn clone(&self) -> (v: Version)
        ensures
            v@ == self@,
    {
        self.duplicate()
    }
}

impl Version {
    /// The identifiers obey the grammar of semantic versions.
    #[verifier::type_invariant]
    pub closed spec fn wf(self) -> bool {
        valid_identifiers(self.pre@, true) && valid_identifiers(self.build@, false)
    }

    /// The release `major.minor.patch`.
    pub fn new(major: u64, minor: u64, patch: u64) -> (v: Version)
        ensures
            v@ == (VersionView {
                major,
                minor,
                patch,
                pre: Seq::<char>::empty(),
                build: Seq::<char>::empty(),
            }),
    {
        Version { major, minor, patch, pre: String::new(), build: String::new() }
    }

    /// Reads a version. Numbers left out count as zero.
    pub fn parse(text: &str) -> (r: Result<Version, String>)
        ensures
            match r {
                Ok(v) => read_version(text@) == read_ok(v@),
                Err(m) => read_version(text@) == read_err(m@),
            },
    {
        let chars = chars_of(text);
        let full = complete_chars(&chars);
        let full_text = string_of(&full);
        parse_semver(full_text.as_str())
    }

    pub fn major(&self) -> (n: u64)
        ensures
            n == self@.major,
    {
        self.major
    }

    pub fn minor(&self) -> (n: u64)
        ensures
            n == self@.minor,
    {
        self.minor
    }

    pub fn patch(&self) -> (n: u64)
        ensures
            n == self@.patch,
    {
        self.patch
    }

    /// The pre-release identifiers, empty for a release.
    pub fn pre(&self) -> (s: &str)
        ensures
            s@ == self@.pre,
    {
        self.pre.as_str()
    }

    /// The build metadata, empty when there is none.
    pub fn build(&self) -> (s: &str)
        ensures
            s@ == self@.build,
    {
        self.build.as_str()
    }

    /// A copy of this version.
    pub fn duplicate(&self) -> (v: Version)
        ensures
            v@ == self@,
    {
        proof {
            use_type_invariant(self);
        }
        Version {
            major: self.major,
            minor: self.minor,
            patch: self.patch,
            pre: self.pre.clone(),
            build: self.build.clone(),
        }
    }

    /// Whether the two versions are the same in every field.
    pub fn same(&self, other: &Version) -> (r: bool)
        ensures
            r == (self@ == other@),
    {
        self.major == other.major && self.minor == other.minor && self.patch == other.patch
            && same_text(self.pre.as_str(), other.pre.as_str()) && same_text(
            self.build.as_str(),
            other.build.as_str(),
        )
    }

    /// How this version ranks against `other`: -1, 0 or 1.
    pub fn precedence(&self, other: &Version) -> (r: i8)
        ensures
            r == semver_order(self@, other@),
            -1 <= r <= 1,
    {
        proof {
            use_type_invariant(self);
            use_type_invariant(other);
        }
        order_semver(self, other)
    }

    /// The text of this version. Reading the text gives the version back.
    pub fn to_string(&self) -> (out: String)
        ensures
            out@ == render(self@),
            read_version(out@) == read_ok(self@),
    {
        proof {
            use_type_invariant(self);
            lemma_complete_rendered(self@);
        }
        display_semver(self)
    }
}

/// Counts the characters and the dots of the numeric core of `s`.
fn scan_core(s: &Vec<char>) -> (r: (usize, usize))
    ensures
        r.0 == core_len(s@),
        r.1 == core_dots(s@),
        r.0 <= s.len(),
{
    let mut i: usize = 0;
    let mut dots: usize = 0;
    assert(s@.skip(0) == s@);
    while i < s.len() && s[i] != '-' && s[i] != '+'
        invariant
            i <= s.len(),
            dots <= i,
            core_len(s@) == i + core_len(s@.skip(i as int)),
            core_dots(s@) == dots + core_dots(s@.skip(i as int)),
        decreases s.len() - i,
    {
        assert(s@.skip(i as int).skip(1) == s@.skip(i + 1));
        if s[i] == '.' {
            dots += 1;
        }
        i += 1;
    }
    (i, dots)
}

/// Writes out the numbers that a version text leaves out.
fn complete_chars(s: &Vec<char>) -> (out: Vec<char>)
    ensures
        out@ == complete(s@),
{
    let (n, dots) = scan_core(s);
    if dots >= 2 {
        return s.clone();
    }
    let mut out = slice_of(s, 0, n);
    out.push('.');
    out.push('0');
    if dots == 0 {
        out.push('.');
        out.push('0');
    }
    let mut i: usize = n;
    let ghost head = out@;
    while i < s.len()
        invariant
            n <= i <= s.len(),
            out@ == head + s@.subrange(n as int, i as int),
        decreases s.len() - i,
    {
        out.push(s[i]);
        i += 1;
    }
    assert(s@.subrange(n as int, s.len() as int) == s@.skip(n as int));
    assert(s@.subrange(0, n as int) == s@.take(n as int));
    out
}

/// Digits at the front of a text belong to its core and hold no dot.
proof fn lemma_core_digits(d: Seq<char>, t: Seq<char>)
    requires
        all_digits(d),
    ensures
        core_len(d + t) == d.len() + core_len(t),
        core_dots(d + t) == core_dots(t),
    decreases d.len(),
{
    if d.len() == 0 {
        assert(d + t == t);
    } else {
        assert(is_digit(d[0]));
        assert((d + t)[0] == d[0]);
        assert((d + t).skip(1) == d.skip(1) + t);
        assert forall|i: int| 0 <= i < d.skip(1).len() implies is_digit(
            #[trigger] d.skip(1)[i],
        ) by {
            assert(d.skip(1)[i] == d[i + 1]);
        }
        lemma_core_digits(d.skip(1), t);
    }
}

/// The decimal digits of a number are digits, and there is at least one.
pub proof fn lemma_decimal_digits(n: nat)
    ensures
        all_digits(decimal(n)),
        decimal(n).len() >= 1,
    decreases n,
{
    if n >= 10 {
        lemma_decimal_digits(n / 10);
        let d = decimal(n / 10);
        assert forall|i: int| 0 <= i < decimal(n).len() implies is_digit(
            #[trigger] decimal(n)[i],
        ) by {
            if i < d.len() {
                assert(decimal(n)[i] == d[i]);
            }
        }
    }
}

/// The text of a version has two dots in its core: nothing is left out.
proof fn lemma_complete_rendered(v: VersionView)
    ensures
        complete(render(v)) == render(v),
{
    let a = decimal(v.major as nat);
    let b = decimal(v.minor as nat);
    let c = decimal(v.patch as nat);
    let tail = render_tail(v);
    let dot = seq!['.'];
    lemma_decimal_digits(v.major as nat);
    lemma_decimal_digits(v.minor as nat);
    lemma_decimal_digits(v.patch as nat);
    assert(core_dots(tail) == 0);
    lemma_core_digits(c, tail);
    let t3 = c + tail;
    let t2 = dot + t3;
    assert(t2.skip(1) == t3);
    assert(core_dots(t2) == 1);
    lemma_core_digits(b, t2);
    let t1 = dot + (b + t2);
    assert(t1.skip(1) == b + t2);
    assert(core_dots(t1) == 2);
    lemma_core_digits(a, t1);
    assert(render(v) == a + t1);
}

/// The relation that a clause asks of a version.
#[derive(Clone, Copy, Debug, PartialEq, Eq, Structural)]
pub enum ConstraintOp {
    Exact,
    GreaterEqual,
    LessEqual,
    Greater,
    Less,
    Compatible,
    NotEqual,
}

/// A clause as a plain value.
pub struct ConstraintView {
    pub op: ConstraintOp,
    pub version: VersionView,
}

/// A single clause of a version specification.
#[derive(Debug)]
pub enum VersionConstraint {
    Exact(Version),
    GreaterEqual(Version),
    LessEqual(Version),
    Greater(Version),
    Less(Version),
    Compatible(Version),
    NotEqual(Version),
}

/// Why a specification could not be read.
#[derive(Clone, Debug)]
pub enum VersionError {
    /// The version of a clause is not a semantic version.
    ParseError { message: String },
    /// A clause starts with no known operator.
    InvalidConstraint { input: String },
}

/// A reading error as a plain value.
pub enum VersionErrorView {
    ParseError { message: Seq<char> },
    InvalidConstraint { input: Seq<char> },
}

impl View for VersionError {
    type V = VersionErrorView;

    open spec fn view(&self) -> VersionErrorView {
        match self {
            VersionError::ParseError { message } => VersionErrorView::ParseError {
                message: message@,
            },
            VersionError::InvalidConstraint { input } => VersionErrorView::InvalidConstraint {
                input: input@,
            },
        }
    }
}

/// Whether the version `v` satisfies the clause `c`.
pub open spec fn constraint_matches(c: ConstraintView, v: VersionView) -> bool {
    match c.op {
        ConstraintOp::Exact => v == c.version,
        ConstraintOp::GreaterEqual => semver_order(v, c.version) >= 0,
        ConstraintOp::LessEqual => semver_order(v, c.version) <= 0,
        ConstraintOp::Greater => semver_order(v, c.version) > 0,
        ConstraintOp::Less => semver_order(v, c.version) < 0,
        ConstraintOp::NotEqual => v != c.version,
        ConstraintOp::Compatible => semver_order(v, c.version) >= 0 && v.major == c.version.major
            && v.minor == c.version.minor,
    }
}

/// Whether the version `v` satisfies every clause of `cs`.
pub open spec fn spec_matches(cs: Seq<ConstraintView>, v: VersionView) -> bool {
    forall|i: int| 0 <= i < cs.len() ==> constraint_matches(#[trigger] cs[i], v)
}

/// The characters that write an operator.
pub open spec fn op_text(op: ConstraintOp) -> Seq<char> {
    match op {
        ConstraintOp::Exact => seq!['=', '='],
        ConstraintOp::GreaterEqual => seq!['>', '='],
        ConstraintOp::LessEqual => seq!['<', '='],
        ConstraintOp::Greater => seq!['>'],
        ConstraintOp::Less => seq!['<'],
        ConstraintOp::Compatible => seq!['~', '='],
        ConstraintOp::NotEqual => seq!['!', '='],
    }
}

/// The operator that a clause begins with, the two-character operators
/// tried first, and the text behind it.
pub open spec fn split_operator(s: Seq<char>) -> Option<(ConstraintOp, Seq<char>)> {
    if has_prefix(s, op_text(ConstraintOp::Exact)) {
        Some((ConstraintOp::Exact, s.skip(2)))
    } else if has_prefix(s, op_text(ConstraintOp::GreaterEqual)) {
        Some((ConstraintOp::GreaterEqual, s.skip(2)))
    } else if has_prefix(s, op_text(ConstraintOp::LessEqual)) {
        Some((ConstraintOp::LessEqual, s.skip(2)))
    } else if has_prefix(s, op_text(ConstraintOp::NotEqual)) {
        Some((ConstraintOp::NotEqual, s.skip(2)))
    } else if has_prefix(s, op_text(ConstraintOp::Compatible)) {
        Some((ConstraintOp::Compatible, s.skip(2)))
    } else if has_prefix(s, op_text(ConstraintOp::Greater)) {
        Some((ConstraintOp::Greater, s.skip(1)))
    } else if has_prefix(s, op_text(ConstraintOp::Less)) {
        Some((ConstraintOp::Less, s.skip(1)))
    } else {
        None
    }
}

/// What a clause reads as: white space around it and around its version is
/// dropped; without a known operator it is an invalid constraint whose input
/// is the trimmed clause; a version that does not read gives a parse error
/// with the reader's message.
pub open spec fn read_constraint(s: Seq<char>) -> Result<ConstraintView, VersionErrorView> {
    let t = trim(s);
    match split_operator(t) {
        None => Err(VersionErrorView::InvalidConstraint { input: t }),
        Some((op, rest)) => match read_version(trim(rest)) {
            Ok(version) => Ok(ConstraintView { op, version }),
            Err(message) => Err(VersionErrorView::ParseError { message }),
        },
    }
}

/// What a list of clauses reads as: every clause in order, or the error of
/// the first clause that does not read.
pub open spec fn read_clauses(parts: Seq<Seq<char>>) -> Result<
    Seq<ConstraintView>,
    VersionErrorView,
>
    decreases parts.len(),
{
    if parts.len() == 0 {
        Ok(Seq::<ConstraintView>::empty())
    } else {
        match read_clauses(parts.drop_last()) {
            Err(e) => Err(e),
            Ok(cs) => match read_constraint(parts.last()) {
                Err(e) => Err(e),
                Ok(c) => Ok(cs.push(c)),
            },
        }
    }
}

/// What a specification reads as: nothing or `*` is the empty
/// specification; anything else is split at commas into clauses.
pub open spec fn read_spec(s: Seq<char>) -> Result<Seq<ConstraintView>, VersionErrorView> {
    let t = trim(s);
    if t.len() == 0 || t == seq!['*'] {
        Ok(Seq::<ConstraintView>::empty())
    } else {
        read_clauses(split_on(t, ','))
    }
}

/// The text of a clause: the operator, then the version.
pub open spec fn constraint_text(c: ConstraintView) -> Seq<char> {
    op_text(c.op) + render(c.version)
}

/// The texts of the clauses of a specification.
pub open spec fn clause_texts(cs: Seq<ConstraintView>) -> Seq<Seq<char>> {
    Seq::new(cs.len(), |i: int| constraint_text(cs[i]))
}

/// The text of a specification: `*` when it is empty, else its clauses
/// joined by commas.
pub open spec fn spec_text(cs: Seq<ConstraintView>) -> Seq<char> {
    if cs.len() == 0 {
        seq!['*']
    } else {
        join(clause_texts(cs), seq![','])
    }
}

impl View for VersionConstraint {
    type V = ConstraintView;

    open spec fn view(&self) -> ConstraintView {
        ConstraintView { op: self.op_spec(), version: self.version_spec()@ }
    }
}

impl Clone for VersionConstraint {
    fn clone(&self) -> (c: VersionConstraint)
        ensures
            c@ == self@,
    {
        VersionConstraint::with_op(self.op(), self.version().duplicate())
    }
}

impl VersionConstraint {
    pub open spec fn op_spec(&self) -> ConstraintOp {
        match self {
            VersionConstraint::Exact(_) => ConstraintOp::Exact,
            VersionConstraint::GreaterEqual(_) => ConstraintOp::GreaterEqual,
            VersionConstraint::LessEqual(_) => ConstraintOp::LessEqual,
            VersionConstraint::Greater(_) => ConstraintOp::Greater,
            VersionConstraint::Less(_) => ConstraintOp::Less,
            VersionConstraint::Compatible(_) => ConstraintOp::Compatible,
            VersionConstraint::NotEqual(_) => ConstraintOp::NotEqual,
        }
    }

    pub open spec fn version_spec(&self) -> Version {
        match self {
            VersionConstraint::Exact(v) => *v,
            VersionConstraint::GreaterEqual(v) => *v,
            VersionConstraint::LessEqual(v) => *v,
            VersionConstraint::Greater(v) => *v,
            VersionConstraint::Less(v) => *v,
            VersionConstraint::Compatible(v) => *v,
            VersionConstraint::NotEqual(v) => *v,
        }
    }

    /// The operator of this clause.
    pub fn op(&self) -> (op: ConstraintOp)
        ensures
            op == self.op_spec(),
    {
        match self {
            VersionConstraint::Exact(_) => ConstraintOp::Exact,
            VersionConstraint::GreaterEqual(_) => ConstraintOp::GreaterEqual,
            VersionConstraint::LessEqual(_) => ConstraintOp::LessEqual,
            VersionConstraint::Greater(_) => ConstraintOp::Greater,
            VersionConstraint::Less(_) => ConstraintOp::Less,
            VersionConstraint::Compatible(_) => ConstraintOp::Compatible,
            VersionConstraint::NotEqual(_) => ConstraintOp::NotEqual,
        }
    }

    /// The version of this clause.
    pub fn version(&self) -> (v: &Version)
        ensures
            *v == self.version_spec(),
    {
        match self {
            VersionConstraint::Exact(v) => v,
            VersionConstraint::GreaterEqual(v) => v,
            VersionConstraint::LessEqual(v) => v,
            VersionConstraint::Greater(v) => v,
            VersionConstraint::Less(v) => v,
            VersionConstraint::Compatible(v) => v,
            VersionConstraint::NotEqual(v) => v,
        }
    }

    /// The clause with the given operator and version.
    pub fn with_op(op: ConstraintOp, version: Version) -> (c: VersionConstraint)
        ensures
            c@ == (ConstraintView { op, version: version@ }),
    {
        match op {
            ConstraintOp::Exact => VersionConstraint::Exact(version),
            ConstraintOp::GreaterEqual => VersionConstraint::GreaterEqual(version),
            ConstraintOp::LessEqual => VersionConstraint::LessEqual(version),
            ConstraintOp::Greater => VersionConstraint::Greater(version),
            ConstraintOp::Less => VersionConstraint::Less(version),
            ConstraintOp::Compatible => VersionConstraint::Compatible(version),
            ConstraintOp::NotEqual => VersionConstraint::NotEqual(version),
        }
    }

    /// Whether `version` satisfies this clause.
    pub fn matches(&self, version: &Version) -> (r: bool)
        ensures
            r == constraint_matches(self@, version@),
    {
        match self {
            VersionConstraint::Exact(v) => version.same(v),
            VersionConstraint::GreaterEqual(v) => version.precedence(v) >= 0,
            VersionConstraint::LessEqual(v) => version.precedence(v) <= 0,
            VersionConstraint::Greater(v) => version.precedence(v) > 0,
            VersionConstraint::Less(v) => version.precedence(v) < 0,
            VersionConstraint::NotEqual(v) => !version.same(v),
            VersionConstraint::Compatible(v) => version.precedence(v) >= 0 && version.major()
                == v.major() && version.minor() == v.minor(),
        }
    }

    /// Reads one clause.
    pub fn parse(s: &str) -> (r: Result<VersionConstraint, VersionError>)
        ensures
            match r {
                Ok(c) => read_constraint(s@) == Ok::<ConstraintView, VersionErrorView>(c@),
                Err(e) => read_constraint(s@) == Err::<ConstraintView, VersionErrorView>(e@),
            },
    {
        let all = chars_of(s);
        let t = trim_chars(&all);
        match find_operator(&t) {
            None => Err(VersionError::InvalidConstraint { input: string_of(&t) }),
            Some((op, skip)) => {
                let rest = slice_of(&t, skip, t.len());
                assert(rest@ == t@.skip(skip as int));
                let version_chars = trim_chars(&rest);
                let version_text = string_of(&version_chars);
                match Version::parse(version_text.as_str()) {
                    Ok(version) => Ok(VersionConstraint::with_op(op, version)),
                    Err(message) => Err(VersionError::ParseError { message }),
                }
            },
        }
    }

    /// The text of this clause. Reading the text gives the clause back.
    pub fn to_string(&self) -> (out: String)
        ensures
            out@ == constraint_text(self@),
            read_constraint(out@) == Ok::<ConstraintView, VersionErrorView>(self@),
            tidy(out@),
            out@[0] != '*',
    {
        let mut out = match self.op() {
            ConstraintOp::Exact => vec!['=', '='],
            ConstraintOp::GreaterEqual => vec!['>', '='],
            ConstraintOp::LessEqual => vec!['<', '='],
            ConstraintOp::Greater => vec!['>'],
            ConstraintOp::Less => vec!['<'],
            ConstraintOp::Compatible => vec!['~', '='],
            ConstraintOp::NotEqual => vec!['!', '='],
        };
        assert(out@ == op_text(self.op_spec()));
        let version = self.version();
        let version_text = version.to_string();
        let version_chars = chars_of(version_text.as_str());
        crate::text::extend_chars(&mut out, &version_chars);
        proof {
            use_type_invariant(version);
            lemma_clause_reads_back(self@);
            lemma_first_clause_char(self@);
        }
        string_of(&out)
    }
}

/// Finds the operator at the front of a trimmed clause and its length.
fn find_operator(t: &Vec<char>) -> (r: Option<(ConstraintOp, usize)>)
    ensures
        match r {
            Some((op, n)) => n <= t.len() && split_operator(t@) == Some((op, t@.skip(n as int))),
            None => split_operator(t@) is None,
        },
{
    let first: char = if t.len() > 0 {
        t[0]
    } else {
        ' '
    };
    let second_is_eq: bool = t.len() > 1 && t[1] == '=';
    proof {
        let s = t@;
        assert forall|a: char, b: char| has_prefix(s, seq![a, b]) <==> (s.len() >= 2 && s[0] == a
            && s[1] == b) by {
            if s.len() >= 2 && s[0] == a && s[1] == b {
                assert(s.subrange(0, 2) == seq![a, b]);
            }
            if has_prefix(s, seq![a, b]) {
                assert(s.subrange(0, 2)[0] == a);
                assert(s.subrange(0, 2)[1] == b);
            }
        }
        assert forall|a: char| has_prefix(s, seq![a]) <==> (s.len() >= 1 && s[0] == a) by {
            if s.len() >= 1 && s[0] == a {
                assert(s.subrange(0, 1) == seq![a]);
            }
            if has_prefix(s, seq![a]) {
                assert(s.subrange(0, 1)[0] == a);
            }
        }
    }
    if t.len() == 0 {
        None
    } else if second_is_eq && first == '=' {
        Some((ConstraintOp::Exact, 2))
    } else if second_is_eq && first == '>' {
        Some((ConstraintOp::GreaterEqual, 2))
    } else if second_is_eq && first == '<' {
        Some((ConstraintOp::LessEqual, 2))
    } else if second_is_eq && first == '!' {
        Some((ConstraintOp::NotEqual, 2))
    } else if second_is_eq && first == '~' {
        Some((ConstraintOp::Compatible, 2))
    } else if first == '>' {
        Some((ConstraintOp::Greater, 1))
    } else if first == '<' {
        Some((ConstraintOp::Less, 1))
    } else {
        None
    }
}


/// Every character of a text that is not the separator stands in one of the
/// pieces that `split_on` cuts the text into.
pub proof fn lemma_split_covers(s: Seq<char>, sep: char, i: int)
    requires
        0 <= i < s.len(),
        s[i] != sep,
    ensures
        exists|k: int, j: int|
            0 <= k < split_on(s, sep).len() && 0 <= j < split_on(s, sep)[k].len()
                && #[trigger] split_on(s, sep)[k][j] == s[i],
    decreases s.len(),
{
    let before = split_on(s.drop_last(), sep);
    let now = split_on(s, sep);
    crate::text::lemma_split_nonempty(s.drop_last(), sep);
    if i == s.len() - 1 {
        let k = now.len() - 1;
        let j = before.last().len() as int;
        assert(now[k][j] == s[i]);
    } else {
        lemma_split_covers(s.drop_last(), sep, i);
        let (k, j): (int, int) = choose|k: int, j: int|
            0 <= k < before.len() && 0 <= j < before[k].len() && #[trigger] before[k][j]
                == s.drop_last()[i];
        assert(now[k][j] == s[i]);
    }
}

/// Well-formed identifiers hold nothing but identifier characters and dots.
proof fn lemma_identifier_chars(s: Seq<char>, strict: bool, i: int)
    requires
        valid_identifiers(s, strict),
        0 <= i < s.len(),
    ensures
        is_ident_char(s[i]) || s[i] == '.',
{
    if s[i] != '.' {
        lemma_split_covers(s, '.', i);
        let (k, j): (int, int) = choose|k: int, j: int|
            0 <= k < split_on(s, '.').len() && 0 <= j < split_on(s, '.')[k].len()
                && #[trigger] split_on(s, '.')[k][j] == s[i];
        assert(valid_segment(split_on(s, '.')[k], strict));
    }
}

/// Whether a text may stand as a clause in a list: it is not empty, holds no
/// comma, and neither begins nor ends with white space.
pub open spec fn tidy(s: Seq<char>) -> bool {
    &&& s.len() > 0
    &&& !is_space(s[0])
    &&& !is_space(s.last())
    &&& forall|i: int| 0 <= i < s.len() ==> #[trigger] s[i] != ','
}

/// A text that neither begins nor ends with white space is its own trim.
pub proof fn lemma_trim_tidy(s: Seq<char>)
    requires
        s.len() > 0,
        !is_space(s[0]),
        !is_space(s.last()),
    ensures
        trim(s) == s,
{
}

/// The text of a well-formed version begins with a digit and is tidy.
proof fn lemma_render_tidy(v: VersionView)
    requires
        valid_identifiers(v.pre, true),
        valid_identifiers(v.build, false),
    ensures
        tidy(render(v)),
        is_digit(render(v)[0]),
{
    let a = decimal(v.major as nat);
    let b = decimal(v.minor as nat);
    let c = decimal(v.patch as nat);
    lemma_decimal_digits(v.major as nat);
    lemma_decimal_digits(v.minor as nat);
    lemma_decimal_digits(v.patch as nat);
    let head = a + seq!['.'] + b + seq!['.'] + c;
    let r = render(v);
    let tail = render_tail(v);
    assert(r == head + tail);
    assert(r[0] == a[0]);
    assert forall|i: int| 0 <= i < head.len() implies (is_digit(#[trigger] head[i]) || head[i]
        == '.') by {
        if i < a.len() {
            assert(head[i] == a[i]);
        } else if i == a.len() {
        } else if i < a.len() + 1 + b.len() {
            assert(head[i] == b[i - a.len() - 1]);
        } else if i == a.len() + 1 + b.len() {
        } else {
            assert(head[i] == c[i - a.len() - 1 - b.len() - 1]);
        }
    }
    assert(head.last() == c.last());
    assert forall|i: int| 0 <= i < tail.len() implies (is_ident_char(#[trigger] tail[i])
        || tail[i] == '.' || tail[i] == '+') by {
        let p = if v.pre.len() > 0 {
            seq!['-'] + v.pre
        } else {
            Seq::<char>::empty()
        };
        if i < p.len() {
            assert(tail[i] == p[i]);
            if i > 0 {
                lemma_identifier_chars(v.pre, true, i - 1);
            }
        } else {
            let q = seq!['+'] + v.build;
            assert(tail[i] == q[i - p.len()]);
            if i - p.len() > 0 {
                lemma_identifier_chars(v.build, false, i - p.len() - 1);
            }
        }
    }
    assert forall|i: int| 0 <= i < r.len() implies #[trigger] r[i] != ',' && (i > 0 ==> !is_space(
        r[i],
    )) by {
        if i < head.len() {
            assert(r[i] == head[i]);
        } else {
            assert(r[i] == tail[i - head.len()]);
        }
    }
}

/// A clause whose version reads back from its text reads back from its own.
proof fn lemma_clause_reads_back(c: ConstraintView)
    requires
        valid_identifiers(c.version.pre, true),
        valid_identifiers(c.version.build, false),
        read_version(render(c.version)) == read_ok(c.version),
    ensures
        read_constraint(constraint_text(c)) == Ok::<ConstraintView, VersionErrorView>(c),
        tidy(constraint_text(c)),
        constraint_text(c) != seq!['*'],
{
    let r = render(c.version);
    let o = op_text(c.op);
    let s = constraint_text(c);
    lemma_render_tidy(c.version);
    assert(s.last() == r.last());
    assert(s[0] == o[0]);
    assert forall|i: int| 0 <= i < s.len() implies #[trigger] s[i] != ',' by {
        if i >= o.len() {
            assert(s[i] == r[i - o.len()]);
        }
    }
    lemma_trim_tidy(s);
    lemma_trim_tidy(r);
    assert(s.skip(o.len() as int) == r);
    assert(s.subrange(0, o.len() as int) == o);
    assert(s[o.len() as int] == r[0]);
    assert forall|a: char, b: char| has_prefix(s, seq![a, b]) implies s[0] == a && s[1] == b by {
        assert(s.subrange(0, 2)[0] == a);
        assert(s.subrange(0, 2)[1] == b);
    }
    assert(split_operator(s) == Some((c.op, r)));
}

/// A text without the separator is a single piece.
pub proof fn lemma_split_single(x: Seq<char>, sep: char)
    requires
        forall|i: int| 0 <= i < x.len() ==> #[trigger] x[i] != sep,
    ensures
        split_on(x, sep) == seq![x],
    decreases x.len(),
{
    if x.len() > 0 {
        let y = x.drop_last();
        assert forall|i: int| 0 <= i < y.len() implies #[trigger] y[i] != sep by {
            assert(y[i] == x[i]);
        }
        lemma_split_single(y, sep);
        assert(x[x.len() - 1] != sep);
        assert(seq![y].last() == y);
        assert(seq![y].drop_last().push(y.push(x.last())) == seq![x]) by {
            assert(y.push(x.last()) == x);
        }
    } else {
        assert(x == Seq::<char>::empty());
    }
}

/// Splitting a text that has a separator in the middle splits both sides.
pub proof fn lemma_split_append(a: Seq<char>, b: Seq<char>, sep: char)
    ensures
        split_on(a + seq![sep] + b, sep) == split_on(a, sep) + split_on(b, sep),
    decreases b.len(),
{
    let whole = a + seq![sep] + b;
    if b.len() == 0 {
        assert(whole.drop_last() == a);
        assert(split_on(a, sep).push(Seq::<char>::empty()) == split_on(a, sep) + split_on(b, sep));
    } else {
        let b0 = b.drop_last();
        assert(whole.drop_last() == a + seq![sep] + b0);
        lemma_split_append(a, b0, sep);
        crate::text::lemma_split_nonempty(b0, sep);
        let left = split_on(a, sep);
        let right = split_on(b0, sep);
        assert((left + right).last() == right.last());
        if b.last() == sep {
            assert((left + right).push(Seq::<char>::empty()) == left + right.push(
                Seq::<char>::empty(),
            ));
        } else {
            assert((left + right).drop_last().push(right.last().push(b.last())) == left
                + right.drop_last().push(right.last().push(b.last())));
        }
    }
}

/// Parts that hold no separator come back when their join is split.
pub proof fn lemma_split_join(parts: Seq<Seq<char>>, sep: char)
    requires
        parts.len() >= 1,
        forall|k: int, i: int|
            0 <= k < parts.len() && 0 <= i < parts[k].len() ==> #[trigger] parts[k][i] != sep,
    ensures
        split_on(join(parts, seq![sep]), sep) == parts,
    decreases parts.len(),
{
    if parts.len() == 1 {
        lemma_split_single(parts[0], sep);
    } else {
        let init = parts.drop_last();
        assert forall|k: int, i: int| 0 <= k < init.len() && 0 <= i < init[k].len() implies 
            #[trigger] init[k][i] != sep by {
            assert(init[k][i] == parts[k][i]);
        }
        lemma_split_join(init, sep);
        lemma_split_append(join(init, seq![sep]), parts.last(), sep);
        lemma_split_single(parts.last(), sep);
        assert(init + seq![parts.last()] == parts);
    }
}

/// Clauses that each read back from their text read back as a list.
proof fn lemma_clauses_read_back(cs: Seq<ConstraintView>)
    requires
        forall|i: int|
            0 <= i < cs.len() ==> read_constraint(constraint_text(#[trigger] cs[i])) == Ok::<
                ConstraintView,
                VersionErrorView,
            >(cs[i]),
    ensures
        read_clauses(clause_texts(cs)) == Ok::<Seq<ConstraintView>, VersionErrorView>(cs),
    decreases cs.len(),
{
    if cs.len() == 0 {
        assert(cs == Seq::<ConstraintView>::empty());
    } else {
        let init = cs.drop_last();
        assert forall|i: int| 0 <= i < init.len() implies read_constraint(
            constraint_text(#[trigger] init[i]),
        ) == Ok::<ConstraintView, VersionErrorView>(init[i]) by {
            assert(init[i] == cs[i]);
        }
        lemma_clauses_read_back(init);
        assert(clause_texts(cs).drop_last() == clause_texts(init));
        assert(clause_texts(cs).last() == constraint_text(cs.last()));
        assert(init.push(cs.last()) == cs);
    }
}

/// The first and the last character of a join of tidy parts.
proof fn lemma_join_tidy(parts: Seq<Seq<char>>)
    requires
        parts.len() >= 1,
        forall|k: int| 0 <= k < parts.len() ==> tidy(#[trigger] parts[k]),
    ensures
        join(parts, seq![',']).len() > 0,
        join(parts, seq![','])[0] == parts[0][0],
        join(parts, seq![',']).last() == parts.last().last(),
    decreases parts.len(),
{
    if parts.len() > 1 {
        let init = parts.drop_last();
        assert forall|k: int| 0 <= k < init.len() implies tidy(#[trigger] init[k]) by {
            assert(init[k] == parts[k]);
        }
        lemma_join_tidy(init);
        assert(tidy(parts.last()));
        assert(init[0] == parts[0]);
    } else {
        assert(tidy(parts[0]));
    }
}

/// A specification whose clauses read back from their texts reads back from
/// its own text.
proof fn lemma_spec_reads_back(cs: Seq<ConstraintView>)
    requires
        forall|i: int|
            0 <= i < cs.len() ==> read_constraint(constraint_text(#[trigger] cs[i])) == Ok::<
                ConstraintView,
                VersionErrorView,
            >(cs[i]),
        forall|i: int| 0 <= i < cs.len() ==> tidy(constraint_text(#[trigger] cs[i])),
        forall|i: int| 0 <= i < cs.len() ==> constraint_text(#[trigger] cs[i])[0] != '*',
    ensures
        read_spec(spec_text(cs)) == Ok::<Seq<ConstraintView>, VersionErrorView>(cs),
{
    if cs.len() == 0 {
        assert(cs == Seq::<ConstraintView>::empty());
        lemma_trim_tidy(seq!['*']);
    } else {
        let parts = clause_texts(cs);
        let w = join(parts, seq![',']);
        assert forall|k: int| 0 <= k < parts.len() implies tidy(#[trigger] parts[k]) by {
            assert(tidy(constraint_text(cs[k])));
        }
        lemma_join_tidy(parts);
        assert(tidy(parts[0]) && tidy(parts.last()));
        lemma_trim_tidy(w);
        assert(w[0] == constraint_text(cs[0])[0]);
        assert(w != seq!['*']) by {
            assert(seq!['*'][0] == '*');
        }
        assert forall|k: int, i: int|
            0 <= k < parts.len() && 0 <= i < parts[k].len() implies #[trigger] parts[k][i]
            != ',' by {
            assert(tidy(parts[k]));
        }
        lemma_split_join(parts, ',');
        lemma_clauses_read_back(cs);
    }
}

/// A version specification: a list of clauses that must all hold.
#[derive(Debug)]
pub struct VersionSpec {
    constraints: Vec<VersionConstraint>,
}

/// The clauses of a vector as plain values.
pub open spec fn constraint_views(v: Seq<VersionConstraint>) -> Seq<ConstraintView> {
    Seq::new(v.len(), |i: int| v[i]@)
}

impl View for VersionSpec {
    type V = Seq<ConstraintView>;

    closed spec fn view(&self) -> Seq<ConstraintView> {
        constraint_views(self.constraints@)
    }
}

impl Clone for VersionSpec {
    fn clone(&self) -> (spec: VersionSpec)
        ensures
            spec@ == self@,
    {
        let mut constraints: Vec<VersionConstraint> = Vec::new();
        let mut i: usize = 0;
        while i < self.constraints.len()
            invariant
                i <= self.constraints.len(),
                constraint_views(constraints@) == constraint_views(self.constraints@).take(i as int),
            decreases self.constraints.len() - i,
        {
            let ghost before = constraints@;
            constraints.push(self.constraints[i].clone());
            assert(constraint_views(constraints@) == constraint_views(before).push(
                self.constraints@[i as int]@,
            ));
            assert(constraint_views(self.constraints@).take(i + 1) == constraint_views(
                self.constraints@,
            ).take(i as int).push(self.constraints@[i as int]@));
            i += 1;
        }
        assert(constraint_views(self.constraints@).take(self.constraints@.len() as int)
            == constraint_views(self.constraints@));
        VersionSpec { constraints }
    }
}

impl VersionSpec {
    /// The specification with the one clause `constraint`.
    pub fn single(constraint: VersionConstraint) -> (spec: VersionSpec)
        ensures
            spec@ == seq![constraint@],
    {
        let mut constraints: Vec<VersionConstraint> = Vec::new();
        constraints.push(constraint);
        assert(constraint_views(constraints@) == seq![constraint@]);
        VersionSpec { constraints }
    }

    /// The specification that only `version` satisfies.
    pub fn exact(version: Version) -> (spec: VersionSpec)
        ensures
            spec@ == seq![ConstraintView { op: ConstraintOp::Exact, version: version@ }],
    {
        VersionSpec::single(VersionConstraint::Exact(version))
    }

    /// The specification that every version satisfies.
    pub fn any() -> (spec: VersionSpec)
        ensures
            spec@ == Seq::<ConstraintView>::empty(),
    {
        let constraints: Vec<VersionConstraint> = Vec::new();
        assert(constraint_views(constraints@) == Seq::<ConstraintView>::empty());
        VersionSpec { constraints }
    }

    /// Whether `version` satisfies every clause.
    pub fn matches(&self, version: &Version) -> (r: bool)
        ensures
            r == spec_matches(self@, version@),
    {
        let mut i: usize = 0;
        while i < self.constraints.len()
            invariant
                i <= self.constraints.len(),
                forall|k: int| 0 <= k < i ==> constraint_matches(#[trigger] self@[k], version@),
            decreases self.constraints.len() - i,
        {
            if !self.constraints[i].matches(version) {
                assert(!constraint_matches(self@[i as int], version@));
                return false;
            }
            i += 1;
        }
        true
    }

    /// The clauses, in the order in which they were written.
    pub fn constraints(&self) -> (cs: &Vec<VersionConstraint>)
        ensures
            constraint_views(cs@) == self@,
    {
        &self.constraints
    }

    /// Whether the specification has no clause, so that any version will do.
    pub fn is_any(&self) -> (r: bool)
        ensures
            r == (self@.len() == 0),
    {
        self.constraints.len() == 0
    }

    /// Reads a specification.
    pub fn parse(s: &str) -> (r: Result<VersionSpec, VersionError>)
        ensures
            match r {
                Ok(spec) => read_spec(s@) == Ok::<Seq<ConstraintView>, VersionErrorView>(spec@),
                Err(e) => read_spec(s@) == Err::<Seq<ConstraintView>, VersionErrorView>(e@),
            },
    {
        let all = chars_of(s);
        let t = trim_chars(&all);
        if t.len() == 0 {
            return Ok(VersionSpec::any());
        }
        if t.len() == 1 && t[0] == '*' {
            assert(t@ == seq!['*']);
            return Ok(VersionSpec::any());
        }
        assert(t@ != seq!['*']) by {
            if t@ == seq!['*'] {
                assert(t@.len() == 1 && t@[0] == '*');
            }
        }
        let parts = split_chars(&t, ',');
        let mut constraints: Vec<VersionConstraint> = Vec::new();
        let mut i: usize = 0;
        assert(views(parts@).take(0) == Seq::<Seq<char>>::empty());
        assert(constraint_views(constraints@) == Seq::<ConstraintView>::empty());
        while i < parts.len()
            invariant
                i <= parts.len(),
                views(parts@) == split_on(trim(s@), ','),
                trim(s@).len() > 0,
                trim(s@) != seq!['*'],
                read_clauses(views(parts@).take(i as int)) == Ok::<
                    Seq<ConstraintView>,
                    VersionErrorView,
                >(constraint_views(constraints@)),
            decreases parts.len() - i,
        {
            let part_text = string_of(&parts[i]);
            let ghost done = views(parts@).take(i as int);
            let ghost next = views(parts@).take(i + 1);
            assert(next.drop_last() == done);
            assert(next.last() == parts@[i as int]@);
            match VersionConstraint::parse(part_text.as_str()) {
                Ok(c) => {
                    let ghost before = constraints@;
                    constraints.push(c);
                    assert(constraint_views(constraints@) == constraint_views(before).push(c@));
                },
                Err(e) => {
                    proof {
                        lemma_clauses_fail(views(parts@), i + 1);
                    }
                    return Err(e);
                },
            }
            i += 1;
        }
        assert(views(parts@).take(parts.len() as int) == views(parts@));
        Ok(VersionSpec { constraints })
    }

    /// The text of this specification. Reading the text gives the
    /// specification back.
    pub fn to_string(&self) -> (out: String)
        ensures
            out@ == spec_text(self@),
            read_spec(out@) == Ok::<Seq<ConstraintView>, VersionErrorView>(self@),
    {
        let mut pieces: Vec<String> = Vec::new();
        let mut i: usize = 0;
        while i < self.constraints.len()
            invariant
                i <= self.constraints.len(),
                pieces.len() == i,
                texts(pieces@) == clause_texts(self@.take(i as int)),
                forall|k: int|
                    0 <= k < i ==> read_constraint(constraint_text(#[trigger] self@[k])) == Ok::<
                        ConstraintView,
                        VersionErrorView,
                    >(self@[k]),
                forall|k: int| 0 <= k < i ==> tidy(constraint_text(#[trigger] self@[k])),
                forall|k: int| 0 <= k < i ==> constraint_text(#[trigger] self@[k])[0] != '*',
            decreases self.constraints.len() - i,
        {
            let piece = self.constraints[i].to_string();
            let ghost before = pieces@;
            pieces.push(piece);
            assert(texts(pieces@) == texts(before).push(piece@));
            assert(clause_texts(self@.take(i + 1)) == clause_texts(self@.take(i as int)).push(
                constraint_text(self@[i as int]),
            ));
            i += 1;
        }
        assert(self@.take(self.constraints.len() as int) == self@);
        proof {
            lemma_spec_reads_back(self@);
            reveal_strlit(",");
            assert(","@ == seq![',']);
        }
        if pieces.len() == 0 {
            let star = vec!['*'];
            return string_of(&star);
        }
        crate::text::join_texts(&pieces, ",")
    }
}

/// The text of a well-formed clause is tidy and does not begin with `*`.
proof fn lemma_first_clause_char(c: ConstraintView)
    requires
        valid_identifiers(c.version.pre, true),
        valid_identifiers(c.version.build, false),
    ensures
        tidy(constraint_text(c)),
        constraint_text(c)[0] != '*',
{
    let r = render(c.version);
    let o = op_text(c.op);
    let s = constraint_text(c);
    lemma_render_tidy(c.version);
    assert(s.last() == r.last());
    assert(s[0] == o[0]);
    assert forall|i: int| 0 <= i < s.len() implies #[trigger] s[i] != ',' by {
        if i >= o.len() {
            assert(s[i] == r[i - o.len()]);
        }
    }
}

/// Once a clause fails to read, so does every longer list.
proof fn lemma_clauses_fail(parts: Seq<Seq<char>>, n: int)
    requires
        0 <= n <= parts.len(),
        read_clauses(parts.take(n)) is Err,
    ensures
        read_clauses(parts) == read_clauses(parts.take(n)),
    decreases parts.len() - n,
{
    if n < parts.len() {
        assert(parts.take(n + 1).drop_last() == parts.take(n));
        lemma_clauses_fail(parts, n + 1);
    } else {
        assert(parts.take(n) == parts);
    }
}


impl std::str::FromStr for VersionSpec {
    type Err = VersionError;

    /// Reads a specification, as `VersionSpec::parse` does.
    fn from_str(s: &str) -> (r: Result<VersionSpec, VersionError>)
        ensures
            match r {
                Ok(spec) => read_spec(s@) == Ok::<Seq<ConstraintView>, VersionErrorView>(spec@),
                Err(e) => read_spec(s@) == Err::<Seq<ConstraintView>, VersionErrorView>(e@),
            },
    {
        VersionSpec::parse(s)
    }
}

} // verus!
