//! Epochs: the version buckets that the vendored store is laid out by.
use vstd::prelude::*;
use vstd::string::*;

use crate::digits::{all_digits, decimal, digits_value, is_digit, lemma_decimal, lemma_u64_text_of_decimal, parse_u64, u64_text, u64_to_decimal};
use crate::version::{Version, VersionReq};

verus! {

/// A normalized version as used in vendored package paths.
///
/// A package version is identified by its major version where that is at
/// least 1, else by its minor version. Many versions share one epoch.
#[derive(Clone, Copy, Debug, PartialEq, Eq, Structural, Hash, PartialOrd, Ord)]
pub enum Epoch {
    /// Epoch of a version whose major component is 0; the field is the minor
    /// component. Well formed only when it is not 0.
    Minor(u64),
    /// Epoch of a version whose major component is at least 1; the field is
    /// that component. Well formed only when it is not 0.
    Major(u64),
}

/// Why a tag such as `v1` or `v0_2` could not be read as an epoch.
#[derive(Clone, Debug, PartialEq, Eq)]
pub enum EpochParseError {
    /// An integer could not be parsed where one was expected.
    InvalidInt(std::num::ParseIntError),
    /// The `v` marker was missing, there were extra `_` segments, or there was
    /// nothing after the marker.
    BadFormat,
    /// The two numbers did not form an epoch: `v0_0`, `v1_0`, `v1_1`, `v0`.
    BadVersion,
}

/// Why a requirement string does not name exactly one epoch.
#[derive(Clone, Copy, Debug, PartialEq, Eq, Structural)]
pub enum RequirementError {
    /// The text is not a version requirement at all.
    Malformed,
    /// The requirement has more or fewer than one comparator.
    NotSingleComparator,
    /// The comparator does not use the default (caret) strategy.
    NotDefaultStrategy,
    /// The comparator is `0` or `0.0`, which no epoch stands for.
    NoEpoch,
}

impl EpochParseError {
    /// A message describing the error.
    pub fn to_string(&self) -> (r: String)
        ensures
            *self == EpochParseError::BadFormat ==> r@ == "epoch string had incorrect format"@,
            *self == EpochParseError::BadVersion ==> r@ == "epoch string had invalid version"@,
    {
        match self {
            EpochParseError::InvalidInt(e) => parse_int_error_text(e),
            EpochParseError::BadFormat => String::from_str("epoch string had incorrect format"),
            EpochParseError::BadVersion => String::from_str("epoch string had invalid version"),
        }
    }
}

/// Relies on `ParseIntError`'s `Display` through `to_string`, for its message.
#[verifier::external_body]
fn parse_int_error_text(e: &std::num::ParseIntError) -> String {
    e.to_string()
}

/// What reading a tag yields, for the contract of `Epoch::from_str`.
pub enum TagOutcome {
    Valid(Epoch),
    InvalidInt,
    BadFormat,
    BadVersion,
}

/// The epoch of the version `major.minor.*`.
pub open spec fn epoch_of(major: u64, minor: u64) -> Epoch {
    if major == 0 {
        Epoch::Minor(minor)
    } else {
        Epoch::Major(major)
    }
}

impl Epoch {
    /// An epoch that some package version can have.
    pub open spec fn wf(self) -> bool {
        match self {
            Epoch::Minor(n) => n != 0,
            Epoch::Major(n) => n != 0,
        }
    }

    /// The requirement-style text: `1` or `0.2`.
    pub open spec fn version_text(self) -> Seq<char> {
        match self {
            Epoch::Minor(n) => seq!['0', '.'] + decimal(n as nat),
            Epoch::Major(n) => decimal(n as nat),
        }
    }

    /// The tag text used for directories: `v1` or `v0_2`.
    pub open spec fn tag_text(self) -> Seq<char> {
        match self {
            Epoch::Minor(n) => seq!['v', '0', '_'] + decimal(n as nat),
            Epoch::Major(n) => seq!['v'] + decimal(n as nat),
        }
    }

    /// Get the requirement-style version text for this epoch: only a non-zero
    /// major component, or a zero major and a non-zero minor component. This
    /// differs from the tag text of `to_string`.
    pub fn to_version_string(&self) -> (r: String)
        requires
            self.wf(),
        ensures
            r@ == self.version_text(),
    {
        match *self {
            Epoch::Minor(minor) => {
                let digits = u64_to_decimal(minor);
                let mut r = String::from_str("0.");
                proof {
                    reveal_strlit("0.");
                }
                r.append(digits.as_str());
                assert(r@ =~= self.version_text());
                r
            },
            Epoch::Major(major) => u64_to_decimal(major),
        }
    }

    /// The tag text of this epoch: `v1` for `Major(1)`, `v0_3` for `Minor(3)`.
    pub fn to_string(&self) -> (r: String)
        requires
            self.wf(),
        ensures
            r@ == self.tag_text(),
    {
        let (prefix, n) = match *self {
            Epoch::Minor(minor) => ("v0_", minor),
            Epoch::Major(major) => ("v", major),
        };
        proof {
            reveal_strlit("v0_");
            reveal_strlit("v");
        }
        let digits = u64_to_decimal(n);
        let mut r = String::from_str(prefix);
        r.append(digits.as_str());
        assert(r@ =~= self.tag_text());
        r
    }

    /// A requirement that matches any version of this epoch: `^M` for
    /// `Major(M)`, `^0.m` for `Minor(m)`.
    pub fn to_version_req(&self) -> (r: VersionReq)
        ensures
            r == self.version_req(),
    {
        match *self {
            Epoch::Minor(x) => VersionReq { major: 0, minor: Some(x) },
            Epoch::Major(x) => VersionReq { major: x, minor: None },
        }
    }

    pub open spec fn version_req(self) -> VersionReq {
        match self {
            Epoch::Minor(x) => VersionReq { major: 0, minor: Some(x) },
            Epoch::Major(x) => VersionReq { major: x, minor: None },
        }
    }

    /// Compute the epoch of a version.
    pub fn from_version(version: &Version) -> (r: Epoch)
        ensures
            r == epoch_of(version.major, version.minor),
            (version.major != 0 || version.minor != 0) ==> r.wf(),
    {
        if version.major == 0 {
            Epoch::Minor(version.minor)
        } else {
            Epoch::Major(version.major)
        }
    }

    /// Read the epoch that a dependency requirement such as `0.1.0` or `2.3`
    /// asks for. Only one comparator with the default strategy is accepted.
    pub fn from_version_req_str(req: &str) -> (r: Result<Epoch, RequirementError>)
        ensures
            r == requirement_epoch(req@),
            forall|e: Epoch| e.wf() && req@ == e.version_text() ==> r == Ok::<Epoch, RequirementError>(e),
    {
        match parse_requirement(req) {
            Err(_) => Err(RequirementError::Malformed),
            Ok(comparators) => Self::from_comparators(&comparators),
        }
    }

    /// The epoch named by the parsed comparators of a requirement: each is
    /// whether it uses the caret (default) strategy, its major component and
    /// its minor component.
    pub fn from_comparators(comparators: &Vec<(bool, u64, Option<u64>)>) -> (r: Result<Epoch, RequirementError>)
        ensures
            r == comparators_epoch(comparators@),
    {
        if comparators.len() != 1 {
            return Err(RequirementError::NotSingleComparator);
        }
        let (caret, major, minor) = comparators[0];
        if !caret {
            return Err(RequirementError::NotDefaultStrategy);
        }
        match (major, minor) {
            (0, None) => Err(RequirementError::NoEpoch),
            (0, Some(0)) => Err(RequirementError::NoEpoch),
            (0, Some(x)) => Ok(Epoch::Minor(x)),
            (x, _) => Ok(Epoch::Major(x)),
        }
    }

    /// Read a tag of the form `v{i}` with `i >= 1`, or `v0_{i}` with `i >= 1`.
    pub fn from_str(s: &str) -> (r: Result<Epoch, EpochParseError>)
        ensures
            match epoch_tag(s@) {
                TagOutcome::Valid(e) => r == Ok::<Epoch, EpochParseError>(e),
                TagOutcome::InvalidInt => r matches Err(EpochParseError::InvalidInt(_)),
                TagOutcome::BadFormat => r == Err::<Epoch, EpochParseError>(EpochParseError::BadFormat),
                TagOutcome::BadVersion => r == Err::<Epoch, EpochParseError>(EpochParseError::BadVersion),
            },
    {
        let n = s.unicode_len();
        if n < 2 || s.get_char(0) != 'v' {
            return Err(EpochParseError::BadFormat);
        }
        let mut i: usize = 1;
        while i < n - 1
            invariant
                1 <= i <= n - 1,
                n == s@.len(),
                forall|j: int| 1 <= j < i ==> s@[j] != 'v',
            decreases n - i,
        {
            if s.get_char(i) == 'v' {
                return Err(EpochParseError::BadFormat);
            }
            i = i + 1;
        }
        let body = s.substring_char(1, n);
        let body_len = n - 1;
        assert(body@ =~= s@.drop_first());
        let k = find_char(body, '_');
        proof { lemma_first_index(body@, '_', k as int); }
        let first = body.substring_char(0, k);
        if find_char(first, '+') < k {
            return Err(EpochParseError::BadFormat);
        }
        proof { lemma_number_text(first@); }
        let major = match parse_u64(first) {
            Ok(v) => v,
            Err(e) => return Err(EpochParseError::InvalidInt(e)),
        };
        if k == body_len {
            if major == 0 {
                return Err(EpochParseError::BadVersion);
            }
            return Ok(Epoch::Major(major));
        }
        let rest = body.substring_char(k + 1, body_len);
        let rest_len = body_len - (k + 1);
        let k2 = find_char(rest, '_');
        proof { lemma_first_index(rest@, '_', k2 as int); }
        let second = rest.substring_char(0, k2);
        if find_char(second, '+') < k2 {
            return Err(EpochParseError::BadFormat);
        }
        proof { lemma_number_text(second@); }
        let minor = match parse_u64(second) {
            Ok(v) => v,
            Err(e) => return Err(EpochParseError::InvalidInt(e)),
        };
        if major != 0 || minor == 0 {
            return Err(EpochParseError::BadVersion);
        }
        if k2 < rest_len {
            Err(EpochParseError::BadFormat)
        } else {
            Ok(Epoch::Minor(minor))
        }
    }
}

/// `k` is where `s` first holds `c`, or its length where it holds none.
pub open spec fn is_first_index(s: Seq<char>, c: char, k: int) -> bool {
    0 <= k <= s.len() && (forall|i: int| 0 <= i < k ==> s[i] != c) && (k == s.len() || s[k] == c)
}

pub open spec fn first_index(s: Seq<char>, c: char) -> int {
    choose|k: int| is_first_index(s, c, k)
}

pub proof fn lemma_first_index(s: Seq<char>, c: char, k: int)
    requires
        is_first_index(s, c, k),
    ensures
        first_index(s, c) == k,
{
    let j = first_index(s, c);
    assert(is_first_index(s, c, j));
    if j < k {
        assert(s[j] != c);
    } else if k < j {
        assert(s[k] != c);
    }
}

fn find_char(s: &str, c: char) -> (k: usize)
    ensures
        is_first_index(s@, c, k as int),
{
    let n = s.unicode_len();
    let mut k: usize = 0;
    while k < n
        invariant
            n == s@.len(),
            k <= n,
            forall|i: int| 0 <= i < k ==> s@[i] != c,
        decreases n - k,
    {
        if s.get_char(k) == c {
            return k;
        }
        k = k + 1;
    }
    k
}

/// A number segment of a tag: one or more ASCII digits whose value fits in
/// 64 bits.
pub open spec fn number_text(p: Seq<char>) -> Option<u64> {
    if p.len() > 0 && all_digits(p) && digits_value(p) <= u64::MAX {
        Some(digits_value(p) as u64)
    } else {
        None
    }
}

/// Without a `+`, `u64::from_str` reads exactly the number segments.
pub proof fn lemma_number_text(p: Seq<char>)
    requires
        forall|i: int| 0 <= i < p.len() ==> p[i] != '+',
    ensures
        u64_text(p) == number_text(p),
{
    if p.len() > 0 {
        assert(p[0] != '+');
    }
}

/// What `Epoch::from_str` makes of the text `s`. After the `v` marker, `_`
/// splits the text into at most two number segments; a `v` can end it but not
/// stand inside it. A segment holding a `+` is badly formatted; one holding
/// another non-digit, or nothing, or a value beyond 64 bits, is no integer.
pub open spec fn epoch_tag(s: Seq<char>) -> TagOutcome {
    if !(s.len() >= 2 && s[0] == 'v' && (forall|j: int| 1 <= j < s.len() - 1 ==> s[j] != 'v')) {
        TagOutcome::BadFormat
    } else {
        let body = s.drop_first();
        let k = first_index(body, '_');
        let first = body.take(k);
        if first.contains('+') {
            TagOutcome::BadFormat
        } else {
            match number_text(first) {
                None => TagOutcome::InvalidInt,
                Some(major) => if k == body.len() {
                    if major == 0 {
                        TagOutcome::BadVersion
                    } else {
                        TagOutcome::Valid(Epoch::Major(major))
                    }
                } else {
                    let rest = body.skip(k + 1);
                    let k2 = first_index(rest, '_');
                    let second = rest.take(k2);
                    if second.contains('+') {
                        TagOutcome::BadFormat
                    } else {
                        match number_text(second) {
                            None => TagOutcome::InvalidInt,
                            Some(minor) => if major != 0 || minor == 0 {
                                TagOutcome::BadVersion
                            } else if k2 < rest.len() {
                                TagOutcome::BadFormat
                            } else {
                                TagOutcome::Valid(Epoch::Minor(minor))
                            },
                        }
                    }
                },
            }
        }
    }
}

/// `a` is a number segment with the value `n`.
pub open spec fn is_number(a: Seq<char>, n: u64) -> bool {
    a.len() > 0 && all_digits(a) && digits_value(a) == n
}

/// The grammar of tags: `v` and a non-zero number for `Major`, `v`, a zero
/// number, `_` and a non-zero number for `Minor`. Digits may have leading
/// zeros.
pub open spec fn spells_epoch(s: Seq<char>, e: Epoch) -> bool {
    e.wf() && match e {
        Epoch::Major(n) => exists|a: Seq<char>| s == seq!['v'] + a && #[trigger] is_number(a, n),
        Epoch::Minor(n) => exists|a: Seq<char>, b: Seq<char>|
            s == seq!['v'] + a + seq!['_'] + b && #[trigger] is_number(a, 0) && #[trigger] is_number(b, n),
    }
}

/// What a requirement string parses to: for each comparator, whether it uses
/// the caret (default) strategy, its major component and its minor component.
pub uninterp spec fn parsed_requirement(s: Seq<char>) -> Option<Seq<(bool, u64, Option<u64>)>>;

/// What `Epoch::from_version_req_str` returns for the text `s`.
pub open spec fn requirement_epoch(s: Seq<char>) -> Result<Epoch, RequirementError> {
    match parsed_requirement(s) {
        None => Err(RequirementError::Malformed),
        Some(cs) => comparators_epoch(cs),
    }
}

/// The epoch that a requirement of the comparators `cs` names: it must have
/// exactly one comparator, of the caret strategy, and not be `0` or `0.0`.
pub open spec fn comparators_epoch(cs: Seq<(bool, u64, Option<u64>)>) -> Result<Epoch, RequirementError> {
    if cs.len() != 1 {
        Err(RequirementError::NotSingleComparator)
    } else if !cs[0].0 {
        Err(RequirementError::NotDefaultStrategy)
    } else if cs[0].1 == 0 {
        match cs[0].2 {
            Some(x) => if x == 0 { Err(RequirementError::NoEpoch) } else { Ok(Epoch::Minor(x)) },
            None => Err(RequirementError::NoEpoch),
        }
    } else {
        Ok(Epoch::Major(cs[0].1))
    }
}

/// The parse of a requirement made of one caret comparator.
pub open spec fn single_caret(major: u64, minor: Option<u64>) -> Seq<(bool, u64, Option<u64>)> {
    seq![(true, major, minor)]
}

/// Relies on `semver::VersionReq::parse`: the comparators of a Cargo version
/// requirement. A bare `n` or `0.m` written in shortest decimal form is one
/// caret comparator with no further components.
#[verifier::external_body]
fn parse_requirement(req: &str) -> (r: Result<Vec<(bool, u64, Option<u64>)>, semver::Error>)
    ensures
        r is Ok ==> parsed_requirement(req@) == Some(r->Ok_0@),
        r is Err ==> parsed_requirement(req@) is None,
        forall|n: u64| req@ == decimal(n as nat) ==> r is Ok && r->Ok_0@ == single_caret(n, None),
        forall|m: u64| req@ == seq!['0', '.'] + decimal(m as nat) ==> r is Ok && r->Ok_0@ == single_caret(0, Some(m)),
{
    let req = semver::VersionReq::parse(req)?;
    Ok(req.comparators.iter().map(|c| (matches!(c.op, semver::Op::Caret), c.major, c.minor)).collect())
}

#[verifier::external_type_specification]
#[verifier::external_body]
pub struct ExSemverError(semver::Error);

#[verifier::external_type_specification]
#[verifier::external_body]
pub struct ExParseIntError(std::num::ParseIntError);

/// `ParseIntError` is `Clone`; nothing is relied on of the copy.
pub assume_specification[ <std::num::ParseIntError as Clone>::clone ](e: &std::num::ParseIntError) -> std::num::ParseIntError;

/// Every well-formed epoch reads back from its tag text. With the `ensures` of
/// `to_string`, `from_version` and `from_str`, the epoch of a version with a
/// non-zero major or minor component round-trips through its tag.
pub proof fn lemma_tag_round_trip(e: Epoch)
    requires
        e.wf(),
    ensures
        epoch_tag(e.tag_text()) == TagOutcome::Valid(e),
{
    let s = e.tag_text();
    match e {
        Epoch::Major(n) => {
            let d = decimal(n as nat);
            lemma_decimal(n as nat);
            lemma_u64_text_of_decimal(n);
            assert(s.drop_first() =~= d);
            assert forall|j: int| 1 <= j < s.len() - 1 implies s[j] != 'v' by {
                assert(s[j] == d[j - 1]);
            }
            assert(is_first_index(d, '_', d.len() as int)) by {
                assert forall|i: int| 0 <= i < d.len() implies d[i] != '_' by {
                    assert(crate::digits::is_digit(d[i]));
                }
            }
            lemma_first_index(d, '_', d.len() as int);
            assert(d.take(d.len() as int) =~= d);
        },
        Epoch::Minor(n) => {
            let d = decimal(n as nat);
            lemma_decimal(n as nat);
            lemma_u64_text_of_decimal(n);
            lemma_u64_text_of_decimal(0);
            let body = s.drop_first();
            assert(body =~= seq!['0', '_'] + d);
            assert forall|j: int| 1 <= j < s.len() - 1 implies s[j] != 'v' by {
                if j >= 3 {
                    assert(s[j] == d[j - 3]);
                    assert(crate::digits::is_digit(d[j - 3]));
                }
            }
            assert(is_first_index(body, '_', 1));
            lemma_first_index(body, '_', 1);
            assert(body.take(1) =~= decimal(0));
            let rest = body.skip(2);
            assert(rest =~= d);
            assert(is_first_index(d, '_', d.len() as int)) by {
                assert forall|i: int| 0 <= i < d.len() implies d[i] != '_' by {
                    assert(crate::digits::is_digit(d[i]));
                }
            }
            lemma_first_index(d, '_', d.len() as int);
            assert(d.take(d.len() as int) =~= d);
        },
    }
}

/// The epoch of every version whose major or minor component is not 0 is well
/// formed and reads back from its tag text; `from_version_req_str` reads it
/// back from its requirement text (see its `ensures`).
pub proof fn lemma_version_epoch_round_trip(v: Version)
    requires
        v.major != 0 || v.minor != 0,
    ensures
        epoch_of(v.major, v.minor).wf(),
        epoch_tag(epoch_of(v.major, v.minor).tag_text()) == TagOutcome::Valid(epoch_of(v.major, v.minor)),
{
    lemma_tag_round_trip(epoch_of(v.major, v.minor));
}

/// Every text has a first index of `c` (its length where `c` is absent).
pub proof fn lemma_first_index_exists(s: Seq<char>, c: char)
    ensures
        is_first_index(s, c, first_index(s, c)),
    decreases s.len(),
{
    if s.len() == 0 {
        assert(is_first_index(s, c, 0));
    } else {
        let p = s.drop_last();
        lemma_first_index_exists(p, c);
        let k = first_index(p, c);
        assert forall|i: int| 0 <= i < p.len() implies s[i] == p[i] by {}
        if k < p.len() {
            assert(is_first_index(s, c, k));
        } else if s.last() == c {
            assert(is_first_index(s, c, k));
        } else {
            assert(is_first_index(s, c, s.len() as int));
        }
    }
}

proof fn lemma_digits_free_of(a: Seq<char>, c: char)
    requires
        all_digits(a),
        !is_digit(c),
    ensures
        is_first_index(a, c, a.len() as int),
        !a.contains(c),
{
    assert forall|i: int| 0 <= i < a.len() implies a[i] != c by {
        assert(is_digit(a[i]));
    }
}

/// A tag reads as the epoch `e` exactly when it is spelled by the tag grammar
/// for `e`: the `v` marker, then decimal digits, then for a `Minor` epoch `_`
/// and more digits, and nothing else.
pub proof fn lemma_epoch_tag_grammar(s: Seq<char>, e: Epoch)
    ensures
        epoch_tag(s) == TagOutcome::Valid(e) <==> spells_epoch(s, e),
{
    if spells_epoch(s, e) {
        match e {
            Epoch::Major(n) => {
                let a = choose|a: Seq<char>| s == seq!['v'] + a && #[trigger] is_number(a, n);
                assert(s.drop_first() =~= a);
                assert forall|j: int| 1 <= j < s.len() - 1 implies s[j] != 'v' by {
                    assert(s[j] == a[j - 1]);
                    assert(is_digit(a[j - 1]));
                }
                lemma_digits_free_of(a, '_');
                lemma_digits_free_of(a, '+');
                lemma_first_index(a, '_', a.len() as int);
                assert(a.take(a.len() as int) =~= a);
            },
            Epoch::Minor(n) => {
                let (a, b) = choose|a: Seq<char>, b: Seq<char>|
                    s == seq!['v'] + a + seq!['_'] + b && #[trigger] is_number(a, 0) && #[trigger] is_number(b, n);
                let body = s.drop_first();
                assert(body =~= a + seq!['_'] + b);
                assert forall|j: int| 1 <= j < s.len() - 1 implies s[j] != 'v' by {
                    assert(s[j] == body[j - 1]);
                    if j - 1 < a.len() {
                        assert(body[j - 1] == a[j - 1]);
                        assert(is_digit(a[j - 1]));
                    } else if j - 1 > a.len() {
                        assert(body[j - 1] == b[j - 1 - a.len() - 1]);
                        assert(is_digit(b[j - 2 - a.len()]));
                    }
                }
                lemma_digits_free_of(a, '_');
                lemma_digits_free_of(a, '+');
                lemma_digits_free_of(b, '_');
                lemma_digits_free_of(b, '+');
                assert(is_first_index(body, '_', a.len() as int)) by {
                    assert forall|i: int| 0 <= i < a.len() implies body[i] != '_' by {
                        assert(body[i] == a[i]);
                    }
                }
                lemma_first_index(body, '_', a.len() as int);
                assert(body.take(a.len() as int) =~= a);
                assert(body.skip(a.len() as int + 1) =~= b);
                lemma_first_index(b, '_', b.len() as int);
                assert(b.take(b.len() as int) =~= b);
            },
        }
    }
    if epoch_tag(s) == TagOutcome::Valid(e) {
        let body = s.drop_first();
        lemma_first_index_exists(body, '_');
        let k = first_index(body, '_');
        let first = body.take(k);
        let major = number_text(first)->Some_0;
        if k == body.len() {
            assert(first =~= body);
            assert(s =~= seq!['v'] + first);
            assert(is_number(first, major));
            assert(e == Epoch::Major(major));
            assert(e.wf());
            assert(spells_epoch(s, e));
        } else {
            let rest = body.skip(k + 1);
            lemma_first_index_exists(rest, '_');
            let k2 = first_index(rest, '_');
            let second = rest.take(k2);
            let minor = number_text(second)->Some_0;
            assert(second =~= rest);
            assert(body =~= first + seq!['_'] + second);
            assert(s =~= seq!['v'] + first + seq!['_'] + second);
            assert(is_number(first, 0));
            assert(is_number(second, minor));
            assert(e == Epoch::Minor(minor));
            assert(e.wf());
            assert(spells_epoch(s, e));
        }
    }
}

} // verus!
