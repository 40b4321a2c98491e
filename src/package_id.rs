use vstd::prelude::*;

use crate::error::ReviewError;

verus! {

/// A semantic version as plain values: `major.minor.patch`, with optional
/// pre-release and build parts (empty when absent).
#[derive(Debug, PartialEq, Eq, Hash)]
pub struct Version {
    pub major: u64,
    pub minor: u64,
    pub patch: u64,
    pub pre: String,
    pub build: String,
}

/// The mathematical value of a [`Version`].
pub type VersionParts = (u64, u64, u64, Seq<char>, Seq<char>);

impl View for Version {
    type V = VersionParts;

    open spec fn view(&self) -> VersionParts {
        (self.major, self.minor, self.patch, self.pre@, self.build@)
    }
}

/// What `semver::Version::parse` yields for a text: `None` where it refuses it.
pub uninterp spec fn semver_parse(s: Seq<char>) -> Option<VersionParts>;

pub open spec fn digit_char(d: u64) -> char {
    if d == 0 {
        '0'
    } else if d == 1 {
        '1'
    } else if d == 2 {
        '2'
    } else if d == 3 {
        '3'
    } else if d == 4 {
        '4'
    } else if d == 5 {
        '5'
    } else if d == 6 {
        '6'
    } else if d == 7 {
        '7'
    } else if d == 8 {
        '8'
    } else {
        '9'
    }
}

/// The decimal digits of `n`, without leading zeros.
pub open spec fn decimal(n: u64) -> Seq<char>
    decreases n,
{
    if n < 10 {
        seq![digit_char(n)]
    } else {
        decimal(n / 10).push(digit_char(n % 10))
    }
}

/// The canonical text of a version: `x.y.z`, then `-pre` and `+build` where present.
pub open spec fn version_text(v: VersionParts) -> Seq<char> {
    let core = decimal(v.0) + seq!['.'] + decimal(v.1) + seq!['.'] + decimal(v.2);
    let with_pre = if v.3.len() > 0 {
        core + seq!['-'] + v.3
    } else {
        core
    };
    if v.4.len() > 0 {
        with_pre + seq!['+'] + v.4
    } else {
        with_pre
    }
}

/// Relies on `semver::Version::parse`: it accepts exactly what `semver_parse`
/// names, and it keeps every part as written (no leading zeros, no trimming),
/// so the accepted text is the canonical text of the version it yields.
#[verifier::external_body]
fn parse_semver(s: &str) -> (r: Result<Version, semver::Error>)
    ensures
        match r {
            Ok(v) => semver_parse(s@) == Some(v@) && version_text(v@) == s@,
            Err(_) => semver_parse(s@) is None,
        },
{
    let v = semver::Version::parse(s)?;
    Ok(
        Version {
            major: v.major,
            minor: v.minor,
            patch: v.patch,
            pre: v.pre.as_str().to_string(),
            build: v.build.as_str().to_string(),
        },
    )
}

#[verifier::external_type_specification]
#[verifier::external_body]
pub struct ExSemverError(semver::Error);

fn digit_str(d: u64) -> (r: &'static str)
    requires
        d < 10,
    ensures
        r@ == seq![digit_char(d)],
{
    if d == 0 {
        proof { reveal_strlit("0"); }
        "0"
    } else if d == 1 {
        proof { reveal_strlit("1"); }
        "1"
    } else if d == 2 {
        proof { reveal_strlit("2"); }
        "2"
    } else if d == 3 {
        proof { reveal_strlit("3"); }
        "3"
    } else if d == 4 {
        proof { reveal_strlit("4"); }
        "4"
    } else if d == 5 {
        proof { reveal_strlit("5"); }
        "5"
    } else if d == 6 {
        proof { reveal_strlit("6"); }
        "6"
    } else if d == 7 {
        proof { reveal_strlit("7"); }
        "7"
    } else if d == 8 {
        proof { reveal_strlit("8"); }
        "8"
    } else {
        proof { reveal_strlit("9"); }
        "9"
    }
}

/// The decimal text of `n`.
pub fn decimal_text(n: u64) -> (r: String)
    ensures
        r@ == decimal(n),
    decreases n,
{
    if n < 10 {
        String::from_str(digit_str(n))
    } else {
        let mut s = decimal_text(n / 10);
        s.append(digit_str(n % 10));
        s
    }
}

impl Version {
    /// The canonical text of the version.
    pub fn to_string(&self) -> (r: String)
        ensures
            r@ == version_text(self@),
    {
        let mut s = decimal_text(self.major);
        s.append(".");
        s.append(decimal_text(self.minor).as_str());
        s.append(".");
        s.append(decimal_text(self.patch).as_str());
        proof {
            reveal_strlit(".");
        }
        if self.pre.as_str().unicode_len() > 0 {
            s.append("-");
            s.append(self.pre.as_str());
            proof {
                reveal_strlit("-");
            }
        }
        if self.build.as_str().unicode_len() > 0 {
            s.append("+");
            s.append(self.build.as_str());
            proof {
                reveal_strlit("+");
            }
        }
        s
    }
}

/// An exact package version: a name and a semantic version. Its text form is
/// `name:version`, split at the first colon.
#[derive(Debug, PartialEq, Eq, Hash)]
pub struct PackageId {
    name: String,
    version: Version,
}

impl Clone for Version {
    fn clone(&self) -> (r: Version)
        ensures
            r@ == self@,
    {
        Version {
            major: self.major,
            minor: self.minor,
            patch: self.patch,
            pre: self.pre.clone(),
            build: self.build.clone(),
        }
    }
}

impl Clone for PackageId {
    fn clone(&self) -> (r: PackageId)
        ensures
            r@ == self@,
    {
        proof {
            use_type_invariant(self);
        }
        PackageId { name: self.name.clone(), version: self.version.clone() }
    }
}

impl PackageId {
    /// Every identifier is well-formed: `parse` is the only way to make one.
    #[verifier::type_invariant]
    closed spec fn inv(&self) -> bool {
        self@.wf()
    }
}

/// The mathematical value of a [`PackageId`].
pub struct PackageIdView {
    pub name: Seq<char>,
    pub version: VersionParts,
}

impl View for PackageId {
    type V = PackageIdView;

    closed spec fn view(&self) -> PackageIdView {
        PackageIdView { name: self.name@, version: self.version@ }
    }
}

/// No character of `s` is a colon.
pub open spec fn colon_free(s: Seq<char>) -> bool {
    forall|k: int| 0 <= k < s.len() ==> s[k] != ':'
}

/// The position of the first colon in `s`.
pub open spec fn first_colon(s: Seq<char>) -> Option<nat>
    decreases s.len(),
{
    if s.len() == 0 {
        None
    } else if s[0] == ':' {
        Some(0)
    } else {
        match first_colon(s.drop_first()) {
            Some(i) => Some(i + 1),
            None => None,
        }
    }
}

impl PackageIdView {
    /// A name that the first colon does not cut, and a version that semver
    /// reads back from its canonical text.
    pub open spec fn wf(self) -> bool {
        &&& colon_free(self.name)
        &&& semver_parse(version_text(self.version)) == Some(self.version)
    }

    /// The text form `name:version`.
    pub open spec fn text(self) -> Seq<char> {
        self.name + seq![':'] + version_text(self.version)
    }
}

/// What parsing `s` as a package identifier yields: split at the first colon,
/// the rest read as a semantic version; `None` where either step fails.
pub open spec fn parse_package_id(s: Seq<char>) -> Option<PackageIdView> {
    match first_colon(s) {
        None => None,
        Some(i) => match semver_parse(s.subrange((i + 1) as int, s.len() as int)) {
            None => None,
            Some(v) => Some(PackageIdView { name: s.subrange(0, i as int), version: v }),
        },
    }
}

/// What `Ord::cmp` of `semver::Version` yields for two versions: semantic
/// version precedence, with build metadata as the last tie-breaker.
pub uninterp spec fn semver_cmp(a: VersionParts, b: VersionParts) -> std::cmp::Ordering;

/// Relies on `Ord for semver::Version` (derived over major, minor, patch,
/// pre-release and build, each ordered by the crate's own rules). The
/// `requires` asks for versions that `semver::Version::parse` accepted, whose
/// pre-release and build parts therefore pass `Prerelease::new` and
/// `BuildMetadata::new`.
#[verifier::external_body]
fn compare_semver(a: &Version, b: &Version) -> (r: std::cmp::Ordering)
    requires
        semver_parse(version_text(a@)) == Some(a@),
        semver_parse(version_text(b@)) == Some(b@),
    ensures
        r == semver_cmp(a@, b@),
{
    let pre_a = semver::Prerelease::new(&a.pre).unwrap();
    let build_a = semver::BuildMetadata::new(&a.build).unwrap();
    let pre_b = semver::Prerelease::new(&b.pre).unwrap();
    let build_b = semver::BuildMetadata::new(&b.build).unwrap();
    let x = semver::Version { major: a.major, minor: a.minor, patch: a.patch, pre: pre_a, build: build_a };
    let y = semver::Version { major: b.major, minor: b.minor, patch: b.patch, pre: pre_b, build: build_b };
    x.cmp(&y)
}

/// Lexicographic order of two texts, character by character.
pub open spec fn text_cmp(a: Seq<char>, b: Seq<char>) -> std::cmp::Ordering
    decreases a.len(),
{
    if a.len() == 0 {
        if b.len() == 0 {
            std::cmp::Ordering::Equal
        } else {
            std::cmp::Ordering::Less
        }
    } else if b.len() == 0 {
        std::cmp::Ordering::Greater
    } else if (a[0] as u32) < (b[0] as u32) {
        std::cmp::Ordering::Less
    } else if (a[0] as u32) > (b[0] as u32) {
        std::cmp::Ordering::Greater
    } else {
        text_cmp(a.drop_first(), b.drop_first())
    }
}

/// The order of package identifiers: by name, then by version precedence.
pub open spec fn id_cmp(a: PackageIdView, b: PackageIdView) -> std::cmp::Ordering {
    match text_cmp(a.name, b.name) {
        std::cmp::Ordering::Equal => semver_cmp(a.version, b.version),
        o => o,
    }
}

/// The lexicographic order of two texts.
pub fn compare_text(a: &str, b: &str) -> (r: std::cmp::Ordering)
    ensures
        r == text_cmp(a@, b@),
{
    let n = a.unicode_len();
    let m = b.unicode_len();
    let mut i: usize = 0;
    assert(a@.skip(0) =~= a@);
    assert(b@.skip(0) =~= b@);
    while i < n && i < m
        invariant
            n == a@.len(),
            m == b@.len(),
            i <= n,
            i <= m,
            text_cmp(a@, b@) == text_cmp(a@.skip(i as int), b@.skip(i as int)),
        decreases n - i,
    {
        let x = a.get_char(i);
        let y = b.get_char(i);
        if (x as u32) < (y as u32) {
            return std::cmp::Ordering::Less;
        }
        if (x as u32) > (y as u32) {
            return std::cmp::Ordering::Greater;
        }
        assert(a@.skip(i as int).drop_first() =~= a@.skip(i + 1));
        assert(b@.skip(i as int).drop_first() =~= b@.skip(i + 1));
        i = i + 1;
    }
    if i == n && i == m {
        std::cmp::Ordering::Equal
    } else if i == n {
        std::cmp::Ordering::Less
    } else {
        std::cmp::Ordering::Greater
    }
}

/// A colon after a colon-free prefix is the first colon.
pub proof fn lemma_first_colon_at(s: Seq<char>, i: int)
    requires
        0 <= i < s.len(),
        s[i] == ':',
        colon_free(s.subrange(0, i)),
    ensures
        first_colon(s) == Some(i as nat),
    decreases i,
{
    if i > 0 {
        assert(s[0] == s.subrange(0, i)[0]);
        let t = s.drop_first();
        assert forall|k: int| 0 <= k < i - 1 implies #[trigger] t.subrange(0, i - 1)[k] != ':' by {
            assert(t.subrange(0, i - 1)[k] == s.subrange(0, i)[k + 1]);
        }
        lemma_first_colon_at(t, i - 1);
    }
}

/// A string without a colon has no first colon.
pub proof fn lemma_no_colon(s: Seq<char>)
    requires
        colon_free(s),
    ensures
        first_colon(s) is None,
    decreases s.len(),
{
    if s.len() > 0 {
        lemma_no_colon(s.drop_first());
    }
}

/// Parsing the text of a well-formed identifier gives that identifier back.
pub proof fn lemma_parse_text(p: PackageIdView)
    requires
        p.wf(),
    ensures
        parse_package_id(p.text()) == Some(p),
{
    let s = p.text();
    let n = p.name.len() as int;
    assert(s.subrange(0, n) =~= p.name);
    lemma_first_colon_at(s, n);
    assert(s.subrange(n + 1, s.len() as int) =~= version_text(p.version));
}

/// Printing a parsed identifier and parsing the text again gives the same
/// identifier.
pub proof fn lemma_parse_print_parse(s: Seq<char>)
    requires
        parse_package_id(s) matches Some(p) && p.wf(),
    ensures
        parse_package_id(parse_package_id(s)->Some_0.text()) == parse_package_id(s),
{
    lemma_parse_text(parse_package_id(s)->Some_0);
}

/// Text without a colon, or whose part after the first colon is no semantic
/// version, is not a package identifier.
pub proof fn lemma_parse_rejects(s: Seq<char>)
    requires
        colon_free(s) || (first_colon(s) matches Some(i) && semver_parse(
            s.subrange((i + 1) as int, s.len() as int),
        ) is None),
    ensures
        parse_package_id(s) is None,
{
    if colon_free(s) {
        lemma_no_colon(s);
    }
}

impl PackageId {
    /// Reads `name:x.y.z`: the text up to the first colon is the name, the rest
    /// must be a semantic version.
    pub fn parse(s: &str) -> (r: Result<PackageId, ReviewError>)
        ensures
            match r {
                Ok(p) => parse_package_id(s@) == Some(p@) && p@.wf() && p@.text() == s@,
                Err(e) => {
                    &&& parse_package_id(s@) is None
                    &&& e matches ReviewError::InvalidSpecification(t) && t@ == s@
                },
            },
    {
        let n = s.unicode_len();
        let mut i: usize = 0;
        while i < n && s.get_char(i) != ':'
            invariant
                n == s@.len(),
                i <= n,
                colon_free(s@.subrange(0, i as int)),
            decreases n - i,
        {
            assert(s@.subrange(0, i + 1) =~= s@.subrange(0, i as int).push(s@[i as int]));
            i = i + 1;
        }
        if i == n {
            proof {
                assert(s@.subrange(0, i as int) =~= s@);
                lemma_no_colon(s@);
            }
            return Err(ReviewError::InvalidSpecification(String::from_str(s)));
        }
        proof {
            lemma_first_colon_at(s@, i as int);
        }
        let name = String::from_str(s.substring_char(0, i));
        let rest = s.substring_char(i + 1, n);
        match parse_semver(rest) {
            Ok(version) => {
                let p = PackageId { name, version };
                assert(s@ =~= s@.subrange(0, i as int) + seq![':'] + s@.subrange(i + 1, n as int));
                Ok(p)
            },
            Err(_) => Err(ReviewError::InvalidSpecification(String::from_str(s))),
        }
    }

    /// The name of the package.
    pub fn name(&self) -> (r: &String)
        ensures
            r@ == self@.name,
    {
        &self.name
    }

    /// The version of the package.
    pub fn version(&self) -> (r: &Version)
        ensures
            r@ == self@.version,
    {
        &self.version
    }

    /// Orders identifiers by name, then by version precedence.
    pub fn compare(&self, other: &PackageId) -> (r: std::cmp::Ordering)
        ensures
            r == id_cmp(self@, other@),
    {
        proof {
            use_type_invariant(self);
            use_type_invariant(other);
        }
        match compare_text(self.name.as_str(), other.name.as_str()) {
            std::cmp::Ordering::Equal => compare_semver(&self.version, &other.version),
            o => o,
        }
    }

    /// The text form `name:version`.
    pub fn to_string(&self) -> (r: String)
        ensures
            r@ == self@.text(),
    {
        let mut s = self.name.clone();
        s.append(":");
        proof {
            reveal_strlit(":");
        }
        s.append(self.version.to_string().as_str());
        s
    }
}

impl std::str::FromStr for PackageId {
    type Err = ReviewError;

    fn from_str(s: &str) -> (r: Result<PackageId, ReviewError>)
        ensures
            match r {
                Ok(p) => parse_package_id(s@) == Some(p@) && p@.wf() && p@.text() == s@,
                Err(e) => {
                    &&& parse_package_id(s@) is None
                    &&& e matches ReviewError::InvalidSpecification(t) && t@ == s@
                },
            },
    {
        PackageId::parse(s)
    }
}

} // verus!
