//! Maven coordinates of the libraries a generated project depends on, and
//! the choice of a version from a repository's metadata.
use vstd::prelude::*;
use vstd::string::*;
use core::cmp::Ordering;
use crate::minecraft::MinecraftVersion;
use crate::text::{from_chars, replace_all, replace_chars, to_chars};

verus! {

/// A Maven repository that hosts mod-loader libraries.
#[derive(Clone, Copy, PartialEq, Eq, Debug, Structural)]
pub enum MavenRepository {
    Fabric,
    Architectury,
    Forge,
    NeoForge,
    Quilt,
}

/// The base address of a repository.
pub open spec fn repository_url(r: MavenRepository) -> Seq<char> {
    match r {
        MavenRepository::Fabric => "https://maven.fabricmc.net"@,
        MavenRepository::Architectury => "https://maven.architectury.dev"@,
        MavenRepository::Forge => "https://maven.minecraftforge.net"@,
        MavenRepository::NeoForge => "https://maven.neoforged.net/releases"@,
        MavenRepository::Quilt => "https://maven.quiltmc.org/repository/release/"@,
    }
}

impl MavenRepository {
    pub fn url(&self) -> (r: &'static str)
        ensures
            r@ == repository_url(*self),
    {
        match self {
            MavenRepository::Fabric => "https://maven.fabricmc.net",
            MavenRepository::Architectury => "https://maven.architectury.dev",
            MavenRepository::Forge => "https://maven.minecraftforge.net",
            MavenRepository::NeoForge => "https://maven.neoforged.net/releases",
            MavenRepository::Quilt => "https://maven.quiltmc.org/repository/release/",
        }
    }

    /// Whether a browser may fetch from the repository directly: only
    /// Fabric's allows cross-origin requests.
    pub fn allows_cross_origin(&self) -> (r: bool)
        ensures
            r == (*self == MavenRepository::Fabric),
    {
        match self {
            MavenRepository::Fabric => true,
            _ => false,
        }
    }
}

/// A library: the repository that hosts it, its group and its artifact name.
#[derive(Clone, Debug)]
pub struct MavenLibrary {
    repository: MavenRepository,
    group: String,
    name: String,
}

/// The mathematical form of a library's coordinates.
pub struct Coordinate {
    pub repository: MavenRepository,
    pub group: Seq<char>,
    pub name: Seq<char>,
}

impl View for MavenLibrary {
    type V = Coordinate;

    closed spec fn view(&self) -> Coordinate {
        Coordinate { repository: self.repository, group: self.group@, name: self.name@ }
    }
}

/// The coordinate with the given parts.
pub open spec fn coordinate(repository: MavenRepository, group: Seq<char>, name: Seq<char>) -> Coordinate {
    Coordinate { repository, group, name }
}

impl MavenLibrary {
    pub fn new(repository: MavenRepository, group: &str, name: &str) -> (r: MavenLibrary)
        ensures
            r@ == coordinate(repository, group@, name@),
    {
        MavenLibrary { repository, group: group.to_owned(), name: name.to_owned() }
    }

    pub fn repository(&self) -> (r: &MavenRepository)
        ensures
            *r == self@.repository,
    {
        &self.repository
    }

    pub fn group(&self) -> (r: &str)
        ensures
            r@ == self@.group,
    {
        self.group.as_str()
    }

    pub fn name(&self) -> (r: &str)
        ensures
            r@ == self@.name,
    {
        self.name.as_str()
    }

    pub fn yarn() -> (r: MavenLibrary)
        ensures
            r@ == coordinate(MavenRepository::Fabric, "net.fabricmc"@, "yarn"@),
    {
        Self::new(MavenRepository::Fabric, "net.fabricmc", "yarn")
    }

    pub fn fabric_loader() -> (r: MavenLibrary)
        ensures
            r@ == coordinate(MavenRepository::Fabric, "net.fabricmc"@, "fabric-loader"@),
    {
        Self::new(MavenRepository::Fabric, "net.fabricmc", "fabric-loader")
    }

    pub fn fabric_api() -> (r: MavenLibrary)
        ensures
            r@ == coordinate(MavenRepository::Fabric, "net.fabricmc.fabric-api"@, "fabric-api"@),
    {
        Self::new(MavenRepository::Fabric, "net.fabricmc.fabric-api", "fabric-api")
    }

    /// Architectury API, in the Maven group that the game version names.
    pub fn architectury_api(game_version: &MinecraftVersion) -> (r: MavenLibrary)
        ensures
            r@ == coordinate(
                MavenRepository::Architectury,
                game_version.meta().architectury.maven_group@,
                "architectury"@,
            ),
    {
        Self::new(
            MavenRepository::Architectury,
            game_version.architectury_maven_group(),
            "architectury",
        )
    }

    pub fn neoforge_yarn_patch() -> (r: MavenLibrary)
        ensures
            r@ == coordinate(
                MavenRepository::Architectury,
                "dev.architectury"@,
                "yarn-mappings-patch-neoforge"@,
            ),
    {
        Self::new(MavenRepository::Architectury, "dev.architectury", "yarn-mappings-patch-neoforge")
    }

    pub fn forge() -> (r: MavenLibrary)
        ensures
            r@ == coordinate(MavenRepository::Forge, "net.minecraftforge"@, "forge"@),
    {
        Self::new(MavenRepository::Forge, "net.minecraftforge", "forge")
    }

    pub fn neoforge() -> (r: MavenLibrary)
        ensures
            r@ == coordinate(MavenRepository::NeoForge, "net.neoforged"@, "neoforge"@),
    {
        Self::new(MavenRepository::NeoForge, "net.neoforged", "neoforge")
    }

    pub fn quilt_loader() -> (r: MavenLibrary)
        ensures
            r@ == coordinate(MavenRepository::Quilt, "org.quiltmc"@, "quilt-loader"@),
    {
        Self::new(MavenRepository::Quilt, "org.quiltmc", "quilt-loader")
    }

    pub fn quilted_fabric_api() -> (r: MavenLibrary)
        ensures
            r@ == coordinate(
                MavenRepository::Quilt,
                "org.quiltmc.quilted-fabric-api"@,
                "quilted-fabric-api"@,
            ),
    {
        Self::new(MavenRepository::Quilt, "org.quiltmc.quilted-fabric-api", "quilted-fabric-api")
    }

    /// Where the library's `maven-metadata.xml` lives: the repository's
    /// address, the group with `.` turned into `/`, and the artifact name.
    pub fn metadata_url(&self) -> (r: String)
        ensures
            r@ == metadata_url_of(self@),
    {
        let mut s = self.repository.url().to_owned();
        s.append("/");
        let dots = to_chars(".");
        let slashes = to_chars("/");
        proof {
            reveal_strlit(".");
            reveal_strlit("/");
            assert(dots@ =~= seq!['.']);
            assert(slashes@ =~= seq!['/']);
        }
        let group = from_chars(&replace_chars(&to_chars(self.group.as_str()), &dots, &slashes));
        s.append(group.as_str());
        s.append("/");
        s.append(self.name.as_str());
        s.append("/maven-metadata.xml");
        s
    }

    /// A description for messages: `group:name in url`.
    pub fn describe(&self) -> (r: String)
        ensures
            r@ == self@.group + ":"@ + self@.name + " in "@ + repository_url(self@.repository),
    {
        let mut s = self.group.clone();
        s.append(":");
        s.append(self.name.as_str());
        s.append(" in ");
        s.append(self.repository.url());
        s
    }
}

/// The address of a library's metadata file.
pub open spec fn metadata_url_of(c: Coordinate) -> Seq<char> {
    repository_url(c.repository) + "/"@ + replace_all(c.group, seq!['.'], seq!['/']) + "/"@ + c.name
        + "/maven-metadata.xml"@
}

/// Which published versions of a library are acceptable.
#[derive(Clone, Debug)]
pub enum VersionRule {
    /// Versions that start with the text.
    StartsWith(String),
    /// Versions that end with the text.
    EndsWith(String),
}

/// Whether `v` satisfies a rule.
pub open spec fn rule_accepts(rule: VersionRule, v: Seq<char>) -> bool {
    match rule {
        VersionRule::StartsWith(p) => p@.len() <= v.len() && v.subrange(0, p@.len() as int) == p@,
        VersionRule::EndsWith(s) => s@.len() <= v.len() && v.subrange(
            v.len() - s@.len(),
            v.len() as int,
        ) == s@,
    }
}

impl VersionRule {
    /// Whether `version` satisfies the rule.
    pub fn accepts(&self, version: &str) -> (r: bool)
        ensures
            r == rule_accepts(*self, version@),
    {
        let v = to_chars(version);
        let (pattern, at_end) = match self {
            VersionRule::StartsWith(p) => (to_chars(p.as_str()), false),
            VersionRule::EndsWith(s) => (to_chars(s.as_str()), true),
        };
        if pattern.len() > v.len() {
            return false;
        }
        let offset: usize = if at_end {
            v.len() - pattern.len()
        } else {
            0
        };
        let r = crate::text::matches_at(&v, &pattern, offset);
        proof {
            if r {
                assert(v@.subrange(offset as int, offset + pattern@.len()) == pattern@);
            }
        }
        r
    }
}

/// Whether `c` is an ASCII digit.
pub open spec fn is_digit(c: char) -> bool {
    '0' <= c && c <= '9'
}

/// The value of an ASCII digit.
pub open spec fn digit_value(c: char) -> nat {
    ((c as u32) - 48) as nat
}

/// The number that a string of decimal digits spells.
pub open spec fn digits_value(s: Seq<char>) -> nat
    decreases s.len(),
{
    if s.len() == 0 {
        0
    } else {
        digits_value(s.drop_last()) * 10 + digit_value(s.last())
    }
}

/// Whether the characters of `s` from `i` up to `j` are all ASCII digits.
pub open spec fn all_digits(s: Seq<char>, i: int, j: int) -> bool {
    forall|k: int| i <= k < j ==> is_digit(#[trigger] s[k])
}

/// Number of characters of `s` before its first `+`: the comparator ignores
/// the rest.
pub open spec fn plus_end(s: Seq<char>) -> nat
    decreases s.len(),
{
    if s.len() == 0 || s[0] == '+' {
        0
    } else {
        1 + plus_end(s.drop_first())
    }
}

/// The largest `i64`.
pub const I64_MAX: u64 = 9223372036854775807;

/// Whether the version comparator can read `s`: every run of ASCII digits
/// before the first `+` spells a number that fits an `i64`.
pub open spec fn orderable(s: Seq<char>) -> bool {
    forall|i: int, j: int|
        0 <= i <= j <= plus_end(s) && all_digits(s, i, j) ==> #[trigger] digits_value(
            s.subrange(i, j),
        ) <= I64_MAX
}

proof fn lemma_value_grows(s: Seq<char>, a: int, b: int, c: int)
    requires
        0 <= a <= b <= c <= s.len(),
        all_digits(s, a, c),
    ensures
        digits_value(s.subrange(b, c)) <= digits_value(s.subrange(a, c)),
    decreases c - b,
{
    if b < c {
        lemma_value_grows(s, a, b, c - 1);
        assert(s.subrange(b, c).drop_last() =~= s.subrange(b, c - 1));
        assert(s.subrange(a, c).drop_last() =~= s.subrange(a, c - 1));
    } else {
        assert(s.subrange(b, c) =~= Seq::<char>::empty());
    }
}

proof fn lemma_plus_end(s: Seq<char>, m: int)
    requires
        0 <= m <= s.len(),
        forall|k: int| 0 <= k < m ==> #[trigger] s[k] != '+',
    ensures
        plus_end(s) >= m,
        m == s.len() || s[m] == '+' ==> plus_end(s) == m,
    decreases m,
{
    if m > 0 {
        assert forall|k: int| 0 <= k < m - 1 implies #[trigger] s.drop_first()[k] != '+' by {
            assert(s.drop_first()[k] == s[k + 1]);
        }
        lemma_plus_end(s.drop_first(), m - 1);
        assert(s[0] != '+');
    }
}

fn is_orderable(s: &Vec<char>) -> (r: bool)
    ensures
        r == orderable(s@),
{
    let n = s.len();
    let mut i: usize = 0;
    let mut start: usize = 0;
    let mut value: u64 = 0;
    assert(s@.subrange(0, 0) =~= Seq::<char>::empty());
    while i < n && s[i] != '+'
        invariant
            n == s@.len(),
            start <= i <= n,
            all_digits(s@, start as int, i as int),
            start == 0 || !is_digit(s@[start - 1]),
            value as nat == digits_value(s@.subrange(start as int, i as int)),
            value <= I64_MAX,
            forall|k: int| 0 <= k < i ==> #[trigger] s@[k] != '+',
            forall|a: int, b: int|
                0 <= a <= b <= i && all_digits(s@, a, b) ==> #[trigger] digits_value(
                    s@.subrange(a, b),
                ) <= I64_MAX,
        decreases n - i,
    {
        let c = s[i];
        let ghost old_start = start;
        proof {
            lemma_plus_end(s@, i + 1);
        }
        assert(s@.subrange(start as int, i + 1).drop_last() =~= s@.subrange(start as int, i as int));
        if '0' <= c && c <= '9' {
            let d = (c as u32 - 48) as u64;
            let next: u128 = (value as u128) * 10 + (d as u128);
            if next > I64_MAX as u128 {
                assert(all_digits(s@, start as int, i + 1));
                assert(digits_value(s@.subrange(start as int, i + 1)) > I64_MAX);
                return false;
            }
            value = next as u64;
            assert forall|a: int, b: int|
                0 <= a <= b <= i + 1 && all_digits(s@, a, b) implies #[trigger] digits_value(
                    s@.subrange(a, b),
                ) <= I64_MAX by {
                if b == i + 1 {
                    if a < start {
                        assert(is_digit(s@[start - 1]));
                    }
                    lemma_value_grows(s@, start as int, a, i + 1);
                }
            }
        } else {
            start = i + 1;
            value = 0;
            assert(s@.subrange(start as int, i + 1) =~= Seq::<char>::empty());
            assert forall|a: int, b: int|
                0 <= a <= b <= i + 1 && all_digits(s@, a, b) implies #[trigger] digits_value(
                    s@.subrange(a, b),
                ) <= I64_MAX by {
                if b == i + 1 && a < b {
                    assert(is_digit(s@[i as int]));
                }
                if b == i + 1 && a == b {
                    assert(s@.subrange(a, b) =~= Seq::<char>::empty());
                }
            }
        }
        i = i + 1;
    }
    proof {
        lemma_plus_end(s@, i as int);
    }
    true
}

/// How the version comparator orders two version strings.
pub uninterp spec fn flexver_order(a: Seq<char>, b: Seq<char>) -> Ordering;

/// Relies on `flexver_rs::compare`: a version-aware ordering whose answer
/// depends on the two strings alone. It panics on a run of digits that does
/// not fit an `i64`, which `orderable` rules out.
#[verifier::external_body]
fn flexver_compare(a: &str, b: &str) -> (r: Ordering)
    requires
        orderable(a@),
        orderable(b@),
    ensures
        r == flexver_order(a@, b@),
{
    flexver_rs::compare(a, b)
}

/// The versions a rule accepts, in order.
pub open spec fn candidates(vs: Seq<Seq<char>>, rule: VersionRule) -> Seq<Seq<char>>
    decreases vs.len(),
{
    if vs.len() == 0 {
        seq![]
    } else {
        let rest = candidates(vs.drop_last(), rule);
        if rule_accepts(rule, vs.last()) {
            rest.push(vs.last())
        } else {
            rest
        }
    }
}

/// The greatest version under the comparator; of equal ones, the first.
pub open spec fn best_version(vs: Seq<Seq<char>>) -> Option<Seq<char>>
    decreases vs.len(),
{
    if vs.len() == 0 {
        None
    } else {
        match best_version(vs.drop_last()) {
            None => Some(vs.last()),
            Some(b) => if flexver_order(vs.last(), b) == Ordering::Greater {
                Some(vs.last())
            } else {
                Some(b)
            },
        }
    }
}

proof fn lemma_best_is_candidate(vs: Seq<Seq<char>>)
    ensures
        best_version(vs) is Some <==> vs.len() > 0,
        best_version(vs) is Some ==> exists|i: int| 0 <= i < vs.len() && vs[i] == best_version(vs)->Some_0,
    decreases vs.len(),
{
    if vs.len() > 0 {
        lemma_best_is_candidate(vs.drop_last());
        if best_version(vs.drop_last()) is Some {
            let i = choose|i: int| 0 <= i < vs.drop_last().len() && vs.drop_last()[i] == best_version(vs.drop_last())->Some_0;
            assert(vs[i] == vs.drop_last()[i]);
        }
        assert(vs[vs.len() - 1] == vs.last());
    }
}

/// The parts of a repository's metadata that version selection reads.
pub struct MavenMetadata {
    /// The `<latest>` text under `<metadata><versioning>`, where present
    /// and not empty.
    pub latest: Option<String>,
    /// The non-empty `<version>` texts under `<versions>`, where that
    /// element is present.
    pub versions: Option<Vec<String>>,
}

/// The latest version the metadata names.
pub fn get_latest_version(metadata: &MavenMetadata) -> (r: Option<String>)
    ensures
        r == metadata.latest,
{
    match &metadata.latest {
        Some(v) => Some(v.clone()),
        None => None,
    }
}

/// A version the comparator cannot read, met where two versions had to be
/// compared.
#[derive(Debug)]
pub struct UnorderableVersion {
    pub version: String,
}

/// Whether choosing among `cs` compares a version the comparator cannot
/// read: with two or more candidates every one takes part in a comparison.
pub open spec fn needs_unorderable(cs: Seq<Seq<char>>) -> bool {
    cs.len() >= 2 && exists|i: int| 0 <= i < cs.len() && !orderable(#[trigger] cs[i])
}

/// Whether `r` is the outcome of choosing the greatest of the candidates
/// `cs`: nothing where there is none, an unreadable version where one would
/// have to be compared, else the greatest (of equal ones, the first).
pub open spec fn is_selection(r: Result<Option<String>, UnorderableVersion>, cs: Seq<Seq<char>>) -> bool {
    match r {
        Err(e) => needs_unorderable(cs) && cs.contains(e.version@) && !orderable(e.version@),
        Ok(None) => cs.len() == 0,
        Ok(Some(v)) => !needs_unorderable(cs) && best_version(cs) == Some(v@),
    }
}

/// The greatest version the rule accepts, under the version comparator;
/// `None` where the metadata lists no versions or none is accepted.
pub fn get_latest_version_matching(metadata: &MavenMetadata, rule: &VersionRule) -> (r: Result<Option<String>, UnorderableVersion>)
    ensures
        match metadata.versions {
            None => r matches Ok(None),
            Some(vs) => is_selection(r, candidates(crate::text::views(vs@), *rule)),
        },
{
    match &metadata.versions {
        None => Ok(None),
        Some(vs) => select_version(vs, rule),
    }
}

proof fn lemma_candidates_prefix(vs: Seq<Seq<char>>, rule: VersionRule, k: int)
    requires
        0 <= k <= vs.len(),
    ensures
        candidates(vs.subrange(0, k), rule).len() <= candidates(vs, rule).len(),
        forall|j: int|
            0 <= j < candidates(vs.subrange(0, k), rule).len() ==> #[trigger] candidates(
                vs.subrange(0, k),
                rule,
            )[j] == candidates(vs, rule)[j],
    decreases vs.len() - k,
{
    if k < vs.len() {
        lemma_candidates_prefix(vs, rule, k + 1);
        assert(vs.subrange(0, k + 1).drop_last() =~= vs.subrange(0, k));
        let short = candidates(vs.subrange(0, k), rule);
        let long = candidates(vs.subrange(0, k + 1), rule);
        assert forall|j: int| 0 <= j < short.len() implies #[trigger] short[j] == candidates(vs, rule)[j] by {
            assert(long[j] == short[j]);
        }
    } else {
        assert(vs.subrange(0, k) =~= vs);
    }
}

/// The greatest of `versions` that the rule accepts.
pub fn select_version(versions: &Vec<String>, rule: &VersionRule) -> (r: Result<Option<String>, UnorderableVersion>)
    ensures
        is_selection(r, candidates(crate::text::views(versions@), *rule)),
{
    let ghost vs = crate::text::views(versions@);
    let mut best: Option<String> = None;
    let mut i: usize = 0;
    assert(vs.subrange(0, 0) =~= Seq::<Seq<char>>::empty());
    while i < versions.len()
        invariant
            vs == crate::text::views(versions@),
            i <= versions@.len(),
            !needs_unorderable(candidates(vs.subrange(0, i as int), *rule)),
            match best {
                None => candidates(vs.subrange(0, i as int), *rule).len() == 0,
                Some(b) => best_version(candidates(vs.subrange(0, i as int), *rule)) == Some(b@),
            },
        decreases versions@.len() - i,
    {
        let ghost pre = vs.subrange(0, i as int);
        let ghost next = vs.subrange(0, i + 1);
        let ghost cs = candidates(pre, *rule);
        assert(next.drop_last() =~= pre);
        assert(next.last() == versions@[i as int]@);
        let v = &versions[i];
        if rule.accepts(v.as_str()) {
            assert(candidates(next, *rule) == cs.push(v@));
            assert(cs.push(v@).drop_last() =~= cs);
            assert(cs.push(v@)[cs.len() as int] == v@);
            proof {
                lemma_candidates_prefix(vs, *rule, i + 1);
                assert(vs.subrange(0, vs.len() as int) =~= vs);
                lemma_best_is_candidate(cs);
            }
            match &best {
                None => {
                    assert(cs.len() == 0);
                    assert(cs.push(v@).len() == 1);
                    best = Some(v.clone());
                },
                Some(b) => {
                    let ghost all = candidates(vs, *rule);
                    let ghost k = choose|k: int| 0 <= k < cs.len() && cs[k] == best_version(cs)->Some_0;
                    if !is_orderable(&to_chars(v.as_str())) {
                        assert(all[cs.len() as int] == v@);
                        assert(!orderable(all[cs.len() as int]));
                        return Err(UnorderableVersion { version: v.clone() });
                    }
                    if !is_orderable(&to_chars(b.as_str())) {
                        assert(all[k] == b@);
                        assert(!orderable(all[k]));
                        return Err(UnorderableVersion { version: b.clone() });
                    }
                    let replace = match flexver_compare(v.as_str(), b.as_str()) {
                        Ordering::Greater => true,
                        _ => false,
                    };
                    assert forall|j: int| 0 <= j < cs.push(v@).len() implies orderable(#[trigger] cs.push(v@)[j]) by {
                        if j < cs.len() {
                            assert(cs.push(v@)[j] == cs[j]);
                            if cs.len() == 1 {
                                assert(j == k);
                            } else {
                                assert(!needs_unorderable(cs));
                                if !orderable(cs[j]) {
                                    assert(needs_unorderable(cs));
                                }
                            }
                        }
                    }
                    if replace {
                        best = Some(v.clone());
                    }
                },
            }
        } else {
            assert(candidates(next, *rule) == cs);
        }
        i = i + 1;
    }
    assert(vs.subrange(0, i as int) =~= vs);
    proof {
        lemma_best_is_candidate(candidates(vs, *rule));
    }
    match best {
        None => Ok(None),
        Some(b) => Ok(Some(b)),
    }
}

} // verus!
