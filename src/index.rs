//! The library versions each Minecraft version needs, and the lookups that
//! find them.
use vstd::prelude::*;
use vstd::string::*;
use crate::maven::{coordinate, MavenLibrary, MavenRepository, VersionRule};
use crate::minecraft::MinecraftVersion;
use crate::version_metadata::{decimal, decimal_string};

verus! {

/// The library versions resolved for one Minecraft version.
#[derive(Clone, Debug)]
pub struct Versions {
    pub architectury_api: String,
    pub forge: Option<String>,
    pub neoforge: Option<String>,
    pub neoforge_yarn_patch: Option<String>,
}

/// A lookup in a library's metadata: the greatest version the rule accepts.
pub struct VersionQuery {
    pub library: MavenLibrary,
    pub rule: VersionRule,
}

/// The lookups that resolve a `Versions`.
pub struct VersionQueries {
    pub architectury_api: VersionQuery,
    pub forge: Option<VersionQuery>,
    pub neoforge: Option<VersionQuery>,
    pub neoforge_yarn_patch: Option<VersionQuery>,
}

/// Whether `q` looks in `c` for versions starting with `prefix`.
pub open spec fn starts_with_query(q: VersionQuery, c: crate::maven::Coordinate, prefix: Seq<char>) -> bool {
    q.library@ == c && match q.rule {
        VersionRule::StartsWith(p) => p@ == prefix,
        _ => false,
    }
}

fn starts_with(prefix: String) -> (r: VersionRule)
    ensures
        r matches VersionRule::StartsWith(p) && p@ == prefix@,
{
    VersionRule::StartsWith(prefix)
}

impl Versions {
    /// The lookups for a game version: Architectury API versions starting
    /// with `<api version>.`; where Forge exists, Forge versions starting
    /// with `<game version>-<forge major>.`; where NeoForge exists, NeoForge
    /// versions starting with `<neoforge major>.`, and, where it names a
    /// Yarn patch prefix, patch versions starting with `<prefix>+`.
    pub fn queries(game_version: &MinecraftVersion) -> (r: VersionQueries)
        ensures
            starts_with_query(
                r.architectury_api,
                coordinate(
                    MavenRepository::Architectury,
                    game_version.meta().architectury.maven_group@,
                    "architectury"@,
                ),
                game_version.meta().architectury.api_version@ + "."@,
            ),
            match game_version.meta().forge {
                Some(f) => r.forge is Some && starts_with_query(
                    r.forge->Some_0,
                    coordinate(MavenRepository::Forge, "net.minecraftforge"@, "forge"@),
                    game_version.meta().version@ + "-"@ + decimal(f.major_version as nat) + "."@,
                ),
                None => r.forge is None,
            },
            match game_version.meta().neoforge {
                Some(n) => r.neoforge is Some && starts_with_query(
                    r.neoforge->Some_0,
                    coordinate(MavenRepository::NeoForge, "net.neoforged"@, "neoforge"@),
                    n.neoforge_major_version@ + "."@,
                ),
                None => r.neoforge is None,
            },
            match game_version.meta().neoforge {
                Some(n) => match n.yarn_patch_version {
                    Some(y) => r.neoforge_yarn_patch is Some && starts_with_query(
                        r.neoforge_yarn_patch->Some_0,
                        coordinate(
                            MavenRepository::Architectury,
                            "dev.architectury"@,
                            "yarn-mappings-patch-neoforge"@,
                        ),
                        y@ + "+"@,
                    ),
                    None => r.neoforge_yarn_patch is None,
                },
                None => r.neoforge_yarn_patch is None,
            },
    {
        let mut arch_prefix = game_version.architectury_api_version().to_owned();
        arch_prefix.append(".");
        let architectury_api = VersionQuery {
            library: MavenLibrary::architectury_api(game_version),
            rule: starts_with(arch_prefix),
        };
        let forge = match game_version.forge_major_version() {
            Some(major) => {
                let mut prefix = game_version.version().to_owned();
                prefix.append("-");
                let digits = decimal_string(major);
                prefix.append(digits.as_str());
                prefix.append(".");
                Some(VersionQuery { library: MavenLibrary::forge(), rule: starts_with(prefix) })
            },
            None => None,
        };
        let neoforge = match game_version.neoforge_major() {
            Some(major) => {
                let mut prefix = major.to_owned();
                prefix.append(".");
                Some(VersionQuery { library: MavenLibrary::neoforge(), rule: starts_with(prefix) })
            },
            None => None,
        };
        let neoforge_yarn_patch = match game_version.neoforge_yarn_patch_version() {
            Some(patch) => {
                let mut prefix = patch.to_owned();
                prefix.append("+");
                Some(
                    VersionQuery {
                        library: MavenLibrary::neoforge_yarn_patch(),
                        rule: starts_with(prefix),
                    },
                )
            },
            None => None,
        };
        VersionQueries { architectury_api, forge, neoforge, neoforge_yarn_patch }
    }
}

/// Resolved versions by Minecraft version; where a name occurs twice, the
/// later entry wins.
pub struct VersionIndex {
    pub versions: Vec<(String, Versions)>,
}

/// The position of the last entry for `key`, or -1.
pub open spec fn last_entry(entries: Seq<(String, Versions)>, key: Seq<char>) -> int
    decreases entries.len(),
{
    if entries.len() == 0 {
        -1
    } else if entries.last().0@ == key {
        entries.len() - 1
    } else {
        last_entry(entries.drop_last(), key)
    }
}

impl VersionIndex {
    /// The versions resolved for `game_version`, if any were.
    pub fn get(&self, game_version: &str) -> (r: Option<&Versions>)
        ensures
            last_entry(self.versions@, game_version@) < 0 ==> r is None,
            last_entry(self.versions@, game_version@) >= 0 ==> r is Some && *r->Some_0
                == self.versions@[last_entry(self.versions@, game_version@)].1,
    {
        let key = game_version.to_owned();
        let mut i: usize = self.versions.len();
        assert(self.versions@.subrange(0, i as int) =~= self.versions@);
        while i > 0
            invariant
                i <= self.versions@.len(),
                key@ == game_version@,
                last_entry(self.versions@, game_version@) == last_entry(
                    self.versions@.subrange(0, i as int),
                    game_version@,
                ),
            decreases i,
        {
            assert(self.versions@.subrange(0, i as int).last() == self.versions@[i - 1]);
            if self.versions[i - 1].0 == key {
                return Some(&self.versions[i - 1].1);
            }
            assert(self.versions@.subrange(0, i as int).drop_last() =~= self.versions@.subrange(0, i - 1));
            i = i - 1;
        }
        None
    }
}

} // verus!
