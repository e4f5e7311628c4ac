//! What the generator knows about each Minecraft version.
use vstd::prelude::*;
use vstd::string::*;
use crate::text::push_char;

verus! {

/// The known Minecraft versions and which one is the latest.
#[derive(Clone, Debug)]
pub struct MinecraftVersionList {
    pub latest_version: String,
    pub versions: Vec<MinecraftVersion>,
}

/// The metadata of one Minecraft version.
#[derive(Clone, Debug)]
pub struct MinecraftVersion {
    pub version: String,
    pub java_version: u32,
    pub architectury: ArchitecturyMetadata,
    pub fabric: FabricMetadata,
    pub forge: Option<ForgeMetadata>,
    pub neoforge: Option<NeoForgeMetadata>,
}

/// Architectury API coordinates for a Minecraft version.
#[derive(Clone, Debug)]
pub struct ArchitecturyMetadata {
    pub api_version: String,
    pub package: String,
    pub maven_group: String,
}

/// Fabric specifics of a Minecraft version.
#[derive(Clone, Debug)]
pub struct FabricMetadata {
    pub fabric_api_branch: Option<String>,
    pub fabric_api_mod_id: String,
}

/// Forge specifics of a Minecraft version.
#[derive(Clone, Debug)]
pub struct ForgeMetadata {
    pub major_version: u32,
    pub pack_version: u32,
    pub server_pack_version: Option<(String, String)>,
}

/// NeoForge specifics of a Minecraft version.
#[derive(Clone, Debug)]
pub struct NeoForgeMetadata {
    pub loader_major_version: String,
    pub neoforge_major_version: String,
    pub yarn_patch_version: Option<String>,
}

/// The Architectury package and Maven group used when the metadata names none.
pub fn default_architectury_package() -> (r: String)
    ensures
        r@ == seq!['d', 'e', 'v', '.', 'a', 'r', 'c', 'h', 'i', 't', 'e', 'c', 't', 'u', 'r', 'y'],
{
    proof {
        reveal_strlit("dev.architectury");
    }
    "dev.architectury".to_owned()
}

/// The Fabric API mod id used when the metadata names none.
pub fn default_fabric_api_mod_id() -> (r: String)
    ensures
        r@ == seq!['f', 'a', 'b', 'r', 'i', 'c', '-', 'a', 'p', 'i'],
{
    proof {
        reveal_strlit("fabric-api");
    }
    "fabric-api".to_owned()
}

impl FabricMetadata {
    /// No branch override, and the default Fabric API mod id.
    pub fn default() -> (r: FabricMetadata)
        ensures
            r.fabric_api_branch is None,
            r.fabric_api_mod_id@ == seq!['f', 'a', 'b', 'r', 'i', 'c', '-', 'a', 'p', 'i'],
    {
        FabricMetadata { fabric_api_branch: None, fabric_api_mod_id: default_fabric_api_mod_id() }
    }
}

fn duplicate_opt(s: &Option<String>) -> (r: Option<String>)
    ensures
        r == *s,
{
    match s {
        Some(v) => Some(v.clone()),
        None => None,
    }
}

impl MinecraftVersion {
    /// A copy of this metadata.
    pub fn duplicate(&self) -> (r: MinecraftVersion)
        ensures
            r == *self,
    {
        let architectury = ArchitecturyMetadata {
            api_version: self.architectury.api_version.clone(),
            package: self.architectury.package.clone(),
            maven_group: self.architectury.maven_group.clone(),
        };
        let fabric = FabricMetadata {
            fabric_api_branch: duplicate_opt(&self.fabric.fabric_api_branch),
            fabric_api_mod_id: self.fabric.fabric_api_mod_id.clone(),
        };
        let forge = match &self.forge {
            Some(f) => Some(
                ForgeMetadata {
                    major_version: f.major_version,
                    pack_version: f.pack_version,
                    server_pack_version: match &f.server_pack_version {
                        Some((k, v)) => Some((k.clone(), v.clone())),
                        None => None,
                    },
                },
            ),
            None => None,
        };
        let neoforge = match &self.neoforge {
            Some(n) => Some(
                NeoForgeMetadata {
                    loader_major_version: n.loader_major_version.clone(),
                    neoforge_major_version: n.neoforge_major_version.clone(),
                    yarn_patch_version: duplicate_opt(&n.yarn_patch_version),
                },
            ),
            None => None,
        };
        MinecraftVersion {
            version: self.version.clone(),
            java_version: self.java_version,
            architectury,
            fabric,
            forge,
            neoforge,
        }
    }
}

/// The position of the last version in `vs` called `key`, or -1.
pub open spec fn last_index_of(vs: Seq<MinecraftVersion>, key: Seq<char>) -> int
    decreases vs.len(),
{
    if vs.len() == 0 {
        -1
    } else if vs.last().version@ == key {
        vs.len() - 1
    } else {
        last_index_of(vs.drop_last(), key)
    }
}

proof fn lemma_last_index_bounds(vs: Seq<MinecraftVersion>, key: Seq<char>)
    ensures
        -1 <= last_index_of(vs, key) < vs.len(),
        last_index_of(vs, key) >= 0 ==> vs[last_index_of(vs, key)].version@ == key,
        last_index_of(vs, key) < 0 ==> forall|i: int| 0 <= i < vs.len() ==> vs[i].version@ != key,
    decreases vs.len(),
{
    if vs.len() > 0 {
        lemma_last_index_bounds(vs.drop_last(), key);
        assert forall|i: int| 0 <= i < vs.len() - 1 implies vs.drop_last()[i] == vs[i] by {}
    }
}

fn find_last(vs: &Vec<MinecraftVersion>, key: &str) -> (r: Option<usize>)
    ensures
        match r {
            Some(i) => i as int == last_index_of(vs@, key@),
            None => last_index_of(vs@, key@) < 0,
        },
{
    let k = key.to_owned();
    let mut i: usize = vs.len();
    assert(vs@.subrange(0, i as int) =~= vs@);
    while i > 0
        invariant
            i <= vs@.len(),
            k@ == key@,
            last_index_of(vs@, key@) == last_index_of(vs@.subrange(0, i as int), key@),
        decreases i,
    {
        assert(vs@.subrange(0, i as int).last() == vs@[i - 1]);
        if vs[i - 1].version == k {
            return Some(i - 1);
        }
        assert(vs@.subrange(0, i as int).drop_last() =~= vs@.subrange(0, i - 1));
        i = i - 1;
    }
    None
}

/// Minecraft versions looked up by name; where a name occurs twice, the
/// later entry wins.
pub struct MinecraftVersionMap<'a> {
    list: &'a MinecraftVersionList,
    latest: usize,
}

impl<'a> MinecraftVersionMap<'a> {
    /// The list it was made from.
    pub closed spec fn source(&self) -> MinecraftVersionList {
        *self.list
    }

    /// Whether the latest version stands in the list.
    pub closed spec fn wf(&self) -> bool {
        self.latest as int == last_index_of(self.list.versions@, self.list.latest_version@)
            && self.latest < self.list.versions@.len()
    }

    /// Indexes a version list; its latest version must stand in it.
    pub fn new(version_list: &'a MinecraftVersionList) -> (r: Self)
        requires
            last_index_of(version_list.versions@, version_list.latest_version@) >= 0,
        ensures
            r.wf(),
            r.source() == *version_list,
    {
        proof {
            lemma_last_index_bounds(version_list.versions@, version_list.latest_version@);
        }
        let latest = find_last(&version_list.versions, version_list.latest_version.as_str());
        MinecraftVersionMap { list: version_list, latest: latest.unwrap() }
    }

    /// The latest version.
    pub fn latest_version(&self) -> (r: &'a MinecraftVersion)
        requires
            self.wf(),
        ensures
            *r == self.source().versions@[last_index_of(
                self.source().versions@,
                self.source().latest_version@,
            )],
    {
        &self.list.versions[self.latest]
    }

    /// The version called `key`, which must be known.
    pub fn get(&self, key: &str) -> (r: &'a MinecraftVersion)
        requires
            last_index_of(self.source().versions@, key@) >= 0,
        ensures
            *r == self.source().versions@[last_index_of(self.source().versions@, key@)],
            r.version@ == key@,
    {
        proof {
            lemma_last_index_bounds(self.list.versions@, key@);
        }
        let i = find_last(&self.list.versions, key);
        &self.list.versions[i.unwrap()]
    }
}

/// The decimal digits of `n`.
pub open spec fn decimal(n: nat) -> Seq<char>
    decreases n,
{
    let d = ((n % 10) as u8 + 48) as char;
    if n < 10 {
        seq![d]
    } else {
        decimal(n / 10).push(d)
    }
}

/// The decimal digits of `n`, as a string.
pub fn decimal_string(n: u32) -> (r: String)
    ensures
        r@ == decimal(n as nat),
    decreases n,
{
    let d = ((n % 10) as u8 + 48) as char;
    if n < 10 {
        let mut s = String::new();
        push_char(&mut s, d);
        assert(s@ =~= seq![d]);
        s
    } else {
        let mut s = decimal_string(n / 10);
        push_char(&mut s, d);
        s
    }
}

/// The Java release a Minecraft version runs on.
#[derive(PartialEq, Eq, Debug, Clone, Copy, Structural)]
pub enum JavaVersion {
    Java8,
    Java9OrNewer(u32),
}

/// A Java release below 8, which no Minecraft version targets.
#[derive(PartialEq, Eq, Debug, Clone, Copy, Structural)]
pub struct UnsupportedJava {
    pub version: u32,
}

impl JavaVersion {
    /// The Java release with major version `value`: 8, or 9 and newer.
    pub fn from_major(value: u32) -> (r: Result<JavaVersion, UnsupportedJava>)
        ensures
            value >= 9 ==> r == Ok::<JavaVersion, UnsupportedJava>(JavaVersion::Java9OrNewer(value)),
            value == 8 ==> r == Ok::<JavaVersion, UnsupportedJava>(JavaVersion::Java8),
            value < 8 ==> r == Err::<JavaVersion, UnsupportedJava>(UnsupportedJava { version: value }),
    {
        if value >= 9 {
            Ok(JavaVersion::Java9OrNewer(value))
        } else if value == 8 {
            Ok(JavaVersion::Java8)
        } else {
            Err(UnsupportedJava { version: value })
        }
    }

    /// The major version number.
    pub open spec fn major(&self) -> nat {
        match self {
            JavaVersion::Java8 => 8,
            JavaVersion::Java9OrNewer(v) => *v as nat,
        }
    }

    /// How Gradle spells the release: `1_8` for Java 8, else the number.
    pub fn gradle_java_version(&self) -> (r: String)
        ensures
            r@ == match self {
                JavaVersion::Java8 => seq!['1', '_', '8'],
                JavaVersion::Java9OrNewer(v) => decimal(*v as nat),
            },
    {
        match self {
            JavaVersion::Java8 => {
                proof {
                    reveal_strlit("1_8");
                }
                "1_8".to_owned()
            },
            JavaVersion::Java9OrNewer(version) => decimal_string(*version),
        }
    }

    /// The major version number.
    pub fn java_major_version(&self) -> (r: u32)
        ensures
            r as nat == self.major(),
    {
        match self {
            JavaVersion::Java8 => 8,
            JavaVersion::Java9OrNewer(version) => *version,
        }
    }

    /// How Mixin names the compatibility level: `JAVA_` and the number.
    pub fn mixin_compat_level(&self) -> (r: String)
        ensures
            r@ == seq!['J', 'A', 'V', 'A', '_'] + decimal(self.major()),
    {
        let mut s = "JAVA_".to_owned();
        proof {
            reveal_strlit("JAVA_");
        }
        let digits = decimal_string(self.java_major_version());
        s.append(digits.as_str());
        s
    }
}

} // verus!
