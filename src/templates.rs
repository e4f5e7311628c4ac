//! The template files of each file set, and where they land in the
//! generated project.
use vstd::prelude::*;
use vstd::string::*;
use crate::text::{from_chars, replace_all, replace_chars, to_chars};

verus! {

/// How a generated file may be used.
#[derive(Clone, Copy, PartialEq, Eq, Debug, Structural)]
pub enum FilePermissions {
    Normal,
    Execute,
}

impl FilePermissions {
    /// The Unix mode bits: `0o644`, or `0o755` for executables.
    pub fn unix(&self) -> (r: u32)
        ensures
            r == match self {
                FilePermissions::Normal => 0o644u32,
                FilePermissions::Execute => 0o755u32,
            },
    {
        match self {
            FilePermissions::Normal => 0o644,
            FilePermissions::Execute => 0o755,
        }
    }
}

/// The contents of a template file: bytes copied as they are, or text that
/// is parsed and rendered.
pub enum FileContent {
    Binary(Vec<u8>),
    Text(String),
}

/// A fetched template file: its destination path (which may still hold
/// variable names), its contents and its permissions.
pub struct FileData {
    pub path: String,
    pub content: FileContent,
    pub permissions: FilePermissions,
}

/// `dir/file_name` where the directory is included and not empty, else
/// `file_name`.
pub fn compose_file_path(dir: &str, file_name: &str, include_dir: bool) -> (r: String)
    ensures
        r@ == if include_dir && dir@.len() > 0 {
            dir@ + "/"@ + file_name@
        } else {
            file_name@
        },
{
    if include_dir && !dir.is_empty() {
        let mut s = dir.to_owned();
        s.append("/");
        s.append(file_name);
        s
    } else {
        file_name.to_owned()
    }
}

/// A named group of template files that is included as a whole.
#[derive(Clone, Copy, PartialEq, Eq, Debug, Structural)]
pub enum FileSet {
    /// Gradle wrapper files every project has.
    Shared,
    /// Root and common-module files of a multiplatform project.
    Multiplatform,
    Fabric,
    FabricLike,
    Forge,
    /// The NeoForge subproject, without its metadata file.
    NeoForge,
    /// The NeoForge subproject's `mods.toml` (Minecraft 1.20.4).
    NeoForgeModsToml,
    /// The NeoForge subproject's `neoforge.mods.toml`.
    NeoForgeNeoModsToml,
    Quilt,
    /// A NeoForge-only project, without its metadata file.
    NeoForgeOnly,
    /// A NeoForge-only project's `mods.toml` (Minecraft 1.20.4).
    NeoForgeOnlyModsToml,
    /// A NeoForge-only project's `neoforge.mods.toml`.
    NeoForgeOnlyNeoModsToml,
    ForgeOnly,
}

/// One template file of a file set.
pub struct TemplateFile {
    /// The file set's directory, such as `fabric-like`.
    pub dir: String,
    /// Whether the directory is part of the destination path.
    pub include_dir: bool,
    /// The template's name within its directory.
    pub source_name: String,
    /// The destination's name, which may hold variable names.
    pub target_name: String,
    pub permissions: FilePermissions,
    /// Whether the file is copied as bytes rather than rendered.
    pub binary: bool,
}

impl TemplateFile {
    /// Where the template is stored: its directory, with `-` as `_`, then
    /// its name.
    pub fn source_path(&self) -> (r: String)
        ensures
            r@ == replace_all(self.dir@, seq!['-'], seq!['_']) + "/"@ + self.source_name@,
    {
        let dash = to_chars("-");
        let underscore = to_chars("_");
        proof {
            reveal_strlit("-");
            reveal_strlit("_");
            assert(dash@ =~= seq!['-']);
            assert(underscore@ =~= seq!['_']);
        }
        let mut s = from_chars(&replace_chars(&to_chars(self.dir.as_str()), &dash, &underscore));
        s.append("/");
        s.append(self.source_name.as_str());
        s
    }

    /// Where the file lands in the generated project.
    pub fn target_path(&self) -> (r: String)
        ensures
            r@ == if self.include_dir && self.dir@.len() > 0 {
                self.dir@ + "/"@ + self.target_name@
            } else {
                self.target_name@
            },
    {
        compose_file_path(self.dir.as_str(), self.target_name.as_str(), self.include_dir)
    }
}

fn text_file(dir: &str, include_dir: bool, name: &str) -> (r: TemplateFile)
    ensures
        r.dir@ == dir@,
        r.include_dir == include_dir,
        r.source_name@ == name@,
        r.target_name@ == name@,
        r.permissions == FilePermissions::Normal,
        !r.binary,
{
    TemplateFile {
        dir: dir.to_owned(),
        include_dir,
        source_name: name.to_owned(),
        target_name: name.to_owned(),
        permissions: FilePermissions::Normal,
        binary: false,
    }
}

fn renamed_file(dir: &str, include_dir: bool, source: &str, target: &str) -> (r: TemplateFile)
    ensures
        r.dir@ == dir@,
        r.include_dir == include_dir,
        r.source_name@ == source@,
        r.target_name@ == target@,
        r.permissions == FilePermissions::Normal,
        !r.binary,
{
    TemplateFile {
        dir: dir.to_owned(),
        include_dir,
        source_name: source.to_owned(),
        target_name: target.to_owned(),
        permissions: FilePermissions::Normal,
        binary: false,
    }
}

/// The directory of a file set.
pub open spec fn set_dir(set: FileSet) -> Seq<char> {
    match set {
        FileSet::Shared => "shared"@,
        FileSet::Multiplatform => "multiplatform"@,
        FileSet::Fabric => "fabric"@,
        FileSet::FabricLike => "fabric-like"@,
        FileSet::Forge => "forge"@,
        FileSet::NeoForge | FileSet::NeoForgeModsToml | FileSet::NeoForgeNeoModsToml => "neoforge"@,
        FileSet::Quilt => "quilt"@,
        FileSet::NeoForgeOnly | FileSet::NeoForgeOnlyModsToml
        | FileSet::NeoForgeOnlyNeoModsToml => "neoforge_only"@,
        FileSet::ForgeOnly => "forge_only"@,
    }
}

/// Whether a file set's directory is part of its destination paths: it is
/// for loader subprojects of a multiplatform project.
pub open spec fn set_includes_dir(set: FileSet) -> bool {
    match set {
        FileSet::Fabric | FileSet::FabricLike | FileSet::Forge | FileSet::NeoForge
        | FileSet::NeoForgeModsToml | FileSet::NeoForgeNeoModsToml | FileSet::Quilt => true,
        _ => false,
    }
}

/// How many files a file set has.
pub open spec fn set_size(set: FileSet) -> nat {
    match set {
        FileSet::Shared => 4,
        FileSet::Multiplatform => 6,
        FileSet::Fabric => 4,
        FileSet::FabricLike => 2,
        FileSet::Forge => 5,
        FileSet::NeoForge => 3,
        FileSet::NeoForgeModsToml => 1,
        FileSet::NeoForgeNeoModsToml => 1,
        FileSet::Quilt => 4,
        FileSet::NeoForgeOnly => 5,
        FileSet::NeoForgeOnlyModsToml => 1,
        FileSet::NeoForgeOnlyNeoModsToml => 1,
        FileSet::ForgeOnly => 7,
    }
}

/// The template files of a file set. All of them share the set's directory;
/// only the shared Gradle wrapper jar and `gradlew.bat` are binary, and only
/// `gradlew` is executable.
pub fn files_of(set: FileSet) -> (r: Vec<TemplateFile>)
    ensures
        r@.len() == set_size(set),
        forall|i: int|
            0 <= i < r@.len() ==> (#[trigger] r@[i]).dir@ == set_dir(set) && r@[i].include_dir
                == set_includes_dir(set),
        forall|i: int|
            0 <= i < r@.len() ==> ((#[trigger] r@[i]).permissions == FilePermissions::Execute
                <==> (set == FileSet::Shared && i == 2)),
        forall|i: int|
            0 <= i < r@.len() ==> ((#[trigger] r@[i]).binary <==> (set == FileSet::Shared && (i
                == 0 || i == 3))),
{
    let mut v: Vec<TemplateFile> = Vec::new();
    match set {
        FileSet::Shared => {
            let mut jar = text_file("shared", false, "gradle/wrapper/gradle-wrapper.jar");
            jar.binary = true;
            v.push(jar);
            v.push(text_file("shared", false, "gradle/wrapper/gradle-wrapper.properties"));
            let mut gradlew = text_file("shared", false, "gradlew");
            gradlew.permissions = FilePermissions::Execute;
            v.push(gradlew);
            let mut bat = text_file("shared", false, "gradlew.bat");
            bat.binary = true;
            v.push(bat);
        },
        FileSet::Multiplatform => {
            v.push(text_file("multiplatform", false, "build.gradle"));
            v.push(text_file("multiplatform", false, "gradle.properties"));
            v.push(text_file("multiplatform", false, "settings.gradle"));
            v.push(text_file("multiplatform", false, "common/build.gradle"));
            v.push(text_file("multiplatform", false, "common/src/main/resources/MOD_ID.mixins.json"));
            v.push(text_file("multiplatform", false, "common/src/main/java/PACKAGE_DIR/ExampleMod.java"));
        },
        FileSet::Fabric => {
            v.push(text_file("fabric", true, "build.gradle"));
            v.push(text_file("fabric", true, "src/main/resources/fabric.mod.json"));
            v.push(renamed_file("fabric", true, "src/main/java/PACKAGE_DIR/fabric/ExampleModFabric.java", "src/main/java/PACKAGE_DIR/fabric/MAIN_CLASS_NAMEFabric.java"));
            v.push(renamed_file("fabric", true, "src/main/java/PACKAGE_DIR/fabric/client/ExampleModFabricClient.java", "src/main/java/PACKAGE_DIR/fabric/client/MAIN_CLASS_NAMEFabricClient.java"));
        },
        FileSet::FabricLike => {
            v.push(text_file("fabric-like", true, "build.gradle"));
            v.push(text_file("fabric-like", true, "src/main/java/PACKAGE_DIR/fabriclike/ExampleModFabricLike.java"));
        },
        FileSet::Forge => {
            v.push(text_file("forge", true, "build.gradle"));
            v.push(text_file("forge", true, "gradle.properties"));
            v.push(text_file("forge", true, "src/main/resources/pack.mcmeta"));
            v.push(text_file("forge", true, "src/main/resources/META-INF/mods.toml"));
            v.push(renamed_file("forge", true, "src/main/java/PACKAGE_DIR/forge/ExampleModForge.java", "src/main/java/PACKAGE_DIR/forge/MAIN_CLASS_NAMEForge.java"));
        },
        FileSet::NeoForge => {
            v.push(text_file("neoforge", true, "build.gradle"));
            v.push(text_file("neoforge", true, "gradle.properties"));
            v.push(text_file("neoforge", true, "src/main/java/PACKAGE_DIR/neoforge/ExampleModNeoForge.java"));
        },
        FileSet::NeoForgeModsToml => {
            v.push(text_file("neoforge", true, "src/main/resources/META-INF/mods.toml"));
        },
        FileSet::NeoForgeNeoModsToml => {
            v.push(text_file("neoforge", true, "src/main/resources/META-INF/neoforge.mods.toml"));
        },
        FileSet::Quilt => {
            v.push(text_file("quilt", true, "build.gradle"));
            v.push(text_file("quilt", true, "gradle.properties"));
            v.push(text_file("quilt", true, "src/main/resources/quilt.mod.json"));
            v.push(renamed_file("quilt", true, "src/main/java/PACKAGE_DIR/quilt/ExampleModQuilt.java", "src/main/java/PACKAGE_DIR/quilt/MAIN_CLASS_NAMEQuilt.java"));
        },
        FileSet::NeoForgeOnly => {
            v.push(text_file("neoforge_only", false, "build.gradle"));
            v.push(text_file("neoforge_only", false, "gradle.properties"));
            v.push(text_file("neoforge_only", false, "settings.gradle"));
            v.push(text_file("neoforge_only", false, "src/main/resources/MOD_ID.mixins.json"));
            v.push(text_file("neoforge_only", false, "src/main/java/PACKAGE_DIR/ExampleMod.java"));
        },
        FileSet::NeoForgeOnlyModsToml => {
            v.push(text_file("neoforge_only", false, "src/main/resources/META-INF/mods.toml"));
        },
        FileSet::NeoForgeOnlyNeoModsToml => {
            v.push(text_file("neoforge_only", false, "src/main/resources/META-INF/neoforge.mods.toml"));
        },
        FileSet::ForgeOnly => {
            v.push(text_file("forge_only", false, "build.gradle"));
            v.push(text_file("forge_only", false, "gradle.properties"));
            v.push(text_file("forge_only", false, "settings.gradle"));
            v.push(text_file("forge_only", false, "src/main/resources/pack.mcmeta"));
            v.push(text_file("forge_only", false, "src/main/resources/META-INF/mods.toml"));
            v.push(text_file("forge_only", false, "src/main/resources/MOD_ID.mixins.json"));
            v.push(text_file("forge_only", false, "src/main/java/PACKAGE_DIR/ExampleMod.java"));
        },
    }
    v
}

} // verus!
