//! The choices a user makes for one generation run.
use vstd::prelude::*;
use crate::minecraft::MinecraftVersion;
use crate::mod_ids::{mod_id_of, to_mod_id};
use crate::version_metadata::MinecraftVersionMap;

verus! {

/// The shape of the generated project.
#[derive(Clone, Copy, PartialEq, Eq, Debug, Structural)]
pub enum ProjectType {
    /// A common module plus one subproject per chosen loader.
    Multiplatform,
    /// A NeoForge-only project.
    NeoForge,
    /// A Forge-only project.
    Forge,
}

/// The obfuscation mappings the project builds against.
#[derive(Clone, Copy, PartialEq, Eq, Debug, Structural)]
pub enum MappingSet {
    Mojang,
    Yarn,
}

impl MappingSet {
    /// Every mapping set, in the order they are offered.
    pub fn all() -> (r: Vec<MappingSet>)
        ensures
            r@ == seq![MappingSet::Mojang, MappingSet::Yarn],
    {
        let r = vec![MappingSet::Mojang, MappingSet::Yarn];
        assert(r@ =~= seq![MappingSet::Mojang, MappingSet::Yarn]);
        r
    }

    pub fn name(&self) -> (r: &'static str)
        ensures
            r@ == match self {
                MappingSet::Mojang => "Official Mojang mappings"@,
                MappingSet::Yarn => "Yarn"@,
            },
    {
        match self {
            MappingSet::Mojang => "Official Mojang mappings",
            MappingSet::Yarn => "Yarn",
        }
    }

    pub fn description(&self) -> (r: &'static str)
        ensures
            r@ == match self {
                MappingSet::Mojang => "The official obfuscation maps published by Mojang."@,
                MappingSet::Yarn => "A libre mapping set maintained by FabricMC."@,
            },
    {
        match self {
            MappingSet::Mojang => "The official obfuscation maps published by Mojang.",
            MappingSet::Yarn => "A libre mapping set maintained by FabricMC.",
        }
    }
}

/// Which loader subprojects a multiplatform project has.
#[derive(Clone, Copy, PartialEq, Eq, Debug, Structural)]
pub struct Subprojects {
    pub fabric: bool,
    pub forge: bool,
    pub neoforge: bool,
    pub quilt: bool,
    pub fabric_likes: bool,
}

impl Default for Subprojects {
    /// No subproject chosen.
    fn default() -> (r: Self)
        ensures
            !r.fabric && !r.forge && !r.neoforge && !r.quilt && !r.fabric_likes,
    {
        Subprojects { fabric: false, forge: false, neoforge: false, quilt: false, fabric_likes: false }
    }
}

/// Which optional libraries the project depends on.
#[derive(Clone, Copy, PartialEq, Eq, Debug, Structural)]
pub struct Dependencies {
    pub architectury_api: bool,
}

impl Default for Dependencies {
    /// Architectury API is on by default.
    fn default() -> (r: Self)
        ensures
            r.architectury_api,
    {
        Dependencies { architectury_api: true }
    }
}

/// A snapshot of everything chosen for one generation run.
pub struct GeneratorApp {
    pub mod_name: String,
    pub mod_id: String,
    pub package_name: String,
    pub game_version: MinecraftVersion,
    pub project_type: ProjectType,
    pub subprojects: Subprojects,
    pub mapping_set: MappingSet,
    pub dependencies: Dependencies,
}

/// The mod id a run uses: the chosen one, or the one derived from the name
/// where none was chosen.
pub open spec fn effective_mod_id(app: GeneratorApp) -> Seq<char> {
    if app.mod_id@.len() == 0 {
        mod_id_of(app.mod_name@)
    } else {
        app.mod_id@
    }
}

impl GeneratorApp {
    /// The initial choices: "Example Mod" in `com.example`, the latest game
    /// version, a multiplatform project with no subproject, Mojang mappings
    /// and Architectury API.
    pub fn new(versions: &MinecraftVersionMap) -> (r: GeneratorApp)
        requires
            versions.wf(),
        ensures
            r.mod_name@ == "Example Mod"@,
            r.mod_id@.len() == 0,
            r.package_name@ == "com.example"@,
            r.game_version.meta() == versions.source().versions@[crate::version_metadata::last_index_of(
                versions.source().versions@,
                versions.source().latest_version@,
            )],
            r.project_type == ProjectType::Multiplatform,
            !r.subprojects.fabric && !r.subprojects.forge && !r.subprojects.neoforge
                && !r.subprojects.quilt && !r.subprojects.fabric_likes,
            r.mapping_set == MappingSet::Mojang,
            r.dependencies.architectury_api,
    {
        GeneratorApp {
            mod_name: "Example Mod".to_owned(),
            mod_id: String::new(),
            package_name: "com.example".to_owned(),
            game_version: MinecraftVersion::latest(versions),
            project_type: ProjectType::Multiplatform,
            subprojects: Subprojects::default(),
            mapping_set: MappingSet::Mojang,
            dependencies: Dependencies::default(),
        }
    }

    /// The mod id this run uses.
    pub fn get_effective_mod_id(&self) -> (r: String)
        ensures
            r@ == effective_mod_id(*self),
    {
        if self.mod_id.as_str().is_empty() {
            to_mod_id(self.mod_name.as_str())
        } else {
            self.mod_id.clone()
        }
    }
}

/// A loader that can be chosen as a subproject.
#[derive(Clone, Copy, PartialEq, Eq, Debug, Structural)]
pub enum Subproject {
    Fabric,
    Forge,
    NeoForge,
    Quilt,
}

impl Subproject {
    /// Whether the loader exists for a game version: Forge and NeoForge only
    /// where the version's metadata has them.
    pub fn is_available_on(&self, game_version: &MinecraftVersion) -> (r: bool)
        ensures
            r == match self {
                Subproject::Forge => game_version.meta().forge is Some,
                Subproject::NeoForge => game_version.meta().neoforge is Some,
                _ => true,
            },
    {
        match self {
            Subproject::Forge => game_version.forge_major_version().is_some(),
            Subproject::NeoForge => game_version.neoforge_major().is_some(),
            _ => true,
        }
    }

    /// Turns this loader's subproject on.
    pub fn apply_to(&self, settings: &mut Subprojects)
        ensures
            *final(settings) == match self {
                Subproject::Fabric => Subprojects { fabric: true, ..*old(settings) },
                Subproject::Forge => Subprojects { forge: true, ..*old(settings) },
                Subproject::NeoForge => Subprojects { neoforge: true, ..*old(settings) },
                Subproject::Quilt => Subprojects { quilt: true, ..*old(settings) },
            },
    {
        match self {
            Subproject::Fabric => settings.fabric = true,
            Subproject::Forge => settings.forge = true,
            Subproject::NeoForge => settings.neoforge = true,
            Subproject::Quilt => settings.quilt = true,
        }
    }
}

} // verus!
