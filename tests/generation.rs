use templateer::engine::ParseErrorKind;
use templateer::filer::DirectoryTracker;
use templateer::focus::Focus;
use templateer::generator::{compose_file_name, finish_generation, plan_generation, put_resolved, render_all, render_file, task_library, task_value, VariableSource};
use templateer::index::{VersionIndex, Versions};
use templateer::maven::{select_version, MavenLibrary, MavenMetadata, MavenRepository, VersionRule};
use templateer::minecraft::MinecraftVersion;
use templateer::settings::{Dependencies, GeneratorApp, MappingSet, ProjectType, Subproject, Subprojects};
use templateer::templates::{compose_file_path, files_of, FileContent, FileData, FilePermissions, FileSet};
use templateer::version_metadata as meta;
use templateer::version_metadata::{JavaVersion, MinecraftVersionList, MinecraftVersionMap};

fn metadata(version: &str, java: u32, forge: bool, neoforge: bool) -> meta::MinecraftVersion {
    meta::MinecraftVersion {
        version: version.to_string(),
        java_version: java,
        architectury: meta::ArchitecturyMetadata {
            api_version: "13".to_string(),
            package: "dev.architectury".to_string(),
            maven_group: "dev.architectury".to_string(),
        },
        fabric: meta::FabricMetadata::default(),
        forge: if forge {
            Some(meta::ForgeMetadata {
                major_version: 49,
                pack_version: 22,
                server_pack_version: Some(("forge:data_pack_format".to_string(), "26".to_string())),
            })
        } else {
            None
        },
        neoforge: if neoforge {
            Some(meta::NeoForgeMetadata {
                loader_major_version: "2".to_string(),
                neoforge_major_version: "20.4".to_string(),
                yarn_patch_version: Some("1.20.4".to_string()),
            })
        } else {
            None
        },
    }
}

fn app(version: meta::MinecraftVersion, project_type: ProjectType, subprojects: Subprojects) -> GeneratorApp {
    GeneratorApp {
        mod_name: "Example Mod".to_string(),
        mod_id: String::new(),
        package_name: "com.example".to_string(),
        game_version: MinecraftVersion::new(version),
        project_type,
        subprojects,
        mapping_set: MappingSet::Mojang,
        dependencies: Dependencies::default(),
    }
}

fn versions() -> Versions {
    Versions {
        architectury_api: "13.0.8".to_string(),
        forge: Some("1.20.4-49.0.30".to_string()),
        neoforge: Some("20.4.237".to_string()),
        neoforge_yarn_patch: Some("1.20.4+build.3".to_string()),
    }
}

fn fabric_only() -> Subprojects {
    Subprojects { fabric: true, ..Subprojects::default() }
}

#[test]
fn fabric_only_multiplatform_plan() {
    let a = app(metadata("1.20.4", 17, true, true), ProjectType::Multiplatform, fabric_only());
    let plan = plan_generation(&a, &versions()).unwrap();
    assert_eq!(plan.file_sets, vec![FileSet::Shared, FileSet::Multiplatform, FileSet::Fabric]);
    assert!(plan.context.has("fabric"));
    assert!(!plan.context.has("forge"));
    assert!(!plan.context.has("neoforge"));
    assert!(!plan.context.has("quilt"));
    assert!(plan.context.has("mojang_mappings"));
    assert!(plan.context.has("architectury_api"));
    let keys: Vec<String> = plan.tasks.iter().map(|t| t.key.clone()).collect();
    assert_eq!(keys, vec!["FABRIC_LOADER_VERSION", "FABRIC_API_VERSION", "ARCHITECTURY_API_VERSION"]);
}

#[test]
fn plan_context_variables() {
    let a = app(metadata("1.20.4", 17, true, true), ProjectType::Multiplatform, fabric_only());
    let plan = plan_generation(&a, &versions()).unwrap();
    let vars = plan.context.iter();
    let get = |k: &str| vars.iter().find(|(key, _)| key == k).map(|(_, v)| v.clone());
    assert_eq!(get("PACKAGE_DIR").as_deref(), Some("com/example"));
    assert_eq!(get("MOD_ID").as_deref(), Some("example_mod"));
    assert_eq!(get("MAIN_CLASS_NAME").as_deref(), Some("ExampleMod"));
    assert_eq!(get("GRADLE_JAVA_VERSION").as_deref(), Some("17"));
    assert_eq!(get("MIXIN_COMPAT_LEVEL").as_deref(), Some("JAVA_17"));
    assert_eq!(get("FORGE_LOADER_MAJOR").as_deref(), Some("49"));
    assert_eq!(get("FORGE_DATA_PACK_FORMAT_KEY").as_deref(), Some("forge:data_pack_format"));
    assert_eq!(get("ARCHITECTURY_PLATFORMS").as_deref(), Some("fabric"));
    assert_eq!(get("LOOM_VERSION").as_deref(), Some("1.11-SNAPSHOT"));
    assert_eq!(get("NEOFORGE_METADATA_FILE_NAME"), None);
}

#[test]
fn neoforge_metadata_file_depends_on_version() {
    let subs = Subprojects { fabric: true, neoforge: true, quilt: true, ..Subprojects::default() };
    let old = plan_generation(&app(metadata("1.20.4", 17, false, true), ProjectType::Multiplatform, subs), &versions()).unwrap();
    assert_eq!(old.file_sets, vec![FileSet::Shared, FileSet::Multiplatform, FileSet::Fabric, FileSet::NeoForge, FileSet::NeoForgeModsToml, FileSet::Quilt]);
    let new = plan_generation(&app(metadata("1.21", 21, false, true), ProjectType::NeoForge, subs), &versions()).unwrap();
    assert_eq!(new.file_sets, vec![FileSet::Shared, FileSet::NeoForgeOnly, FileSet::NeoForgeOnlyNeoModsToml]);
    let vars = new.context.iter();
    assert!(vars.contains(&("NEOFORGE_METADATA_FILE_NAME".to_string(), "neoforge.mods.toml".to_string())));
    assert!(vars.contains(&("NEOFORGE_YARN_PATCH_VERSION".to_string(), "1.20.4+build.3".to_string())));
    let platforms = old.context.iter().into_iter().find(|(k, _)| k == "ARCHITECTURY_PLATFORMS").unwrap().1;
    assert_eq!(platforms, "fabric,neoforge,quilt");
}

#[test]
fn forge_only_plan_and_java_8() {
    let a = app(metadata("1.16.5", 8, true, false), ProjectType::Forge, Subprojects::default());
    let plan = plan_generation(&a, &versions()).unwrap();
    assert_eq!(plan.file_sets, vec![FileSet::Shared, FileSet::ForgeOnly]);
    let vars = plan.context.iter();
    assert!(vars.contains(&("GRADLE_JAVA_VERSION".to_string(), "1_8".to_string())));
    assert!(vars.contains(&("MIXIN_COMPAT_LEVEL".to_string(), "JAVA_8".to_string())));
    assert_eq!(plan.tasks.len(), 1);
    assert_eq!(plan.tasks[0].key, "FORGE_VERSION");
    assert!(matches!(&plan.tasks[0].source, VariableSource::Known(v) if v == "1.20.4-49.0.30"));
}

#[test]
fn old_java_is_refused() {
    let a = app(metadata("1.0", 7, false, false), ProjectType::Multiplatform, fabric_only());
    assert_eq!(plan_generation(&a, &versions()).err().unwrap().version, 7);
}

#[test]
fn yarn_lookup_matches_game_version() {
    let mut a = app(metadata("1.20.4", 17, false, false), ProjectType::Multiplatform, fabric_only());
    a.mapping_set = MappingSet::Yarn;
    let plan = plan_generation(&a, &versions()).unwrap();
    assert!(plan.context.has("yarn"));
    assert_eq!(plan.tasks[0].key, "YARN_MAPPINGS");
    let md = MavenMetadata {
        latest: Some("1.21+build.1".to_string()),
        versions: Some(vec!["1.20.4+build.9".to_string(), "1.20.4+build.10".to_string(), "1.21+build.1".to_string()]),
    };
    assert_eq!(task_library(&plan.tasks[0]).unwrap().name(), "yarn");
    // The comparator ignores build metadata after `+`: equal versions keep their order.
    assert_eq!(task_value(&plan.tasks[0], &md).unwrap().as_deref(), Some("1.20.4+build.9"));
    assert_eq!(task_value(&plan.tasks[1], &md).unwrap().as_deref(), Some("1.21+build.1"));
}

#[test]
fn resolved_values_join_the_context() {
    let a = app(metadata("1.20.4", 17, false, false), ProjectType::Multiplatform, fabric_only());
    let mut plan = plan_generation(&a, &versions()).unwrap();
    put_resolved(&mut plan.context, &vec![("FABRIC_LOADER_VERSION".to_string(), "0.15.11".to_string())]);
    let file = FileData {
        path: "src/PACKAGE_DIR/MOD_ID.txt".to_string(),
        content: FileContent::Text("loader=%FABRIC_LOADER_VERSION%\n//% if forge\nforge\n//% end".to_string()),
        permissions: FilePermissions::Normal,
    };
    let out = render_file(&plan.context, &file).ok().unwrap();
    assert_eq!(out.path, "src/com/example/example_mod.txt");
    assert!(matches!(out.content, FileContent::Text(ref t) if t == "loader=0.15.11\n"));
}

#[test]
fn render_file_binary_and_errors() {
    let ctx = templateer::engine::Context::new();
    let bin = FileData { path: "gradlew.bat".to_string(), content: FileContent::Binary(vec![0, 1, 255]), permissions: FilePermissions::Execute };
    let out = render_file(&ctx, &bin).ok().unwrap();
    assert!(matches!(out.content, FileContent::Binary(ref b) if b == &vec![0u8, 1, 255]));
    assert_eq!(out.permissions, FilePermissions::Execute);
    let bad = FileData { path: "x".to_string(), content: FileContent::Text("//% end".to_string()), permissions: FilePermissions::Normal };
    assert_eq!(render_file(&ctx, &bad).err().unwrap().kind, ParseErrorKind::EndAtTopLevel);
}

#[test]
fn file_names() {
    let mut a = app(metadata("1.20.4", 17, true, true), ProjectType::Multiplatform, Subprojects { fabric: true, quilt: true, fabric_likes: true, neoforge: true, forge: true });
    a.mod_id = "mymod".to_string();
    assert_eq!(compose_file_name(&a), "mymod-1.20.4-fabric-like-neoforge-forge-template");
    a.subprojects.fabric_likes = false;
    assert_eq!(compose_file_name(&a), "mymod-1.20.4-fabric-quilt-neoforge-forge-template");
    a.project_type = ProjectType::NeoForge;
    assert_eq!(compose_file_name(&a), "mymod-1.20.4-neoforge-only-template");
    a.project_type = ProjectType::Forge;
    a.mod_id = String::new();
    assert_eq!(compose_file_name(&a), "example_mod-1.20.4-forge-only-template");
}

#[test]
fn version_selection_is_version_aware() {
    let vs = vec!["1.2.9".to_string(), "1.2.10".to_string(), "1.3.0".to_string()];
    let rule = VersionRule::StartsWith("1.2.".to_string());
    assert_eq!(select_version(&vs, &rule).unwrap().as_deref(), Some("1.2.10"));
    assert_eq!(select_version(&vs, &VersionRule::EndsWith("9".to_string())).unwrap().as_deref(), Some("1.2.9"));
    assert_eq!(select_version(&vs, &VersionRule::StartsWith("2.".to_string())).unwrap(), None);
}

#[test]
fn long_digit_runs_in_versions() {
    let rule = VersionRule::StartsWith("1.2.".to_string());
    // A single match is never compared, however long its digits.
    let only = vec!["1.2.99999999999999999999".to_string()];
    assert_eq!(select_version(&only, &rule).unwrap().as_deref(), Some("1.2.99999999999999999999"));
    // Nineteen digits that fit an i64 compare normally.
    let fits = vec!["1.2.3".to_string(), "1.2.9223372036854775807".to_string()];
    assert_eq!(select_version(&fits, &rule).unwrap().as_deref(), Some("1.2.9223372036854775807"));
    // Digits after `+` are never read.
    let meta = vec!["1.2.3+99999999999999999999".to_string(), "1.2.1".to_string()];
    assert_eq!(select_version(&meta, &rule).unwrap().as_deref(), Some("1.2.3+99999999999999999999"));
    // A run past i64::MAX that has to be compared is reported.
    let long = vec!["1.2.9223372036854775808".to_string(), "1.2.3".to_string()];
    assert_eq!(select_version(&long, &rule).err().unwrap().version, "1.2.9223372036854775808");
}

#[test]
fn metadata_lookups() {
    let md = MavenMetadata { latest: None, versions: None };
    let rule = VersionRule::StartsWith("1".to_string());
    assert_eq!(templateer::maven::get_latest_version(&md), None);
    assert_eq!(templateer::maven::get_latest_version_matching(&md, &rule).unwrap(), None);
}

#[test]
fn maven_urls() {
    assert_eq!(
        MavenLibrary::fabric_api().metadata_url(),
        "https://maven.fabricmc.net/net/fabricmc/fabric-api/fabric-api/maven-metadata.xml"
    );
    assert_eq!(
        MavenLibrary::quilt_loader().metadata_url(),
        "https://maven.quiltmc.org/repository/release//org/quiltmc/quilt-loader/maven-metadata.xml"
    );
    assert_eq!(MavenLibrary::forge().describe(), "net.minecraftforge:forge in https://maven.minecraftforge.net");
    assert!(MavenRepository::Fabric.allows_cross_origin());
    assert!(!MavenRepository::Architectury.allows_cross_origin());
}

#[test]
fn version_queries() {
    let gv = MinecraftVersion::new(metadata("1.20.4", 17, true, true));
    let q = Versions::queries(&gv);
    assert!(matches!(&q.architectury_api.rule, VersionRule::StartsWith(p) if p == "13."));
    assert!(matches!(&q.forge.as_ref().unwrap().rule, VersionRule::StartsWith(p) if p == "1.20.4-49."));
    assert!(matches!(&q.neoforge.as_ref().unwrap().rule, VersionRule::StartsWith(p) if p == "20.4."));
    assert!(matches!(&q.neoforge_yarn_patch.as_ref().unwrap().rule, VersionRule::StartsWith(p) if p == "1.20.4+"));
    let none = Versions::queries(&MinecraftVersion::new(metadata("1.19", 17, false, false)));
    assert!(none.forge.is_none() && none.neoforge.is_none() && none.neoforge_yarn_patch.is_none());
    let index = VersionIndex { versions: vec![("1.20.4".to_string(), versions())] };
    assert_eq!(index.get("1.20.4").unwrap().architectury_api, "13.0.8");
    assert!(index.get("1.21").is_none());
}

#[test]
fn version_map_and_defaults() {
    let list = MinecraftVersionList {
        latest_version: "1.21".to_string(),
        versions: vec![metadata("1.20.4", 17, true, true), metadata("1.21", 21, false, true)],
    };
    let map = MinecraftVersionMap::new(&list);
    assert_eq!(map.latest_version().version, "1.21");
    assert_eq!(map.get("1.20.4").java_version, 17);
    let a = GeneratorApp::new(&map);
    assert_eq!(a.game_version.version(), "1.21");
    assert_eq!(a.mod_name, "Example Mod");
    assert_eq!(a.get_effective_mod_id(), "example_mod");
    assert!(a.dependencies.architectury_api);
    assert_eq!(a.game_version.java_version(), JavaVersion::Java9OrNewer(21));
    assert_eq!(a.game_version.fabric_api_branch(), "1.21");
    assert_eq!(meta::default_architectury_package(), "dev.architectury");
}

#[test]
fn java_versions() {
    assert_eq!(JavaVersion::from_major(8), Ok(JavaVersion::Java8));
    assert_eq!(JavaVersion::from_major(21), Ok(JavaVersion::Java9OrNewer(21)));
    assert!(JavaVersion::from_major(7).is_err());
    assert_eq!(JavaVersion::Java8.gradle_java_version(), "1_8");
    assert_eq!(JavaVersion::Java9OrNewer(17).gradle_java_version(), "17");
    assert_eq!(JavaVersion::Java9OrNewer(105).mixin_compat_level(), "JAVA_105");
    assert_eq!(JavaVersion::Java8.java_major_version(), 8);
}

#[test]
fn subprojects_and_loaders() {
    let gv = MinecraftVersion::new(metadata("1.21", 21, false, true));
    assert!(!Subproject::Forge.is_available_on(&gv));
    assert!(Subproject::NeoForge.is_available_on(&gv));
    assert!(Subproject::Quilt.is_available_on(&gv));
    let mut s = Subprojects::default();
    Subproject::Quilt.apply_to(&mut s);
    assert!(s.quilt && !s.fabric);
    assert!(!gv.arch_api_supports_forge());
    assert!(MinecraftVersion::new(metadata("1.20.4", 17, true, false)).arch_api_supports_forge());
    assert_eq!(MappingSet::Yarn.name(), "Yarn");
    assert_eq!(MappingSet::all().len(), 2);
}

#[test]
fn template_files() {
    assert_eq!(compose_file_path("fabric", "build.gradle", true), "fabric/build.gradle");
    assert_eq!(compose_file_path("shared", "gradlew", false), "gradlew");
    assert_eq!(compose_file_path("", "x", true), "x");
    let shared = files_of(FileSet::Shared);
    assert_eq!(shared.len(), 4);
    assert_eq!(shared[2].permissions, FilePermissions::Execute);
    assert_eq!(shared[2].permissions.unix(), 0o755);
    assert_eq!(FilePermissions::Normal.unix(), 0o644);
    assert!(shared[0].binary);
    let like = files_of(FileSet::FabricLike);
    assert_eq!(like[1].source_path(), "fabric_like/src/main/java/PACKAGE_DIR/fabriclike/ExampleModFabricLike.java");
    assert_eq!(like[0].target_path(), "fabric-like/build.gradle");
    let fabric = files_of(FileSet::Fabric);
    assert_eq!(fabric[2].target_path(), "fabric/src/main/java/PACKAGE_DIR/fabric/MAIN_CLASS_NAMEFabric.java");
}

#[test]
fn directory_entries_are_added_once() {
    let mut tracker = DirectoryTracker::new();
    assert_eq!(tracker.directories_for("a/b/c.txt"), vec!["a/", "a/b/"]);
    assert_eq!(DirectoryTracker::new().directories_for("x//y/z"), vec!["x/", "x//", "x//y/"]);
    assert_eq!(tracker.directories_for("a/d.txt"), Vec::<String>::new());
    assert_eq!(tracker.directories_for("a/b/e/f"), vec!["a/b/e/"]);
    assert_eq!(tracker.directories_for("top"), Vec::<String>::new());
}

#[test]
fn focus_cycles() {
    let mut f = Focus::new(3);
    assert_eq!(f.selected(), 0);
    f.cycle();
    f.cycle();
    assert!(f.is_selected(2));
    f.cycle();
    assert_eq!(f.selected(), 0);
    assert_eq!(f.choose_at(0, "a", "b"), "a");
    assert_eq!(f.choose_at(1, "a", "b"), "b");
}

#[test]
fn finishing_a_fabric_only_run() {
    let a = app(metadata("1.20.4", 17, false, false), ProjectType::Multiplatform, fabric_only());
    let plan = plan_generation(&a, &versions()).unwrap();
    let files = vec![
        FileData {
            path: "fabric/src/main/java/PACKAGE_DIR/fabric/MAIN_CLASS_NAMEFabric.java".to_string(),
            content: FileContent::Text("//% if fabric\nplatforms=%ARCHITECTURY_PLATFORMS% loader=%FABRIC_LOADER_VERSION%\n//% end\n//% if forge\nforge\n//% end".to_string()),
            permissions: FilePermissions::Normal,
        },
        FileData { path: "gradlew".to_string(), content: FileContent::Binary(vec![35, 33]), permissions: FilePermissions::Execute },
    ];
    let resolved = vec![("FABRIC_LOADER_VERSION".to_string(), "0.16.0".to_string())];
    let done = finish_generation(&a, plan, &resolved, &files).ok().unwrap();
    assert_eq!(done.file_name, "example_mod-1.20.4-fabric-template");
    assert_eq!(done.files.len(), 2);
    assert_eq!(done.files[0].path, "fabric/src/main/java/com/example/fabric/ExampleModFabric.java");
    assert!(matches!(done.files[0].content, FileContent::Text(ref t) if t == "platforms=fabric loader=0.16.0\n"));
    assert_eq!(done.files[1].permissions, FilePermissions::Execute);
}

#[test]
fn render_all_stops_at_first_bad_template() {
    let ctx = templateer::engine::Context::new();
    let files = vec![
        FileData { path: "a".to_string(), content: FileContent::Text("ok".to_string()), permissions: FilePermissions::Normal },
        FileData { path: "b".to_string(), content: FileContent::Text("x\n//% else".to_string()), permissions: FilePermissions::Normal },
        FileData { path: "c".to_string(), content: FileContent::Text("//% end".to_string()), permissions: FilePermissions::Normal },
    ];
    let e = render_all(&ctx, &files).err().unwrap();
    assert_eq!(e.kind, ParseErrorKind::ElseAtTopLevel);
    assert_eq!(render_all(&ctx, &files[..1].iter().map(|f| FileData { path: f.path.clone(), content: FileContent::Text("ok".to_string()), permissions: f.permissions }).collect()).unwrap().len(), 1);
}
