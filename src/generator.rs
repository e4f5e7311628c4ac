//! Planning a generation run: the context, the file sets to include and the
//! versions to look up; and rendering each fetched file.
use vstd::prelude::*;
use vstd::string::*;
use crate::class_names::{class_name_of, sanitize_class_name};
use crate::engine::{
    apply_template, apply_variables, entries_view, is_directive, lemma_plain_template_round_trip,
    parse, put_var, read_template, render, substitute, token, Context, ContextModel, Failure,
    ParseError,
};
use crate::index::Versions;
use crate::maven::{
    candidates, coordinate, get_latest_version, get_latest_version_matching, is_selection,
    Coordinate, MavenLibrary, MavenMetadata, MavenRepository, UnorderableVersion, VersionRule,
};
use crate::settings::{effective_mod_id, GeneratorApp, MappingSet, ProjectType};
use crate::templates::{FileContent, FileData, FilePermissions, FileSet};
use crate::text::{
    contains, from_chars, lemma_line_end_bounds, line_end, lines_of, replace_all, replace_chars, strip_cr,
    to_chars,
};
use crate::version_metadata::{decimal, decimal_string, UnsupportedJava};

verus! {

/// The hexadecimal digit for `n` (below 16), in upper case.
pub open spec fn hex_digit(n: nat) -> char {
    if n < 10 {
        ((n + 48) as u8) as char
    } else {
        ((n + 55) as u8) as char
    }
}

/// Whether `c` is an ASCII control character.
pub open spec fn is_control(c: char) -> bool {
    (c as u32) < 0x20 || (c as u32) == 0x7f
}

/// What one character becomes inside a JSON or TOML quoted string: a
/// control character becomes `\u00XX`, a backslash or a double quote gets a
/// backslash before it, anything else stays.
pub open spec fn escape_char(c: char) -> Seq<char> {
    if is_control(c) {
        seq!['\\', 'u', '0', '0', hex_digit((c as u32 / 16) as nat), hex_digit((c as u32 % 16) as nat)]
    } else if c == '\\' || c == '"' {
        seq!['\\', c]
    } else {
        seq![c]
    }
}

/// `s` with every character escaped.
pub open spec fn escaped(s: Seq<char>) -> Seq<char>
    decreases s.len(),
{
    if s.len() == 0 {
        seq![]
    } else {
        escaped(s.drop_last()) + escape_char(s.last())
    }
}

fn hex(n: u32) -> (r: char)
    requires
        n < 16,
    ensures
        r == hex_digit(n as nat),
{
    if n < 10 {
        ((n + 48) as u8) as char
    } else {
        ((n + 55) as u8) as char
    }
}

/// Escapes a string so that it can stand inside a quoted JSON or TOML
/// string value.
pub fn escape_json_and_toml(input: &str) -> (r: String)
    ensures
        r@ == escaped(input@),
{
    let chars = crate::text::to_chars(input);
    let mut out: Vec<char> = Vec::new();
    let mut i: usize = 0;
    assert(chars@.subrange(0, 0) =~= Seq::<char>::empty());
    while i < chars.len()
        invariant
            chars@ == input@,
            i <= chars@.len(),
            out@ == escaped(chars@.subrange(0, i as int)),
        decreases chars@.len() - i,
    {
        let c = chars[i];
        let ghost before = out@;
        assert(chars@.subrange(0, i + 1).drop_last() =~= chars@.subrange(0, i as int));
        let code = c as u32;
        if code < 0x20 || code == 0x7f {
            out.push('\\');
            out.push('u');
            out.push('0');
            out.push('0');
            out.push(hex(code / 16));
            out.push(hex(code % 16));
        } else {
            if c == '\\' || c == '"' {
                out.push('\\');
            }
            out.push(c);
        }
        assert(out@ =~= before + escape_char(c));
        i = i + 1;
    }
    assert(chars@.subrange(0, chars@.len() as int) =~= input@);
    crate::text::from_chars(&out)
}

/// The loader part of a bundle's name.
pub open spec fn loader_suffix(app: GeneratorApp) -> Seq<char> {
    let s = app.subprojects;
    match app.project_type {
        ProjectType::Multiplatform => (if s.fabric && s.quilt && s.fabric_likes {
            "-fabric-like"@
        } else {
            (if s.fabric {
                "-fabric"@
            } else {
                Seq::<char>::empty()
            }) + (if s.quilt {
                "-quilt"@
            } else {
                Seq::<char>::empty()
            })
        }) + (if s.neoforge {
            "-neoforge"@
        } else {
            Seq::<char>::empty()
        }) + (if s.forge {
            "-forge"@
        } else {
            Seq::<char>::empty()
        }),
        ProjectType::NeoForge => "-neoforge-only"@,
        ProjectType::Forge => "-forge-only"@,
    }
}

/// The name of a generated bundle: mod id, game version, loaders, and
/// `-template`.
pub open spec fn file_name_of(app: GeneratorApp) -> Seq<char> {
    effective_mod_id(app) + "-"@ + app.game_version.meta().version@ + loader_suffix(app)
        + "-template"@
}

/// The name for a generated bundle, such as
/// `examplemod-1.20.4-fabric-neoforge-template`.
pub fn compose_file_name(app: &GeneratorApp) -> (r: String)
    ensures
        r@ == file_name_of(*app),
{
    let mut file_name = app.get_effective_mod_id();
    file_name.append("-");
    file_name.append(app.game_version.version());
    let ghost base = file_name@;
    let s = app.subprojects;
    match app.project_type {
        ProjectType::Multiplatform => {
            if s.fabric && s.quilt && s.fabric_likes {
                file_name.append("-fabric-like");
            } else {
                if s.fabric {
                    file_name.append("-fabric");
                }
                if s.quilt {
                    file_name.append("-quilt");
                }
            }
            if s.neoforge {
                file_name.append("-neoforge");
            }
            if s.forge {
                file_name.append("-forge");
            }
        },
        ProjectType::NeoForge => file_name.append("-neoforge-only"),
        ProjectType::Forge => file_name.append("-forge-only"),
    }
    assert(file_name@ =~= base + loader_suffix(*app));
    file_name.append("-template");
    file_name
}


/// `s` where `b` holds, else nothing.
pub open spec fn when<T>(b: bool, s: Seq<T>) -> Seq<T> {
    if b {
        s
    } else {
        seq![]
    }
}

/// The Gradle Loom plugin version written into generated projects.
pub const LOOM_VERSION: &'static str = "1.11-SNAPSHOT";

/// The Architectury plugin version written into generated projects.
pub const PLUGIN_VERSION: &'static str = "3.4-SNAPSHOT";

/// How Gradle spells a Java release with major version `v` (8 or more).
pub open spec fn gradle_java(v: nat) -> Seq<char> {
    if v == 8 {
        "1_8"@
    } else {
        decimal(v)
    }
}

/// The variables that depend on the loaders the game version has.
pub open spec fn loader_variables(app: GeneratorApp) -> Seq<(Seq<char>, Seq<char>)> {
    let gv = app.game_version.meta();
    (match gv.forge {
        Some(f) => seq![("FORGE_LOADER_MAJOR"@, decimal(f.major_version as nat))],
        None => seq![],
    }) + (match gv.neoforge {
        Some(n) => seq![
            ("NEOFORGE_LOADER_MAJOR"@, n.loader_major_version@),
            ("NEOFORGE_MAJOR"@, n.neoforge_major_version@),
        ],
        None => seq![],
    }) + (match gv.forge {
        Some(f) => seq![("FORGE_PACK_FORMAT"@, decimal(f.pack_version as nat))] + match f.server_pack_version {
            Some(p) => seq![("FORGE_DATA_PACK_FORMAT_KEY"@, p.0@), ("FORGE_DATA_PACK_FORMAT"@, p.1@)],
            None => seq![],
        },
        None => seq![],
    })
}

/// The variables known before any lookup, in the order they are put.
pub open spec fn immediate_variables(app: GeneratorApp) -> Seq<(Seq<char>, Seq<char>)> {
    let gv = app.game_version.meta();
    seq![
        ("PACKAGE_NAME"@, app.package_name@),
        ("PACKAGE_DIR"@, replace_all(app.package_name@, seq!['.'], seq!['/'])),
        ("MOD_ID"@, effective_mod_id(app)),
        ("MOD_NAME"@, escaped(app.mod_name@)),
        ("MAIN_CLASS_NAME"@, class_name_of(app.mod_name@)),
        ("MINECRAFT_VERSION"@, gv.version@),
        ("GRADLE_JAVA_VERSION"@, gradle_java(gv.java_version as nat)),
        ("JAVA_MAJOR_VERSION"@, decimal(gv.java_version as nat)),
        ("MIXIN_COMPAT_LEVEL"@, "JAVA_"@ + decimal(gv.java_version as nat)),
        ("ARCHITECTURY_GROUP"@, gv.architectury.maven_group@),
        ("ARCHITECTURY_PACKAGE"@, gv.architectury.package@),
        ("FABRIC_API_MOD_ID"@, gv.fabric.fabric_api_mod_id@),
    ] + loader_variables(app) + seq![
        ("LOOM_VERSION"@, LOOM_VERSION@),
        ("PLUGIN_VERSION"@, PLUGIN_VERSION@),
    ]
}

/// Whether the game version is the last to use NeoForge's `mods.toml`.
pub open spec fn legacy_neoforge_metadata(app: GeneratorApp) -> bool {
    app.game_version.meta().version@ == "1.20.4"@
}

/// The variables a NeoForge project needs.
pub open spec fn neoforge_variables(app: GeneratorApp, versions: Versions) -> Seq<
    (Seq<char>, Seq<char>),
> {
    seq![
        ("NEOFORGE_METADATA_FILE_NAME"@, if legacy_neoforge_metadata(app) {
            "mods.toml"@
        } else {
            "neoforge.mods.toml"@
        }),
    ] + match versions.neoforge_yarn_patch {
        Some(y) => seq![("NEOFORGE_YARN_PATCH_VERSION"@, y@)],
        None => seq![],
    }
}

/// `parts` joined with `,`.
pub open spec fn comma_joined(parts: Seq<Seq<char>>) -> Seq<char>
    decreases parts.len(),
{
    if parts.len() == 0 {
        seq![]
    } else if parts.len() == 1 {
        parts[0]
    } else {
        comma_joined(parts.drop_last()) + seq![','] + parts.last()
    }
}

/// The loaders of a multiplatform project, as Architectury names them.
pub open spec fn platforms(app: GeneratorApp) -> Seq<Seq<char>> {
    let s = app.subprojects;
    when(s.fabric, seq!["fabric"@]) + when(s.forge, seq!["forge"@]) + when(
        s.neoforge,
        seq!["neoforge"@],
    ) + when(s.quilt, seq!["quilt"@])
}

/// The variables that depend on the project's shape.
pub open spec fn project_variables(app: GeneratorApp, versions: Versions) -> Seq<
    (Seq<char>, Seq<char>),
> {
    match app.project_type {
        ProjectType::Multiplatform => when(app.subprojects.neoforge, neoforge_variables(app, versions))
            + seq![("ARCHITECTURY_PLATFORMS"@, comma_joined(platforms(app)))],
        ProjectType::NeoForge => neoforge_variables(app, versions),
        ProjectType::Forge => seq![],
    }
}

/// Every variable a run puts before its lookups, in order.
pub open spec fn planned_variables(app: GeneratorApp, versions: Versions) -> Seq<
    (Seq<char>, Seq<char>),
> {
    immediate_variables(app) + project_variables(app, versions)
}

/// The variables after putting each entry of `list`, in order.
pub open spec fn put_all(vars: Seq<(Seq<char>, Seq<char>)>, list: Seq<(Seq<char>, Seq<char>)>) -> Seq<
    (Seq<char>, Seq<char>),
>
    decreases list.len(),
{
    if list.len() == 0 {
        vars
    } else {
        put_var(put_all(vars, list.drop_last()), list.last().0, list.last().1)
    }
}

/// The flags a run defines, in order.
pub open spec fn planned_flag_list(app: GeneratorApp) -> Seq<Seq<char>> {
    let s = app.subprojects;
    let multi = app.project_type == ProjectType::Multiplatform;
    seq![
        match app.mapping_set {
            MappingSet::Mojang => "mojang_mappings"@,
            MappingSet::Yarn => "yarn"@,
        },
    ] + when(multi && s.fabric, seq!["fabric"@]) + when(multi && s.fabric_likes, seq!["fabric_like"@])
        + when(multi && s.forge, seq!["forge"@]) + when(multi && s.neoforge, seq!["neoforge"@]) + when(
        multi && s.quilt,
        seq!["quilt"@],
    ) + when(multi && app.dependencies.architectury_api, seq!["architectury_api"@])
}

/// The set of flags a run defines.
pub open spec fn planned_flags(app: GeneratorApp) -> Set<Seq<char>> {
    planned_flag_list(app).to_set()
}

/// The file set holding a NeoForge project's metadata file.
pub open spec fn neoforge_metadata_set(app: GeneratorApp, only: bool) -> FileSet {
    if legacy_neoforge_metadata(app) {
        if only {
            FileSet::NeoForgeOnlyModsToml
        } else {
            FileSet::NeoForgeModsToml
        }
    } else {
        if only {
            FileSet::NeoForgeOnlyNeoModsToml
        } else {
            FileSet::NeoForgeNeoModsToml
        }
    }
}

/// The file sets a run includes, in order.
pub open spec fn planned_file_sets(app: GeneratorApp) -> Seq<FileSet> {
    let s = app.subprojects;
    seq![FileSet::Shared] + match app.project_type {
        ProjectType::Multiplatform => seq![FileSet::Multiplatform] + when(s.fabric, seq![FileSet::Fabric])
            + when(s.fabric_likes, seq![FileSet::FabricLike]) + when(s.forge, seq![FileSet::Forge])
            + when(s.neoforge, seq![FileSet::NeoForge, neoforge_metadata_set(app, false)]) + when(
            s.quilt,
            seq![FileSet::Quilt],
        ),
        ProjectType::NeoForge => seq![FileSet::NeoForgeOnly, neoforge_metadata_set(app, true)],
        ProjectType::Forge => seq![FileSet::ForgeOnly],
    }
}

/// Where the value of a variable comes from.
pub enum VariableSource {
    /// The `<latest>` version a library's metadata names.
    Latest(MavenLibrary),
    /// The greatest version of a library that the rule accepts.
    Matching(MavenLibrary, VersionRule),
    /// A value already known.
    Known(String),
}

/// A variable whose value is found by a lookup.
pub struct VariableTask {
    pub key: String,
    pub source: VariableSource,
}

/// The mathematical form of a variable's source.
pub enum SourceModel {
    Latest(Coordinate),
    /// The library, whether the text must end (else start) the version,
    /// and the text.
    Matching(Coordinate, bool, Seq<char>),
    Known(Seq<char>),
}

/// The mathematical form of a lookup.
pub struct TaskModel {
    pub key: Seq<char>,
    pub source: SourceModel,
}

pub open spec fn task_model(t: VariableTask) -> TaskModel {
    TaskModel {
        key: t.key@,
        source: match t.source {
            VariableSource::Latest(l) => SourceModel::Latest(l@),
            VariableSource::Matching(l, VersionRule::StartsWith(p)) => SourceModel::Matching(l@, false, p@),
            VariableSource::Matching(l, VersionRule::EndsWith(p)) => SourceModel::Matching(l@, true, p@),
            VariableSource::Known(v) => SourceModel::Known(v@),
        },
    }
}

pub open spec fn tasks_model(ts: Seq<VariableTask>) -> Seq<TaskModel> {
    ts.map_values(|t: VariableTask| task_model(t))
}

/// A lookup whose value is already known, where one is.
pub open spec fn known(key: Seq<char>, v: Option<String>) -> Seq<TaskModel> {
    match v {
        Some(x) => seq![TaskModel { key, source: SourceModel::Known(x@) }],
        None => seq![],
    }
}

/// The Yarn lookup, for Yarn mappings.
pub open spec fn yarn_tasks(app: GeneratorApp) -> Seq<TaskModel> {
    when(
        app.mapping_set == MappingSet::Yarn,
        seq![
            TaskModel {
                key: "YARN_MAPPINGS"@,
                source: SourceModel::Matching(
                    coordinate(MavenRepository::Fabric, "net.fabricmc"@, "yarn"@),
                    false,
                    app.game_version.meta().version@ + "+"@,
                ),
            },
        ],
    )
}

/// The Fabric API branch of the game version.
pub open spec fn fabric_branch(app: GeneratorApp) -> Seq<char> {
    match app.game_version.meta().fabric.fabric_api_branch {
        Some(b) => b@,
        None => app.game_version.meta().version@,
    }
}

/// The Fabric Loader lookup, and the Fabric API one for a Fabric subproject.
pub open spec fn fabric_tasks(app: GeneratorApp) -> Seq<TaskModel> {
    seq![
        TaskModel {
            key: "FABRIC_LOADER_VERSION"@,
            source: SourceModel::Latest(
                coordinate(MavenRepository::Fabric, "net.fabricmc"@, "fabric-loader"@),
            ),
        },
    ] + when(
        app.subprojects.fabric,
        seq![
            TaskModel {
                key: "FABRIC_API_VERSION"@,
                source: SourceModel::Matching(
                    coordinate(MavenRepository::Fabric, "net.fabricmc.fabric-api"@, "fabric-api"@),
                    true,
                    "+"@ + fabric_branch(app),
                ),
            },
        ],
    )
}

/// The Quilt lookups, for a Quilt subproject.
pub open spec fn quilt_tasks(app: GeneratorApp) -> Seq<TaskModel> {
    when(
        app.subprojects.quilt,
        seq![
            TaskModel {
                key: "QUILT_LOADER_VERSION"@,
                source: SourceModel::Latest(
                    coordinate(MavenRepository::Quilt, "org.quiltmc"@, "quilt-loader"@),
                ),
            },
            TaskModel {
                key: "QUILTED_FABRIC_API_VERSION"@,
                source: SourceModel::Matching(
                    coordinate(
                        MavenRepository::Quilt,
                        "org.quiltmc.quilted-fabric-api"@,
                        "quilted-fabric-api"@,
                    ),
                    true,
                    "-"@ + app.game_version.meta().version@,
                ),
            },
        ],
    )
}

/// The Architectury API version, where the project depends on it.
pub open spec fn architectury_tasks(app: GeneratorApp, versions: Versions) -> Seq<TaskModel> {
    when(
        app.dependencies.architectury_api,
        seq![
            TaskModel {
                key: "ARCHITECTURY_API_VERSION"@,
                source: SourceModel::Known(versions.architectury_api@),
            },
        ],
    )
}

/// The lookups of a multiplatform project, in order.
pub open spec fn multiplatform_tasks(app: GeneratorApp, versions: Versions) -> Seq<TaskModel> {
    fabric_tasks(app) + when(app.subprojects.forge, known("FORGE_VERSION"@, versions.forge)) + when(
        app.subprojects.neoforge,
        known("NEOFORGE_VERSION"@, versions.neoforge),
    ) + quilt_tasks(app) + architectury_tasks(app, versions)
}

/// The lookups a run makes, in order.
pub open spec fn planned_tasks(app: GeneratorApp, versions: Versions) -> Seq<TaskModel> {
    yarn_tasks(app) + match app.project_type {
        ProjectType::Multiplatform => multiplatform_tasks(app, versions),
        ProjectType::NeoForge => known("NEOFORGE_VERSION"@, versions.neoforge),
        ProjectType::Forge => known("FORGE_VERSION"@, versions.forge),
    }
}

fn entry(key: &str, value: String) -> (r: (String, String))
    ensures
        r.0@ == key@,
        r.1@ == value@,
{
    (key.to_owned(), value)
}

fn loader_entries(app: &GeneratorApp, out: &mut Vec<(String, String)>)
    ensures
        entries_view(final(out)@) == entries_view(old(out)@) + loader_variables(*app),
{
    let ghost start = entries_view(out@);
    let gv = &app.game_version;
    if let Some(major) = gv.forge_major_version() {
        out.push(entry("FORGE_LOADER_MAJOR", decimal_string(major)));
    }
    let ghost a = entries_view(out@);
    assert(a =~= start + (match gv.meta().forge {
        Some(f) => seq![("FORGE_LOADER_MAJOR"@, decimal(f.major_version as nat))],
        None => seq![],
    }));
    if let Some(loader) = gv.neoforge_loader_major() {
        out.push(entry("NEOFORGE_LOADER_MAJOR", loader.to_owned()));
    }
    if let Some(major) = gv.neoforge_major() {
        out.push(entry("NEOFORGE_MAJOR", major.to_owned()));
    }
    let ghost b = entries_view(out@);
    assert(b =~= a + (match gv.meta().neoforge {
        Some(n) => seq![
            ("NEOFORGE_LOADER_MAJOR"@, n.loader_major_version@),
            ("NEOFORGE_MAJOR"@, n.neoforge_major_version@),
        ],
        None => seq![],
    }));
    if let Some(pack) = gv.forge_pack_version() {
        out.push(entry("FORGE_PACK_FORMAT", decimal_string(pack)));
    }
    if let Some((key, value)) = gv.forge_server_pack_version() {
        out.push(entry("FORGE_DATA_PACK_FORMAT_KEY", key.to_owned()));
        out.push(entry("FORGE_DATA_PACK_FORMAT", value.to_owned()));
    }
    assert(entries_view(out@) =~= b + (match gv.meta().forge {
        Some(f) => seq![("FORGE_PACK_FORMAT"@, decimal(f.pack_version as nat))] + match f.server_pack_version {
            Some(p) => seq![("FORGE_DATA_PACK_FORMAT_KEY"@, p.0@), ("FORGE_DATA_PACK_FORMAT"@, p.1@)],
            None => seq![],
        },
        None => seq![],
    }));
}

fn immediate_entries(app: &GeneratorApp) -> (r: Vec<(String, String)>)
    requires
        app.game_version.meta().java_version >= 8,
    ensures
        entries_view(r@) == immediate_variables(*app),
{
    let gv = &app.game_version;
    let java = gv.java_version();
    let mut out: Vec<(String, String)> = Vec::new();
    out.push(entry("PACKAGE_NAME", app.package_name.clone()));
    let dots = to_chars(".");
    let slashes = to_chars("/");
    proof {
        reveal_strlit(".");
        reveal_strlit("/");
        assert(dots@ =~= seq!['.']);
        assert(slashes@ =~= seq!['/']);
    }
    let dir = replace_chars(&to_chars(app.package_name.as_str()), &dots, &slashes);
    out.push(entry("PACKAGE_DIR", from_chars(&dir)));
    out.push(entry("MOD_ID", app.get_effective_mod_id()));
    out.push(entry("MOD_NAME", escape_json_and_toml(app.mod_name.as_str())));
    out.push(entry("MAIN_CLASS_NAME", sanitize_class_name(app.mod_name.as_str())));
    out.push(entry("MINECRAFT_VERSION", gv.version().to_owned()));
    let gradle = java.gradle_java_version();
    proof {
        reveal_strlit("1_8");
        if gv.meta().java_version == 8 {
            assert(gradle@ =~= "1_8"@);
        }
    }
    out.push(entry("GRADLE_JAVA_VERSION", gradle));
    out.push(entry("JAVA_MAJOR_VERSION", decimal_string(java.java_major_version())));
    let mixin = java.mixin_compat_level();
    proof {
        reveal_strlit("JAVA_");
        assert(mixin@ =~= "JAVA_"@ + decimal(gv.meta().java_version as nat));
    }
    out.push(entry("MIXIN_COMPAT_LEVEL", mixin));
    out.push(entry("ARCHITECTURY_GROUP", gv.architectury_maven_group().to_owned()));
    out.push(entry("ARCHITECTURY_PACKAGE", gv.architectury_package().to_owned()));
    out.push(entry("FABRIC_API_MOD_ID", gv.fabric_api_mod_id().to_owned()));
    let ghost head = entries_view(out@);
    let ghost gv_meta = gv.meta();
    assert(head =~= seq![
        ("PACKAGE_NAME"@, app.package_name@),
        ("PACKAGE_DIR"@, replace_all(app.package_name@, seq!['.'], seq!['/'])),
        ("MOD_ID"@, effective_mod_id(*app)),
        ("MOD_NAME"@, escaped(app.mod_name@)),
        ("MAIN_CLASS_NAME"@, class_name_of(app.mod_name@)),
        ("MINECRAFT_VERSION"@, gv_meta.version@),
        ("GRADLE_JAVA_VERSION"@, gradle_java(gv_meta.java_version as nat)),
        ("JAVA_MAJOR_VERSION"@, decimal(gv_meta.java_version as nat)),
        ("MIXIN_COMPAT_LEVEL"@, "JAVA_"@ + decimal(gv_meta.java_version as nat)),
        ("ARCHITECTURY_GROUP"@, gv_meta.architectury.maven_group@),
        ("ARCHITECTURY_PACKAGE"@, gv_meta.architectury.package@),
        ("FABRIC_API_MOD_ID"@, gv_meta.fabric.fabric_api_mod_id@),
    ]);
    loader_entries(app, &mut out);
    let ghost mid = entries_view(out@);
    out.push(entry("LOOM_VERSION", LOOM_VERSION.to_owned()));
    out.push(entry("PLUGIN_VERSION", PLUGIN_VERSION.to_owned()));
    assert(entries_view(out@) =~= mid + seq![
        ("LOOM_VERSION"@, LOOM_VERSION@),
        ("PLUGIN_VERSION"@, PLUGIN_VERSION@),
    ]);
    out
}

fn neoforge_entries(app: &GeneratorApp, versions: &Versions, out: &mut Vec<(String, String)>)
    ensures
        entries_view(final(out)@) == entries_view(old(out)@) + neoforge_variables(*app, *versions),
{
    let ghost start = entries_view(out@);
    let legacy = app.game_version.version().to_owned() == "1.20.4".to_owned();
    let name = if legacy {
        "mods.toml".to_owned()
    } else {
        "neoforge.mods.toml".to_owned()
    };
    out.push(entry("NEOFORGE_METADATA_FILE_NAME", name));
    if let Some(patch) = &versions.neoforge_yarn_patch {
        out.push(entry("NEOFORGE_YARN_PATCH_VERSION", patch.clone()));
    }
    assert(entries_view(out@) =~= start + neoforge_variables(*app, *versions));
}

fn join_with_commas(parts: &Vec<&str>) -> (r: String)
    ensures
        r@ == comma_joined(parts@.map_values(|p: &str| p@)),
{
    let ghost ps = parts@.map_values(|p: &str| p@);
    let mut out = String::new();
    let mut i: usize = 0;
    assert(ps.subrange(0, 0) =~= Seq::<Seq<char>>::empty());
    while i < parts.len()
        invariant
            ps == parts@.map_values(|p: &str| p@),
            i <= parts@.len(),
            out@ == comma_joined(ps.subrange(0, i as int)),
        decreases parts@.len() - i,
    {
        assert(ps.subrange(0, i + 1).drop_last() =~= ps.subrange(0, i as int));
        if i > 0 {
            out.append(",");
            proof {
                reveal_strlit(",");
                assert(","@ =~= seq![',']);
            }
        } else {
            assert(ps.subrange(0, 1) =~= seq![ps[0]]);
        }
        out.append(parts[i]);
        i = i + 1;
    }
    assert(ps.subrange(0, i as int) =~= ps);
    out
}

fn project_entries(app: &GeneratorApp, versions: &Versions, out: &mut Vec<(String, String)>)
    ensures
        entries_view(final(out)@) == entries_view(old(out)@) + project_variables(*app, *versions),
{
    let ghost start = entries_view(out@);
    let s = app.subprojects;
    match app.project_type {
        ProjectType::Multiplatform => {
            if s.neoforge {
                neoforge_entries(app, versions, out);
            }
            let ghost mid = entries_view(out@);
            assert(mid =~= start + when(s.neoforge, neoforge_variables(*app, *versions)));
            let mut names: Vec<&str> = Vec::new();
            if s.fabric {
                names.push("fabric");
            }
            if s.forge {
                names.push("forge");
            }
            if s.neoforge {
                names.push("neoforge");
            }
            if s.quilt {
                names.push("quilt");
            }
            assert(names@.map_values(|p: &str| p@) =~= platforms(*app));
            out.push(entry("ARCHITECTURY_PLATFORMS", join_with_commas(&names)));
            assert(entries_view(out@) =~= mid + seq![("ARCHITECTURY_PLATFORMS"@, comma_joined(platforms(*app)))]);
        },
        ProjectType::NeoForge => {
            neoforge_entries(app, versions, out);
        },
        ProjectType::Forge => {
            assert(entries_view(out@) =~= start + project_variables(*app, *versions));
        },
    }
}


spec fn flag_views(v: Seq<&'static str>) -> Seq<Seq<char>> {
    v.map_values(|f: &str| f@)
}

fn push_flag_if(out: &mut Vec<&'static str>, b: bool, flag: &'static str)
    ensures
        flag_views(final(out)@) == flag_views(old(out)@) + when(b, seq![flag@]),
{
    let ghost start = flag_views(out@);
    if b {
        out.push(flag);
    }
    assert(flag_views(out@) =~= start + when(b, seq![flag@]));
}

fn plan_flags(app: &GeneratorApp) -> (r: Vec<&'static str>)
    ensures
        flag_views(r@) == planned_flag_list(*app),
{
    let s = app.subprojects;
    let multi = app.project_type == ProjectType::Multiplatform;
    let mut out: Vec<&'static str> = Vec::new();
    match app.mapping_set {
        MappingSet::Mojang => out.push("mojang_mappings"),
        MappingSet::Yarn => out.push("yarn"),
    }
    let ghost v0 = flag_views(out@);
    push_flag_if(&mut out, multi && s.fabric, "fabric");
    push_flag_if(&mut out, multi && s.fabric_likes, "fabric_like");
    push_flag_if(&mut out, multi && s.forge, "forge");
    let ghost v1 = flag_views(out@);
    push_flag_if(&mut out, multi && s.neoforge, "neoforge");
    push_flag_if(&mut out, multi && s.quilt, "quilt");
    push_flag_if(&mut out, multi && app.dependencies.architectury_api, "architectury_api");
    assert(v0 =~= seq![
        match app.mapping_set {
            MappingSet::Mojang => "mojang_mappings"@,
            MappingSet::Yarn => "yarn"@,
        },
    ]);
    assert(flag_views(out@) =~= planned_flag_list(*app));
    out
}

fn plan_file_sets(app: &GeneratorApp) -> (r: Vec<FileSet>)
    ensures
        r@ == planned_file_sets(*app),
{
    let s = app.subprojects;
    let legacy = app.game_version.version().to_owned() == "1.20.4".to_owned();
    let mut out: Vec<FileSet> = Vec::new();
    out.push(FileSet::Shared);
    match app.project_type {
        ProjectType::Multiplatform => {
            out.push(FileSet::Multiplatform);
            if s.fabric {
                out.push(FileSet::Fabric);
            }
            if s.fabric_likes {
                out.push(FileSet::FabricLike);
            }
            if s.forge {
                out.push(FileSet::Forge);
            }
            if s.neoforge {
                out.push(FileSet::NeoForge);
                out.push(if legacy { FileSet::NeoForgeModsToml } else { FileSet::NeoForgeNeoModsToml });
            }
            if s.quilt {
                out.push(FileSet::Quilt);
            }
        },
        ProjectType::NeoForge => {
            out.push(FileSet::NeoForgeOnly);
            out.push(
                if legacy {
                    FileSet::NeoForgeOnlyModsToml
                } else {
                    FileSet::NeoForgeOnlyNeoModsToml
                },
            );
        },
        ProjectType::Forge => {
            out.push(FileSet::ForgeOnly);
        },
    }
    assert(out@ =~= planned_file_sets(*app));
    out
}

fn task(key: &str, source: VariableSource) -> (r: VariableTask)
    ensures
        r.key@ == key@,
        r.source == source,
{
    VariableTask { key: key.to_owned(), source }
}

fn push_known(out: &mut Vec<VariableTask>, key: &str, value: &Option<String>)
    ensures
        tasks_model(final(out)@) == tasks_model(old(out)@) + known(key@, *value),
{
    let ghost start = tasks_model(out@);
    if let Some(v) = value {
        out.push(task(key, VariableSource::Known(v.clone())));
    }
    assert(tasks_model(out@) =~= start + known(key@, *value));
}

fn push_fabric_tasks(app: &GeneratorApp, out: &mut Vec<VariableTask>)
    ensures
        tasks_model(final(out)@) == tasks_model(old(out)@) + fabric_tasks(*app),
{
    let ghost start = tasks_model(out@);
    out.push(task("FABRIC_LOADER_VERSION", VariableSource::Latest(MavenLibrary::fabric_loader())));
    if app.subprojects.fabric {
        let mut suffix = "+".to_owned();
        suffix.append(app.game_version.fabric_api_branch());
        let rule = VersionRule::EndsWith(suffix);
        out.push(task("FABRIC_API_VERSION", VariableSource::Matching(MavenLibrary::fabric_api(), rule)));
    }
    assert(tasks_model(out@) =~= start + fabric_tasks(*app));
}

fn push_quilt_tasks(app: &GeneratorApp, out: &mut Vec<VariableTask>)
    ensures
        tasks_model(final(out)@) == tasks_model(old(out)@) + quilt_tasks(*app),
{
    let ghost start = tasks_model(out@);
    if app.subprojects.quilt {
        out.push(task("QUILT_LOADER_VERSION", VariableSource::Latest(MavenLibrary::quilt_loader())));
        let mut suffix = "-".to_owned();
        suffix.append(app.game_version.version());
        let rule = VersionRule::EndsWith(suffix);
        out.push(task("QUILTED_FABRIC_API_VERSION", VariableSource::Matching(MavenLibrary::quilted_fabric_api(), rule)));
    }
    assert(tasks_model(out@) =~= start + quilt_tasks(*app));
}

fn push_architectury_tasks(app: &GeneratorApp, versions: &Versions, out: &mut Vec<VariableTask>)
    ensures
        tasks_model(final(out)@) == tasks_model(old(out)@) + architectury_tasks(*app, *versions),
{
    let ghost start = tasks_model(out@);
    if app.dependencies.architectury_api {
        let value = versions.architectury_api.clone();
        out.push(task("ARCHITECTURY_API_VERSION", VariableSource::Known(value)));
    }
    assert(tasks_model(out@) =~= start + architectury_tasks(*app, *versions));
}

fn push_known_if(out: &mut Vec<VariableTask>, b: bool, key: &str, value: &Option<String>)
    ensures
        tasks_model(final(out)@) == tasks_model(old(out)@) + when(b, known(key@, *value)),
{
    let ghost start = tasks_model(out@);
    if b {
        push_known(out, key, value);
    } else {
        assert(tasks_model(out@) =~= start + when(b, known(key@, *value)));
    }
}

fn push_multiplatform_tasks(app: &GeneratorApp, versions: &Versions, out: &mut Vec<VariableTask>)
    ensures
        tasks_model(final(out)@) == tasks_model(old(out)@) + multiplatform_tasks(*app, *versions),
{
    let ghost start = tasks_model(out@);
    push_fabric_tasks(app, out);
    push_known_if(out, app.subprojects.forge, "FORGE_VERSION", &versions.forge);
    push_known_if(out, app.subprojects.neoforge, "NEOFORGE_VERSION", &versions.neoforge);
    push_quilt_tasks(app, out);
    push_architectury_tasks(app, versions, out);
    assert(tasks_model(out@) =~= start + multiplatform_tasks(*app, *versions));
}

fn plan_tasks(app: &GeneratorApp, versions: &Versions) -> (r: Vec<VariableTask>)
    ensures
        tasks_model(r@) == planned_tasks(*app, *versions),
{
    let mut out: Vec<VariableTask> = Vec::new();
    if app.mapping_set == MappingSet::Yarn {
        let mut prefix = app.game_version.version().to_owned();
        prefix.append("+");
        let rule = VersionRule::StartsWith(prefix);
        out.push(task("YARN_MAPPINGS", VariableSource::Matching(MavenLibrary::yarn(), rule)));
    }
    let ghost head = tasks_model(out@);
    assert(head =~= yarn_tasks(*app));
    match app.project_type {
        ProjectType::Multiplatform => push_multiplatform_tasks(app, versions, &mut out),
        ProjectType::NeoForge => push_known(&mut out, "NEOFORGE_VERSION", &versions.neoforge),
        ProjectType::Forge => push_known(&mut out, "FORGE_VERSION", &versions.forge),
    }
    out
}


/// What a run needs before it can fetch and render: the context so far, the
/// file sets to fetch and the versions to look up.
pub struct GenerationPlan {
    pub context: Context,
    pub file_sets: Vec<FileSet>,
    pub tasks: Vec<VariableTask>,
}

/// Whether `p` is the plan for a run with these choices and versions.
pub open spec fn is_plan_for(p: GenerationPlan, app: GeneratorApp, versions: Versions) -> bool {
    &&& p.context.wf()
    &&& p.context@.variables == put_all(seq![], planned_variables(app, versions))
    &&& p.context@.flags == planned_flags(app)
    &&& p.file_sets@ == planned_file_sets(app)
    &&& tasks_model(p.tasks@) == planned_tasks(app, versions)
}

/// Puts each (key, value) pair into the context, in order.
pub fn put_resolved(context: &mut Context, resolved: &Vec<(String, String)>)
    requires
        old(context).wf(),
    ensures
        final(context).wf(),
        final(context)@.variables == put_all(old(context)@.variables, entries_view(resolved@)),
        final(context)@.flags == old(context)@.flags,
{
    let ghost ev = entries_view(resolved@);
    let ghost base = context@.variables;
    let ghost flags = context@.flags;
    let mut i: usize = 0;
    assert(ev.subrange(0, 0) =~= Seq::<(Seq<char>, Seq<char>)>::empty());
    while i < resolved.len()
        invariant
            ev == entries_view(resolved@),
            i <= resolved@.len(),
            context.wf(),
            context@.flags == flags,
            context@.variables == put_all(base, ev.subrange(0, i as int)),
        decreases resolved@.len() - i,
    {
        assert(ev.subrange(0, i + 1).drop_last() =~= ev.subrange(0, i as int));
        context.put(resolved[i].0.as_str(), resolved[i].1.as_str());
        i = i + 1;
    }
    assert(ev.subrange(0, i as int) =~= ev);
}

fn define_all(context: &mut Context, flags: &Vec<&'static str>)
    requires
        old(context).wf(),
    ensures
        final(context).wf(),
        final(context)@.variables == old(context)@.variables,
        final(context)@.flags == old(context)@.flags.union(flag_views(flags@).to_set()),
{
    let ghost fv = flag_views(flags@);
    let ghost base = context@.flags;
    let mut i: usize = 0;
    assert(base.union(fv.subrange(0, 0).to_set()) =~= base);
    while i < flags.len()
        invariant
            fv == flag_views(flags@),
            i <= flags@.len(),
            context.wf(),
            context@.variables == old(context)@.variables,
            context@.flags == base.union(fv.subrange(0, i as int).to_set()),
        decreases flags@.len() - i,
    {
        let ghost before = context@.flags;
        context.define(flags[i]);
        let ghost cur = fv.subrange(0, i + 1);
        let ghost prev = fv.subrange(0, i as int);
        assert forall|x: Seq<char>| #[trigger] cur.contains(x) == (prev.contains(x) || x == fv[i as int]) by {
            if cur.contains(x) {
                let k = choose|k: int| 0 <= k < cur.len() && cur[k] == x;
                if k < i {
                    assert(prev[k] == x);
                }
            }
            if prev.contains(x) {
                let k = choose|k: int| 0 <= k < prev.len() && prev[k] == x;
                assert(cur[k] == x);
            }
            if x == fv[i as int] {
                assert(cur[i as int] == x);
            }
        }
        assert(context@.flags =~= base.union(fv.subrange(0, i + 1).to_set()));
        i = i + 1;
    }
    assert(fv.subrange(0, i as int) =~= fv);
}

/// Plans a run: builds the context from the choices and the resolved
/// versions, picks the file sets, and lists the lookups still to make. A
/// game version on a Java release below 8 is refused.
pub fn plan_generation(app: &GeneratorApp, versions: &Versions) -> (r: Result<GenerationPlan, UnsupportedJava>)
    ensures
        app.game_version.meta().java_version < 8 ==> r == Err::<GenerationPlan, UnsupportedJava>(
            UnsupportedJava { version: app.game_version.meta().java_version },
        ),
        app.game_version.meta().java_version >= 8 ==> r is Ok && is_plan_for(r->Ok_0, *app, *versions),
{
    let java = app.game_version.meta_java_version();
    if java < 8 {
        return Err(UnsupportedJava { version: java });
    }
    let mut entries = immediate_entries(app);
    project_entries(app, versions, &mut entries);
    assert(entries_view(entries@) == planned_variables(*app, *versions));
    let mut context = Context::new();
    put_resolved(&mut context, &entries);
    let flags = plan_flags(app);
    define_all(&mut context, &flags);
    assert(Set::<Seq<char>>::empty().union(planned_flag_list(*app).to_set()) =~= planned_flags(*app));
    let file_sets = plan_file_sets(app);
    let tasks = plan_tasks(app, versions);
    Ok(GenerationPlan { context, file_sets, tasks })
}

/// The library whose metadata a lookup reads; none for a known value.
pub fn task_library(task: &VariableTask) -> (r: Option<&MavenLibrary>)
    ensures
        match task.source {
            VariableSource::Latest(l) => r == Some(&l),
            VariableSource::Matching(l, _) => r == Some(&l),
            VariableSource::Known(_) => r is None,
        },
{
    match &task.source {
        VariableSource::Latest(l) => Some(l),
        VariableSource::Matching(l, _) => Some(l),
        VariableSource::Known(_) => None,
    }
}

/// The value a lookup finds in its library's metadata (a known value needs
/// none): `Ok(None)` where the metadata holds no fitting version, an error
/// where choosing one needs a version the comparator cannot read.
pub fn task_value(task: &VariableTask, metadata: &MavenMetadata) -> (r: Result<Option<String>, UnorderableVersion>)
    ensures
        match task.source {
            VariableSource::Latest(_) => r == Ok::<Option<String>, UnorderableVersion>(metadata.latest),
            VariableSource::Matching(_, rule) => match metadata.versions {
                None => r matches Ok(None),
                Some(vs) => is_selection(r, candidates(crate::text::views(vs@), rule)),
            },
            VariableSource::Known(v) => r == Ok::<Option<String>, UnorderableVersion>(Some(v)),
        },
{
    match &task.source {
        VariableSource::Latest(_) => Ok(get_latest_version(metadata)),
        VariableSource::Matching(_, rule) => get_latest_version_matching(metadata, rule),
        VariableSource::Known(v) => Ok(Some(v.clone())),
    }
}

/// Rendered lines, each followed by a line feed.
pub open spec fn joined_lines(lines: Seq<Seq<char>>) -> Seq<char>
    decreases lines.len(),
{
    if lines.len() == 0 {
        seq![]
    } else {
        joined_lines(lines.drop_last()) + lines.last() + seq!['\n']
    }
}

/// `t`, with a line feed added where it does not already end in one.
pub open spec fn with_final_newline(t: Seq<char>) -> Seq<char> {
    if t.len() == 0 || t.last() == '\n' {
        t
    } else {
        t + seq!['\n']
    }
}

proof fn lemma_joined_cons(l: Seq<char>, rest: Seq<Seq<char>>)
    ensures
        joined_lines(seq![l] + rest) == l + seq!['\n'] + joined_lines(rest),
    decreases rest.len(),
{
    if rest.len() == 0 {
        assert(seq![l] + rest =~= seq![l]);
        assert(seq![l].drop_last() =~= Seq::<Seq<char>>::empty());
        assert(l + seq!['\n'] =~= joined_lines(Seq::<Seq<char>>::empty()) + l + seq!['\n']);
    } else {
        lemma_joined_cons(l, rest.drop_last());
        assert((seq![l] + rest).drop_last() =~= seq![l] + rest.drop_last());
        assert((seq![l] + rest).last() == rest.last());
        assert(joined_lines(seq![l] + rest) =~= l + seq!['\n'] + joined_lines(rest));
    }
}

/// Splitting text without carriage returns into lines and writing each line
/// back with a line feed gives the text again, with a final line feed added
/// where it had none.
pub proof fn lemma_lines_rejoin(t: Seq<char>)
    requires
        forall|i: int| 0 <= i < t.len() ==> t[i] != '\r',
    ensures
        joined_lines(lines_of(t)) == with_final_newline(t),
    decreases t.len(),
{
    if t.len() > 0 {
        lemma_line_end_bounds(t);
        let e = line_end(t);
        if e >= t.len() {
            assert(t[t.len() - 1] != '\n');
            assert(lines_of(t) == seq![t]);
            assert(seq![t].drop_last() =~= Seq::<Seq<char>>::empty());
            assert(seq![t].last() == t);
            assert(joined_lines(Seq::<Seq<char>>::empty()) == Seq::<char>::empty());
            assert(joined_lines(seq![t]) == joined_lines(Seq::<Seq<char>>::empty()) + t + seq!['\n']);
            assert(joined_lines(seq![t]) =~= t + seq!['\n']);
        } else {
            let head = t.subrange(0, e);
            let rest = t.subrange(e + 1, t.len() as int);
            if head.len() > 0 {
                assert(head.last() == t[e - 1]);
            }
            assert(strip_cr(head) == head);
            assert forall|i: int| 0 <= i < rest.len() implies rest[i] != '\r' by {
                assert(rest[i] == t[e + 1 + i]);
            }
            lemma_lines_rejoin(rest);
            lemma_joined_cons(head, lines_of(rest));
            assert(lines_of(t) == seq![head] + lines_of(rest));
            assert(joined_lines(lines_of(t)) == head + seq!['\n'] + with_final_newline(rest));
            if rest.len() == 0 {
                assert(head + seq!['\n'] =~= t);
            } else {
                assert(rest.last() == t.last());
                assert(head + seq!['\n'] + rest =~= t);
                assert(head + seq!['\n'] + (rest + seq!['\n']) =~= t + seq!['\n']);
            }
        }
    }
}

/// A file whose text has no directive line, no carriage return and no
/// `%KEY%` token of the context renders to its own text, with a final line
/// feed added where it had none.
pub proof fn lemma_plain_file_round_trip(ctx: ContextModel, text: Seq<char>)
    requires
        forall|i: int| 0 <= i < text.len() ==> text[i] != '\r',
        forall|i: int|
            0 <= i < lines_of(text).len() ==> !is_directive(#[trigger] lines_of(text)[i]),
        forall|i: int, j: int|
            0 <= i < lines_of(text).len() && 0 <= j < ctx.variables.len() ==> !contains(
                #[trigger] lines_of(text)[i],
                token(#[trigger] ctx.variables[j].0, true),
            ),
    ensures
        parse(lines_of(text)) is Ok,
        joined_lines(render(ctx, parse(lines_of(text))->Ok_0)) == with_final_newline(text),
{
    lemma_plain_template_round_trip(ctx, text);
    lemma_lines_rejoin(text);
}

fn join_lines(lines: &Vec<String>) -> (r: String)
    ensures
        r@ == joined_lines(crate::text::views(lines@)),
{
    let ghost ls = crate::text::views(lines@);
    let mut out = String::new();
    let mut i: usize = 0;
    assert(ls.subrange(0, 0) =~= Seq::<Seq<char>>::empty());
    while i < lines.len()
        invariant
            ls == crate::text::views(lines@),
            i <= lines@.len(),
            out@ == joined_lines(ls.subrange(0, i as int)),
        decreases lines@.len() - i,
    {
        assert(ls.subrange(0, i + 1).drop_last() =~= ls.subrange(0, i as int));
        out.append(lines[i].as_str());
        crate::text::push_char(&mut out, '\n');
        i = i + 1;
    }
    assert(ls.subrange(0, i as int) =~= ls);
    out
}

fn copy_bytes(b: &Vec<u8>) -> (r: Vec<u8>)
    ensures
        r@ == b@,
{
    let mut out: Vec<u8> = Vec::new();
    let mut i: usize = 0;
    while i < b.len()
        invariant
            i <= b@.len(),
            out@ == b@.subrange(0, i as int),
        decreases b@.len() - i,
    {
        out.push(b[i]);
        assert(b@.subrange(0, i + 1) =~= b@.subrange(0, i as int).push(b@[i as int]));
        i = i + 1;
    }
    assert(b@.subrange(0, i as int) =~= b@);
    out
}

/// A file ready for the output sink.
pub struct OutputFile {
    pub path: String,
    pub content: FileContent,
    pub permissions: FilePermissions,
}

/// Renders a fetched file: its path with bare variable names substituted;
/// text parsed and rendered, one line feed after each line; bytes copied
/// as they are. A template that does not parse is an error.
pub fn render_file(context: &Context, file: &FileData) -> (r: Result<OutputFile, ParseError>)
    ensures
        r is Ok ==> r->Ok_0.path@ == substitute(context@.variables, file.path@, false)
            && r->Ok_0.permissions == file.permissions,
        match file.content {
            FileContent::Binary(b) => r is Ok && (r->Ok_0.content matches FileContent::Binary(c)
                && c@ == b@),
            FileContent::Text(t) => match parse(lines_of(t@)) {
                Err(e) => r is Err && r->Err_0@ == e,
                Ok(parts) => r is Ok && (r->Ok_0.content matches FileContent::Text(x) && x@
                    == joined_lines(render(context@, parts))),
            },
        },
{
    let path = apply_variables(context, file.path.as_str(), false);
    let content = match &file.content {
        FileContent::Binary(bytes) => FileContent::Binary(copy_bytes(bytes)),
        FileContent::Text(text) => {
            let parts = match read_template(text.as_str()) {
                Ok(parts) => parts,
                Err(e) => {
                    return Err(e);
                },
            };
            let lines = apply_template(context, parts);
            FileContent::Text(join_lines(&lines))
        },
    };
    Ok(OutputFile { path, content, permissions: file.permissions })
}


/// A multiplatform run whose only subproject is Fabric includes exactly the
/// shared, multiplatform and Fabric file sets, defines the `fabric` flag but
/// none of `forge`, `neoforge` and `quilt`, and names `fabric` as its only
/// platform.
pub proof fn lemma_fabric_only_plan(app: GeneratorApp, versions: Versions)
    requires
        app.project_type == ProjectType::Multiplatform,
        app.subprojects.fabric,
        !app.subprojects.fabric_likes,
        !app.subprojects.forge,
        !app.subprojects.neoforge,
        !app.subprojects.quilt,
    ensures
        planned_file_sets(app) == seq![FileSet::Shared, FileSet::Multiplatform, FileSet::Fabric],
        planned_flags(app).contains("fabric"@),
        !planned_flags(app).contains("forge"@),
        !planned_flags(app).contains("neoforge"@),
        !planned_flags(app).contains("quilt"@),
        planned_variables(app, versions).last() == ("ARCHITECTURY_PLATFORMS"@, "fabric"@),
{
    reveal_strlit("fabric");
    reveal_strlit("forge");
    reveal_strlit("neoforge");
    reveal_strlit("quilt");
    reveal_strlit("mojang_mappings");
    reveal_strlit("yarn");
    reveal_strlit("architectury_api");
    let list = planned_flag_list(app);
    assert(platforms(app) =~= seq!["fabric"@]);
    assert(project_variables(app, versions) =~= seq![("ARCHITECTURY_PLATFORMS"@, "fabric"@)]);
    assert(planned_file_sets(app) =~= seq![FileSet::Shared, FileSet::Multiplatform, FileSet::Fabric]);
    assert(list[1] == "fabric"@);
    assert forall|i: int| 0 <= i < list.len() implies #[trigger] list[i] != "forge"@ && list[i]
        != "neoforge"@ && list[i] != "quilt"@ by {
        if list[i] == "forge"@ || list[i] == "neoforge"@ || list[i] == "quilt"@ {
            assert(list[i][0] != 'f' || list[i].len() != 5 || list[i][1] != 'o');
        }
    }
}


/// Whether `o` is what `f` renders to against `ctx`.
pub open spec fn rendered_as(ctx: ContextModel, f: FileData, o: OutputFile) -> bool {
    &&& o.path@ == substitute(ctx.variables, f.path@, false)
    &&& o.permissions == f.permissions
    &&& match f.content {
        FileContent::Binary(b) => o.content matches FileContent::Binary(c) && c@ == b@,
        FileContent::Text(t) => match parse(lines_of(t@)) {
            Ok(parts) => o.content matches FileContent::Text(x) && x@ == joined_lines(
                render(ctx, parts),
            ),
            Err(_) => false,
        },
    }
}

/// The parse failure of a text file, if its template does not parse.
pub open spec fn parse_failure(f: FileData) -> Option<Failure> {
    match f.content {
        FileContent::Text(t) => match parse(lines_of(t@)) {
            Err(e) => Some(e),
            Ok(_) => None,
        },
        FileContent::Binary(_) => None,
    }
}

/// Whether `r` is the outcome of rendering `files` in order against `ctx`:
/// every file rendered, or the failure of the first that does not parse.
pub open spec fn is_rendering(ctx: ContextModel, files: Seq<FileData>, r: Result<Vec<OutputFile>, ParseError>) -> bool {
    match r {
        Ok(outs) => outs@.len() == files.len() && forall|i: int|
            0 <= i < files.len() ==> rendered_as(ctx, #[trigger] files[i], outs@[i]),
        Err(e) => exists|i: int|
            0 <= i < files.len() && parse_failure(#[trigger] files[i]) == Some(e@) && forall|j: int|
                0 <= j < i ==> parse_failure(#[trigger] files[j]) is None,
    }
}

/// Renders every fetched file, in order; stops at the first template that
/// does not parse.
pub fn render_all(context: &Context, files: &Vec<FileData>) -> (r: Result<Vec<OutputFile>, ParseError>)
    ensures
        is_rendering(context@, files@, r),
        r is Ok <==> forall|i: int| 0 <= i < files@.len() ==> parse_failure(#[trigger] files@[i]) is None,
{
    let mut out: Vec<OutputFile> = Vec::new();
    let mut i: usize = 0;
    while i < files.len()
        invariant
            i <= files@.len(),
            out@.len() == i,
            forall|k: int| 0 <= k < i ==> rendered_as(context@, #[trigger] files@[k], out@[k]),
            forall|k: int| 0 <= k < i ==> parse_failure(#[trigger] files@[k]) is None,
        decreases files@.len() - i,
    {
        match render_file(context, &files[i]) {
            Ok(o) => {
                assert(rendered_as(context@, files@[i as int], o));
                out.push(o);
            },
            Err(e) => {
                assert(parse_failure(files@[i as int]) == Some(e@));
                return Err(e);
            },
        }
        i = i + 1;
    }
    Ok(out)
}

/// A finished run: the bundle's name and every rendered file.
pub struct Generated {
    pub file_name: String,
    pub files: Vec<OutputFile>,
}

/// The context after the looked-up values are put into the plan's context.
pub open spec fn resolved_context(plan: GenerationPlan, resolved: Seq<(String, String)>) -> ContextModel {
    ContextModel {
        variables: put_all(plan.context@.variables, entries_view(resolved)),
        flags: plan.context@.flags,
    }
}

/// Finishes a run once its lookups and fetches are done: puts the looked-up
/// values into the context, then names the bundle and renders every file.
pub fn finish_generation(
    app: &GeneratorApp,
    plan: GenerationPlan,
    resolved: &Vec<(String, String)>,
    files: &Vec<FileData>,
) -> (r: Result<Generated, ParseError>)
    requires
        plan.context.wf(),
    ensures
        match r {
            Ok(g) => g.file_name@ == file_name_of(*app) && is_rendering(
                resolved_context(plan, resolved@),
                files@,
                Ok::<Vec<OutputFile>, ParseError>(g.files),
            ),
            Err(e) => is_rendering(
                resolved_context(plan, resolved@),
                files@,
                Err::<Vec<OutputFile>, ParseError>(e),
            ),
        },
{
    let ghost model = resolved_context(plan, resolved@);
    let mut context = plan.context;
    put_resolved(&mut context, resolved);
    assert(context@ == model);
    let rendered = render_all(&context, files);
    match rendered {
        Ok(outs) => Ok(Generated { file_name: compose_file_name(app), files: outs }),
        Err(e) => Err(e),
    }
}

} // verus!
