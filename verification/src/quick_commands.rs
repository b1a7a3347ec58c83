//! What kind of project a directory holds, and the version of its Android build.

use crate::text::{
    lemma_parts_view, lines, lines_of, lowercase, parse_i32, parse_int, pieces, pieces_of,
    push_chars, push_signed, same_text, signed_decimal, starts_with, strip, stripped, to_chars,
    to_lowercase, to_text, trim, trimmed,
};
use vstd::prelude::*;

verus! {

/// What was found out about a project directory.
#[derive(Debug)]
pub struct ProjectInfo {
    pub package_manager: String,
    pub project_type: String,
    pub has_tauri: bool,
    pub has_android: bool,
    pub has_ios: bool,
    pub has_node_modules: bool,
}

/// The version of the Android build.
#[derive(Debug)]
pub struct AndroidVersion {
    pub version_code: i32,
    pub version_name: String,
}

/// A built Android package.
#[derive(Debug)]
pub struct ArtifactInfo {
    pub path: String,
    pub name: String,
    pub extension: String,
    pub artifact_type: String,
}

/// Which files of a package manager a directory holds.
#[derive(Clone, Copy, Debug, PartialEq, Eq, Structural)]
pub struct DirFacts {
    pub bun_lock: bool,
    pub pnpm_lock: bool,
    pub yarn_lock: bool,
    pub npm_lock: bool,
    pub package_json: bool,
    pub pnpm_workspace: bool,
}

/// Which marks of a kind of project a directory holds.
#[derive(Clone, Copy, Debug, PartialEq, Eq, Structural)]
pub struct ProjectFacts {
    pub src_tauri: bool,
    pub tauri_conf: bool,
    pub gen_android: bool,
    pub gen_apple: bool,
    pub next_config_js: bool,
    pub next_config_mjs: bool,
    pub vite_config_ts: bool,
    pub vite_config_js: bool,
    pub package_json: bool,
    pub cargo_toml: bool,
    pub node_modules: bool,
}

/// The package manager whose lock file lies in the directory: bun before
/// pnpm before yarn before npm.
pub open spec fn lock_manager(dir: DirFacts) -> Option<Seq<char>> {
    if dir.bun_lock {
        Some("bun"@)
    } else if dir.pnpm_lock {
        Some("pnpm"@)
    } else if dir.yarn_lock {
        Some("yarn"@)
    } else if dir.npm_lock {
        Some("npm"@)
    } else {
        None
    }
}

/// The package manager found on the way up from level `i`: the first lock
/// file decides, and the way goes on to the next directory only while that
/// holds a package description or a workspace file.
pub open spec fn manager_above(levels: Seq<DirFacts>, i: int) -> Option<Seq<char>>
    decreases levels.len() - i,
{
    if i < 0 || i >= levels.len() {
        None
    } else {
        match lock_manager(levels[i]) {
            Some(manager) => Some(manager),
            None => if i + 1 < levels.len() && (levels[i + 1].package_json || levels[i
                + 1].pnpm_workspace) {
                manager_above(levels, i + 1)
            } else {
                None
            },
        }
    }
}

/// The package manager of a project: what the way up finds; failing that,
/// npm if the project itself has a package description; else unknown.
pub open spec fn package_manager(levels: Seq<DirFacts>) -> Seq<char> {
    match manager_above(levels, 0) {
        Some(manager) => manager,
        None => if levels.len() > 0 && levels[0].package_json {
            "npm"@
        } else {
            "unknown"@
        },
    }
}

/// The kind of a project, by the first mark that applies.
pub open spec fn project_type(facts: ProjectFacts) -> Seq<char> {
    if facts.src_tauri || facts.tauri_conf {
        "tauri"@
    } else if facts.next_config_js || facts.next_config_mjs {
        "nextjs"@
    } else if facts.vite_config_ts || facts.vite_config_js {
        "vite"@
    } else if facts.package_json {
        "node"@
    } else if facts.cargo_toml {
        "rust"@
    } else {
        "unknown"@
    }
}

/// `manager_above` from the project's own directory, computed.
pub fn find_lock_manager(levels: &Vec<DirFacts>) -> (manager: Option<String>)
    ensures
        match manager {
            Some(name) => manager_above(levels@, 0) == Some(name@),
            None => manager_above(levels@, 0) is None,
        },
{
    let mut i: usize = 0;
    while i < levels.len()
        invariant
            i <= levels@.len(),
            manager_above(levels@, 0) == manager_above(levels@, i as int),
        decreases levels@.len() - i,
    {
        let dir = levels[i];
        if dir.bun_lock {
            return Some(String::from_str("bun"));
        }
        if dir.pnpm_lock {
            return Some(String::from_str("pnpm"));
        }
        if dir.yarn_lock {
            return Some(String::from_str("yarn"));
        }
        if dir.npm_lock {
            return Some(String::from_str("npm"));
        }
        if i + 1 < levels.len() && (levels[i + 1].package_json || levels[i + 1].pnpm_workspace) {
            i = i + 1;
        } else {
            return None;
        }
    }
    None
}

/// Names the package manager of a project from what its directory and
/// those above it hold, the project's own directory first.
pub fn detect_package_manager(levels: &Vec<DirFacts>) -> (manager: String)
    ensures
        manager@ == package_manager(levels@),
{
    match find_lock_manager(levels) {
        Some(manager) => manager,
        None => {
            if levels.len() > 0 && levels[0].package_json {
                String::from_str("npm")
            } else {
                String::from_str("unknown")
            }
        },
    }
}

/// Describes a project from what its directory and those above it hold.
/// Without any lock file the package manager is taken to be npm.
pub fn detect_project_info(levels: &Vec<DirFacts>, facts: ProjectFacts) -> (info: ProjectInfo)
    ensures
        info.package_manager@ == match manager_above(levels@, 0) {
            Some(manager) => manager,
            None => "npm"@,
        },
        info.project_type@ == project_type(facts),
        info.has_tauri == (facts.src_tauri || facts.tauri_conf),
        info.has_android == facts.gen_android,
        info.has_ios == facts.gen_apple,
        info.has_node_modules == facts.node_modules,
{
    let package_manager = match find_lock_manager(levels) {
        Some(manager) => manager,
        None => String::from_str("npm"),
    };
    let has_tauri = facts.src_tauri || facts.tauri_conf;
    let project_type = if has_tauri {
        String::from_str("tauri")
    } else if facts.next_config_js || facts.next_config_mjs {
        String::from_str("nextjs")
    } else if facts.vite_config_ts || facts.vite_config_js {
        String::from_str("vite")
    } else if facts.package_json {
        String::from_str("node")
    } else if facts.cargo_toml {
        String::from_str("rust")
    } else {
        String::from_str("unknown")
    };
    ProjectInfo {
        package_manager,
        project_type,
        has_tauri,
        has_android: facts.gen_android,
        has_ios: facts.gen_apple,
        has_node_modules: facts.node_modules,
    }
}

/// What a line of the build file assigns, if it is an assignment: what
/// stands between the first and the second `=`, without the white space
/// around it.
pub open spec fn assigned(line: Seq<char>) -> Option<Seq<char>> {
    let parts = pieces(trimmed(line), '=');
    if parts.len() > 1 {
        Some(trimmed(parts[1]))
    } else {
        None
    }
}

/// Whether the line sets the version code.
pub open spec fn is_code_line(line: Seq<char>) -> bool {
    "versionCode"@.is_prefix_of(trimmed(line))
}

/// Whether the line sets the version name.
pub open spec fn is_name_line(line: Seq<char>) -> bool {
    !is_code_line(line) && "versionName"@.is_prefix_of(trimmed(line))
}

/// The version code that a line assigns: the number, or 1 if it is none.
pub open spec fn code_of(value: Seq<char>) -> i32 {
    match parse_i32(value) {
        Some(n) => n,
        None => 1,
    }
}

/// The version name that a line assigns: the value without its quotes.
pub open spec fn name_of(value: Seq<char>) -> Seq<char> {
    stripped(value, '"')
}

/// The version code after the first `n` lines; 1 if no line sets it.
pub open spec fn code_upto(all: Seq<Seq<char>>, n: int) -> i32
    decreases n,
{
    if n <= 0 {
        1
    } else if is_code_line(all[n - 1]) && assigned(all[n - 1]) is Some {
        code_of(assigned(all[n - 1])->0)
    } else {
        code_upto(all, n - 1)
    }
}

/// The version name after the first `n` lines; `1.0.0` if no line sets it.
pub open spec fn name_upto(all: Seq<Seq<char>>, n: int) -> Seq<char>
    decreases n,
{
    if n <= 0 {
        "1.0.0"@
    } else if is_name_line(all[n - 1]) && assigned(all[n - 1]) is Some {
        name_of(assigned(all[n - 1])->0)
    } else {
        name_upto(all, n - 1)
    }
}

/// The kind of a line of the build file.
enum LineKind {
    Code,
    Name,
    Other,
}

/// Tells what a line sets and what it assigns.
fn read_assignment(line: &Vec<char>) -> (r: (LineKind, Option<Vec<char>>))
    ensures
        r.0 is Code <==> is_code_line(line@),
        r.0 is Name <==> is_name_line(line@),
        match r.1 {
            Some(value) => assigned(line@) == Some(value@),
            None => assigned(line@) is None,
        },
{
    let text = trim(line.as_slice());
    let code = to_chars("versionCode");
    let name = to_chars("versionName");
    let kind = if starts_with(text.as_slice(), code.as_slice()) {
        LineKind::Code
    } else if starts_with(text.as_slice(), name.as_slice()) {
        LineKind::Name
    } else {
        LineKind::Other
    };
    let parts = pieces_of(text.as_slice(), '=');
    proof {
        if parts@.len() > 1 {
            lemma_parts_view(parts, 1);
        } else if parts@.len() > 0 {
            lemma_parts_view(parts, 0);
        }
    }
    if parts.len() > 1 {
        (kind, Some(trim(parts[1].as_slice())))
    } else {
        proof {
            assert(parts.deep_view().len() == parts@.len()) by {
                if parts@.len() > 0 {
                    lemma_parts_view(parts, 0);
                }
            }
        }
        (kind, None)
    }
}

/// Reads the version of the Android build from the text of its build file.
/// The last line that sets the code or the name decides; a code that is no
/// number counts as 1, and without any such line the version is 1 and `1.0.0`.
pub fn read_android_version(content: &str) -> (version: AndroidVersion)
    ensures
        version.version_code == code_upto(lines(content@), lines(content@).len() as int),
        version.version_name@ == name_upto(lines(content@), lines(content@).len() as int),
{
    let chars = to_chars(content);
    let all = lines_of(chars.as_slice());
    let mut version_code: i32 = 1;
    let mut version_name = String::from_str("1.0.0");
    let mut i: usize = 0;
    proof {
        if all@.len() > 0 {
            lemma_parts_view(all, 0);
        }
    }
    while i < all.len()
        invariant
            i <= all@.len(),
            all.deep_view() == lines(content@),
            all.deep_view().len() == all@.len(),
            version_code == code_upto(all.deep_view(), i as int),
            version_name@ == name_upto(all.deep_view(), i as int),
        decreases all@.len() - i,
    {
        proof {
            lemma_parts_view(all, i as int);
        }
        let (kind, value) = read_assignment(&all[i]);
        match (kind, value) {
            (LineKind::Code, Some(value)) => {
                version_code = match parse_int(value.as_slice()) {
                    Some(n) => n,
                    None => 1,
                };
            },
            (LineKind::Name, Some(value)) => {
                let bare = strip(value.as_slice(), '"');
                proof {
                    assert(bare@.subrange(0, bare@.len() as int) =~= bare@);
                }
                version_name = to_text(bare.as_slice(), 0, bare.len());
            },
            _ => {},
        }
        i = i + 1;
    }
    AndroidVersion { version_code, version_name }
}

/// The next number; after the largest comes the smallest.
pub open spec fn bumped(n: i32) -> i32 {
    if n == i32::MAX {
        i32::MIN
    } else {
        (n + 1) as i32
    }
}

/// The version name with its patch number raised: a name of three parts
/// between dots gets the third part, read as a number or else as 0, raised
/// by one; any other name stays.
pub open spec fn bumped_name(current: Seq<char>) -> Seq<char> {
    let parts = pieces(current, '.');
    if parts.len() == 3 {
        parts[0] + seq!['.'] + parts[1] + seq!['.'] + signed_decimal(
            bumped(
                match parse_i32(parts[2]) {
                    Some(n) => n,
                    None => 0,
                },
            ) as int,
        )
    } else {
        current
    }
}

/// The line that replaces `line` when the version is raised, with its line feed.
pub open spec fn raised_line(line: Seq<char>) -> Seq<char> {
    if is_code_line(line) && assigned(line) is Some {
        "        versionCode = "@ + signed_decimal(bumped(code_of(assigned(line)->0)) as int)
            + seq!['\n']
    } else if is_name_line(line) && assigned(line) is Some {
        "        versionName = \""@ + bumped_name(name_of(assigned(line)->0)) + "\"\n"@
    } else {
        line + seq!['\n']
    }
}

/// The build file after the first `n` lines were rewritten.
pub open spec fn raised_upto(all: Seq<Seq<char>>, n: int) -> Seq<char>
    decreases n,
{
    if n <= 0 {
        Seq::<char>::empty()
    } else {
        raised_upto(all, n - 1) + raised_line(all[n - 1])
    }
}

/// The version code after the first `n` lines were rewritten; 1 if none set it.
pub open spec fn raised_code_upto(all: Seq<Seq<char>>, n: int) -> i32
    decreases n,
{
    if n <= 0 {
        1
    } else if is_code_line(all[n - 1]) && assigned(all[n - 1]) is Some {
        bumped(code_of(assigned(all[n - 1])->0))
    } else {
        raised_code_upto(all, n - 1)
    }
}

/// The version name after the first `n` lines were rewritten; `1.0.0` if
/// none set it.
pub open spec fn raised_name_upto(all: Seq<Seq<char>>, n: int) -> Seq<char>
    decreases n,
{
    if n <= 0 {
        "1.0.0"@
    } else if is_name_line(all[n - 1]) && assigned(all[n - 1]) is Some {
        bumped_name(name_of(assigned(all[n - 1])->0))
    } else {
        raised_name_upto(all, n - 1)
    }
}

/// `bumped`, computed.
pub fn bump(n: i32) -> (next: i32)
    ensures
        next == bumped(n),
{
    if n == i32::MAX {
        i32::MIN
    } else {
        n + 1
    }
}

/// `bumped_name`, computed.
pub fn bump_name(current: &Vec<char>) -> (next: String)
    ensures
        next@ == bumped_name(current@),
{
    let parts = pieces_of(current.as_slice(), '.');
    proof {
        if parts@.len() > 0 {
            lemma_parts_view(parts, 0);
        }
    }
    if parts.len() == 3 {
        proof {
            lemma_parts_view(parts, 0);
            lemma_parts_view(parts, 1);
            lemma_parts_view(parts, 2);
        }
        let patch = bump(
            match parse_int(parts[2].as_slice()) {
                Some(n) => n,
                None => 0,
            },
        );
        let mut next = String::new();
        push_chars(&mut next, parts[0].as_slice());
        next.push('.');
        push_chars(&mut next, parts[1].as_slice());
        next.push('.');
        push_signed(&mut next, patch);
        proof {
            assert(next@ =~= bumped_name(current@));
        }
        next
    } else {
        proof {
            assert(current@.subrange(0, current@.len() as int) =~= current@);
        }
        to_text(current.as_slice(), 0, current.len())
    }
}

/// Raises the version in the text of the Android build file: every line
/// that sets the version code gets the next number, every line that sets the
/// version name gets the next patch number, and every other line stays. The
/// lines are written out each with a line feed. The version returned is the
/// one that the last such lines now set.
pub fn update_android_version(content: &str) -> (r: (String, AndroidVersion))
    ensures
        r.0@ == raised_upto(lines(content@), lines(content@).len() as int),
        r.1.version_code == raised_code_upto(lines(content@), lines(content@).len() as int),
        r.1.version_name@ == raised_name_upto(lines(content@), lines(content@).len() as int),
{
    let chars = to_chars(content);
    let all = lines_of(chars.as_slice());
    let mut out = String::new();
    let mut version_code: i32 = 1;
    let mut version_name = String::from_str("1.0.0");
    let mut i: usize = 0;
    proof {
        if all@.len() > 0 {
            lemma_parts_view(all, 0);
        }
    }
    while i < all.len()
        invariant
            i <= all@.len(),
            all.deep_view() == lines(content@),
            all.deep_view().len() == all@.len(),
            out@ == raised_upto(all.deep_view(), i as int),
            version_code == raised_code_upto(all.deep_view(), i as int),
            version_name@ == raised_name_upto(all.deep_view(), i as int),
        decreases all@.len() - i,
    {
        proof {
            lemma_parts_view(all, i as int);
        }
        let ghost before = out@;
        let ghost line = all.deep_view()[i as int];
        let (kind, value) = read_assignment(&all[i]);
        match (kind, value) {
            (LineKind::Code, Some(value)) => {
                version_code = bump(
                    match parse_int(value.as_slice()) {
                        Some(n) => n,
                        None => 1,
                    },
                );
                out.append("        versionCode = ");
                push_signed(&mut out, version_code);
                out.push('\n');
                proof {
                    assert(out@ =~= before + raised_line(line));
                }
            },
            (LineKind::Name, Some(value)) => {
                let bare = strip(value.as_slice(), '"');
                version_name = bump_name(&bare);
                out.append("        versionName = \"");
                out.append(version_name.as_str());
                out.append("\"\n");
                proof {
                    assert(out@ =~= before + raised_line(line));
                }
            },
            _ => {
                push_chars(&mut out, all[i].as_slice());
                out.push('\n');
                proof {
                    assert(out@ =~= before + raised_line(line));
                }
            },
        }
        i = i + 1;
    }
    (out, AndroidVersion { version_code, version_name })
}

/// The package that a file is, given its extension in lower case: one
/// with the extension `apk` or `aab`.
pub open spec fn is_package_extension(lowered: Seq<char>) -> bool {
    lowered == "apk"@ || lowered == "aab"@
}

/// Describes a file as a built package if its extension, already in lower
/// case, is that of one.
pub fn artifact_from(path: &str, name: &str, lowered: String) -> (r: Option<ArtifactInfo>)
    ensures
        r is Some <==> is_package_extension(lowered@),
        r matches Some(info) ==> info.path@ == path@ && info.name@ == name@ && info.extension@
            == lowered@ && info.artifact_type@ == lowered@,
{
    if same_text(lowered.as_str(), "apk") || same_text(lowered.as_str(), "aab") {
        Some(
            ArtifactInfo {
                path: String::from_str(path),
                name: String::from_str(name),
                extension: lowered.clone(),
                artifact_type: lowered,
            },
        )
    } else {
        None
    }
}

/// Describes a file as a built package if its extension, whatever its case,
/// is `apk` or `aab`.
pub fn artifact_of(path: &str, name: &str, extension: &str) -> (r: Option<ArtifactInfo>)
    ensures
        r is Some <==> is_package_extension(lowercase(extension@)),
        r matches Some(info) ==> info.path@ == path@ && info.name@ == name@ && info.extension@
            == lowercase(extension@) && info.artifact_type@ == lowercase(extension@),
{
    artifact_from(path, name, to_lowercase(extension))
}

/// A file met while looking through the outputs of a build.
#[derive(Debug)]
pub struct FoundFile {
    pub path: String,
    pub name: String,
    pub extension: Option<String>,
}

/// A built package, as the contracts speak of it.
pub struct ArtifactModel {
    pub path: Seq<char>,
    pub name: Seq<char>,
    pub extension: Seq<char>,
    pub artifact_type: Seq<char>,
}

impl DeepView for ArtifactInfo {
    type V = ArtifactModel;

    open spec fn deep_view(&self) -> ArtifactModel {
        ArtifactModel {
            path: self.path@,
            name: self.name@,
            extension: self.extension@,
            artifact_type: self.artifact_type@,
        }
    }
}

/// The package that a file is, if it is one: a file whose extension in
/// lower case is `apk` or `aab`, which is then also its kind.
pub open spec fn artifact_model(file: FoundFile) -> Option<ArtifactModel> {
    match file.extension {
        Some(extension) => if is_package_extension(lowercase(extension@)) {
            Some(
                ArtifactModel {
                    path: file.path@,
                    name: file.name@,
                    extension: lowercase(extension@),
                    artifact_type: lowercase(extension@),
                },
            )
        } else {
            None
        },
        None => None,
    }
}

/// The packages among the first `n` files.
pub open spec fn artifacts_upto(files: Seq<FoundFile>, n: int) -> Seq<ArtifactModel>
    decreases n,
{
    if n <= 0 {
        Seq::<ArtifactModel>::empty()
    } else {
        match artifact_model(files[n - 1]) {
            Some(artifact) => artifacts_upto(files, n - 1).push(artifact),
            None => artifacts_upto(files, n - 1),
        }
    }
}

/// Picks the built packages out of the files of a build's outputs, in the
/// order in which the files were met.
pub fn find_android_artifacts(files: &Vec<FoundFile>) -> (artifacts: Vec<ArtifactInfo>)
    ensures
        artifacts.deep_view() == artifacts_upto(files@, files@.len() as int),
{
    let mut artifacts: Vec<ArtifactInfo> = Vec::new();
    let mut i: usize = 0;
    proof {
        assert(artifacts.deep_view() =~= Seq::<ArtifactModel>::empty());
    }
    while i < files.len()
        invariant
            i <= files@.len(),
            artifacts.deep_view() == artifacts_upto(files@, i as int),
        decreases files@.len() - i,
    {
        let file = &files[i];
        match &file.extension {
            Some(extension) => {
                match artifact_of(file.path.as_str(), file.name.as_str(), extension.as_str()) {
                    Some(artifact) => {
                        let ghost before = artifacts.deep_view();
                        let ghost added = artifact.deep_view();
                        artifacts.push(artifact);
                        proof {
                            assert(artifacts.deep_view() =~= before.push(added));
                        }
                    },
                    None => {},
                }
            },
            None => {},
        }
        i = i + 1;
    }
    artifacts
}

/// What to open for the iOS project: the workspace if there is one, else
/// the project, else nothing.
pub fn xcode_target(has_workspace: bool, has_project: bool) -> (target: Option<String>)
    ensures
        match target {
            Some(name) => name@ == if has_workspace {
                "app.xcworkspace"@
            } else {
                "app.xcodeproj"@
            } && (has_workspace || has_project),
            None => !has_workspace && !has_project,
        },
{
    if has_workspace {
        Some(String::from_str("app.xcworkspace"))
    } else if has_project {
        Some(String::from_str("app.xcodeproj"))
    } else {
        None
    }
}

} // verus!
