//! The icon run as a whole, from the bytes of the source image to the files
//! to write, and finding the directory that holds a project's icons.

use crate::codec::{decoding, is_image_extension};
use crate::container::IconEntry;
use crate::errors::IconError;
use crate::generate::{
    decode_source, decoded_picture, generate_platform, generation_fails, mac_sizes,
    platform_files, platform_output, platform_specs, rendered, squares, windows_sizes,
    ArtifactFormat, GeneratedArtifact,
};
use crate::icon::Platform;
use crate::models::FileNode;
use crate::pipeline::{
    requested, requested_platforms, step, PipelineAction, PipelineEvent, PipelineState,
};
use crate::raster::Picture;
use crate::readback::{icns_listed, ico_declared};
use crate::text::same_text;
use vstd::prelude::*;

verus! {

/// How far a run has come without touching a file: the files to write, and
/// the failure that ended it, if one did.
#[derive(Debug)]
pub struct RunReport {
    /// `Migrating` when all files were generated, `Failed` otherwise.
    pub state: PipelineState,
    /// The files of the platforms that were completed, in order.
    pub files: Vec<GeneratedArtifact>,
    /// What went wrong in decoding or in the first platform that failed.
    pub failure: Option<IconError>,
}

/// The files are those generated from the source for the first `k`
/// platforms, one platform's after the other's.
pub open spec fn outputs(
    files: Seq<GeneratedArtifact>,
    source: Picture,
    platforms: Seq<Platform>,
    apply_mask: bool,
    k: int,
) -> bool
    decreases k,
{
    if k <= 0 {
        files.len() == 0
    } else {
        exists|cut: int|
            #![trigger files.take(cut)]
            0 <= cut <= files.len() && outputs(
                files.take(cut),
                source,
                platforms,
                apply_mask,
                k - 1,
            ) && platform_output(files.skip(cut), source, platforms[k - 1], apply_mask)
    }
}

/// A request for `desktop` alone, carried through on any source, gives
/// exactly two files: one macOS container and one Windows container, each of
/// which, read back, holds the seven sizes of its platform.
pub proof fn lemma_desktop_request(
    names: Seq<String>,
    files: Seq<GeneratedArtifact>,
    source: Picture,
    apply_mask: bool,
)
    requires
        names.len() == 1,
        names[0]@ == "desktop"@,
        outputs(files, source, requested(names), apply_mask, requested(names).len() as int),
    ensures
        requested(names) == seq![Platform::MacOs, Platform::Windows],
        files.len() == 2,
        files[0].file_name@ == "icon.icns"@,
        files[0].format == ArtifactFormat::MacContainer,
        icns_listed(files[0].bytes@) == Some(squares(mac_sizes())),
        squares(mac_sizes()).len() == 7,
        files[1].file_name@ == "icon.ico"@,
        files[1].format == ArtifactFormat::WindowsContainer,
        ico_declared(files[1].bytes@) == Some(squares(windows_sizes())),
        squares(windows_sizes()).len() == 7,
{
    reveal_strlit("desktop");
    reveal_strlit("ios");
    reveal_strlit("android");
    assert(names[0]@ == "desktop"@);
    assert(crate::pipeline::names_hold(names, "desktop"@));
    assert(!crate::pipeline::names_hold(names, "ios"@)) by {
        assert("desktop"@.len() != "ios"@.len());
    }
    assert(!crate::pipeline::names_hold(names, "android"@)) by {
        assert("desktop"@[0] != "android"@[0]);
    }
    let platforms = requested(names);
    assert(platforms =~= seq![Platform::MacOs, Platform::Windows]);
    let second = choose|cut: int|
        #![trigger files.take(cut)]
        0 <= cut <= files.len() && outputs(files.take(cut), source, platforms, apply_mask, 1)
            && platform_output(files.skip(cut), source, platforms[1], apply_mask);
    let head = files.take(second);
    let tail = files.skip(second);
    let first = choose|cut: int|
        #![trigger head.take(cut)]
        0 <= cut <= head.len() && outputs(head.take(cut), source, platforms, apply_mask, 0)
            && platform_output(head.skip(cut), source, platforms[0], apply_mask);
    assert(head.take(first).len() == 0);
    assert(head.skip(first) =~= head);
    let mac_entries = choose|entries: Seq<IconEntry>|
        rendered(entries, source, platform_specs(Platform::MacOs, apply_mask))
            && #[trigger] platform_files(
            head,
            Platform::MacOs,
            entries,
        );
    let windows_entries = choose|entries: Seq<IconEntry>|
        rendered(entries, source, platform_specs(Platform::Windows, apply_mask))
            && #[trigger] platform_files(tail, Platform::Windows, entries);
    assert(head.len() == 1);
    assert(tail.len() == 1);
    assert(files[0] == head[0]);
    assert(files[1] == tail[0]);
}

/// The run failed while generating: the files are those of the platforms
/// completed before, and the next platform is one for which generating
/// from the source fails.
pub open spec fn stopped_at(
    files: Seq<GeneratedArtifact>,
    source: Picture,
    platforms: Seq<Platform>,
    apply_mask: bool,
    k: int,
) -> bool {
    0 <= k < platforms.len() && outputs(files, source, platforms, apply_mask, k)
        && generation_fails(source, platforms[k], apply_mask)
}

/// Generates the icon files of the requested platforms from the bytes of
/// the source image, whose format its file extension names.
///
/// The run decodes the source, then generates for each requested platform
/// in turn. The first failure ends it, and the state is `Failed`. It is a
/// decode failure exactly when the decoder makes nothing of the source, as
/// with an extension that names no image format; no file is handed out
/// then. Otherwise it is an encode failure of one of the requested
/// platforms: the files of the platforms completed before it are still
/// handed out. Without failure the files of all requested platforms are
/// handed out and the state is `Migrating`: what is left is to write the
/// files and to relocate those of the mobile platforms.
pub fn generate_icons(source: &[u8], extension: &str, platforms: &Vec<String>, apply_mask: bool)
    -> (report: RunReport)
    ensures
        match report.failure {
            None => {
                &&& report.state == PipelineState::Migrating
                &&& decoding(source@, extension@) matches Some(decoded) && outputs(
                    report.files@,
                    decoded_picture(decoded),
                    requested(platforms@),
                    apply_mask,
                    requested(platforms@).len() as int,
                )
            },
            Some(e) => {
                &&& report.state == PipelineState::Failed
                &&& match decoding(source@, extension@) {
                    None => e is DecodeFailure && report.files@.len() == 0,
                    Some(decoded) => e is ContainerEncodeFailure && exists|k: int| #[trigger]
                        stopped_at(
                            report.files@,
                            decoded_picture(decoded),
                            requested(platforms@),
                            apply_mask,
                            k,
                        ),
                }
            },
        },
        decoding(source@, extension@) is None ==> report.failure is Some,
        !is_image_extension(extension@) ==> (report.failure matches Some(e) && e is DecodeFailure),
{
    let wanted = requested_platforms(platforms);
    let n: usize = wanted.len();
    let mut files: Vec<GeneratedArtifact> = Vec::new();
    let (state, _) = step(PipelineState::Idle, n, PipelineEvent::Start);
    let image = match decode_source(source, extension) {
        Ok(image) => image,
        Err(e) => {
            let (state, action) = step(state, n, PipelineEvent::Failed(e));
            let failure = match action {
                PipelineAction::Abort(e) => Some(e),
                _ => None,
            };
            return RunReport { state, files, failure };
        },
    };
    let (state, _) = step(state, n, PipelineEvent::Succeeded);
    let mut state = state;
    let mut i: usize = 0;
    proof {
        assert(outputs(files@, image@, requested(platforms@), apply_mask, 0));
    }
    while i < n
        invariant
            i <= n,
            n == wanted@.len(),
            wanted@ == requested(platforms@),
            state == if i < n {
                PipelineState::GeneratingPlatform(i)
            } else {
                PipelineState::Migrating
            },
            outputs(files@, image@, wanted@, apply_mask, i as int),
            is_image_extension(extension@),
            decoding(source@, extension@) matches Some(decoded) && decoded_picture(decoded)
                == image@,
        decreases n - i,
    {
        match generate_platform(&image, wanted[i], apply_mask) {
            Err(e) => {
                let (state, action) = step(state, n, PipelineEvent::Failed(e));
                let failure = match action {
                    PipelineAction::Abort(e) => Some(e),
                    _ => None,
                };
                let report = RunReport { state, files, failure };
                proof {
                    assert(stopped_at(
                        report.files@,
                        image@,
                        requested(platforms@),
                        apply_mask,
                        i as int,
                    ));
                }
                return report;
            },
            Ok(group) => {
                let ghost before = files@;
                let ghost added = group@;
                let mut group = group;
                files.append(&mut group);
                proof {
                    let cut = before.len() as int;
                    assert(files@.take(cut) =~= before);
                    assert(files@.skip(cut) =~= added);
                    assert(outputs(files@.take(cut), image@, wanted@, apply_mask, i as int));
                    assert(platform_output(
                        files@.skip(cut),
                        image@,
                        wanted@[i as int],
                        apply_mask,
                    ));
                    assert(outputs(files@, image@, wanted@, apply_mask, i + 1));
                }
                let (next, _) = step(state, n, PipelineEvent::Succeeded);
                state = next;
            },
        }
        i = i + 1;
    }
    RunReport { state, files, failure: None }
}

/// A directory met while walking through the project.
#[derive(Debug)]
pub struct WalkedDir {
    pub name: String,
    pub parent_name: Option<String>,
    pub is_dir: bool,
}

/// Where the icons were found.
#[derive(Clone, Copy, Debug, PartialEq, Eq, Structural)]
pub enum IconsDir {
    /// At the conventional place with this index.
    Conventional(usize),
    /// At the entry of the walk with this index.
    Walked(usize),
}

/// The conventional places of the icons below the root of a project, most
/// likely first; the last three are those of a repository of several
/// packages.
pub open spec fn conventional_places() -> Seq<Seq<Seq<char>>> {
    seq![
        seq!["src-tauri"@, "icons"@],
        seq!["src-tauri"@, "icon"@],
        seq!["tauri"@, "icons"@],
        seq!["icons"@],
        seq!["apps"@, "desktop"@, "src-tauri"@, "icons"@],
        seq!["packages"@, "desktop"@, "src-tauri"@, "icons"@],
        seq!["app"@, "src-tauri"@, "icons"@],
    ]
}

/// How deep the walk through the project goes.
pub open spec fn walk_depth() -> int {
    5
}

/// Whether an entry of the walk is the icons directory of an application:
/// a directory named `icons` in one named `src-tauri` or `tauri`.
pub open spec fn is_icons_dir(entry: WalkedDir) -> bool {
    entry.is_dir && entry.name@ == "icons"@ && match entry.parent_name {
        Some(parent) => parent@ == "src-tauri"@ || parent@ == "tauri"@,
        None => false,
    }
}

/// Appends a place to the list.
fn push_place(places: &mut Vec<Vec<String>>, parts: Vec<String>)
    ensures
        final(places).deep_view() == old(places).deep_view().push(parts.deep_view()),
{
    let ghost added = parts.deep_view();
    places.push(parts);
    proof {
        assert(places.deep_view() =~= old(places).deep_view().push(added));
    }
}

/// A place of up to four names.
fn place(first: &str, second: Option<&str>, third: Option<&str>, fourth: Option<&str>) -> (parts:
    Vec<String>)
    ensures
        parts.deep_view() == match (second, third, fourth) {
            (Some(b), Some(c), Some(d)) => seq![first@, b@, c@, d@],
            (Some(b), Some(c), None) => seq![first@, b@, c@],
            (Some(b), _, _) => seq![first@, b@],
            _ => seq![first@],
        },
{
    let mut parts: Vec<String> = Vec::new();
    parts.push(String::from_str(first));
    match second {
        Some(b) => {
            parts.push(String::from_str(b));
            match third {
                Some(c) => {
                    parts.push(String::from_str(c));
                    match fourth {
                        Some(d) => {
                            parts.push(String::from_str(d));
                            proof {
                                assert(parts.deep_view() =~= seq![first@, b@, c@, d@]);
                            }
                        },
                        None => {
                            proof {
                                assert(parts.deep_view() =~= seq![first@, b@, c@]);
                            }
                        },
                    }
                },
                None => {
                    proof {
                        assert(parts.deep_view() =~= seq![first@, b@]);
                    }
                },
            }
        },
        None => {
            proof {
                assert(parts.deep_view() =~= seq![first@]);
            }
        },
    }
    parts
}

/// `conventional_places`, computed.
pub fn icon_dir_candidates() -> (places: Vec<Vec<String>>)
    ensures
        places.deep_view() == conventional_places(),
{
    let mut places: Vec<Vec<String>> = Vec::new();
    proof {
        assert(places.deep_view() =~= Seq::<Seq<Seq<char>>>::empty());
    }
    push_place(&mut places, place("src-tauri", Some("icons"), None, None));
    push_place(&mut places, place("src-tauri", Some("icon"), None, None));
    push_place(&mut places, place("tauri", Some("icons"), None, None));
    push_place(&mut places, place("icons", None, None, None));
    push_place(&mut places, place("apps", Some("desktop"), Some("src-tauri"), Some("icons")));
    push_place(&mut places, place("packages", Some("desktop"), Some("src-tauri"), Some("icons")));
    push_place(&mut places, place("app", Some("src-tauri"), Some("icons"), None));
    proof {
        assert(places.deep_view() =~= conventional_places());
    }
    places
}

/// `is_icons_dir`, computed.
pub fn icons_dir(entry: &WalkedDir) -> (yes: bool)
    ensures
        yes == is_icons_dir(*entry),
{
    if !entry.is_dir || !same_text(entry.name.as_str(), "icons") {
        return false;
    }
    match &entry.parent_name {
        Some(parent) => same_text(parent.as_str(), "src-tauri") || same_text(
            parent.as_str(),
            "tauri",
        ),
        None => false,
    }
}

/// Chooses the icons directory: the first conventional place that is a
/// directory; failing that, the first entry of the walk that is the icons
/// directory of an application; failing that, none.
pub fn find_icons_dir(conventional: &Vec<bool>, walked: &Vec<WalkedDir>) -> (found: Option<
    IconsDir,
>)
    ensures
        match found {
            Some(IconsDir::Conventional(i)) => i < conventional@.len() && conventional@[i as int]
                && forall|j: int| 0 <= j < i ==> !conventional@[j],
            Some(IconsDir::Walked(i)) => i < walked@.len() && is_icons_dir(walked@[i as int])
                && (forall|j: int| 0 <= j < conventional@.len() ==> !conventional@[j]) && (forall|
                j: int,
            | 0 <= j < i ==> !is_icons_dir(#[trigger] walked@[j])),
            None => (forall|j: int| 0 <= j < conventional@.len() ==> !conventional@[j]) && (forall|
                j: int,
            | 0 <= j < walked@.len() ==> !is_icons_dir(#[trigger] walked@[j])),
        },
{
    let mut i: usize = 0;
    while i < conventional.len()
        invariant
            i <= conventional@.len(),
            forall|j: int| 0 <= j < i ==> !conventional@[j],
        decreases conventional@.len() - i,
    {
        if conventional[i] {
            return Some(IconsDir::Conventional(i));
        }
        i = i + 1;
    }
    let mut k: usize = 0;
    while k < walked.len()
        invariant
            k <= walked@.len(),
            forall|j: int| 0 <= j < conventional@.len() ==> !conventional@[j],
            forall|j: int| 0 <= j < k ==> !is_icons_dir(#[trigger] walked@[j]),
        decreases walked@.len() - k,
    {
        if icons_dir(&walked[k]) {
            return Some(IconsDir::Walked(k));
        }
        k = k + 1;
    }
    None
}

/// The assets of the project: none are listed yet.
pub fn get_assets() -> (assets: Vec<FileNode>)
    ensures
        assets@.len() == 0,
{
    Vec::new()
}

} // verus!
