//! Relocating generated mobile icons into the directories that each
//! platform's build expects.
//!
//! Nothing here touches a file system. The planner takes the names found in
//! the output directory and answers with the operations to perform; whoever
//! performs them reports each outcome and is told whether to go on.

use crate::errors::IconError;
use crate::text::{ends_with, same_text, starts_with, to_chars};
use vstd::prelude::*;

verus! {

/// The directory that a path starts from: the output directory itself, or
/// the directory that contains it.
#[derive(Clone, Copy, Debug, PartialEq, Eq, Structural)]
pub enum Anchor {
    Base,
    Parent,
}

/// A path below an anchor, one name for each level.
#[derive(Debug)]
pub struct RelPath {
    pub anchor: Anchor,
    pub parts: Vec<String>,
}

/// One step of a relocation.
#[derive(Debug)]
pub enum FsOp {
    /// Create the directory and all that lead to it; nothing to do if it exists.
    CreateDirAll(RelPath),
    /// Rename `from` to `to`.
    Move { from: RelPath, to: RelPath },
    /// Remove the directory if it is empty.
    RemoveDir(RelPath),
}

/// An entry of the output directory: its name, whether it is a directory,
/// and, for a directory, the names of what it holds.
#[derive(Debug)]
pub struct Listed {
    pub name: String,
    pub is_dir: bool,
    pub children: Vec<String>,
}

/// A path, as the contracts speak of it.
pub struct PathModel {
    pub anchor: Anchor,
    pub parts: Seq<Seq<char>>,
}

/// A step, as the contracts speak of it.
pub enum OpModel {
    CreateDirAll(PathModel),
    Move { from: PathModel, to: PathModel },
    RemoveDir(PathModel),
}

/// An entry, as the contracts speak of it.
pub struct ListedModel {
    pub name: Seq<char>,
    pub is_dir: bool,
    pub children: Seq<Seq<char>>,
}

impl DeepView for RelPath {
    type V = PathModel;

    open spec fn deep_view(&self) -> PathModel {
        PathModel { anchor: self.anchor, parts: self.parts.deep_view() }
    }
}

impl DeepView for FsOp {
    type V = OpModel;

    open spec fn deep_view(&self) -> OpModel {
        match self {
            FsOp::CreateDirAll(p) => OpModel::CreateDirAll(p.deep_view()),
            FsOp::Move { from, to } => OpModel::Move {
                from: from.deep_view(),
                to: to.deep_view(),
            },
            FsOp::RemoveDir(p) => OpModel::RemoveDir(p.deep_view()),
        }
    }
}

impl DeepView for Listed {
    type V = ListedModel;

    open spec fn deep_view(&self) -> ListedModel {
        ListedModel {
            name: self.name@,
            is_dir: self.is_dir,
            children: self.children.deep_view(),
        }
    }
}

/// Where relocated files go: beside the output directory when that is named
/// `icons`, inside it otherwise.
pub open spec fn layout_anchor(base_leaf: Option<Seq<char>>) -> Anchor {
    if base_leaf == Some("icons"@) {
        Anchor::Parent
    } else {
        Anchor::Base
    }
}

/// The five density buckets of Android, in order.
pub open spec fn densities() -> Seq<Seq<char>> {
    seq!["mdpi"@, "hdpi"@, "xhdpi"@, "xxhdpi"@, "xxxhdpi"@]
}

/// A file of the output directory that belongs to the iOS project.
pub open spec fn is_ios_icon(entry: ListedModel) -> bool {
    !entry.is_dir && "AppIcon-"@.is_prefix_of(entry.name) && ".png"@.is_suffix_of(entry.name)
}

/// A directory of the output directory that belongs to the Android project.
pub open spec fn is_android_bucket(entry: ListedModel) -> bool {
    entry.is_dir && "mipmap-"@.is_prefix_of(entry.name)
}

/// The directory of the iOS project's icons.
pub open spec fn apple_dir(anchor: Anchor) -> PathModel {
    PathModel { anchor, parts: seq!["gen"@, "apple"@] }
}

/// The directory of one Android bucket.
pub open spec fn android_dir(anchor: Anchor, bucket: Seq<char>) -> PathModel {
    PathModel { anchor, parts: seq!["gen"@, "android"@, bucket] }
}

/// What is done for one entry when relocating for iOS: a matching file is
/// moved under its own name, anything else is left alone.
pub open spec fn ios_steps(entry: ListedModel, anchor: Anchor) -> Seq<OpModel> {
    if is_ios_icon(entry) {
        seq![
            OpModel::Move {
                from: PathModel { anchor: Anchor::Base, parts: seq![entry.name] },
                to: PathModel { anchor, parts: seq!["gen"@, "apple"@, entry.name] },
            },
        ]
    } else {
        Seq::<OpModel>::empty()
    }
}

/// The moves of the first `n` children of a bucket directory.
pub open spec fn bucket_moves(entry: ListedModel, anchor: Anchor, n: int) -> Seq<OpModel>
    decreases n,
{
    if n <= 0 {
        Seq::<OpModel>::empty()
    } else {
        bucket_moves(entry, anchor, n - 1).push(
            OpModel::Move {
                from: PathModel {
                    anchor: Anchor::Base,
                    parts: seq![entry.name, entry.children[n - 1]],
                },
                to: PathModel {
                    anchor,
                    parts: seq!["gen"@, "android"@, entry.name, entry.children[n - 1]],
                },
            },
        )
    }
}

/// What is done for one entry when relocating for Android: for a bucket
/// directory its destination is created, all it holds is moved there, and
/// the emptied directory is removed; anything else is left alone.
pub open spec fn android_steps(entry: ListedModel, anchor: Anchor) -> Seq<OpModel> {
    if is_android_bucket(entry) {
        seq![OpModel::CreateDirAll(android_dir(anchor, entry.name))] + bucket_moves(
            entry,
            anchor,
            entry.children.len() as int,
        ) + seq![
            OpModel::RemoveDir(PathModel { anchor: Anchor::Base, parts: seq![entry.name] }),
        ]
    } else {
        Seq::<OpModel>::empty()
    }
}

/// The steps for the first `n` entries, one entry after the other.
pub open spec fn ios_steps_upto(entries: Seq<ListedModel>, anchor: Anchor, n: int) -> Seq<
    OpModel,
>
    decreases n,
{
    if n <= 0 {
        Seq::<OpModel>::empty()
    } else {
        ios_steps_upto(entries, anchor, n - 1) + ios_steps(entries[n - 1], anchor)
    }
}

/// The steps for the first `n` entries, one entry after the other.
pub open spec fn android_steps_upto(entries: Seq<ListedModel>, anchor: Anchor, n: int) -> Seq<
    OpModel,
>
    decreases n,
{
    if n <= 0 {
        Seq::<OpModel>::empty()
    } else {
        android_steps_upto(entries, anchor, n - 1) + android_steps(entries[n - 1], anchor)
    }
}

/// What every iOS relocation starts with: the destination directory.
pub open spec fn ios_preparation(anchor: Anchor) -> Seq<OpModel> {
    seq![OpModel::CreateDirAll(apple_dir(anchor))]
}

/// What every Android relocation starts with: one directory for each of the
/// five densities.
pub open spec fn android_preparation(anchor: Anchor) -> Seq<OpModel> {
    Seq::new(
        5,
        |i: int| OpModel::CreateDirAll(android_dir(anchor, "mipmap-"@ + densities()[i])),
    )
}

/// The whole relocation for iOS.
pub open spec fn ios_plan(base_leaf: Option<Seq<char>>, entries: Seq<ListedModel>) -> Seq<
    OpModel,
> {
    let anchor = layout_anchor(base_leaf);
    ios_preparation(anchor) + ios_steps_upto(entries, anchor, entries.len() as int)
}

/// The whole relocation for Android.
pub open spec fn android_plan(base_leaf: Option<Seq<char>>, entries: Seq<ListedModel>) -> Seq<
    OpModel,
> {
    let anchor = layout_anchor(base_leaf);
    android_preparation(anchor) + android_steps_upto(entries, anchor, entries.len() as int)
}

/// How an attempted step ended.
#[derive(Debug)]
pub enum StepOutcome {
    /// The step was carried out.
    Done,
    /// What the step was to act on is not there.
    Missing,
    /// The step failed for another reason, with the system's message.
    Failed(String),
}

/// Whether the relocation goes on after a step that ended as `outcome`.
///
/// A move whose source is missing has been made before and is passed over.
/// Removing the emptied source directory is an attempt only, whose failure
/// is never held against the run. Any other failure ends the run.
pub open spec fn goes_on(op: OpModel, outcome: StepOutcome) -> bool {
    match outcome {
        StepOutcome::Done => true,
        StepOutcome::Missing => !(op is CreateDirAll),
        StepOutcome::Failed(_) => op is RemoveDir,
    }
}

/// A run over a listing in which nothing is left to relocate only makes
/// sure of its directories: when every entry is one that an earlier run has
/// left in place, or the directory `gen` that it has created, the plan has
/// no move and removes nothing.
pub proof fn lemma_ios_second_run(
    base_leaf: Option<Seq<char>>,
    first: Seq<ListedModel>,
    second: Seq<ListedModel>,
)
    requires
        forall|j: int|
            0 <= j < second.len() ==> ((#[trigger] second[j]).is_dir && second[j].name == "gen"@)
                || (exists|i: int|
                0 <= i < first.len() && first[i] == second[j] && !is_ios_icon(first[i])),
    ensures
        ios_plan(base_leaf, second) == ios_preparation(layout_anchor(base_leaf)),
{
    let anchor = layout_anchor(base_leaf);
    lemma_ios_nothing_left(second, anchor, second.len() as int);
    assert(ios_preparation(anchor) + Seq::<OpModel>::empty() =~= ios_preparation(anchor));
}

/// Entries of which none is an iOS icon give no steps.
proof fn lemma_ios_nothing_left(entries: Seq<ListedModel>, anchor: Anchor, n: int)
    requires
        0 <= n <= entries.len(),
        forall|j: int| 0 <= j < entries.len() ==> !is_ios_icon(#[trigger] entries[j]),
    ensures
        ios_steps_upto(entries, anchor, n) == Seq::<OpModel>::empty(),
    decreases n,
{
    if n > 0 {
        lemma_ios_nothing_left(entries, anchor, n - 1);
        assert(!is_ios_icon(entries[n - 1]));
        assert(Seq::<OpModel>::empty() + Seq::<OpModel>::empty() =~= Seq::<OpModel>::empty());
    }
}

/// The same for Android: when every entry is one that an earlier run has
/// left in place, or the directory `gen` that it has created, the plan only
/// makes sure of the five density directories.
pub proof fn lemma_android_second_run(
    base_leaf: Option<Seq<char>>,
    first: Seq<ListedModel>,
    second: Seq<ListedModel>,
)
    requires
        forall|j: int|
            0 <= j < second.len() ==> ((#[trigger] second[j]).is_dir && second[j].name == "gen"@)
                || (exists|i: int|
                0 <= i < first.len() && first[i] == second[j] && !is_android_bucket(first[i])),
    ensures
        android_plan(base_leaf, second) == android_preparation(layout_anchor(base_leaf)),
{
    let anchor = layout_anchor(base_leaf);
    reveal_strlit("gen");
    reveal_strlit("mipmap-");
    assert forall|j: int| 0 <= j < second.len() implies !is_android_bucket(
        #[trigger] second[j],
    ) by {
        if second[j].is_dir && second[j].name == "gen"@ {
            assert("gen"@.len() == 3);
            assert("mipmap-"@.len() == 7);
        }
    }
    lemma_android_nothing_left(second, anchor, second.len() as int);
    assert(android_preparation(anchor) + Seq::<OpModel>::empty() =~= android_preparation(anchor));
}

/// Entries of which none is a bucket directory give no steps.
proof fn lemma_android_nothing_left(entries: Seq<ListedModel>, anchor: Anchor, n: int)
    requires
        0 <= n <= entries.len(),
        forall|j: int| 0 <= j < entries.len() ==> !is_android_bucket(#[trigger] entries[j]),
    ensures
        android_steps_upto(entries, anchor, n) == Seq::<OpModel>::empty(),
    decreases n,
{
    if n > 0 {
        lemma_android_nothing_left(entries, anchor, n - 1);
        assert(!is_android_bucket(entries[n - 1]));
        assert(Seq::<OpModel>::empty() + Seq::<OpModel>::empty() =~= Seq::<OpModel>::empty());
    }
}

/// The leaf name of the output directory, as the contracts speak of it.
pub open spec fn leaf_model(base_leaf: Option<&str>) -> Option<Seq<char>> {
    match base_leaf {
        Some(name) => Some(name@),
        None => None,
    }
}

/// Appends one name to a list of names.
fn push_name(parts: &mut Vec<String>, name: &str)
    ensures
        final(parts).deep_view() == old(parts).deep_view().push(name@),
{
    parts.push(String::from_str(name));
    proof {
        assert(parts.deep_view() =~= old(parts).deep_view().push(name@));
    }
}

/// Appends one step to a plan.
fn push_step(ops: &mut Vec<FsOp>, op: FsOp)
    ensures
        final(ops).deep_view() == old(ops).deep_view().push(op.deep_view()),
{
    let ghost added = op.deep_view();
    ops.push(op);
    proof {
        assert(ops.deep_view() =~= old(ops).deep_view().push(added));
    }
}

/// A path of one to four names below an anchor; empty names are left out
/// from the end.
fn path_of(anchor: Anchor, first: &str, second: Option<&str>, third: Option<&str>, fourth: Option<
    &str,
>) -> (path: RelPath)
    ensures
        path.deep_view() == (PathModel {
            anchor,
            parts: match (second, third, fourth) {
                (Some(b), Some(c), Some(d)) => seq![first@, b@, c@, d@],
                (Some(b), Some(c), None) => seq![first@, b@, c@],
                (Some(b), _, _) => seq![first@, b@],
                _ => seq![first@],
            },
        }),
{
    let mut parts: Vec<String> = Vec::new();
    proof {
        assert(parts.deep_view() =~= Seq::<Seq<char>>::empty());
    }
    push_name(&mut parts, first);
    match second {
        Some(b) => {
            push_name(&mut parts, b);
            match third {
                Some(c) => {
                    push_name(&mut parts, c);
                    match fourth {
                        Some(d) => {
                            push_name(&mut parts, d);
                            proof {
                                assert(parts.deep_view() =~= seq![first@, b@, c@, d@]);
                            }
                        },
                        None => {
                            proof {
                                assert(parts.deep_view() =~= seq![first@, b@, c@]);
                            }
                        },
                    }
                },
                None => {
                    proof {
                        assert(parts.deep_view() =~= seq![first@, b@]);
                    }
                },
            }
        },
        None => {
            proof {
                assert(parts.deep_view() =~= seq![first@]);
            }
        },
    }
    RelPath { anchor, parts }
}

/// Decides, after an attempted step, whether the relocation goes on or
/// ends with a migration failure that names what the step was and why it
/// failed.
pub fn after_step(op: &FsOp, outcome: StepOutcome) -> (r: Result<(), IconError>)
    ensures
        r is Ok <==> goes_on(op.deep_view(), outcome),
        r matches Err(e) ==> e is MigrationFailure,
{
    match outcome {
        StepOutcome::Done => Ok(()),
        StepOutcome::Missing => match op {
            FsOp::CreateDirAll(_) => Err(
                IconError::MigrationFailure(String::from_str("directory could not be created")),
            ),
            _ => Ok(()),
        },
        StepOutcome::Failed(reason) => match op {
            FsOp::RemoveDir(_) => Ok(()),
            _ => Err(IconError::MigrationFailure(reason)),
        },
    }
}

/// `layout_anchor`, computed: the layout's parent is the directory that
/// contains the output directory if that is named `icons`, else the output
/// directory itself.
pub fn anchor_for(base_leaf: Option<&str>) -> (anchor: Anchor)
    ensures
        anchor == layout_anchor(leaf_model(base_leaf)),
{
    match base_leaf {
        Some(name) => {
            if same_text(name, "icons") {
                Anchor::Parent
            } else {
                Anchor::Base
            }
        },
        None => Anchor::Base,
    }
}

/// `is_ios_icon`, computed.
pub fn ios_icon(entry: &Listed) -> (yes: bool)
    ensures
        yes == is_ios_icon(entry.deep_view()),
{
    if entry.is_dir {
        return false;
    }
    let name = to_chars(entry.name.as_str());
    let lead = to_chars("AppIcon-");
    let tail = to_chars(".png");
    starts_with(name.as_slice(), lead.as_slice()) && ends_with(name.as_slice(), tail.as_slice())
}

/// `is_android_bucket`, computed.
pub fn android_bucket(entry: &Listed) -> (yes: bool)
    ensures
        yes == is_android_bucket(entry.deep_view()),
{
    if !entry.is_dir {
        return false;
    }
    let name = to_chars(entry.name.as_str());
    let lead = to_chars("mipmap-");
    starts_with(name.as_slice(), lead.as_slice())
}

/// Plans the relocation of the iOS icons: the directory `gen/apple` below
/// the layout's parent is created, and every file of the output directory
/// named `AppIcon-*.png` is moved into it, in the order of the listing.
pub fn move_ios_icons(base_leaf: Option<&str>, entries: &Vec<Listed>) -> (ops: Vec<FsOp>)
    ensures
        ops.deep_view() == ios_plan(leaf_model(base_leaf), entries.deep_view()),
{
    let anchor = anchor_for(base_leaf);
    let mut ops: Vec<FsOp> = Vec::new();
    proof {
        assert(ops.deep_view() =~= Seq::<OpModel>::empty());
    }
    push_step(&mut ops, FsOp::CreateDirAll(path_of(anchor, "gen", Some("apple"), None, None)));
    proof {
        assert(ops.deep_view() =~= ios_preparation(anchor));
        assert(ops.deep_view() + ios_steps_upto(entries.deep_view(), anchor, 0)
            =~= ops.deep_view());
    }
    let mut i: usize = 0;
    while i < entries.len()
        invariant
            i <= entries@.len(),
            entries.deep_view().len() == entries@.len(),
            ops.deep_view() == ios_preparation(anchor) + ios_steps_upto(
                entries.deep_view(),
                anchor,
                i as int,
            ),
        decreases entries@.len() - i,
    {
        let entry = &entries[i];
        let ghost before = ops.deep_view();
        proof {
            assert(entries.deep_view()[i as int] == entry.deep_view());
        }
        if ios_icon(entry) {
            let from = path_of(Anchor::Base, entry.name.as_str(), None, None, None);
            let to = path_of(anchor, "gen", Some("apple"), Some(entry.name.as_str()), None);
            push_step(&mut ops, FsOp::Move { from, to });
            proof {
                assert(ops.deep_view() =~= before + ios_steps(entry.deep_view(), anchor));
            }
        } else {
            proof {
                assert(ops.deep_view() =~= before + ios_steps(entry.deep_view(), anchor));
            }
        }
        proof {
            assert(ios_preparation(anchor) + ios_steps_upto(entries.deep_view(), anchor, i + 1)
                =~= before + ios_steps(entry.deep_view(), anchor));
        }
        i = i + 1;
    }
    ops
}

/// Plans the relocation of the Android icons: one directory
/// `gen/android/mipmap-<density>` below the layout's parent is created for
/// each of the five densities; then, for every directory of the output
/// directory named `mipmap-*`, in the order of the listing, its destination
/// is created, all it holds is moved there, and the directory is removed.
pub fn move_android_icons(base_leaf: Option<&str>, entries: &Vec<Listed>) -> (ops: Vec<FsOp>)
    ensures
        ops.deep_view() == android_plan(leaf_model(base_leaf), entries.deep_view()),
{
    let anchor = anchor_for(base_leaf);
    let mut ops: Vec<FsOp> = Vec::new();
    proof {
        assert(ops.deep_view() =~= Seq::<OpModel>::empty());
    }
    let mdpi = String::from_str("mipmap-").concat("mdpi");
    let hdpi = String::from_str("mipmap-").concat("hdpi");
    let xhdpi = String::from_str("mipmap-").concat("xhdpi");
    let xxhdpi = String::from_str("mipmap-").concat("xxhdpi");
    let xxxhdpi = String::from_str("mipmap-").concat("xxxhdpi");
    push_step(
        &mut ops,
        FsOp::CreateDirAll(path_of(anchor, "gen", Some("android"), Some(mdpi.as_str()), None)),
    );
    push_step(
        &mut ops,
        FsOp::CreateDirAll(path_of(anchor, "gen", Some("android"), Some(hdpi.as_str()), None)),
    );
    push_step(
        &mut ops,
        FsOp::CreateDirAll(path_of(anchor, "gen", Some("android"), Some(xhdpi.as_str()), None)),
    );
    push_step(
        &mut ops,
        FsOp::CreateDirAll(path_of(anchor, "gen", Some("android"), Some(xxhdpi.as_str()), None)),
    );
    push_step(
        &mut ops,
        FsOp::CreateDirAll(path_of(anchor, "gen", Some("android"), Some(xxxhdpi.as_str()), None)),
    );
    proof {
        assert(ops.deep_view() =~= android_preparation(anchor));
        assert(ops.deep_view() + android_steps_upto(entries.deep_view(), anchor, 0)
            =~= ops.deep_view());
    }
    let mut i: usize = 0;
    while i < entries.len()
        invariant
            i <= entries@.len(),
            entries.deep_view().len() == entries@.len(),
            ops.deep_view() == android_preparation(anchor) + android_steps_upto(
                entries.deep_view(),
                anchor,
                i as int,
            ),
        decreases entries@.len() - i,
    {
        let entry = &entries[i];
        let ghost before = ops.deep_view();
        let ghost model = entry.deep_view();
        proof {
            assert(entries.deep_view()[i as int] == model);
        }
        if android_bucket(entry) {
            let name = entry.name.as_str();
            push_step(
                &mut ops,
                FsOp::CreateDirAll(path_of(anchor, "gen", Some("android"), Some(name), None)),
            );
            let ghost opened = ops.deep_view();
            let mut j: usize = 0;
            proof {
                assert(opened + bucket_moves(model, anchor, 0) =~= opened);
            }
            while j < entry.children.len()
                invariant
                    j <= entry.children@.len(),
                    model == entry.deep_view(),
                    model.children.len() == entry.children@.len(),
                    name@ == model.name,
                    ops.deep_view() == opened + bucket_moves(model, anchor, j as int),
                decreases entry.children@.len() - j,
            {
                let child = entry.children[j].as_str();
                proof {
                    assert(model.children[j as int] == child@);
                }
                let from = path_of(Anchor::Base, name, Some(child), None, None);
                let to = path_of(anchor, "gen", Some("android"), Some(name), Some(child));
                push_step(&mut ops, FsOp::Move { from, to });
                proof {
                    assert(ops.deep_view() =~= opened + bucket_moves(model, anchor, j + 1));
                }
                j = j + 1;
            }
            push_step(&mut ops, FsOp::RemoveDir(path_of(Anchor::Base, name, None, None, None)));
            proof {
                assert(ops.deep_view() =~= before + android_steps(model, anchor));
            }
        } else {
            proof {
                assert(ops.deep_view() =~= before + android_steps(model, anchor));
            }
        }
        proof {
            assert(android_preparation(anchor) + android_steps_upto(
                entries.deep_view(),
                anchor,
                i + 1,
            ) =~= before + android_steps(model, anchor));
        }
        i = i + 1;
    }
    ops
}

} // verus!
