use appforge::errors::IconError;
use appforge::layout::{
    after_step, anchor_for, android_bucket, ios_icon, move_android_icons, move_ios_icons, Anchor,
    FsOp, Listed, RelPath, StepOutcome,
};
use std::collections::BTreeSet;

fn file(name: &str) -> Listed {
    Listed { name: name.to_string(), is_dir: false, children: Vec::new() }
}

fn dir(name: &str, children: &[&str]) -> Listed {
    Listed {
        name: name.to_string(),
        is_dir: true,
        children: children.iter().map(|c| c.to_string()).collect(),
    }
}

fn show(path: &RelPath) -> String {
    let root = match path.anchor {
        Anchor::Base => "<base>",
        Anchor::Parent => "<parent>",
    };
    let mut text = root.to_string();
    for part in &path.parts {
        text.push('/');
        text.push_str(part);
    }
    text
}

fn render(ops: &[FsOp]) -> Vec<String> {
    ops.iter()
        .map(|op| match op {
            FsOp::CreateDirAll(p) => format!("mkdir {}", show(p)),
            FsOp::Move { from, to } => format!("mv {} {}", show(from), show(to)),
            FsOp::RemoveDir(p) => format!("rmdir {}", show(p)),
        })
        .collect()
}

/// A directory tree as a set of paths: directories end in a slash.
struct Tree {
    paths: BTreeSet<String>,
}

impl Tree {
    fn apply(&mut self, ops: &[FsOp]) {
        for op in ops {
            match op {
                FsOp::CreateDirAll(p) => {
                    let mut at = match p.anchor {
                        Anchor::Base => "<base>".to_string(),
                        Anchor::Parent => "<parent>".to_string(),
                    };
                    for part in &p.parts {
                        at.push('/');
                        at.push_str(part);
                        self.paths.insert(format!("{}/", at));
                    }
                }
                FsOp::Move { from, to } => {
                    let from = show(from);
                    let to = show(to);
                    let moved: Vec<String> = self
                        .paths
                        .iter()
                        .filter(|p| **p == from || p.starts_with(&format!("{}/", from)))
                        .cloned()
                        .collect();
                    assert!(!moved.is_empty(), "nothing to move at {}", from);
                    for path in moved {
                        self.paths.remove(&path);
                        self.paths.insert(format!("{}{}", to, &path[from.len()..]));
                    }
                }
                FsOp::RemoveDir(p) => {
                    let at = format!("{}/", show(p));
                    let holds = self.paths.iter().any(|q| q.starts_with(&at) && *q != at);
                    if !holds {
                        self.paths.remove(&at);
                    }
                }
            }
        }
    }

    fn list_base(&self, base: &str) -> Vec<Listed> {
        let lead = format!("{}/", base);
        let mut names: BTreeSet<(String, bool)> = BTreeSet::new();
        for path in &self.paths {
            if let Some(rest) = path.strip_prefix(&lead) {
                let mut parts = rest.split('/');
                let first = parts.next().unwrap();
                if first.is_empty() {
                    continue;
                }
                let is_dir = rest.len() > first.len();
                names.insert((first.to_string(), is_dir));
            }
        }
        names
            .into_iter()
            .filter(|(name, is_dir)| *is_dir || !self.paths.contains(&format!("{}/{}/", base, name)))
            .map(|(name, is_dir)| {
                let inner = format!("{}/{}/", base, name);
                let children: BTreeSet<String> = self
                    .paths
                    .iter()
                    .filter_map(|p| p.strip_prefix(&inner))
                    .filter(|rest| !rest.is_empty())
                    .map(|rest| rest.split('/').next().unwrap().to_string())
                    .collect();
                Listed { name, is_dir, children: children.into_iter().collect() }
            })
            .collect()
    }
}

#[test]
fn parent_is_chosen_by_the_leaf_name() {
    assert_eq!(anchor_for(Some("icons")), Anchor::Parent);
    assert_eq!(anchor_for(Some("icon")), Anchor::Base);
    assert_eq!(anchor_for(Some("Icons")), Anchor::Base);
    assert_eq!(anchor_for(Some("")), Anchor::Base);
    assert_eq!(anchor_for(None), Anchor::Base);
}

#[test]
fn ios_icons_are_files_with_the_conventional_name() {
    assert!(ios_icon(&file("AppIcon-20x20@1x.png")));
    assert!(ios_icon(&file("AppIcon-.png")));
    assert!(!ios_icon(&file("AppIcon-20x20@1x.jpg")));
    assert!(!ios_icon(&file("appicon-20x20@1x.png")));
    assert!(!ios_icon(&file("AppIcon.png")));
    assert!(!ios_icon(&file("icon.png")));
    assert!(!ios_icon(&file("")));
    assert!(!ios_icon(&dir("AppIcon-20x20@1x.png", &[])));
}

#[test]
fn android_buckets_are_directories_named_mipmap() {
    assert!(android_bucket(&dir("mipmap-mdpi", &[])));
    assert!(android_bucket(&dir("mipmap-", &[])));
    assert!(android_bucket(&dir("mipmap-anydpi-v26", &["ic_launcher.xml"])));
    assert!(!android_bucket(&file("mipmap-mdpi")));
    assert!(!android_bucket(&dir("mipmap", &[])));
    assert!(!android_bucket(&dir("gen", &[])));
    assert!(!android_bucket(&dir("Mipmap-mdpi", &[])));
}

#[test]
fn ios_plan_moves_matching_files_only() {
    let listing = vec![
        file("32x32.png"),
        file("AppIcon-20x20@1x.png"),
        dir("mipmap-mdpi", &["icon.png"]),
        file("AppIcon-512@2x.png"),
        file("icon.icns"),
    ];
    let ops = move_ios_icons(Some("icons"), &listing);
    assert_eq!(
        render(&ops),
        vec![
            "mkdir <parent>/gen/apple",
            "mv <base>/AppIcon-20x20@1x.png <parent>/gen/apple/AppIcon-20x20@1x.png",
            "mv <base>/AppIcon-512@2x.png <parent>/gen/apple/AppIcon-512@2x.png",
        ]
    );
    let inside = move_ios_icons(Some("out"), &listing);
    assert_eq!(render(&inside)[0], "mkdir <base>/gen/apple");
    assert_eq!(
        render(&inside)[1],
        "mv <base>/AppIcon-20x20@1x.png <base>/gen/apple/AppIcon-20x20@1x.png"
    );
    assert_eq!(render(&move_ios_icons(None, &Vec::new())), vec!["mkdir <base>/gen/apple"]);
}

#[test]
fn android_plan_empties_and_removes_each_bucket() {
    let listing = vec![
        file("icon.png"),
        dir("mipmap-hdpi", &["ic_launcher.png", "ic_launcher_round.png"]),
        file("mipmap-readme"),
        dir("mipmap-anydpi-v26", &[]),
    ];
    let ops = move_android_icons(Some("icons"), &listing);
    assert_eq!(
        render(&ops),
        vec![
            "mkdir <parent>/gen/android/mipmap-mdpi",
            "mkdir <parent>/gen/android/mipmap-hdpi",
            "mkdir <parent>/gen/android/mipmap-xhdpi",
            "mkdir <parent>/gen/android/mipmap-xxhdpi",
            "mkdir <parent>/gen/android/mipmap-xxxhdpi",
            "mkdir <parent>/gen/android/mipmap-hdpi",
            "mv <base>/mipmap-hdpi/ic_launcher.png <parent>/gen/android/mipmap-hdpi/ic_launcher.png",
            "mv <base>/mipmap-hdpi/ic_launcher_round.png <parent>/gen/android/mipmap-hdpi/ic_launcher_round.png",
            "rmdir <base>/mipmap-hdpi",
            "mkdir <parent>/gen/android/mipmap-anydpi-v26",
            "rmdir <base>/mipmap-anydpi-v26",
        ]
    );
}

#[test]
fn android_migration_of_the_five_densities() {
    let densities = ["mdpi", "hdpi", "xhdpi", "xxhdpi", "xxxhdpi"];
    let mut tree = Tree { paths: BTreeSet::new() };
    tree.paths.insert("<parent>/icons/".to_string());
    // the output directory is <parent>/icons, known to the plan as <base>
    tree.paths.insert("<base>/".to_string());
    for d in densities {
        tree.paths.insert(format!("<base>/mipmap-{}/", d));
        tree.paths.insert(format!("<base>/mipmap-{}/icon.png", d));
    }
    let listing = tree.list_base("<base>");
    assert_eq!(listing.len(), 5);
    let ops = move_android_icons(Some("icons"), &listing);
    tree.apply(&ops);
    for d in densities {
        assert!(tree.paths.contains(&format!("<parent>/gen/android/mipmap-{}/icon.png", d)));
        assert!(!tree.paths.contains(&format!("<base>/mipmap-{}/", d)));
        assert!(!tree.paths.contains(&format!("<base>/mipmap-{}/icon.png", d)));
    }
    assert!(tree.list_base("<base>").is_empty());
}

#[test]
fn second_android_run_changes_nothing() {
    let mut tree = Tree { paths: BTreeSet::new() };
    tree.paths.insert("<base>/".to_string());
    tree.paths.insert("<base>/icon.png".to_string());
    for d in ["mdpi", "xxhdpi"] {
        tree.paths.insert(format!("<base>/mipmap-{}/", d));
        tree.paths.insert(format!("<base>/mipmap-{}/ic_launcher.png", d));
    }
    // the output directory is not named icons: the layout goes inside it
    let first = move_android_icons(Some("out"), &tree.list_base("<base>"));
    tree.apply(&first);
    let after_first = tree.paths.clone();
    assert!(after_first.contains("<base>/gen/android/mipmap-xxhdpi/ic_launcher.png"));
    assert!(after_first.contains("<base>/icon.png"));
    let second = move_android_icons(Some("out"), &tree.list_base("<base>"));
    assert!(second.iter().all(|op| matches!(op, FsOp::CreateDirAll(_))));
    assert_eq!(second.len(), 5);
    tree.apply(&second);
    assert_eq!(tree.paths, after_first);
}

#[test]
fn second_ios_run_changes_nothing() {
    let mut tree = Tree { paths: BTreeSet::new() };
    tree.paths.insert("<base>/".to_string());
    for name in ["AppIcon-20x20@1x.png", "AppIcon-29x29@2x.png", "icon.ico"] {
        tree.paths.insert(format!("<base>/{}", name));
    }
    let first = move_ios_icons(None, &tree.list_base("<base>"));
    assert_eq!(first.len(), 3);
    tree.apply(&first);
    let after_first = tree.paths.clone();
    assert!(after_first.contains("<base>/gen/apple/AppIcon-20x20@1x.png"));
    assert!(after_first.contains("<base>/icon.ico"));
    assert_eq!(after_first.iter().filter(|p| p.contains("AppIcon-")).count(), 2);
    let second = move_ios_icons(None, &tree.list_base("<base>"));
    assert_eq!(render(&second), vec!["mkdir <base>/gen/apple"]);
    tree.apply(&second);
    assert_eq!(tree.paths, after_first);
}

#[test]
fn a_missing_source_is_passed_over() {
    let listing = vec![file("AppIcon-20x20@1x.png")];
    let ops = move_ios_icons(Some("icons"), &listing);
    assert!(after_step(&ops[0], StepOutcome::Done).is_ok());
    assert!(after_step(&ops[1], StepOutcome::Done).is_ok());
    assert!(after_step(&ops[1], StepOutcome::Missing).is_ok());
    match after_step(&ops[1], StepOutcome::Failed("permission denied".to_string())) {
        Err(IconError::MigrationFailure(reason)) => assert_eq!(reason, "permission denied"),
        other => panic!("unexpected: {:?}", other),
    }
    assert!(matches!(
        after_step(&ops[0], StepOutcome::Failed("read-only".to_string())),
        Err(IconError::MigrationFailure(_))
    ));
    assert!(matches!(
        after_step(&ops[0], StepOutcome::Missing),
        Err(IconError::MigrationFailure(_))
    ));
}

#[test]
fn a_directory_that_stays_is_no_failure() {
    let listing = vec![dir("mipmap-mdpi", &["icon.png"])];
    let ops = move_android_icons(None, &listing);
    let remove = ops.last().unwrap();
    assert!(matches!(remove, FsOp::RemoveDir(_)));
    assert!(after_step(remove, StepOutcome::Failed("not empty".to_string())).is_ok());
    assert!(after_step(remove, StepOutcome::Missing).is_ok());
    assert!(after_step(remove, StepOutcome::Done).is_ok());
}
