//! Preparing a command of the project for running.

use crate::text::{lowercase, same_text, starts_with, to_chars, to_lowercase};
use vstd::prelude::*;

verus! {

/// Whether a variable of the environment, its name in lower case, is handed
/// on to a command: the settings that a package manager has left behind for
/// its own scripts are not.
pub open spec fn is_kept(lowered: Seq<char>) -> bool {
    !"npm_config_"@.is_prefix_of(lowered) && !"npm_package_"@.is_prefix_of(lowered)
        && !"npm_lifecycle_"@.is_prefix_of(lowered) && !"pnpm_"@.is_prefix_of(lowered) && lowered
        != "init_cwd"@ && lowered != "npm_execpath"@
}

/// `is_kept`, computed.
pub fn keeps_lowered(lowered: &str) -> (yes: bool)
    ensures
        yes == is_kept(lowered@),
{
    let name = to_chars(lowered);
    let config = to_chars("npm_config_");
    let package = to_chars("npm_package_");
    let lifecycle = to_chars("npm_lifecycle_");
    let pnpm = to_chars("pnpm_");
    !starts_with(name.as_slice(), config.as_slice()) && !starts_with(
        name.as_slice(),
        package.as_slice(),
    ) && !starts_with(name.as_slice(), lifecycle.as_slice()) && !starts_with(
        name.as_slice(),
        pnpm.as_slice(),
    ) && !same_text(lowered, "init_cwd") && !same_text(lowered, "npm_execpath")
}

/// Whether a variable of the environment is handed on to a command,
/// whatever the case of its name.
pub fn keeps_variable(name: &str) -> (yes: bool)
    ensures
        yes == is_kept(lowercase(name@)),
{
    let lowered = to_lowercase(name);
    keeps_lowered(lowered.as_str())
}

/// The program to start and its arguments: on Windows the command
/// interpreter with `/C`, the command and its arguments; elsewhere the
/// command itself.
pub fn command_line(command: String, args: Vec<String>, on_windows: bool) -> (r: (
    String,
    Vec<String>,
))
    ensures
        r.0@ == if on_windows {
            "cmd"@
        } else {
            command@
        },
        r.1.deep_view() == if on_windows {
            seq!["/C"@, command@] + args.deep_view()
        } else {
            args.deep_view()
        },
{
    if !on_windows {
        return (command, args);
    }
    let mut all: Vec<String> = Vec::new();
    all.push(String::from_str("/C"));
    all.push(command);
    let mut i: usize = 0;
    proof {
        assert(all.deep_view() =~= seq!["/C"@, command@] + args.deep_view().take(0));
    }
    while i < args.len()
        invariant
            i <= args@.len(),
            args.deep_view().len() == args@.len(),
            all.deep_view() == seq!["/C"@, command@] + args.deep_view().take(i as int),
        decreases args@.len() - i,
    {
        let ghost before = all.deep_view();
        all.push(args[i].clone());
        proof {
            assert(all.deep_view() =~= before.push(args@[i as int]@));
            assert(args.deep_view()[i as int] == args@[i as int]@);
            assert(before.push(args@[i as int]@) =~= seq!["/C"@, command@] + args.deep_view().take(
                i + 1,
            ));
        }
        i = i + 1;
    }
    proof {
        assert(args.deep_view().take(args@.len() as int) =~= args.deep_view());
    }
    (String::from_str("cmd"), all)
}

} // verus!
