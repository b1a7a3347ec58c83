//! Reporting which tools of the trade are present on the machine.

use crate::models::CheckResult;
use crate::text::{lemma_parts_view, lines, lines_of, to_chars, to_text, trim, trimmed};
use vstd::prelude::*;

verus! {

/// What probing the machine has found: for each tool the first line of its
/// version output, if it answered.
#[derive(Debug)]
pub struct EnvProbes {
    pub node: Option<String>,
    pub git: Option<String>,
    pub rust: Option<String>,
    pub cargo: Option<String>,
    /// Whether a bundled adb is configured.
    pub adb_bundled: bool,
    /// What the bundled adb answered, if it ran.
    pub adb_bundled_version: Option<String>,
    /// What an adb found on the system answered.
    pub adb_system_version: Option<String>,
    pub java: Option<String>,
    pub studio_found: bool,
    pub python: Option<String>,
    /// Whether the machine runs macOS, where Xcode can be looked for.
    pub on_macos: bool,
    pub xcode: Option<String>,
}

/// An optional text, as the contracts speak of it.
pub open spec fn text_model(text: Option<String>) -> Option<Seq<char>> {
    match text {
        Some(t) => Some(t@),
        None => None,
    }
}

/// A check, as the contracts speak of it.
pub struct CheckModel {
    pub name: Seq<char>,
    pub status: bool,
    pub version: Option<Seq<char>>,
    pub message: Option<Seq<char>>,
}

impl DeepView for CheckResult {
    type V = CheckModel;

    open spec fn deep_view(&self) -> CheckModel {
        CheckModel {
            name: self.name@,
            status: self.status,
            version: text_model(self.version),
            message: text_model(self.message),
        }
    }
}

/// The line that tells a tool's version: the first line of what it printed,
/// white space around the output left aside; of its error output if it
/// printed nothing else.
pub open spec fn version_line(stdout: Seq<char>, stderr: Seq<char>) -> Option<Seq<char>> {
    let said = if trimmed(stdout).len() > 0 {
        trimmed(stdout)
    } else {
        trimmed(stderr)
    };
    if lines(said).len() > 0 {
        Some(lines(said)[0])
    } else {
        None
    }
}

/// `version_line`, computed, for a tool that ran and reported success.
pub fn get_version(stdout: &str, stderr: &str) -> (version: Option<String>)
    ensures
        text_model(version) == version_line(stdout@, stderr@),
{
    let out = to_chars(stdout);
    let err = to_chars(stderr);
    let printed = trim(out.as_slice());
    let said = if printed.len() > 0 {
        printed
    } else {
        trim(err.as_slice())
    };
    let all = lines_of(said.as_slice());
    if all.len() > 0 {
        proof {
            lemma_parts_view(all, 0);
            assert(all@[0]@.subrange(0, all@[0]@.len() as int) =~= all@[0]@);
        }
        Some(to_text(all[0].as_slice(), 0, all[0].len()))
    } else {
        proof {
            assert(all.deep_view().len() == 0);
        }
        None
    }
}

/// The first line of a tool's output, as it stands.
pub fn first_line(output: &str) -> (line: Option<String>)
    ensures
        text_model(line) == if lines(output@).len() > 0 {
            Some(lines(output@)[0])
        } else {
            None
        },
{
    let chars = to_chars(output);
    let all = lines_of(chars.as_slice());
    if all.len() > 0 {
        proof {
            lemma_parts_view(all, 0);
            assert(all@[0]@.subrange(0, all@[0]@.len() as int) =~= all@[0]@);
        }
        Some(to_text(all[0].as_slice(), 0, all[0].len()))
    } else {
        proof {
            assert(all.deep_view().len() == 0);
        }
        None
    }
}

/// The check of a tool that is present exactly if it told its version;
/// `hint` is the message when it is missing.
pub open spec fn tool_model(name: Seq<char>, version: Option<Seq<char>>, hint: Option<Seq<char>>)
    -> CheckModel {
    CheckModel {
        name,
        status: version is Some,
        version,
        message: if version is None {
            hint
        } else {
            None
        },
    }
}

/// The check of adb. A bundled adb that ran is reported with its version; a
/// bundled adb that did not run is reported as present all the same, since
/// it will run once installed; failing both, an adb of the system counts.
pub open spec fn adb_model(
    bundled: bool,
    bundled_version: Option<Seq<char>>,
    system_version: Option<Seq<char>>,
) -> CheckModel {
    if bundled_version is Some {
        CheckModel {
            name: "ADB (Internal Bundle)"@,
            status: true,
            version: bundled_version,
            message: None,
        }
    } else if bundled {
        CheckModel {
            name: "ADB (Internal Bundle)"@,
            status: true,
            version: Some("Bundled (dev mode - DLL issue)"@),
            message: Some("Binary bundled. Will work in production build."@),
        }
    } else if system_version is Some {
        CheckModel { name: "ADB (System)"@, status: true, version: system_version, message: None }
    } else {
        CheckModel { name: "ADB"@, status: false, version: None, message: Some("ADB not found"@) }
    }
}

/// The check of Android Studio, which is looked for at its usual places.
pub open spec fn studio_model(found: bool) -> CheckModel {
    CheckModel {
        name: "Android Studio"@,
        status: found,
        version: if found {
            Some("Installed"@)
        } else {
            None
        },
        message: if found {
            None
        } else {
            Some("Install Android Studio for mobile development"@)
        },
    }
}

/// The check of Xcode, which only macOS can have.
pub open spec fn xcode_model(on_macos: bool, version: Option<Seq<char>>) -> CheckModel {
    if on_macos {
        tool_model("Xcode"@, version, Some("Required for iOS development"@))
    } else {
        CheckModel {
            name: "Xcode"@,
            status: false,
            version: None,
            message: Some("macOS required for iOS development"@),
        }
    }
}

/// The whole report, in the order in which it is shown.
pub open spec fn report_model(probes: EnvProbes) -> Seq<CheckModel> {
    seq![
        tool_model("Node.js"@, text_model(probes.node), None),
        tool_model("Git"@, text_model(probes.git), None),
        tool_model("Rust"@, text_model(probes.rust), None),
        tool_model("Cargo"@, text_model(probes.cargo), None),
        adb_model(
            probes.adb_bundled,
            text_model(probes.adb_bundled_version),
            text_model(probes.adb_system_version),
        ),
        tool_model(
            "Java (JDK)"@,
            text_model(probes.java),
            Some("Install JDK 17+ for Android builds"@),
        ),
        studio_model(probes.studio_found),
        tool_model("Python"@, text_model(probes.python), None),
        xcode_model(probes.on_macos, text_model(probes.xcode)),
    ]
}

/// `tool_model`, computed.
pub fn tool_check(name: &str, version: Option<String>, hint: Option<&str>) -> (check: CheckResult)
    ensures
        check.deep_view() == tool_model(
            name@,
            text_model(version),
            match hint {
                Some(h) => Some(h@),
                None => None,
            },
        ),
{
    let missing = version.is_none();
    CheckResult {
        name: String::from_str(name),
        status: !missing,
        version,
        message: if missing {
            match hint {
                Some(h) => Some(String::from_str(h)),
                None => None,
            }
        } else {
            None
        },
    }
}

/// `adb_model`, computed.
pub fn adb_check(bundled: bool, bundled_version: Option<String>, system_version: Option<String>)
    -> (check: CheckResult)
    ensures
        check.deep_view() == adb_model(
            bundled,
            text_model(bundled_version),
            text_model(system_version),
        ),
{
    if bundled_version.is_some() {
        CheckResult {
            name: String::from_str("ADB (Internal Bundle)"),
            status: true,
            version: bundled_version,
            message: None,
        }
    } else if bundled {
        CheckResult {
            name: String::from_str("ADB (Internal Bundle)"),
            status: true,
            version: Some(String::from_str("Bundled (dev mode - DLL issue)")),
            message: Some(String::from_str("Binary bundled. Will work in production build.")),
        }
    } else if system_version.is_some() {
        CheckResult {
            name: String::from_str("ADB (System)"),
            status: true,
            version: system_version,
            message: None,
        }
    } else {
        CheckResult {
            name: String::from_str("ADB"),
            status: false,
            version: None,
            message: Some(String::from_str("ADB not found")),
        }
    }
}

/// `studio_model`, computed.
pub fn studio_check(found: bool) -> (check: CheckResult)
    ensures
        check.deep_view() == studio_model(found),
{
    CheckResult {
        name: String::from_str("Android Studio"),
        status: found,
        version: if found {
            Some(String::from_str("Installed"))
        } else {
            None
        },
        message: if found {
            None
        } else {
            Some(String::from_str("Install Android Studio for mobile development"))
        },
    }
}

/// `xcode_model`, computed.
pub fn xcode_check(on_macos: bool, version: Option<String>) -> (check: CheckResult)
    ensures
        check.deep_view() == xcode_model(on_macos, text_model(version)),
{
    if on_macos {
        tool_check("Xcode", version, Some("Required for iOS development"))
    } else {
        CheckResult {
            name: String::from_str("Xcode"),
            status: false,
            version: None,
            message: Some(String::from_str("macOS required for iOS development")),
        }
    }
}

/// Makes the report on the development environment from what probing the
/// machine has found: Node.js, Git, Rust, Cargo, adb, Java, Android Studio,
/// Python and Xcode, in this order.
pub fn check_environment(probes: EnvProbes) -> (report: Vec<CheckResult>)
    ensures
        report.deep_view() == report_model(probes),
{
    let mut report: Vec<CheckResult> = Vec::new();
    report.push(tool_check("Node.js", probes.node, None));
    report.push(tool_check("Git", probes.git, None));
    report.push(tool_check("Rust", probes.rust, None));
    report.push(tool_check("Cargo", probes.cargo, None));
    report.push(
        adb_check(probes.adb_bundled, probes.adb_bundled_version, probes.adb_system_version),
    );
    report.push(
        tool_check("Java (JDK)", probes.java, Some("Install JDK 17+ for Android builds")),
    );
    report.push(studio_check(probes.studio_found));
    report.push(tool_check("Python", probes.python, None));
    report.push(xcode_check(probes.on_macos, probes.xcode));
    proof {
        assert(report.deep_view() =~= report_model(probes));
    }
    report
}

} // verus!
