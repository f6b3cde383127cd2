//! Which program the bridge launches, and where the spool lies.
//!
//! Paths are of the application's own type: what is decided here depends on
//! what the file system says of them, not on their text.

use crate::text::{text_views, trimmed};
use vstd::prelude::*;

verus! {

/// The variable that names the real Codex program.
pub const REAL_CLI_PATH_ENV: &'static str = "CC_SWITCH_CODEX_REAL_CLI_PATH";

/// The variable that names the spool.
pub const CODEX_SIDEBAR_USAGE_PATH_ENV: &'static str = "CC_SWITCH_CODEX_SIDEBAR_USAGE_PATH";

/// The spool's file name.
pub const CODEX_SIDEBAR_USAGE_FILE: &'static str = "codex-sidebar-usage.jsonl";

/// The directory under the home directory that holds the spool.
pub const CONFIG_DIRECTORY: &'static str = ".cc-switch";

/// Some argument asks for the app-server.
pub open spec fn asks_for_app_server(args: Seq<String>) -> bool {
    exists|i: int| 0 <= i < args.len() && (#[trigger] args[i])@ == "app-server"@
}

/// Whether some argument asks for the app-server, whose messages are observed.
pub fn wants_app_server(args: &Vec<String>) -> (wanted: bool)
    ensures
        wanted == asks_for_app_server(args@),
{
    let mut i: usize = 0;
    while i < args.len()
        invariant
            i <= args@.len(),
            forall|j: int| 0 <= j < i ==> (#[trigger] args@[j])@ != "app-server"@,
        decreases args@.len() - i,
    {
        if args[i].as_str().eq("app-server") {
            return true;
        }
        i = i + 1;
    }
    false
}

/// A configured value counts only where it is not empty.
pub open spec fn configured_value<P>(value: Option<P>, is_empty: bool) -> Option<P> {
    if is_empty {
        None
    } else {
        value
    }
}

/// A configured value, where it is not empty.
pub fn configured<P>(value: Option<P>, is_empty: bool) -> (result: Option<P>)
    ensures
        result == configured_value(value, is_empty),
{
    if is_empty {
        None
    } else {
        value
    }
}

/// Where the import looks for the spool: at the configured path, or else at the
/// default one.
pub fn sidebar_usage_path<P>(value: Option<P>, is_empty: bool, default: P) -> (path: P)
    ensures
        path == (match configured_value(value, is_empty) {
            Some(path) => path,
            None => default,
        }),
{
    match configured(value, is_empty) {
        Some(path) => path,
        None => default,
    }
}

/// Where the bridge writes the spool.
pub enum UsagePath<P> {
    /// At the configured path.
    Configured(P),
    /// In the configuration directory under a home directory.
    UnderHome(P),
}

/// Where the bridge writes the spool: at the configured path, or else under the
/// user profile, or else under the home directory; nowhere where none is known.
pub open spec fn usage_path_of<P>(
    value: Option<P>,
    is_empty: bool,
    user_profile: Option<P>,
    home: Option<P>,
) -> Option<UsagePath<P>> {
    match (configured_value(value, is_empty), user_profile, home) {
        (Some(path), _, _) => Some(UsagePath::Configured(path)),
        (None, Some(profile), _) => Some(UsagePath::UnderHome(profile)),
        (None, None, Some(home)) => Some(UsagePath::UnderHome(home)),
        (None, None, None) => None,
    }
}

/// Where the bridge writes the spool.
pub fn usage_path<P>(
    value: Option<P>,
    is_empty: bool,
    user_profile: Option<P>,
    home: Option<P>,
) -> (path: Option<UsagePath<P>>)
    ensures
        path == usage_path_of(value, is_empty, user_profile, home),
{
    match configured(value, is_empty) {
        Some(path) => Some(UsagePath::Configured(path)),
        None => match user_profile {
            Some(profile) => Some(UsagePath::UnderHome(profile)),
            None => match home {
                Some(home) => Some(UsagePath::UnderHome(home)),
                None => None,
            },
        },
    }
}

/// Why there is no program to launch.
#[derive(Debug, Clone, Copy, PartialEq, Eq, Structural)]
pub enum CliFault {
    /// The program found is the bridge itself.
    PointsBack,
    /// The program named does not exist.
    Missing,
    /// No program was found anywhere.
    NotFound,
}

/// What is said of a fault, where `path` is the path in words.
pub open spec fn fault_text_of(fault: CliFault, path: Seq<char>) -> Seq<char> {
    match fault {
        CliFault::PointsBack => REAL_CLI_PATH_ENV@ + " points back to the bridge"@,
        CliFault::Missing => "real Codex CLI does not exist: "@ + path,
        CliFault::NotFound => "real Codex CLI not found; set "@ + REAL_CLI_PATH_ENV@,
    }
}

/// What is said of a fault, where `path` is the path in words.
pub fn fault_text(fault: CliFault, path: &str) -> (text: String)
    ensures
        text@ == fault_text_of(fault, path@),
{
    match fault {
        CliFault::PointsBack => {
            let mut text = REAL_CLI_PATH_ENV.to_owned();
            text.append(" points back to the bridge");
            text
        },
        CliFault::Missing => {
            let mut text = "real Codex CLI does not exist: ".to_owned();
            text.append(path);
            text
        },
        CliFault::NotFound => {
            let mut text = "real Codex CLI not found; set ".to_owned();
            text.append(REAL_CLI_PATH_ENV);
            text
        },
    }
}

/// A program that may be the real one, and what the file system says of it.
#[derive(Debug)]
pub struct Candidate<P> {
    pub path: P,
    /// It is the bridge itself.
    pub is_current: bool,
    /// It is a file.
    pub is_file: bool,
}

/// The candidate's path, or what is wrong with it.
pub open spec fn validated<P>(candidate: Candidate<P>) -> Result<P, CliFault> {
    if candidate.is_current {
        Err(CliFault::PointsBack)
    } else if !candidate.is_file {
        Err(CliFault::Missing)
    } else {
        Ok(candidate.path)
    }
}

/// The candidate's path, or what is wrong with it.
pub fn validate_real_cli<P>(candidate: Candidate<P>) -> (result: Result<P, CliFault>)
    ensures
        result == validated(candidate),
{
    if candidate.is_current {
        return Err(CliFault::PointsBack);
    }
    if !candidate.is_file {
        return Err(CliFault::Missing);
    }
    Ok(candidate.path)
}

/// Whether a path is the bridge's own: the resolved paths decide, where
/// `resolved_equal` says that both could be resolved and whether they are equal,
/// or else the paths as they are. Without a path of its own the bridge is
/// nowhere.
pub fn is_current_executable(
    current_known: bool,
    resolved_equal: Option<bool>,
    plain_equal: bool,
) -> (result: bool)
    ensures
        result == (current_known && match resolved_equal {
            Some(equal) => equal,
            None => plain_equal,
        }),
{
    if !current_known {
        return false;
    }
    match resolved_equal {
        Some(equal) => equal,
        None => plain_equal,
    }
}

/// A place to look for the real program.
#[derive(Debug, Clone, Copy, PartialEq, Eq, Structural)]
pub enum CliSource {
    /// The configured path.
    Configured,
    /// The resources of the application that launched the bridge.
    ParentApplication,
    /// The globally installed package.
    GlobalPackage,
    /// The search path.
    SearchPath,
}

/// What follows from what was found in a place.
#[derive(Debug)]
pub enum CliStep<P> {
    /// This program is launched.
    Use(P),
    /// The program `codex` is launched, wherever the system finds it.
    UseDefault,
    /// There is no program to launch.
    Fail(CliFault),
    /// Another place is looked at.
    Look(CliSource),
}

/// What follows from a candidate that must do.
pub open spec fn settled_by<P>(candidate: Candidate<P>) -> CliStep<P> {
    match validated(candidate) {
        Ok(path) => CliStep::Use(path),
        Err(fault) => CliStep::Fail(fault),
    }
}

/// The candidate is a program other than the bridge.
pub open spec fn is_usable<P>(candidate: Candidate<P>) -> bool {
    candidate.is_file && !candidate.is_current
}

/// Number `index` is the first candidate that is a program other than the
/// bridge.
pub open spec fn is_first_usable<P>(found: Seq<Candidate<P>>, index: int) -> bool {
    &&& 0 <= index < found.len()
    &&& is_usable(found[index])
    &&& forall|j: int| 0 <= j < index ==> !is_usable(#[trigger] found[j])
}

/// What follows from what was found in a place. A configured path must do.
/// Elsewhere there are places to look at on Windows alone, in order; there a
/// file must do, and of the search path the first program other than the
/// bridge is taken.
pub open spec fn cli_step_of<P>(
    source: CliSource,
    found: Seq<Candidate<P>>,
    on_windows: bool,
) -> CliStep<P> {
    match source {
        CliSource::Configured => if found.len() > 0 {
            settled_by(found[0])
        } else if on_windows {
            CliStep::Look(CliSource::ParentApplication)
        } else {
            CliStep::UseDefault
        },
        CliSource::ParentApplication => if found.len() > 0 && found[0].is_file {
            settled_by(found[0])
        } else {
            CliStep::Look(CliSource::GlobalPackage)
        },
        CliSource::GlobalPackage => if found.len() > 0 && found[0].is_file {
            settled_by(found[0])
        } else {
            CliStep::Look(CliSource::SearchPath)
        },
        CliSource::SearchPath => if exists|index: int| is_first_usable(found, index) {
            CliStep::Use(found[choose|index: int| is_first_usable(found, index)].path)
        } else {
            CliStep::Fail(CliFault::NotFound)
        },
    }
}

/// Takes the candidate that must do.
fn settle<P>(found: Vec<Candidate<P>>) -> (step: CliStep<P>)
    requires
        found@.len() > 0,
    ensures
        step == settled_by(found@[0]),
{
    let mut found = found;
    let candidate = found.remove(0);
    match validate_real_cli(candidate) {
        Ok(path) => CliStep::Use(path),
        Err(fault) => CliStep::Fail(fault),
    }
}

/// Takes what was found in a place one step further towards the real program.
pub fn resolve_real_cli<P>(
    source: CliSource,
    found: Vec<Candidate<P>>,
    on_windows: bool,
) -> (step: CliStep<P>)
    ensures
        step == cli_step_of(source, found@, on_windows),
{
    match source {
        CliSource::Configured => if found.len() > 0 {
            settle(found)
        } else if on_windows {
            CliStep::Look(CliSource::ParentApplication)
        } else {
            CliStep::UseDefault
        },
        CliSource::ParentApplication => if found.len() > 0 && found[0].is_file {
            settle(found)
        } else {
            CliStep::Look(CliSource::GlobalPackage)
        },
        CliSource::GlobalPackage => if found.len() > 0 && found[0].is_file {
            settle(found)
        } else {
            CliStep::Look(CliSource::SearchPath)
        },
        CliSource::SearchPath => {
            let mut i: usize = 0;
            while i < found.len()
                invariant
                    source is SearchPath,
                    i <= found@.len(),
                    forall|j: int| 0 <= j < i ==> !is_usable(#[trigger] found@[j]),
                decreases found@.len() - i,
            {
                if found[i].is_file && !found[i].is_current {
                    proof {
                        assert(is_first_usable(found@, i as int));
                        let chosen = choose|index: int| is_first_usable(found@, index);
                        assert(chosen == i) by {
                            if chosen < i {
                                assert(!is_usable(found@[chosen]));
                            }
                            if i < chosen {
                                assert(!is_usable(found@[i as int]));
                            }
                        }
                    }
                    let mut found = found;
                    let candidate = found.remove(i);
                    return CliStep::Use(candidate.path);
                }
                i = i + 1;
            }
            CliStep::Fail(CliFault::NotFound)
        },
    }
}

/// The bridge is never what the bridge launches by its path, whatever is found.
pub proof fn law_the_bridge_does_not_launch_itself<P>(
    source: CliSource,
    found: Seq<Candidate<P>>,
    on_windows: bool,
)
    ensures
        cli_step_of(source, found, on_windows) matches CliStep::Use(path) ==> exists|i: int|
            0 <= i < found.len() && is_usable(#[trigger] found[i]) && found[i].path == path,
{
    match cli_step_of(source, found, on_windows) {
        CliStep::Use(path) => {
            if source is SearchPath {
                let i = choose|index: int| is_first_usable(found, index);
                assert(is_usable(found[i]));
            } else {
                assert(is_usable(found[0]));
            }
        },
        _ => {},
    }
}

/// How many more places there may be to look at.
pub open spec fn places_left(source: CliSource) -> nat {
    match source {
        CliSource::Configured => 3,
        CliSource::ParentApplication => 2,
        CliSource::GlobalPackage => 1,
        CliSource::SearchPath => 0,
    }
}

/// The search for the real program ends.
pub proof fn law_the_search_ends<P>(
    source: CliSource,
    found: Seq<Candidate<P>>,
    on_windows: bool,
)
    ensures
        cli_step_of(source, found, on_windows) matches CliStep::Look(next) ==> places_left(next)
            < places_left(source),
{
}

/// The globally installed program's path below the application data directory,
/// directory by directory.
pub open spec fn package_path_of(aarch64: bool) -> Seq<Seq<char>> {
    seq![
        "npm"@,
        "node_modules"@,
        "@openai"@,
        "codex"@,
        "node_modules"@,
        "@openai"@,
        if aarch64 {
            "codex-win32-arm64"@
        } else {
            "codex-win32-x64"@
        },
        "vendor"@,
        if aarch64 {
            "aarch64-pc-windows-msvc"@
        } else {
            "x86_64-pc-windows-msvc"@
        },
        "bin"@,
        "codex.exe"@,
    ]
}

/// The characters of a list of string slices.
pub open spec fn slice_views(texts: Seq<&str>) -> Seq<Seq<char>> {
    Seq::new(texts.len(), |i: int| texts[i]@)
}

/// The globally installed program's path below the application data directory,
/// directory by directory.
pub fn npm_codex_candidate(aarch64: bool) -> (path: Vec<&'static str>)
    ensures
        slice_views(path@) == package_path_of(aarch64),
{
    let package = if aarch64 {
        "codex-win32-arm64"
    } else {
        "codex-win32-x64"
    };
    let target = if aarch64 {
        "aarch64-pc-windows-msvc"
    } else {
        "x86_64-pc-windows-msvc"
    };
    let path: Vec<&'static str> = vec![
        "npm",
        "node_modules",
        "@openai",
        "codex",
        "node_modules",
        "@openai",
        package,
        "vendor",
        target,
        "bin",
        "codex.exe",
    ];
    assert(slice_views(path@) =~= package_path_of(aarch64));
    path
}

/// Where the first line feed stands, or the length where there is none.
pub open spec fn line_end(text: Seq<char>) -> nat
    decreases text.len(),
{
    if text.len() == 0 || text.first() == '\n' {
        0
    } else {
        1 + line_end(text.drop_first())
    }
}

/// The lines of a text, without the white space at their ends. Text after the
/// last line feed is a line too.
pub open spec fn trimmed_lines(text: Seq<char>) -> Seq<Seq<char>>
    decreases text.len(),
{
    let end = line_end(text) as int;
    if text.len() == 0 {
        Seq::empty()
    } else if end < text.len() {
        seq![trimmed(text.take(end))] + trimmed_lines(text.skip(end + 1))
    } else {
        seq![trimmed(text)]
    }
}

/// Where the line ends that starts at `start`.
fn find_line_end(text: &str, start: usize, count: usize) -> (end: usize)
    requires
        start <= count,
        count == text@.len(),
    ensures
        start <= end <= count,
        end - start == line_end(text@.skip(start as int)),
{
    let mut end: usize = start;
    while end < count && text.get_char(end) != '\n'
        invariant
            start <= end <= count,
            count == text@.len(),
            line_end(text@.skip(start as int)) == end - start + line_end(text@.skip(end as int)),
        decreases count - end,
    {
        assert(text@.skip(end as int).drop_first() =~= text@.skip(end + 1));
        end = end + 1;
    }
    end
}

/// The paths that a search of the search path lists, one per line.
pub fn listed_paths(text: &str) -> (paths: Vec<String>)
    ensures
        text_views(paths@) == trimmed_lines(text@),
{
    let count: usize = text.unicode_len();
    let mut paths: Vec<String> = Vec::new();
    let mut start: usize = 0;
    assert(text@.skip(0) =~= text@);
    while start < count
        invariant
            start <= count,
            count == text@.len(),
            trimmed_lines(text@) =~= text_views(paths@) + trimmed_lines(
                text@.skip(start as int),
            ),
        decreases count - start,
    {
        let ghost rest = text@.skip(start as int);
        let ghost before = text_views(paths@);
        let end = find_line_end(text, start, count);
        let line = text.substring_char(start, end);
        proof {
            assert(line@ =~= rest.take(end - start));
        }
        let path = line.trim().to_owned();
        let ghost view = path@;
        paths.push(path);
        assert(text_views(paths@) =~= before.push(view));
        if end < count {
            assert(text@.skip(end + 1) =~= rest.skip(end - start + 1));
            start = end + 1;
        } else {
            assert(rest.take(end - start) =~= rest);
            start = count;
        }
    }
    assert(text@.skip(start as int).len() == 0);
    assert(trimmed_lines(text@.skip(start as int)) =~= Seq::<Seq<char>>::empty());
    paths
}

} // verus!
