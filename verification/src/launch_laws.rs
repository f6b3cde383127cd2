//! Laws of what is launched and where the spool lies.

use crate::launch::{
    asks_for_app_server, cli_step_of, configured_value, fault_text_of, is_first_usable, is_usable,
    line_end, package_path_of, trimmed_lines, usage_path_of, validated, Candidate, CliFault,
    CliSource, CliStep, UsagePath, CODEX_SIDEBAR_USAGE_FILE, CODEX_SIDEBAR_USAGE_PATH_ENV,
    CONFIG_DIRECTORY, REAL_CLI_PATH_ENV,
};
use crate::text::trimmed;
use vstd::prelude::*;

verus! {

/// The names of variables, of the spool and of its directory.
pub proof fn law_names()
    ensures
        REAL_CLI_PATH_ENV@ == "CC_SWITCH_CODEX_REAL_CLI_PATH"@,
        CODEX_SIDEBAR_USAGE_PATH_ENV@ == "CC_SWITCH_CODEX_SIDEBAR_USAGE_PATH"@,
        CODEX_SIDEBAR_USAGE_FILE@ == "codex-sidebar-usage.jsonl"@,
        CONFIG_DIRECTORY@ == ".cc-switch"@,
{
}

/// The app-server is asked for wherever its name stands among the arguments, and
/// nowhere else.
pub proof fn law_the_app_server_is_asked_for_by_name(args: Seq<String>, index: int)
    ensures
        0 <= index < args.len() && args[index]@ == "app-server"@ ==> asks_for_app_server(args),
        asks_for_app_server(args) ==> args.len() > 0,
        (forall|i: int| 0 <= i < args.len() ==> (#[trigger] args[i])@ != "app-server"@)
            ==> !asks_for_app_server(args),
{
}

/// A configured value counts where there is one and it is not empty.
pub proof fn law_empty_values_do_not_count<P>(value: Option<P>, is_empty: bool)
    ensures
        is_empty ==> configured_value(value, is_empty) is None,
        !is_empty ==> configured_value(value, is_empty) == value,
{
}

/// The spool is written at the configured path; else under the user profile;
/// else under the home directory; else nowhere.
pub proof fn law_the_spool_has_its_place<P>(
    value: Option<P>,
    is_empty: bool,
    profile: Option<P>,
    home: Option<P>,
)
    ensures
        ({
            let place = usage_path_of(value, is_empty, profile, home);
            &&& value is Some && !is_empty ==> place == Some(UsagePath::Configured(value->0))
            &&& (value is None || is_empty) && profile is Some ==> place == Some(
                UsagePath::UnderHome(profile->0),
            )
            &&& (value is None || is_empty) && profile is None && home is Some ==> place == Some(
                UsagePath::UnderHome(home->0),
            )
            &&& place is None <==> (value is None || is_empty) && profile is None && home is None
        }),
{
}

/// What is said of each fault.
pub proof fn law_faults_are_put_into_words(path: Seq<char>)
    ensures
        fault_text_of(CliFault::PointsBack, path) == "CC_SWITCH_CODEX_REAL_CLI_PATH"@
            + " points back to the bridge"@,
        fault_text_of(CliFault::Missing, path) == "real Codex CLI does not exist: "@ + path,
        fault_text_of(CliFault::NotFound, path) == "real Codex CLI not found; set "@
            + "CC_SWITCH_CODEX_REAL_CLI_PATH"@,
{
}

/// A program is accepted exactly where it is a file other than the bridge; that
/// it is the bridge is said first.
pub proof fn law_programs_are_files_other_than_the_bridge<P>(candidate: Candidate<P>)
    ensures
        validated(candidate) is Ok <==> candidate.is_file && !candidate.is_current,
        validated(candidate) matches Ok(path) ==> path == candidate.path,
        candidate.is_current ==> validated(candidate) == Err::<P, CliFault>(CliFault::PointsBack),
        !candidate.is_current && !candidate.is_file ==> validated(candidate) == Err::<P, CliFault>(
            CliFault::Missing,
        ),
{
}

/// A configured program must do. Without one, other systems than Windows leave
/// the search to the system, and Windows looks at the application that launched
/// the bridge.
pub proof fn law_the_configured_program_must_do<P>(found: Seq<Candidate<P>>, on_windows: bool)
    ensures
        ({
            let step = cli_step_of(CliSource::Configured, found, on_windows);
            &&& found.len() == 0 && !on_windows ==> step is UseDefault
            &&& found.len() == 0 && on_windows ==> step == CliStep::<P>::Look(
                CliSource::ParentApplication,
            )
            &&& found.len() > 0 && found[0].is_current ==> step == CliStep::<P>::Fail(
                CliFault::PointsBack,
            )
            &&& found.len() > 0 && !found[0].is_current && !found[0].is_file ==> step == CliStep::<
                P,
            >::Fail(CliFault::Missing)
            &&& found.len() > 0 && !found[0].is_current && found[0].is_file ==> step
                == CliStep::Use(found[0].path)
        }),
{
}

/// The launching application's program, and then the package's, is taken where
/// there is such a file, unless that is the bridge; where there is none, the next
/// place is looked at.
pub proof fn law_known_places_are_looked_at_in_order<P>(
    found: Seq<Candidate<P>>,
    on_windows: bool,
    package: bool,
)
    ensures
        ({
            let source = if package {
                CliSource::GlobalPackage
            } else {
                CliSource::ParentApplication
            };
            let next = if package {
                CliSource::SearchPath
            } else {
                CliSource::GlobalPackage
            };
            let step = cli_step_of(source, found, on_windows);
            &&& found.len() == 0 || !found[0].is_file ==> step == CliStep::<P>::Look(next)
            &&& found.len() > 0 && found[0].is_file && found[0].is_current ==> step == CliStep::<
                P,
            >::Fail(CliFault::PointsBack)
            &&& found.len() > 0 && found[0].is_file && !found[0].is_current ==> step
                == CliStep::Use(found[0].path)
        }),
{
}

/// Of the search path the first file other than the bridge is taken; without one
/// the search has failed.
pub proof fn law_the_first_program_on_the_search_path_is_taken<P>(
    found: Seq<Candidate<P>>,
    on_windows: bool,
    index: int,
)
    requires
        forall|j: int|
            0 <= j < index && j < found.len() ==> !(#[trigger] found[j]).is_file
                || found[j].is_current,
        index >= found.len() || 0 <= index && found[index].is_file && !found[index].is_current,
    ensures
        cli_step_of(CliSource::SearchPath, found, on_windows) == (if index < found.len() {
            CliStep::Use(found[index].path)
        } else {
            CliStep::Fail(CliFault::NotFound)
        }),
{
    if index < found.len() {
        assert(is_first_usable(found, index));
        let chosen = choose|i: int| is_first_usable(found, i);
        if chosen < index {
            assert(is_usable(found[chosen]));
        }
        if index < chosen {
            assert(!is_usable(found[index]));
        }
    } else {
        if exists|i: int| is_first_usable(found, i) {
            let i = choose|i: int| is_first_usable(found, i);
            assert(is_usable(found[i]));
        }
    }
}

/// The package's program has its place, for either architecture.
pub proof fn law_the_package_has_its_place(aarch64: bool)
    ensures
        ({
            let path = package_path_of(aarch64);
            &&& path.len() == 11
            &&& path[0] == "npm"@ && path[1] == "node_modules"@ && path[2] == "@openai"@
            &&& path[3] == "codex"@ && path[4] == "node_modules"@ && path[5] == "@openai"@
            &&& aarch64 ==> path[6] == "codex-win32-arm64"@ && path[8]
                == "aarch64-pc-windows-msvc"@
            &&& !aarch64 ==> path[6] == "codex-win32-x64"@ && path[8] == "x86_64-pc-windows-msvc"@
            &&& path[7] == "vendor"@ && path[9] == "bin"@ && path[10] == "codex.exe"@
        }),
{
}

/// A text without a line feed.
pub open spec fn no_line_feed(text: Seq<char>) -> bool {
    forall|i: int| 0 <= i < text.len() ==> #[trigger] text[i] != '\n'
}

/// The listed paths are the lines of the text, one by one, without the white
/// space around them; the last may lack its line feed.
pub proof fn law_each_line_lists_a_path(line: Seq<char>, rest: Seq<char>)
    requires
        no_line_feed(line),
    ensures
        trimmed_lines(line.push('\n') + rest) == seq![trimmed(line)] + trimmed_lines(rest),
        line.len() > 0 ==> trimmed_lines(line) == seq![trimmed(line)],
        trimmed_lines(Seq::empty()).len() == 0,
{
    let text = line.push('\n') + rest;
    lemma_line_end(line, rest);
    assert(text.take(line.len() as int) =~= line);
    assert(text.skip(line.len() as int + 1) =~= rest);
    lemma_no_line_end(line);
}

proof fn lemma_line_end(line: Seq<char>, rest: Seq<char>)
    requires
        no_line_feed(line),
    ensures
        line_end(line.push('\n') + rest) == line.len(),
    decreases line.len(),
{
    let text = line.push('\n') + rest;
    if line.len() > 0 {
        let shorter = line.drop_first();
        assert forall|i: int| 0 <= i < shorter.len() implies #[trigger] shorter[i] != '\n' by {
            assert(shorter[i] == line[i + 1]);
        }
        lemma_line_end(shorter, rest);
        assert(text.first() == line[0]);
        assert(text.drop_first() =~= shorter.push('\n') + rest);
    }
}

proof fn lemma_no_line_end(line: Seq<char>)
    requires
        no_line_feed(line),
    ensures
        line_end(line) == line.len(),
    decreases line.len(),
{
    if line.len() > 0 {
        let shorter = line.drop_first();
        assert forall|i: int| 0 <= i < shorter.len() implies #[trigger] shorter[i] != '\n' by {
            assert(shorter[i] == line[i + 1]);
        }
        lemma_no_line_end(shorter);
        assert(line.first() == line[0]);
    }
}

} // verus!
