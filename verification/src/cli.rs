//! Command-line decisions: the `cargo <tool>` argument form and the built-in
//! commands an application's CLI answers.

use vstd::prelude::*;
use vstd::string::*;
use crate::text::{str_eq, strings_view};

verus! {

/// The arguments as the tool sees them: when cargo runs `cargo-<sub> <sub> ..`,
/// the repeated subcommand name is dropped.
pub open spec fn spec_normalize_cargo_args(raw: Seq<Seq<char>>, sub: Seq<char>) -> Seq<Seq<char>> {
    if raw.len() > 1 && raw[1] == sub {
        seq![raw[0]] + raw.skip(2)
    } else {
        raw
    }
}

/// Drop the subcommand name that `cargo <sub>` passes as the first argument.
pub fn normalize_cargo_args(raw: Vec<String>, sub: &str) -> (r: Vec<String>)
    ensures
        strings_view(r@) == spec_normalize_cargo_args(strings_view(raw@), sub@),
{
    if raw.len() > 1 && str_eq(raw[1].as_str(), sub) {
        let ghost rv = strings_view(raw@);
        let mut out: Vec<String> = Vec::new();
        out.push(raw[0].clone());
        let mut i: usize = 2;
        while i < raw.len()
            invariant
                rv == strings_view(raw@),
                rv.len() > 1,
                2 <= i <= rv.len(),
                strings_view(out@) == seq![rv[0]] + rv.subrange(2, i as int),
            decreases raw@.len() - i,
        {
            let ghost before = out@;
            let x = raw[i].clone();
            let ghost xv = x@;
            out.push(x);
            assert(strings_view(out@) =~= strings_view(before).push(xv));
            assert(rv.subrange(2, i + 1) =~= rv.subrange(2, i as int).push(rv[i as int]));
            i = i + 1;
        }
        assert(rv.skip(2) =~= rv.subrange(2, i as int));
        out
    } else {
        raw
    }
}

/// What an application's CLI does with its arguments.
#[derive(Debug)]
pub enum CliAction {
    /// No arguments: not a command, serve as usual.
    NotACommand,
    /// A command the application registered: run it with the other arguments.
    Custom,
    /// Run the registered checks.
    Check,
    /// Print the route table.
    Routes,
    /// List the installed plugins.
    Plugins,
    /// Write the OpenAPI document to this path.
    OpenApi(String),
    /// `openapi` without `--out <path>`.
    OpenApiMissingOut,
    /// Point at the task endpoints.
    Tasks,
    /// Print the missing translations.
    I18nMissing,
    /// Not a command this CLI knows.
    Unknown,
}

/// The position of the first `--out`.
pub open spec fn out_flag_at(args: Seq<Seq<char>>, i: int) -> bool {
    0 <= i < args.len() && args[i] == "--out"@ && forall|j: int| 0 <= j < i ==> args[j] != "--out"@
}

/// The path after the first `--out`, if there is one.
pub open spec fn openapi_out(args: Seq<Seq<char>>) -> Option<Seq<char>> {
    if exists|i: int| out_flag_at(args, i) {
        let i = choose|i: int| out_flag_at(args, i);
        if i + 1 < args.len() {
            Some(args[i + 1])
        } else {
            None
        }
    } else {
        None
    }
}

/// The action for the arguments (`is_custom`: the first one names a registered command).
pub open spec fn cli_action_matches(r: CliAction, args: Seq<Seq<char>>, is_custom: bool) -> bool {
    if args.len() == 0 {
        r is NotACommand
    } else if is_custom {
        r is Custom
    } else {
        let cmd = args[0];
        if cmd == "check"@ {
            r is Check
        } else if cmd == "routes"@ {
            r is Routes
        } else if cmd == "plugins"@ {
            r is Plugins
        } else if cmd == "openapi"@ {
            match openapi_out(args) {
                Some(p) => r matches CliAction::OpenApi(x) && x@ == p,
                None => r is OpenApiMissingOut,
            }
        } else if cmd == "tasks"@ {
            r is Tasks
        } else if cmd == "i18n"@ && args.len() > 1 && args[1] == "missing"@ {
            r is I18nMissing
        } else {
            r is Unknown
        }
    }
}

/// Decide what the application's CLI does with its arguments.
pub fn cli_action(args: &Vec<String>, is_custom: bool) -> (r: CliAction)
    ensures
        cli_action_matches(r, strings_view(args@), is_custom),
{
    let ghost a = strings_view(args@);
    if args.len() == 0 {
        return CliAction::NotACommand;
    }
    if is_custom {
        return CliAction::Custom;
    }
    let cmd = args[0].as_str();
    assert(cmd@ == a[0]);
    proof {
        reveal_strlit("openapi");
        reveal_strlit("check");
        reveal_strlit("routes");
        reveal_strlit("plugins");
    }
    if str_eq(cmd, "check") {
        CliAction::Check
    } else if str_eq(cmd, "routes") {
        CliAction::Routes
    } else if str_eq(cmd, "plugins") {
        CliAction::Plugins
    } else if str_eq(cmd, "openapi") {
        let mut i: usize = 0;
        while i < args.len()
            invariant
                a == strings_view(args@),
                a.len() > 0,
                !is_custom,
                a[0] == "openapi"@,
                a[0] != "check"@,
                a[0] != "routes"@,
                a[0] != "plugins"@,
                i <= args@.len(),
                forall|j: int| 0 <= j < i ==> a[j] != "--out"@,
            decreases args@.len() - i,
        {
            if str_eq(args[i].as_str(), "--out") {
                assert(out_flag_at(a, i as int));
                proof {
                    let k = choose|k: int| out_flag_at(a, k);
                    if k < i {
                        assert(a[k] != "--out"@);
                    }
                    if k > i {
                        assert(a[i as int] != "--out"@);
                    }
                }
                if i + 1 < args.len() {
                    return CliAction::OpenApi(args[i + 1].clone());
                } else {
                    return CliAction::OpenApiMissingOut;
                }
            }
            i = i + 1;
        }
        assert(!exists|k: int| out_flag_at(a, k));
        CliAction::OpenApiMissingOut
    } else if str_eq(cmd, "tasks") {
        CliAction::Tasks
    } else if str_eq(cmd, "i18n") && args.len() > 1 && str_eq(args[1].as_str(), "missing") {
        CliAction::I18nMissing
    } else {
        CliAction::Unknown
    }
}

/// The built-in command words: `check`, `routes`, `plugins` and `tasks` run
/// the check, route listing, plugin listing and task pointer; a registered
/// command of the same name wins; no arguments is no command.
pub proof fn law_builtin_command_words(r: CliAction, args: Seq<Seq<char>>, is_custom: bool)
    requires
        cli_action_matches(r, args, is_custom),
    ensures
        args.len() == 0 ==> r is NotACommand,
        args.len() > 0 && is_custom ==> r is Custom,
        args.len() > 0 && !is_custom && args[0] == "check"@ ==> r is Check,
        args.len() > 0 && !is_custom && args[0] == "routes"@ ==> r is Routes,
        args.len() > 0 && !is_custom && args[0] == "plugins"@ ==> r is Plugins,
        args.len() > 0 && !is_custom && args[0] == "tasks"@ ==> r is Tasks,
{
    reveal_strlit("check");
    reveal_strlit("routes");
    reveal_strlit("plugins");
    reveal_strlit("openapi");
    reveal_strlit("tasks");
    reveal_strlit("i18n");
    assert("check"@[0] == 'c' && "routes"@[0] == 'r' && "plugins"@[0] == 'p' && "openapi"@[0] == 'o');
    assert("tasks"@[0] == 't' && "i18n"@[0] == 'i');
    if args.len() > 0 {
        assert(args[0].len() == 0 || args[0][0] == args[0][0]);
    }
}

} // verus!
