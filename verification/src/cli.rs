//! The command-line surface: one required `--config` option naming the
//! configuration file.
//!
//! The description built here is what the process presents to its operator;
//! matching a flag against an argument vector is specified exactly, so a
//! front end can hand the chosen value on without reinterpreting it.

use vstd::prelude::*;
use vstd::string::StringExecFns;

verus! {

/// One named command-line option.
pub struct CliArg {
    pub name: String,
    pub long: String,
    pub help: String,
    pub required: bool,
    pub takes_value: bool,
}

/// The token that selects this argument on the command line.
pub open spec fn flag_view(arg: &CliArg) -> Seq<char> {
    "--"@ + arg.long@
}

/// Holds when position `i` of `args` carries the flag and a value follows.
pub open spec fn is_flag_at(args: Seq<String>, flag: Seq<char>, i: int) -> bool {
    0 <= i < args.len() - 1 && args[i]@ == flag
}

impl CliArg {
    /// Scans an argument vector for the first occurrence of this argument's
    /// long flag and returns the value that follows it.
    pub fn value_of(&self, args: &Vec<String>) -> (r: Option<String>)
        ensures
            r matches Some(v) ==> exists|i: int|
                #[trigger] is_flag_at(args@, flag_view(self), i) && v@ == args@[i + 1]@ && (
                forall|j: int| 0 <= j < i ==> !is_flag_at(args@, flag_view(self), j)),
            r is None ==> forall|i: int| !#[trigger] is_flag_at(args@, flag_view(self), i),
    {
        let mut flag: String = "--".to_owned();
        flag.append(self.long.as_str());
        let n = args.len();
        let mut i: usize = 0;
        while n >= 1 && i < n - 1
            invariant
                n == args@.len(),
                i <= n,
                flag@ == flag_view(self),
                forall|j: int| 0 <= j < i ==> !is_flag_at(args@, flag_view(self), j),
            decreases args@.len() - i,
        {
            if args[i] == flag {
                assert(is_flag_at(args@, flag_view(self), i as int));
                return Some(args[i + 1].clone());
            }
            i = i + 1;
        }
        assert forall|j: int| !#[trigger] is_flag_at(args@, flag_view(self), j) by {
            if 0 <= j < args@.len() - 1 {
                assert(j < i);
            }
        }
        None
    }
}

/// The command-line description of the dispatcher process.
pub struct CliApp {
    pub name: String,
    pub version: String,
    pub about: String,
    pub config_arg: CliArg,
}

/// The dispatcher's command-line surface: program `pg-dispatcher`, one
/// required `--config` option that takes the configuration file path.
pub fn create_cli_app() -> (app: CliApp)
    ensures
        app.name@ == "pg-dispatcher"@,
        app.version@ == "1.0"@,
        app.config_arg.name@ == "config"@,
        app.config_arg.long@ == "config"@,
        app.config_arg.required,
        app.config_arg.takes_value,
{
    CliApp {
        name: "pg-dispatcher".to_owned(),
        version: "1.0".to_owned(),
        about: "Listens a PostgreSQL Notification and send through a command execution"
            .to_owned(),
        config_arg: CliArg {
            name: "config".to_owned(),
            long: "config".to_owned(),
            help: "config file path (default: ./pgdispatcher.toml)".to_owned(),
            required: true,
            takes_value: true,
        },
    }
}

} // verus!
