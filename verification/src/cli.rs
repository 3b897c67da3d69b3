//! The command line: global flags and the top-level commands.

use vstd::prelude::*;

use crate::commands;
use crate::output::OutputOpts;

verus! {

/// The global flags and the command.
pub struct Cli {
    pub api_key: Option<String>,
    pub transactional_key: Option<String>,
    pub json: bool,
    pub raw: bool,
    pub quiet: bool,
    pub command: Command,
}

/// The top-level commands.
pub enum Command {
    Login(commands::auth::LoginArgs),
    Logout(commands::auth::LogoutArgs),
    Whoami,
    Doctor,
    Completion(commands::completion::Cmd),
    Email(commands::email::Cmd),
    /// The short form of `email send`.
    Send(commands::email::SendArgs),
    Inbound(commands::inbound::Cmd),
    Outbound(commands::outbound::Cmd),
    Webhooks(commands::webhooks::Cmd),
    Config(commands::config_cmd::Cmd),
}

/// Whether a command needs the keys resolved and an API client: all but
/// `config`, `completion` and `logout`, which work with no key configured.
pub fn needs_client(cmd: &Command) -> (r: bool)
    ensures
        r == !(cmd is Config || cmd is Completion || cmd is Logout),
{
    match cmd {
        Command::Config(_) | Command::Completion(_) | Command::Logout(_) => false,
        _ => true,
    }
}

/// The output options the global flags give.
pub fn output_opts(cli: &Cli) -> (r: OutputOpts)
    ensures
        r.json == cli.json,
        r.raw == cli.raw,
        r.quiet == cli.quiet,
{
    OutputOpts { json: cli.json, raw: cli.raw, quiet: cli.quiet }
}

} // verus!
