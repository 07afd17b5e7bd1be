//! Which shell a session runs, and with which arguments.
//!
//! The choice depends on the platform family alone, so the session logic never
//! has to ask where it runs: it is handed a `Platform` once and gets a
//! `ShellLaunch` back.

use vstd::prelude::*;
use vstd::string::StringExecFns;
use crate::text::blank;
use crate::text::is_blank;
use crate::text::remove_char;
use crate::text::without;

verus! {

/// The platform families that differ in how an interactive shell is started.
#[derive(Clone, Copy, Debug, PartialEq, Eq, Structural)]
pub enum Platform {
    /// The system command shell is `cmd.exe`.
    Windows,
    /// Every other system: the shell is `/bin/bash`.
    Posix,
}

/// A program and the arguments it is started with.
pub struct ShellLaunch {
    pub program: String,
    pub args: Vec<String>,
}

/// The directory that the Windows shell changes to: the user's profile where
/// the hint is blank, else the hint without its double quotes.
pub open spec fn start_directory(cwd: Seq<char>) -> Seq<char> {
    if blank(cwd) {
        "%USERPROFILE%"@
    } else {
        without(cwd, '"')
    }
}

/// The program that is started on `platform`.
pub open spec fn shell_program(platform: Platform) -> Seq<char> {
    match platform {
        Platform::Windows => "cmd.exe"@,
        Platform::Posix => "/bin/bash"@,
    }
}

/// The arguments that the program gets. On Windows the shell is told to run a
/// change of directory and then to stay interactive; elsewhere it gets no
/// argument and the directory hint is not used.
pub open spec fn shell_args(platform: Platform, cwd: Seq<char>) -> Seq<Seq<char>> {
    match platform {
        Platform::Windows => seq!["/Q"@, "/K"@, "cd /d "@ + start_directory(cwd)],
        Platform::Posix => Seq::empty(),
    }
}

impl ShellLaunch {
    /// The argument vector: the program, then its arguments.
    pub open spec fn argv(&self) -> Seq<Seq<char>> {
        seq![self.program@] + self.args@.map_values(|a: String| a@)
    }
}

/// The argument vector of the shell that is started on `platform` with the
/// directory hint `cwd`.
pub open spec fn shell_argv(platform: Platform, cwd: Seq<char>) -> Seq<Seq<char>> {
    seq![shell_program(platform)] + shell_args(platform, cwd)
}

/// The directory that the Windows shell changes to.
pub fn safe_cwd(cwd: &str) -> (r: String)
    ensures
        r@ == start_directory(cwd@),
{
    if is_blank(cwd) {
        String::from_str("%USERPROFILE%")
    } else {
        remove_char(cwd, '"')
    }
}

/// The shell to start on `platform`, given the directory hint `cwd`.
pub fn shell_launch(platform: Platform, cwd: &str) -> (launch: ShellLaunch)
    ensures
        launch.program@ == shell_program(platform),
        launch.args@.map_values(|a: String| a@) == shell_args(platform, cwd@),
        launch.argv() == shell_argv(platform, cwd@),
{
    match platform {
        Platform::Windows => {
            let mut args: Vec<String> = Vec::new();
            args.push(String::from_str("/Q"));
            args.push(String::from_str("/K"));
            let directory = safe_cwd(cwd);
            let mut change = String::from_str("cd /d ");
            change.append(directory.as_str());
            args.push(change);
            assert(args@.map_values(|a: String| a@) == shell_args(platform, cwd@));
            ShellLaunch { program: String::from_str("cmd.exe"), args }
        },
        Platform::Posix => {
            let args: Vec<String> = Vec::new();
            assert(args@.map_values(|a: String| a@) == shell_args(platform, cwd@));
            ShellLaunch { program: String::from_str("/bin/bash"), args }
        },
    }
}

} // verus!
