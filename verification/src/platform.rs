//! Host-environment selection and command construction for the auxiliary
//! helper-script runner.  Spawning the script is I/O and stays outside the
//! library; what is verified here is the script-name validation and the exact
//! command each environment runs.

use vstd::prelude::*;
use vstd::string::*;
use crate::orchestrate::{join_space, join_with_spaces};

verus! {

/// The host environment a helper script runs under.
#[derive(Clone, Copy, PartialEq, Eq, Structural, Debug)]
pub enum OsEnvironment {
    Windows,
    Wsl,
}

impl Default for OsEnvironment {
    /// A Windows host is assumed when no environment is named.
    fn default() -> (r: Self)
        ensures
            r == OsEnvironment::Windows,
    {
        OsEnvironment::Windows
    }
}

/// A helper-script name is valid when it ends in `.py` and names no path:
/// no slash or backslash anywhere.
pub open spec fn valid_script_name(s: Seq<char>) -> bool {
    &&& s.len() >= 3
    &&& s.subrange(s.len() - 3, s.len() as int) == ".py"@
    &&& forall|i: int| 0 <= i < s.len() ==> #[trigger] s[i] != '/' && s[i] != '\\'
}

/// Checks a helper-script name.
pub fn script_name_is_valid(script: &str) -> (r: bool)
    ensures
        r == valid_script_name(script@),
{
    proof {
        reveal_strlit(".py");
    }
    let n = script.unicode_len();
    if n < 3 {
        return false;
    }
    if !(script.get_char(n - 3) == '.' && script.get_char(n - 2) == 'p' && script.get_char(n - 1)
        == 'y') {
        proof {
            let sub = script@.subrange(n - 3, n as int);
            assert(sub[0] == script@[n - 3] && sub[1] == script@[n - 2] && sub[2] == script@[n
                - 1]);
            assert(".py"@[0] == '.' && ".py"@[1] == 'p' && ".py"@[2] == 'y');
            assert(sub != ".py"@);
        }
        return false;
    }
    proof {
        assert(script@.subrange(n - 3, n as int) =~= ".py"@);
    }
    let mut i: usize = 0;
    while i < n
        invariant
            i <= n,
            n == script@.len(),
            forall|j: int| 0 <= j < i ==> #[trigger] script@[j] != '/' && script@[j] != '\\',
        decreases n - i,
    {
        let c = script.get_char(i);
        if c == '/' || c == '\\' {
            return false;
        }
        i += 1;
    }
    true
}

/// One character of an argument quoted for a POSIX shell: a single quote
/// closes the quoting, emits an escaped quote and reopens it.
pub open spec fn shell_quoted_char(c: char) -> Seq<char> {
    if c == '\'' {
        "'\\''"@
    } else {
        seq![c]
    }
}

/// An argument body quoted for a POSIX shell, character by character.
pub open spec fn shell_quoted_body(s: Seq<char>) -> Seq<char>
    decreases s.len(),
{
    if s.len() == 0 {
        Seq::empty()
    } else {
        shell_quoted_body(s.drop_last()) + shell_quoted_char(s.last())
    }
}

/// A whole argument quoted for a POSIX shell.
pub open spec fn shell_quoted(s: Seq<char>) -> Seq<char> {
    "'"@ + shell_quoted_body(s) + "'"@
}

/// Quotes one argument for a POSIX shell.
pub fn shell_quote(arg: &str) -> (r: String)
    ensures
        r@ == shell_quoted(arg@),
{
    let n = arg.unicode_len();
    let mut r = String::from_str("'");
    let ghost head = "'"@;
    let mut i: usize = 0;
    while i < n
        invariant
            i <= n,
            n == arg@.len(),
            r@ == head + shell_quoted_body(arg@.take(i as int)),
        decreases n - i,
    {
        let c = arg.get_char(i);
        if c == '\'' {
            r.append("'\\''");
        } else {
            let piece = arg.substring_char(i, i + 1);
            r.append(piece);
            proof {
                assert(piece@ =~= seq![arg@[i as int]]);
            }
        }
        i += 1;
        proof {
            assert(arg@.take(i as int).drop_last() =~= arg@.take(i as int - 1));
            assert(arg@.take(i as int).last() == arg@[i as int - 1]);
            assert(r@ =~= head + shell_quoted_body(arg@.take(i as int)));
        }
    }
    proof {
        assert(arg@.take(n as int) =~= arg@);
    }
    r.append("'");
    r
}

/// The shell command line run inside WSL for a helper script: enter the
/// fixed script directory, then run the script with its quoted arguments.
pub open spec fn wsl_command_line(script: Seq<char>, cli_args: Seq<Seq<char>>) -> Seq<char> {
    "cd '/mnt/c/Users/User/Documents/sample_script' && pipenv run python "@ + script + " "@
        + join_space(cli_args.map_values(|a: Seq<char>| shell_quoted(a)))
}

/// Builds the WSL command line for a helper script.
pub fn build_wsl_command(script: &str, cli_args: &Vec<String>) -> (r: String)
    ensures
        r@ == wsl_command_line(script@, cli_args.deep_view()),
{
    let mut quoted: Vec<String> = Vec::new();
    let n = cli_args.len();
    let mut i: usize = 0;
    while i < n
        invariant
            i <= n,
            n == cli_args@.len(),
            quoted@.len() == i,
            forall|j: int| 0 <= j < i ==> (#[trigger] quoted@[j])@ == shell_quoted(cli_args@[j]@),
        decreases n - i,
    {
        let q = shell_quote(cli_args[i].as_str());
        quoted.push(q);
        i += 1;
    }
    proof {
        assert(quoted.deep_view() =~~= cli_args.deep_view().map_values(
            |a: Seq<char>| shell_quoted(a),
        ));
    }
    let mut r = String::from_str("cd '/mnt/c/Users/User/Documents/sample_script' && pipenv run python ");
    r.append(script);
    r.append(" ");
    let joined = join_with_spaces(&quoted);
    r.append(joined.as_str());
    r
}

/// The fixed argument list handed to `cmd` on a Windows host: enter the
/// script directory, then run the script, then its arguments.
pub open spec fn windows_script_args(script: Seq<char>, cli_args: Seq<Seq<char>>) -> Seq<
    Seq<char>,
> {
    seq![
        "/C"@,
        "cd"@,
        "/D"@,
        "C:\\Users\\User\\Documents\\boardcast\\py-util"@,
        "&&"@,
        "pipenv"@,
        "run"@,
        "python"@,
        script,
    ] + cli_args
}

/// Builds the `cmd` argument list for a helper script on a Windows host.
pub fn build_windows_args(script: &str, cli_args: &Vec<String>) -> (r: Vec<String>)
    ensures
        r.deep_view() == windows_script_args(script@, cli_args.deep_view()),
{
    let mut r: Vec<String> = Vec::new();
    r.push(String::from_str("/C"));
    r.push(String::from_str("cd"));
    r.push(String::from_str("/D"));
    r.push(String::from_str("C:\\Users\\User\\Documents\\boardcast\\py-util"));
    r.push(String::from_str("&&"));
    r.push(String::from_str("pipenv"));
    r.push(String::from_str("run"));
    r.push(String::from_str("python"));
    r.push(String::from_str(script));
    let ghost full = windows_script_args(script@, cli_args.deep_view());
    proof {
        assert(forall|j: int| 0 <= j < 9 ==> (#[trigger] r@[j])@ == full[j]);
    }
    let n = cli_args.len();
    let mut i: usize = 0;
    while i < n
        invariant
            i <= n,
            n == cli_args@.len(),
            full == windows_script_args(script@, cli_args.deep_view()),
            r@.len() == 9 + i,
            forall|j: int| 0 <= j < r@.len() ==> (#[trigger] r@[j])@ == full[j],
        decreases n - i,
    {
        let a = String::from_str(cli_args[i].as_str());
        r.push(a);
        i += 1;
        proof {
            assert(full[9 + i - 1] == cli_args.deep_view()[i - 1]);
        }
    }
    proof {
        assert(r.deep_view() =~~= full);
    }
    r
}

} // verus!
