//! The command lines of an activation: where the assistant is found, and how it
//! and the companion's commands are handed to the platform's shell.

use vstd::prelude::*;
use vstd::string::*;

verus! {

/// The characters that Unicode calls white space.
pub open spec fn is_whitespace(c: char) -> bool {
    let n = c as u32;
    (0x09 <= n <= 0x0D) || n == 0x20 || n == 0x85 || n == 0xA0 || n == 0x1680 || (0x2000 <= n
        <= 0x200A) || n == 0x2028 || n == 0x2029 || n == 0x202F || n == 0x205F || n == 0x3000
}

/// A text without the white space it begins with.
pub open spec fn trim_start(text: Seq<char>) -> Seq<char>
    decreases text.len(),
{
    if text.len() > 0 && is_whitespace(text[0]) {
        trim_start(text.drop_first())
    } else {
        text
    }
}

/// A text without the white space it ends with.
pub open spec fn trim_end(text: Seq<char>) -> Seq<char>
    decreases text.len(),
{
    if text.len() > 0 && is_whitespace(text.last()) {
        trim_end(text.drop_last())
    } else {
        text
    }
}

/// A text without the white space at either end.
pub open spec fn trimmed(text: Seq<char>) -> Seq<char> {
    trim_end(trim_start(text))
}

/// The command that starts the assistant `program`, given what the platform's
/// lookup of it printed (`None` where the lookup could not be run or failed):
/// the lookup's answer without the white space around it, or the bare name
/// where there is no answer.
pub open spec fn claude_command(lookup: Option<Seq<char>>, program: Seq<char>) -> Seq<char> {
    match lookup {
        Some(answer) => if trimmed(answer).len() > 0 {
            trimmed(answer)
        } else {
            program
        },
        None => program,
    }
}

/// Whether a character is white space.
pub fn is_whitespace_char(c: char) -> (r: bool)
    ensures
        r == is_whitespace(c),
{
    let n = c as u32;
    (0x09 <= n && n <= 0x0D) || n == 0x20 || n == 0x85 || n == 0xA0 || n == 0x1680 || (0x2000 <= n
        && n <= 0x200A) || n == 0x2028 || n == 0x2029 || n == 0x202F || n == 0x205F || n == 0x3000
}

/// The text without the white space at either end.
pub fn trim(text: &str) -> (r: String)
    ensures
        r@ == trimmed(text@),
{
    let n = text.unicode_len();
    let mut start: usize = 0;
    let mut at_text = false;
    assert(text@.skip(0) =~= text@);
    while start < n && !at_text
        invariant
            start <= n,
            n == text@.len(),
            trim_start(text@) == trim_start(text@.skip(start as int)),
            at_text ==> start < n && !is_whitespace(text@[start as int]),
        decreases n - start + if at_text { 0int } else { 1int },
    {
        assert(text@.skip(start as int)[0] == text@[start as int]);
        if is_whitespace_char(text.get_char(start)) {
            assert(text@.skip(start as int).drop_first() =~= text@.skip(start + 1));
            start = start + 1;
        } else {
            at_text = true;
        }
    }
    assert(trim_start(text@) == text@.skip(start as int)) by {
        if at_text {
            assert(text@.skip(start as int)[0] == text@[start as int]);
        }
    }
    assert(text@.skip(start as int) =~= text@.subrange(start as int, n as int));
    let mut end: usize = n;
    let mut at_end = false;
    while end > start && !at_end
        invariant
            start <= end <= n,
            n == text@.len(),
            trimmed(text@) == trim_end(text@.subrange(start as int, end as int)),
            at_end ==> end > start && !is_whitespace(text@[end - 1]),
        decreases end - start + if at_end { 0int } else { 1int },
    {
        assert(text@.subrange(start as int, end as int).last() == text@[end - 1]);
        if is_whitespace_char(text.get_char(end - 1)) {
            assert(text@.subrange(start as int, end as int).drop_last() =~= text@.subrange(
                start as int,
                end - 1,
            ));
            end = end - 1;
        } else {
            at_end = true;
        }
    }
    assert(trimmed(text@) == text@.subrange(start as int, end as int)) by {
        if at_end {
            assert(text@.subrange(start as int, end as int).last() == text@[end - 1]);
        }
    }
    text.substring_char(start, end).to_owned()
}

/// The command that starts the assistant `program`. `lookup` is what the
/// platform's lookup of the program printed, `None` where it could not be run
/// or failed.
pub fn find_claude_command(lookup: Option<&str>, program: &str) -> (r: String)
    ensures
        r@ == claude_command(
            match lookup {
                Some(answer) => Some(answer@),
                None => None,
            },
            program@,
        ),
{
    match lookup {
        Some(answer) => {
            let path = trim(answer);
            if path.as_str().unicode_len() > 0 {
                path
            } else {
                program.to_owned()
            }
        },
        None => program.to_owned(),
    }
}

/// The two commands of the companion that an activation runs.
#[derive(Debug, Clone, Copy, PartialEq, Eq, Structural)]
pub enum CompanionCommand {
    Restart,
    Stop,
}

/// A program and its arguments.
#[derive(Debug)]
pub struct Invocation {
    pub program: String,
    pub args: Vec<String>,
}

/// The program of an invocation and its arguments as texts.
pub open spec fn invocation_texts(invocation: Invocation) -> (Seq<char>, Seq<Seq<char>>) {
    (invocation.program@, Seq::new(invocation.args@.len(), |i: int| invocation.args@[i]@))
}

/// The program that looks an executable up on the search path.
pub open spec fn lookup_program(windows: bool) -> Seq<char> {
    if windows {
        "where"@
    } else {
        "which"@
    }
}

/// How a command line is handed to the platform's shell.
pub open spec fn shell_invocation(windows: bool, command_line: Seq<char>) -> (Seq<char>, Seq<Seq<char>>) {
    if windows {
        ("cmd"@, seq!["/C"@, command_line])
    } else {
        ("sh"@, seq!["-c"@, command_line])
    }
}

/// How a command of the companion is handed to the platform's shell.
pub open spec fn companion_invocation(windows: bool, command: CompanionCommand) -> (Seq<char>, Seq<Seq<char>>) {
    match (windows, command) {
        (true, CompanionCommand::Restart) => ("cmd"@, seq!["/C"@, "ccr"@, "restart"@]),
        (true, CompanionCommand::Stop) => ("cmd"@, seq!["/C"@, "ccr"@, "stop"@]),
        (false, CompanionCommand::Restart) => ("sh"@, seq!["-c"@, "ccr restart"@]),
        (false, CompanionCommand::Stop) => ("sh"@, seq!["-c"@, "ccr stop"@]),
    }
}

/// The program that looks an executable up on the search path: `where` on
/// Windows, `which` elsewhere.
pub fn lookup_command(windows: bool) -> (r: &'static str)
    ensures
        r@ == lookup_program(windows),
{
    if windows {
        "where"
    } else {
        "which"
    }
}

/// The invocation that starts the assistant through the platform's shell.
pub fn launch_command(windows: bool, claude_path: &str) -> (r: Invocation)
    ensures
        invocation_texts(r) == shell_invocation(windows, claude_path@),
{
    let mut args: Vec<String> = Vec::new();
    let program = if windows {
        args.push("/C".to_owned());
        "cmd".to_owned()
    } else {
        args.push("-c".to_owned());
        "sh".to_owned()
    };
    args.push(claude_path.to_owned());
    let r = Invocation { program, args };
    assert(invocation_texts(r).1 =~= shell_invocation(windows, claude_path@).1);
    r
}

/// The invocation that runs a command of the companion through the platform's
/// shell.
pub fn companion_command(windows: bool, command: CompanionCommand) -> (r: Invocation)
    ensures
        invocation_texts(r) == companion_invocation(windows, command),
{
    let mut args: Vec<String> = Vec::new();
    let program = if windows {
        args.push("/C".to_owned());
        args.push("ccr".to_owned());
        match command {
            CompanionCommand::Restart => args.push("restart".to_owned()),
            CompanionCommand::Stop => args.push("stop".to_owned()),
        }
        "cmd".to_owned()
    } else {
        args.push("-c".to_owned());
        match command {
            CompanionCommand::Restart => args.push("ccr restart".to_owned()),
            CompanionCommand::Stop => args.push("ccr stop".to_owned()),
        }
        "sh".to_owned()
    };
    let r = Invocation { program, args };
    assert(invocation_texts(r).1 =~= companion_invocation(windows, command).1);
    r
}

} // verus!
