//! Opening the rendered video with the platform's default application.
use vstd::prelude::*;

use crate::ffmpeg::{failure_details_spec, CommandOutcome};
use crate::text::{chars_of, push_all, push_signed_decimal, push_str, string_of, trim, trimmed};

verus! {

/// Whether to open the output, and the opener of the platform.
#[derive(Clone, Debug)]
pub struct OpenPlan {
    pub should_open_output: bool,
    pub open_command_hint: String,
}

/// The default opener of an operating system (named as in
/// `std::env::consts::OS`).
pub open spec fn open_command_for(os: Seq<char>) -> Seq<char> {
    if os == "macos"@ {
        "open"@
    } else if os == "windows"@ {
        "start"@
    } else {
        "xdg-open"@
    }
}

/// The open plan for a run on `os`.
pub fn plan(should_open_output: bool, os: &str) -> (r: OpenPlan)
    ensures
        r.should_open_output == should_open_output,
        r.open_command_hint@ == open_command_for(os@),
{
    let o = chars_of(os);
    let hint = if crate::text::chars_eq_str(o.as_slice(), "macos") {
        "open"
    } else if crate::text::chars_eq_str(o.as_slice(), "windows") {
        "start"
    } else {
        "xdg-open"
    };
    OpenPlan { should_open_output, open_command_hint: hint.to_owned() }
}

/// A program to start, with its arguments.
#[derive(Clone, Debug)]
pub struct OpenCommand {
    pub program: String,
    pub args: Vec<String>,
}

/// The program and arguments that open `path` with the opener `hint`:
/// Windows' `start` is a command of `cmd`, the others are programs.
pub open spec fn open_invocation(hint: Seq<char>, path: Seq<char>) -> (Seq<char>, Seq<Seq<char>>) {
    if hint == "start"@ {
        ("cmd"@, seq!["/C"@, "start"@, Seq::<char>::empty(), path])
    } else {
        (hint, seq![path])
    }
}

/// The command that opens `path`, or `None` when the plan does not open
/// the output.
pub fn open_output(plan: &OpenPlan, path: &str) -> (r: Option<OpenCommand>)
    ensures
        !plan.should_open_output ==> r is None,
        plan.should_open_output ==> {
            &&& r matches Some(c)
            &&& c.program@ == open_invocation(plan.open_command_hint@, path@).0
            &&& crate::ffmpeg::string_views(c.args@) == open_invocation(
                plan.open_command_hint@,
                path@,
            ).1
        },
{
    if !plan.should_open_output {
        return None;
    }
    let h = chars_of(plan.open_command_hint.as_str());
    let mut args: Vec<String> = Vec::new();
    if crate::text::chars_eq_str(h.as_slice(), "start") {
        args.push("/C".to_owned());
        args.push("start".to_owned());
        args.push(String::new());
        args.push(path.to_owned());
        proof {
            assert(crate::ffmpeg::string_views(args@) =~= open_invocation(
                plan.open_command_hint@,
                path@,
            ).1);
        }
        Some(OpenCommand { program: "cmd".to_owned(), args })
    } else {
        args.push(path.to_owned());
        proof {
            assert(crate::ffmpeg::string_views(args@) =~= open_invocation(
                plan.open_command_hint@,
                path@,
            ).1);
        }
        Some(OpenCommand { program: plan.open_command_hint.clone(), args })
    }
}

/// Why the output could not be opened.
#[derive(Clone, Debug)]
pub enum OpenError {
    /// The opener could not be started; `source` is the text of the error.
    Launch { command: String, path: String, source: String },
    /// The opener ran and failed.
    Failed { command: String, path: String, details: String },
}

/// The message of an open error.
pub open spec fn open_error_message(e: OpenError) -> Seq<char> {
    match e {
        OpenError::Launch { command, path, source } =>
            "failed to launch `"@ + command@ + "` for "@ + path@ + ": "@ + source@,
        OpenError::Failed { command, path, details } =>
            "`"@ + command@ + "` failed while opening "@ + path@ + ": "@ + details@,
    }
}

impl OpenError {
    /// The message that describes the error.
    pub fn message(&self) -> (r: String)
        ensures
            r@ == open_error_message(*self),
    {
        let mut v: Vec<char> = Vec::new();
        match self {
            OpenError::Launch { command, path, source } => {
                push_str(&mut v, "failed to launch `");
                push_str(&mut v, command.as_str());
                push_str(&mut v, "` for ");
                push_str(&mut v, path.as_str());
                push_str(&mut v, ": ");
                push_str(&mut v, source.as_str());
            },
            OpenError::Failed { command, path, details } => {
                push_str(&mut v, "`");
                push_str(&mut v, command.as_str());
                push_str(&mut v, "` failed while opening ");
                push_str(&mut v, path.as_str());
                push_str(&mut v, ": ");
                push_str(&mut v, details.as_str());
            },
        }
        string_of(v.as_slice())
    }
}

/// The details of a failed opener: its exit code (or that a signal ended
/// it), its trimmed standard error, then its trimmed standard output after
/// ` | ` (or after `: ` when standard error is empty).
pub open spec fn open_failure_details(code: Option<i32>, stderr: Seq<char>, stdout: Seq<char>) -> Seq<
    char,
> {
    let head = failure_details_spec(code, stderr);
    if trim(stdout).len() > 0 {
        if trim(stderr).len() > 0 {
            head + " | "@ + trim(stdout)
        } else {
            head + ": "@ + trim(stdout)
        }
    } else {
        head
    }
}

/// What a run of the opener means: success, or the error to report.
pub fn open_result(plan: &OpenPlan, path: &str, outcome: &CommandOutcome) -> (r: Result<
    (),
    OpenError,
>)
    ensures
        match *outcome {
            CommandOutcome::SpawnFailed(e) => r matches Err(OpenError::Launch { command, path: p, source })
                && command@ == plan.open_command_hint@ && p@ == path@ && source@ == e@,
            CommandOutcome::Exited { success, code, stdout, stderr } => if success {
                r is Ok
            } else {
                r matches Err(OpenError::Failed { command, path: p, details }) && command@
                    == plan.open_command_hint@ && p@ == path@ && details@ == open_failure_details(
                    code,
                    stderr@,
                    stdout@,
                )
            },
        },
{
    match outcome {
        CommandOutcome::SpawnFailed(e) => Err(
            OpenError::Launch {
                command: plan.open_command_hint.clone(),
                path: path.to_owned(),
                source: e.clone(),
            },
        ),
        CommandOutcome::Exited { success, code, stdout, stderr } => {
            if *success {
                return Ok(());
            }
            let mut details: Vec<char> = Vec::new();
            match code {
                Some(c) => {
                    push_str(&mut details, "exit code ");
                    push_signed_decimal(&mut details, *c as i64);
                },
                None => push_str(&mut details, "terminated by signal"),
            }
            let e = chars_of(stderr.as_str());
            let te = trimmed(e.as_slice());
            if te.len() > 0 {
                push_str(&mut details, ": ");
                push_all(&mut details, te.as_slice());
            }
            let o = chars_of(stdout.as_str());
            let to = trimmed(o.as_slice());
            if to.len() > 0 {
                if te.len() > 0 {
                    push_str(&mut details, " | ");
                } else {
                    push_str(&mut details, ": ");
                }
                push_all(&mut details, to.as_slice());
            }
            Err(
                OpenError::Failed {
                    command: plan.open_command_hint.clone(),
                    path: path.to_owned(),
                    details: string_of(details.as_slice()),
                },
            )
        },
    }
}

/// How the output is opened: the path is always the last argument, and the
/// program is never `start`, which is a command of `cmd` and not a
/// program; with the Windows opener `start`, `cmd /C start "" path` runs.
pub proof fn lemma_open_invocation(hint: Seq<char>, path: Seq<char>)
    ensures
        open_invocation(hint, path).1.len() >= 1,
        open_invocation(hint, path).1.last() == path,
        open_invocation(hint, path).0 != "start"@,
        hint == "start"@ ==> open_invocation(hint, path).0 == "cmd"@ && open_invocation(hint, path).1
            == seq!["/C"@, "start"@, Seq::<char>::empty(), path],
        hint != "start"@ ==> open_invocation(hint, path).0 == hint,
        open_command_for("windows"@) == "start"@,
{
    reveal_strlit("start");
    reveal_strlit("cmd");
    reveal_strlit("windows");
    reveal_strlit("macos");
    assert("cmd"@.len() != "start"@.len());
    assert("windows"@.len() != "macos"@.len());
}

} // verus!
