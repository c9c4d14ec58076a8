//! The subprocess seam's data: a fully specified command (explicit argv, per-call env, a hard
//! timeout — never a shell string), the error vocabulary of running one, the secret-free
//! failure summary, and a canned runner that answers with fixed bytes and records what it was
//! asked to run.
use vstd::prelude::*;

use crate::text::{
    char_views, chars_of, dec, dec_signed, join_strings, joined, lines, lines_spec, lossy_utf8,
    push_dec, push_dec_signed, push_str, str_views, string_from, string_of, utf8_lossy_chars,
};

verus! {

/// A fully specified external command.
#[derive(Debug, Clone, PartialEq, Eq)]
pub struct CommandSpec {
    /// The program to run (argv\[0\]).
    pub program: String,
    /// The arguments; explicit, never shell-parsed.
    pub args: Vec<String>,
    /// Per-call environment additions.
    pub env: Vec<(String, String)>,
    /// Hard per-call timeout, seconds.
    pub timeout_secs: u64,
}

/// Plain model of a command.
pub struct CommandSpecView {
    pub program: Seq<char>,
    pub args: Seq<Seq<char>>,
    pub env: Seq<(Seq<char>, Seq<char>)>,
    pub timeout_secs: u64,
}

pub open spec fn pair_views(v: Seq<(String, String)>) -> Seq<(Seq<char>, Seq<char>)> {
    v.map_values(|p: (String, String)| (p.0@, p.1@))
}

impl View for CommandSpec {
    type V = CommandSpecView;

    open spec fn view(&self) -> CommandSpecView {
        CommandSpecView {
            program: self.program@,
            args: str_views(self.args@),
            env: pair_views(self.env@),
            timeout_secs: self.timeout_secs,
        }
    }
}

/// A copy of a list of strings.
pub fn copy_strings(v: &Vec<String>) -> (r: Vec<String>)
    ensures
        str_views(r@) == str_views(v@),
{
    let mut out: Vec<String> = Vec::new();
    let mut i: usize = 0;
    while i < v.len()
        invariant
            i <= v.len(),
            out.len() == i,
            forall|k: int| 0 <= k < i ==> (#[trigger] out@[k])@ == v@[k]@,
        decreases v.len() - i,
    {
        out.push(v[i].clone());
        i = i + 1;
    }
    assert(str_views(out@) =~= str_views(v@));
    out
}

impl CommandSpec {
    /// A copy of this command.
    pub fn copy(&self) -> (r: CommandSpec)
        ensures
            r@ == self@,
    {
        let mut env: Vec<(String, String)> = Vec::new();
        let mut i: usize = 0;
        while i < self.env.len()
            invariant
                i <= self.env.len(),
                env.len() == i,
                forall|k: int|
                    0 <= k < i ==> (#[trigger] env@[k]).0@ == self.env@[k].0@ && env@[k].1@
                        == self.env@[k].1@,
            decreases self.env.len() - i,
        {
            env.push((self.env[i].0.clone(), self.env[i].1.clone()));
            i = i + 1;
        }
        assert(pair_views(env@) =~= pair_views(self.env@));
        CommandSpec {
            program: self.program.clone(),
            args: copy_strings(&self.args),
            env,
            timeout_secs: self.timeout_secs,
        }
    }
}

/// What running a command can fail with.
#[derive(Debug, Clone, PartialEq, Eq)]
pub enum AppError {
    /// The command outlived its timeout.
    Timeout {
        /// The program.
        program: String,
        /// The timeout, seconds.
        seconds: u64,
    },
    /// The command could not be spawned, or exited unsuccessfully.
    Subprocess {
        /// The program.
        program: String,
        /// What went wrong.
        message: String,
    },
    /// A reply could not be parsed.
    Parse(String),
}

/// The text of an error.
pub open spec fn error_text(e: AppError) -> Seq<char> {
    match e {
        AppError::Timeout { program, seconds } => program@ + ": timed out after "@ + dec(
            seconds as nat,
        ) + "s"@,
        AppError::Subprocess { program, message } => program@ + ": "@ + message@,
        AppError::Parse(m) => "parse error: "@ + m@,
    }
}

impl AppError {
    /// The error as the footer and the doctor show it.
    pub fn message(&self) -> (r: String)
        ensures
            r@ == error_text(*self),
    {
        match self {
            AppError::Timeout { program, seconds } => {
                let mut s = string_from(program.as_str());
                push_str(&mut s, ": timed out after ");
                push_dec(&mut s, *seconds);
                push_str(&mut s, "s");
                s
            },
            AppError::Subprocess { program, message } => {
                let mut s = string_from(program.as_str());
                push_str(&mut s, ": ");
                push_str(&mut s, message.as_str());
                s
            },
            AppError::Parse(m) => {
                let mut s = string_from("parse error: ");
                push_str(&mut s, m.as_str());
                s
            },
        }
    }
}

/// At most the last three lines, in order.
pub open spec fn last3(ls: Seq<Seq<char>>) -> Seq<Seq<char>> {
    if ls.len() > 3 {
        ls.skip(ls.len() - 3)
    } else {
        ls
    }
}

/// The failure summary: `exit <code>` (`signal` without a code), then `: ` and the last three
/// stderr lines joined by `; ` when stderr has any.
pub open spec fn exit_summary_spec(code: Option<i32>, stderr: Seq<u8>) -> Seq<char> {
    let c = match code {
        Some(x) => dec_signed(x as int),
        None => "signal"@,
    };
    let tail = last3(lines_spec(lossy_utf8(stderr)));
    if tail.len() == 0 {
        "exit "@ + c
    } else {
        "exit "@ + c + ": "@ + joined(tail, "; "@)
    }
}

/// A short, secret-free failure summary: the exit code and the last few stderr lines.
pub fn exit_summary(code: Option<i32>, stderr: &[u8]) -> (r: String)
    ensures
        r@ == exit_summary_spec(code, stderr@),
{
    let mut s = string_from("exit ");
    match code {
        Some(c) => push_dec_signed(&mut s, c as i64),
        None => push_str(&mut s, "signal"),
    }
    let text = utf8_lossy_chars(stderr);
    let ls = lines(text.as_slice());
    let ghost lv = lines_spec(lossy_utf8(stderr@));
    let start = if ls.len() > 3 {
        ls.len() - 3
    } else {
        0
    };
    let mut tail: Vec<String> = Vec::new();
    let mut i = start;
    while i < ls.len()
        invariant
            start <= i <= ls.len(),
            char_views(ls@) == lv,
            tail.len() == i - start,
            forall|k: int| 0 <= k < i - start ==> (#[trigger] tail@[k])@ == lv[start + k],
        decreases ls.len() - i,
    {
        tail.push(string_of(ls[i].as_slice()));
        i = i + 1;
    }
    assert(str_views(tail@) =~= last3(lv));
    if tail.len() > 0 {
        push_str(&mut s, ": ");
        let j = join_strings(&tail, "; ");
        push_str(&mut s, j.as_str());
    }
    s
}

/// A runner that answers every command with the same bytes and records each command.
#[derive(Debug)]
pub struct CannedRunner {
    output: Vec<u8>,
    specs: Vec<CommandSpec>,
}

impl CannedRunner {
    pub closed spec fn output_view(&self) -> Seq<u8> {
        self.output@
    }

    pub closed spec fn specs_view(&self) -> Seq<CommandSpecView> {
        self.specs@.map_values(|c: CommandSpec| c@)
    }

    /// A runner that always answers `output`.
    pub fn new(output: Vec<u8>) -> (r: CannedRunner)
        ensures
            r.output_view() == output@,
            r.specs_view().len() == 0,
    {
        CannedRunner { output, specs: Vec::new() }
    }

    /// Run `spec`: record it, answer the canned bytes.
    pub fn run(&mut self, spec: &CommandSpec) -> (r: Result<Vec<u8>, AppError>)
        ensures
            final(self).output_view() == old(self).output_view(),
            final(self).specs_view() == old(self).specs_view().push(spec@),
            r matches Ok(b) && b@ == old(self).output_view(),
    {
        let c = spec.copy();
        let ghost before = self.specs@;
        self.specs.push(c);
        assert(self.specs@.map_values(|c: CommandSpec| c@) =~= before.map_values(
            |c: CommandSpec| c@,
        ).push(spec@));
        let mut out: Vec<u8> = Vec::new();
        let mut i: usize = 0;
        while i < self.output.len()
            invariant
                i <= self.output.len(),
                out@ == self.output@.take(i as int),
            decreases self.output.len() - i,
        {
            out.push(self.output[i]);
            i = i + 1;
        }
        assert(out@ =~= self.output@);
        Ok(out)
    }

    /// The most recent command run, if any.
    pub fn last_spec(&self) -> (r: Option<CommandSpec>)
        ensures
            self.specs_view().len() == 0 ==> r is None,
            self.specs_view().len() > 0 ==> (r matches Some(c) && c@ == self.specs_view().last()),
    {
        if self.specs.len() == 0 {
            None
        } else {
            Some(self.specs[self.specs.len() - 1].copy())
        }
    }

    /// Every command run, in order.
    pub fn all_specs(&self) -> (r: Vec<CommandSpec>)
        ensures
            r@.map_values(|c: CommandSpec| c@) == self.specs_view(),
    {
        let mut out: Vec<CommandSpec> = Vec::new();
        let mut i: usize = 0;
        while i < self.specs.len()
            invariant
                i <= self.specs.len(),
                out.len() == i,
                forall|k: int| 0 <= k < i ==> (#[trigger] out@[k])@ == self.specs@[k]@,
            decreases self.specs.len() - i,
        {
            out.push(self.specs[i].copy());
            i = i + 1;
        }
        assert(out@.map_values(|c: CommandSpec| c@) =~= self.specs_view());
        out
    }
}

} // verus!
