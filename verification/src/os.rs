//! Operating-system command tools: the decisions around running a command
//! (which program to start with which arguments, when output asks for
//! input, what to do with the answer, how the outcome is reported) and the
//! signal names understood by the signal tool.
//!
//! Spawning processes, reading their output and asking the user happen
//! outside; they hand the library plain values and get plain values back.
use vstd::prelude::*;

use crate::error::Error;
use crate::text::{chars_of, contains, contains_chars, ends_with_chars};

verus! {

/// The lowercase of `s` as `str::to_lowercase` gives it.
pub uninterp spec fn lowercase(s: Seq<char>) -> Seq<char>;

/// Lowercases `s` with `str::to_lowercase`; the result is named `lowercase(s)`.
#[verifier::external_body]
pub(crate) fn to_lowercase(s: &str) -> (res: String)
    ensures
        res@ == lowercase(s@),
{
    s.to_lowercase()
}

/// The output fragments that show a command waiting for input.
pub open spec fn default_input_patterns() -> Seq<Seq<char>> {
    seq![
        "password:"@,
        "passphrase:"@,
        "[y/n]"@,
        "(y/n)"@,
        "yes/no"@,
        "[yes/no]"@,
        "(yes/no)"@,
        "continue?"@,
        "proceed?"@,
        "confirm"@,
        "enter"@,
        "input:"@,
        "prompt:"@,
        "username:"@,
        "user:"@,
        "login:"@,
        "token:"@,
        "api key:"@,
        "secret:"@,
        "[sudo]"@,
        "are you sure"@,
        "overwrite"@,
        "replace"@,
        "delete"@,
        "(y/n/a)"@,
        "[y/n/a]"@,
    ]
}

/// The patterns that show a command waiting for input.
fn input_patterns() -> (res: Vec<&'static str>)
    ensures
        res@.map_values(|p: &str| p@) == default_input_patterns(),
{
    let res = vec![
        "password:",
        "passphrase:",
        "[y/n]",
        "(y/n)",
        "yes/no",
        "[yes/no]",
        "(yes/no)",
        "continue?",
        "proceed?",
        "confirm",
        "enter",
        "input:",
        "prompt:",
        "username:",
        "user:",
        "login:",
        "token:",
        "api key:",
        "secret:",
        "[sudo]",
        "are you sure",
        "overwrite",
        "replace",
        "delete",
        "(y/n/a)",
        "[y/n/a]",
    ];
    assert(res@.map_values(|p: &str| p@) =~= default_input_patterns());
    res
}

/// The first pattern of `pats` whose key (at the same position of `keys`)
/// occurs in `text`.
pub open spec fn first_contained(text: Seq<char>, pats: Seq<Seq<char>>, keys: Seq<Seq<char>>) -> Option<
    Seq<char>,
>
    decreases pats.len(),
{
    if pats.len() == 0 {
        None
    } else if contains(text, keys[0]) {
        Some(pats[0])
    } else {
        first_contained(text, pats.drop_first(), keys.drop_first())
    }
}

/// The patterns lowercased.
pub open spec fn lowercased(pats: Seq<Seq<char>>) -> Seq<Seq<char>> {
    pats.map_values(|p: Seq<char>| lowercase(p))
}

/// The pattern that shows `line` waiting for input: a default pattern
/// found in the lowercased line, else one of the tool's patterns, else one
/// of the call's patterns, these two compared in lowercase.
pub open spec fn input_pattern(line: Seq<char>, additional: Seq<Seq<char>>, custom: Seq<Seq<char>>) -> Option<
    Seq<char>,
> {
    let lower = lowercase(line);
    match first_contained(lower, default_input_patterns(), default_input_patterns()) {
        Some(p) => Some(p),
        None => match first_contained(lower, additional, lowercased(additional)) {
            Some(p) => Some(p),
            None => first_contained(lower, custom, lowercased(custom)),
        },
    }
}

/// Some key of `keys` occurs in `text`.
pub open spec fn some_key_occurs(text: Seq<char>, keys: Seq<Seq<char>>) -> bool {
    exists|i: int| 0 <= i < keys.len() && contains(text, #[trigger] keys[i])
}

/// `first_contained` finds a pattern exactly when some key occurs, and the
/// pattern it finds is one of `pats`.
pub proof fn lemma_first_contained(text: Seq<char>, pats: Seq<Seq<char>>, keys: Seq<Seq<char>>)
    requires
        pats.len() == keys.len(),
    ensures
        first_contained(text, pats, keys) is Some <==> some_key_occurs(text, keys),
        first_contained(text, pats, keys) matches Some(p) ==> pats.contains(p),
    decreases pats.len(),
{
    if pats.len() > 0 {
        lemma_first_contained(text, pats.drop_first(), keys.drop_first());
        if some_key_occurs(text, keys) && !contains(text, keys[0]) {
            let i = choose|i: int| 0 <= i < keys.len() && contains(text, #[trigger] keys[i]);
            assert(keys.drop_first()[i - 1] == keys[i]);
        }
        if some_key_occurs(text, keys.drop_first()) {
            let i = choose|i: int|
                0 <= i < keys.drop_first().len() && contains(text, #[trigger] keys.drop_first()[i]);
            assert(keys[i + 1] == keys.drop_first()[i]);
        }
        match first_contained(text, pats, keys) {
            Some(p) => {
                if !contains(text, keys[0]) {
                    let j = choose|j: int|
                        0 <= j < pats.drop_first().len() && pats.drop_first()[j] == p;
                    assert(pats[j + 1] == p);
                } else {
                    assert(pats[0] == p);
                }
            },
            None => {},
        }
    }
}

/// A line shows a command waiting for input exactly when a default pattern
/// occurs in the lowercased line, or one of the tool's or the call's
/// patterns does, both lowercased; the pattern reported is then one of them.
pub proof fn law_input_pattern_iff_occurs(
    line: Seq<char>,
    additional: Seq<Seq<char>>,
    custom: Seq<Seq<char>>,
)
    ensures
        input_pattern(line, additional, custom) is Some <==> (some_key_occurs(
            lowercase(line),
            default_input_patterns(),
        ) || some_key_occurs(lowercase(line), lowercased(additional)) || some_key_occurs(
            lowercase(line),
            lowercased(custom),
        )),
        input_pattern(line, additional, custom) matches Some(p) ==> (default_input_patterns().contains(
            p,
        ) || additional.contains(p) || custom.contains(p)),
{
    let lower = lowercase(line);
    lemma_first_contained(lower, default_input_patterns(), default_input_patterns());
    lemma_first_contained(lower, additional, lowercased(additional));
    lemma_first_contained(lower, custom, lowercased(custom));
}

/// The pattern found is the first, in order, whose key occurs.
proof fn lemma_first_contained_at(
    text: Seq<char>,
    pats: Seq<Seq<char>>,
    keys: Seq<Seq<char>>,
    j: int,
)
    requires
        pats.len() == keys.len(),
        0 <= j < keys.len(),
        contains(text, keys[j]),
        forall|k: int| 0 <= k < j ==> !contains(text, #[trigger] keys[k]),
    ensures
        first_contained(text, pats, keys) == Some(pats[j]),
    decreases j,
{
    if j > 0 {
        assert(!contains(text, keys[0]));
        assert forall|k: int| 0 <= k < j - 1 implies !contains(text, #[trigger] keys.drop_first()[k]) by {
            assert(keys.drop_first()[k] == keys[k + 1]);
        }
        assert(keys.drop_first()[j - 1] == keys[j]);
        lemma_first_contained_at(text, pats.drop_first(), keys.drop_first(), j - 1);
        assert(pats.drop_first()[j - 1] == pats[j]);
    }
}

/// A line waits for input when its lowercase holds one of the default
/// patterns (`password:`, `passphrase:`, `[y/n]`, `(y/n)`, `yes/no`,
/// `[yes/no]`, `(yes/no)`, `continue?`, `proceed?`, `confirm`, `enter`,
/// `input:`, `prompt:`, `username:`, `user:`, `login:`, `token:`,
/// `api key:`, `secret:`, `[sudo]`, `are you sure`, `overwrite`, `replace`,
/// `delete`, `(y/n/a)`, `[y/n/a]`), whatever the other patterns; the
/// pattern reported is the first of these, in this order, that occurs.
pub proof fn law_default_input_patterns(
    line: Seq<char>,
    additional: Seq<Seq<char>>,
    custom: Seq<Seq<char>>,
    pats: Seq<Seq<char>>,
    j: int,
)
    requires
        pats == seq![
            "password:"@,
            "passphrase:"@,
            "[y/n]"@,
            "(y/n)"@,
            "yes/no"@,
            "[yes/no]"@,
            "(yes/no)"@,
            "continue?"@,
            "proceed?"@,
            "confirm"@,
            "enter"@,
            "input:"@,
            "prompt:"@,
            "username:"@,
            "user:"@,
            "login:"@,
            "token:"@,
            "api key:"@,
            "secret:"@,
            "[sudo]"@,
            "are you sure"@,
            "overwrite"@,
            "replace"@,
            "delete"@,
            "(y/n/a)"@,
            "[y/n/a]"@,
        ],
        0 <= j < pats.len(),
        contains(lowercase(line), pats[j]),
        forall|k: int| 0 <= k < j ==> !contains(lowercase(line), #[trigger] pats[k]),
    ensures
        input_pattern(line, additional, custom) == Some(pats[j]),
{
    assert(pats == default_input_patterns());
    lemma_first_contained_at(lowercase(line), pats, pats, j);
}

/// The abstract values of a list of strings.
pub open spec fn string_views(v: Seq<String>) -> Seq<Seq<char>> {
    v.map_values(|s: String| s@)
}

/// Action to take when a command requests input.
#[derive(Debug)]
pub enum InputAction {
    /// Provide the input text to the command.
    Provide(String),
    /// Cancel/kill the command.
    Cancel,
    /// Skip this input prompt.
    Skip,
    /// Send Ctrl+C (SIGINT) to the process.
    Interrupt,
    /// Send EOF (Ctrl+D) to close stdin.
    SendEof,
}

/// Context provided to the input callback with all available information.
#[derive(Debug)]
pub struct InputContext {
    /// The prompt/output that triggered the input request.
    pub prompt: String,
    /// All stdout collected so far.
    pub stdout_so_far: String,
    /// All stderr collected so far.
    pub stderr_so_far: String,
    /// The original command being executed.
    pub command: String,
    /// The arguments passed to the command.
    pub args: Vec<String>,
    /// Time elapsed in milliseconds since command started.
    pub elapsed_ms: u64,
    /// Which input pattern was matched (if any).
    pub matched_pattern: Option<String>,
}

/// An environment variable key-value pair.
#[derive(Debug)]
pub struct EnvVar {
    /// The environment variable name.
    pub name: String,
    /// The environment variable value.
    pub value: String,
}

/// Arguments for executing a command.
#[derive(Debug)]
pub struct CommandArgs {
    /// The command to execute (e.g. `ls`, `git`, `cargo`).
    pub command: String,
    /// Arguments to pass to the command.
    pub args: Vec<String>,
    /// Working directory for the command; the current one when absent.
    pub working_dir: Option<String>,
    /// Environment variables to set for the command.
    pub env: Vec<EnvVar>,
    /// Timeout in seconds; 0 for no timeout.
    pub timeout_secs: u64,
    /// Run the command in the background.
    pub background: bool,
    /// Use a shell to execute the command (allows pipes, redirects, etc.).
    pub use_shell: bool,
    /// Custom input patterns to detect (in addition to defaults).
    pub custom_input_patterns: Vec<String>,
}

/// The default timeout, in seconds: five minutes.
pub fn default_timeout() -> (r: u64)
    ensures
        r == 300,
{
    300
}

/// Result of a command execution.
#[derive(Debug)]
pub struct CommandResult {
    /// The stdout output of the command.
    pub stdout: String,
    /// The stderr output of the command.
    pub stderr: String,
    /// The exit code of the command.
    pub exit_code: Option<i32>,
    /// Whether the command timed out.
    pub timed_out: bool,
    /// Whether the command was killed by user/callback.
    pub killed: bool,
    /// Duration of the command in milliseconds.
    pub duration_ms: u64,
    /// Reason for cancellation if killed.
    pub cancel_reason: Option<String>,
}

/// A tool that executes OS commands with interactive support.
pub struct CommandTool {
    /// Additional input patterns to detect.
    additional_patterns: Vec<String>,
}

/// The program to start and the arguments to give it.
pub struct CommandLine {
    pub program: String,
    pub args: Vec<String>,
}

/// The words joined by single spaces.
pub open spec fn join_words(ws: Seq<Seq<char>>) -> Seq<char>
    decreases ws.len(),
{
    if ws.len() == 0 {
        Seq::empty()
    } else if ws.len() == 1 {
        ws[0]
    } else {
        join_words(ws.drop_last()) + seq![' '] + ws.last()
    }
}

/// The command line that runs `command` with `args`: through the shell
/// (`cmd /C` on Windows, `sh -c` elsewhere) with the command and its
/// arguments joined by spaces, or directly.
pub open spec fn command_line(
    command: Seq<char>,
    args: Seq<Seq<char>>,
    use_shell: bool,
    windows: bool,
) -> (Seq<char>, Seq<Seq<char>>) {
    if use_shell {
        let full = if args.len() == 0 {
            command
        } else {
            command + seq![' '] + join_words(args)
        };
        if windows {
            ("cmd"@, seq!["/C"@, full])
        } else {
            ("sh"@, seq!["-c"@, full])
        }
    } else {
        (command, args)
    }
}

/// What the command loop does after an answer to an input prompt.
#[derive(Debug)]
pub enum InputStep {
    /// Write this text to the command's stdin.
    Write(String),
    /// Kill the command and record this reason.
    Cancel(String),
    /// Do nothing.
    Continue,
    /// Send SIGINT to the command.
    Interrupt,
    /// Close the command's stdin.
    CloseStdin,
}

/// How a finished command is reported: its status and message.
pub struct Outcome {
    pub status: String,
    pub message: Option<String>,
}

impl CommandTool {
    /// A new tool with no additional patterns.
    pub fn new() -> (res: Self)
        ensures
            res.patterns() == Seq::<Seq<char>>::empty(),
    {
        let res = CommandTool { additional_patterns: Vec::new() };
        assert(string_views(res.additional_patterns@) =~= Seq::<Seq<char>>::empty());
        res
    }

    /// The tool's additional input patterns.
    pub closed spec fn patterns(&self) -> Seq<Seq<char>> {
        string_views(self.additional_patterns@)
    }

    /// Sets the additional patterns that show a command waiting for input.
    pub fn with_additional_patterns(self, patterns: Vec<String>) -> (res: Self)
        ensures
            res.patterns() == string_views(patterns@),
    {
        CommandTool { additional_patterns: patterns }
    }

    /// The first pattern of `pats` whose lowercase occurs in `lower`.
    fn first_lowered(lower: &Vec<char>, pats: &[String]) -> (res: Option<String>)
        ensures
            match res {
                Some(p) => first_contained(lower@, string_views(pats@), lowercased(
                    string_views(pats@),
                )) == Some(p@),
                None => first_contained(lower@, string_views(pats@), lowercased(
                    string_views(pats@),
                )) is None,
            },
    {
        let ghost ps = string_views(pats@);
        let mut i: usize = 0;
        assert(ps.skip(0) =~= ps);
        assert(lowercased(ps).skip(0) =~= lowercased(ps));
        while i < pats.len()
            invariant
                i <= pats.len(),
                ps == string_views(pats@),
                first_contained(lower@, ps, lowercased(ps)) == first_contained(
                    lower@,
                    ps.skip(i as int),
                    lowercased(ps).skip(i as int),
                ),
            decreases pats.len() - i,
        {
            let key = to_lowercase(pats[i].as_str());
            let key_chars = chars_of(key.as_str());
            assert(ps.skip(i as int)[0] == pats@[i as int]@);
            assert(lowercased(ps).skip(i as int)[0] == lowercase(pats@[i as int]@));
            if contains_chars(lower.as_slice(), key_chars.as_slice()) {
                return Some(pats[i].clone());
            }
            assert(ps.skip(i as int).drop_first() =~= ps.skip(i + 1));
            assert(lowercased(ps).skip(i as int).drop_first() =~= lowercased(ps).skip(i + 1));
            i += 1;
        }
        None
    }

    /// The first default pattern that occurs in `lower`.
    fn first_default(lower: &Vec<char>) -> (res: Option<String>)
        ensures
            match res {
                Some(p) => first_contained(lower@, default_input_patterns(), default_input_patterns())
                    == Some(p@),
                None => first_contained(lower@, default_input_patterns(), default_input_patterns())
                    is None,
            },
    {
        let pats = input_patterns();
        let ghost ds = default_input_patterns();
        let mut i: usize = 0;
        assert(ds.skip(0) =~= ds);
        while i < pats.len()
            invariant
                i <= pats.len(),
                ds == default_input_patterns(),
                pats@.map_values(|p: &str| p@) == ds,
                first_contained(lower@, ds, ds) == first_contained(
                    lower@,
                    ds.skip(i as int),
                    ds.skip(i as int),
                ),
            decreases pats.len() - i,
        {
            let p = chars_of(pats[i]);
            assert(ds.skip(i as int)[0] == pats@[i as int]@);
            if contains_chars(lower.as_slice(), p.as_slice()) {
                return Some(String::from_str(pats[i]));
            }
            assert(ds.skip(i as int).drop_first() =~= ds.skip(i + 1));
            i += 1;
        }
        None
    }

    /// The pattern that shows `line` waiting for input, if any.
    pub fn find_input_pattern(&self, line: &str, custom_patterns: &[String]) -> (res: Option<String>)
        ensures
            match res {
                Some(p) => input_pattern(line@, self.patterns(), string_views(custom_patterns@))
                    == Some(p@),
                None => input_pattern(line@, self.patterns(), string_views(custom_patterns@)) is None,
            },
    {
        let lower_string = to_lowercase(line);
        let lower = chars_of(lower_string.as_str());
        if let Some(p) = Self::first_default(&lower) {
            return Some(p);
        }
        if let Some(p) = Self::first_lowered(&lower, self.additional_patterns.as_slice()) {
            return Some(p);
        }
        Self::first_lowered(&lower, custom_patterns)
    }

    /// What the input callback is told about an output line of a running
    /// command: nothing when the line shows no prompt; otherwise the line as
    /// the prompt, the pattern that matched it, the output so far, the
    /// command, its arguments and the time taken.
    pub fn prompt_context(
        &self,
        run: &CommandRun,
        line: &str,
        args: &CommandArgs,
        elapsed_ms: u64,
    ) -> (res: Option<InputContext>)
        ensures
            res is Some <==> input_pattern(
                line@,
                self.patterns(),
                string_views(args.custom_input_patterns@),
            ) is Some,
            res matches Some(ctx) ==> {
                &&& ctx.prompt@ == line@
                &&& ctx.matched_pattern matches Some(p) && input_pattern(
                    line@,
                    self.patterns(),
                    string_views(args.custom_input_patterns@),
                ) == Some(p@)
                &&& ctx.stdout_so_far@ == run.stdout@
                &&& ctx.stderr_so_far@ == run.stderr@
                &&& ctx.command@ == args.command@
                &&& ctx.args@ == args.args@
                &&& ctx.elapsed_ms == elapsed_ms
            },
    {
        match self.find_input_pattern(line, args.custom_input_patterns.as_slice()) {
            Some(p) => Some(run.context(String::from_str(line), args, elapsed_ms, Some(p))),
            None => None,
        }
    }

    /// Whether the output `line` shows the command waiting for input.
    pub fn needs_input(&self, line: &str, custom_patterns: &[String]) -> (r: bool)
        ensures
            r == input_pattern(line@, self.patterns(), string_views(custom_patterns@)) is Some,
    {
        self.find_input_pattern(line, custom_patterns).is_some()
    }

    /// The program and arguments that run `args`; `windows` selects the
    /// Windows shell.
    pub fn command_line(args: &CommandArgs, windows: bool) -> (res: CommandLine)
        ensures
            (res.program@, string_views(res.args@)) == command_line(
                args.command@,
                string_views(args.args@),
                args.use_shell,
                windows,
            ),
    {
        if args.use_shell {
            let mut full = args.command.clone();
            if args.args.len() > 0 {
                crate::text::push_char(&mut full, ' ');
                let joined = join_args(&args.args);
                full.append(joined.as_str());
            }
            assert(full@ == (if args.args@.len() == 0 {
                args.command@
            } else {
                args.command@ + seq![' '] + join_words(string_views(args.args@))
            }));
            let (shell, flag) = if windows {
                (String::from_str("cmd"), String::from_str("/C"))
            } else {
                (String::from_str("sh"), String::from_str("-c"))
            };
            let ghost full_view = full@;
            let ghost flag_view = flag@;
            let mut argv: Vec<String> = Vec::new();
            argv.push(flag);
            argv.push(full);
            assert(string_views(argv@) =~= seq![flag_view, full_view]);
            CommandLine { program: shell, args: argv }
        } else {
            let mut argv: Vec<String> = Vec::new();
            let mut i: usize = 0;
            while i < args.args.len()
                invariant
                    i <= args.args.len(),
                    string_views(argv@) == string_views(args.args@).take(i as int),
                decreases args.args.len() - i,
            {
                let ghost before = string_views(argv@);
                argv.push(args.args[i].clone());
                assert(string_views(argv@) =~= before.push(args.args@[i as int]@));
                assert(string_views(args.args@).take(i + 1) =~= string_views(args.args@).take(
                    i as int,
                ).push(args.args@[i as int]@));
                i += 1;
            }
            assert(string_views(args.args@).take(i as int) =~= string_views(args.args@));
            CommandLine { program: args.command.clone(), args: argv }
        }
    }
}

/// The arguments joined by single spaces.
fn join_args(args: &Vec<String>) -> (res: String)
    ensures
        res@ == join_words(string_views(args@)),
{
    let ghost ws = string_views(args@);
    let mut res = String::new();
    let mut i: usize = 0;
    while i < args.len()
        invariant
            i <= args.len(),
            ws == string_views(args@),
            res@ == join_words(ws.take(i as int)),
        decreases args.len() - i,
    {
        if i > 0 {
            crate::text::push_char(&mut res, ' ');
        }
        res.append(args[i].as_str());
        assert(ws.take(i + 1).drop_last() =~= ws.take(i as int));
        i += 1;
    }
    assert(ws.take(i as int) =~= ws);
    res
}

/// The text written to stdin for an answer: the answer, ended by a line feed.
pub open spec fn input_with_newline(input: Seq<char>) -> Seq<char> {
    if input.len() > 0 && input.last() == '\n' {
        input
    } else {
        input.push('\n')
    }
}

/// What the command loop does with an answer to an input prompt.
pub fn input_step(action: InputAction) -> (res: InputStep)
    ensures
        match action {
            InputAction::Provide(s) => res matches InputStep::Write(w) && w@ == input_with_newline(
                s@,
            ),
            InputAction::Cancel => res matches InputStep::Cancel(r) && r@ == "Cancelled by callback"@,
            InputAction::Skip => res is Continue,
            InputAction::Interrupt => res is Interrupt,
            InputAction::SendEof => res is CloseStdin,
        },
{
    match action {
        InputAction::Provide(input) => {
            let cs = chars_of(input.as_str());
            let nl: Vec<char> = vec!['\n'];
            assert(nl@ =~= seq!['\n']);
            if ends_with_chars(cs.as_slice(), nl.as_slice()) {
                assert(cs@.skip(cs@.len() - 1) =~= seq![cs@.last()]);
                InputStep::Write(input)
            } else {
                proof {
                    if cs@.len() > 0 && cs@.last() == '\n' {
                        assert(cs@.skip(cs@.len() - 1) =~= seq!['\n']);
                    }
                }
                let mut w = input;
                crate::text::push_char(&mut w, '\n');
                InputStep::Write(w)
            }
        },
        InputAction::Cancel => InputStep::Cancel(String::from_str("Cancelled by callback")),
        InputAction::Skip => InputStep::Continue,
        InputAction::Interrupt => InputStep::Interrupt,
        InputAction::SendEof => InputStep::CloseStdin,
    }
}

/// The result of a command that ran out of time: killed, with no exit code.
pub fn timed_out_result(stdout: String, stderr: String, duration_ms: u64) -> (res: CommandResult)
    ensures
        res.stdout == stdout,
        res.stderr == stderr,
        res.exit_code is None,
        res.timed_out,
        res.killed,
        res.duration_ms == duration_ms,
        res.cancel_reason is None,
{
    CommandResult {
        stdout,
        stderr,
        exit_code: None,
        timed_out: true,
        killed: true,
        duration_ms,
        cancel_reason: None,
    }
}

/// The result of a command that finished: killed exactly when it was cancelled.
pub fn finished_result(
    stdout: String,
    stderr: String,
    exit_code: Option<i32>,
    cancel_reason: Option<String>,
    duration_ms: u64,
) -> (res: CommandResult)
    ensures
        res.stdout == stdout,
        res.stderr == stderr,
        res.exit_code == exit_code,
        !res.timed_out,
        res.killed == cancel_reason is Some,
        res.duration_ms == duration_ms,
        res.cancel_reason == cancel_reason,
{
    let killed = cancel_reason.is_some();
    CommandResult { stdout, stderr, exit_code, timed_out: false, killed, duration_ms, cancel_reason }
}

/// How long a command may run: `timeout_secs` seconds, or without limit
/// when it is 0.
pub fn time_limit(timeout_secs: u64) -> (res: Option<u64>)
    ensures
        res == if timeout_secs > 0 {
            Some(timeout_secs)
        } else {
            None
        },
{
    if timeout_secs > 0 {
        Some(timeout_secs)
    } else {
        None
    }
}

/// The reason a command killed at the callback's request is given.
pub open spec fn callback_cancel_reason() -> Seq<char> {
    "Cancelled by callback"@
}

/// The state of a running command: all it has written to stdout and to
/// stderr so far, and why it was cancelled, if it was.
pub struct CommandRun {
    pub stdout: String,
    pub stderr: String,
    pub cancel_reason: Option<String>,
}

impl CommandRun {
    /// The only reason a run records is the callback's cancellation.
    pub open spec fn wf(&self) -> bool {
        self.cancel_reason matches Some(r) ==> r@ == callback_cancel_reason()
    }

    /// A run that has written nothing and was not cancelled.
    pub fn new() -> (res: Self)
        ensures
            res.wf(),
            res.stdout@.len() == 0,
            res.stderr@.len() == 0,
            res.cancel_reason is None,
    {
        CommandRun { stdout: String::new(), stderr: String::new(), cancel_reason: None }
    }

    /// Records a line the command wrote to stdout.
    pub fn record_stdout(&mut self, line: &str)
        ensures
            final(self).stdout@ == old(self).stdout@ + line@,
            final(self).stderr == old(self).stderr,
            final(self).cancel_reason == old(self).cancel_reason,
    {
        self.stdout.append(line);
    }

    /// Records a line the command wrote to stderr.
    pub fn record_stderr(&mut self, line: &str)
        ensures
            final(self).stderr@ == old(self).stderr@ + line@,
            final(self).stdout == old(self).stdout,
            final(self).cancel_reason == old(self).cancel_reason,
    {
        self.stderr.append(line);
    }

    /// What the callback is told about a prompt: the prompt line, the
    /// output so far, the command, its arguments, the time taken and the
    /// pattern that matched.
    pub fn context(
        &self,
        prompt: String,
        args: &CommandArgs,
        elapsed_ms: u64,
        matched_pattern: Option<String>,
    ) -> (res: InputContext)
        ensures
            res.prompt == prompt,
            res.stdout_so_far@ == self.stdout@,
            res.stderr_so_far@ == self.stderr@,
            res.command@ == args.command@,
            res.args@ == args.args@,
            res.elapsed_ms == elapsed_ms,
            res.matched_pattern == matched_pattern,
    {
        InputContext {
            prompt,
            stdout_so_far: self.stdout.clone(),
            stderr_so_far: self.stderr.clone(),
            command: args.command.clone(),
            args: crate::llm::requests::copy_strings(&args.args),
            elapsed_ms,
            matched_pattern,
        }
    }

    /// Applies an answer to a prompt: what the loop does next, and the
    /// cancellation recorded when the answer cancels.
    pub fn answer(&mut self, action: InputAction) -> (res: InputStep)
        requires
            old(self).wf(),
        ensures
            final(self).wf(),
            final(self).stdout == old(self).stdout,
            final(self).stderr == old(self).stderr,
            match action {
                InputAction::Provide(s) => res matches InputStep::Write(w) && w@
                    == input_with_newline(s@) && final(self).cancel_reason == old(self).cancel_reason,
                InputAction::Cancel => (res matches InputStep::Cancel(r) && r@
                    == callback_cancel_reason()) && (final(self).cancel_reason matches Some(c)
                    && c@ == callback_cancel_reason()),
                InputAction::Skip => res is Continue && final(self).cancel_reason == old(
                    self,
                ).cancel_reason,
                InputAction::Interrupt => res is Interrupt && final(self).cancel_reason == old(
                    self,
                ).cancel_reason,
                InputAction::SendEof => res is CloseStdin && final(self).cancel_reason == old(
                    self,
                ).cancel_reason,
            },
    {
        let step = input_step(action);
        match &step {
            InputStep::Cancel(r) => {
                self.cancel_reason = Some(r.clone());
            },
            _ => {},
        }
        step
    }

    /// The result of the run when it ran out of time.
    pub fn timed_out(self, duration_ms: u64) -> (res: CommandResult)
        ensures
            res.stdout == self.stdout,
            res.stderr == self.stderr,
            res.timed_out && res.killed && res.exit_code is None && res.cancel_reason is None,
            res.duration_ms == duration_ms,
    {
        timed_out_result(self.stdout, self.stderr, duration_ms)
    }

    /// The result of the run when the command ended with `exit_code`:
    /// killed exactly when the callback cancelled it, with that reason.
    pub fn finished(self, exit_code: Option<i32>, duration_ms: u64) -> (res: CommandResult)
        requires
            self.wf(),
        ensures
            res.stdout == self.stdout,
            res.stderr == self.stderr,
            !res.timed_out,
            res.exit_code == exit_code,
            res.duration_ms == duration_ms,
            res.cancel_reason == self.cancel_reason,
            res.killed == self.cancel_reason is Some,
            res.killed <==> (res.cancel_reason matches Some(r) && r@ == callback_cancel_reason()),
    {
        finished_result(self.stdout, self.stderr, exit_code, self.cancel_reason, duration_ms)
    }
}

/// How a result is reported: `timeout`, `cancelled` (with its reason, or a
/// default message), `success` for exit code 0, `error` otherwise.
pub open spec fn outcome_status(r: CommandResult) -> Seq<char> {
    if r.timed_out {
        "timeout"@
    } else if r.killed {
        "cancelled"@
    } else if r.exit_code == Some(0i32) {
        "success"@
    } else {
        "error"@
    }
}

/// An exit code as `{:?}` writes an `Option<i32>`.
pub open spec fn exit_code_text(c: Option<i32>) -> Seq<char> {
    match c {
        Some(n) => "Some("@ + crate::storage::signed_text(n as int) + ")"@,
        None => "None"@,
    }
}

/// The message that goes with a timed-out, cancelled or failed result.
pub open spec fn outcome_message(r: CommandResult) -> Option<Seq<char>> {
    if r.timed_out {
        Some("Command timed out"@)
    } else if r.killed {
        match r.cancel_reason {
            Some(m) => Some(m@),
            None => Some("Command was cancelled"@),
        }
    } else if r.exit_code == Some(0i32) {
        None
    } else {
        Some("Command exited with code "@ + exit_code_text(r.exit_code))
    }
}

/// The status and message that report `result`.
pub fn outcome(result: &CommandResult) -> (res: Outcome)
    ensures
        res.status@ == outcome_status(*result),
        crate::url::opt_string_view(res.message) == outcome_message(*result),
{
    if result.timed_out {
        Outcome {
            status: String::from_str("timeout"),
            message: Some(String::from_str("Command timed out")),
        }
    } else if result.killed {
        let message = match &result.cancel_reason {
            Some(m) => m.clone(),
            None => String::from_str("Command was cancelled"),
        };
        Outcome { status: String::from_str("cancelled"), message: Some(message) }
    } else if result.exit_code == Some(0i32) {
        Outcome { status: String::from_str("success"), message: None }
    } else {
        let mut m = crate::text::chars_of("Command exited with code ");
        match result.exit_code {
            Some(n) => {
                let open = crate::text::chars_of("Some(");
                crate::text::extend_chars(&mut m, open.as_slice());
                let digits = crate::storage::signed_string(n);
                let dc = crate::text::chars_of(digits.as_str());
                crate::text::extend_chars(&mut m, dc.as_slice());
                m.push(')');
                assert(seq![')'] == ")"@) by {
                    reveal_strlit(")");
                }
            },
            None => {
                let none = crate::text::chars_of("None");
                crate::text::extend_chars(&mut m, none.as_slice());
            },
        }
        Outcome { status: String::from_str("error"), message: Some(crate::text::string_from_vec(m)) }
    }
}

/// The number of the signal named `name` (compared in lowercase), as the
/// `kill` command takes it, or `None` for an unknown name.
pub open spec fn signal_number(lower: Seq<char>) -> Option<Seq<char>> {
    if lower == "kill"@ || lower == "sigkill"@ || lower == "9"@ {
        Some("9"@)
    } else if lower == "term"@ || lower == "sigterm"@ || lower == "15"@ {
        Some("15"@)
    } else if lower == "int"@ || lower == "sigint"@ || lower == "2"@ {
        Some("2"@)
    } else if lower == "stop"@ || lower == "sigstop"@ || lower == "19"@ {
        Some("19"@)
    } else if lower == "cont"@ || lower == "sigcont"@ || lower == "18"@ {
        Some("18"@)
    } else if lower == "hup"@ || lower == "sighup"@ || lower == "1"@ {
        Some("1"@)
    } else if lower == "usr1"@ || lower == "sigusr1"@ || lower == "10"@ {
        Some("10"@)
    } else if lower == "usr2"@ || lower == "sigusr2"@ || lower == "12"@ {
        Some("12"@)
    } else {
        None
    }
}

/// Arguments for sending a signal to a process.
#[derive(Debug)]
pub struct SignalArgs {
    /// Process ID to send the signal to.
    pub pid: u32,
    /// Signal to send: `kill`, `term`, `int`, `stop`, `cont`, `hup`, `usr1`, `usr2`.
    pub signal: String,
}

/// Tool for sending signals to processes.
pub struct SignalTool {}

/// Whether `s` is one of the three names `a`, `b`, `c`.
fn one_of(s: &[char], a: &str, b: &str, c: &str) -> (r: bool)
    ensures
        r == (s@ == a@ || s@ == b@ || s@ == c@),
{
    crate::text::chars_are(s, a) || crate::text::chars_are(s, b) || crate::text::chars_are(s, c)
}

impl SignalTool {
    /// The signal number for the signal named in `args`; an unknown name is
    /// an error that names it.
    pub fn signal_number(args: &SignalArgs) -> (res: Result<String, Error>)
        ensures
            match res {
                Ok(n) => signal_number(lowercase(args.signal@)) == Some(n@),
                Err(e) => signal_number(lowercase(args.signal@)) is None && (e matches Error::Generic(
                    m,
                ) && m@ == "Unknown signal: "@ + args.signal@),
            },
    {
        let lower_string = to_lowercase(args.signal.as_str());
        let lower = chars_of(lower_string.as_str());
        let l = lower.as_slice();
        if one_of(l, "kill", "sigkill", "9") {
            Ok(String::from_str("9"))
        } else if one_of(l, "term", "sigterm", "15") {
            Ok(String::from_str("15"))
        } else if one_of(l, "int", "sigint", "2") {
            Ok(String::from_str("2"))
        } else if one_of(l, "stop", "sigstop", "19") {
            Ok(String::from_str("19"))
        } else if one_of(l, "cont", "sigcont", "18") {
            Ok(String::from_str("18"))
        } else if one_of(l, "hup", "sighup", "1") {
            Ok(String::from_str("1"))
        } else if one_of(l, "usr1", "sigusr1", "10") {
            Ok(String::from_str("10"))
        } else if one_of(l, "usr2", "sigusr2", "12") {
            Ok(String::from_str("12"))
        } else {
            let mut m = String::from_str("Unknown signal: ");
            m.append(args.signal.as_str());
            Err(Error::Generic(m))
        }
    }
}

} // verus!
