//! Names for processes, given explicitly or derived from the command.

use crate::process::command::{CommandLine, EnvVar};
use std::borrow::Cow;
use vstd::prelude::*;
use vstd::std_specs::convert::FromSpecImpl;

verus! {

/// [`String::push`] appends one character.
pub assume_specification[ String::push ](string: &mut String, ch: char)
    ensures
        final(string)@ == old(string)@.push(ch),
;

/// [`String::pop`] takes the last character off and returns it, and `None` from an empty string.
pub assume_specification[ String::pop ](string: &mut String) -> (r: Option<char>)
    ensures
        match r {
            Some(ch) => {
                &&& old(string)@.len() > 0
                &&& ch == old(string)@.last()
                &&& final(string)@ == old(string)@.drop_last()
            },
            None => old(string)@.len() == 0 && final(string)@ == old(string)@,
        },
;

/// Controls how the process name is automatically generated when not explicitly provided.
///
/// This determines what information is included in the auto-generated process name
/// used in public errors, logs, and debugging output. The default captures only
/// the program name so command arguments and environment variables are not logged accidentally.
#[derive(Debug, Clone, Copy, PartialEq, Eq, Structural)]
pub enum AutoName {
    /// Capture a name from the command as specified by the provided settings.
    ///
    /// Example: `ls "-la"` from `Command::new("ls").arg("-la")` when using
    /// [`AutoName::program_with_args`].
    Using(AutoNameSettings),
    /// Capture the full Debug representation of the Command.
    ///
    /// Note: This includes internal implementation details of the command type. It may also show
    /// command arguments, environment variables, or other sensitive data.
    Debug,
}

impl AutoName {
    /// Capture only the program name.
    ///
    /// This is the safe default and excludes command arguments and environment variables.
    #[must_use]
    pub fn program_only() -> (r: Self)
        ensures
            r matches AutoName::Using(settings) && settings@ == Captured::program_only(),
    {
        Self::Using(AutoNameSettings::program_only())
    }

    /// Capture the program name and all arguments.
    ///
    /// Arguments may contain sensitive data. Use this only when arguments are safe to log.
    #[must_use]
    pub fn program_with_args() -> (r: Self)
        ensures
            r matches AutoName::Using(settings) && settings@ == (Captured {
                args: true,
                ..Captured::program_only()
            }),
    {
        Self::Using(AutoNameSettings::program_with_args())
    }

    /// Capture the program name together with all environment variables and arguments.
    ///
    /// Environment variables and arguments often contain credentials. Use this only when all
    /// captured values are safe to log.
    #[must_use]
    pub fn program_with_env_and_args() -> (r: Self)
        ensures
            r matches AutoName::Using(settings) && settings@ == (Captured {
                envs: true,
                args: true,
                ..Captured::program_only()
            }),
    {
        Self::Using(AutoNameSettings::program_with_env_and_args())
    }

    /// Capture the current directory together with the program name, environment variables, and arguments.
    ///
    /// Current directories, environment variables, and arguments may contain sensitive data. Use
    /// this only when all captured values are safe to log.
    #[must_use]
    pub fn full() -> (r: Self)
        ensures
            r matches AutoName::Using(settings) && settings@ == (Captured {
                current_dir: true,
                envs: true,
                program: true,
                args: true,
            }),
    {
        Self::Using(AutoNameSettings::full())
    }
}

impl Default for AutoName {
    fn default() -> (r: Self)
        ensures
            r matches AutoName::Using(settings) && settings@ == Captured::program_only(),
    {
        Self::program_only()
    }
}

/// The parts of a command that a name captures.
pub struct Captured {
    /// The directory the command runs in.
    pub current_dir: bool,
    /// The environment variables that are set.
    pub envs: bool,
    /// The program.
    pub program: bool,
    /// The arguments.
    pub args: bool,
}

impl Captured {
    /// Nothing but the program.
    pub open spec fn program_only() -> Captured {
        Captured { current_dir: false, envs: false, program: true, args: false }
    }
}

/// Controls in detail which parts of the command are automatically captured as the process name.
///
/// Process names are used in public error messages and tracing fields. Only capture
/// arguments, environment variables, or current directories when those values are safe to log.
/// Use [`AutoNameSettings::builder`] to opt into custom combinations; the builder defaults to
/// capturing only the program name.
#[derive(Debug, Clone, Copy, PartialEq, Eq, Structural)]
pub struct AutoNameSettings {
    include_current_dir: bool,
    include_envs: bool,
    include_program: bool,
    include_args: bool,
}

impl View for AutoNameSettings {
    type V = Captured;

    closed spec fn view(&self) -> Captured {
        Captured {
            current_dir: self.include_current_dir,
            envs: self.include_envs,
            program: self.include_program,
            args: self.include_args,
        }
    }
}

impl Default for AutoNameSettings {
    fn default() -> (r: Self)
        ensures
            r@ == Captured::program_only(),
    {
        Self {
            include_current_dir: false,
            include_envs: false,
            include_program: true,
            include_args: false,
        }
    }
}

/// Builds [`AutoNameSettings`]. The program name is always captured.
#[derive(Debug, Clone, Copy, PartialEq, Eq, Structural)]
pub struct AutoNameSettingsBuilder {
    settings: AutoNameSettings,
}

impl View for AutoNameSettingsBuilder {
    type V = Captured;

    closed spec fn view(&self) -> Captured {
        self.settings@
    }
}

impl AutoNameSettingsBuilder {
    /// Sets whether the current directory is captured.
    #[must_use]
    pub fn include_current_dir(self, include_current_dir: bool) -> (r: Self)
        ensures
            r@ == (Captured { current_dir: include_current_dir, ..self@ }),
    {
        Self { settings: AutoNameSettings { include_current_dir, ..self.settings } }
    }

    /// Sets whether the environment variables are captured.
    #[must_use]
    pub fn include_envs(self, include_envs: bool) -> (r: Self)
        ensures
            r@ == (Captured { envs: include_envs, ..self@ }),
    {
        Self { settings: AutoNameSettings { include_envs, ..self.settings } }
    }

    /// Sets whether the arguments are captured.
    #[must_use]
    pub fn include_args(self, include_args: bool) -> (r: Self)
        ensures
            r@ == (Captured { args: include_args, ..self@ }),
    {
        Self { settings: AutoNameSettings { include_args, ..self.settings } }
    }

    /// Finishes the settings.
    #[must_use]
    pub fn build(self) -> (r: AutoNameSettings)
        ensures
            r@ == self@,
    {
        self.settings
    }
}

/// The environment variables that are set, each as `key=value` with a space behind it.
pub open spec fn envs_text(envs: Seq<EnvVar>) -> Seq<char>
    decreases envs.len(),
{
    if envs.len() == 0 {
        Seq::empty()
    } else {
        let before = envs_text(envs.drop_last());
        match envs.last().value {
            Some(value) => (before + envs.last().key@).push('=') + value@.push(' '),
            None => before,
        }
    }
}

/// The arguments, each in double quotes with a space behind it.
pub open spec fn args_text(args: Seq<String>) -> Seq<char>
    decreases args.len(),
{
    if args.len() == 0 {
        Seq::empty()
    } else {
        args_text(args.drop_last()).push('"') + args.last()@.push('"').push(' ')
    }
}

/// The captured parts of a command, one after the other, each with a space behind it.
pub open spec fn captured_text(captured: Captured, cmd: CommandLine) -> Seq<char> {
    let dir = match cmd.current_dir {
        Some(current_dir) if captured.current_dir => current_dir@ + " % "@,
        _ => Seq::empty(),
    };
    let envs = if captured.envs {
        envs_text(cmd.envs@)
    } else {
        Seq::empty()
    };
    let program = if captured.program {
        cmd.program@.push(' ')
    } else {
        Seq::empty()
    };
    let args = if captured.args {
        args_text(cmd.args@)
    } else {
        Seq::empty()
    };
    dir + envs + program + args
}

/// The text without its last character, if that is a space.
pub open spec fn without_trailing_space(text: Seq<char>) -> Seq<char> {
    if text.len() > 0 && text.last() == ' ' {
        text.drop_last()
    } else {
        text
    }
}

impl AutoNameSettings {
    /// Starts settings that capture only the program name.
    #[must_use]
    pub fn builder() -> (r: AutoNameSettingsBuilder)
        ensures
            r@ == Captured::program_only(),
    {
        AutoNameSettingsBuilder { settings: Self::default() }
    }

    /// Capture the program name.
    ///
    /// Example: `Command::new("ls").arg("-la").env("FOO", "foo)` is captured as `"ls"`.
    #[must_use]
    pub fn program_only() -> (r: Self)
        ensures
            r@ == Captured::program_only(),
    {
        Self::default()
    }

    /// Capture the program name and all arguments.
    ///
    /// Example: `Command::new("ls").arg("-la").env("FOO", "foo)` is captured as `ls "-la"`.
    ///
    /// Arguments may contain tokens, passwords, signed URLs, or headers. Use this only when
    /// arguments are safe to show in public errors and logs or for debugging purposes.
    #[must_use]
    pub fn program_with_args() -> (r: Self)
        ensures
            r@ == (Captured { args: true, ..Captured::program_only() }),
    {
        Self::builder().include_args(true).build()
    }

    /// Capture the program name and all environment variables and arguments.
    ///
    /// Example: `Command::new("ls").arg("-la").env("FOO", "foo)` is captured as `FOO=foo ls "-la"`.
    ///
    /// Environment variables and arguments often contain credentials. Use this only when all
    /// captured values are safe to show in public errors and logs or for debugging purposes.
    #[must_use]
    pub fn program_with_env_and_args() -> (r: Self)
        ensures
            r@ == (Captured { envs: true, args: true, ..Captured::program_only() }),
    {
        Self::builder().include_envs(true).include_args(true).build()
    }

    /// Capture the directory and the program name and all environment variables and arguments.
    ///
    /// Example: `Command::new("ls").arg("-la").env("FOO", "foo)` is captured as
    /// `/some/dir % FOO=foo ls "-la"`.
    ///
    /// Current directories, environment variables, and arguments may contain sensitive data.
    /// Use this only when all captured values are safe to show in public errors and logs.
    #[must_use]
    pub fn full() -> (r: Self)
        ensures
            r@ == (Captured { current_dir: true, envs: true, program: true, args: true }),
    {
        Self::builder().include_current_dir(true).include_envs(true).include_args(true).build()
    }

    /// Makes a name of the captured parts of a command.
    #[must_use]
    pub fn format_cmd(self, cmd: &CommandLine) -> (r: String)
        ensures
            r@ == without_trailing_space(captured_text(self@, *cmd)),
    {
        let mut name = String::new();
        if self.include_current_dir {
            if let Some(current_dir) = &cmd.current_dir {
                name.append(current_dir.as_str());
                name.append(" % ");
            }
        }
        let ghost dir = name@;
        if self.include_envs {
            let mut i: usize = 0;
            assert(name@ =~= dir + envs_text(cmd.envs@.take(0)));
            while i < cmd.envs.len()
                invariant
                    i <= cmd.envs@.len(),
                    name@ == dir + envs_text(cmd.envs@.take(i as int)),
                decreases cmd.envs@.len() - i,
            {
                let ghost before = name@;
                let env = &cmd.envs[i];
                if let Some(value) = &env.value {
                    name.append(env.key.as_str());
                    name.push('=');
                    name.append(value.as_str());
                    name.push(' ');
                }
                proof {
                    let seen = cmd.envs@.take(i + 1);
                    assert(seen.drop_last() =~= cmd.envs@.take(i as int));
                    assert(name@ =~= dir + envs_text(seen));
                }
                i += 1;
            }
            assert(cmd.envs@.take(i as int) =~= cmd.envs@);
        }
        let ghost dir_envs = name@;
        if self.include_program {
            name.append(cmd.program.as_str());
            name.push(' ');
        }
        let ghost dir_envs_program = name@;
        if self.include_args {
            let mut i: usize = 0;
            assert(name@ =~= dir_envs_program + args_text(cmd.args@.take(0)));
            while i < cmd.args.len()
                invariant
                    i <= cmd.args@.len(),
                    name@ == dir_envs_program + args_text(cmd.args@.take(i as int)),
                decreases cmd.args@.len() - i,
            {
                name.push('"');
                name.append(cmd.args[i].as_str());
                name.push('"');
                name.push(' ');
                proof {
                    let seen = cmd.args@.take(i + 1);
                    assert(seen.drop_last() =~= cmd.args@.take(i as int));
                    assert(name@ =~= dir_envs_program + args_text(seen));
                }
                i += 1;
            }
            assert(cmd.args@.take(i as int) =~= cmd.args@);
        }
        assert(name@ =~= captured_text(self@, *cmd));
        if let Some(last) = name.pop() {
            if last != ' ' {
                name.push(last);
                assert(name@ =~= captured_text(self@, *cmd));
            }
        }
        name
    }
}

/// Specifies how a process should be named.
///
/// This enum allows you to either provide an explicit name or configure automatic
/// name generation. Using this type ensures you cannot accidentally set both an
/// explicit name and an auto-naming mode at the same time.
///
/// Process names are used in public error messages and tracing fields. Prefer
/// [`ProcessName::Explicit`] for stable safe labels when commands may contain secrets.
#[derive(Debug)]
pub enum ProcessName {
    /// Use an explicit custom name.
    ///
    /// Example: `ProcessName::Explicit("my-server")`
    Explicit(Cow<'static, str>),
    /// Auto-generate the name based on the command.
    ///
    /// The default automatic mode captures only the program name. Use argument,
    /// environment, or debug capture only when those values are safe to log.
    Auto(AutoName),
}

impl Clone for ProcessName {
    fn clone(&self) -> (r: Self)
        ensures
            match (*self, r) {
                (ProcessName::Explicit(name), ProcessName::Explicit(copy)) => copy@ == name@,
                (ProcessName::Auto(mode), ProcessName::Auto(copy)) => copy == mode,
                _ => false,
            },
    {
        match self {
            ProcessName::Explicit(name) => ProcessName::Explicit(copy_text(name)),
            ProcessName::Auto(mode) => ProcessName::Auto(*mode),
        }
    }
}

/// A second copy of the text.
fn copy_text(text: &Cow<'static, str>) -> (r: Cow<'static, str>)
    ensures
        r@ == text@,
{
    match text {
        Cow::Borrowed(text) => Cow::Borrowed(*text),
        Cow::Owned(text) => Cow::Owned(text.clone()),
    }
}

impl Default for ProcessName {
    fn default() -> (r: Self)
        ensures
            r matches ProcessName::Auto(AutoName::Using(settings)) && settings@
                == Captured::program_only(),
    {
        Self::Auto(AutoName::default())
    }
}

impl From<&'static str> for ProcessName {
    fn from(s: &'static str) -> (r: Self)
        ensures
            r matches ProcessName::Explicit(name) && name@ == s@,
    {
        Self::Explicit(Cow::Borrowed(s))
    }
}

impl FromSpecImpl<&'static str> for ProcessName {
    open spec fn obeys_from_spec() -> bool {
        true
    }

    open spec fn from_spec(s: &'static str) -> ProcessName {
        ProcessName::Explicit(Cow::Borrowed(s))
    }
}

impl From<String> for ProcessName {
    fn from(s: String) -> (r: Self)
        ensures
            r matches ProcessName::Explicit(name) && name@ == s@,
    {
        Self::Explicit(Cow::Owned(s))
    }
}

impl FromSpecImpl<String> for ProcessName {
    open spec fn obeys_from_spec() -> bool {
        true
    }

    open spec fn from_spec(s: String) -> ProcessName {
        ProcessName::Explicit(Cow::Owned(s))
    }
}

impl From<Cow<'static, str>> for ProcessName {
    fn from(s: Cow<'static, str>) -> (r: Self)
        ensures
            r == ProcessName::Explicit(s),
    {
        Self::Explicit(s)
    }
}

impl FromSpecImpl<Cow<'static, str>> for ProcessName {
    open spec fn obeys_from_spec() -> bool {
        true
    }

    open spec fn from_spec(s: Cow<'static, str>) -> ProcessName {
        ProcessName::Explicit(s)
    }
}

impl From<AutoName> for ProcessName {
    fn from(mode: AutoName) -> (r: Self)
        ensures
            r == ProcessName::Auto(mode),
    {
        Self::Auto(mode)
    }
}

impl FromSpecImpl<AutoName> for ProcessName {
    open spec fn obeys_from_spec() -> bool {
        true
    }

    open spec fn from_spec(mode: AutoName) -> ProcessName {
        ProcessName::Auto(mode)
    }
}

impl From<AutoNameSettings> for AutoName {
    fn from(settings: AutoNameSettings) -> (r: Self)
        ensures
            r == AutoName::Using(settings),
    {
        Self::Using(settings)
    }
}

impl FromSpecImpl<AutoNameSettings> for AutoName {
    open spec fn obeys_from_spec() -> bool {
        true
    }

    open spec fn from_spec(settings: AutoNameSettings) -> AutoName {
        AutoName::Using(settings)
    }
}

impl From<AutoNameSettings> for ProcessName {
    fn from(settings: AutoNameSettings) -> (r: Self)
        ensures
            r == ProcessName::Auto(AutoName::Using(settings)),
    {
        Self::Auto(AutoName::Using(settings))
    }
}

impl FromSpecImpl<AutoNameSettings> for ProcessName {
    open spec fn obeys_from_spec() -> bool {
        true
    }

    open spec fn from_spec(settings: AutoNameSettings) -> ProcessName {
        ProcessName::Auto(AutoName::Using(settings))
    }
}

/// The name of a process that runs `cmd`.
pub open spec fn process_name(name: ProcessName, cmd: CommandLine) -> Seq<char> {
    match name {
        ProcessName::Explicit(name) => name@,
        ProcessName::Auto(AutoName::Using(settings)) => without_trailing_space(
            captured_text(settings@, cmd),
        ),
        ProcessName::Auto(AutoName::Debug) => cmd.debug_text@,
    }
}

/// Names a process that runs `cmd`.
#[must_use]
pub fn generate_name(name: &ProcessName, cmd: &CommandLine) -> (r: Cow<'static, str>)
    ensures
        r@ == process_name(*name, *cmd),
        *name matches ProcessName::Explicit(text) ==> r@ == text@,
        *name == ProcessName::Auto(AutoName::Debug) ==> r@ == cmd.debug_text@,
{
    match name {
        ProcessName::Explicit(name) => copy_text(name),
        ProcessName::Auto(auto_name) => match auto_name {
            AutoName::Using(settings) => Cow::Owned(settings.format_cmd(cmd)),
            AutoName::Debug => Cow::Owned(cmd.debug_text.clone()),
        },
    }
}

/// A name that captures only the program is the program, whatever directory, environment and
/// arguments the command has. None of those can leak into it.
pub proof fn program_only_name_is_the_program(cmd: CommandLine)
    ensures
        without_trailing_space(captured_text(Captured::program_only(), cmd)) == cmd.program@,
{
    let empty = Seq::<char>::empty();
    assert(empty + empty + cmd.program@.push(' ') + empty =~= cmd.program@.push(' '));
    assert(cmd.program@.push(' ').drop_last() =~= cmd.program@);
}

/// A name only depends on the parts of the command that it captures.
pub proof fn name_shows_only_what_is_captured(
    captured: Captured,
    cmd: CommandLine,
    other: CommandLine,
)
    requires
        captured.current_dir ==> cmd.current_dir == other.current_dir,
        captured.envs ==> cmd.envs@ == other.envs@,
        captured.program ==> cmd.program@ == other.program@,
        captured.args ==> cmd.args@ == other.args@,
    ensures
        captured_text(captured, cmd) == captured_text(captured, other),
{
}

/// One argument after the other: what a name shows of two lists of arguments together is what it shows
/// of the first, followed by what it shows of the second.
pub proof fn args_text_concat(first: Seq<String>, second: Seq<String>)
    ensures
        args_text(first + second) == args_text(first) + args_text(second),
    decreases second.len(),
{
    if second.len() == 0 {
        assert(first + second =~= first);
        assert(args_text(first) + args_text(second) =~= args_text(first));
    } else {
        args_text_concat(first, second.drop_last());
        assert((first + second).drop_last() =~= first + second.drop_last());
        assert((first + second).last() == second.last());
        assert(args_text(first + second) =~= args_text(first) + args_text(second));
    }
}

/// A name shows an argument in double quotes, and a space behind it.
pub proof fn args_text_of_one(arg: String)
    ensures
        args_text(seq![arg]) == seq!['"'] + arg@ + seq!['"', ' '],
{
    reveal_with_fuel(args_text, 2);
    assert(seq![arg].drop_last() =~= Seq::<String>::empty());
    assert(args_text(seq![arg]) =~= seq!['"'] + arg@ + seq!['"', ' ']);
}

/// A name shows every argument in double quotes with a space behind it, in order.
pub proof fn args_text_shows_every_argument(args: Seq<String>)
    ensures
        args_text(args) == args.map_values(
            |arg: String| seq!['"'] + arg@ + seq!['"', ' '],
        ).flatten(),
    decreases args.len(),
{
    let quoted = |arg: String| seq!['"'] + arg@ + seq!['"', ' '];
    let parts = args.map_values(quoted);
    if args.len() > 0 {
        args_text_shows_every_argument(args.skip(1));
        args_text_concat(seq![args[0]], args.skip(1));
        args_text_of_one(args[0]);
        assert(seq![args[0]] + args.skip(1) =~= args);
        assert(parts.drop_first() =~= args.skip(1).map_values(quoted));
    } else {
        assert(parts =~= Seq::<Seq<char>>::empty());
    }
}

/// One variable after the other: what a name shows of two lists of environment variables together is
/// what it shows of the first, followed by what it shows of the second.
pub proof fn envs_text_concat(first: Seq<EnvVar>, second: Seq<EnvVar>)
    ensures
        envs_text(first + second) == envs_text(first) + envs_text(second),
    decreases second.len(),
{
    if second.len() == 0 {
        assert(first + second =~= first);
        assert(envs_text(first) + envs_text(second) =~= envs_text(first));
    } else {
        envs_text_concat(first, second.drop_last());
        assert((first + second).drop_last() =~= first + second.drop_last());
        assert((first + second).last() == second.last());
        assert(envs_text(first + second) =~= envs_text(first) + envs_text(second));
    }
}

/// A name shows a variable that is set as its name, an equals sign, its value and a space. One that is
/// removed does not show.
pub proof fn envs_text_of_one(env: EnvVar)
    ensures
        envs_text(seq![env]) == match env.value {
            Some(value) => env.key@ + seq!['='] + value@ + seq![' '],
            None => Seq::<char>::empty(),
        },
{
    reveal_with_fuel(envs_text, 2);
    assert(seq![env].drop_last() =~= Seq::<EnvVar>::empty());
    if let Some(value) = env.value {
        assert(envs_text(seq![env]) =~= env.key@ + seq!['='] + value@ + seq![' ']);
    }
}

/// A name shows every variable that is set, in order.
pub proof fn envs_text_shows_every_variable(envs: Seq<EnvVar>)
    ensures
        envs_text(envs) == envs.map_values(
            |env: EnvVar| match env.value {
                Some(value) => env.key@ + seq!['='] + value@ + seq![' '],
                None => Seq::<char>::empty(),
            },
        ).flatten(),
    decreases envs.len(),
{
    let shown = |env: EnvVar| match env.value {
        Some(value) => env.key@ + seq!['='] + value@ + seq![' '],
        None => Seq::<char>::empty(),
    };
    let parts = envs.map_values(shown);
    if envs.len() > 0 {
        envs_text_shows_every_variable(envs.skip(1));
        envs_text_concat(seq![envs[0]], envs.skip(1));
        envs_text_of_one(envs[0]);
        assert(seq![envs[0]] + envs.skip(1) =~= envs);
        assert(parts.drop_first() =~= envs.skip(1).map_values(shown));
    } else {
        assert(parts =~= Seq::<Seq<char>>::empty());
    }
}

/// The name made of the captured parts of a command.
pub open spec fn captured_name(captured: Captured, cmd: CommandLine) -> Seq<char> {
    without_trailing_space(captured_text(captured, cmd))
}

/// A name that captures the program and the arguments is the program, followed by every argument in
/// double quotes with a space before it.
pub proof fn name_with_args_lists_them_all(cmd: CommandLine)
    ensures
        captured_name((Captured { args: true, ..Captured::program_only() }), cmd) == cmd.program@
            + cmd.args@.map_values(
            |arg: String| seq![' ', '"'] + arg@ + seq!['"'],
        ).flatten(),
{
    let captured = Captured { args: true, ..Captured::program_only() };
    let spaced = |arg: String| seq![' ', '"'] + arg@ + seq!['"'];
    let text = captured_text(captured, cmd);
    let empty = Seq::<char>::empty();
    shift_space(cmd.args@);
    assert(text =~= cmd.program@ + (seq![' '] + args_text(cmd.args@)));
    assert(text =~= (cmd.program@ + cmd.args@.map_values(spaced).flatten()).push(' '));
    assert(text.drop_last() =~= cmd.program@ + cmd.args@.map_values(spaced).flatten());
}

/// The space behind every argument can be counted as the one before the next.
proof fn shift_space(args: Seq<String>)
    ensures
        seq![' '] + args_text(args) == args.map_values(
            |arg: String| seq![' ', '"'] + arg@ + seq!['"'],
        ).flatten().push(' '),
    decreases args.len(),
{
    let spaced = |arg: String| seq![' ', '"'] + arg@ + seq!['"'];
    let parts = args.map_values(spaced);
    if args.len() > 0 {
        let rest = args.skip(1);
        shift_space(rest);
        args_text_concat(seq![args[0]], rest);
        args_text_of_one(args[0]);
        assert(seq![args[0]] + rest =~= args);
        assert(parts.drop_first() =~= rest.map_values(spaced));
        assert(parts.flatten() == parts[0] + rest.map_values(spaced).flatten());
        assert(seq![' '] + args_text(args) =~= parts[0] + (seq![' '] + args_text(rest)));
        assert(parts[0] + rest.map_values(spaced).flatten().push(' ') =~= parts.flatten().push(' '));
    } else {
        assert(parts =~= Seq::<Seq<char>>::empty());
        assert(seq![' '] + args_text(args) =~= parts.flatten().push(' '));
    }
}

/// One argument more adds a space and the argument in double quotes to a name that captures the
/// program and the arguments, whatever else it captures.
pub proof fn one_argument_more_shows_behind_the_name(
    captured: Captured,
    cmd: CommandLine,
    longer: CommandLine,
    arg: String,
)
    requires
        captured.program,
        captured.args,
        longer.args@ == cmd.args@.push(arg),
        longer.program@ == cmd.program@,
        longer.envs@ == cmd.envs@,
        longer.current_dir == cmd.current_dir,
    ensures
        captured_name(captured, longer) == captured_name(captured, cmd) + seq![' ', '"'] + arg@
            + seq!['"'],
{
    args_text_concat(cmd.args@, seq![arg]);
    args_text_of_one(arg);
    assert(cmd.args@ + seq![arg] =~= longer.args@);
    text_ends_with_space(captured, cmd);
    let before = captured_text(captured, cmd);
    let after = captured_text(captured, longer);
    assert(after =~= before + args_text(seq![arg]));
    assert(after.drop_last() =~= before.drop_last() + seq![' ', '"'] + arg@ + seq!['"']);
}

proof fn text_ends_with_space(captured: Captured, cmd: CommandLine)
    requires
        captured.program,
    ensures
        captured_text(captured, cmd).len() > 0,
        captured_text(captured, cmd).last() == ' ',
{
    if captured.args && cmd.args@.len() > 0 {
        let args = args_text(cmd.args@);
        assert(args.last() == ' ');
        assert(captured_text(captured, cmd).last() == args.last());
    }
}

/// A name that captures the directory shows it first, followed by a percent sign between spaces, and
/// is otherwise the name that does not capture it.
pub proof fn directory_shows_before_the_name(captured: Captured, cmd: CommandLine)
    requires
        captured.program,
    ensures
        captured_name((Captured { current_dir: true, ..captured }), cmd)
            == match cmd.current_dir {
            Some(current_dir) => current_dir@ + seq![' ', '%', ' '],
            None => Seq::<char>::empty(),
        } + captured_name((Captured { current_dir: false, ..captured }), cmd),
{
    let with = Captured { current_dir: true, ..captured };
    let without = Captured { current_dir: false, ..captured };
    let dir = match cmd.current_dir {
        Some(current_dir) => current_dir@ + seq![' ', '%', ' '],
        None => Seq::<char>::empty(),
    };
    reveal_strlit(" % ");
    text_ends_with_space(with, cmd);
    text_ends_with_space(without, cmd);
    assert(" % "@ =~= seq![' ', '%', ' ']);
    assert(captured_text(with, cmd) =~= dir + captured_text(without, cmd));
    assert(captured_text(with, cmd).drop_last() =~= dir + captured_text(without, cmd).drop_last());
}

/// A name that captures the environment shows every variable that is set, as `key=value` with a space
/// behind it, before the program and the arguments. Variables that are removed do not show.
pub proof fn environment_shows_before_the_program(captured: Captured, cmd: CommandLine)
    requires
        captured.program,
        !captured.current_dir,
    ensures
        captured_name((Captured { envs: true, ..captured }), cmd) == cmd.envs@.map_values(
            |env: EnvVar| match env.value {
                Some(value) => env.key@ + seq!['='] + value@ + seq![' '],
                None => Seq::<char>::empty(),
            },
        ).flatten() + captured_name((Captured { envs: false, ..captured }), cmd),
{
    let with = Captured { envs: true, ..captured };
    let without = Captured { envs: false, ..captured };
    envs_text_shows_every_variable(cmd.envs@);
    text_ends_with_space(with, cmd);
    text_ends_with_space(without, cmd);
    let envs = envs_text(cmd.envs@);
    assert(captured_text(with, cmd) =~= envs + captured_text(without, cmd));
    assert(captured_text(with, cmd).drop_last() =~= envs + captured_text(without, cmd).drop_last());
}

/// An explicit name is taken as it is, whatever the command is.
pub proof fn explicit_name_is_taken_as_it_is(name: Cow<'static, str>, cmd: CommandLine)
    ensures
        process_name(ProcessName::Explicit(name), cmd) == name@,
{
}

/// A derived name is made of the captured parts of the command, or is its debug representation.
pub proof fn derived_name_follows_its_mode(settings: AutoNameSettings, cmd: CommandLine)
    ensures
        process_name(ProcessName::Auto(AutoName::Using(settings)), cmd) == captured_name(
            settings@,
            cmd,
        ),
        process_name(ProcessName::Auto(AutoName::Debug), cmd) == cmd.debug_text@,
{
}

} // verus!
