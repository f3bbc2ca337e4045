use std::borrow::Cow;
use std::path::PathBuf;

use tokio::process::Command;
use tokio_process_tools::process::unstaged;
use tokio_process_tools::{
    generate_name, AutoName, AutoNameSettings, CommandLine, DiscardedStreamConfig, EnvVar,
    NumBytesExt, Process, ProcessName, ProcessStreamBuilder,
};

fn command_with_args_env_and_current_dir() -> Command {
    let mut cmd = Command::new("ls");
    cmd.arg("-la");
    cmd.env("FOO", "foo");
    cmd.current_dir(PathBuf::from("./"));
    cmd
}

fn command_line(cmd: &Command) -> CommandLine {
    let std_cmd = cmd.as_std();
    CommandLine {
        current_dir: std_cmd
            .get_current_dir()
            .map(|dir| dir.to_string_lossy().into_owned()),
        envs: std_cmd
            .get_envs()
            .map(|(key, value)| EnvVar {
                key: key.to_string_lossy().into_owned(),
                value: value.map(|value| value.to_string_lossy().into_owned()),
            })
            .collect(),
        program: std_cmd.get_program().to_string_lossy().into_owned(),
        args: std_cmd
            .get_args()
            .map(|arg| arg.to_string_lossy().into_owned())
            .collect(),
        debug_text: format!("{cmd:?}"),
    }
}

fn generated_name(name: impl Into<ProcessName>, cmd: &Command) -> String {
    let name = name.into();
    generate_name(&name, &command_line(cmd)).into_owned()
}

#[test]
fn auto_name_defaults_to_safe_program_only_naming() {
    let mut cmd = command_with_args_env_and_current_dir();
    let sensitive_arg = "--token=secret-token-should-not-be-logged";
    cmd.arg(sensitive_arg);

    let default_process_name = generated_name(ProcessName::default(), &cmd);
    let default_auto_name = generated_name(AutoName::default(), &cmd);
    let program_only_name = generated_name(AutoName::program_only(), &cmd);
    let builder_default_name = generated_name(AutoNameSettings::builder().build(), &cmd);

    for name in [
        default_process_name.as_str(),
        default_auto_name.as_str(),
        program_only_name.as_str(),
        builder_default_name.as_str(),
    ] {
        assert_eq!(name, "ls");
        assert!(!name.contains(sensitive_arg));
    }
}

#[test]
fn auto_name_presets_match_settings_and_expected_output() {
    let cmd = command_with_args_env_and_current_dir();
    let cases = [
        (
            AutoName::program_only(),
            AutoNameSettings::program_only(),
            "ls",
        ),
        (
            AutoName::program_with_args(),
            AutoNameSettings::program_with_args(),
            "ls \"-la\"",
        ),
        (
            AutoName::program_with_env_and_args(),
            AutoNameSettings::program_with_env_and_args(),
            "FOO=foo ls \"-la\"",
        ),
        (
            AutoName::full(),
            AutoNameSettings::full(),
            "./ % FOO=foo ls \"-la\"",
        ),
    ];

    for (auto_name, settings, expected) in cases {
        assert_eq!(auto_name, AutoName::Using(settings));
        assert_eq!(generated_name(auto_name, &cmd), expected);
        assert_eq!(generated_name(settings, &cmd), expected);
    }
}

#[test]
fn auto_name_debug_uses_command_debug_string() {
    let cmd = command_with_args_env_and_current_dir();

    assert_eq!(
        generated_name(ProcessName::Auto(AutoName::Debug), &cmd),
        "Command { std: cd \"./\" && FOO=\"foo\" \"ls\" \"-la\", kill_on_drop: false }",
    );
}

#[test]
fn auto_name_settings_builder_supports_custom_combination() {
    let cmd = command_with_args_env_and_current_dir();

    assert_eq!(
        generated_name(
            AutoNameSettings::builder()
                .include_current_dir(true)
                .include_args(true)
                .build(),
            &cmd,
        ),
        "./ % ls \"-la\""
    );
}

#[test]
fn envs_and_args_are_separated_by_spaces() {
    let line = CommandLine {
        current_dir: None,
        envs: vec![
            EnvVar {
                key: "A".to_string(),
                value: Some("1".to_string()),
            },
            EnvVar {
                key: "REMOVED".to_string(),
                value: None,
            },
            EnvVar {
                key: "B".to_string(),
                value: Some("2".to_string()),
            },
        ],
        program: "cargo".to_string(),
        args: vec!["run".to_string(), "--release".to_string()],
        debug_text: String::new(),
    };
    assert_eq!(
        AutoNameSettings::full().format_cmd(&line),
        "A=1 B=2 cargo \"run\" \"--release\""
    );
    assert_eq!(
        AutoNameSettings::program_with_args().format_cmd(&line),
        "cargo \"run\" \"--release\""
    );
}

#[test]
fn names_can_be_given_as_any_text() {
    let line = command_line(&command_with_args_env_and_current_dir());
    for name in [
        ProcessName::from("my-process"),
        ProcessName::from("my-process".to_string()),
        ProcessName::from(Cow::Borrowed("my-process")),
    ] {
        assert_eq!(generate_name(&name, &line), "my-process");
        assert_eq!(generate_name(&name.clone(), &line), "my-process");
    }
}

fn unstaged_name(configure: impl FnOnce(unstaged::Process<u8>) -> unstaged::Process<u8>) -> String {
    let line = command_line(&command_with_args_env_and_current_dir());
    configure(unstaged::Process::new(0))
        .generate_name(&line)
        .into_owned()
}

#[test]
fn process_builder_auto_name_captures_command_with_args_if_not_otherwise_specified() {
    assert_eq!(unstaged_name(|process| process), "ls \"-la\"");
}

#[test]
fn process_builder_auto_name_only_captures_command_when_requested() {
    let mode = AutoName::Using(AutoNameSettings::program_only());
    assert_eq!(unstaged_name(|process| process.with_auto_name(mode)), "ls");
}

#[test]
fn process_builder_auto_name_captures_command_with_envs_and_args_when_requested() {
    let mode = AutoName::Using(AutoNameSettings::program_with_env_and_args());
    assert_eq!(
        unstaged_name(|process| process.with_auto_name(mode)),
        "FOO=foo ls \"-la\""
    );
}

#[test]
fn process_builder_auto_name_captures_command_with_current_dir_envs_and_args_when_requested() {
    let mode = AutoName::Using(AutoNameSettings::full());
    assert_eq!(
        unstaged_name(|process| process.with_auto_name(mode)),
        "./ % FOO=foo ls \"-la\""
    );
    assert_eq!(
        unstaged_name(|process| process.name(mode)),
        "./ % FOO=foo ls \"-la\""
    );
}

#[test]
fn process_builder_auto_name_captures_full_command_debug_string_when_requested() {
    assert_eq!(
        unstaged_name(|process| process.with_auto_name(AutoName::Debug)),
        "Command { std: cd \"./\" && FOO=\"foo\" \"ls\" \"-la\", kill_on_drop: false }"
    );
}

#[test]
fn process_builder_custom_name() {
    let id = 42;
    assert_eq!(
        unstaged_name(|process| process.with_name(format!("worker-{id}"))),
        "worker-42"
    );
}

#[test]
fn process_sizes_can_be_set_together_and_apart() {
    let process = unstaged::Process::new(0u8);
    assert_eq!(process.stdout_chunk_size, 16.kilobytes());
    assert_eq!(process.stderr_chunk_size, 16.kilobytes());
    assert_eq!(process.stdout_capacity, 128);
    assert_eq!(process.stderr_capacity, 128);

    let process = process.chunk_sizes(32.kilobytes()).capacities(512);
    assert_eq!(process.stdout_chunk_size, 32.kilobytes());
    assert_eq!(process.stderr_chunk_size, 32.kilobytes());
    assert_eq!((process.stdout_capacity, process.stderr_capacity), (512, 512));

    let process = process
        .stdout_chunk_size(1.bytes())
        .stderr_chunk_size(2.bytes())
        .stdout_capacity(3)
        .stderr_capacity(4);
    assert_eq!(process.stdout_chunk_size, 1.bytes());
    assert_eq!(process.stderr_chunk_size, 2.bytes());
    assert_eq!((process.stdout_capacity, process.stderr_capacity), (3, 4));
}

#[test]
fn staged_builder_hands_back_what_it_was_given() {
    let piped = |stream: ProcessStreamBuilder, chunks: usize| {
        stream
            .broadcast()
            .best_effort_delivery()
            .no_replay()
            .read_chunk_size(8.bytes())
            .max_buffered_chunks(chunks)
    };

    let (cmd, name, stdout, stderr) = Process::new("ls")
        .name("listing")
        .stdout(|stream| stream.discard())
        .stderr(|stream| piped(stream, 2))
        .into_parts();
    assert_eq!(cmd, "ls");
    assert!(matches!(name, ProcessName::Explicit(name) if name == "listing"));
    assert_eq!(stdout, DiscardedStreamConfig);
    assert_eq!(stderr.build().max_buffered_chunks, 2);

    let (_, name, stdout, stderr) = Process::new("ls")
        .name(AutoName::default())
        .stderr(|stream| stream.discard())
        .stdout(|stream| piped(stream, 3))
        .into_parts();
    assert!(matches!(name, ProcessName::Auto(mode) if mode == AutoName::program_only()));
    assert_eq!(stdout.build().max_buffered_chunks, 3);
    assert_eq!(stderr, DiscardedStreamConfig);

    let (_, _, stdout, stderr) = Process::new("ls")
        .name(AutoName::default())
        .stdout_and_stderr(|stream| piped(stream, 4))
        .into_parts();
    assert_eq!(stdout.build().max_buffered_chunks, 4);
    assert_eq!(stderr.build().max_buffered_chunks, 4);
}
