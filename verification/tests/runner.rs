use cfb::cache::FileStat;
use cfb::cli::{Cli, Command};
use cfb::config::{Config, LanguageConfig};
use cfb::error::Error;
use cfb::exec::ProcessOutcome;
use cfb::path::{artifact_path, config_file_name, output_dir};
use cfb::runner::{CodeRunner, Job, Notice, Progress, Step, TaskKind};

fn entry(compile: &[&str], run: &str) -> LanguageConfig {
    LanguageConfig::new(compile.iter().map(|c| c.to_string()).collect(), run.to_string())
}

fn config_for(extension: &str, language: LanguageConfig) -> Config {
    let mut config = Config::new();
    config.define(extension.to_string(), language);
    config
}

fn task(kind: TaskKind, source: &str) -> Notice {
    Notice::Task { kind, source: source.to_string() }
}

fn echo(command: &str) -> Notice {
    Notice::Command { command: command.to_string() }
}

fn success(stdout: &[u8], stderr: &[u8]) -> ProcessOutcome {
    ProcessOutcome::Exited { code: Some(0), stdout: stdout.to_vec(), stderr: stderr.to_vec() }
}

fn exit(code: i32) -> ProcessOutcome {
    ProcessOutcome::Exited { code: Some(code), stdout: Vec::new(), stderr: Vec::new() }
}

/// Checks that `step` hands out `command` with these notices, and gives the
/// job that waits for it.
fn expect_execute(step: Step, notices: Vec<Notice>, command: &str, with_input: bool) -> Job {
    assert_eq!(step.notices, notices);
    match step.progress {
        Progress::Execute { command: handed, with_input: piped, job } => {
            assert_eq!(handed, command);
            assert_eq!(piped, with_input);
            assert_eq!(job.command(), command);
            job
        }
        other => panic!("expected a command to execute, found {:?}", other),
    }
}

const STALE: (FileStat, FileStat) = (FileStat::Modified(100), FileStat::Missing);
const FRESH: (FileStat, FileStat) = (FileStat::Modified(100), FileStat::Modified(200));

#[test]
fn run_without_compile_commands_gives_the_output() {
    let config = config_for("x", entry(&[], "echo hi"));
    let step = config.run("file.x", "cfb-out/file", STALE.0, STALE.1, false);
    let job = expect_execute(
        step,
        vec![task(TaskKind::Build, "file.x"), task(TaskKind::Run, "file.x"), echo("echo hi")],
        "echo hi",
        false,
    );
    let step = job.advance(success(b"hi\n", b""));
    assert_eq!(
        step,
        Step { notices: vec![], progress: Progress::Finished { output: "hi\n".to_string() } }
    );
}

#[test]
fn build_without_compile_commands_is_not_a_skip() {
    let config = config_for("x", entry(&[], "echo hi"));
    let step = config.build("file.x", "cfb-out/file", STALE.0, STALE.1);
    assert_eq!(
        step,
        Step { notices: vec![task(TaskKind::Build, "file.x")], progress: Progress::Built }
    );
}

#[test]
fn second_build_is_skipped() {
    let config = config_for("c", entry(&["touch {output}"], "{output}"));
    let step = config.build("prog.c", "cfb-out/prog", FileStat::Modified(100), FileStat::Missing);
    let job = expect_execute(
        step,
        vec![task(TaskKind::Build, "prog.c"), echo("touch cfb-out/prog")],
        "touch cfb-out/prog",
        false,
    );
    let step = job.advance(success(b"", b""));
    assert_eq!(step, Step { notices: vec![], progress: Progress::Built });

    let step = config.build(
        "prog.c",
        "cfb-out/prog",
        FileStat::Modified(100),
        FileStat::Modified(150),
    );
    assert_eq!(
        step,
        Step {
            notices: vec![task(TaskKind::Build, "prog.c"), Notice::Skip],
            progress: Progress::Built,
        }
    );
}

#[test]
fn failing_run_reports_code_and_command() {
    let config = config_for("x", entry(&[], "exit 3"));
    let step = config.run("file.x", "cfb-out/file", FRESH.0, FRESH.1, false);
    let job = expect_execute(
        step,
        vec![
            task(TaskKind::Build, "file.x"),
            Notice::Skip,
            task(TaskKind::Run, "file.x"),
            echo("exit 3"),
        ],
        "exit 3",
        false,
    );
    let step = job.advance(exit(3));
    assert_eq!(step.notices, vec![]);
    match step.progress {
        Progress::Failed { error } => {
            assert_eq!(
                error,
                Error::CommandFailure {
                    command: "exit 3".to_string(),
                    code: Some(3),
                    stdout: Vec::new(),
                    stderr: Vec::new(),
                }
            );
            assert_eq!(error.message(), "Command failed: `exit 3` (exit code 3)");
        }
        other => panic!("expected a failure, found {:?}", other),
    }
}

#[test]
fn source_without_extension_fails_at_once() {
    let config = config_for("x", entry(&["never {source}"], "never"));
    let failed = Step {
        notices: vec![],
        progress: Progress::Failed { error: Error::MissingExtension },
    };
    assert_eq!(config.run("Makefile", "cfb-out/Makefile", STALE.0, STALE.1, true), failed);
    assert_eq!(config.build("dir.x/Makefile", "cfb-out/Makefile", STALE.0, STALE.1), failed);
    assert_eq!(config.build(".bashrc", "cfb-out/.bashrc", STALE.0, STALE.1), failed);
}

#[test]
fn unknown_extension_fails_before_anything_is_announced() {
    let config = config_for("x", entry(&[], "echo hi"));
    let step = config.run("main.zig", "cfb-out/main", STALE.0, STALE.1, false);
    assert_eq!(
        step,
        Step {
            notices: vec![],
            progress: Progress::Failed {
                error: Error::UnknownLanguage { extension: "zig".to_string() },
            },
        }
    );
    let step = Config::new().build("main.x", "cfb-out/main", STALE.0, STALE.1);
    assert_eq!(
        step.progress,
        Progress::Failed { error: Error::UnknownLanguage { extension: "x".to_string() } }
    );
}

#[test]
fn compile_commands_run_in_order_before_the_run_command() {
    let language = entry(&["gen {source}", "cc {source} -o {output}"], "{output} --fast");
    let config = config_for("c", language);
    let step = config.run("a b.c", "cfb-out/a b", STALE.0, STALE.1, true);
    let job = expect_execute(
        step,
        vec![task(TaskKind::Build, "a b.c"), echo("gen 'a b.c'")],
        "gen 'a b.c'",
        false,
    );
    let job = expect_execute(
        job.advance(success(b"generated", b"")),
        vec![echo("cc 'a b.c' -o 'cfb-out/a b'")],
        "cc 'a b.c' -o 'cfb-out/a b'",
        false,
    );
    let job = expect_execute(
        job.advance(success(b"", b"warning")),
        vec![task(TaskKind::Run, "a b.c"), echo("'cfb-out/a b' --fast")],
        "'cfb-out/a b' --fast",
        true,
    );
    let step = job.advance(success(b"42\n", b"done\n"));
    assert_eq!(
        step,
        Step { notices: vec![], progress: Progress::Finished { output: "42\ndone\n".to_string() } }
    );
}

#[test]
fn failing_compile_command_aborts_the_rest() {
    let config = config_for("c", entry(&["first", "second", "third"], "run"));
    let step = config.run("a.c", "cfb-out/a", STALE.0, STALE.1, false);
    let job = expect_execute(step, vec![task(TaskKind::Build, "a.c"), echo("first")], "first", false);
    let job = expect_execute(job.advance(success(b"", b"")), vec![echo("second")], "second", false);
    let step = job.advance(ProcessOutcome::Exited {
        code: Some(1),
        stdout: b"so far".to_vec(),
        stderr: b"error: x".to_vec(),
    });
    assert_eq!(
        step,
        Step {
            notices: vec![],
            progress: Progress::Failed {
                error: Error::CommandFailure {
                    command: "second".to_string(),
                    code: Some(1),
                    stdout: b"so far".to_vec(),
                    stderr: b"error: x".to_vec(),
                },
            },
        }
    );
}

#[test]
fn spawn_and_io_failures_end_the_request() {
    let config = config_for("c", entry(&["cc"], "run"));
    let step = config.build("a.c", "cfb-out/a", STALE.0, STALE.1);
    let job = expect_execute(step, vec![task(TaskKind::Build, "a.c"), echo("cc")], "cc", false);
    assert_eq!(
        job.advance(ProcessOutcome::SpawnFailed).progress,
        Progress::Failed { error: Error::ProcessSpawn { command: "cc".to_string() } }
    );
    let step = config.run("a.c", "cfb-out/a", FRESH.0, FRESH.1, true);
    let job = expect_execute(
        step,
        vec![task(TaskKind::Build, "a.c"), Notice::Skip, task(TaskKind::Run, "a.c"), echo("run")],
        "run",
        true,
    );
    assert_eq!(
        job.advance(ProcessOutcome::IoFailed).progress,
        Progress::Failed { error: Error::Io { command: "run".to_string() } }
    );
}

#[test]
fn bad_compile_template_fails_before_any_command() {
    let config = config_for("c", entry(&["fine {source}", "bad {nope}", "fine"], "run"));
    let step = config.build("a.c", "cfb-out/a", STALE.0, STALE.1);
    assert_eq!(
        step,
        Step {
            notices: vec![task(TaskKind::Build, "a.c")],
            progress: Progress::Failed {
                error: Error::TemplateFormat { template: "bad {nope}".to_string() },
            },
        }
    );
}

#[test]
fn bad_compile_template_is_not_looked_at_when_fresh() {
    let config = config_for("c", entry(&["bad {nope}"], "run"));
    let step = config.build("a.c", "cfb-out/a", FRESH.0, FRESH.1);
    assert_eq!(
        step,
        Step { notices: vec![task(TaskKind::Build, "a.c"), Notice::Skip], progress: Progress::Built }
    );
}

#[test]
fn bad_run_template_fails_after_the_build() {
    let config = config_for("c", entry(&["cc"], "run {nope}"));
    let step = config.run("a.c", "cfb-out/a", STALE.0, STALE.1, false);
    let job = expect_execute(step, vec![task(TaskKind::Build, "a.c"), echo("cc")], "cc", false);
    let step = job.advance(success(b"", b""));
    assert_eq!(
        step,
        Step {
            notices: vec![task(TaskKind::Run, "a.c")],
            progress: Progress::Failed {
                error: Error::TemplateFormat { template: "run {nope}".to_string() },
            },
        }
    );
}

#[test]
fn unreadable_timestamps_force_a_rebuild() {
    let config = config_for("c", entry(&["cc"], "run"));
    let step = config.build("a.c", "cfb-out/a", FileStat::Unreadable, FileStat::Modified(5));
    expect_execute(step, vec![task(TaskKind::Build, "a.c"), echo("cc")], "cc", false);
    let step = config.build("a.c", "cfb-out/a", FileStat::Modified(6), FileStat::Modified(5));
    expect_execute(step, vec![task(TaskKind::Build, "a.c"), echo("cc")], "cc", false);
}

#[test]
fn language_entry_builds_and_runs_on_its_own() {
    let language = entry(&["cc {source}"], "{output}");
    let step = language.build("a.c", "cfb-out/a", STALE.0, STALE.1);
    let job = expect_execute(step, vec![echo("cc a.c")], "cc a.c", false);
    assert_eq!(
        job.advance(success(b"", b"")),
        Step { notices: vec![], progress: Progress::Built }
    );
    assert_eq!(
        language.build("a.c", "cfb-out/a", FRESH.0, FRESH.1),
        Step { notices: vec![Notice::Skip], progress: Progress::Built }
    );
    let step = language.run("a.c", "cfb-out/a", true);
    let job = expect_execute(step, vec![echo("cfb-out/a")], "cfb-out/a", true);
    assert_eq!(
        job.advance(success(b"1", b"2")).progress,
        Progress::Finished { output: "12".to_string() }
    );
    let step = entry(&[], "{what}").run("a.c", "cfb-out/a", false);
    assert_eq!(
        step,
        Step {
            notices: vec![],
            progress: Progress::Failed {
                error: Error::TemplateFormat { template: "{what}".to_string() },
            },
        }
    );
}

#[test]
fn format_compile_commands_formats_each_in_order() {
    let language = entry(&["a {source}", "b {output_unquoted}"], "r");
    assert_eq!(
        language.format_compile_commands("s p.c", "o p"),
        Ok(vec!["a 's p.c'".to_string(), "b o p".to_string()])
    );
    assert_eq!(entry(&[], "r").format_compile_commands("s.c", "o"), Ok(Vec::new()));
}

#[test]
fn format_compile_commands_stops_at_the_first_bad_template() {
    let language = entry(&["a", "{x}", "{y}"], "r");
    assert_eq!(
        language.format_compile_commands("s.c", "o"),
        Err(Error::TemplateFormat { template: "{x}".to_string() })
    );
}

#[test]
fn format_run_command_formats_the_run_template() {
    let language = entry(&[], "time {output} < {source_unquoted}");
    assert_eq!(
        language.format_run_command("in 1.txt", "cfb-out/in 1"),
        Ok("time 'cfb-out/in 1' < in 1.txt".to_string())
    );
    assert_eq!(
        entry(&[], "{0}").format_run_command("a", "b"),
        Err(Error::TemplateFormat { template: "{0}".to_string() })
    );
}

#[test]
fn matches_goes_by_the_extension() {
    let config = config_for("cpp", entry(&[], "r"));
    assert!(config.matches("main.cpp"));
    assert!(config.matches("/deep/dir.d/a.b.cpp"));
    assert!(!config.matches("main.c"));
    assert!(!config.matches("cpp"));
    assert!(!config.matches(".cpp"));
    assert!(!config.matches("dir.cpp/main"));
    assert!(!config.matches("main.CPP"));
    assert!(!Config::new().matches("main.cpp"));
}

#[test]
fn artifact_is_named_after_the_source() {
    assert_eq!(artifact_path("/home/u/solve.cpp"), Some("cfb-out/solve".to_string()));
    assert_eq!(artifact_path("a.tar.gz"), Some("cfb-out/a.tar".to_string()));
    assert_eq!(artifact_path("noext"), Some("cfb-out/noext".to_string()));
    assert_eq!(artifact_path("/"), None);
    assert_eq!(artifact_path(""), None);
    assert_eq!(artifact_path("dir/.."), None);
}

#[test]
fn fixed_names() {
    assert_eq!(output_dir(), "cfb-out");
    assert_eq!(config_file_name(), "cfb.toml");
}

#[test]
fn command_line_defaults_to_build_all() {
    assert_eq!(Cli { subcommand: None }.request(), Command::BuildAll);
    let run = Command::Run { source_file: "a.c".to_string(), stdin: Some("in.txt".to_string()) };
    assert_eq!(Cli { subcommand: Some(run.clone()) }.request(), run);
    assert_eq!(Cli { subcommand: Some(Command::BuildAll) }.request(), Command::BuildAll);
}

#[test]
fn malformed_run_template_fails_the_run() {
    let config = config_for("x", entry(&[], "echo {source"));
    let step = config.run("file.x", "cfb-out/file", FRESH.0, FRESH.1, false);
    assert_eq!(
        step,
        Step {
            notices: vec![
                task(TaskKind::Build, "file.x"),
                Notice::Skip,
                task(TaskKind::Run, "file.x"),
            ],
            progress: Progress::Failed {
                error: Error::TemplateFormat { template: "echo {source".to_string() },
            },
        }
    );
}

#[test]
fn malformed_compile_template_fails_the_build() {
    let config = config_for("x", entry(&["cc {source}", "strip output}"], "run"));
    let step = config.build("file.x", "cfb-out/file", STALE.0, STALE.1);
    assert_eq!(
        step,
        Step {
            notices: vec![task(TaskKind::Build, "file.x")],
            progress: Progress::Failed {
                error: Error::TemplateFormat { template: "strip output}".to_string() },
            },
        }
    );
}
