//! Language runner: builds a source file unless its artifact is fresh, then
//! runs it.
//!
//! A request is answered step by step. Each [`Step`] lists the status
//! notices to show and says how the request goes on: with a command for the
//! caller to execute, whose outcome is then handed to [`Job::advance`], or
//! with the end of the request.

use crate::cache::{fresh, is_output_up_to_date, FileStat};
use crate::config::{Config, ConfigView, LanguageConfig, LanguageEntry};
use crate::error::{text_result, Error, ErrorView};
use crate::exec::{
    command_result, run_command, utf8_lossy, ProcessOutcome, ProcessOutcomeView,
};
use crate::path::{extension, source_extension};
use crate::template::{format_command, formatted, formatted_all};
use crate::text::texts;
use vstd::prelude::*;
use vstd::utf8::{decode_utf8, valid_utf8};

verus! {

/// The two kinds of task that are announced.
#[derive(Clone, Copy, Debug, PartialEq, Eq)]
pub enum TaskKind {
    Build,
    Run,
}

/// A status line for the user. Notices are no part of a request's result.
#[derive(Clone, Debug, PartialEq, Eq)]
pub enum Notice {
    /// A task begins on `source`.
    Task { kind: TaskKind, source: String },
    /// The artifact is fresh: nothing is compiled.
    Skip,
    /// The literal `command` is about to be executed.
    Command { command: String },
}

/// The mathematical content of a [`Notice`].
pub ghost enum NoticeView {
    Task { kind: TaskKind, source: Seq<char> },
    Skip,
    Command { command: Seq<char> },
}

impl View for Notice {
    type V = NoticeView;

    open spec fn view(&self) -> NoticeView {
        match self {
            Notice::Task { kind, source } => NoticeView::Task { kind: *kind, source: source@ },
            Notice::Skip => NoticeView::Skip,
            Notice::Command { command } => NoticeView::Command { command: command@ },
        }
    }
}

/// The contents of a list of notices, in order.
pub open spec fn notice_views(notices: Seq<Notice>) -> Seq<NoticeView> {
    Seq::new(notices.len(), |i: int| notices[i]@)
}

/// The run that follows a build.
#[derive(Debug, PartialEq, Eq)]
struct RunPlan {
    source: String,
    command: Result<String, Error>,
    with_input: bool,
}

/// The mathematical content of the run that follows a build.
pub ghost struct RunPlanView {
    /// The source file, as it is announced.
    pub source: Seq<char>,
    /// The literal run command, or why the template could not be formatted.
    pub command: Result<Seq<char>, ErrorView>,
    /// Whether the external input is fed to the run command.
    pub with_input: bool,
}

/// A request that waits for the outcome of the command it had executed.
#[derive(Debug, PartialEq, Eq)]
pub struct Job {
    command: String,
    compiling: bool,
    remaining: Vec<String>,
    afterwards: Option<RunPlan>,
}

/// The mathematical content of a [`Job`].
pub ghost enum JobView {
    /// The compile command `command` is being executed. `remaining` are the
    /// compile commands after it, and `afterwards` is the run that follows the
    /// build, if the request asks for one.
    Compiling { command: Seq<char>, remaining: Seq<Seq<char>>, afterwards: Option<RunPlanView> },
    /// The run command `command` is being executed.
    Running { command: Seq<char> },
}

impl JobView {
    /// The command whose outcome is awaited.
    pub open spec fn command(self) -> Seq<char> {
        match self {
            JobView::Compiling { command, .. } => command,
            JobView::Running { command } => command,
        }
    }
}

/// The content of an optional run plan.
spec fn plan_view(plan: Option<RunPlan>) -> Option<RunPlanView> {
    match plan {
        Some(p) => Some(
            RunPlanView {
                source: p.source@,
                command: text_result(p.command),
                with_input: p.with_input,
            },
        ),
        None => None,
    }
}

impl View for Job {
    type V = JobView;

    closed spec fn view(&self) -> JobView {
        if self.compiling {
            JobView::Compiling {
                command: self.command@,
                remaining: texts(self.remaining@),
                afterwards: plan_view(self.afterwards),
            }
        } else {
            JobView::Running { command: self.command@ }
        }
    }
}

/// How a request goes on.
#[derive(Debug, PartialEq, Eq)]
pub enum Progress {
    /// Execute `command` through the shell, feeding it the external input if
    /// `with_input` says so, and hand the outcome to `job`.
    Execute { command: String, with_input: bool, job: Job },
    /// The build is complete. This ends a build request.
    Built,
    /// The run is complete, with the combined output of the run command.
    Finished { output: String },
    /// The request failed.
    Failed { error: Error },
}

/// The mathematical content of a [`Progress`].
pub ghost enum ProgressView {
    Execute { command: Seq<char>, with_input: bool, job: JobView },
    Built,
    Finished { output: Seq<char> },
    Failed { error: ErrorView },
}

impl View for Progress {
    type V = ProgressView;

    open spec fn view(&self) -> ProgressView {
        match self {
            Progress::Execute { command, with_input, job } => ProgressView::Execute {
                command: command@,
                with_input: *with_input,
                job: job@,
            },
            Progress::Built => ProgressView::Built,
            Progress::Finished { output } => ProgressView::Finished { output: output@ },
            Progress::Failed { error } => ProgressView::Failed { error: error@ },
        }
    }
}

/// One step of a request: the notices to show, in order, and how the request
/// goes on after them.
#[derive(Debug, PartialEq, Eq)]
pub struct Step {
    pub notices: Vec<Notice>,
    pub progress: Progress,
}

/// The mathematical content of a [`Step`].
pub ghost struct StepView {
    pub notices: Seq<NoticeView>,
    pub progress: ProgressView,
}

impl View for Step {
    type V = StepView;

    open spec fn view(&self) -> StepView {
        StepView { notices: notice_views(self.notices@), progress: self.progress@ }
    }
}

impl StepView {
    /// The step that shows nothing and goes on as `progress` says.
    pub open spec fn silent(progress: ProgressView) -> StepView {
        StepView { notices: Seq::empty(), progress }
    }

    /// The step that fails the request with `error`.
    pub open spec fn failed(error: ErrorView) -> StepView {
        StepView::silent(ProgressView::Failed { error })
    }

    /// This step with `notice` shown first.
    pub open spec fn announced(self, notice: NoticeView) -> StepView {
        StepView { notices: seq![notice] + self.notices, progress: self.progress }
    }

    /// The step that echoes `command` and has it executed on behalf of `job`.
    pub open spec fn execute(command: Seq<char>, with_input: bool, job: JobView) -> StepView {
        StepView::silent(ProgressView::Execute { command, with_input, job }).announced(
            NoticeView::Command { command },
        )
    }
}

/// The step that executes the run command, or fails where its template could
/// not be formatted.
pub open spec fn run_step(command: Result<Seq<char>, ErrorView>, with_input: bool) -> StepView {
    match command {
        Ok(literal) => StepView::execute(
            literal,
            with_input,
            JobView::Running { command: literal },
        ),
        Err(error) => StepView::failed(error),
    }
}

/// The step that follows a complete build: the end of a build request, or
/// the announced run.
pub open spec fn after_build(afterwards: Option<RunPlanView>) -> StepView {
    match afterwards {
        None => StepView::silent(ProgressView::Built),
        Some(plan) => run_step(plan.command, plan.with_input).announced(
            NoticeView::Task { kind: TaskKind::Run, source: plan.source },
        ),
    }
}

/// The step that goes on with the compile commands `commands`: the first of
/// them is executed, the others wait; with none left the build is complete.
pub open spec fn compile_from(commands: Seq<Seq<char>>, afterwards: Option<RunPlanView>) -> StepView {
    if commands.len() > 0 {
        StepView::execute(
            commands[0],
            false,
            JobView::Compiling { command: commands[0], remaining: commands.skip(1), afterwards },
        )
    } else {
        after_build(afterwards)
    }
}

/// The first step of building with `entry`. A fresh artifact is kept, which
/// is said in a notice, and no compile command is formatted or executed.
/// Otherwise all compile commands are formatted before the first is
/// executed.
pub open spec fn entry_build_step(
    entry: LanguageEntry,
    source: Seq<char>,
    output: Seq<char>,
    fresh: bool,
    afterwards: Option<RunPlanView>,
) -> StepView {
    if fresh {
        after_build(afterwards).announced(NoticeView::Skip)
    } else {
        match formatted_all(entry.compile_commands, source, output) {
            Ok(commands) => compile_from(commands, afterwards),
            Err(error) => StepView::failed(error),
        }
    }
}

/// The first step of running with `entry`, once the artifact is built.
pub open spec fn entry_run_step(
    entry: LanguageEntry,
    source: Seq<char>,
    output: Seq<char>,
    with_input: bool,
) -> StepView {
    run_step(formatted(entry.run_command, source, output), with_input)
}

/// The run that follows the build of `source` with `entry`.
pub open spec fn planned_run(
    entry: LanguageEntry,
    source: Seq<char>,
    output: Seq<char>,
    with_input: bool,
) -> RunPlanView {
    RunPlanView { source, command: formatted(entry.run_command, source, output), with_input }
}

/// The first step of a request on `source`. `run` is absent for a build
/// request, and says for a run request whether the run command takes the
/// external input.
///
/// A source without an extension, and one whose extension has no entry, fail
/// the request before anything is announced or executed.
pub open spec fn first_step(
    config: ConfigView,
    source: Seq<char>,
    output: Seq<char>,
    fresh: bool,
    run: Option<bool>,
) -> StepView {
    match extension(source) {
        None => StepView::failed(ErrorView::MissingExtension),
        Some(extension) => if config.langs.contains_key(extension) {
            let entry = config.langs[extension];
            let afterwards = match run {
                Some(with_input) => Some(planned_run(entry, source, output, with_input)),
                None => None,
            };
            entry_build_step(entry, source, output, fresh, afterwards).announced(
                NoticeView::Task { kind: TaskKind::Build, source },
            )
        } else {
            StepView::failed(ErrorView::UnknownLanguage { extension })
        },
    }
}

/// The step that follows when the command of `job` has had `outcome`.
///
/// A command that fails ends the request with its error; no later command is
/// executed. After a compile command that succeeds the next one follows, and
/// after the last of them the run, if the request asks for one. A run
/// command that succeeds ends the request with its combined output.
pub open spec fn next_step(job: JobView, outcome: ProcessOutcomeView) -> StepView {
    match command_result(job.command(), outcome) {
        Err(error) => StepView::failed(error),
        Ok(output) => match job {
            JobView::Compiling { remaining, afterwards, .. } => compile_from(remaining, afterwards),
            JobView::Running { .. } => StepView::silent(ProgressView::Finished { output }),
        },
    }
}

/// A failure among the first templates is the failure of the whole list.
proof fn lemma_format_failure_is_final(
    templates: Seq<Seq<char>>,
    source: Seq<char>,
    output: Seq<char>,
    n: int,
)
    requires
        0 <= n <= templates.len(),
        formatted_all(templates.take(n), source, output) is Err,
    ensures
        formatted_all(templates, source, output) == formatted_all(templates.take(n), source, output),
    decreases templates.len() - n,
{
    if n < templates.len() {
        assert(templates.take(n + 1).drop_last() =~= templates.take(n));
        lemma_format_failure_is_final(templates, source, output, n + 1);
    } else {
        assert(templates.take(n) =~= templates);
    }
}

/// Echoes `command` and has it executed on behalf of `job`.
fn execute(
    notices: &mut Vec<Notice>,
    command: String,
    with_input: bool,
    job: Job,
) -> (progress: Progress)
    ensures
        notice_views(final(notices)@) == notice_views(old(notices)@) + StepView::execute(
            command@,
            with_input,
            job@,
        ).notices,
        progress@ == StepView::execute(command@, with_input, job@).progress,
{
    notices.push(Notice::Command { command: command.clone() });
    assert(notice_views(notices@) =~= notice_views(old(notices)@) + seq![
        NoticeView::Command { command: command@ },
    ]);
    Progress::Execute { command, with_input, job }
}

/// Goes on with the run command.
fn run_progress(
    notices: &mut Vec<Notice>,
    command: Result<String, Error>,
    with_input: bool,
) -> (progress: Progress)
    ensures
        notice_views(final(notices)@) == notice_views(old(notices)@) + run_step(
            text_result(command),
            with_input,
        ).notices,
        progress@ == run_step(text_result(command), with_input).progress,
{
    match command {
        Ok(literal) => {
            let job = Job {
                command: literal.clone(),
                compiling: false,
                remaining: Vec::new(),
                afterwards: None,
            };
            execute(notices, literal, with_input, job)
        },
        Err(error) => {
            assert(notice_views(notices@) =~= notice_views(notices@) + Seq::empty());
            Progress::Failed { error }
        },
    }
}

/// Goes on after a complete build.
fn after_build_progress(
    notices: &mut Vec<Notice>,
    afterwards: Option<RunPlan>,
) -> (progress: Progress)
    ensures
        notice_views(final(notices)@) == notice_views(old(notices)@) + after_build(
            plan_view(afterwards),
        ).notices,
        progress@ == after_build(plan_view(afterwards)).progress,
{
    match afterwards {
        None => {
            assert(notice_views(notices@) =~= notice_views(notices@) + Seq::empty());
            Progress::Built
        },
        Some(plan) => {
            let RunPlan { source, command, with_input } = plan;
            let ghost announced = NoticeView::Task { kind: TaskKind::Run, source: source@ };
            let ghost rest = run_step(text_result(command), with_input).notices;
            notices.push(Notice::Task { kind: TaskKind::Run, source });
            let ghost shown = notice_views(notices@);
            assert(shown =~= notice_views(old(notices)@) + seq![announced]);
            let progress = run_progress(notices, command, with_input);
            assert(notice_views(notices@) =~= notice_views(old(notices)@) + (seq![announced]
                + rest));
            progress
        },
    }
}

/// Goes on with the compile commands that are left.
fn compile_progress(
    notices: &mut Vec<Notice>,
    commands: Vec<String>,
    afterwards: Option<RunPlan>,
) -> (progress: Progress)
    ensures
        notice_views(final(notices)@) == notice_views(old(notices)@) + compile_from(
            texts(commands@),
            plan_view(afterwards),
        ).notices,
        progress@ == compile_from(texts(commands@), plan_view(afterwards)).progress,
{
    let mut commands = commands;
    if commands.len() > 0 {
        let ghost all = texts(commands@);
        let command = commands.remove(0);
        assert(texts(commands@) =~= all.skip(1));
        assert(command@ == all[0]);
        let job = Job { command: command.clone(), compiling: true, remaining: commands, afterwards };
        execute(notices, command, false, job)
    } else {
        after_build_progress(notices, afterwards)
    }
}

/// Begins the build with `entry`.
fn build_progress(
    notices: &mut Vec<Notice>,
    entry: &LanguageConfig,
    source: &str,
    output: &str,
    fresh: bool,
    afterwards: Option<RunPlan>,
) -> (progress: Progress)
    ensures
        notice_views(final(notices)@) == notice_views(old(notices)@) + entry_build_step(
            entry@,
            source@,
            output@,
            fresh,
            plan_view(afterwards),
        ).notices,
        progress@ == entry_build_step(
            entry@,
            source@,
            output@,
            fresh,
            plan_view(afterwards),
        ).progress,
{
    if fresh {
        let ghost rest = after_build(plan_view(afterwards)).notices;
        notices.push(Notice::Skip);
        assert(notice_views(notices@) =~= notice_views(old(notices)@) + seq![NoticeView::Skip]);
        let progress = after_build_progress(notices, afterwards);
        assert(notice_views(notices@) =~= notice_views(old(notices)@) + (seq![NoticeView::Skip]
            + rest));
        progress
    } else {
        match entry.format_compile_commands(source, output) {
            Ok(commands) => compile_progress(notices, commands, afterwards),
            Err(error) => {
                assert(notice_views(notices@) =~= notice_views(notices@) + Seq::empty());
                Progress::Failed { error }
            },
        }
    }
}

impl LanguageConfig {
    /// Formats every compile command for the given source and artifact path,
    /// in order. The first template that cannot be formatted fails the list.
    pub fn format_compile_commands(&self, source: &str, output: &str) -> (result: Result<
        Vec<String>,
        Error,
    >)
        ensures
            match result {
                Ok(commands) => formatted_all(self@.compile_commands, source@, output@) == Ok::<
                    Seq<Seq<char>>,
                    ErrorView,
                >(texts(commands@)),
                Err(e) => formatted_all(self@.compile_commands, source@, output@) == Err::<
                    Seq<Seq<char>>,
                    ErrorView,
                >(e@),
            },
    {
        let templates = self.compile_commands();
        let ghost all = self@.compile_commands;
        let mut commands: Vec<String> = Vec::new();
        let mut i: usize = 0;
        assert(all.take(0) =~= Seq::empty());
        assert(texts(commands@) =~= Seq::empty());
        while i < templates.len()
            invariant
                i <= templates@.len(),
                texts(templates@) == all,
                all == self@.compile_commands,
                formatted_all(all.take(i as int), source@, output@) == Ok::<
                    Seq<Seq<char>>,
                    ErrorView,
                >(texts(commands@)),
            decreases templates@.len() - i,
        {
            proof {
                assert(all.take(i + 1).drop_last() =~= all.take(i as int));
                assert(all.take(i + 1).last() == templates@[i as int]@);
            }
            match format_command(templates[i].as_str(), source, output) {
                Ok(command) => {
                    let ghost before = texts(commands@);
                    commands.push(command);
                    assert(texts(commands@) =~= before.push(command@));
                },
                Err(e) => {
                    proof {
                        lemma_format_failure_is_final(all, source@, output@, i + 1);
                    }
                    return Err(e);
                },
            }
            i += 1;
        }
        assert(all.take(i as int) =~= all);
        Ok(commands)
    }

    /// Formats the run command for the given source and artifact path.
    pub fn format_run_command(&self, source: &str, output: &str) -> (result: Result<String, Error>)
        ensures
            text_result(result) == formatted(self@.run_command, source@, output@),
    {
        format_command(self.run_command().as_str(), source, output)
    }

    /// Begins a build: nothing to execute where the artifact is fresh, else
    /// the compile commands in order.
    pub fn build(
        &self,
        source: &str,
        output: &str,
        source_stat: FileStat,
        output_stat: FileStat,
    ) -> (step: Step)
        ensures
            step@ == entry_build_step(
                self@,
                source@,
                output@,
                fresh(source_stat, output_stat),
                None,
            ),
    {
        let mut notices: Vec<Notice> = Vec::new();
        let up_to_date = is_output_up_to_date(&source_stat, &output_stat);
        let progress = build_progress(&mut notices, self, source, output, up_to_date, None);
        assert(notice_views(notices@) =~= entry_build_step(
            self@,
            source@,
            output@,
            up_to_date,
            None,
        ).notices);
        Step { notices, progress }
    }

    /// Begins the run of a built artifact: the run command is formatted and
    /// handed out for execution.
    pub fn run(&self, source: &str, output: &str, with_input: bool) -> (step: Step)
        ensures
            step@ == entry_run_step(self@, source@, output@, with_input),
    {
        let mut notices: Vec<Notice> = Vec::new();
        let command = self.format_run_command(source, output);
        let progress = run_progress(&mut notices, command, with_input);
        assert(notice_views(notices@) =~= entry_run_step(
            self@,
            source@,
            output@,
            with_input,
        ).notices);
        Step { notices, progress }
    }
}

impl Job {
    /// The command whose outcome this job waits for.
    pub fn command(&self) -> (command: &String)
        ensures
            command@ == self@.command(),
    {
        &self.command
    }

    /// Takes the outcome of the command that was executed for this job, and
    /// says how the request goes on.
    pub fn advance(self, outcome: ProcessOutcome) -> (step: Step)
        ensures
            step@ == next_step(self@, outcome@),
            self@ is Running ==> (outcome@ matches ProcessOutcomeView::Exited {
                code: Some(0i32),
                stdout,
                stderr,
            } ==> valid_utf8(stdout) && valid_utf8(stderr) ==> step@ == StepView::silent(
                ProgressView::Finished { output: decode_utf8(stdout) + decode_utf8(stderr) },
            )),
    {
        let ghost job = self@;
        let Job { command, compiling, remaining, afterwards } = self;
        let mut notices: Vec<Notice> = Vec::new();
        let progress = match run_command(command.as_str(), outcome) {
            Err(error) => Progress::Failed { error },
            Ok(output) => if compiling {
                compile_progress(&mut notices, remaining, afterwards)
            } else {
                Progress::Finished { output }
            },
        };
        assert(notice_views(notices@) =~= next_step(job, outcome@).notices);
        Step { notices, progress }
    }
}

impl Config {
    /// Begins a request on `source`; `run` is absent for a build request.
    fn begin(
        &self,
        source: &str,
        output: &str,
        source_stat: FileStat,
        output_stat: FileStat,
        run: Option<bool>,
    ) -> (step: Step)
        ensures
            step@ == first_step(self@, source@, output@, fresh(source_stat, output_stat), run),
    {
        let mut notices: Vec<Notice> = Vec::new();
        let ghost expected = first_step(
            self@,
            source@,
            output@,
            fresh(source_stat, output_stat),
            run,
        );
        let progress = match source_extension(source) {
            None => Progress::Failed { error: Error::MissingExtension },
            Some(extension) => match self.get(&extension) {
                None => Progress::Failed { error: Error::UnknownLanguage { extension } },
                Some(entry) => {
                    notices.push(Notice::Task { kind: TaskKind::Build, source: source.to_owned() });
                    let afterwards = match run {
                        Some(with_input) => Some(
                            RunPlan {
                                source: source.to_owned(),
                                command: entry.format_run_command(source, output),
                                with_input,
                            },
                        ),
                        None => None,
                    };
                    let up_to_date = is_output_up_to_date(&source_stat, &output_stat);
                    build_progress(&mut notices, entry, source, output, up_to_date, afterwards)
                },
            },
        };
        assert(notice_views(notices@) =~= expected.notices);
        Step { notices, progress }
    }
}

/// What can build and run source files.
pub trait CodeRunner {
    /// The first step of a build request.
    spec fn build_step(&self, source: Seq<char>, output: Seq<char>, fresh: bool) -> StepView;

    /// The first step of a run request.
    spec fn run_step(
        &self,
        source: Seq<char>,
        output: Seq<char>,
        fresh: bool,
        with_input: bool,
    ) -> StepView;

    /// Whether a source file is one that this runner can build and run.
    spec fn handles(&self, source: Seq<char>) -> bool;

    /// Begins to build `source` into `output`, given what the filesystem
    /// says of the two.
    fn build(
        &self,
        source: &str,
        output: &str,
        source_stat: FileStat,
        output_stat: FileStat,
    ) -> (step: Step)
        ensures
            step@ == self.build_step(source@, output@, fresh(source_stat, output_stat)),
    ;

    /// Begins to run `source`: it is built first, as `build` does it, and the
    /// run command follows. `with_input` says whether the external input is
    /// fed to the run command.
    fn run(
        &self,
        source: &str,
        output: &str,
        source_stat: FileStat,
        output_stat: FileStat,
        with_input: bool,
    ) -> (step: Step)
        ensures
            step@ == self.run_step(source@, output@, fresh(source_stat, output_stat), with_input),
    ;

    /// Whether `source` is a file that this runner can build and run.
    fn matches(&self, source: &str) -> (known: bool)
        ensures
            known == self.handles(source@),
    ;
}

impl CodeRunner for Config {
    open spec fn build_step(&self, source: Seq<char>, output: Seq<char>, fresh: bool) -> StepView {
        first_step(self@, source, output, fresh, None)
    }

    open spec fn run_step(
        &self,
        source: Seq<char>,
        output: Seq<char>,
        fresh: bool,
        with_input: bool,
    ) -> StepView {
        first_step(self@, source, output, fresh, Some(with_input))
    }

    open spec fn handles(&self, source: Seq<char>) -> bool {
        match extension(source) {
            Some(extension) => self@.langs.contains_key(extension),
            None => false,
        }
    }

    fn build(
        &self,
        source: &str,
        output: &str,
        source_stat: FileStat,
        output_stat: FileStat,
    ) -> (step: Step) {
        self.begin(source, output, source_stat, output_stat, None)
    }

    fn run(
        &self,
        source: &str,
        output: &str,
        source_stat: FileStat,
        output_stat: FileStat,
        with_input: bool,
    ) -> (step: Step) {
        self.begin(source, output, source_stat, output_stat, Some(with_input))
    }

    fn matches(&self, source: &str) -> (known: bool) {
        match source_extension(source) {
            Some(extension) => self.contains(&extension),
            None => false,
        }
    }
}

/// A source without an extension, and one whose extension has no entry, fail
/// the request at once: nothing is announced and no command is handed out.
pub proof fn lemma_unresolved_source_fails_at_once(
    config: ConfigView,
    source: Seq<char>,
    output: Seq<char>,
    fresh: bool,
    run: Option<bool>,
)
    ensures
        extension(source) is None ==> first_step(config, source, output, fresh, run)
            == StepView::failed(ErrorView::MissingExtension),
        extension(source) matches Some(found) && !config.langs.contains_key(found) ==> first_step(
            config,
            source,
            output,
            fresh,
            run,
        ) == StepView::failed(ErrorView::UnknownLanguage { extension: extension(source)->Some_0 }),
{
}

/// A fresh artifact is kept: the build says so in one notice and is
/// complete, with no command formatted or executed.
pub proof fn lemma_fresh_artifact_is_kept(
    entry: LanguageEntry,
    source: Seq<char>,
    output: Seq<char>,
)
    ensures
        entry_build_step(entry, source, output, true, None) == (StepView {
            notices: seq![NoticeView::Skip],
            progress: ProgressView::Built,
        }),
{
    assert(seq![NoticeView::Skip] + Seq::<NoticeView>::empty() =~= seq![NoticeView::Skip]);
}

/// A command that fails ends the request with its own error, whatever was
/// still to be done.
pub proof fn lemma_failure_ends_request(job: JobView, outcome: ProcessOutcomeView)
    requires
        command_result(job.command(), outcome) is Err,
    ensures
        next_step(job, outcome) == StepView::failed(command_result(job.command(), outcome)->Err_0),
{
}

/// The job that waits for the compile command at position `at` of
/// `commands`.
pub open spec fn compiling_at(
    commands: Seq<Seq<char>>,
    at: int,
    afterwards: Option<RunPlanView>,
) -> JobView {
    JobView::Compiling { command: commands[at], remaining: commands.skip(at + 1), afterwards }
}

/// Compile commands are executed strictly in sequence: when the command at
/// one position has succeeded, the command at the next position is executed,
/// without external input, and after the last one the build is complete.
pub proof fn lemma_commands_run_in_order(
    commands: Seq<Seq<char>>,
    at: int,
    afterwards: Option<RunPlanView>,
    outcome: ProcessOutcomeView,
)
    requires
        0 <= at < commands.len(),
        command_result(commands[at], outcome) is Ok,
    ensures
        compile_from(commands, afterwards) == StepView::execute(
            commands[0],
            false,
            compiling_at(commands, 0, afterwards),
        ),
        at + 1 < commands.len() ==> next_step(compiling_at(commands, at, afterwards), outcome)
            == StepView::execute(
            commands[at + 1],
            false,
            compiling_at(commands, at + 1, afterwards),
        ),
        at + 1 == commands.len() ==> next_step(compiling_at(commands, at, afterwards), outcome)
            == after_build(afterwards),
{
    let rest = commands.skip(at + 1);
    if at + 1 < commands.len() {
        assert(rest[0] == commands[at + 1]);
        assert(rest.skip(1) =~= commands.skip(at + 2));
    }
}

/// A run command that exits with status zero ends the request with all of
/// its standard output followed by all of its standard error.
pub proof fn lemma_run_yields_combined_output(
    command: Seq<char>,
    stdout: Seq<u8>,
    stderr: Seq<u8>,
)
    ensures
        next_step(
            JobView::Running { command },
            ProcessOutcomeView::Exited { code: Some(0i32), stdout, stderr },
        ) == StepView::silent(
            ProgressView::Finished { output: utf8_lossy(stdout) + utf8_lossy(stderr) },
        ),
{
}

} // verus!
