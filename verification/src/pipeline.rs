//! The burn pipeline as a state machine: each step takes what the outside
//! world answered and says what to do next. The caller performs the actions
//! (file checks, tool runs, downloads, ...) and feeds the answers back.
use vstd::prelude::*;

use crate::config::{AppConfig, ConfigModel};
use crate::ffmpeg::{
    advice_text, command_result_spec, convert_args_spec, dimensions_spec, embed_args_spec,
    filter_expression, filters_args_spec, platform_name, preferred_filter, probe_args_spec,
    string_views, supported_filters, supports_managed_spec, system_discovery, version_args_spec,
    CommandOutcome,
    FfmpegToolset, OriginModel, RuntimePlatform, RuntimePlatformKind, SystemDiscoveryError, ToolsetModel,
    VideoDimensions,
};
use crate::managed::{
    cache_base, cache_unavailable_details, executable_spec, install_root, managed_tool_path,
    release_model, source_metadata, tool_cache_dir, ArchiveKind, ArchiveMember, ManagedRelease,
    MemberModel, ReleaseModel,
};
use crate::paths::{directory_of, path_join, path_with_extension};
use crate::platform::{open_failure_details, open_invocation, OpenCommand, OpenPlan};
use crate::subtitle::{render_in_range, render_spec, subtitle_error_message, SubtitlePlan};
use crate::paths::{directory_for, join_path};
use crate::text::{chars_of, decimal, lines, push_decimal, push_str, string_of, trim};

verus! {

/// Where the pipeline stands.
#[derive(Clone, Copy, Debug, PartialEq, Eq, Structural)]
pub enum Stage {
    Start,
    CheckExistingForOpen,
    PrintExisting,
    OpenExisting,
    CheckVideo,
    CheckSubtitle,
    CheckFontDir,
    CreateOutputDir,
    CheckOutput,
    ProbeSystem,
    CreateCacheDir,
    CheckInstallRoot,
    CheckManagedFfmpeg { fresh: bool },
    CheckManagedFfprobe { fresh: bool },
    RunManagedFfmpeg { fresh: bool },
    RunManagedFfprobe { fresh: bool },
    RemoveStaleInstall,
    CreateInstallParent,
    CheckStaging,
    RemoveStaging,
    CreateStaging,
    Download { index: usize },
    Extract { index: usize },
    RemoveArchive { index: usize },
    WriteMetadata,
    CheckOldInstall,
    RemoveOldInstall,
    FinalizeInstall,
    ProbeDimensions,
    CreateWorkParent,
    CreateWorkDir,
    StageSubtitle,
    CopySubtitle,
    ReadSubtitle,
    WriteSubtitle,
    Burn,
    CheckBurned,
    CheckExistingOutput,
    RemoveExistingOutput,
    MoveOutput,
    PrintOutput,
    OpenOutput,
    Cleanup,
    Finished,
}

/// Why a unique working directory could not be made.
#[derive(Clone, Debug)]
pub enum WorkDirFailure {
    /// Creating the directory `path` failed with `details`.
    CreateFailed { path: String, details: String },
    /// Every candidate name was taken.
    Exhausted,
}

/// Why an archive could not be unpacked.
#[derive(Clone, Debug)]
pub enum ExtractFailure {
    /// Reading the archive or writing a member failed.
    Io(String),
    /// No entry matched the member with this index.
    MemberMissing(usize),
}

/// How many names are tried for a working directory.
pub const WORK_DIR_ATTEMPTS: u8 = 16;

/// What creating one candidate working directory gave.
#[derive(Clone, Debug)]
pub enum CreateDirOutcome {
    Created,
    /// A file or directory of that name is already there.
    AlreadyExists,
    /// Creating it failed otherwise; the text of the error.
    Failed(String),
}

/// What follows one attempt at making a working directory.
#[derive(Debug)]
pub enum WorkDirStep {
    /// The search is over.
    Done(Result<String, WorkDirFailure>),
    /// Try the next name, with this attempt number.
    TryAgain(u8),
}

/// The name of a candidate working directory: the process, the time in
/// nanoseconds, a counter of the process and the attempt.
pub open spec fn work_dir_name_spec(pid: u32, nanos: u128, counter: u64, attempt: u8) -> Seq<char> {
    ".subembed-work."@ + decimal(pid as nat) + "."@ + decimal(nanos as nat) + "."@ + decimal(
        counter as nat,
    ) + "."@ + decimal(attempt as nat)
}

/// The name of a candidate working directory (see `work_dir_name_spec`).
pub fn work_dir_name(pid: u32, nanos: u128, counter: u64, attempt: u8) -> (r: String)
    ensures
        r@ == work_dir_name_spec(pid, nanos, counter, attempt),
{
    let mut v = chars_of(".subembed-work.");
    push_decimal(&mut v, pid as u128);
    push_str(&mut v, ".");
    push_decimal(&mut v, nanos);
    push_str(&mut v, ".");
    push_decimal(&mut v, counter as u128);
    push_str(&mut v, ".");
    push_decimal(&mut v, attempt as u128);
    string_of(v.as_slice())
}

/// What follows attempt `attempt` at creating the working directory `path`:
/// a created directory is the result; a name already taken moves on to the
/// next attempt, until `WORK_DIR_ATTEMPTS` names were tried; any other
/// error ends the search.
pub fn after_work_dir_attempt(attempt: u8, path: String, outcome: CreateDirOutcome) -> (r: WorkDirStep)
    requires
        attempt < WORK_DIR_ATTEMPTS,
    ensures
        match outcome {
            CreateDirOutcome::Created => r == WorkDirStep::Done(Ok(path)),
            CreateDirOutcome::AlreadyExists => if attempt + 1 < WORK_DIR_ATTEMPTS {
                r == WorkDirStep::TryAgain((attempt + 1) as u8)
            } else {
                r == WorkDirStep::Done(Err(WorkDirFailure::Exhausted))
            },
            CreateDirOutcome::Failed(d) => r == WorkDirStep::Done(
                Err(WorkDirFailure::CreateFailed { path, details: d }),
            ),
        },
{
    match outcome {
        CreateDirOutcome::Created => WorkDirStep::Done(Ok(path)),
        CreateDirOutcome::AlreadyExists => {
            if attempt + 1 < WORK_DIR_ATTEMPTS {
                WorkDirStep::TryAgain(attempt + 1)
            } else {
                WorkDirStep::Done(Err(WorkDirFailure::Exhausted))
            }
        },
        CreateDirOutcome::Failed(d) => WorkDirStep::Done(
            Err(WorkDirFailure::CreateFailed { path, details: d }),
        ),
    }
}

/// What the outside world answers to an action.
#[derive(Debug)]
pub enum Event {
    /// The first event.
    Begin,
    /// The answer to `IsFile`, `IsDir` and `Exists`.
    Checked(bool),
    /// The answer to `PrintPath`, `CreateDirAll`, `RemoveDirAll`,
    /// `RemoveFile`, `Rename`, `CopyFile`, `WriteFile` and `Download`: the
    /// text of the error if it failed.
    Completed(Result<(), String>),
    /// The answer to `ProbeSystemTools`: for each tool, where it was found
    /// on `PATH` and how its probe ran there.
    ToolsProbed {
        ffmpeg: Option<(String, CommandOutcome)>,
        ffprobe: Option<(String, CommandOutcome)>,
    },
    /// The answer to `RunCommand` and `Open`.
    Ran(CommandOutcome),
    /// The answer to `ReadFile`.
    Read(Result<String, String>),
    /// The answer to `CreateWorkDir`: the directory made.
    WorkDirMade(Result<String, WorkDirFailure>),
    /// The answer to `Extract`.
    Extracted(Result<(), ExtractFailure>),
}

/// What the pipeline asks the outside world to do.
#[derive(Debug)]
pub enum Action {
    /// Print the absolute form of a path on standard output.
    PrintPath(String),
    IsFile(String),
    IsDir(String),
    Exists(String),
    CreateDirAll(String),
    RemoveDirAll(String),
    RemoveFile(String),
    Rename { from: String, to: String },
    CopyFile { from: String, to: String },
    ReadFile(String),
    WriteFile { path: String, contents: String },
    /// Find each tool on `PATH` and, where found, run it with its arguments.
    ProbeSystemTools {
        ffmpeg: String,
        ffmpeg_args: Vec<String>,
        ffprobe: String,
        ffprobe_args: Vec<String>,
    },
    RunCommand { program: String, args: Vec<String> },
    /// Make a new, uniquely named working directory inside a directory.
    CreateWorkDir(String),
    /// Download `url` into the file `destination`.
    Download { url: String, destination: String },
    /// Unpack the members of an archive into a directory.
    Extract {
        kind: ArchiveKind,
        archive: String,
        destination_dir: String,
        members: Vec<ArchiveMember>,
    },
    /// Start the platform's opener.
    Open(OpenCommand),
    /// The pipeline is over, with this result.
    Finish(Result<(), String>),
}

/// The mathematical value of an action.
pub enum ActionModel {
    PrintPath(Seq<char>),
    IsFile(Seq<char>),
    IsDir(Seq<char>),
    Exists(Seq<char>),
    CreateDirAll(Seq<char>),
    RemoveDirAll(Seq<char>),
    RemoveFile(Seq<char>),
    Rename { from: Seq<char>, to: Seq<char> },
    CopyFile { from: Seq<char>, to: Seq<char> },
    ReadFile(Seq<char>),
    WriteFile { path: Seq<char>, contents: Seq<char> },
    ProbeSystemTools {
        ffmpeg: Seq<char>,
        ffmpeg_args: Seq<Seq<char>>,
        ffprobe: Seq<char>,
        ffprobe_args: Seq<Seq<char>>,
    },
    RunCommand { program: Seq<char>, args: Seq<Seq<char>> },
    CreateWorkDir(Seq<char>),
    Download { url: Seq<char>, destination: Seq<char> },
    Extract {
        kind: ArchiveKind,
        archive: Seq<char>,
        destination_dir: Seq<char>,
        members: Seq<MemberModel>,
    },
    Open { program: Seq<char>, args: Seq<Seq<char>> },
    Finish(Result<(), Seq<char>>),
}

/// The view of a result whose error is a string.
pub open spec fn result_view(r: Result<(), String>) -> Result<(), Seq<char>> {
    match r {
        Ok(()) => Ok(()),
        Err(m) => Err(m@),
    }
}

impl View for Action {
    type V = ActionModel;

    open spec fn view(&self) -> ActionModel {
        match self {
            Action::PrintPath(p) => ActionModel::PrintPath(p@),
            Action::IsFile(p) => ActionModel::IsFile(p@),
            Action::IsDir(p) => ActionModel::IsDir(p@),
            Action::Exists(p) => ActionModel::Exists(p@),
            Action::CreateDirAll(p) => ActionModel::CreateDirAll(p@),
            Action::RemoveDirAll(p) => ActionModel::RemoveDirAll(p@),
            Action::RemoveFile(p) => ActionModel::RemoveFile(p@),
            Action::Rename { from, to } => ActionModel::Rename { from: from@, to: to@ },
            Action::CopyFile { from, to } => ActionModel::CopyFile { from: from@, to: to@ },
            Action::ReadFile(p) => ActionModel::ReadFile(p@),
            Action::WriteFile { path, contents } => ActionModel::WriteFile {
                path: path@,
                contents: contents@,
            },
            Action::ProbeSystemTools { ffmpeg, ffmpeg_args, ffprobe, ffprobe_args } =>
                ActionModel::ProbeSystemTools {
                ffmpeg: ffmpeg@,
                ffmpeg_args: string_views(ffmpeg_args@),
                ffprobe: ffprobe@,
                ffprobe_args: string_views(ffprobe_args@),
            },
            Action::RunCommand { program, args } => ActionModel::RunCommand {
                program: program@,
                args: string_views(args@),
            },
            Action::CreateWorkDir(p) => ActionModel::CreateWorkDir(p@),
            Action::Download { url, destination } => ActionModel::Download {
                url: url@,
                destination: destination@,
            },
            Action::Extract { kind, archive, destination_dir, members } => ActionModel::Extract {
                kind: *kind,
                archive: archive@,
                destination_dir: destination_dir@,
                members: members@.map_values(|m: ArchiveMember| m@),
            },
            Action::Open(c) => ActionModel::Open { program: c.program@, args: string_views(c.args@) },
            Action::Finish(r) => ActionModel::Finish(result_view(*r)),
        }
    }
}

/// The burn pipeline: what it was asked to do, where it stands and what it
/// has learnt so far.
pub struct Pipeline {
    config: AppConfig,
    platform: RuntimePlatform,
    env: Vec<(String, String)>,
    open_plan: OpenPlan,
    subtitle_plan: SubtitlePlan,
    stage: Stage,
    validated: bool,
    system_error: Option<SystemDiscoveryError>,
    release: Option<ManagedRelease>,
    cache_dir: String,
    install_root: String,
    staging: String,
    managed_filter: Option<crate::ffmpeg::SubtitleFilter>,
    toolset: Option<FfmpegToolset>,
    dimensions: Option<VideoDimensions>,
    work_dir: Option<String>,
    outcome: Option<Result<(), String>>,
}

/// The mathematical value of the pipeline.
pub struct PipelineModel {
    pub config: ConfigModel,
    pub platform: RuntimePlatformKind,
    pub env: Seq<(String, String)>,
    pub should_open: bool,
    pub open_hint: Seq<char>,
    pub requires_ass_staging: bool,
    pub wraps_dialogue_lines: bool,
    pub stage: Stage,
    /// The inputs passed every check and the output may be written.
    pub validated: bool,
    /// The message of why the system tools could not be used.
    pub system_error: Option<Seq<char>>,
    pub release: Option<ReleaseModel>,
    pub cache_dir: Seq<char>,
    pub install_root: Seq<char>,
    pub staging: Seq<char>,
    pub managed_filter: Option<crate::ffmpeg::SubtitleFilter>,
    pub toolset: Option<ToolsetModel>,
    pub dimensions: Option<VideoDimensions>,
    pub work_dir: Option<Seq<char>>,
    pub outcome: Option<Result<(), Seq<char>>>,
}

impl View for Pipeline {
    type V = PipelineModel;

    closed spec fn view(&self) -> PipelineModel {
        PipelineModel {
            config: self.config@,
            platform: self.platform@,
            env: self.env@,
            should_open: self.open_plan.should_open_output,
            open_hint: self.open_plan.open_command_hint@,
            requires_ass_staging: self.subtitle_plan.requires_ass_staging,
            wraps_dialogue_lines: self.subtitle_plan.wraps_dialogue_lines,
            stage: self.stage,
            validated: self.validated,
            system_error: match self.system_error {
                Some(e) => Some(crate::ffmpeg::discovery_message(e)),
                None => None,
            },
            release: match self.release {
                Some(r) => Some(r@),
                None => None,
            },
            cache_dir: self.cache_dir@,
            install_root: self.install_root@,
            staging: self.staging@,
            managed_filter: self.managed_filter,
            toolset: match self.toolset {
                Some(t) => Some(t@),
                None => None,
            },
            dimensions: self.dimensions,
            work_dir: match self.work_dir {
                Some(w) => Some(w@),
                None => None,
            },
            outcome: match self.outcome {
                Some(r) => Some(result_view(r)),
                None => None,
            },
        }
    }
}

// ---------------------------------------------------------------------------
// Paths and messages
// ---------------------------------------------------------------------------

/// The directory that receives the output (and the working directory).
pub open spec fn output_dir(s: PipelineModel) -> Seq<char> {
    directory_of(s.config.output, win(s))
}

/// Whether paths follow Windows conventions.
pub open spec fn win(s: PipelineModel) -> bool {
    crate::ffmpeg::is_windows_spec(s.platform)
}

/// The converted subtitles inside the working directory.
pub open spec fn raw_ass_path(w: Seq<char>, windows: bool) -> Seq<char> {
    path_join(w, "raw.ass"@, windows)
}

/// The wrapped subtitles inside the working directory.
pub open spec fn wrapped_ass_path(w: Seq<char>, windows: bool) -> Seq<char> {
    path_join(w, "wrapped.ass"@, windows)
}

/// The video that ffmpeg renders inside the working directory.
pub open spec fn staged_output_path(w: Seq<char>, windows: bool) -> Seq<char> {
    path_join(w, "burned-output.mp4"@, windows)
}

/// A message followed by the error that caused it.
pub open spec fn with_cause(context: Seq<char>, cause: Seq<char>) -> Seq<char> {
    context + ": "@ + cause
}

/// The message of a provisioning failure where no managed install was
/// tried.
pub open spec fn system_only_message(p: RuntimePlatformKind, system: Seq<char>) -> Seq<char> {
    with_cause(
        "failed to locate or provision ffmpeg/ffprobe"@,
        "usable system ffmpeg/ffprobe were not found for "@ + platform_name(p)
            + "; system probe failed: "@ + system + ". "@ + advice_text(p),
    )
}

/// The message of a provisioning failure where the managed install failed
/// too.
pub open spec fn provisioning_failed_message(
    p: RuntimePlatformKind,
    system: Seq<char>,
    managed: Seq<char>,
) -> Seq<char> {
    with_cause(
        "failed to locate or provision ffmpeg/ffprobe"@,
        "usable system ffmpeg/ffprobe were not found for "@ + platform_name(p)
            + "; system probe failed: "@ + system + "; managed install failed: "@ + managed
            + ". "@ + advice_text(p),
    )
}

/// The message when rendering would leave `u32`.
pub open spec fn layout_overflow_message() -> Seq<char> {
    "subtitle layout for the video height does not fit in 32-bit arithmetic"@
}

/// What a run of the opener means for the pipeline.
pub open spec fn open_report(hint: Seq<char>, path: Seq<char>, o: CommandOutcome) -> Result<
    (),
    Seq<char>,
> {
    match o {
        CommandOutcome::SpawnFailed(e) => Err(
            "failed to launch `"@ + hint + "` for "@ + path + ": "@ + e@ + ": "@ + e@,
        ),
        CommandOutcome::Exited { success, code, stdout, stderr } => if success {
            Ok(())
        } else {
            Err(
                "`"@ + hint + "` failed while opening "@ + path + ": "@ + open_failure_details(
                    code,
                    stderr@,
                    stdout@,
                ),
            )
        },
    }
}

// ---------------------------------------------------------------------------
// Transitions
// ---------------------------------------------------------------------------

/// Ends the pipeline with `result`; a working directory is removed first.
pub open spec fn finish(s: PipelineModel, result: Result<(), Seq<char>>) -> (PipelineModel, ActionModel) {
    match s.work_dir {
        Some(w) => (
            PipelineModel { stage: Stage::Cleanup, outcome: Some(result), ..s },
            ActionModel::RemoveDirAll(w),
        ),
        None => (
            PipelineModel { stage: Stage::Finished, outcome: Some(result), ..s },
            ActionModel::Finish(result),
        ),
    }
}

/// Ends the pipeline with the error `msg`.
pub open spec fn fail(s: PipelineModel, msg: Seq<char>) -> (PipelineModel, ActionModel) {
    finish(s, Err(msg))
}

/// Ends the pipeline because the managed install failed with `managed`.
pub open spec fn provision_fail(s: PipelineModel, managed: Seq<char>) -> (PipelineModel, ActionModel) {
    fail(
        PipelineModel { system_error: None, ..s },
        provisioning_failed_message(s.platform, s.system_error->0, managed),
    )
}

/// Starts checking the inputs.
pub open spec fn begin_validation(s: PipelineModel) -> (PipelineModel, ActionModel) {
    (PipelineModel { stage: Stage::CheckVideo, ..s }, ActionModel::IsFile(s.config.video))
}

/// Starts using a toolset: probe the video's dimensions.
pub open spec fn begin_probe(s: PipelineModel, t: ToolsetModel) -> (PipelineModel, ActionModel) {
    (
        PipelineModel { stage: Stage::ProbeDimensions, toolset: Some(t), ..s },
        ActionModel::RunCommand { program: t.ffprobe, args: probe_args_spec(s.config.video) },
    )
}

/// The managed ffmpeg of the install.
pub open spec fn managed_ffmpeg(s: PipelineModel) -> Seq<char> {
    managed_tool_path(s.install_root, s.platform, "ffmpeg"@)
}

/// The managed ffprobe of the install.
pub open spec fn managed_ffprobe(s: PipelineModel) -> Seq<char> {
    managed_tool_path(s.install_root, s.platform, "ffprobe"@)
}

/// The origin of the managed toolset: the release's provider, the install
/// directory and the platform.
pub open spec fn managed_origin(s: PipelineModel) -> OriginModel {
    OriginModel::Managed { provider: s.release->0.provider, install_dir: s.install_root, platform: s.platform }
}

/// Starts a fresh install: make the directory that holds it.
pub open spec fn begin_install(s: PipelineModel) -> (PipelineModel, ActionModel) {
    (
        PipelineModel { stage: Stage::CreateInstallParent, ..s },
        ActionModel::CreateDirAll(directory_of(s.install_root, win(s))),
    )
}

/// An install that fails validation: a fresh one ends provisioning, an
/// existing one is removed and installed again.
pub open spec fn install_invalid(s: PipelineModel, fresh: bool, details: Seq<char>) -> (
    PipelineModel,
    ActionModel,
) {
    if fresh {
        provision_fail(s, "managed install at "@ + s.install_root + " is invalid: "@ + details)
    } else {
        (
            PipelineModel { stage: Stage::RemoveStaleInstall, ..s },
            ActionModel::RemoveDirAll(s.install_root),
        )
    }
}

/// The file an archive of the release is downloaded to.
pub open spec fn archive_path(s: PipelineModel, i: int) -> Seq<char> {
    path_join(s.staging, s.release->0.archives[i].archive_name, win(s))
}

/// The metadata file of an install being staged.
pub open spec fn metadata_path(s: PipelineModel) -> Seq<char> {
    path_join(s.staging, "SOURCE.txt"@, win(s))
}

/// Downloads archive `i` of the release, or writes the metadata after the
/// last one.
pub open spec fn download_from(s: PipelineModel, i: int) -> (PipelineModel, ActionModel) {
    if 0 <= i < s.release->0.archives.len() {
        (
            PipelineModel { stage: Stage::Download { index: i as usize }, ..s },
            ActionModel::Download {
                url: s.release->0.archives[i].url,
                destination: archive_path(s, i),
            },
        )
    } else {
        (
            PipelineModel { stage: Stage::WriteMetadata, ..s },
            ActionModel::WriteFile {
                path: metadata_path(s),
                contents: source_metadata(s.platform, s.release->0),
            },
        )
    }
}

/// Checks the managed ffmpeg of an install.
pub open spec fn begin_validate_install(s: PipelineModel, fresh: bool) -> (PipelineModel, ActionModel) {
    (
        PipelineModel { stage: Stage::CheckManagedFfmpeg { fresh }, ..s },
        ActionModel::IsFile(managed_ffmpeg(s)),
    )
}

/// Renames the staged install into place.
pub open spec fn finalize_install(s: PipelineModel) -> (PipelineModel, ActionModel) {
    (
        PipelineModel { stage: Stage::FinalizeInstall, ..s },
        ActionModel::Rename { from: s.staging, to: s.install_root },
    )
}

/// Moves the rendered video to the output path.
pub open spec fn move_output(s: PipelineModel) -> (PipelineModel, ActionModel) {
    let w = s.work_dir->0;
    (
        PipelineModel { stage: Stage::MoveOutput, ..s },
        ActionModel::Rename { from: staged_output_path(w, win(s)), to: s.config.output },
    )
}

/// Writes the prepared subtitles.
pub open spec fn write_subtitles(s: PipelineModel, contents: Seq<char>) -> (PipelineModel, ActionModel) {
    (
        PipelineModel { stage: Stage::WriteSubtitle, ..s },
        ActionModel::WriteFile { path: wrapped_ass_path(s.work_dir->0, win(s)), contents },
    )
}

/// The outcome of a check, an operation or a read, by the kind of event.
pub open spec fn checked(e: Event) -> bool {
    match e {
        Event::Checked(b) => b,
        _ => false,
    }
}

/// The error of an operation, if it failed.
pub open spec fn completed_error(e: Event) -> Option<Seq<char>> {
    match e {
        Event::Completed(Err(d)) => Some(d@),
        _ => None,
    }
}

/// The result of a run.
pub open spec fn ran(e: Event) -> Result<Seq<char>, Seq<char>> {
    match e {
        Event::Ran(o) => command_result_spec(o),
        _ => Err(Seq::<char>::empty()),
    }
}

/// The first transitions: the shortcut that opens an existing output, and
/// the checks of the inputs.
pub open spec fn next_validation(s: PipelineModel, e: Event) -> (PipelineModel, ActionModel) {
    let c = s.config;
    match s.stage {
        Stage::Start => if c.open_output && !c.overwrite_output {
            (PipelineModel { stage: Stage::CheckExistingForOpen, ..s }, ActionModel::Exists(c.output))
        } else {
            begin_validation(s)
        },
        Stage::CheckExistingForOpen => if checked(e) {
            (PipelineModel { stage: Stage::PrintExisting, ..s }, ActionModel::PrintPath(c.output))
        } else {
            begin_validation(s)
        },
        Stage::PrintExisting => if s.should_open {
            (
                PipelineModel { stage: Stage::OpenExisting, ..s },
                ActionModel::Open {
                    program: open_invocation(s.open_hint, c.output).0,
                    args: open_invocation(s.open_hint, c.output).1,
                },
            )
        } else {
            finish(s, Ok(()))
        },
        Stage::OpenExisting => match e {
            Event::Ran(o) => finish(s, open_report(s.open_hint, c.output, o)),
            _ => finish(s, Ok(())),
        },
        Stage::CheckVideo => if checked(e) {
            (PipelineModel { stage: Stage::CheckSubtitle, ..s }, ActionModel::IsFile(c.subtitle))
        } else {
            fail(s, "video input does not exist or is not a file: "@ + c.video)
        },
        Stage::CheckSubtitle => if checked(e) {
            (PipelineModel { stage: Stage::CheckFontDir, ..s }, ActionModel::IsDir(c.style.font_dir))
        } else {
            fail(s, "subtitle input does not exist or is not a file: "@ + c.subtitle)
        },
        Stage::CheckFontDir => if checked(e) {
            (PipelineModel { stage: Stage::CreateOutputDir, ..s }, ActionModel::CreateDirAll(output_dir(s)))
        } else {
            fail(s, "font directory does not exist or is not a directory: "@ + c.style.font_dir)
        },
        Stage::CreateOutputDir => match completed_error(e) {
            Some(d) => fail(s, with_cause("failed to create output directory "@ + output_dir(s), d)),
            None => (PipelineModel { stage: Stage::CheckOutput, ..s }, ActionModel::Exists(c.output)),
        },
        _ => if checked(e) && !c.overwrite_output {
            fail(s, "output file already exists: "@ + c.output + " (pass --force to overwrite)"@)
        } else {
            (
                PipelineModel { stage: Stage::ProbeSystem, validated: true, ..s },
                ActionModel::ProbeSystemTools {
                    ffmpeg: executable_spec(s.platform, "ffmpeg"@),
                    ffmpeg_args: filters_args_spec(),
                    ffprobe: executable_spec(s.platform, "ffprobe"@),
                    ffprobe_args: version_args_spec(),
                },
            )
        },
    }
}

/// What follows the probe of the system tools: use them, try a managed
/// install, or give up.
pub open spec fn next_discovery(s: PipelineModel, e: Event) -> (PipelineModel, ActionModel) {
    match e {
        Event::ToolsProbed { ffmpeg, ffprobe } => match system_discovery(s.platform, ffmpeg, ffprobe) {
            Ok(t) => begin_probe(s, t),
            Err(m) => if supports_managed_spec(s.platform) {
                let rel = release_model(s.platform)->0;
                let s1 = PipelineModel { system_error: Some(m), release: Some(rel), ..s };
                match cache_base(s.platform, s.env) {
                    None => provision_fail(
                        s1,
                        "could not determine a cache directory for "@ + platform_name(s.platform)
                            + ": "@ + cache_unavailable_details(s.platform),
                    ),
                    Some(base) => {
                        let cd = tool_cache_dir(base, win(s));
                        let root = install_root(cd, s.platform, rel.install_id);
                        (
                            PipelineModel {
                                stage: Stage::CreateCacheDir,
                                cache_dir: cd,
                                install_root: root,
                                staging: path_with_extension(root, "installing"@, win(s)),
                                ..s1
                            },
                            ActionModel::CreateDirAll(cd),
                        )
                    },
                }
            } else {
                fail(s, system_only_message(s.platform, m))
            },
        },
        _ => (s, ActionModel::Finish(Ok(()))),
    }
}

/// The transitions of a managed install and of its validation.
pub open spec fn next_managed(s: PipelineModel, e: Event) -> (PipelineModel, ActionModel) {
    let rel = s.release->0;
    match s.stage {
        Stage::CreateCacheDir => match completed_error(e) {
            Some(d) => provision_fail(s, "could not create cache directory "@ + s.cache_dir + ": "@ + d),
            None => (PipelineModel { stage: Stage::CheckInstallRoot, ..s }, ActionModel::Exists(s.install_root)),
        },
        Stage::CheckInstallRoot => if checked(e) {
            begin_validate_install(s, false)
        } else {
            begin_install(s)
        },
        Stage::CheckManagedFfmpeg { fresh } => if checked(e) {
            (
                PipelineModel { stage: Stage::CheckManagedFfprobe { fresh }, ..s },
                ActionModel::IsFile(managed_ffprobe(s)),
            )
        } else {
            install_invalid(s, fresh, "missing "@ + managed_ffmpeg(s))
        },
        Stage::CheckManagedFfprobe { fresh } => if checked(e) {
            (
                PipelineModel { stage: Stage::RunManagedFfmpeg { fresh }, ..s },
                ActionModel::RunCommand { program: managed_ffmpeg(s), args: filters_args_spec() },
            )
        } else {
            install_invalid(s, fresh, "missing "@ + managed_ffprobe(s))
        },
        Stage::RunManagedFfmpeg { fresh } => match ran(e) {
            Err(d) => install_invalid(s, fresh, d),
            Ok(out) => match preferred_filter(supported_filters(lines(out))) {
                None => install_invalid(s, fresh, "ffmpeg does not expose the `ass` or `subtitles` filter"@),
                Some(f) => (
                    PipelineModel { stage: Stage::RunManagedFfprobe { fresh }, managed_filter: Some(f), ..s },
                    ActionModel::RunCommand { program: managed_ffprobe(s), args: version_args_spec() },
                ),
            },
        },
        Stage::RunManagedFfprobe { fresh } => match ran(e) {
            Err(d) => install_invalid(s, fresh, d),
            Ok(_) => begin_probe(
                s,
                ToolsetModel {
                    ffmpeg: managed_ffmpeg(s),
                    ffprobe: managed_ffprobe(s),
                    filter: s.managed_filter->0,
                    origin: managed_origin(s),
                },
            ),
        },
        Stage::RemoveStaleInstall => match completed_error(e) {
            Some(d) => provision_fail(s, "failed to remove stale install directory "@ + s.install_root + ": "@ + d),
            None => begin_install(s),
        },
        Stage::CreateInstallParent => match completed_error(e) {
            Some(d) => provision_fail(
                s,
                "could not create cache directory "@ + directory_of(s.install_root, win(s)) + ": "@ + d,
            ),
            None => (PipelineModel { stage: Stage::CheckStaging, ..s }, ActionModel::Exists(s.staging)),
        },
        Stage::CheckStaging => if checked(e) {
            (PipelineModel { stage: Stage::RemoveStaging, ..s }, ActionModel::RemoveDirAll(s.staging))
        } else {
            (PipelineModel { stage: Stage::CreateStaging, ..s }, ActionModel::CreateDirAll(s.staging))
        },
        Stage::RemoveStaging => match completed_error(e) {
            Some(d) => provision_fail(s, "failed to remove stale install directory "@ + s.staging + ": "@ + d),
            None => (PipelineModel { stage: Stage::CreateStaging, ..s }, ActionModel::CreateDirAll(s.staging)),
        },
        Stage::CreateStaging => match completed_error(e) {
            Some(d) => provision_fail(s, "could not create cache directory "@ + s.staging + ": "@ + d),
            None => download_from(s, 0),
        },
        Stage::Download { index } => {
            let a = rel.archives[index as int];
            match completed_error(e) {
                Some(d) => provision_fail(
                    s,
                    "failed to download "@ + a.url + " from "@ + rel.provider + ": "@ + d,
                ),
                None => (
                    PipelineModel { stage: Stage::Extract { index }, ..s },
                    ActionModel::Extract {
                        kind: a.kind,
                        archive: archive_path(s, index as int),
                        destination_dir: s.staging,
                        members: a.members,
                    },
                ),
            }
        },
        Stage::Extract { index } => {
            let a = rel.archives[index as int];
            match e {
                Event::Extracted(Err(ExtractFailure::Io(d))) => provision_fail(
                    s,
                    "failed to extract "@ + a.archive_name + " from "@ + rel.provider + ": "@ + d@,
                ),
                Event::Extracted(Err(ExtractFailure::MemberMissing(j))) => provision_fail(
                    s,
                    a.archive_name + " from "@ + rel.provider + " did not contain "@
                        + a.members[j as int].suffix,
                ),
                _ => (
                    PipelineModel { stage: Stage::RemoveArchive { index }, ..s },
                    ActionModel::RemoveFile(archive_path(s, index as int)),
                ),
            }
        },
        Stage::RemoveArchive { index } => download_from(s, index + 1),
        Stage::WriteMetadata => match completed_error(e) {
            Some(d) => provision_fail(
                s,
                "failed to write managed install metadata into "@ + metadata_path(s) + ": "@ + d,
            ),
            None => (PipelineModel { stage: Stage::CheckOldInstall, ..s }, ActionModel::Exists(s.install_root)),
        },
        Stage::CheckOldInstall => if checked(e) {
            (PipelineModel { stage: Stage::RemoveOldInstall, ..s }, ActionModel::RemoveDirAll(s.install_root))
        } else {
            finalize_install(s)
        },
        Stage::RemoveOldInstall => match completed_error(e) {
            Some(d) => provision_fail(s, "failed to remove stale install directory "@ + s.install_root + ": "@ + d),
            None => finalize_install(s),
        },
        _ => match completed_error(e) {
            Some(d) => provision_fail(s, "failed to finalize managed install in "@ + s.install_root + ": "@ + d),
            None => begin_validate_install(s, true),
        },
    }
}

/// The transitions of the burn itself: probe, stage, render, burn, move
/// into place, open, clean up.
pub open spec fn next_burn(s: PipelineModel, e: Event) -> (PipelineModel, ActionModel) {
    let c = s.config;
    let t = s.toolset->0;
    let w = s.work_dir->0;
    match s.stage {
        Stage::ProbeDimensions => match ran(e) {
            Err(d) => fail(s, "ffprobe failed to read video dimensions from "@ + c.video + ": "@ + d),
            Ok(out) => match dimensions_spec(out) {
                None => fail(s, "ffprobe returned invalid video dimensions for "@ + c.video + ": "@ + trim(out)),
                Some((width, height)) => (
                    PipelineModel {
                        stage: Stage::CreateWorkParent,
                        dimensions: Some(VideoDimensions { width, height }),
                        ..s
                    },
                    ActionModel::CreateDirAll(output_dir(s)),
                ),
            },
        },
        Stage::CreateWorkParent => match completed_error(e) {
            Some(d) => fail(s, with_cause("failed to create working directory parent "@ + output_dir(s), d)),
            None => (PipelineModel { stage: Stage::CreateWorkDir, ..s }, ActionModel::CreateWorkDir(output_dir(s))),
        },
        Stage::CreateWorkDir => match e {
            Event::WorkDirMade(Ok(dir)) => {
                let s1 = PipelineModel { work_dir: Some(dir@), ..s };
                if s.requires_ass_staging {
                    (
                        PipelineModel { stage: Stage::StageSubtitle, ..s1 },
                        ActionModel::RunCommand {
                            program: t.ffmpeg,
                            args: convert_args_spec(c.subtitle, raw_ass_path(dir@, win(s))),
                        },
                    )
                } else {
                    (
                        PipelineModel { stage: Stage::CopySubtitle, ..s1 },
                        ActionModel::CopyFile { from: c.subtitle, to: raw_ass_path(dir@, win(s)) },
                    )
                }
            },
            Event::WorkDirMade(Err(WorkDirFailure::CreateFailed { path, details })) => fail(
                s,
                with_cause("failed to create working directory "@ + path@, details@),
            ),
            _ => fail(s, "failed to create a unique working directory inside "@ + output_dir(s)),
        },
        Stage::StageSubtitle => match ran(e) {
            Err(d) => fail(
                s,
                "ffmpeg failed to convert subtitle "@ + c.subtitle + " to ASS at "@ + raw_ass_path(w, win(s))
                    + ": "@ + d,
            ),
            Ok(_) => (PipelineModel { stage: Stage::ReadSubtitle, ..s }, ActionModel::ReadFile(raw_ass_path(w, win(s)))),
        },
        Stage::CopySubtitle => match completed_error(e) {
            Some(d) => fail(
                s,
                with_cause(
                    "failed to copy ASS subtitle file from "@ + c.subtitle + " to "@ + raw_ass_path(w, win(s)),
                    d,
                ),
            ),
            None => (PipelineModel { stage: Stage::ReadSubtitle, ..s }, ActionModel::ReadFile(raw_ass_path(w, win(s)))),
        },
        Stage::ReadSubtitle => match e {
            Event::Read(Ok(text)) => if !s.wraps_dialogue_lines {
                write_subtitles(s, text@)
            } else {
                let dims = s.dimensions->0;
                if !render_in_range(c.style, dims.height) {
                    fail(s, layout_overflow_message())
                } else {
                    match render_spec(text@, c.style, dims.width, dims.height) {
                        Ok(out) => write_subtitles(s, out),
                        Err(err) => fail(s, subtitle_error_message(err)),
                    }
                }
            },
            Event::Read(Err(d)) => fail(
                s,
                with_cause("failed to read converted ASS subtitles from "@ + raw_ass_path(w, win(s)), d@),
            ),
            _ => (s, ActionModel::Finish(Ok(()))),
        },
        Stage::WriteSubtitle => match completed_error(e) {
            Some(d) => fail(s, with_cause("failed to write prepared ASS subtitles to "@ + wrapped_ass_path(w, win(s)), d)),
            None => (
                PipelineModel { stage: Stage::Burn, ..s },
                ActionModel::RunCommand {
                    program: t.ffmpeg,
                    args: embed_args_spec(
                        c.video,
                        filter_expression(t.filter, wrapped_ass_path(w, win(s)), c.style.font_dir),
                        staged_output_path(w, win(s)),
                    ),
                },
            ),
        },
        Stage::Burn => match ran(e) {
            Err(d) => fail(
                s,
                "ffmpeg failed to burn subtitles from "@ + wrapped_ass_path(w, win(s)) + " into "@
                    + staged_output_path(w, win(s)) + ": "@ + d,
            ),
            Ok(_) => (PipelineModel { stage: Stage::CheckBurned, ..s }, ActionModel::IsFile(staged_output_path(w, win(s)))),
        },
        Stage::CheckBurned => if !checked(e) {
            fail(s, "ffmpeg did not produce the expected output file: "@ + staged_output_path(w, win(s)))
        } else if c.overwrite_output {
            (PipelineModel { stage: Stage::CheckExistingOutput, ..s }, ActionModel::Exists(c.output))
        } else {
            move_output(s)
        },
        Stage::CheckExistingOutput => if checked(e) {
            (PipelineModel { stage: Stage::RemoveExistingOutput, ..s }, ActionModel::RemoveFile(c.output))
        } else {
            move_output(s)
        },
        Stage::RemoveExistingOutput => match completed_error(e) {
            Some(d) => fail(
                s,
                with_cause("failed to remove existing output before overwrite: "@ + c.output, d),
            ),
            None => move_output(s),
        },
        Stage::MoveOutput => match completed_error(e) {
            Some(d) => fail(
                s,
                with_cause(
                    "failed to move rendered video into place: "@ + staged_output_path(w, win(s)) + " -> "@
                        + c.output,
                    d,
                ),
            ),
            None => (PipelineModel { stage: Stage::PrintOutput, ..s }, ActionModel::PrintPath(c.output)),
        },
        Stage::PrintOutput => if s.should_open {
            (
                PipelineModel { stage: Stage::OpenOutput, ..s },
                ActionModel::Open {
                    program: open_invocation(s.open_hint, c.output).0,
                    args: open_invocation(s.open_hint, c.output).1,
                },
            )
        } else {
            finish(s, Ok(()))
        },
        Stage::OpenOutput => match e {
            Event::Ran(o) => finish(s, open_report(s.open_hint, c.output, o)),
            _ => finish(s, Ok(())),
        },
        Stage::Cleanup => (
            PipelineModel { stage: Stage::Finished, work_dir: None, ..s },
            ActionModel::Finish(s.outcome->0),
        ),
        _ => (s, ActionModel::Finish(s.outcome->0)),
    }
}

/// The stages of the first transitions.
pub open spec fn in_validation(st: Stage) -> bool {
    ||| st is Start
    ||| st is CheckExistingForOpen
    ||| st is PrintExisting
    ||| st is OpenExisting
    ||| st is CheckVideo
    ||| st is CheckSubtitle
    ||| st is CheckFontDir
    ||| st is CreateOutputDir
    ||| st is CheckOutput
}

/// The stages of a managed install.
pub open spec fn in_managed(st: Stage) -> bool {
    ||| st is CreateCacheDir
    ||| st is CheckInstallRoot
    ||| st is CheckManagedFfmpeg
    ||| st is CheckManagedFfprobe
    ||| st is RunManagedFfmpeg
    ||| st is RunManagedFfprobe
    ||| st is RemoveStaleInstall
    ||| st is CreateInstallParent
    ||| st is CheckStaging
    ||| st is RemoveStaging
    ||| st is CreateStaging
    ||| st is Download
    ||| st is Extract
    ||| st is RemoveArchive
    ||| st is WriteMetadata
    ||| st is CheckOldInstall
    ||| st is RemoveOldInstall
    ||| st is FinalizeInstall
}

/// The next state and action after event `e`.
pub open spec fn next(s: PipelineModel, e: Event) -> (PipelineModel, ActionModel) {
    if in_validation(s.stage) {
        next_validation(s, e)
    } else if s.stage is ProbeSystem {
        next_discovery(s, e)
    } else if in_managed(s.stage) {
        next_managed(s, e)
    } else {
        next_burn(s, e)
    }
}

/// Whether `e` answers the action that led to the current stage.
pub open spec fn fits(s: PipelineModel, e: Event) -> bool {
    match s.stage {
        Stage::Start | Stage::Finished => true,
        Stage::CheckExistingForOpen | Stage::CheckVideo | Stage::CheckSubtitle | Stage::CheckFontDir
        | Stage::CheckOutput | Stage::CheckInstallRoot | Stage::CheckManagedFfmpeg { .. }
        | Stage::CheckManagedFfprobe { .. } | Stage::CheckStaging | Stage::CheckOldInstall
        | Stage::CheckBurned | Stage::CheckExistingOutput => e is Checked,
        Stage::ProbeSystem => e is ToolsProbed,
        Stage::OpenExisting | Stage::RunManagedFfmpeg { .. } | Stage::RunManagedFfprobe { .. }
        | Stage::ProbeDimensions | Stage::StageSubtitle | Stage::Burn | Stage::OpenOutput => e is Ran,
        Stage::ReadSubtitle => e is Read,
        Stage::CreateWorkDir => e is WorkDirMade,
        Stage::Extract { index } => {
            &&& e is Extracted
            &&& (e matches Event::Extracted(Err(ExtractFailure::MemberMissing(j))) ==> (j as int)
                < s.release->0.archives[index as int].members.len())
        },
        _ => e is Completed,
    }
}

/// What the pipeline keeps true between steps.
pub open spec fn wf(s: PipelineModel) -> bool {
    &&& in_managed(s.stage) ==> s.release is Some && s.system_error is Some
    &&& (s.stage matches Stage::Download { index } ==> (index as int) < s.release->0.archives.len())
    &&& (s.stage matches Stage::Extract { index } ==> (index as int) < s.release->0.archives.len())
    &&& (s.stage matches Stage::RemoveArchive { index } ==> (index as int) < s.release->0.archives.len())
    &&& s.stage is RunManagedFfprobe ==> s.managed_filter is Some
    &&& (in_managed(s.stage) || s.stage is ProbeSystem) ==> s.validated
    &&& in_validation(s.stage) ==> !s.validated
    &&& !in_validation(s.stage) && !in_managed(s.stage) && !(s.stage is ProbeSystem) && !(
    s.stage is Finished) && !(s.stage is Cleanup) ==> s.toolset is Some && s.validated
    &&& !in_validation(s.stage) && !in_managed(s.stage) && !(s.stage is ProbeSystem) && !(
    s.stage is Finished) && !(s.stage is Cleanup) && !(s.stage is ProbeDimensions) ==> s.dimensions
        is Some
    &&& (s.stage is StageSubtitle || s.stage is CopySubtitle || s.stage is ReadSubtitle
        || s.stage is WriteSubtitle || s.stage is Burn || s.stage is CheckBurned
        || s.stage is CheckExistingOutput || s.stage is RemoveExistingOutput || s.stage is MoveOutput
        || s.stage is PrintOutput || s.stage is OpenOutput || s.stage is Cleanup) ==> s.work_dir is Some
    &&& (s.stage is CheckExistingOutput || s.stage is RemoveExistingOutput) ==> s.config.overwrite_output
    &&& (s.stage is Cleanup || s.stage is Finished) ==> s.outcome is Some
    &&& s.stage is Finished ==> s.work_dir is None
    &&& (in_validation(s.stage) || s.stage is ProbeSystem || in_managed(s.stage)
        || s.stage is ProbeDimensions || s.stage is CreateWorkParent || s.stage is CreateWorkDir)
        ==> s.work_dir is None
}

// ---------------------------------------------------------------------------
// The executable machine
// ---------------------------------------------------------------------------

/// The pipeline before its first step.
pub open spec fn initial(
    config: ConfigModel,
    platform: RuntimePlatformKind,
    env: Seq<(String, String)>,
    open_hint: Seq<char>,
) -> PipelineModel {
    PipelineModel {
        config,
        platform,
        env,
        should_open: config.open_output,
        open_hint,
        requires_ass_staging: true,
        wraps_dialogue_lines: true,
        stage: Stage::Start,
        validated: false,
        system_error: None,
        release: None,
        cache_dir: Seq::<char>::empty(),
        install_root: Seq::<char>::empty(),
        staging: Seq::<char>::empty(),
        managed_filter: None,
        toolset: None,
        dimensions: None,
        work_dir: None,
        outcome: None,
    }
}

fn cat2(a: &str, b: &str) -> (r: String)
    ensures
        r@ == a@ + b@,
{
    let mut v = chars_of(a);
    push_str(&mut v, b);
    string_of(v.as_slice())
}

fn cat3(a: &str, b: &str, c: &str) -> (r: String)
    ensures
        r@ == a@ + b@ + c@,
{
    let mut v = chars_of(a);
    push_str(&mut v, b);
    push_str(&mut v, c);
    string_of(v.as_slice())
}

fn cat4(a: &str, b: &str, c: &str, d: &str) -> (r: String)
    ensures
        r@ == a@ + b@ + c@ + d@,
{
    let mut v = chars_of(a);
    push_str(&mut v, b);
    push_str(&mut v, c);
    push_str(&mut v, d);
    string_of(v.as_slice())
}

fn caused(context: &str, reason: &str) -> (r: String)
    ensures
        r@ == with_cause(context@, reason@),
{
    cat3(context, ": ", reason)
}

fn is_checked(e: &Event) -> (r: bool)
    ensures
        r == checked(*e),
{
    match e {
        Event::Checked(b) => *b,
        _ => false,
    }
}

fn completed_err(e: &Event) -> (r: Option<String>)
    ensures
        match completed_error(*e) {
            Some(d) => r matches Some(x) && x@ == d,
            None => r is None,
        },
{
    match e {
        Event::Completed(Err(d)) => Some(d.clone()),
        _ => None,
    }
}

fn ran_result(e: &Event) -> (r: Result<String, String>)
    ensures
        match ran(*e) {
            Ok(out) => r matches Ok(x) && x@ == out,
            Err(d) => r matches Err(x) && x@ == d,
        },
{
    match e {
        Event::Ran(o) => crate::ffmpeg::command_result(o),
        _ => Err(String::new()),
    }
}

fn copy_result(r: &Result<(), String>) -> (c: Result<(), String>)
    ensures
        result_view(c) == result_view(*r),
{
    match r {
        Ok(()) => Ok(()),
        Err(m) => Err(m.clone()),
    }
}

fn copy_members(v: &Vec<ArchiveMember>) -> (c: Vec<ArchiveMember>)
    ensures
        c@.map_values(|m: ArchiveMember| m@) == v@.map_values(|m: ArchiveMember| m@),
{
    let mut c: Vec<ArchiveMember> = Vec::new();
    let mut i: usize = 0;
    while i < v.len()
        invariant
            i <= v@.len(),
            c@.map_values(|m: ArchiveMember| m@) == v@.take(i as int).map_values(
                |m: ArchiveMember| m@,
            ),
        decreases v@.len() - i,
    {
        c.push(
            ArchiveMember {
                suffix: v[i].suffix.clone(),
                destination_name: v[i].destination_name.clone(),
            },
        );
        assert(v@.take(i + 1).map_values(|m: ArchiveMember| m@) =~= v@.take(i as int).map_values(
            |m: ArchiveMember| m@,
        ).push(v@[i as int]@));
        assert(c@.map_values(|m: ArchiveMember| m@) =~= v@.take(i + 1).map_values(
            |m: ArchiveMember| m@,
        ));
        i = i + 1;
    }
    assert(v@.take(v@.len() as int) == v@);
    c
}

impl Pipeline {
    /// A pipeline for a configuration, run on the operating system `os` and
    /// architecture `arch` (the names of `std::env::consts`), with the
    /// environment pairs that locate the cache directory.
    pub fn new(config: AppConfig, os: &str, arch: &str, env: Vec<(String, String)>) -> (r: Pipeline)
        ensures
            r@ == initial(config@, crate::ffmpeg::detect_spec(os@, arch@), env@, crate::platform::open_command_for(os@)),
            wf(r@),
    {
        let open_plan = crate::platform::plan(config.open_output, os);
        let subtitle_plan = crate::subtitle::plan(&config);
        let platform = RuntimePlatform::detect(os, arch);
        Pipeline {
            config,
            platform,
            env,
            open_plan,
            subtitle_plan,
            stage: Stage::Start,
            validated: false,
            system_error: None,
            release: None,
            cache_dir: String::new(),
            install_root: String::new(),
            staging: String::new(),
            managed_filter: None,
            toolset: None,
            dimensions: None,
            work_dir: None,
            outcome: None,
        }
    }

    /// Whether `e` answers the action that led to the current stage (see
    /// `fits`).
    pub fn accepts(&self, e: &Event) -> (r: bool)
        requires
            wf(self@),
        ensures
            r == fits(self@, *e),
    {
        match self.stage {
            Stage::Start | Stage::Finished => true,
            Stage::CheckExistingForOpen | Stage::CheckVideo | Stage::CheckSubtitle
            | Stage::CheckFontDir | Stage::CheckOutput | Stage::CheckInstallRoot
            | Stage::CheckManagedFfmpeg { .. } | Stage::CheckManagedFfprobe { .. }
            | Stage::CheckStaging | Stage::CheckOldInstall | Stage::CheckBurned
            | Stage::CheckExistingOutput => matches!(e, Event::Checked(_)),
            Stage::ProbeSystem => matches!(e, Event::ToolsProbed { .. }),
            Stage::OpenExisting | Stage::RunManagedFfmpeg { .. } | Stage::RunManagedFfprobe { .. }
            | Stage::ProbeDimensions | Stage::StageSubtitle | Stage::Burn | Stage::OpenOutput => matches!(
                e,
                Event::Ran(_)
            ),
            Stage::ReadSubtitle => matches!(e, Event::Read(_)),
            Stage::CreateWorkDir => matches!(e, Event::WorkDirMade(_)),
            Stage::Extract { index } => match e {
                Event::Extracted(Err(ExtractFailure::MemberMissing(j))) => {
                    let release = self.release.as_ref().unwrap();
                    *j < release.archives[index].members.len()
                },
                Event::Extracted(_) => true,
                _ => false,
            },
            _ => matches!(e, Event::Completed(_)),
        }
    }

    fn finish_with(&mut self, result: Result<(), String>) -> (a: Action)
        ensures
            (final(self)@, a@) == finish(old(self)@, result_view(result)),
    {
        match &self.work_dir {
            Some(w) => {
                let a = Action::RemoveDirAll(w.clone());
                self.stage = Stage::Cleanup;
                self.outcome = Some(result);
                a
            },
            None => {
                let a = Action::Finish(copy_result(&result));
                self.stage = Stage::Finished;
                self.outcome = Some(result);
                a
            },
        }
    }

    fn fail_with(&mut self, msg: String) -> (a: Action)
        ensures
            (final(self)@, a@) == fail(old(self)@, msg@),
    {
        self.finish_with(Err(msg))
    }

    fn provision_fail_with(&mut self, managed: crate::managed::ManagedInstallError) -> (a: Action)
        requires
            old(self)@.system_error is Some,
        ensures
            (final(self)@, a@) == provision_fail(
                old(self)@,
                crate::managed::managed_error_message(managed),
            ),
    {
        let system_error = self.system_error.take().unwrap();
        let result = crate::ffmpeg::after_managed_install(&self.platform, system_error, Err(managed));
        match result {
            Err(p) => {
                let m = p.message();
                let msg = caused("failed to locate or provision ffmpeg/ffprobe", m.as_str());
                self.fail_with(msg)
            },
            Ok(_) => vstd::pervasive::unreached(),
        }
    }

    fn begin_validation_exec(&mut self) -> (a: Action)
        ensures
            (final(self)@, a@) == begin_validation(old(self)@),
    {
        self.stage = Stage::CheckVideo;
        Action::IsFile(self.config.video.clone())
    }

    fn open_action(&self) -> (a: Action)
        requires
            self@.should_open,
        ensures
            a@ == (ActionModel::Open {
                program: open_invocation(self@.open_hint, self@.config.output).0,
                args: open_invocation(self@.open_hint, self@.config.output).1,
            }),
    {
        match crate::platform::open_output(&self.open_plan, self.config.output.as_str()) {
            Some(c) => Action::Open(c),
            None => vstd::pervasive::unreached(),
        }
    }

    fn open_report_of(&self, o: &CommandOutcome) -> (r: Result<(), String>)
        ensures
            result_view(r) == open_report(self@.open_hint, self@.config.output, *o),
    {
        match crate::platform::open_result(&self.open_plan, self.config.output.as_str(), o) {
            Ok(()) => Ok(()),
            Err(err) => {
                let m = err.message();
                match &err {
                    crate::platform::OpenError::Launch { source, .. } => Err(
                        cat3(m.as_str(), ": ", source.as_str()),
                    ),
                    crate::platform::OpenError::Failed { .. } => Err(m),
                }
            },
        }
    }

    fn step_validation(&mut self, e: Event) -> (a: Action)
        requires
            wf(old(self)@),
            fits(old(self)@, e),
            in_validation(old(self)@.stage),
        ensures
            (final(self)@, a@) == next_validation(old(self)@, e),
    {
        match self.stage {
            Stage::Start => {
                if self.config.open_output && !self.config.overwrite_output {
                    self.stage = Stage::CheckExistingForOpen;
                    Action::Exists(self.config.output.clone())
                } else {
                    self.begin_validation_exec()
                }
            },
            Stage::CheckExistingForOpen => {
                if is_checked(&e) {
                    self.stage = Stage::PrintExisting;
                    Action::PrintPath(self.config.output.clone())
                } else {
                    self.begin_validation_exec()
                }
            },
            Stage::PrintExisting => {
                if self.open_plan.should_open_output {
                    let a = self.open_action();
                    self.stage = Stage::OpenExisting;
                    a
                } else {
                    self.finish_with(Ok(()))
                }
            },
            Stage::OpenExisting => {
                match &e {
                    Event::Ran(o) => {
                        let r = self.open_report_of(o);
                        self.finish_with(r)
                    },
                    _ => self.finish_with(Ok(())),
                }
            },
            Stage::CheckVideo => {
                if is_checked(&e) {
                    self.stage = Stage::CheckSubtitle;
                    Action::IsFile(self.config.subtitle.clone())
                } else {
                    let msg = cat2(
                        "video input does not exist or is not a file: ",
                        self.config.video.as_str(),
                    );
                    self.fail_with(msg)
                }
            },
            Stage::CheckSubtitle => {
                if is_checked(&e) {
                    self.stage = Stage::CheckFontDir;
                    Action::IsDir(self.config.style.font_dir.clone())
                } else {
                    let msg = cat2(
                        "subtitle input does not exist or is not a file: ",
                        self.config.subtitle.as_str(),
                    );
                    self.fail_with(msg)
                }
            },
            Stage::CheckFontDir => {
                if is_checked(&e) {
                    self.stage = Stage::CreateOutputDir;
                    Action::CreateDirAll(directory_for(self.config.output.as_str(), self.platform.is_windows()))
                } else {
                    let msg = cat2(
                        "font directory does not exist or is not a directory: ",
                        self.config.style.font_dir.as_str(),
                    );
                    self.fail_with(msg)
                }
            },
            Stage::CreateOutputDir => {
                match completed_err(&e) {
                    Some(d) => {
                        let dir = directory_for(self.config.output.as_str(), self.platform.is_windows());
                        let ctx = cat2("failed to create output directory ", dir.as_str());
                        let msg = caused(ctx.as_str(), d.as_str());
                        self.fail_with(msg)
                    },
                    None => {
                        self.stage = Stage::CheckOutput;
                        Action::Exists(self.config.output.clone())
                    },
                }
            },
            _ => {
                if is_checked(&e) && !self.config.overwrite_output {
                    let msg = cat3(
                        "output file already exists: ",
                        self.config.output.as_str(),
                        " (pass --force to overwrite)",
                    );
                    self.fail_with(msg)
                } else {
                    self.stage = Stage::ProbeSystem;
                    self.validated = true;
                    Action::ProbeSystemTools {
                        ffmpeg: self.platform.executable_name("ffmpeg"),
                        ffmpeg_args: crate::ffmpeg::filters_args(),
                        ffprobe: self.platform.executable_name("ffprobe"),
                        ffprobe_args: crate::ffmpeg::version_args(),
                    }
                }
            },
        }
    }

    fn begin_probe_exec(&mut self, t: FfmpegToolset) -> (a: Action)
        ensures
            (final(self)@, a@) == begin_probe(old(self)@, t@),
    {
        let args = crate::ffmpeg::probe_dimensions_args(self.config.video.as_str());
        let program = t.ffprobe.clone();
        self.toolset = Some(t);
        self.stage = Stage::ProbeDimensions;
        Action::RunCommand { program, args }
    }

    fn step_discovery(&mut self, e: Event) -> (a: Action)
        requires
            wf(old(self)@),
            fits(old(self)@, e),
            old(self)@.stage is ProbeSystem,
        ensures
            (final(self)@, a@) == next_discovery(old(self)@, e),
    {
        match e {
            Event::ToolsProbed { ffmpeg, ffprobe } => {
                let found = crate::ffmpeg::discover(&self.platform, ffmpeg, ffprobe);
                match crate::ffmpeg::after_system_probe(&self.platform, found) {
                    crate::ffmpeg::SystemProbeOutcome::Use(t) => self.begin_probe_exec(t),
                    crate::ffmpeg::SystemProbeOutcome::Fail(err) => {
                        let m = err.message();
                        let msg = caused("failed to locate or provision ffmpeg/ffprobe", m.as_str());
                        self.fail_with(msg)
                    },
                    crate::ffmpeg::SystemProbeOutcome::TryManaged(system_error) => {
                        let release = match crate::managed::managed_release(&self.platform) {
                            Ok(r) => r,
                            Err(_) => vstd::pervasive::unreached(),
                        };
                        self.system_error = Some(system_error);
                        match crate::managed::cache_base_dir_from_env(&self.platform, &self.env) {
                            Err(me) => {
                                self.release = Some(release);
                                self.provision_fail_with(me)
                            },
                            Ok(base) => {
                                let cd = crate::managed::tool_cache_dir_of(base.as_str(), self.platform.is_windows());
                                let root = crate::managed::install_root_of(
                                    cd.as_str(),
                                    &self.platform,
                                    &release,
                                );
                                let staging = crate::paths::with_extension(root.as_str(), "installing", self.platform.is_windows());
                                let a = Action::CreateDirAll(cd.clone());
                                self.release = Some(release);
                                self.cache_dir = cd;
                                self.install_root = root;
                                self.staging = staging;
                                self.stage = Stage::CreateCacheDir;
                                a
                            },
                        }
                    },
                }
            },
            _ => Action::Finish(Ok(())),
        }
    }

    fn begin_install_exec(&mut self) -> (a: Action)
        ensures
            (final(self)@, a@) == begin_install(old(self)@),
    {
        self.stage = Stage::CreateInstallParent;
        Action::CreateDirAll(directory_for(self.install_root.as_str(), self.platform.is_windows()))
    }

    fn begin_validate_install_exec(&mut self, fresh: bool) -> (a: Action)
        ensures
            (final(self)@, a@) == begin_validate_install(old(self)@, fresh),
    {
        let p = crate::managed::managed_tool_path_of(self.install_root.as_str(), &self.platform, "ffmpeg");
        self.stage = Stage::CheckManagedFfmpeg { fresh };
        Action::IsFile(p)
    }

    fn install_invalid_exec(&mut self, fresh: bool, details: String) -> (a: Action)
        requires
            old(self)@.system_error is Some,
        ensures
            (final(self)@, a@) == install_invalid(old(self)@, fresh, details@),
    {
        if fresh {
            let me = crate::managed::ManagedInstallError::InstalledToolsInvalid {
                install_dir: self.install_root.clone(),
                details,
            };
            self.provision_fail_with(me)
        } else {
            self.stage = Stage::RemoveStaleInstall;
            Action::RemoveDirAll(self.install_root.clone())
        }
    }

    fn download_from_exec(&mut self, i: usize) -> (a: Action)
        requires
            old(self)@.release is Some,
        ensures
            (final(self)@, a@) == download_from(old(self)@, i as int),
    {
        let release = self.release.as_ref().unwrap();
        if i < release.archives.len() {
            let url = release.archives[i].url.clone();
            let destination = join_path(self.staging.as_str(), release.archives[i].archive_name.as_str(), self.platform.is_windows());
            self.stage = Stage::Download { index: i };
            Action::Download { url, destination }
        } else {
            let path = join_path(self.staging.as_str(), "SOURCE.txt", self.platform.is_windows());
            let contents = crate::managed::source_metadata_text(&self.platform, release);
            self.stage = Stage::WriteMetadata;
            Action::WriteFile { path, contents }
        }
    }

    fn finalize_install_exec(&mut self) -> (a: Action)
        ensures
            (final(self)@, a@) == finalize_install(old(self)@),
    {
        self.stage = Stage::FinalizeInstall;
        Action::Rename { from: self.staging.clone(), to: self.install_root.clone() }
    }

    fn step_managed(&mut self, e: Event) -> (a: Action)
        requires
            wf(old(self)@),
            fits(old(self)@, e),
            in_managed(old(self)@.stage),
        ensures
            (final(self)@, a@) == next_managed(old(self)@, e),
    {
        match self.stage {
            Stage::CreateCacheDir => match completed_err(&e) {
                Some(d) => {
                    let me = crate::managed::ManagedInstallError::CacheDirectoryCreateFailed {
                        path: self.cache_dir.clone(),
                        details: d,
                    };
                    self.provision_fail_with(me)
                },
                None => {
                    self.stage = Stage::CheckInstallRoot;
                    Action::Exists(self.install_root.clone())
                },
            },
            Stage::CheckInstallRoot => {
                if is_checked(&e) {
                    self.begin_validate_install_exec(false)
                } else {
                    self.begin_install_exec()
                }
            },
            Stage::CheckManagedFfmpeg { fresh } => {
                if is_checked(&e) {
                    let p = crate::managed::managed_tool_path_of(
                        self.install_root.as_str(),
                        &self.platform,
                        "ffprobe",
                    );
                    self.stage = Stage::CheckManagedFfprobe { fresh };
                    Action::IsFile(p)
                } else {
                    let p = crate::managed::managed_tool_path_of(
                        self.install_root.as_str(),
                        &self.platform,
                        "ffmpeg",
                    );
                    let details = cat2("missing ", p.as_str());
                    self.install_invalid_exec(fresh, details)
                }
            },
            Stage::CheckManagedFfprobe { fresh } => {
                if is_checked(&e) {
                    let p = crate::managed::managed_tool_path_of(
                        self.install_root.as_str(),
                        &self.platform,
                        "ffmpeg",
                    );
                    self.stage = Stage::RunManagedFfmpeg { fresh };
                    Action::RunCommand { program: p, args: crate::ffmpeg::filters_args() }
                } else {
                    let p = crate::managed::managed_tool_path_of(
                        self.install_root.as_str(),
                        &self.platform,
                        "ffprobe",
                    );
                    let details = cat2("missing ", p.as_str());
                    self.install_invalid_exec(fresh, details)
                }
            },
            Stage::RunManagedFfmpeg { fresh } => {
                match crate::ffmpeg::probe_ffmpeg_result(ran_result(&e)) {
                    Err(err) => {
                        let details = err.message();
                        self.install_invalid_exec(fresh, details)
                    },
                    Ok(f) => {
                        let p = crate::managed::managed_tool_path_of(
                            self.install_root.as_str(),
                            &self.platform,
                            "ffprobe",
                        );
                        self.managed_filter = Some(f);
                        self.stage = Stage::RunManagedFfprobe { fresh };
                        Action::RunCommand { program: p, args: crate::ffmpeg::version_args() }
                    },
                }
            },
            Stage::RunManagedFfprobe { fresh } => {
                match crate::ffmpeg::probe_ffprobe_result(ran_result(&e)) {
                    Err(err) => {
                        let details = err.message();
                        self.install_invalid_exec(fresh, details)
                    },
                    Ok(()) => {
                        let ffmpeg = crate::managed::managed_tool_path_of(
                            self.install_root.as_str(),
                            &self.platform,
                            "ffmpeg",
                        );
                        let ffprobe = crate::managed::managed_tool_path_of(
                            self.install_root.as_str(),
                            &self.platform,
                            "ffprobe",
                        );
                        let release = self.release.as_ref().unwrap();
                        let t = FfmpegToolset {
                            ffmpeg,
                            ffprobe,
                            subtitle_filter: self.managed_filter.unwrap(),
                            origin: crate::ffmpeg::ToolOrigin::Managed(
                                crate::ffmpeg::ManagedToolOrigin {
                                    provider: release.provider.clone(),
                                    install_dir: self.install_root.clone(),
                                    platform: self.platform.duplicate(),
                                },
                            ),
                        };
                        self.begin_probe_exec(t)
                    },
                }
            },
            Stage::RemoveStaleInstall => match completed_err(&e) {
                Some(d) => {
                    let me = crate::managed::ManagedInstallError::StaleInstallCleanupFailed {
                        path: self.install_root.clone(),
                        details: d,
                    };
                    self.provision_fail_with(me)
                },
                None => self.begin_install_exec(),
            },
            Stage::CreateInstallParent => match completed_err(&e) {
                Some(d) => {
                    let me = crate::managed::ManagedInstallError::CacheDirectoryCreateFailed {
                        path: directory_for(self.install_root.as_str(), self.platform.is_windows()),
                        details: d,
                    };
                    self.provision_fail_with(me)
                },
                None => {
                    self.stage = Stage::CheckStaging;
                    Action::Exists(self.staging.clone())
                },
            },
            Stage::CheckStaging => {
                if is_checked(&e) {
                    self.stage = Stage::RemoveStaging;
                    Action::RemoveDirAll(self.staging.clone())
                } else {
                    self.stage = Stage::CreateStaging;
                    Action::CreateDirAll(self.staging.clone())
                }
            },
            Stage::RemoveStaging => match completed_err(&e) {
                Some(d) => {
                    let me = crate::managed::ManagedInstallError::StaleInstallCleanupFailed {
                        path: self.staging.clone(),
                        details: d,
                    };
                    self.provision_fail_with(me)
                },
                None => {
                    self.stage = Stage::CreateStaging;
                    Action::CreateDirAll(self.staging.clone())
                },
            },
            Stage::CreateStaging => match completed_err(&e) {
                Some(d) => {
                    let me = crate::managed::ManagedInstallError::CacheDirectoryCreateFailed {
                        path: self.staging.clone(),
                        details: d,
                    };
                    self.provision_fail_with(me)
                },
                None => self.download_from_exec(0),
            },
            Stage::Download { index } => match completed_err(&e) {
                Some(d) => {
                    let release = self.release.as_ref().unwrap();
                    let me = crate::managed::ManagedInstallError::DownloadFailed {
                        provider: release.provider.clone(),
                        url: release.archives[index].url.clone(),
                        details: d,
                    };
                    self.provision_fail_with(me)
                },
                None => {
                    let release = self.release.as_ref().unwrap();
                    let archive = &release.archives[index];
                    let a = Action::Extract {
                        kind: archive.kind,
                        archive: join_path(self.staging.as_str(), archive.archive_name.as_str(), self.platform.is_windows()),
                        destination_dir: self.staging.clone(),
                        members: copy_members(&archive.members),
                    };
                    self.stage = Stage::Extract { index };
                    a
                },
            },
            Stage::Extract { index } => match e {
                Event::Extracted(Err(ExtractFailure::Io(d))) => {
                    let release = self.release.as_ref().unwrap();
                    let me = crate::managed::ManagedInstallError::ExtractionFailed {
                        provider: release.provider.clone(),
                        archive_name: release.archives[index].archive_name.clone(),
                        details: d,
                    };
                    self.provision_fail_with(me)
                },
                Event::Extracted(Err(ExtractFailure::MemberMissing(j))) => {
                    let release = self.release.as_ref().unwrap();
                    let archive = &release.archives[index];
                    let me = crate::managed::ManagedInstallError::ArchiveMemberMissing {
                        provider: release.provider.clone(),
                        archive_name: archive.archive_name.clone(),
                        member: archive.members[j].suffix.clone(),
                    };
                    self.provision_fail_with(me)
                },
                _ => {
                    let release = self.release.as_ref().unwrap();
                    let p = join_path(self.staging.as_str(), release.archives[index].archive_name.as_str(), self.platform.is_windows());
                    self.stage = Stage::RemoveArchive { index };
                    Action::RemoveFile(p)
                },
            },
            Stage::RemoveArchive { index } => {
                let n = self.release.as_ref().unwrap().archives.len();
                assert(index < n);
                self.download_from_exec(index + 1)
            },
            Stage::WriteMetadata => match completed_err(&e) {
                Some(d) => {
                    let me = crate::managed::ManagedInstallError::MetadataWriteFailed {
                        path: join_path(self.staging.as_str(), "SOURCE.txt", self.platform.is_windows()),
                        details: d,
                    };
                    self.provision_fail_with(me)
                },
                None => {
                    self.stage = Stage::CheckOldInstall;
                    Action::Exists(self.install_root.clone())
                },
            },
            Stage::CheckOldInstall => {
                if is_checked(&e) {
                    self.stage = Stage::RemoveOldInstall;
                    Action::RemoveDirAll(self.install_root.clone())
                } else {
                    self.finalize_install_exec()
                }
            },
            Stage::RemoveOldInstall => match completed_err(&e) {
                Some(d) => {
                    let me = crate::managed::ManagedInstallError::StaleInstallCleanupFailed {
                        path: self.install_root.clone(),
                        details: d,
                    };
                    self.provision_fail_with(me)
                },
                None => self.finalize_install_exec(),
            },
            _ => match completed_err(&e) {
                Some(d) => {
                    let me = crate::managed::ManagedInstallError::InstallFinalizeFailed {
                        install_dir: self.install_root.clone(),
                        details: d,
                    };
                    self.provision_fail_with(me)
                },
                None => self.begin_validate_install_exec(true),
            },
        }
    }

    fn write_subtitles_exec(&mut self, contents: String) -> (a: Action)
        requires
            old(self)@.work_dir is Some,
        ensures
            (final(self)@, a@) == write_subtitles(old(self)@, contents@),
    {
        let w = self.work_dir.as_ref().unwrap();
        let path = join_path(w.as_str(), "wrapped.ass", self.platform.is_windows());
        self.stage = Stage::WriteSubtitle;
        Action::WriteFile { path, contents }
    }

    fn move_output_exec(&mut self) -> (a: Action)
        requires
            old(self)@.work_dir is Some,
        ensures
            (final(self)@, a@) == move_output(old(self)@),
    {
        let w = self.work_dir.as_ref().unwrap();
        let from = join_path(w.as_str(), "burned-output.mp4", self.platform.is_windows());
        self.stage = Stage::MoveOutput;
        Action::Rename { from, to: self.config.output.clone() }
    }

    fn step_burn(&mut self, e: Event) -> (a: Action)
        requires
            wf(old(self)@),
            fits(old(self)@, e),
            !in_validation(old(self)@.stage),
            !in_managed(old(self)@.stage),
            !(old(self)@.stage is ProbeSystem),
        ensures
            (final(self)@, a@) == next_burn(old(self)@, e),
    {
        match self.stage {
            Stage::ProbeDimensions => {
                match crate::ffmpeg::dimensions_from_probe(self.config.video.as_str(), ran_result(&e)) {
                    Err(err) => {
                        let msg = err.message();
                        self.fail_with(msg)
                    },
                    Ok(dims) => {
                        self.dimensions = Some(dims);
                        self.stage = Stage::CreateWorkParent;
                        Action::CreateDirAll(directory_for(self.config.output.as_str(), self.platform.is_windows()))
                    },
                }
            },
            Stage::CreateWorkParent => match completed_err(&e) {
                Some(d) => {
                    let dir = directory_for(self.config.output.as_str(), self.platform.is_windows());
                    let ctx = cat2("failed to create working directory parent ", dir.as_str());
                    let msg = caused(ctx.as_str(), d.as_str());
                    self.fail_with(msg)
                },
                None => {
                    self.stage = Stage::CreateWorkDir;
                    Action::CreateWorkDir(directory_for(self.config.output.as_str(), self.platform.is_windows()))
                },
            },
            Stage::CreateWorkDir => match e {
                Event::WorkDirMade(Ok(dir)) => {
                    let raw = join_path(dir.as_str(), "raw.ass", self.platform.is_windows());
                    if self.subtitle_plan.requires_ass_staging {
                        let t = self.toolset.as_ref().unwrap();
                        let a = Action::RunCommand {
                            program: t.ffmpeg.clone(),
                            args: crate::ffmpeg::convert_subtitles_args(
                                self.config.subtitle.as_str(),
                                raw.as_str(),
                            ),
                        };
                        self.work_dir = Some(dir);
                        self.stage = Stage::StageSubtitle;
                        a
                    } else {
                        let a = Action::CopyFile { from: self.config.subtitle.clone(), to: raw };
                        self.work_dir = Some(dir);
                        self.stage = Stage::CopySubtitle;
                        a
                    }
                },
                Event::WorkDirMade(Err(WorkDirFailure::CreateFailed { path, details })) => {
                    let ctx = cat2("failed to create working directory ", path.as_str());
                    let msg = caused(ctx.as_str(), details.as_str());
                    self.fail_with(msg)
                },
                _ => {
                    let dir = directory_for(self.config.output.as_str(), self.platform.is_windows());
                    let msg = cat2("failed to create a unique working directory inside ", dir.as_str());
                    self.fail_with(msg)
                },
            },
            Stage::StageSubtitle => match ran_result(&e) {
                Err(d) => {
                    let w = self.work_dir.as_ref().unwrap();
                    let err = crate::ffmpeg::FfmpegExecutionError::ConvertSubtitle {
                        input: self.config.subtitle.clone(),
                        output: join_path(w.as_str(), "raw.ass", self.platform.is_windows()),
                        details: d,
                    };
                    let msg = err.message();
                    self.fail_with(msg)
                },
                Ok(_) => {
                    let w = self.work_dir.as_ref().unwrap();
                    let raw = join_path(w.as_str(), "raw.ass", self.platform.is_windows());
                    self.stage = Stage::ReadSubtitle;
                    Action::ReadFile(raw)
                },
            },
            Stage::CopySubtitle => match completed_err(&e) {
                Some(d) => {
                    let w = self.work_dir.as_ref().unwrap();
                    let raw = join_path(w.as_str(), "raw.ass", self.platform.is_windows());
                    let ctx = cat4(
                        "failed to copy ASS subtitle file from ",
                        self.config.subtitle.as_str(),
                        " to ",
                        raw.as_str(),
                    );
                    let msg = caused(ctx.as_str(), d.as_str());
                    self.fail_with(msg)
                },
                None => {
                    let w = self.work_dir.as_ref().unwrap();
                    let raw = join_path(w.as_str(), "raw.ass", self.platform.is_windows());
                    self.stage = Stage::ReadSubtitle;
                    Action::ReadFile(raw)
                },
            },
            Stage::ReadSubtitle => match e {
                Event::Read(Ok(text)) => {
                    if !self.subtitle_plan.wraps_dialogue_lines {
                        self.write_subtitles_exec(text)
                    } else {
                        let dims = self.dimensions.unwrap();
                        if !crate::subtitle::render_fits(&self.config.style, dims.height) {
                            let msg = "subtitle layout for the video height does not fit in 32-bit arithmetic".to_owned();
                            self.fail_with(msg)
                        } else {
                            match crate::subtitle::render_ass(
                                text.as_str(),
                                &self.config.style,
                                dims.width,
                                dims.height,
                            ) {
                                Ok(out) => self.write_subtitles_exec(out),
                                Err(err) => {
                                    let msg = err.message();
                                    self.fail_with(msg)
                                },
                            }
                        }
                    }
                },
                Event::Read(Err(d)) => {
                    let w = self.work_dir.as_ref().unwrap();
                    let raw = join_path(w.as_str(), "raw.ass", self.platform.is_windows());
                    let ctx = cat2("failed to read converted ASS subtitles from ", raw.as_str());
                    let msg = caused(ctx.as_str(), d.as_str());
                    self.fail_with(msg)
                },
                _ => Action::Finish(Ok(())),
            },
            Stage::WriteSubtitle => match completed_err(&e) {
                Some(d) => {
                    let w = self.work_dir.as_ref().unwrap();
                    let wrapped = join_path(w.as_str(), "wrapped.ass", self.platform.is_windows());
                    let ctx = cat2("failed to write prepared ASS subtitles to ", wrapped.as_str());
                    let msg = caused(ctx.as_str(), d.as_str());
                    self.fail_with(msg)
                },
                None => {
                    let w = self.work_dir.as_ref().unwrap();
                    let wrapped = join_path(w.as_str(), "wrapped.ass", self.platform.is_windows());
                    let staged = join_path(w.as_str(), "burned-output.mp4", self.platform.is_windows());
                    let t = self.toolset.as_ref().unwrap();
                    let args = crate::ffmpeg::embed_subtitles_args(
                        t,
                        self.config.video.as_str(),
                        wrapped.as_str(),
                        self.config.style.font_dir.as_str(),
                        staged.as_str(),
                    );
                    let program = t.ffmpeg.clone();
                    self.stage = Stage::Burn;
                    Action::RunCommand { program, args }
                },
            },
            Stage::Burn => match ran_result(&e) {
                Err(d) => {
                    let w = self.work_dir.as_ref().unwrap();
                    let err = crate::ffmpeg::FfmpegExecutionError::BurnSubtitles {
                        video: self.config.video.clone(),
                        subtitle: join_path(w.as_str(), "wrapped.ass", self.platform.is_windows()),
                        output: join_path(w.as_str(), "burned-output.mp4", self.platform.is_windows()),
                        details: d,
                    };
                    let msg = err.message();
                    self.fail_with(msg)
                },
                Ok(_) => {
                    let w = self.work_dir.as_ref().unwrap();
                    let staged = join_path(w.as_str(), "burned-output.mp4", self.platform.is_windows());
                    self.stage = Stage::CheckBurned;
                    Action::IsFile(staged)
                },
            },
            Stage::CheckBurned => {
                if !is_checked(&e) {
                    let w = self.work_dir.as_ref().unwrap();
                    let staged = join_path(w.as_str(), "burned-output.mp4", self.platform.is_windows());
                    let msg = cat2("ffmpeg did not produce the expected output file: ", staged.as_str());
                    self.fail_with(msg)
                } else if self.config.overwrite_output {
                    self.stage = Stage::CheckExistingOutput;
                    Action::Exists(self.config.output.clone())
                } else {
                    self.move_output_exec()
                }
            },
            Stage::CheckExistingOutput => {
                if is_checked(&e) {
                    self.stage = Stage::RemoveExistingOutput;
                    Action::RemoveFile(self.config.output.clone())
                } else {
                    self.move_output_exec()
                }
            },
            Stage::RemoveExistingOutput => match completed_err(&e) {
                Some(d) => {
                    let ctx = cat2(
                        "failed to remove existing output before overwrite: ",
                        self.config.output.as_str(),
                    );
                    let msg = caused(ctx.as_str(), d.as_str());
                    self.fail_with(msg)
                },
                None => self.move_output_exec(),
            },
            Stage::MoveOutput => match completed_err(&e) {
                Some(d) => {
                    let w = self.work_dir.as_ref().unwrap();
                    let staged = join_path(w.as_str(), "burned-output.mp4", self.platform.is_windows());
                    let ctx = cat4(
                        "failed to move rendered video into place: ",
                        staged.as_str(),
                        " -> ",
                        self.config.output.as_str(),
                    );
                    let msg = caused(ctx.as_str(), d.as_str());
                    self.fail_with(msg)
                },
                None => {
                    self.stage = Stage::PrintOutput;
                    Action::PrintPath(self.config.output.clone())
                },
            },
            Stage::PrintOutput => {
                if self.open_plan.should_open_output {
                    let a = self.open_action();
                    self.stage = Stage::OpenOutput;
                    a
                } else {
                    self.finish_with(Ok(()))
                }
            },
            Stage::OpenOutput => {
                match &e {
                    Event::Ran(o) => {
                        let r = self.open_report_of(o);
                        self.finish_with(r)
                    },
                    _ => self.finish_with(Ok(())),
                }
            },
            Stage::Cleanup => {
                let r = copy_result(self.outcome.as_ref().unwrap());
                self.stage = Stage::Finished;
                self.work_dir = None;
                Action::Finish(r)
            },
            _ => Action::Finish(copy_result(self.outcome.as_ref().unwrap())),
        }
    }

    /// Takes the answer to the last action and returns the next action (see
    /// `next`). The first event is `Begin`; the last action is `Finish`.
    pub fn step(&mut self, e: Event) -> (a: Action)
        requires
            wf(old(self)@),
            fits(old(self)@, e),
        ensures
            wf(final(self)@),
            (final(self)@, a@) == next(old(self)@, e),
    {
        proof {
            lemma_next_wf(self@, e);
        }
        if self.in_validation_stage() {
            self.step_validation(e)
        } else if matches!(self.stage, Stage::ProbeSystem) {
            self.step_discovery(e)
        } else if self.in_managed_stage() {
            self.step_managed(e)
        } else {
            self.step_burn(e)
        }
    }

    fn in_validation_stage(&self) -> (r: bool)
        ensures
            r == in_validation(self@.stage),
    {
        matches!(
            self.stage,
            Stage::Start | Stage::CheckExistingForOpen | Stage::PrintExisting | Stage::OpenExisting
                | Stage::CheckVideo | Stage::CheckSubtitle | Stage::CheckFontDir
                | Stage::CreateOutputDir | Stage::CheckOutput
        )
    }

    fn in_managed_stage(&self) -> (r: bool)
        ensures
            r == in_managed(self@.stage),
    {
        matches!(
            self.stage,
            Stage::CreateCacheDir | Stage::CheckInstallRoot | Stage::CheckManagedFfmpeg { .. }
                | Stage::CheckManagedFfprobe { .. } | Stage::RunManagedFfmpeg { .. }
                | Stage::RunManagedFfprobe { .. } | Stage::RemoveStaleInstall
                | Stage::CreateInstallParent | Stage::CheckStaging | Stage::RemoveStaging
                | Stage::CreateStaging | Stage::Download { .. } | Stage::Extract { .. }
                | Stage::RemoveArchive { .. } | Stage::WriteMetadata | Stage::CheckOldInstall
                | Stage::RemoveOldInstall | Stage::FinalizeInstall
        )
    }
}

proof fn lemma_validation_wf(s: PipelineModel, e: Event)
    requires
        wf(s),
        fits(s, e),
        in_validation(s.stage),
    ensures
        wf(next_validation(s, e).0),
{
}

proof fn lemma_discovery_wf(s: PipelineModel, e: Event)
    requires
        wf(s),
        fits(s, e),
        s.stage is ProbeSystem,
    ensures
        wf(next_discovery(s, e).0),
{
}

#[verifier::rlimit(50)]
proof fn lemma_managed_wf(s: PipelineModel, e: Event)
    requires
        wf(s),
        fits(s, e),
        in_managed(s.stage),
    ensures
        wf(next_managed(s, e).0),
{
    match s.stage {
        Stage::RemoveArchive { index } => {},
        Stage::CreateStaging => {},
        Stage::Download { index } => {},
        Stage::Extract { index } => {},
        _ => {},
    }
}

#[verifier::rlimit(50)]
proof fn lemma_burn_wf(s: PipelineModel, e: Event)
    requires
        wf(s),
        fits(s, e),
        !in_validation(s.stage),
        !in_managed(s.stage),
        !(s.stage is ProbeSystem),
    ensures
        wf(next_burn(s, e).0),
{
    match s.stage {
        Stage::ProbeDimensions => {},
        Stage::CreateWorkDir => {},
        Stage::ReadSubtitle => {},
        _ => {},
    }
}

/// Every step keeps the pipeline well formed.
pub proof fn lemma_next_wf(s: PipelineModel, e: Event)
    requires
        wf(s),
        fits(s, e),
    ensures
        wf(next(s, e).0),
{
    if in_validation(s.stage) {
        lemma_validation_wf(s, e);
    } else if s.stage is ProbeSystem {
        lemma_discovery_wf(s, e);
    } else if in_managed(s.stage) {
        lemma_managed_wf(s, e);
    } else {
        lemma_burn_wf(s, e);
    }
}

// ---------------------------------------------------------------------------
// Laws of the pipeline
// ---------------------------------------------------------------------------

/// Whether an action runs a tool or touches files beyond checking them.
pub open spec fn does_work(a: ActionModel) -> bool {
    ||| a is RunCommand
    ||| a is ProbeSystemTools
    ||| a is Download
    ||| a is Extract
    ||| a is CreateWorkDir
    ||| a is WriteFile
    ||| a is ReadFile
    ||| a is CopyFile
    ||| a is Rename
    ||| a is RemoveFile
}

/// No tool runs and no file is read, written, moved or removed before the
/// inputs are validated (making the output directory is part of the
/// validation); validation, once passed, stays passed; and it passes only
/// at the output check, when the output is absent or may be overwritten.
#[verifier::rlimit(50)]
pub proof fn lemma_work_only_after_validation(s: PipelineModel, e: Event)
    requires
        wf(s),
        fits(s, e),
    ensures
        does_work(next(s, e).1) ==> next(s, e).0.validated,
        s.validated ==> next(s, e).0.validated,
        !s.validated && next(s, e).0.validated ==> s.stage is CheckOutput && (!checked(e)
            || s.config.overwrite_output),
{
    lemma_next_wf(s, e);
}

/// The existing output is removed only when overwriting was asked for, and
/// the rendered video is moved onto the output path only after validation,
/// once ffmpeg has produced it.
#[verifier::rlimit(50)]
pub proof fn lemma_output_guarded(s: PipelineModel, e: Event)
    requires
        wf(s),
        fits(s, e),
        !in_managed(s.stage),
    ensures
        next(s, e).1 == ActionModel::RemoveFile(s.config.output) ==> s.config.overwrite_output,
        (next(s, e).1 matches ActionModel::Rename { to, .. } && to == s.config.output) ==> {
            &&& s.validated
            &&& (s.stage is CheckBurned || s.stage is CheckExistingOutput
                || s.stage is RemoveExistingOutput)
        },
{
}

/// A working directory is always removed before the pipeline finishes, and
/// a pipeline that has finished stays finished.
#[verifier::rlimit(50)]
pub proof fn lemma_work_dir_removed_before_finish(s: PipelineModel, e: Event)
    requires
        wf(s),
        fits(s, e),
    ensures
        next(s, e).1 is Finish ==> next(s, e).0.work_dir is None,
        next(s, e).0.stage is Cleanup && !(s.stage is Cleanup) ==> next(s, e).1
            == ActionModel::RemoveDirAll(s.work_dir->0),
        s.stage is Finished ==> next(s, e) == (s, ActionModel::Finish(s.outcome->0)),
{
    lemma_next_wf(s, e);
}

/// The parts of a model that say what the pipeline was asked to do.
pub open spec fn same_request(a: PipelineModel, b: PipelineModel) -> bool {
    &&& a.config == b.config
    &&& a.platform == b.platform
    &&& a.env == b.env
    &&& a.should_open == b.should_open
    &&& a.open_hint == b.open_hint
}

/// What the pipeline was asked to do never changes.
pub proof fn lemma_request_unchanged(s: PipelineModel, e: Event)
    ensures
        same_request(next(s, e).0, s),
{
    if in_validation(s.stage) {
        assert(same_request(next_validation(s, e).0, s));
    } else if s.stage is ProbeSystem {
        assert(same_request(next_discovery(s, e).0, s));
    } else if in_managed(s.stage) {
        lemma_managed_request(s, e);
    } else {
        lemma_burn_request(s, e);
    }
}

#[verifier::rlimit(50)]
proof fn lemma_managed_request(s: PipelineModel, e: Event)
    ensures
        same_request(next_managed(s, e).0, s),
{
}

#[verifier::rlimit(50)]
proof fn lemma_burn_request(s: PipelineModel, e: Event)
    ensures
        same_request(next_burn(s, e).0, s),
{
}

/// The system tools are used whenever they are usable; a managed install
/// is tried only when they are not, and only on a supported platform.
pub proof fn lemma_system_tools_first(s: PipelineModel, ffmpeg: Option<(String, CommandOutcome)>, ffprobe: Option<(String, CommandOutcome)>)
    requires
        wf(s),
        s.stage is ProbeSystem,
    ensures
        ({
            let (t, a) = next(s, Event::ToolsProbed { ffmpeg, ffprobe });
            &&& system_discovery(s.platform, ffmpeg, ffprobe) matches Ok(tools) ==> t.toolset
                == Some(tools) && t.stage is ProbeDimensions
            &&& in_managed(t.stage) ==> system_discovery(s.platform, ffmpeg, ffprobe) is Err
                && supports_managed_spec(s.platform)
        }),
{
}

/// With `--open` and without `--force`, an existing output is printed and
/// opened without checking the inputs.
pub proof fn lemma_open_existing_output(s: PipelineModel)
    requires
        s.stage is CheckExistingForOpen,
        s.should_open,
    ensures
        next(s, Event::Checked(true)).1 == ActionModel::PrintPath(s.config.output),
        next(next(s, Event::Checked(true)).0, Event::Completed(Ok(()))).1 == (ActionModel::Open {
            program: open_invocation(s.open_hint, s.config.output).0,
            args: open_invocation(s.open_hint, s.config.output).1,
        }),
        !next(next(s, Event::Checked(true)).0, Event::Completed(Ok(()))).0.validated || s.validated,
{
}

/// The inputs are checked in order: the video is a file, the subtitle is a
/// file, the font directory is a directory, the output directory is made,
/// and the output is absent or may be overwritten. Each passed check leads
/// to the next; the first failed one ends the pipeline with its message.
pub proof fn lemma_validation_order(s: PipelineModel, cause: String)
    requires
        wf(s),
    ensures
        s.stage is CheckVideo ==> {
            &&& next(s, Event::Checked(true)) == (
                PipelineModel { stage: Stage::CheckSubtitle, ..s },
                ActionModel::IsFile(s.config.subtitle),
            )
            &&& next(s, Event::Checked(false)) == fail(
                s,
                "video input does not exist or is not a file: "@ + s.config.video,
            )
        },
        s.stage is CheckSubtitle ==> {
            &&& next(s, Event::Checked(true)) == (
                PipelineModel { stage: Stage::CheckFontDir, ..s },
                ActionModel::IsDir(s.config.style.font_dir),
            )
            &&& next(s, Event::Checked(false)) == fail(
                s,
                "subtitle input does not exist or is not a file: "@ + s.config.subtitle,
            )
        },
        s.stage is CheckFontDir ==> {
            &&& next(s, Event::Checked(true)) == (
                PipelineModel { stage: Stage::CreateOutputDir, ..s },
                ActionModel::CreateDirAll(output_dir(s)),
            )
            &&& next(s, Event::Checked(false)) == fail(
                s,
                "font directory does not exist or is not a directory: "@ + s.config.style.font_dir,
            )
        },
        s.stage is CreateOutputDir ==> {
            &&& next(s, Event::Completed(Ok(()))) == (
                PipelineModel { stage: Stage::CheckOutput, ..s },
                ActionModel::Exists(s.config.output),
            )
            &&& next(s, Event::Completed(Err(cause))) == fail(
                s,
                with_cause("failed to create output directory "@ + output_dir(s), cause@),
            )
        },
        s.stage is CheckOutput ==> {
            &&& next(s, Event::Checked(true)).0.validated == s.config.overwrite_output
            &&& next(s, Event::Checked(false)).0.validated
            &&& !s.config.overwrite_output ==> next(s, Event::Checked(true)) == fail(
                s,
                "output file already exists: "@ + s.config.output + " (pass --force to overwrite)"@,
            )
        },
        (s.stage is CheckVideo || s.stage is CheckSubtitle || s.stage is CheckFontDir
            || s.stage is CreateOutputDir || s.stage is CheckOutput) ==> !next(
            s,
            Event::Checked(false),
        ).0.validated || s.stage is CheckOutput,
{
}

/// Validation changes nothing but the output directory: while the inputs
/// are checked, the only actions are checks, making the output directory,
/// printing and opening an existing output, the probe of the system tools
/// that follows validation, and the end.
pub proof fn lemma_validation_effects(s: PipelineModel, e: Event)
    requires
        wf(s),
        fits(s, e),
        in_validation(s.stage),
    ensures
        ({
            let a = next(s, e).1;
            ||| a is IsFile
            ||| a is IsDir
            ||| a is Exists
            ||| a == ActionModel::CreateDirAll(output_dir(s))
            ||| a == ActionModel::PrintPath(s.config.output)
            ||| a is Open
            ||| a is ProbeSystemTools && s.stage is CheckOutput
            ||| a is Finish
        }),
{
}

/// Whether `o` is the failure of provisioning on platform `p` after the
/// system probe failed with `system`, whatever the managed install said.
pub open spec fn provisioning_failed(o: Option<Result<(), Seq<char>>>, p: RuntimePlatformKind, system: Seq<char>) -> bool {
    exists|managed: Seq<char>| o == Some(Err::<(), Seq<char>>(#[trigger] provisioning_failed_message(p, system, managed)))
}

/// The resolution of the tools, first step: usable system tools are used;
/// otherwise a supported platform tries a managed install (recording why
/// the system tools failed), and any other platform fails with the manual
/// install advice, without downloading anything.
pub proof fn lemma_toolset_resolution(
    s: PipelineModel,
    ffmpeg: Option<(String, CommandOutcome)>,
    ffprobe: Option<(String, CommandOutcome)>,
)
    requires
        wf(s),
        s.stage is ProbeSystem,
    ensures
        ({
            let (t, a) = next(s, Event::ToolsProbed { ffmpeg, ffprobe });
            match system_discovery(s.platform, ffmpeg, ffprobe) {
                Ok(tools) => {
                    &&& t.toolset == Some(tools)
                    &&& t.stage is ProbeDimensions
                    &&& a == ActionModel::RunCommand {
                        program: tools.ffprobe,
                        args: probe_args_spec(s.config.video),
                    }
                },
                Err(m) => if supports_managed_spec(s.platform) {
                    ||| in_managed(t.stage) && t.system_error == Some(m) && t.release
                        == release_model(s.platform)
                    ||| provisioning_failed(t.outcome, s.platform, m)
                } else {
                    &&& (t, a) == fail(s, system_only_message(s.platform, m))
                    &&& !in_managed(t.stage)
                },
            }
        }),
{
    match system_discovery(s.platform, ffmpeg, ffprobe) {
        Err(m) => {
            if supports_managed_spec(s.platform) {
                let t = next(s, Event::ToolsProbed { ffmpeg, ffprobe }).0;
                if cache_base(s.platform, s.env) is None {
                    let managed = "could not determine a cache directory for "@ + platform_name(
                        s.platform,
                    ) + ": "@ + cache_unavailable_details(s.platform);
                    assert(t.outcome == Some(
                        Err::<(), Seq<char>>(provisioning_failed_message(s.platform, m, managed)),
                    ));
                }
            }
        },
        Ok(_) => {},
    }
}

/// The resolution of the tools, managed steps: a step of a managed install
/// either goes on with the install, or uses the managed tools (only after
/// both ran successfully, with the filter that ffmpeg offered), or fails
/// provisioning with a message that carries why the system tools failed.
#[verifier::rlimit(100)]
pub proof fn lemma_managed_resolution(s: PipelineModel, e: Event)
    requires
        wf(s),
        fits(s, e),
        in_managed(s.stage),
    ensures
        ({
            let t = next(s, e).0;
            ||| in_managed(t.stage)
            ||| {
                &&& t.stage is ProbeDimensions
                &&& s.stage is RunManagedFfprobe
                &&& ran(e) is Ok
                &&& t.toolset == Some(
                    ToolsetModel {
                        ffmpeg: managed_ffmpeg(s),
                        ffprobe: managed_ffprobe(s),
                        filter: s.managed_filter->0,
                        origin: managed_origin(s),
                    },
                )
            }
            ||| provisioning_failed(t.outcome, s.platform, s.system_error->0)
        }),
        (s.stage is RunManagedFfmpeg && next(s, e).0.stage is RunManagedFfprobe) ==> {
            &&& ran(e) matches Ok(out)
            &&& next(s, e).0.managed_filter == preferred_filter(supported_filters(lines(out)))
        },
{
    let sys = s.system_error->0;
    let rel = s.release->0;
    let t = next(s, e).0;
    let root = s.install_root;
    match s.stage {
        Stage::CreateCacheDir => {
            if let Some(d) = completed_error(e) {
                assert(t.outcome == Some(Err::<(), Seq<char>>(provisioning_failed_message(
                    s.platform, sys, "could not create cache directory "@ + s.cache_dir + ": "@ + d))));
            }
        },
        Stage::CheckManagedFfmpeg { fresh } => {
            if fresh && !checked(e) {
                assert(t.outcome == Some(Err::<(), Seq<char>>(provisioning_failed_message(
                    s.platform, sys, "managed install at "@ + root + " is invalid: "@ + ("missing "@ + managed_ffmpeg(s))))));
            }
        },
        Stage::CheckManagedFfprobe { fresh } => {
            if fresh && !checked(e) {
                assert(t.outcome == Some(Err::<(), Seq<char>>(provisioning_failed_message(
                    s.platform, sys, "managed install at "@ + root + " is invalid: "@ + ("missing "@ + managed_ffprobe(s))))));
            }
        },
        Stage::RunManagedFfmpeg { fresh } => {
            if fresh {
                match ran(e) {
                    Err(d) => {
                        assert(t.outcome == Some(Err::<(), Seq<char>>(provisioning_failed_message(
                            s.platform, sys, "managed install at "@ + root + " is invalid: "@ + d))));
                    },
                    Ok(out) => {
                        if preferred_filter(supported_filters(lines(out))) is None {
                            assert(t.outcome == Some(Err::<(), Seq<char>>(provisioning_failed_message(
                                s.platform, sys, "managed install at "@ + root + " is invalid: "@
                                    + "ffmpeg does not expose the `ass` or `subtitles` filter"@))));
                        }
                    },
                }
            }
        },
        Stage::RunManagedFfprobe { fresh } => {
            if fresh {
                if let Err(d) = ran(e) {
                    assert(t.outcome == Some(Err::<(), Seq<char>>(provisioning_failed_message(
                        s.platform, sys, "managed install at "@ + root + " is invalid: "@ + d))));
                }
            }
        },
        Stage::RemoveStaleInstall => {
            if let Some(d) = completed_error(e) {
                assert(t.outcome == Some(Err::<(), Seq<char>>(provisioning_failed_message(
                    s.platform, sys, "failed to remove stale install directory "@ + root + ": "@ + d))));
            }
        },
        Stage::CreateInstallParent => {
            if let Some(d) = completed_error(e) {
                assert(t.outcome == Some(Err::<(), Seq<char>>(provisioning_failed_message(
                    s.platform, sys, "could not create cache directory "@ + directory_of(root, win(s)) + ": "@ + d))));
            }
        },
        Stage::RemoveStaging => {
            if let Some(d) = completed_error(e) {
                assert(t.outcome == Some(Err::<(), Seq<char>>(provisioning_failed_message(
                    s.platform, sys, "failed to remove stale install directory "@ + s.staging + ": "@ + d))));
            }
        },
        Stage::CreateStaging => {
            if let Some(d) = completed_error(e) {
                assert(t.outcome == Some(Err::<(), Seq<char>>(provisioning_failed_message(
                    s.platform, sys, "could not create cache directory "@ + s.staging + ": "@ + d))));
            }
        },
        Stage::Download { index } => {
            if let Some(d) = completed_error(e) {
                let a = rel.archives[index as int];
                assert(t.outcome == Some(Err::<(), Seq<char>>(provisioning_failed_message(
                    s.platform, sys, "failed to download "@ + a.url + " from "@ + rel.provider + ": "@ + d))));
            }
        },
        Stage::Extract { index } => {
            let a = rel.archives[index as int];
            match e {
                Event::Extracted(Err(ExtractFailure::Io(d))) => {
                    assert(t.outcome == Some(Err::<(), Seq<char>>(provisioning_failed_message(
                        s.platform, sys, "failed to extract "@ + a.archive_name + " from "@ + rel.provider + ": "@ + d@))));
                },
                Event::Extracted(Err(ExtractFailure::MemberMissing(j))) => {
                    assert(t.outcome == Some(Err::<(), Seq<char>>(provisioning_failed_message(
                        s.platform, sys, a.archive_name + " from "@ + rel.provider + " did not contain "@
                            + a.members[j as int].suffix))));
                },
                _ => {},
            }
        },
        Stage::WriteMetadata => {
            if let Some(d) = completed_error(e) {
                assert(t.outcome == Some(Err::<(), Seq<char>>(provisioning_failed_message(
                    s.platform, sys, "failed to write managed install metadata into "@ + metadata_path(s) + ": "@ + d))));
            }
        },
        Stage::RemoveOldInstall => {
            if let Some(d) = completed_error(e) {
                assert(t.outcome == Some(Err::<(), Seq<char>>(provisioning_failed_message(
                    s.platform, sys, "failed to remove stale install directory "@ + root + ": "@ + d))));
            }
        },
        Stage::FinalizeInstall => {
            if let Some(d) = completed_error(e) {
                assert(t.outcome == Some(Err::<(), Seq<char>>(provisioning_failed_message(
                    s.platform, sys, "failed to finalize managed install in "@ + root + ": "@ + d))));
            }
        },
        _ => {},
    }
}

/// The stages that stage a fresh install next to the install directory.
pub open spec fn in_staging(st: Stage) -> bool {
    ||| st is CreateInstallParent
    ||| st is CheckStaging
    ||| st is RemoveStaging
    ||| st is CreateStaging
    ||| st is Download
    ||| st is Extract
    ||| st is RemoveArchive
    ||| st is WriteMetadata
}

/// A failed install leaves the install directory as it was: while a fresh
/// install is staged, nothing is written, moved or removed outside the
/// staging directory (and the directory holding it); the install directory
/// is removed or replaced only once staging is complete, or when an
/// existing install failed its validation.
#[verifier::rlimit(100)]
pub proof fn lemma_install_root_kept(s: PipelineModel, e: Event)
    requires
        wf(s),
        fits(s, e),
        in_managed(s.stage),
        s.staging != s.install_root,
    ensures
        ({
            let a = next(s, e).1;
            &&& in_staging(s.stage) ==> {
                &&& !(a is Rename)
                &&& a != ActionModel::RemoveDirAll(s.install_root)
                &&& a is RemoveDirAll ==> a == ActionModel::RemoveDirAll(s.staging)
                &&& a is CreateDirAll ==> a == ActionModel::CreateDirAll(s.staging) || a
                    == ActionModel::CreateDirAll(directory_of(s.install_root, win(s)))
                &&& a matches ActionModel::Download { destination, .. } ==> exists|i: int|
                    destination == #[trigger] archive_path(s, i)
                &&& a matches ActionModel::Extract { destination_dir, .. } ==> destination_dir
                    == s.staging
                &&& a matches ActionModel::RemoveFile(p) ==> exists|i: int| p == #[trigger] archive_path(s, i)
                &&& a matches ActionModel::WriteFile { path, .. } ==> path == metadata_path(s)
            }
            &&& a == ActionModel::RemoveDirAll(s.install_root) ==> s.stage is CheckOldInstall || (
                s.stage matches Stage::CheckManagedFfmpeg { fresh } && !fresh) || (
                s.stage matches Stage::CheckManagedFfprobe { fresh } && !fresh) || (
                s.stage matches Stage::RunManagedFfmpeg { fresh } && !fresh) || (
                s.stage matches Stage::RunManagedFfprobe { fresh } && !fresh)
            &&& (a matches ActionModel::Rename { to, .. } && to == s.install_root) ==> (
                s.stage is CheckOldInstall || s.stage is RemoveOldInstall)
        }),
{
    match s.stage {
        Stage::CreateStaging => {
            if completed_error(e) is None && s.release->0.archives.len() > 0 {
                assert(next(s, e).1 == ActionModel::Download {
                    url: s.release->0.archives[0].url,
                    destination: archive_path(s, 0),
                });
            }
        },
        Stage::Download { index } => {},
        Stage::Extract { index } => {
            assert(archive_path(s, index as int) == archive_path(s, index as int));
        },
        Stage::RemoveArchive { index } => {
            if index + 1 < s.release->0.archives.len() {
                assert(archive_path(s, index + 1) == archive_path(s, index + 1));
            }
        },
        _ => {},
    }
}

/// The video is probed once with ffprobe; a failed run or an unreadable
/// answer ends the pipeline with the probe's error, and dimensions read go
/// on to the working directory.
pub proof fn lemma_probe_dimensions(s: PipelineModel, o: CommandOutcome)
    requires
        wf(s),
        s.stage is ProbeDimensions,
    ensures
        match command_result_spec(o) {
            Err(d) => next(s, Event::Ran(o)) == fail(
                s,
                "ffprobe failed to read video dimensions from "@ + s.config.video + ": "@ + d,
            ),
            Ok(out) => match dimensions_spec(out) {
                None => next(s, Event::Ran(o)) == fail(
                    s,
                    "ffprobe returned invalid video dimensions for "@ + s.config.video + ": "@
                        + trim(out),
                ),
                Some((w, h)) => next(s, Event::Ran(o)).0.dimensions == Some(
                    VideoDimensions { width: w, height: h },
                ) && next(s, Event::Ran(o)).1 == ActionModel::CreateDirAll(output_dir(s)),
            },
        },
{
}

/// The burn runs ffmpeg once on the video with the subtitle filter over
/// the prepared subtitles and the font directory, re-encoding to H.264 and
/// copying the audio; a failed run ends the pipeline with the burn error,
/// a successful one goes on to check the rendered file.
pub proof fn lemma_burn_command(s: PipelineModel, o: CommandOutcome)
    requires
        wf(s),
    ensures
        s.stage is WriteSubtitle ==> next(s, Event::Completed(Ok(()))).1 == (ActionModel::RunCommand {
            program: s.toolset->0.ffmpeg,
            args: embed_args_spec(
                s.config.video,
                filter_expression(
                    s.toolset->0.filter,
                    wrapped_ass_path(s.work_dir->0, win(s)),
                    s.config.style.font_dir,
                ),
                staged_output_path(s.work_dir->0, win(s)),
            ),
        }),
        s.stage is Burn ==> match command_result_spec(o) {
            Err(d) => next(s, Event::Ran(o)) == fail(
                s,
                "ffmpeg failed to burn subtitles from "@ + wrapped_ass_path(s.work_dir->0, win(s))
                    + " into "@ + staged_output_path(s.work_dir->0, win(s)) + ": "@ + d,
            ),
            Ok(_) => next(s, Event::Ran(o)).1 == ActionModel::IsFile(
                staged_output_path(s.work_dir->0, win(s)),
            ),
        },
{
}

} // verus!
