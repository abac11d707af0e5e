//! ffmpeg/ffprobe: platforms, tool discovery decisions, command lines,
//! and the parsing of what the tools print.
use vstd::prelude::*;

use crate::config::AppConfig;
use crate::managed::{managed_error_message, ManagedInstallError};
use crate::text::{
    chars_eq_str, chars_of, find_char_from, find_from, first_two_words, lines, lines_of,
    parse_u32, parse_u32_chars, push_all, push_signed_decimal, push_str, signed_decimal,
    string_of, trim, trim_bounds, trimmed, views, words,
};

verus! {

/// Which tools a burn needs.
#[derive(Clone, Copy, Debug, PartialEq, Eq)]
pub struct FfmpegPlan {
    pub requires_ffmpeg: bool,
    pub requires_ffprobe: bool,
    pub probe_before_render: bool,
}

/// A burn always needs ffmpeg and ffprobe, and probes the video first.
pub fn plan(_config: &AppConfig) -> (r: FfmpegPlan)
    ensures
        r.requires_ffmpeg && r.requires_ffprobe && r.probe_before_render,
{
    FfmpegPlan { requires_ffmpeg: true, requires_ffprobe: true, probe_before_render: true }
}

/// The ffmpeg filters that can burn subtitles.
#[derive(Clone, Copy, Debug, PartialEq, Eq, Structural)]
pub enum SubtitleFilter {
    Ass,
    Subtitles,
}

/// The ffmpeg name of a subtitle filter.
pub open spec fn filter_name(f: SubtitleFilter) -> Seq<char> {
    match f {
        SubtitleFilter::Ass => seq!['a', 's', 's'],
        SubtitleFilter::Subtitles => seq!['s', 'u', 'b', 't', 'i', 't', 'l', 'e', 's'],
    }
}

impl SubtitleFilter {
    /// The ffmpeg name of the filter.
    pub fn as_ffmpeg_name(self) -> (r: String)
        ensures
            r@ == filter_name(self),
    {
        let mut v: Vec<char> = Vec::new();
        match self {
            SubtitleFilter::Ass => {
                v.push('a');
                v.push('s');
                v.push('s');
            },
            SubtitleFilter::Subtitles => {
                v.push('s');
                v.push('u');
                v.push('b');
                v.push('t');
                v.push('i');
                v.push('t');
                v.push('l');
                v.push('e');
                v.push('s');
            },
        }
        assert(v@ =~= filter_name(self));
        string_of(v.as_slice())
    }
}

/// Where a toolset came from.
#[derive(Clone, Debug)]
pub enum ToolOrigin {
    System,
    Managed(ManagedToolOrigin),
}

/// A managed install: its provider, directory and platform.
#[derive(Clone, Debug)]
pub struct ManagedToolOrigin {
    pub provider: String,
    pub install_dir: String,
    pub platform: RuntimePlatform,
}

/// Usable ffmpeg and ffprobe executables and the subtitle filter to use.
#[derive(Clone, Debug)]
pub struct FfmpegToolset {
    pub ffmpeg: String,
    pub ffprobe: String,
    pub subtitle_filter: SubtitleFilter,
    pub origin: ToolOrigin,
}

/// Width and height of a video, both positive.
#[derive(Clone, Copy, Debug, PartialEq, Eq)]
pub struct VideoDimensions {
    pub width: u32,
    pub height: u32,
}

// ---------------------------------------------------------------------------
// Platforms
// ---------------------------------------------------------------------------

/// The platform the program runs on.
#[derive(Clone, Debug, PartialEq, Eq)]
pub enum RuntimePlatform {
    MacosArm64,
    MacosX64,
    LinuxX64,
    WindowsX64,
    Unsupported { os: String, arch: String },
}

/// The platform for an operating system and architecture name.
pub open spec fn detect_spec(os: Seq<char>, arch: Seq<char>) -> RuntimePlatformKind {
    if os == "macos"@ && arch == "aarch64"@ {
        RuntimePlatformKind::MacosArm64
    } else if os == "macos"@ && arch == "x86_64"@ {
        RuntimePlatformKind::MacosX64
    } else if os == "linux"@ && arch == "x86_64"@ {
        RuntimePlatformKind::LinuxX64
    } else if os == "windows"@ && arch == "x86_64"@ {
        RuntimePlatformKind::WindowsX64
    } else {
        RuntimePlatformKind::Unsupported { os, arch }
    }
}

/// The mathematical value of a platform.
pub enum RuntimePlatformKind {
    MacosArm64,
    MacosX64,
    LinuxX64,
    WindowsX64,
    Unsupported { os: Seq<char>, arch: Seq<char> },
}

impl View for RuntimePlatform {
    type V = RuntimePlatformKind;

    open spec fn view(&self) -> RuntimePlatformKind {
        match self {
            RuntimePlatform::MacosArm64 => RuntimePlatformKind::MacosArm64,
            RuntimePlatform::MacosX64 => RuntimePlatformKind::MacosX64,
            RuntimePlatform::LinuxX64 => RuntimePlatformKind::LinuxX64,
            RuntimePlatform::WindowsX64 => RuntimePlatformKind::WindowsX64,
            RuntimePlatform::Unsupported { os, arch } => RuntimePlatformKind::Unsupported {
                os: os@,
                arch: arch@,
            },
        }
    }
}

/// The directory name of a platform's managed installs.
pub open spec fn cache_segment_spec(p: RuntimePlatformKind) -> Seq<char> {
    match p {
        RuntimePlatformKind::MacosArm64 => "macos-arm64"@,
        RuntimePlatformKind::MacosX64 => "macos-x64"@,
        RuntimePlatformKind::LinuxX64 => "linux-x64"@,
        RuntimePlatformKind::WindowsX64 => "windows-x64"@,
        RuntimePlatformKind::Unsupported { os, arch } => os + "-"@ + arch,
    }
}

/// The human-readable name of a platform.
pub open spec fn platform_name(p: RuntimePlatformKind) -> Seq<char> {
    match p {
        RuntimePlatformKind::MacosArm64 => "macOS arm64"@,
        RuntimePlatformKind::MacosX64 => "macOS x64"@,
        RuntimePlatformKind::LinuxX64 => "Linux x64"@,
        RuntimePlatformKind::WindowsX64 => "Windows x64"@,
        RuntimePlatformKind::Unsupported { os, arch } => os + "/"@ + arch,
    }
}

/// Whether a platform runs Windows executables.
pub open spec fn is_windows_spec(p: RuntimePlatformKind) -> bool {
    match p {
        RuntimePlatformKind::WindowsX64 => true,
        RuntimePlatformKind::Unsupported { os, .. } => os == "windows"@,
        _ => false,
    }
}

/// Whether managed downloads exist for a platform.
pub open spec fn supports_managed_spec(p: RuntimePlatformKind) -> bool {
    !(p is Unsupported)
}

fn str_eq(a: &str, b: &str) -> (r: bool)
    ensures
        r == (a@ == b@),
{
    let av = chars_of(a);
    chars_eq_str(av.as_slice(), b)
}

impl RuntimePlatform {
    /// A copy of the platform.
    pub fn duplicate(&self) -> (r: RuntimePlatform)
        ensures
            r@ == self@,
    {
        match self {
            RuntimePlatform::MacosArm64 => RuntimePlatform::MacosArm64,
            RuntimePlatform::MacosX64 => RuntimePlatform::MacosX64,
            RuntimePlatform::LinuxX64 => RuntimePlatform::LinuxX64,
            RuntimePlatform::WindowsX64 => RuntimePlatform::WindowsX64,
            RuntimePlatform::Unsupported { os, arch } => RuntimePlatform::Unsupported {
                os: os.clone(),
                arch: arch.clone(),
            },
        }
    }

    /// The platform for an operating system and architecture name (the
    /// names of `std::env::consts`).
    pub fn detect(os: &str, arch: &str) -> (r: RuntimePlatform)
        ensures
            r@ == detect_spec(os@, arch@),
    {
        if str_eq(os, "macos") && str_eq(arch, "aarch64") {
            RuntimePlatform::MacosArm64
        } else if str_eq(os, "macos") && str_eq(arch, "x86_64") {
            RuntimePlatform::MacosX64
        } else if str_eq(os, "linux") && str_eq(arch, "x86_64") {
            RuntimePlatform::LinuxX64
        } else if str_eq(os, "windows") && str_eq(arch, "x86_64") {
            RuntimePlatform::WindowsX64
        } else {
            RuntimePlatform::Unsupported { os: os.to_owned(), arch: arch.to_owned() }
        }
    }

    /// The directory name of the platform's managed installs.
    pub fn cache_segment(&self) -> (r: String)
        ensures
            r@ == cache_segment_spec(self@),
    {
        match self {
            RuntimePlatform::MacosArm64 => "macos-arm64".to_owned(),
            RuntimePlatform::MacosX64 => "macos-x64".to_owned(),
            RuntimePlatform::LinuxX64 => "linux-x64".to_owned(),
            RuntimePlatform::WindowsX64 => "windows-x64".to_owned(),
            RuntimePlatform::Unsupported { os, arch } => {
                let mut v = chars_of(os.as_str());
                push_str(&mut v, "-");
                push_str(&mut v, arch.as_str());
                string_of(v.as_slice())
            },
        }
    }

    /// Whether managed downloads exist for the platform.
    pub fn supports_managed_downloads(&self) -> (r: bool)
        ensures
            r == supports_managed_spec(self@),
    {
        match self {
            RuntimePlatform::Unsupported { .. } => false,
            _ => true,
        }
    }

    /// Whether the platform runs Windows executables.
    pub fn is_windows(&self) -> (r: bool)
        ensures
            r == is_windows_spec(self@),
    {
        match self {
            RuntimePlatform::WindowsX64 => true,
            RuntimePlatform::Unsupported { os, .. } => str_eq(os.as_str(), "windows"),
            _ => false,
        }
    }

    /// The file name of the executable `base` on the platform.
    pub fn executable_name(&self, base: &str) -> (r: String)
        ensures
            r@ == (if is_windows_spec(self@) {
                base@ + ".exe"@
            } else {
                base@
            }),
    {
        if self.is_windows() {
            let mut v = chars_of(base);
            push_str(&mut v, ".exe");
            string_of(v.as_slice())
        } else {
            base.to_owned()
        }
    }

    /// The human-readable name of the platform.
    pub fn name(&self) -> (r: String)
        ensures
            r@ == platform_name(self@),
    {
        match self {
            RuntimePlatform::MacosArm64 => "macOS arm64".to_owned(),
            RuntimePlatform::MacosX64 => "macOS x64".to_owned(),
            RuntimePlatform::LinuxX64 => "Linux x64".to_owned(),
            RuntimePlatform::WindowsX64 => "Windows x64".to_owned(),
            RuntimePlatform::Unsupported { os, arch } => {
                let mut v = chars_of(os.as_str());
                push_str(&mut v, "/");
                push_str(&mut v, arch.as_str());
                string_of(v.as_slice())
            },
        }
    }
}

// ---------------------------------------------------------------------------
// Parsing tool output
// ---------------------------------------------------------------------------

/// The index of the first line of `ls` at or after `i` that is not blank.
pub open spec fn first_nonblank(ls: Seq<Seq<char>>, i: int) -> int
    decreases ls.len() - i,
{
    if i >= ls.len() {
        ls.len() as int
    } else if trim(ls[i]).len() > 0 {
        i
    } else {
        first_nonblank(ls, i + 1)
    }
}

/// Dimensions printed by ffprobe as `WIDTHxHEIGHT` on the first non-blank
/// line; both numbers must be positive.
pub open spec fn dimensions_spec(output: Seq<char>) -> Option<(u32, u32)> {
    let ls = lines(output);
    let k = first_nonblank(ls, 0);
    if k >= ls.len() {
        None
    } else {
        let t = trim(ls[k]);
        let x = find_from(t, 'x', 0);
        if x >= t.len() {
            None
        } else {
            match (parse_u32(t.take(x)), parse_u32(t.skip(x + 1))) {
                (Some(w), Some(h)) => if w == 0 || h == 0 {
                    None
                } else {
                    Some((w, h))
                },
                _ => None,
            }
        }
    }
}

/// Reads `WIDTHxHEIGHT` from ffprobe's output (see `dimensions_spec`).
pub fn parse_video_dimensions(output: &str) -> (r: Option<VideoDimensions>)
    ensures
        match r {
            Some(d) => dimensions_spec(output@) == Some((d.width, d.height)),
            None => dimensions_spec(output@) is None,
        },
{
    let text = chars_of(output);
    let ls = lines_of(text.as_slice());
    let ghost lv = views(ls@);
    let n = ls.len();
    let mut k: usize = 0;
    loop
        invariant
            k <= n,
            n == lv.len(),
            lv == views(ls@),
            lv == lines(output@),
            first_nonblank(lv, 0) == first_nonblank(lv, k as int),
        ensures
            k < n,
            first_nonblank(lv, 0) == k,
            lv[k as int] == ls@[k as int]@,
        decreases n - k,
    {
        if k >= n {
            return None;
        }
        assert(lv[k as int] == ls@[k as int]@);
        let (a, b) = trim_bounds(ls[k].as_slice());
        if b > a {
            break;
        }
        k = k + 1;
    }
    let t = trimmed(ls[k].as_slice());
    let x = find_char_from(t.as_slice(), 'x', 0);
    if x >= t.len() {
        return None;
    }
    let w = parse_u32_chars(&t.as_slice()[0..x]);
    let h = parse_u32_chars(&t.as_slice()[x + 1..t.len()]);
    proof {
        assert(t@.subrange(0, x as int) =~= t@.take(x as int));
        assert(t@.subrange(x + 1, t@.len() as int) =~= t@.skip(x + 1));
    }
    match (w, h) {
        (Some(w), Some(h)) => {
            if w == 0 || h == 0 {
                None
            } else {
                Some(VideoDimensions { width: w, height: h })
            }
        },
        _ => None,
    }
}

/// The subtitle filters named on the lines of `ffmpeg -filters` output (the
/// second whitespace-separated field of a line), each once, in the order
/// first seen.
pub open spec fn supported_filters(ls: Seq<Seq<char>>) -> Seq<SubtitleFilter>
    decreases ls.len(),
{
    if ls.len() == 0 {
        seq![]
    } else {
        let prev = supported_filters(ls.drop_last());
        let w = words(ls.last());
        if w.len() >= 2 && w[1] == filter_name(SubtitleFilter::Ass) && !prev.contains(
            SubtitleFilter::Ass,
        ) {
            prev.push(SubtitleFilter::Ass)
        } else if w.len() >= 2 && w[1] == filter_name(SubtitleFilter::Subtitles)
            && !prev.contains(SubtitleFilter::Subtitles) {
            prev.push(SubtitleFilter::Subtitles)
        } else {
            prev
        }
    }
}

fn filters_contain(v: &Vec<SubtitleFilter>, f: SubtitleFilter) -> (r: bool)
    ensures
        r == v@.contains(f),
{
    let mut i: usize = 0;
    while i < v.len()
        invariant
            i <= v@.len(),
            forall|k: int| 0 <= k < i ==> v@[k] != f,
        decreases v.len() - i,
    {
        if v[i] == f {
            assert(v@[i as int] == f);
            return true;
        }
        i = i + 1;
    }
    false
}

/// The subtitle filters listed in `ffmpeg -filters` output.
pub fn collect_supported_filters(output: &str) -> (r: Vec<SubtitleFilter>)
    ensures
        r@ == supported_filters(lines(output@)),
{
    let text = chars_of(output);
    let ls = lines_of(text.as_slice());
    let ghost lv = views(ls@);
    let mut filters: Vec<SubtitleFilter> = Vec::new();
    let n = ls.len();
    let mut i: usize = 0;
    assert(lv.take(0) =~= Seq::<Seq<char>>::empty());
    while i < n
        invariant
            i <= n,
            n == lv.len(),
            lv == views(ls@),
            lv == lines(output@),
            filters@ == supported_filters(lv.take(i as int)),
        decreases n - i,
    {
        proof {
            assert(lv.take(i + 1).drop_last() =~= lv.take(i as int));
            assert(lv.take(i + 1).last() == ls@[i as int]@);
        }
        let (_, second) = first_two_words(ls[i].as_slice());
        if let Some(name) = second {
            let is_ass = chars_eq_str(name.as_slice(), "ass");
            let is_subtitles = chars_eq_str(name.as_slice(), "subtitles");
            proof {
                reveal_strlit("ass");
                reveal_strlit("subtitles");
                assert("ass"@ =~= filter_name(SubtitleFilter::Ass));
                assert("subtitles"@ =~= filter_name(SubtitleFilter::Subtitles));
            }
            if is_ass && !filters_contain(&filters, SubtitleFilter::Ass) {
                filters.push(SubtitleFilter::Ass);
            } else if is_subtitles && !filters_contain(&filters, SubtitleFilter::Subtitles) {
                filters.push(SubtitleFilter::Subtitles);
            }
        }
        i = i + 1;
    }
    assert(lv.take(n as int) =~= lv);
    filters
}

/// The filter to burn with: `ass` when listed, else `subtitles` when listed.
pub open spec fn preferred_filter(fs: Seq<SubtitleFilter>) -> Option<SubtitleFilter> {
    if fs.contains(SubtitleFilter::Ass) {
        Some(SubtitleFilter::Ass)
    } else if fs.contains(SubtitleFilter::Subtitles) {
        Some(SubtitleFilter::Subtitles)
    } else {
        None
    }
}

/// The subtitle filter to burn with, from `ffmpeg -filters` output.
pub fn parse_subtitle_filter(output: &str) -> (r: Option<SubtitleFilter>)
    ensures
        r == preferred_filter(supported_filters(lines(output@))),
{
    let supported = collect_supported_filters(output);
    if filters_contain(&supported, SubtitleFilter::Ass) {
        Some(SubtitleFilter::Ass)
    } else if filters_contain(&supported, SubtitleFilter::Subtitles) {
        Some(SubtitleFilter::Subtitles)
    } else {
        None
    }
}

// ---------------------------------------------------------------------------
// Command lines
// ---------------------------------------------------------------------------

/// `value` with `\` and `'` escaped by a backslash, for a quoted ffmpeg
/// filter option.
pub open spec fn escape_filter(value: Seq<char>) -> Seq<char>
    decreases value.len(),
{
    if value.len() == 0 {
        seq![]
    } else {
        let c = value.last();
        let e = if c == '\\' {
            seq!['\\', '\\']
        } else if c == '\'' {
            seq!['\\', '\'']
        } else {
            seq![c]
        };
        escape_filter(value.drop_last()) + e
    }
}

/// Escapes `\` and `'` in a filter option value.
pub fn escape_filter_value(value: &str) -> (r: String)
    ensures
        r@ == escape_filter(value@),
{
    let v = chars_of(value);
    let mut out: Vec<char> = Vec::new();
    let mut i: usize = 0;
    assert(v@.take(0) =~= Seq::<char>::empty());
    while i < v.len()
        invariant
            i <= v@.len(),
            v@ == value@,
            out@ == escape_filter(v@.take(i as int)),
        decreases v.len() - i,
    {
        let c = v[i];
        assert(v@.take(i + 1).drop_last() =~= v@.take(i as int));
        if c == '\\' {
            out.push('\\');
            out.push('\\');
        } else if c == '\'' {
            out.push('\\');
            out.push('\'');
        } else {
            out.push(c);
        }
        i = i + 1;
    }
    assert(v@.take(v@.len() as int) =~= v@);
    string_of(out.as_slice())
}

/// The `-vf` filter that burns `subtitle` with fonts from `font_dir`.
pub open spec fn filter_expression(
    filter: SubtitleFilter,
    subtitle: Seq<char>,
    font_dir: Seq<char>,
) -> Seq<char> {
    filter_name(filter) + "=filename='"@ + escape_filter(subtitle) + "':fontsdir='"@
        + escape_filter(font_dir) + "'"@
}

/// The `-vf` filter that burns `subtitle` with fonts from `font_dir`.
pub fn subtitle_filter_expression(toolset: &FfmpegToolset, subtitle: &str, font_dir: &str) -> (r:
    String)
    ensures
        r@ == filter_expression(toolset.subtitle_filter, subtitle@, font_dir@),
{
    let name = toolset.subtitle_filter.as_ffmpeg_name();
    let mut v = chars_of(name.as_str());
    push_str(&mut v, "=filename='");
    let s = escape_filter_value(subtitle);
    push_str(&mut v, s.as_str());
    push_str(&mut v, "':fontsdir='");
    let f = escape_filter_value(font_dir);
    push_str(&mut v, f.as_str());
    push_str(&mut v, "'");
    string_of(v.as_slice())
}

/// The views of a vector of strings.
pub open spec fn string_views(v: Seq<String>) -> Seq<Seq<char>> {
    v.map_values(|s: String| s@)
}

fn push_arg(args: &mut Vec<String>, a: &str)
    ensures
        string_views(final(args)@) == string_views(old(args)@).push(a@),
{
    args.push(a.to_owned());
    assert(string_views(args@) =~= string_views(old(args)@).push(a@));
}

/// The ffprobe arguments that print the first video stream's size.
pub open spec fn probe_args_spec(video: Seq<char>) -> Seq<Seq<char>> {
    seq![
        "-v"@,
        "error"@,
        "-select_streams"@,
        "v:0"@,
        "-show_entries"@,
        "stream=width,height"@,
        "-of"@,
        "csv=s=x:p=0"@,
        video,
    ]
}

/// The ffprobe arguments that print the first video stream's size.
pub fn probe_dimensions_args(video: &str) -> (r: Vec<String>)
    ensures
        string_views(r@) == probe_args_spec(video@),
{
    let mut a: Vec<String> = Vec::new();
    push_arg(&mut a, "-v");
    push_arg(&mut a, "error");
    push_arg(&mut a, "-select_streams");
    push_arg(&mut a, "v:0");
    push_arg(&mut a, "-show_entries");
    push_arg(&mut a, "stream=width,height");
    push_arg(&mut a, "-of");
    push_arg(&mut a, "csv=s=x:p=0");
    push_arg(&mut a, video);
    assert(string_views(a@) =~= probe_args_spec(video@));
    a
}

/// The ffmpeg arguments that convert subtitles `input` to ASS at `output`.
pub open spec fn convert_args_spec(input: Seq<char>, output: Seq<char>) -> Seq<Seq<char>> {
    seq!["-hide_banner"@, "-loglevel"@, "error"@, "-y"@, "-i"@, input, output]
}

/// The ffmpeg arguments that convert subtitles `input` to ASS at `output`.
pub fn convert_subtitles_args(input: &str, output: &str) -> (r: Vec<String>)
    ensures
        string_views(r@) == convert_args_spec(input@, output@),
{
    let mut a: Vec<String> = Vec::new();
    push_arg(&mut a, "-hide_banner");
    push_arg(&mut a, "-loglevel");
    push_arg(&mut a, "error");
    push_arg(&mut a, "-y");
    push_arg(&mut a, "-i");
    push_arg(&mut a, input);
    push_arg(&mut a, output);
    assert(string_views(a@) =~= convert_args_spec(input@, output@));
    a
}

/// The ffmpeg arguments that burn subtitles into `video` with the filter
/// `filter`, re-encoding the video as H.264 and copying the audio, into an
/// MP4 at `output`.
pub open spec fn embed_args_spec(video: Seq<char>, filter: Seq<char>, output: Seq<char>) -> Seq<
    Seq<char>,
> {
    seq![
        "-hide_banner"@,
        "-loglevel"@,
        "error"@,
        "-y"@,
        "-i"@,
        video,
        "-vf"@,
        filter,
        "-map"@,
        "0:v:0"@,
        "-map"@,
        "0:a?"@,
        "-c:v"@,
        "libx264"@,
        "-preset"@,
        "medium"@,
        "-crf"@,
        "18"@,
        "-pix_fmt"@,
        "yuv420p"@,
        "-c:a"@,
        "copy"@,
        "-movflags"@,
        "+faststart"@,
        output,
    ]
}

/// The ffmpeg arguments that burn `subtitle` into `video` (see `embed_args_spec`).
pub fn embed_subtitles_args(
    toolset: &FfmpegToolset,
    video: &str,
    subtitle: &str,
    font_dir: &str,
    output: &str,
) -> (r: Vec<String>)
    ensures
        string_views(r@) == embed_args_spec(
            video@,
            filter_expression(toolset.subtitle_filter, subtitle@, font_dir@),
            output@,
        ),
{
    let filter = subtitle_filter_expression(toolset, subtitle, font_dir);
    let mut a: Vec<String> = Vec::new();
    push_arg(&mut a, "-hide_banner");
    push_arg(&mut a, "-loglevel");
    push_arg(&mut a, "error");
    push_arg(&mut a, "-y");
    push_arg(&mut a, "-i");
    push_arg(&mut a, video);
    push_arg(&mut a, "-vf");
    push_arg(&mut a, filter.as_str());
    push_arg(&mut a, "-map");
    push_arg(&mut a, "0:v:0");
    push_arg(&mut a, "-map");
    push_arg(&mut a, "0:a?");
    push_arg(&mut a, "-c:v");
    push_arg(&mut a, "libx264");
    push_arg(&mut a, "-preset");
    push_arg(&mut a, "medium");
    push_arg(&mut a, "-crf");
    push_arg(&mut a, "18");
    push_arg(&mut a, "-pix_fmt");
    push_arg(&mut a, "yuv420p");
    push_arg(&mut a, "-c:a");
    push_arg(&mut a, "copy");
    push_arg(&mut a, "-movflags");
    push_arg(&mut a, "+faststart");
    push_arg(&mut a, output);
    assert(string_views(a@) =~= embed_args_spec(video@, filter@, output@));
    a
}

/// The arguments that check that ffmpeg runs and lists its filters.
pub open spec fn filters_args_spec() -> Seq<Seq<char>> {
    seq!["-hide_banner"@, "-filters"@]
}

/// The arguments that check that ffprobe runs.
pub open spec fn version_args_spec() -> Seq<Seq<char>> {
    seq!["-hide_banner"@, "-version"@]
}

/// The arguments that list ffmpeg's filters.
pub fn filters_args() -> (r: Vec<String>)
    ensures
        string_views(r@) == filters_args_spec(),
{
    let mut a: Vec<String> = Vec::new();
    push_arg(&mut a, "-hide_banner");
    push_arg(&mut a, "-filters");
    assert(string_views(a@) =~= filters_args_spec());
    a
}

/// The arguments that print ffprobe's version.
pub fn version_args() -> (r: Vec<String>)
    ensures
        string_views(r@) == version_args_spec(),
{
    let mut a: Vec<String> = Vec::new();
    push_arg(&mut a, "-hide_banner");
    push_arg(&mut a, "-version");
    assert(string_views(a@) =~= version_args_spec());
    a
}

// ---------------------------------------------------------------------------
// Running commands: what a finished process means
// ---------------------------------------------------------------------------

/// The details of a failed command: its exit code (or that a signal ended
/// it), then its trimmed standard error if that is not empty.
pub open spec fn failure_details_spec(code: Option<i32>, stderr: Seq<char>) -> Seq<char> {
    let head = match code {
        Some(c) => "exit code "@ + signed_decimal(c as int),
        None => "terminated by signal"@,
    };
    if trim(stderr).len() > 0 {
        head + ": "@ + trim(stderr)
    } else {
        head
    }
}

/// The details of a failed command (see `failure_details_spec`).
pub fn command_failure_details(code: Option<i32>, stderr: &str) -> (r: String)
    ensures
        r@ == failure_details_spec(code, stderr@),
{
    let mut out: Vec<char> = Vec::new();
    match code {
        Some(c) => {
            push_str(&mut out, "exit code ");
            push_signed_decimal(&mut out, c as i64);
        },
        None => push_str(&mut out, "terminated by signal"),
    }
    let e = chars_of(stderr);
    let t = trimmed(e.as_slice());
    if t.len() > 0 {
        push_str(&mut out, ": ");
        push_all(&mut out, t.as_slice());
    }
    string_of(out.as_slice())
}

/// The output of a successful command: standard output, then a newline and
/// standard error when standard error is not empty.
pub open spec fn combined_output_spec(stdout: Seq<char>, stderr: Seq<char>) -> Seq<char> {
    if stderr.len() > 0 {
        stdout + "\n"@ + stderr
    } else {
        stdout
    }
}

/// The output of a successful command (see `combined_output_spec`).
pub fn command_output(stdout: &str, stderr: &str) -> (r: String)
    ensures
        r@ == combined_output_spec(stdout@, stderr@),
{
    let mut out = chars_of(stdout);
    let e = chars_of(stderr);
    if e.len() > 0 {
        push_str(&mut out, "\n");
        push_all(&mut out, e.as_slice());
    }
    string_of(out.as_slice())
}

/// The failure of a command that could not be started.
pub fn spawn_failure(details: &str) -> (r: String)
    ensures
        r@ == "failed to execute: "@ + details@,
{
    let mut out = chars_of("failed to execute: ");
    push_str(&mut out, details);
    string_of(out.as_slice())
}

/// What the operating system reports of one run of a program.
#[derive(Clone, Debug)]
pub enum CommandOutcome {
    /// The program could not be started; the text of the error.
    SpawnFailed(String),
    /// The program ran to its end.
    Exited { success: bool, code: Option<i32>, stdout: String, stderr: String },
}

/// The result of running a tool: its combined output when it succeeded,
/// else the details of the failure.
pub open spec fn command_result_spec(o: CommandOutcome) -> Result<Seq<char>, Seq<char>> {
    match o {
        CommandOutcome::SpawnFailed(e) => Err("failed to execute: "@ + e@),
        CommandOutcome::Exited { success, code, stdout, stderr } => if success {
            Ok(combined_output_spec(stdout@, stderr@))
        } else {
            Err(failure_details_spec(code, stderr@))
        },
    }
}

/// The result of running a tool (see `command_result_spec`).
pub fn command_result(o: &CommandOutcome) -> (r: Result<String, String>)
    ensures
        match command_result_spec(*o) {
            Ok(out) => r matches Ok(x) && x@ == out,
            Err(d) => r matches Err(x) && x@ == d,
        },
{
    match o {
        CommandOutcome::SpawnFailed(e) => Err(spawn_failure(e.as_str())),
        CommandOutcome::Exited { success, code, stdout, stderr } => {
            if *success {
                Ok(command_output(stdout.as_str(), stderr.as_str()))
            } else {
                Err(command_failure_details(*code, stderr.as_str()))
            }
        },
    }
}

// ---------------------------------------------------------------------------
// Errors of running the tools
// ---------------------------------------------------------------------------

/// Why a run of ffmpeg or ffprobe failed.
#[derive(Clone, Debug)]
pub enum FfmpegExecutionError {
    ProbeDimensions { video: String, details: String },
    InvalidDimensions { video: String, output: String },
    ConvertSubtitle { input: String, output: String, details: String },
    BurnSubtitles { video: String, subtitle: String, output: String, details: String },
}

/// The message of an execution error.
pub open spec fn execution_error_message(e: FfmpegExecutionError) -> Seq<char> {
    match e {
        FfmpegExecutionError::ProbeDimensions { video, details } =>
            "ffprobe failed to read video dimensions from "@ + video@ + ": "@ + details@,
        FfmpegExecutionError::InvalidDimensions { video, output } =>
            "ffprobe returned invalid video dimensions for "@ + video@ + ": "@ + output@,
        FfmpegExecutionError::ConvertSubtitle { input, output, details } =>
            "ffmpeg failed to convert subtitle "@ + input@ + " to ASS at "@ + output@ + ": "@
                + details@,
        FfmpegExecutionError::BurnSubtitles { subtitle, output, details, .. } =>
            "ffmpeg failed to burn subtitles from "@ + subtitle@ + " into "@ + output@ + ": "@
                + details@,
    }
}

impl FfmpegExecutionError {
    /// The message that describes the error.
    pub fn message(&self) -> (r: String)
        ensures
            r@ == execution_error_message(*self),
    {
        let mut out: Vec<char> = Vec::new();
        match self {
            FfmpegExecutionError::ProbeDimensions { video, details } => {
                push_str(&mut out, "ffprobe failed to read video dimensions from ");
                push_str(&mut out, video.as_str());
                push_str(&mut out, ": ");
                push_str(&mut out, details.as_str());
            },
            FfmpegExecutionError::InvalidDimensions { video, output } => {
                push_str(&mut out, "ffprobe returned invalid video dimensions for ");
                push_str(&mut out, video.as_str());
                push_str(&mut out, ": ");
                push_str(&mut out, output.as_str());
            },
            FfmpegExecutionError::ConvertSubtitle { input, output, details } => {
                push_str(&mut out, "ffmpeg failed to convert subtitle ");
                push_str(&mut out, input.as_str());
                push_str(&mut out, " to ASS at ");
                push_str(&mut out, output.as_str());
                push_str(&mut out, ": ");
                push_str(&mut out, details.as_str());
            },
            FfmpegExecutionError::BurnSubtitles { subtitle, output, details, .. } => {
                push_str(&mut out, "ffmpeg failed to burn subtitles from ");
                push_str(&mut out, subtitle.as_str());
                push_str(&mut out, " into ");
                push_str(&mut out, output.as_str());
                push_str(&mut out, ": ");
                push_str(&mut out, details.as_str());
            },
        }
        assert(out@ =~= execution_error_message(*self));
        string_of(out.as_slice())
    }
}

/// The dimensions that an ffprobe run gives, or why it gives none.
pub fn dimensions_from_probe(video: &str, run: Result<String, String>) -> (r: Result<
    VideoDimensions,
    FfmpegExecutionError,
>)
    ensures
        match run {
            Err(details) => r matches Err(FfmpegExecutionError::ProbeDimensions { video: v, details: d }) && v@
                == video@ && d@ == details@,
            Ok(output) => match dimensions_spec(output@) {
                Some((w, h)) => r matches Ok(dims) && dims.width == w && dims.height == h,
                None => r matches Err(FfmpegExecutionError::InvalidDimensions { video: v, output: o })
                    && v@ == video@ && o@ == trim(output@),
            },
        },
{
    match run {
        Err(details) => Err(FfmpegExecutionError::ProbeDimensions { video: video.to_owned(), details }),
        Ok(output) => match parse_video_dimensions(output.as_str()) {
            Some(d) => Ok(d),
            None => {
                let o = chars_of(output.as_str());
                let t = trimmed(o.as_slice());
                Err(
                    FfmpegExecutionError::InvalidDimensions {
                        video: video.to_owned(),
                        output: string_of(t.as_slice()),
                    },
                )
            },
        },
    }
}

// ---------------------------------------------------------------------------
// Tool discovery
// ---------------------------------------------------------------------------

/// The state of one tool found (or not) on `PATH`.
#[derive(Clone, Debug)]
pub enum ToolStatus {
    Missing { command: String },
    Unusable { command: String, path: String, details: String },
    Ready { path: String },
}

/// An ffmpeg that runs but lacks a subtitle filter.
#[derive(Clone, Debug)]
pub struct SubtitleFilterIssue {
    pub ffmpeg_path: String,
    pub available_supported_filters: Vec<SubtitleFilter>,
}

/// Why the system tools cannot be used.
#[derive(Clone, Debug)]
pub struct SystemDiscoveryError {
    pub ffmpeg_status: ToolStatus,
    pub ffprobe_status: ToolStatus,
    pub subtitle_filter_issue: Option<SubtitleFilterIssue>,
}

/// Why probing a tool failed.
#[derive(Clone, Debug)]
pub enum ProbeError {
    CommandFailed(String),
    MissingSubtitleFilter { available_supported_filters: Vec<SubtitleFilter> },
}

/// The message of a probe error.
pub open spec fn probe_error_message(e: ProbeError) -> Seq<char> {
    match e {
        ProbeError::CommandFailed(d) => d@,
        ProbeError::MissingSubtitleFilter { .. } =>
            "ffmpeg does not expose the `ass` or `subtitles` filter"@,
    }
}

impl ProbeError {
    /// The message that describes the error.
    pub fn message(&self) -> (r: String)
        ensures
            r@ == probe_error_message(*self),
    {
        match self {
            ProbeError::CommandFailed(d) => d.clone(),
            ProbeError::MissingSubtitleFilter { .. } => "ffmpeg does not expose the `ass` or `subtitles` filter".to_owned(),
        }
    }
}

/// What a run of `ffmpeg -hide_banner -filters` tells: the filter to use, or
/// why ffmpeg cannot be used.
pub fn probe_ffmpeg_result(run: Result<String, String>) -> (r: Result<SubtitleFilter, ProbeError>)
    ensures
        match run {
            Err(d) => r matches Err(ProbeError::CommandFailed(x)) && x@ == d@,
            Ok(out) => match preferred_filter(supported_filters(lines(out@))) {
                Some(f) => r == Ok::<SubtitleFilter, ProbeError>(f),
                None => r matches Err(ProbeError::MissingSubtitleFilter { available_supported_filters: v })
                    && v@ == supported_filters(lines(out@)),
            },
        },
{
    match run {
        Err(d) => Err(ProbeError::CommandFailed(d)),
        Ok(out) => match parse_subtitle_filter(out.as_str()) {
            Some(f) => Ok(f),
            None => Err(
                ProbeError::MissingSubtitleFilter {
                    available_supported_filters: collect_supported_filters(out.as_str()),
                },
            ),
        },
    }
}

/// What a run of `ffprobe -hide_banner -version` tells.
pub fn probe_ffprobe_result(run: Result<String, String>) -> (r: Result<(), ProbeError>)
    ensures
        match run {
            Err(d) => r matches Err(ProbeError::CommandFailed(x)) && x@ == d@,
            Ok(_) => r is Ok,
        },
{
    match run {
        Err(d) => Err(ProbeError::CommandFailed(d)),
        Ok(_) => Ok(()),
    }
}

/// The state of ffmpeg on `PATH`: missing, unusable, ready with a filter, or
/// ready without one (with the issue).
pub fn ffmpeg_status(command: &str, located: Option<String>, probe: Option<
    Result<SubtitleFilter, ProbeError>,
>) -> (r: (ToolStatus, Option<SubtitleFilter>, Option<SubtitleFilterIssue>))
    requires
        located is Some <==> probe is Some,
    ensures
        match located {
            None => {
                &&& r.0 matches ToolStatus::Missing { command: c }
                &&& c@ == command@
                &&& r.1 is None
                &&& r.2 is None
            },
            Some(path) => match probe {
                Some(Ok(f)) => {
                    &&& r.0 matches ToolStatus::Ready { path: p }
                    &&& p@ == path@
                    &&& r.1 == Some(f)
                    &&& r.2 is None
                },
                Some(Err(ProbeError::CommandFailed(d))) => {
                    &&& r.0 matches ToolStatus::Unusable { command: c, path: p, details: x }
                    &&& c@ == command@
                    &&& p@ == path@
                    &&& x@ == d@
                    &&& r.1 is None
                    &&& r.2 is None
                },
                Some(Err(ProbeError::MissingSubtitleFilter { available_supported_filters: v })) => {
                    &&& r.0 matches ToolStatus::Ready { path: p }
                    &&& p@ == path@
                    &&& r.1 is None
                    &&& r.2 matches Some(issue)
                    &&& issue.ffmpeg_path@ == path@
                    &&& issue.available_supported_filters@ == v@
                },
                None => false,
            },
        },
{
    match located {
        None => (ToolStatus::Missing { command: command.to_owned() }, None, None),
        Some(path) => match probe {
            Some(Ok(f)) => (ToolStatus::Ready { path }, Some(f), None),
            Some(Err(ProbeError::CommandFailed(details))) => (
                ToolStatus::Unusable { command: command.to_owned(), path, details },
                None,
                None,
            ),
            Some(Err(ProbeError::MissingSubtitleFilter { available_supported_filters })) => {
                let issue = SubtitleFilterIssue {
                    ffmpeg_path: path.clone(),
                    available_supported_filters,
                };
                (ToolStatus::Ready { path }, None, Some(issue))
            },
            None => (ToolStatus::Missing { command: command.to_owned() }, None, None),
        },
    }
}

/// The state of a tool on `PATH` that only has to run.
pub fn tool_status(command: &str, located: Option<String>, run: Option<Result<String, String>>) -> (r:
    ToolStatus)
    requires
        located is Some <==> run is Some,
    ensures
        match located {
            None => {
                &&& r matches ToolStatus::Missing { command: c }
                &&& c@ == command@
            },
            Some(path) => match run {
                Some(Ok(_)) => {
                    &&& r matches ToolStatus::Ready { path: p }
                    &&& p@ == path@
                },
                Some(Err(d)) => {
                    &&& r matches ToolStatus::Unusable { command: c, path: p, details: x }
                    &&& c@ == command@
                    &&& p@ == path@
                    &&& x@ == d@
                },
                None => false,
            },
        },
{
    match located {
        None => ToolStatus::Missing { command: command.to_owned() },
        Some(path) => match run {
            Some(Ok(_)) => ToolStatus::Ready { path },
            Some(Err(details)) => ToolStatus::Unusable { command: command.to_owned(), path, details },
            None => ToolStatus::Missing { command: command.to_owned() },
        },
    }
}

/// The system toolset: ffmpeg and ffprobe both ready and a subtitle filter
/// found; otherwise everything that went wrong.
pub fn system_toolset(
    ffmpeg: (ToolStatus, Option<SubtitleFilter>, Option<SubtitleFilterIssue>),
    ffprobe_status: ToolStatus,
) -> (r: Result<FfmpegToolset, SystemDiscoveryError>)
    ensures
        match (ffmpeg.0, ffprobe_status, ffmpeg.1) {
            (ToolStatus::Ready { path: a }, ToolStatus::Ready { path: b }, Some(f)) => {
                &&& r matches Ok(t)
                &&& t.ffmpeg@ == a@
                &&& t.ffprobe@ == b@
                &&& t.subtitle_filter == f
                &&& t.origin is System
            },
            _ => r == Err::<FfmpegToolset, SystemDiscoveryError>(
                SystemDiscoveryError {
                    ffmpeg_status: ffmpeg.0,
                    ffprobe_status,
                    subtitle_filter_issue: ffmpeg.2,
                },
            ),
        },
{
    let (ffmpeg_status, subtitle_filter, subtitle_filter_issue) = ffmpeg;
    let ffmpeg_path = match &ffmpeg_status {
        ToolStatus::Ready { path } => Some(path.clone()),
        _ => None,
    };
    let ffprobe_path = match &ffprobe_status {
        ToolStatus::Ready { path } => Some(path.clone()),
        _ => None,
    };
    match (ffmpeg_path, ffprobe_path, subtitle_filter) {
        (Some(ffmpeg), Some(ffprobe), Some(filter)) => Ok(
            FfmpegToolset { ffmpeg, ffprobe, subtitle_filter: filter, origin: ToolOrigin::System },
        ),
        _ => Err(SystemDiscoveryError { ffmpeg_status, ffprobe_status, subtitle_filter_issue }),
    }
}

// ---------------------------------------------------------------------------
// Messages of discovery and provisioning failures
// ---------------------------------------------------------------------------

/// The issue a tool status reports, if any.
pub open spec fn status_issue(s: ToolStatus) -> Option<Seq<char>> {
    match s {
        ToolStatus::Missing { command } => Some("`"@ + command@ + "` was not found on PATH"@),
        ToolStatus::Unusable { command, path, details } => Some(
            "`"@ + command@ + "` at "@ + path@ + " could not be used: "@ + details@,
        ),
        ToolStatus::Ready { .. } => None,
    }
}

/// `"`name`"` for each filter, joined with `", "`; `none` for no filters.
pub open spec fn filter_list(fs: Seq<SubtitleFilter>) -> Seq<char>
    decreases fs.len(),
{
    if fs.len() == 0 {
        "none"@
    } else if fs.len() == 1 {
        "`"@ + filter_name(fs[0]) + "`"@
    } else {
        filter_list(fs.drop_last()) + ", `"@ + filter_name(fs.last()) + "`"@
    }
}

/// The issue of an ffmpeg without a subtitle filter.
pub open spec fn filter_issue_text(i: SubtitleFilterIssue) -> Seq<char> {
    "`ffmpeg` at "@ + i.ffmpeg_path@
        + " does not expose the required `ass` or `subtitles` filter (supported subtitle filters seen: "@
        + filter_list(i.available_supported_filters@) + ")"@
}

/// The issues of a discovery error, in order.
pub open spec fn discovery_issues(e: SystemDiscoveryError) -> Seq<Seq<char>> {
    let a = match status_issue(e.ffmpeg_status) {
        Some(x) => seq![x],
        None => seq![],
    };
    let b = match status_issue(e.ffprobe_status) {
        Some(x) => seq![x],
        None => seq![],
    };
    let c = match e.subtitle_filter_issue {
        Some(i) => seq![filter_issue_text(i)],
        None => seq![],
    };
    a + b + c
}

/// `parts` joined with `sep` between neighbours.
pub open spec fn join_with(parts: Seq<Seq<char>>, sep: Seq<char>) -> Seq<char>
    decreases parts.len(),
{
    if parts.len() == 0 {
        seq![]
    } else if parts.len() == 1 {
        parts[0]
    } else {
        join_with(parts.drop_last(), sep) + sep + parts.last()
    }
}

/// The message of a discovery error: its issues joined with `"; "`.
pub open spec fn discovery_message(e: SystemDiscoveryError) -> Seq<char> {
    let issues = discovery_issues(e);
    if issues.len() == 0 {
        "system ffmpeg discovery failed for an unknown reason"@
    } else {
        join_with(issues, "; "@)
    }
}

fn status_issue_exec(s: &ToolStatus) -> (r: Option<Vec<char>>)
    ensures
        match status_issue(*s) {
            Some(x) => r matches Some(v) && v@ == x,
            None => r is None,
        },
{
    match s {
        ToolStatus::Missing { command } => {
            let mut v = chars_of("`");
            push_str(&mut v, command.as_str());
            push_str(&mut v, "` was not found on PATH");
            Some(v)
        },
        ToolStatus::Unusable { command, path, details } => {
            let mut v = chars_of("`");
            push_str(&mut v, command.as_str());
            push_str(&mut v, "` at ");
            push_str(&mut v, path.as_str());
            push_str(&mut v, " could not be used: ");
            push_str(&mut v, details.as_str());
            Some(v)
        },
        ToolStatus::Ready { .. } => None,
    }
}

fn filter_list_exec(fs: &Vec<SubtitleFilter>) -> (r: Vec<char>)
    ensures
        r@ == filter_list(fs@),
{
    if fs.len() == 0 {
        return chars_of("none");
    }
    let mut out = chars_of("`");
    let n0 = fs[0].as_ffmpeg_name();
    push_str(&mut out, n0.as_str());
    push_str(&mut out, "`");
    let mut i: usize = 1;
    assert(fs@.take(1) =~= seq![fs@[0]]);
    while i < fs.len()
        invariant
            1 <= i <= fs@.len(),
            out@ == filter_list(fs@.take(i as int)),
        decreases fs.len() - i,
    {
        assert(fs@.take(i + 1).drop_last() =~= fs@.take(i as int));
        push_str(&mut out, ", `");
        let name = fs[i].as_ffmpeg_name();
        push_str(&mut out, name.as_str());
        push_str(&mut out, "`");
        i = i + 1;
    }
    assert(fs@.take(fs@.len() as int) =~= fs@);
    out
}

impl SystemDiscoveryError {
    /// The message that describes the error (see `discovery_message`).
    pub fn message(&self) -> (r: String)
        ensures
            r@ == discovery_message(*self),
    {
        let mut issues: Vec<Vec<char>> = Vec::new();
        if let Some(x) = status_issue_exec(&self.ffmpeg_status) {
            issues.push(x);
        }
        if let Some(x) = status_issue_exec(&self.ffprobe_status) {
            issues.push(x);
        }
        if let Some(issue) = &self.subtitle_filter_issue {
            let mut v = chars_of("`ffmpeg` at ");
            push_str(&mut v, issue.ffmpeg_path.as_str());
            push_str(
                &mut v,
                " does not expose the required `ass` or `subtitles` filter (supported subtitle filters seen: ",
            );
            let list = filter_list_exec(&issue.available_supported_filters);
            push_all(&mut v, list.as_slice());
            push_str(&mut v, ")");
            issues.push(v);
        }
        proof {
            assert(views(issues@) =~= discovery_issues(*self));
        }
        if issues.len() == 0 {
            return "system ffmpeg discovery failed for an unknown reason".to_owned();
        }
        let joined = join_with_exec(&issues, "; ");
        string_of(joined.as_slice())
    }
}

/// Joins character vectors with `sep`.
pub fn join_with_exec(parts: &Vec<Vec<char>>, sep: &str) -> (r: Vec<char>)
    ensures
        r@ == join_with(views(parts@), sep@),
{
    let ghost ps = views(parts@);
    let n = parts.len();
    let mut out: Vec<char> = Vec::new();
    if n == 0 {
        return out;
    }
    push_all(&mut out, parts[0].as_slice());
    let mut i: usize = 1;
    assert(ps.take(1) =~= seq![ps[0]]);
    while i < n
        invariant
            1 <= i <= n,
            n == ps.len(),
            ps == views(parts@),
            out@ == join_with(ps.take(i as int), sep@),
        decreases n - i,
    {
        assert(ps.take(i + 1).drop_last() =~= ps.take(i as int));
        assert(ps.take(i + 1).last() == parts@[i as int]@);
        push_str(&mut out, sep);
        push_all(&mut out, parts[i].as_slice());
        i = i + 1;
    }
    assert(ps.take(n as int) =~= ps);
    out
}

/// Advice for installing ffmpeg by hand.
#[derive(Clone, Debug)]
pub struct ManualInstallAdvice {
    pub message: String,
}

/// The platform-specific hint of the manual install advice.
pub open spec fn platform_hint(p: RuntimePlatformKind) -> Seq<char> {
    match p {
        RuntimePlatformKind::MacosArm64 | RuntimePlatformKind::MacosX64 =>
            "On macOS, Homebrew (`brew install ffmpeg`) is usually the quickest manual path."@,
        RuntimePlatformKind::LinuxX64 =>
            "On Linux, use your distribution package manager or a vetted static build."@,
        RuntimePlatformKind::WindowsX64 =>
            "On Windows, install a ZIP build and add its `bin` directory to PATH."@,
        RuntimePlatformKind::Unsupported { .. } =>
            "Managed downloads are only implemented for macOS arm64/x64, Linux x64, and Windows x64."@,
    }
}

/// The manual install advice for a platform.
pub open spec fn advice_text(p: RuntimePlatformKind) -> Seq<char> {
    "Install both `ffmpeg` and `ffprobe`, ensure they are on PATH, and verify `ffmpeg -hide_banner -filters` lists either `ass` or `subtitles`. "@
        + platform_hint(p) + " Upstream install guidance: https://ffmpeg.org/download.html"@
}

impl ManualInstallAdvice {
    /// The advice for a platform (see `advice_text`).
    pub fn for_platform(platform: &RuntimePlatform) -> (r: ManualInstallAdvice)
        ensures
            r.message@ == advice_text(platform@),
    {
        let hint = match platform {
            RuntimePlatform::MacosArm64 | RuntimePlatform::MacosX64 => "On macOS, Homebrew (`brew install ffmpeg`) is usually the quickest manual path.",
            RuntimePlatform::LinuxX64 => "On Linux, use your distribution package manager or a vetted static build.",
            RuntimePlatform::WindowsX64 => "On Windows, install a ZIP build and add its `bin` directory to PATH.",
            RuntimePlatform::Unsupported { .. } => "Managed downloads are only implemented for macOS arm64/x64, Linux x64, and Windows x64.",
        };
        let mut v = chars_of(
            "Install both `ffmpeg` and `ffprobe`, ensure they are on PATH, and verify `ffmpeg -hide_banner -filters` lists either `ass` or `subtitles`. ",
        );
        push_str(&mut v, hint);
        push_str(&mut v, " Upstream install guidance: https://ffmpeg.org/download.html");
        ManualInstallAdvice { message: string_of(v.as_slice()) }
    }
}

/// Why no usable toolset was found.
#[derive(Clone, Debug)]
pub enum ProvisioningError {
    SystemOnlyFailed {
        platform: RuntimePlatform,
        system_error: SystemDiscoveryError,
        manual_install: ManualInstallAdvice,
    },
    ProvisioningFailed {
        platform: RuntimePlatform,
        system_error: SystemDiscoveryError,
        managed_error: ManagedInstallError,
        manual_install: ManualInstallAdvice,
    },
}

/// The message of a provisioning error.
pub open spec fn provisioning_message(e: ProvisioningError) -> Seq<char> {
    match e {
        ProvisioningError::SystemOnlyFailed { platform, system_error, manual_install } =>
            "usable system ffmpeg/ffprobe were not found for "@ + platform_name(platform@)
                + "; system probe failed: "@ + discovery_message(system_error) + ". "@
                + manual_install.message@,
        ProvisioningError::ProvisioningFailed {
            platform,
            system_error,
            managed_error,
            manual_install,
        } => "usable system ffmpeg/ffprobe were not found for "@ + platform_name(platform@)
            + "; system probe failed: "@ + discovery_message(system_error)
            + "; managed install failed: "@ + managed_error_message(managed_error) + ". "@
            + manual_install.message@,
    }
}

impl ProvisioningError {
    /// The message that describes the error.
    pub fn message(&self) -> (r: String)
        ensures
            r@ == provisioning_message(*self),
    {
        let mut v = chars_of("usable system ffmpeg/ffprobe were not found for ");
        match self {
            ProvisioningError::SystemOnlyFailed { platform, system_error, manual_install } => {
                push_str(&mut v, platform.name().as_str());
                push_str(&mut v, "; system probe failed: ");
                push_str(&mut v, system_error.message().as_str());
                push_str(&mut v, ". ");
                push_str(&mut v, manual_install.message.as_str());
            },
            ProvisioningError::ProvisioningFailed {
                platform,
                system_error,
                managed_error,
                manual_install,
            } => {
                push_str(&mut v, platform.name().as_str());
                push_str(&mut v, "; system probe failed: ");
                push_str(&mut v, system_error.message().as_str());
                push_str(&mut v, "; managed install failed: ");
                push_str(&mut v, managed_error.message().as_str());
                push_str(&mut v, ". ");
                push_str(&mut v, manual_install.message.as_str());
            },
        }
        string_of(v.as_slice())
    }
}

/// What to do after probing the system tools: use them, try a managed
/// install (on supported platforms), or give up.
pub enum SystemProbeOutcome {
    Use(FfmpegToolset),
    TryManaged(SystemDiscoveryError),
    Fail(ProvisioningError),
}

/// Decides what follows the probe of the system tools.
pub fn after_system_probe(platform: &RuntimePlatform, system: Result<FfmpegToolset, SystemDiscoveryError>) -> (r:
    SystemProbeOutcome)
    ensures
        match system {
            Ok(t) => r == SystemProbeOutcome::Use(t),
            Err(e) => if supports_managed_spec(platform@) {
                r == SystemProbeOutcome::TryManaged(e)
            } else {
                &&& r matches SystemProbeOutcome::Fail(
                    ProvisioningError::SystemOnlyFailed { platform: p, system_error: se, manual_install: m },
                )
                &&& p@ == platform@
                &&& se == e
                &&& m.message@ == advice_text(platform@)
            },
        },
{
    match system {
        Ok(t) => SystemProbeOutcome::Use(t),
        Err(e) => {
            if platform.supports_managed_downloads() {
                SystemProbeOutcome::TryManaged(e)
            } else {
                SystemProbeOutcome::Fail(
                    ProvisioningError::SystemOnlyFailed {
                        platform: platform.duplicate(),
                        system_error: e,
                        manual_install: ManualInstallAdvice::for_platform(platform),
                    },
                )
            }
        },
    }
}

/// The toolset after a managed install attempt, or the error that reports
/// both failures.
pub fn after_managed_install(
    platform: &RuntimePlatform,
    system_error: SystemDiscoveryError,
    managed: Result<FfmpegToolset, ManagedInstallError>,
) -> (r: Result<FfmpegToolset, ProvisioningError>)
    ensures
        match managed {
            Ok(t) => r == Ok::<FfmpegToolset, ProvisioningError>(t),
            Err(me) => {
                &&& r matches Err(
                    ProvisioningError::ProvisioningFailed {
                        platform: p,
                        system_error: se,
                        managed_error: m2,
                        manual_install: m,
                    },
                )
                &&& p@ == platform@
                &&& se == system_error
                &&& m2 == me
                &&& m.message@ == advice_text(platform@)
            },
        },
{
    match managed {
        Ok(t) => Ok(t),
        Err(managed_error) => Err(
            ProvisioningError::ProvisioningFailed {
                platform: platform.duplicate(),
                system_error,
                managed_error,
                manual_install: ManualInstallAdvice::for_platform(platform),
            },
        ),
    }
}

// ---------------------------------------------------------------------------
// Discovering the system tools
// ---------------------------------------------------------------------------

/// Where a toolset came from, as a mathematical value.
pub enum OriginModel {
    System,
    Managed { provider: Seq<char>, install_dir: Seq<char>, platform: RuntimePlatformKind },
}

/// The mathematical value of a toolset: the two executables, the filter and
/// where they came from.
pub struct ToolsetModel {
    pub ffmpeg: Seq<char>,
    pub ffprobe: Seq<char>,
    pub filter: SubtitleFilter,
    pub origin: OriginModel,
}

/// The origin of a toolset as a mathematical value.
pub open spec fn origin_view(o: ToolOrigin) -> OriginModel {
    match o {
        ToolOrigin::System => OriginModel::System,
        ToolOrigin::Managed(m) => OriginModel::Managed {
            provider: m.provider@,
            install_dir: m.install_dir@,
            platform: m.platform@,
        },
    }
}

impl View for FfmpegToolset {
    type V = ToolsetModel;

    open spec fn view(&self) -> ToolsetModel {
        ToolsetModel {
            ffmpeg: self.ffmpeg@,
            ffprobe: self.ffprobe@,
            filter: self.subtitle_filter,
            origin: origin_view(self.origin),
        }
    }
}

/// What the search for ffmpeg found: its path when it runs, the filter to
/// use, and the issues to report.
pub struct FfmpegFindings {
    pub ready: Option<Seq<char>>,
    pub filter: Option<SubtitleFilter>,
    pub issue: Option<Seq<char>>,
    pub filter_issue: Option<Seq<char>>,
}

/// The issue of a tool that is not on `PATH`.
pub open spec fn missing_issue(command: Seq<char>) -> Seq<char> {
    "`"@ + command + "` was not found on PATH"@
}

/// The issue of a tool that is on `PATH` but does not run.
pub open spec fn unusable_issue(command: Seq<char>, path: Seq<char>, details: Seq<char>) -> Seq<char> {
    "`"@ + command + "` at "@ + path + " could not be used: "@ + details
}

/// The issue of an ffmpeg at `path` that offers only the filters `fs`.
pub open spec fn no_filter_issue(path: Seq<char>, fs: Seq<SubtitleFilter>) -> Seq<char> {
    "`ffmpeg` at "@ + path
        + " does not expose the required `ass` or `subtitles` filter (supported subtitle filters seen: "@
        + filter_list(fs) + ")"@
}

/// What the search for the ffmpeg `command` found, given where it was
/// located on `PATH` (if anywhere) and how `ffmpeg -hide_banner -filters`
/// ran there.
pub open spec fn ffmpeg_findings(command: Seq<char>, probe: Option<(String, CommandOutcome)>) -> FfmpegFindings {
    match probe {
        None => FfmpegFindings {
            ready: None,
            filter: None,
            issue: Some(missing_issue(command)),
            filter_issue: None,
        },
        Some((path, o)) => match command_result_spec(o) {
            Err(d) => FfmpegFindings {
                ready: None,
                filter: None,
                issue: Some(unusable_issue(command, path@, d)),
                filter_issue: None,
            },
            Ok(out) => match preferred_filter(supported_filters(lines(out))) {
                Some(f) => FfmpegFindings {
                    ready: Some(path@),
                    filter: Some(f),
                    issue: None,
                    filter_issue: None,
                },
                None => FfmpegFindings {
                    ready: Some(path@),
                    filter: None,
                    issue: None,
                    filter_issue: Some(no_filter_issue(path@, supported_filters(lines(out)))),
                },
            },
        },
    }
}

/// What the search for the ffprobe `command` found: its path when it runs,
/// and the issue to report.
pub open spec fn ffprobe_findings(command: Seq<char>, probe: Option<(String, CommandOutcome)>) -> (
    Option<Seq<char>>,
    Option<Seq<char>>,
) {
    match probe {
        None => (None, Some(missing_issue(command))),
        Some((path, o)) => match command_result_spec(o) {
            Err(d) => (None, Some(unusable_issue(command, path@, d))),
            Ok(_) => (Some(path@), None),
        },
    }
}

/// The sequence holding `o`'s value, or the empty sequence.
pub open spec fn opt_seq(o: Option<Seq<char>>) -> Seq<Seq<char>> {
    match o {
        Some(x) => seq![x],
        None => seq![],
    }
}

/// The system toolset, or the message of why it cannot be used, from the
/// searches for ffmpeg and ffprobe (named for the platform).
pub open spec fn system_discovery(
    p: RuntimePlatformKind,
    ffmpeg_probe: Option<(String, CommandOutcome)>,
    ffprobe_probe: Option<(String, CommandOutcome)>,
) -> Result<ToolsetModel, Seq<char>> {
    let a = ffmpeg_findings(crate::managed::executable_spec(p, "ffmpeg"@), ffmpeg_probe);
    let b = ffprobe_findings(crate::managed::executable_spec(p, "ffprobe"@), ffprobe_probe);
    match (a.ready, b.0, a.filter) {
        (Some(x), Some(y), Some(f)) => Ok(
            ToolsetModel { ffmpeg: x, ffprobe: y, filter: f, origin: OriginModel::System },
        ),
        _ => {
            let issues = opt_seq(a.issue) + opt_seq(b.1) + opt_seq(a.filter_issue);
            if issues.len() == 0 {
                Err("system ffmpeg discovery failed for an unknown reason"@)
            } else {
                Err(join_with(issues, "; "@))
            }
        },
    }
}

/// The system toolset from the searches for ffmpeg and ffprobe on `PATH`
/// (each the path where the tool was found and how its probe ran), or the
/// discovery error (see `system_discovery`).
pub fn discover(
    platform: &RuntimePlatform,
    ffmpeg_probe: Option<(String, CommandOutcome)>,
    ffprobe_probe: Option<(String, CommandOutcome)>,
) -> (r: Result<FfmpegToolset, SystemDiscoveryError>)
    ensures
        match system_discovery(platform@, ffmpeg_probe, ffprobe_probe) {
            Ok(t) => r matches Ok(u) && u@ == t && u.origin is System,
            Err(m) => r matches Err(e) && discovery_message(e) == m,
        },
{
    let ffmpeg_command = platform.executable_name("ffmpeg");
    let ffprobe_command = platform.executable_name("ffprobe");
    let ghost fp = ffmpeg_probe;
    let ghost pp = ffprobe_probe;
    let (ffmpeg_located, ffmpeg_probe_result) = match ffmpeg_probe {
        None => (None, None),
        Some((path, o)) => {
            let run = command_result(&o);
            (Some(path), Some(probe_ffmpeg_result(run)))
        },
    };
    let ffmpeg = ffmpeg_status(ffmpeg_command.as_str(), ffmpeg_located, ffmpeg_probe_result);
    let (ffprobe_located, ffprobe_run) = match ffprobe_probe {
        None => (None, None),
        Some((path, o)) => {
            let run = command_result(&o);
            (Some(path), Some(run))
        },
    };
    let ffprobe = tool_status(ffprobe_command.as_str(), ffprobe_located, ffprobe_run);
    proof {
        reveal_strlit("ffmpeg");
        reveal_strlit("ffprobe");
        let a = ffmpeg_findings(crate::managed::executable_spec(platform@, "ffmpeg"@), fp);
        let b = ffprobe_findings(crate::managed::executable_spec(platform@, "ffprobe"@), pp);
        assert(status_issue(ffmpeg.0) == a.issue);
        assert(status_issue(ffprobe) == b.1);
        match &ffmpeg.2 {
            Some(i) => {
                assert(a.filter_issue == Some(filter_issue_text(*i)));
            },
            None => {
                assert(a.filter_issue is None);
            },
        }
    }
    let r = system_toolset(ffmpeg, ffprobe);
    proof {
        match &r {
            Err(e) => {
                let a = ffmpeg_findings(crate::managed::executable_spec(platform@, "ffmpeg"@), fp);
                let b = ffprobe_findings(crate::managed::executable_spec(platform@, "ffprobe"@), pp);
                assert(discovery_issues(*e) =~= opt_seq(a.issue) + opt_seq(b.1) + opt_seq(a.filter_issue));
            },
            Ok(_) => {},
        }
    }
    r
}

// ---------------------------------------------------------------------------
// Laws of parsing and quoting
// ---------------------------------------------------------------------------

/// The value that ffmpeg reads from a quoted filter option: a backslash
/// takes the character after it literally.
pub open spec fn unescape_filter(s: Seq<char>) -> Seq<char>
    decreases s.len(),
{
    if s.len() == 0 {
        seq![]
    } else if s[0] == '\\' && s.len() >= 2 {
        seq![s[1]] + unescape_filter(s.skip(2))
    } else {
        seq![s[0]] + unescape_filter(s.skip(1))
    }
}

/// The escape of one character.
pub open spec fn escape_char(c: char) -> Seq<char> {
    if c == '\\' {
        seq!['\\', '\\']
    } else if c == '\'' {
        seq!['\\', '\'']
    } else {
        seq![c]
    }
}

proof fn lemma_escape_cons(c: char, v: Seq<char>)
    ensures
        escape_filter(seq![c] + v) == escape_char(c) + escape_filter(v),
    decreases v.len(),
{
    let w = seq![c] + v;
    if v.len() == 0 {
        assert(w.drop_last() =~= Seq::<char>::empty());
        assert(escape_filter(Seq::<char>::empty()) == Seq::<char>::empty());
        assert(w.last() == c);
        assert(escape_filter(w) =~= escape_char(c));
    } else {
        assert(w.drop_last() =~= seq![c] + v.drop_last());
        lemma_escape_cons(c, v.drop_last());
        assert(w.last() == v.last());
    }
}

/// Quoting a path for a filter option loses nothing: ffmpeg reads back
/// exactly the path, whatever backslashes and quotes it holds.
pub proof fn lemma_escape_filter_roundtrip(v: Seq<char>)
    ensures
        unescape_filter(escape_filter(v)) == v,
    decreases v.len(),
{
    if v.len() > 0 {
        let c = v[0];
        let rest = v.skip(1);
        assert(v =~= seq![c] + rest);
        lemma_escape_cons(c, rest);
        lemma_escape_filter_roundtrip(rest);
        let e = escape_filter(rest);
        let x = escape_char(c) + e;
        if c == '\\' || c == '\'' {
            assert(x[0] == '\\' && x.len() >= 2);
            assert(x.skip(2) =~= e);
        } else {
            assert(x.skip(1) =~= e);
        }
    }
}

/// Each subtitle filter is listed at most once.
pub proof fn lemma_supported_filters_distinct(ls: Seq<Seq<char>>)
    ensures
        supported_filters(ls).no_duplicates(),
        supported_filters(ls).len() <= 2,
    decreases ls.len(),
{
    if ls.len() > 0 {
        lemma_supported_filters_distinct(ls.drop_last());
        let prev = supported_filters(ls.drop_last());
        if prev.len() == 2 {
            assert(prev[0] != prev[1]);
            assert(prev.contains(SubtitleFilter::Ass)) by {
                if prev[0] != SubtitleFilter::Ass {
                    assert(prev[1] == SubtitleFilter::Ass);
                }
            }
            assert(prev.contains(SubtitleFilter::Subtitles)) by {
                if prev[0] != SubtitleFilter::Subtitles {
                    assert(prev[1] == SubtitleFilter::Subtitles);
                }
            }
        }
    }
}

/// `ass` is chosen whenever ffmpeg offers it, and a filter is chosen only
/// when ffmpeg offers it.
pub proof fn lemma_ass_preferred(fs: Seq<SubtitleFilter>)
    ensures
        fs.contains(SubtitleFilter::Ass) ==> preferred_filter(fs) == Some(SubtitleFilter::Ass),
        preferred_filter(fs) matches Some(f) ==> fs.contains(f),
        preferred_filter(fs) is None <==> fs.len() == 0 || (!fs.contains(SubtitleFilter::Ass)
            && !fs.contains(SubtitleFilter::Subtitles)),
{
    if fs.len() > 0 && !fs.contains(SubtitleFilter::Ass) && !fs.contains(SubtitleFilter::Subtitles) {
        assert(fs.contains(fs[0]));
    }
}

/// Parsed dimensions are never zero.
pub proof fn lemma_dimensions_positive(output: Seq<char>)
    ensures
        dimensions_spec(output) matches Some((w, h)) ==> w > 0 && h > 0,
{
}

/// Whether a line of `ffmpeg -filters` output names the filter `f` (as its
/// second whitespace-separated field; the first holds flags).
pub open spec fn line_names_filter(line: Seq<char>, f: SubtitleFilter) -> bool {
    words(line).len() >= 2 && words(line)[1] == filter_name(f)
}

/// The filters collected from the lines are exactly those that some line
/// names, each once, so at most two.
pub proof fn lemma_supported_filters_exact(ls: Seq<Seq<char>>, f: SubtitleFilter)
    ensures
        supported_filters(ls).contains(f) <==> exists|k: int|
            0 <= k < ls.len() && #[trigger] line_names_filter(ls[k], f),
        supported_filters(ls).no_duplicates(),
        supported_filters(ls).len() <= 2,
    decreases ls.len(),
{
    lemma_supported_filters_distinct(ls);
    if ls.len() > 0 {
        let init = ls.drop_last();
        lemma_supported_filters_exact(init, f);
        let prev = supported_filters(init);
        let last = ls.last();
        assert(filter_name(SubtitleFilter::Ass) != filter_name(SubtitleFilter::Subtitles)) by {
            assert(filter_name(SubtitleFilter::Ass).len() != filter_name(SubtitleFilter::Subtitles).len());
        }
        if exists|k: int| 0 <= k < init.len() && #[trigger] line_names_filter(init[k], f) {
            let k = choose|k: int| 0 <= k < init.len() && #[trigger] line_names_filter(init[k], f);
            assert(ls[k] == init[k]);
        }
        if exists|k: int| 0 <= k < ls.len() && #[trigger] line_names_filter(ls[k], f) {
            let k = choose|k: int| 0 <= k < ls.len() && #[trigger] line_names_filter(ls[k], f);
            if k < ls.len() - 1 {
                assert(init[k] == ls[k]);
            }
        }
        let cur = supported_filters(ls);
        if line_names_filter(last, f) {
            assert(line_names_filter(ls[ls.len() - 1], f));
            assert(cur.contains(f)) by {
                if !prev.contains(f) {
                    assert(cur == prev.push(f));
                    assert(cur[cur.len() - 1] == f);
                }
            }
        }
        if cur.contains(f) && !prev.contains(f) {
            let j = choose|j: int| 0 <= j < cur.len() && cur[j] == f;
            if cur == prev {
                assert(false);
            }
            assert(line_names_filter(ls[ls.len() - 1], f));
        }
        if prev.contains(f) {
            let j = choose|j: int| 0 <= j < prev.len() && prev[j] == f;
            assert(cur.contains(f)) by {
                if cur != prev {
                    assert(cur[j] == prev[j]);
                }
            }
        }
    }
}

/// Whether one of the first `k` lines names the filter `f`.
pub open spec fn named_before(ls: Seq<Seq<char>>, f: SubtitleFilter, k: int) -> bool {
    exists|x: int| 0 <= x < k && x < ls.len() && #[trigger] line_names_filter(ls[x], f)
}

/// The filters are collected in the order of the first line that names
/// each: two filters collected in turn differ, and some line names the
/// first before any line names the second.
pub proof fn lemma_supported_filters_order(ls: Seq<Seq<char>>)
    ensures
        forall|i: int, j: int|
            #![trigger supported_filters(ls)[i], supported_filters(ls)[j]]
            0 <= i < j < supported_filters(ls).len() ==> supported_filters(ls)[i] != supported_filters(ls)[j]
                && exists|k: int|
                0 <= k < ls.len() && #[trigger] line_names_filter(ls[k], supported_filters(ls)[i])
                    && !named_before(ls, supported_filters(ls)[j], k + 1),
    decreases ls.len(),
{
    lemma_supported_filters_exact(ls, SubtitleFilter::Ass);
    if ls.len() > 0 {
        let init = ls.drop_last();
        lemma_supported_filters_order(init);
        let prev = supported_filters(init);
        let cur = supported_filters(ls);
        assert forall|i: int, j: int|
            #![trigger supported_filters(ls)[i], supported_filters(ls)[j]]
            0 <= i < j < supported_filters(ls).len() implies supported_filters(ls)[i] != supported_filters(ls)[j]
                && exists|k: int|
                0 <= k < ls.len() && #[trigger] line_names_filter(ls[k], supported_filters(ls)[i])
                    && !named_before(ls, supported_filters(ls)[j], k + 1) by {
            if j < prev.len() {
                assert(cur[i] == prev[i] && cur[j] == prev[j]);
                let k = choose|k: int|
                    0 <= k < init.len() && #[trigger] line_names_filter(init[k], prev[i]) && !named_before(
                        init,
                        prev[j],
                        k + 1,
                    );
                assert(ls[k] == init[k]);
                if named_before(ls, cur[j], k + 1) {
                    let x = choose|x: int| 0 <= x < k + 1 && x < ls.len() && #[trigger] line_names_filter(ls[x], cur[j]);
                    assert(init[x] == ls[x]);
                    assert(named_before(init, prev[j], k + 1));
                }
            } else {
                assert(cur != prev);
                assert(cur[i] == prev[i]);
                lemma_supported_filters_exact(init, prev[i]);
                assert(prev.contains(prev[i]));
                let k = choose|k: int| 0 <= k < init.len() && #[trigger] line_names_filter(init[k], prev[i]);
                assert(ls[k] == init[k]);
                lemma_supported_filters_exact(init, cur[j]);
                if named_before(ls, cur[j], k + 1) {
                    let x = choose|x: int| 0 <= x < k + 1 && x < ls.len() && #[trigger] line_names_filter(ls[x], cur[j]);
                    assert(init[x] == ls[x]);
                    assert(prev.contains(cur[j]));
                }
            }
        }
    } else {
        assert(supported_filters(ls).len() == 0);
    }
}

/// The system tools are usable exactly when ffmpeg was found and runs, it
/// offers a subtitle filter, and ffprobe was found and runs.
pub proof fn lemma_system_discovery_usable(
    p: RuntimePlatformKind,
    ffmpeg_probe: Option<(String, CommandOutcome)>,
    ffprobe_probe: Option<(String, CommandOutcome)>,
)
    ensures
        system_discovery(p, ffmpeg_probe, ffprobe_probe) is Ok <==> {
            &&& ffmpeg_probe matches Some((a, o))
            &&& command_result_spec(o) matches Ok(out)
            &&& preferred_filter(supported_filters(lines(out))) is Some
            &&& ffprobe_probe matches Some((b, q))
            &&& command_result_spec(q) is Ok
        },
        system_discovery(p, ffmpeg_probe, ffprobe_probe) matches Ok(t) ==> ffmpeg_probe matches Some(
            (a, o),
        ) && t.ffmpeg == a@,
        system_discovery(p, ffmpeg_probe, ffprobe_probe) matches Ok(t) ==> ffprobe_probe matches Some(
            (b, q),
        ) && t.ffprobe == b@,
{
}

/// Whether `x` is directly followed by `y` among the arguments `a`.
pub open spec fn has_pair(a: Seq<Seq<char>>, x: Seq<char>, y: Seq<char>) -> bool {
    exists|k: int| 0 <= k && k + 1 < a.len() && #[trigger] a[k] == x && a[k + 1] == y
}

/// The burn command reads the video, applies the subtitle filter, maps the
/// first video stream and every audio stream of the input, re-encodes the
/// video to H.264 while copying the audio, moves the index to the front of
/// the file, and writes the output last.
pub proof fn lemma_burn_arguments(video: Seq<char>, filter: Seq<char>, output: Seq<char>)
    ensures
        has_pair(embed_args_spec(video, filter, output), "-i"@, video),
        has_pair(embed_args_spec(video, filter, output), "-vf"@, filter),
        has_pair(embed_args_spec(video, filter, output), "-map"@, "0:v:0"@),
        has_pair(embed_args_spec(video, filter, output), "-map"@, "0:a?"@),
        has_pair(embed_args_spec(video, filter, output), "-c:v"@, "libx264"@),
        has_pair(embed_args_spec(video, filter, output), "-c:a"@, "copy"@),
        has_pair(embed_args_spec(video, filter, output), "-movflags"@, "+faststart"@),
        has_pair(embed_args_spec(video, filter, output), "-loglevel"@, "error"@),
        has_pair(embed_args_spec(video, filter, output), "-preset"@, "medium"@),
        has_pair(embed_args_spec(video, filter, output), "-crf"@, "18"@),
        has_pair(embed_args_spec(video, filter, output), "-pix_fmt"@, "yuv420p"@),
        embed_args_spec(video, filter, output)[0] == "-hide_banner"@,
        embed_args_spec(video, filter, output).contains("-y"@),
        embed_args_spec(video, filter, output).last() == output,
{
    let a = embed_args_spec(video, filter, output);
    assert(a[4] == "-i"@ && a[5] == video);
    assert(a[6] == "-vf"@ && a[7] == filter);
    assert(a[8] == "-map"@ && a[9] == "0:v:0"@);
    assert(a[10] == "-map"@ && a[11] == "0:a?"@);
    assert(a[12] == "-c:v"@ && a[13] == "libx264"@);
    assert(a[20] == "-c:a"@ && a[21] == "copy"@);
    assert(a[22] == "-movflags"@ && a[23] == "+faststart"@);
    assert(a[1] == "-loglevel"@ && a[2] == "error"@);
    assert(a[14] == "-preset"@ && a[15] == "medium"@);
    assert(a[16] == "-crf"@ && a[17] == "18"@);
    assert(a[18] == "-pix_fmt"@ && a[19] == "yuv420p"@);
    assert(a[3] == "-y"@);
}

} // verus!
