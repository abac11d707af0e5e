//! Styling and wrapping of converted ASS subtitles.
use vstd::prelude::*;

use crate::config::{AppConfig, StyleConfig, StyleModel};
use crate::text::{
    chars_of, decimal, find_char_from, find_from, has_prefix, lemma_find_from, lines, lines_of,
    parse_u32, parse_u32_chars, push_all, push_decimal, push_str, starts_with_str, string_of,
    trim, trimmed, views,
};
use crate::wrap::{wrap_ass_text, wrap_text, MaxUnits};
use crate::ffmpeg::join_with;

verus! {

pub const DEFAULT_MARGIN_L: u32 = 48;
pub const DEFAULT_MARGIN_R: u32 = 48;
pub const MIN_FONT_SIZE: u32 = 24;
pub const MAX_FONT_SIZE: u32 = 140;
pub const MIN_OUTLINE_SIZE: u32 = 4;
pub const MIN_SHADOW_SIZE: u32 = 2;
pub const EVENT_TEXT_INDEX: usize = 9;
pub const EVENT_MARGIN_LEFT_INDEX: usize = 5;
pub const EVENT_MARGIN_RIGHT_INDEX: usize = 6;

/// How subtitles are prepared before burning.
#[derive(Clone, Copy, Debug, PartialEq, Eq)]
pub struct SubtitlePlan {
    pub requires_ass_staging: bool,
    pub wraps_dialogue_lines: bool,
}

/// Sizes of the rendered subtitles, in ASS units.
#[derive(Clone, Copy, Debug, PartialEq, Eq)]
pub struct SubtitleLayout {
    pub font_size: u32,
    pub margin_l: u32,
    pub margin_r: u32,
    pub margin_v: u32,
    pub outline_size: u32,
    pub shadow_size: u32,
}

/// Why converted ASS subtitles could not be rendered.
#[derive(Clone, Debug, PartialEq, Eq)]
pub enum SubtitleError {
    MissingEventsSection,
    MalformedDialogue { line: String },
}

/// The mathematical value of a subtitle error.
pub enum SubtitleErrorModel {
    MissingEventsSection,
    MalformedDialogue { line: Seq<char> },
}

impl View for SubtitleError {
    type V = SubtitleErrorModel;

    open spec fn view(&self) -> SubtitleErrorModel {
        match self {
            SubtitleError::MissingEventsSection => SubtitleErrorModel::MissingEventsSection,
            SubtitleError::MalformedDialogue { line } => SubtitleErrorModel::MalformedDialogue {
                line: line@,
            },
        }
    }
}

/// The message that describes a subtitle error.
pub open spec fn subtitle_error_message(e: SubtitleErrorModel) -> Seq<char> {
    match e {
        SubtitleErrorModel::MissingEventsSection => "converted ASS is missing an [Events] section"@,
        SubtitleErrorModel::MalformedDialogue { line } =>
            "converted ASS contains a malformed dialogue line: "@ + line,
    }
}

impl SubtitleError {
    /// The message that describes the error.
    pub fn message(&self) -> (r: String)
        ensures
            r@ == subtitle_error_message(self@),
    {
        match self {
            SubtitleError::MissingEventsSection => "converted ASS is missing an [Events] section".to_owned(),
            SubtitleError::MalformedDialogue { line } => {
                let mut out = chars_of("converted ASS contains a malformed dialogue line: ");
                push_str(&mut out, line.as_str());
                string_of(out.as_slice())
            },
        }
    }
}

/// Subtitles are always staged as ASS and their dialogue lines wrapped.
pub fn plan(_config: &AppConfig) -> (r: SubtitlePlan)
    ensures
        r.requires_ass_staging,
        r.wraps_dialogue_lines,
{
    SubtitlePlan { requires_ass_staging: true, wraps_dialogue_lines: true }
}

// ---------------------------------------------------------------------------
// Layout
// ---------------------------------------------------------------------------

pub open spec fn clamp(x: int, lo: int, hi: int) -> int {
    if x < lo {
        lo
    } else if x > hi {
        hi
    } else {
        x
    }
}

pub open spec fn max(a: int, b: int) -> int {
    if a >= b {
        a
    } else {
        b
    }
}

/// The font size: the override, else `height * 70 / 1080` kept within 24..=140.
pub open spec fn layout_font_size(style: StyleModel, height: u32) -> int {
    match style.font_size {
        Some(f) => f as int,
        None => clamp((height * 70) / 1080, MIN_FONT_SIZE as int, MAX_FONT_SIZE as int),
    }
}

/// The bottom margin: the override, else `height * 80 / 3000`, at least half the font size.
pub open spec fn layout_margin_v(style: StyleModel, height: u32) -> int {
    match style.margin_v {
        Some(m) => m as int,
        None => max((height * 80) / 3000, layout_font_size(style, height) / 2),
    }
}

/// The outline: the override, else 8% of the font size, at least 4.
pub open spec fn layout_outline(style: StyleModel, height: u32) -> int {
    match style.outline_size {
        Some(o) => o as int,
        None => max((layout_font_size(style, height) * 8) / 100, MIN_OUTLINE_SIZE as int),
    }
}

/// The shadow: the override, else half the outline, at least 2.
pub open spec fn layout_shadow(style: StyleModel, height: u32) -> int {
    match style.shadow_size {
        Some(s) => s as int,
        None => max(layout_outline(style, height) / 2, MIN_SHADOW_SIZE as int),
    }
}

/// Whether the layout arithmetic stays within `u32`.
pub open spec fn layout_in_range(style: StyleModel, height: u32) -> bool {
    &&& style.font_size is None ==> height * 70 <= u32::MAX
    &&& style.margin_v is None ==> height * 80 <= u32::MAX
    &&& style.outline_size is None ==> layout_font_size(style, height) * 8 <= u32::MAX
}

/// The layout for a style and video height.
pub open spec fn layout_spec(style: StyleModel, height: u32) -> SubtitleLayout {
    SubtitleLayout {
        font_size: layout_font_size(style, height) as u32,
        margin_l: DEFAULT_MARGIN_L,
        margin_r: DEFAULT_MARGIN_R,
        margin_v: layout_margin_v(style, height) as u32,
        outline_size: layout_outline(style, height) as u32,
        shadow_size: layout_shadow(style, height) as u32,
    }
}

/// Resolves the subtitle sizes from the style overrides and the video height.
pub fn resolve_layout(style: &StyleConfig, video_height: u32) -> (r: SubtitleLayout)
    requires
        layout_in_range(style@, video_height),
    ensures
        r == layout_spec(style@, video_height),
        style.font_size matches Some(f) ==> r.font_size == f,
        style.margin_v matches Some(m) ==> r.margin_v == m,
        style.outline_size matches Some(o) ==> r.outline_size == o,
        style.shadow_size matches Some(s) ==> r.shadow_size == s,
{
    let font_size = match style.font_size {
        Some(f) => f,
        None => {
            let scaled = (video_height * 70) / 1080;
            if scaled < MIN_FONT_SIZE {
                MIN_FONT_SIZE
            } else if scaled > MAX_FONT_SIZE {
                MAX_FONT_SIZE
            } else {
                scaled
            }
        },
    };
    let margin_v = match style.margin_v {
        Some(m) => m,
        None => {
            let computed = (video_height * 80) / 3000;
            let half = font_size / 2;
            if computed >= half {
                computed
            } else {
                half
            }
        },
    };
    let outline_size = match style.outline_size {
        Some(o) => o,
        None => {
            let scaled = (font_size * 8) / 100;
            if scaled >= MIN_OUTLINE_SIZE {
                scaled
            } else {
                MIN_OUTLINE_SIZE
            }
        },
    };
    let shadow_size = match style.shadow_size {
        Some(s) => s,
        None => {
            let half = outline_size / 2;
            if half >= MIN_SHADOW_SIZE {
                half
            } else {
                MIN_SHADOW_SIZE
            }
        },
    };
    SubtitleLayout {
        font_size,
        margin_l: DEFAULT_MARGIN_L,
        margin_r: DEFAULT_MARGIN_R,
        margin_v,
        outline_size,
        shadow_size,
    }
}

// ---------------------------------------------------------------------------
// Line capacity
// ---------------------------------------------------------------------------

/// The number of fullwidth cells that fit on a line, as an exact ratio:
/// the usable width (the video width less both margins and twice a side
/// padding, but at least 45% of the video width) over the width of one
/// fullwidth character (95% of the font size, at least one pixel), kept
/// within 8..=60.  The side padding is the largest of 75% of the font size,
/// six times outline plus shadow, and 24 pixels.  Lengths are in hundredths
/// of a pixel.
pub open spec fn max_units_spec(
    video_width: u32,
    margin_left: u32,
    margin_right: u32,
    font_size: u32,
    outline_size: u32,
    shadow_size: u32,
) -> MaxUnits {
    let side = max(max(75 * font_size, 600 * (outline_size + shadow_size)), 2400);
    let usable = max(
        100 * video_width - 100 * margin_left - 100 * margin_right - 2 * side,
        45 * video_width,
    );
    let full = max(95 * font_size, 100);
    if usable < 8 * full {
        MaxUnits { num: 8, den: 1 }
    } else if usable > 60 * full {
        MaxUnits { num: 60, den: 1 }
    } else {
        MaxUnits { num: usable as u64, den: full as u64 }
    }
}

/// The line capacity (see `max_units_spec`).
pub fn compute_max_units(
    video_width: u32,
    margin_left: u32,
    margin_right: u32,
    font_size: u32,
    outline_size: u32,
    shadow_size: u32,
) -> (r: MaxUnits)
    requires
        outline_size + shadow_size <= u32::MAX,
    ensures
        r == max_units_spec(
            video_width,
            margin_left,
            margin_right,
            font_size,
            outline_size,
            shadow_size,
        ),
        r.den > 0,
{
    let a: i64 = 75 * font_size as i64;
    let b: i64 = 600 * (outline_size as i64 + shadow_size as i64);
    let ab = if a >= b {
        a
    } else {
        b
    };
    let side = if ab >= 2400 {
        ab
    } else {
        2400
    };
    let first: i64 = 100 * video_width as i64 - 100 * margin_left as i64 - 100 * margin_right as i64
        - 2 * side;
    let second: i64 = 45 * video_width as i64;
    let usable = if first >= second {
        first
    } else {
        second
    };
    let f: i64 = 95 * font_size as i64;
    let full = if f >= 100 {
        f
    } else {
        100
    };
    if usable < 8 * full {
        MaxUnits { num: 8, den: 1 }
    } else if usable > 60 * full {
        MaxUnits { num: 60, den: 1 }
    } else {
        MaxUnits { num: usable as u64, den: full as u64 }
    }
}

// ---------------------------------------------------------------------------
// Dialogue lines
// ---------------------------------------------------------------------------

/// `s` with `"\r\n"` and lone `'\r'` turned into `'\n'`.
pub open spec fn normalize_newlines(s: Seq<char>) -> Seq<char>
    decreases s.len(),
{
    if s.len() == 0 {
        seq![]
    } else if s[0] == '\r' && s.len() >= 2 && s[1] == '\n' {
        seq!['\n'] + normalize_newlines(s.skip(2))
    } else if s[0] == '\r' {
        seq!['\n'] + normalize_newlines(s.skip(1))
    } else {
        seq![s[0]] + normalize_newlines(s.skip(1))
    }
}

/// `s` with `"\r\n"` and lone `'\r'` turned into `'\n'`.
pub fn normalize_newlines_exec(s: &[char]) -> (r: Vec<char>)
    ensures
        r@ == normalize_newlines(s@),
{
    let n = s.len();
    let mut out: Vec<char> = Vec::new();
    let mut i: usize = 0;
    assert(s@.skip(0) == s@);
    while i < n
        invariant
            i <= n,
            n == s@.len(),
            out@ + normalize_newlines(s@.skip(i as int)) == normalize_newlines(s@),
        decreases n - i,
    {
        let ghost rest = s@.skip(i as int);
        let ghost before = out@;
        assert(rest[0] == s@[i as int]);
        if s[i] == '\r' && i + 1 < n && s[i + 1] == '\n' {
            assert(rest[1] == s@[i + 1]);
            assert(rest.skip(2) =~= s@.skip(i + 2));
            out.push('\n');
            i = i + 2;
        } else if s[i] == '\r' {
            assert(rest.skip(1) =~= s@.skip(i + 1));
            out.push('\n');
            i = i + 1;
        } else {
            assert(rest.skip(1) =~= s@.skip(i + 1));
            out.push(s[i]);
            i = i + 1;
        }
        assert(out@ + normalize_newlines(s@.skip(i as int)) =~= before + normalize_newlines(rest));
    }
    assert(s@.skip(n as int) =~= Seq::<char>::empty());
    assert(out@ + Seq::<char>::empty() =~= out@);
    out
}

/// Whether a line is the `[Events]` section header.
pub open spec fn is_events_header(line: Seq<char>) -> bool {
    trim(line) == "[Events]"@
}

/// The index of the first `[Events]` header at or after `i`, or `ls.len()`.
pub open spec fn find_events(ls: Seq<Seq<char>>, i: int) -> int
    decreases ls.len() - i,
{
    if i >= ls.len() {
        ls.len() as int
    } else if is_events_header(ls[i]) {
        i
    } else {
        find_events(ls, i + 1)
    }
}

/// The lines of `ls` that begin with `Dialogue:`, in order.
pub open spec fn dialogue_only(ls: Seq<Seq<char>>) -> Seq<Seq<char>>
    decreases ls.len(),
{
    if ls.len() == 0 {
        seq![]
    } else if has_prefix(ls.last(), "Dialogue:"@) {
        dialogue_only(ls.drop_last()).push(ls.last())
    } else {
        dialogue_only(ls.drop_last())
    }
}

/// The dialogue lines after the first `[Events]` header of `ass`.
pub open spec fn dialogue_lines(ass: Seq<char>) -> Result<Seq<Seq<char>>, SubtitleErrorModel> {
    let ls = lines(ass);
    let k = find_events(ls, 0);
    if k >= ls.len() {
        Err(SubtitleErrorModel::MissingEventsSection)
    } else {
        Ok(dialogue_only(ls.skip(k + 1)))
    }
}

fn is_events_header_exec(line: &[char]) -> (r: bool)
    ensures
        r == is_events_header(line@),
{
    let t = trimmed(line);
    crate::text::chars_eq_str(t.as_slice(), "[Events]")
}

proof fn lemma_find_events(ls: Seq<Seq<char>>, i: int)
    requires
        0 <= i <= ls.len(),
    ensures
        i <= find_events(ls, i) <= ls.len(),
        forall|k: int| i <= k < find_events(ls, i) ==> !is_events_header(#[trigger] ls[k]),
        find_events(ls, i) < ls.len() ==> is_events_header(ls[find_events(ls, i)]),
    decreases ls.len() - i,
{
    if i < ls.len() && !is_events_header(ls[i]) {
        lemma_find_events(ls, i + 1);
    }
}

/// The dialogue lines after the first `[Events]` header of `ass`.
pub fn extract_dialogue_lines(ass: &[char]) -> (r: Result<Vec<Vec<char>>, SubtitleError>)
    ensures
        r matches Ok(v) ==> dialogue_lines(ass@) == Ok::<Seq<Seq<char>>, SubtitleErrorModel>(views(v@)),
        r matches Err(e) ==> dialogue_lines(ass@) == Err::<Seq<Seq<char>>, SubtitleErrorModel>(e@),
{
    let ls = lines_of(ass);
    let ghost lv = views(ls@);
    let n = ls.len();
    let mut k: usize = 0;
    while k < n && !is_events_header_exec(ls[k].as_slice())
        invariant
            k <= n,
            n == lv.len(),
            lv == views(ls@),
            lv == lines(ass@),
            find_events(lv, 0) == find_events(lv, k as int),
        decreases n - k,
    {
        k = k + 1;
    }
    if k >= n {
        return Err(SubtitleError::MissingEventsSection);
    }
    let mut out: Vec<Vec<char>> = Vec::new();
    let mut j = k + 1;
    assert(lv.skip(k + 1).take(0) =~= Seq::<Seq<char>>::empty());
    while j < n
        invariant
            k + 1 <= j <= n,
            n == lv.len(),
            lv == views(ls@),
            views(out@) == dialogue_only(lv.skip(k + 1).take(j - k - 1)),
        decreases n - j,
    {
        let ghost prefix = lv.skip(k + 1).take(j - k - 1);
        let ghost next = lv.skip(k + 1).take(j - k);
        assert(next.drop_last() =~= prefix);
        assert(next.last() == ls@[j as int]@);
        let ghost old_views = views(out@);
        if starts_with_str(ls[j].as_slice(), "Dialogue:") {
            let line = crate::text::slice_to_vec(ls[j].as_slice(), 0, ls[j].len());
            assert(line@ =~= ls@[j as int]@);
            out.push(line);
            assert(views(out@) =~= old_views.push(line@));
            assert(views(out@) == dialogue_only(next));
        } else {
            assert(views(out@) == dialogue_only(next));
        }
        j = j + 1;
    }
    assert(lv.skip(k + 1).take(n - k - 1) =~= lv.skip(k + 1));
    Ok(out)
}

/// `body` split at its first `k` commas.
pub open spec fn split_fields(body: Seq<char>, k: nat) -> Seq<Seq<char>>
    decreases body.len(),
{
    let i = find_from(body, ',', 0);
    proof {
        lemma_find_from(body, ',', 0);
    }
    if k == 0 || i >= body.len() {
        seq![body]
    } else {
        seq![body.take(i)] + split_fields(body.skip(i + 1), (k - 1) as nat)
    }
}

/// `parts` joined with `sep` between neighbours.
pub open spec fn join(parts: Seq<Seq<char>>, sep: char) -> Seq<char>
    decreases parts.len(),
{
    if parts.len() == 0 {
        seq![]
    } else if parts.len() == 1 {
        parts[0]
    } else {
        parts[0] + seq![sep] + join(parts.drop_first(), sep)
    }
}

/// Splits a dialogue body at its first `text_index` commas, so that the last
/// field keeps any further commas of the text.
pub fn split_dialogue_fields(body: &[char], text_index: usize) -> (r: Vec<Vec<char>>)
    ensures
        views(r@) == split_fields(body@, text_index as nat),
{
    let n = body.len();
    let mut fields: Vec<Vec<char>> = Vec::new();
    let mut start: usize = 0;
    let mut splits: usize = 0;
    assert(body@.skip(0) =~= body@);
    assert(views(fields@) + split_fields(body@, text_index as nat) =~= split_fields(
        body@,
        text_index as nat,
    ));
    loop
        invariant
            start <= n,
            n == body@.len(),
            splits <= text_index,
            views(fields@) + split_fields(body@.skip(start as int), (text_index - splits) as nat)
                == split_fields(body@, text_index as nat),
        decreases n - start,
    {
        let ghost rest = body@.skip(start as int);
        let ghost before = views(fields@);
        let i = find_char_from(body, ',', start);
        proof {
            lemma_find_from(body@, ',', start as int);
            lemma_find_shift_comma(body@, start as int, 0);
        }
        if splits >= text_index || i >= n {
            let last = crate::text::slice_to_vec(body, start, n);
            fields.push(last);
            assert(views(fields@) =~= before + seq![rest]);
            return fields;
        }
        let piece = crate::text::slice_to_vec(body, start, i);
        fields.push(piece);
        proof {
            assert(rest.take(i - start) =~= body@.subrange(start as int, i as int));
            assert(rest.skip(i - start + 1) =~= body@.skip(i + 1));
            assert(views(fields@) =~= before + seq![rest.take(i - start)]);
            assert(views(fields@) + split_fields(body@.skip(i + 1), (text_index - splits - 1) as nat)
                =~= before + split_fields(rest, (text_index - splits) as nat));
        }
        start = i + 1;
        splits = splits + 1;
    }
}

proof fn lemma_find_shift_comma(s: Seq<char>, i: int, k: int)
    requires
        0 <= i <= s.len(),
        0 <= k <= s.len() - i,
    ensures
        find_from(s, ',', i + k) == i + find_from(s.skip(i), ',', k),
    decreases s.len() - i - k,
{
    if k < s.len() - i {
        assert(s.skip(i)[k] == s[i + k]);
        lemma_find_shift_comma(s, i, k + 1);
    }
}

/// A positive `u32` written in `value` (surrounding whitespace allowed),
/// else `fallback`.
pub open spec fn positive_or(value: Seq<char>, fallback: u32) -> u32 {
    match parse_u32(trim(value)) {
        Some(n) => if n > 0 {
            n
        } else {
            fallback
        },
        None => fallback,
    }
}

/// A positive `u32` written in `value`, else `fallback`.
pub fn parse_positive_u32(value: &str, fallback: u32) -> (r: u32)
    ensures
        r == positive_or(value@, fallback),
{
    let v = chars_of(value);
    parse_positive_chars(v.as_slice(), fallback)
}

fn parse_positive_chars(value: &[char], fallback: u32) -> (r: u32)
    ensures
        r == positive_or(value@, fallback),
{
    let t = trimmed(value);
    match parse_u32_chars(t.as_slice()) {
        Some(n) => if n > 0 {
            n
        } else {
            fallback
        },
        None => fallback,
    }
}

/// The wrapped form of one dialogue line.
pub open spec fn dialogue_line_spec(line: Seq<char>, video_width: u32, layout: SubtitleLayout) -> Result<
    Seq<char>,
    SubtitleErrorModel,
> {
    if !has_prefix(line, "Dialogue:"@) {
        Err(SubtitleErrorModel::MalformedDialogue { line })
    } else {
        let fields = split_fields(line.skip(9), EVENT_TEXT_INDEX as nat);
        if fields.len() <= EVENT_TEXT_INDEX {
            Err(SubtitleErrorModel::MalformedDialogue { line })
        } else {
            let ml = positive_or(fields[EVENT_MARGIN_LEFT_INDEX as int], layout.margin_l);
            let mr = positive_or(fields[EVENT_MARGIN_RIGHT_INDEX as int], layout.margin_r);
            let m = max_units_spec(
                video_width,
                ml,
                mr,
                layout.font_size,
                layout.outline_size,
                layout.shadow_size,
            );
            let wrapped = fields.update(
                EVENT_TEXT_INDEX as int,
                wrap_text(fields[EVENT_TEXT_INDEX as int], m),
            );
            Ok("Dialogue:"@ + join(wrapped, ','))
        }
    }
}

/// Joins character vectors with `sep`.
fn join_fields(parts: &Vec<Vec<char>>, sep: char) -> (r: Vec<char>)
    ensures
        r@ == join(views(parts@), sep),
{
    let n = parts.len();
    if n == 0 {
        return Vec::new();
    }
    let mut out: Vec<char> = Vec::new();
    let mut i = n - 1;
    push_all(&mut out, parts[i].as_slice());
    assert(views(parts@).skip(i as int) =~= seq![parts@[i as int]@]);
    while i > 0
        invariant
            i < n,
            n == parts@.len(),
            out@ == join(views(parts@).skip(i as int), sep),
        decreases i,
    {
        let ghost tail = views(parts@).skip(i as int);
        let mut next: Vec<char> = Vec::new();
        push_all(&mut next, parts[i - 1].as_slice());
        next.push(sep);
        push_all(&mut next, out.as_slice());
        proof {
            let s = views(parts@).skip(i - 1);
            assert(s.drop_first() =~= tail);
            assert(s[0] == parts@[i - 1]@);
            assert(s.len() >= 2);
        }
        out = next;
        i = i - 1;
    }
    assert(views(parts@).skip(0) =~= views(parts@));
    out
}

/// Wraps the text field of one dialogue line (see `dialogue_line_spec`).
pub fn wrap_dialogue_line(line: &[char], video_width: u32, layout: &SubtitleLayout) -> (r: Result<
    Vec<char>,
    SubtitleError,
>)
    requires
        layout.outline_size + layout.shadow_size <= u32::MAX,
    ensures
        r matches Ok(v) ==> dialogue_line_spec(line@, video_width, *layout) == Ok::<
            Seq<char>,
            SubtitleErrorModel,
        >(v@),
        r matches Err(e) ==> dialogue_line_spec(line@, video_width, *layout) == Err::<
            Seq<char>,
            SubtitleErrorModel,
        >(e@),
{
    if !starts_with_str(line, "Dialogue:") {
        return Err(SubtitleError::MalformedDialogue { line: string_of(line) });
    }
    proof {
        reveal_strlit("Dialogue:");
    }
    let body = crate::text::slice_to_vec(line, 9, line.len());
    let mut fields = split_dialogue_fields(body.as_slice(), EVENT_TEXT_INDEX);
    if fields.len() <= EVENT_TEXT_INDEX {
        return Err(SubtitleError::MalformedDialogue { line: string_of(line) });
    }
    let margin_left = parse_positive_chars(
        fields[EVENT_MARGIN_LEFT_INDEX].as_slice(),
        layout.margin_l,
    );
    let margin_right = parse_positive_chars(
        fields[EVENT_MARGIN_RIGHT_INDEX].as_slice(),
        layout.margin_r,
    );
    let m = compute_max_units(
        video_width,
        margin_left,
        margin_right,
        layout.font_size,
        layout.outline_size,
        layout.shadow_size,
    );
    let wrapped = wrap_ass_text(fields[EVENT_TEXT_INDEX].as_slice(), m);
    let ghost old_fields = views(fields@);
    fields.set(EVENT_TEXT_INDEX, wrapped);
    assert(views(fields@) =~= old_fields.update(EVENT_TEXT_INDEX as int, wrap_text(
        old_fields[EVENT_TEXT_INDEX as int],
        m,
    )));
    let joined = join_fields(&fields, ',');
    let mut out = chars_of("Dialogue:");
    push_all(&mut out, joined.as_slice());
    Ok(out)
}

// ---------------------------------------------------------------------------
// Rendering
// ---------------------------------------------------------------------------

/// The header of the rendered ASS script: script info with the video size,
/// the default style, and the events format line.
pub open spec fn ass_header(
    font_name: Seq<char>,
    layout: SubtitleLayout,
    video_width: u32,
    video_height: u32,
) -> Seq<char> {
    "[Script Info]\nScriptType: v4.00+\nWrapStyle: 0\nScaledBorderAndShadow: yes\nPlayResX: "@
        + decimal(video_width as nat) + "\nPlayResY: "@ + decimal(video_height as nat)
        + "\n\n[V4+ Styles]\nFormat: Name, Fontname, Fontsize, PrimaryColour, SecondaryColour, OutlineColour, BackColour, Bold, Italic, Underline, StrikeOut, ScaleX, ScaleY, Spacing, Angle, BorderStyle, Outline, Shadow, Alignment, MarginL, MarginR, MarginV, Encoding\nStyle: Default,"@
        + font_name + ","@ + decimal(layout.font_size as nat)
        + ",&H0000FFFF,&H0000FFFF,&H00000000,&H64000000,0,0,0,0,100,100,0,0,1,"@ + decimal(
        layout.outline_size as nat,
    ) + ","@ + decimal(layout.shadow_size as nat) + ",2,"@ + decimal(layout.margin_l as nat)
        + ","@ + decimal(layout.margin_r as nat) + ","@ + decimal(layout.margin_v as nat)
        + ",1\n\n[Events]\nFormat: Layer, Start, End, Style, Name, MarginL, MarginR, MarginV, Effect, Text\n"@
}

/// The wrapped dialogue lines, each followed by a newline; the first
/// malformed line stops rendering.
pub open spec fn render_lines(ls: Seq<Seq<char>>, video_width: u32, layout: SubtitleLayout) -> Result<
    Seq<char>,
    SubtitleErrorModel,
>
    decreases ls.len(),
{
    if ls.len() == 0 {
        Ok(seq![])
    } else {
        match render_lines(ls.drop_last(), video_width, layout) {
            Err(e) => Err(e),
            Ok(prefix) => match dialogue_line_spec(ls.last(), video_width, layout) {
                Err(e) => Err(e),
                Ok(line) => Ok(prefix + line + seq!['\n']),
            },
        }
    }
}

/// The rendered ASS script for converted subtitles `raw_ass`.
pub open spec fn render_spec(raw_ass: Seq<char>, style: StyleModel, video_width: u32, video_height: u32) -> Result<
    Seq<char>,
    SubtitleErrorModel,
> {
    let layout = layout_spec(style, video_height);
    match dialogue_lines(normalize_newlines(raw_ass)) {
        Err(e) => Err(e),
        Ok(ls) => match render_lines(ls, video_width, layout) {
            Err(e) => Err(e),
            Ok(body) => Ok(ass_header(style.font_name, layout, video_width, video_height) + body),
        },
    }
}

/// Whether the arithmetic of rendering stays within `u32`.
pub open spec fn render_in_range(style: StyleModel, video_height: u32) -> bool {
    &&& layout_in_range(style, video_height)
    &&& layout_spec(style, video_height).outline_size + layout_spec(style, video_height).shadow_size
        <= u32::MAX
}

/// Whether rendering subtitles for a video of height `video_height` stays
/// within `u32` (see `render_in_range`).
pub fn render_fits(style: &StyleConfig, video_height: u32) -> (r: bool)
    ensures
        r == render_in_range(style@, video_height),
{
    let h = video_height as u64;
    let max = u32::MAX as u64;
    if style.font_size.is_none() && h * 70 > max {
        return false;
    }
    if style.margin_v.is_none() && h * 80 > max {
        return false;
    }
    let font: u64 = match style.font_size {
        Some(f) => f as u64,
        None => {
            let c = h * 70 / 1080;
            if c < MIN_FONT_SIZE as u64 {
                MIN_FONT_SIZE as u64
            } else if c > MAX_FONT_SIZE as u64 {
                MAX_FONT_SIZE as u64
            } else {
                c
            }
        },
    };
    assert(font == layout_font_size(style@, video_height));
    if style.outline_size.is_none() && font * 8 > max {
        return false;
    }
    let outline: u64 = match style.outline_size {
        Some(o) => o as u64,
        None => {
            let c = font * 8 / 100;
            if c >= MIN_OUTLINE_SIZE as u64 {
                c
            } else {
                MIN_OUTLINE_SIZE as u64
            }
        },
    };
    assert(outline == layout_outline(style@, video_height));
    let shadow: u64 = match style.shadow_size {
        Some(s) => s as u64,
        None => {
            let c = outline / 2;
            if c >= MIN_SHADOW_SIZE as u64 {
                c
            } else {
                MIN_SHADOW_SIZE as u64
            }
        },
    };
    assert(shadow == layout_shadow(style@, video_height));
    outline + shadow <= max
}

fn push_header(
    out: &mut Vec<char>,
    font_name: &str,
    layout: &SubtitleLayout,
    video_width: u32,
    video_height: u32,
)
    ensures
        final(out)@ == old(out)@ + ass_header(font_name@, *layout, video_width, video_height),
{
    let mut h = chars_of(
        "[Script Info]\nScriptType: v4.00+\nWrapStyle: 0\nScaledBorderAndShadow: yes\nPlayResX: ",
    );
    push_decimal(&mut h, video_width as u128);
    push_str(&mut h, "\nPlayResY: ");
    push_decimal(&mut h, video_height as u128);
    push_str(
        &mut h,
        "\n\n[V4+ Styles]\nFormat: Name, Fontname, Fontsize, PrimaryColour, SecondaryColour, OutlineColour, BackColour, Bold, Italic, Underline, StrikeOut, ScaleX, ScaleY, Spacing, Angle, BorderStyle, Outline, Shadow, Alignment, MarginL, MarginR, MarginV, Encoding\nStyle: Default,",
    );
    push_str(&mut h, font_name);
    push_str(&mut h, ",");
    push_decimal(&mut h, layout.font_size as u128);
    push_str(&mut h, ",&H0000FFFF,&H0000FFFF,&H00000000,&H64000000,0,0,0,0,100,100,0,0,1,");
    push_decimal(&mut h, layout.outline_size as u128);
    push_str(&mut h, ",");
    push_decimal(&mut h, layout.shadow_size as u128);
    push_str(&mut h, ",2,");
    push_decimal(&mut h, layout.margin_l as u128);
    push_str(&mut h, ",");
    push_decimal(&mut h, layout.margin_r as u128);
    push_str(&mut h, ",");
    push_decimal(&mut h, layout.margin_v as u128);
    push_str(
        &mut h,
        ",1\n\n[Events]\nFormat: Layer, Start, End, Style, Name, MarginL, MarginR, MarginV, Effect, Text\n",
    );
    push_all(out, h.as_slice());
}

/// The wrapped dialogue lines, each followed by a newline (see `render_lines`).
fn render_dialogue(dialogue: &Vec<Vec<char>>, video_width: u32, layout: &SubtitleLayout) -> (r: Result<
    Vec<char>,
    SubtitleError,
>)
    requires
        layout.outline_size + layout.shadow_size <= u32::MAX,
    ensures
        r matches Ok(v) ==> render_lines(views(dialogue@), video_width, *layout) == Ok::<
            Seq<char>,
            SubtitleErrorModel,
        >(v@),
        r matches Err(e) ==> render_lines(views(dialogue@), video_width, *layout) == Err::<
            Seq<char>,
            SubtitleErrorModel,
        >(e@),
{
    let ghost ls = views(dialogue@);
    let mut out: Vec<char> = Vec::new();
    let n = dialogue.len();
    let mut i: usize = 0;
    assert(ls.take(0) =~= Seq::<Seq<char>>::empty());
    while i < n
        invariant
            i <= n,
            n == ls.len(),
            ls == views(dialogue@),
            layout.outline_size + layout.shadow_size <= u32::MAX,
            render_lines(ls.take(i as int), video_width, *layout) == Ok::<
                Seq<char>,
                SubtitleErrorModel,
            >(out@),
        decreases n - i,
    {
        let ghost before = out@;
        proof {
            assert(ls.take(i + 1).drop_last() =~= ls.take(i as int));
            assert(ls.take(i + 1).last() == dialogue@[i as int]@);
        }
        let line = match wrap_dialogue_line(dialogue[i].as_slice(), video_width, layout) {
            Ok(l) => l,
            Err(e) => {
                proof {
                    assert(render_lines(ls.take(i + 1), video_width, *layout) == Err::<
                        Seq<char>,
                        SubtitleErrorModel,
                    >(e@));
                    lemma_render_lines_err_extends(ls, i as int + 1, video_width, *layout);
                }
                return Err(e);
            },
        };
        push_all(&mut out, line.as_slice());
        out.push('\n');
        assert(out@ =~= before + line@ + seq!['\n']);
        i = i + 1;
    }
    assert(ls.take(n as int) =~= ls);
    Ok(out)
}

/// Renders converted ASS subtitles: a fresh header with the style and
/// layout for the video, then every dialogue line of the `[Events]` section
/// with its text wrapped to the line capacity.
pub fn render_ass(raw_ass: &str, style: &StyleConfig, video_width: u32, video_height: u32) -> (r:
    Result<String, SubtitleError>)
    requires
        render_in_range(style@, video_height),
    ensures
        r matches Ok(s) ==> render_spec(raw_ass@, style@, video_width, video_height) == Ok::<
            Seq<char>,
            SubtitleErrorModel,
        >(s@),
        r matches Err(e) ==> render_spec(raw_ass@, style@, video_width, video_height) == Err::<
            Seq<char>,
            SubtitleErrorModel,
        >(e@),
{
    let layout = resolve_layout(style, video_height);
    let raw = chars_of(raw_ass);
    let normalized = normalize_newlines_exec(raw.as_slice());
    let dialogue = match extract_dialogue_lines(normalized.as_slice()) {
        Ok(d) => d,
        Err(e) => return Err(e),
    };
    let body = match render_dialogue(&dialogue, video_width, &layout) {
        Ok(b) => b,
        Err(e) => return Err(e),
    };
    let mut out: Vec<char> = Vec::new();
    push_header(&mut out, style.font_name.as_str(), &layout, video_width, video_height);
    push_all(&mut out, body.as_slice());
    Ok(string_of(out.as_slice()))
}

proof fn lemma_render_lines_err_extends(
    ls: Seq<Seq<char>>,
    k: int,
    video_width: u32,
    layout: SubtitleLayout,
)
    requires
        0 <= k <= ls.len(),
        render_lines(ls.take(k), video_width, layout) is Err,
    ensures
        render_lines(ls, video_width, layout) is Err,
        render_lines(ls, video_width, layout) == render_lines(ls.take(k), video_width, layout),
    decreases ls.len() - k,
{
    if k < ls.len() {
        assert(ls.take(k + 1).drop_last() =~= ls.take(k));
        lemma_render_lines_err_extends(ls, k + 1, video_width, layout);
    } else {
        assert(ls.take(k) =~= ls);
    }
}

// ---------------------------------------------------------------------------
// Laws of layout and dialogue fields
// ---------------------------------------------------------------------------

/// Splitting a dialogue body into fields and joining them with commas gives
/// the body back, in at most `k + 1` fields.
pub proof fn lemma_split_join_roundtrip(body: Seq<char>, k: nat)
    ensures
        join(split_fields(body, k), ',') == body,
        1 <= split_fields(body, k).len() <= k + 1,
    decreases body.len(),
{
    let i = find_from(body, ',', 0);
    lemma_find_from(body, ',', 0);
    if k > 0 && i < body.len() {
        let rest = body.skip(i + 1);
        lemma_split_join_roundtrip(rest, (k - 1) as nat);
        let parts = split_fields(body, k);
        assert(parts.drop_first() =~= split_fields(rest, (k - 1) as nat));
        assert(body[i] == ',');
        assert(body.take(i) + seq![','] + rest =~= body);
    }
}

/// Set sizes are used as they are; derived sizes follow the video height:
/// the font size stays within its bounds, the outline and shadow at least
/// their minimums, and the margin at least half the font size.
pub proof fn lemma_layout_bounds(style: StyleModel, height: u32)
    ensures
        style.font_size matches Some(f) ==> layout_font_size(style, height) == f,
        style.margin_v matches Some(m) ==> layout_margin_v(style, height) == m,
        style.outline_size matches Some(o) ==> layout_outline(style, height) == o,
        style.shadow_size matches Some(x) ==> layout_shadow(style, height) == x,
        style.font_size is None ==> MIN_FONT_SIZE <= layout_font_size(style, height) <= MAX_FONT_SIZE,
        style.margin_v is None ==> layout_margin_v(style, height) >= layout_font_size(style, height) / 2,
        style.outline_size is None ==> layout_outline(style, height) >= MIN_OUTLINE_SIZE,
        style.shadow_size is None ==> layout_shadow(style, height) >= MIN_SHADOW_SIZE,
{
}

/// The number of `c` in `s[i..]`.
pub open spec fn count_from(s: Seq<char>, c: char, i: int) -> nat
    decreases s.len() - i,
{
    if i < 0 || i >= s.len() {
        0
    } else {
        (if s[i] == c {
            1nat
        } else {
            0nat
        }) + count_from(s, c, i + 1)
    }
}

proof fn lemma_count_skip(s: Seq<char>, c: char, d: int, i: int)
    requires
        0 <= d <= i,
        d <= s.len(),
    ensures
        count_from(s, c, i) == count_from(s.skip(d), c, i - d),
    decreases s.len() - i,
{
    if i < s.len() {
        lemma_count_skip(s, c, d, i + 1);
    }
}

proof fn lemma_count_gap(s: Seq<char>, c: char, j: int, i: int)
    requires
        0 <= j <= i <= s.len(),
        forall|k: int| j <= k < i ==> s[k] != c,
    ensures
        count_from(s, c, j) == count_from(s, c, i),
    decreases i - j,
{
    if j < i {
        lemma_count_gap(s, c, j + 1, i);
    }
}

/// Splitting a dialogue body at its first `k` commas gives one field more
/// than the commas it splits at (`k`, or all of them when there are fewer),
/// and only the last field may hold a comma.
pub proof fn lemma_split_fields_shape(body: Seq<char>, k: nat)
    ensures
        split_fields(body, k).len() == 1 + (if count_from(body, ',', 0) < k {
            count_from(body, ',', 0)
        } else {
            k
        }),
        forall|f: int, j: int|
            0 <= f < split_fields(body, k).len() - 1 && 0 <= j < split_fields(body, k)[f].len()
                ==> #[trigger] split_fields(body, k)[f][j] != ',',
    decreases body.len(),
{
    let i = find_from(body, ',', 0);
    lemma_find_from(body, ',', 0);
    if k > 0 && i < body.len() {
        let rest = body.skip(i + 1);
        lemma_split_fields_shape(rest, (k - 1) as nat);
        lemma_count_gap(body, ',', 0, i);
        lemma_count_skip(body, ',', i + 1, i + 1);
        assert(count_from(body, ',', 0) == 1 + count_from(rest, ',', 0));
        let parts = split_fields(body, k);
        let tail = split_fields(rest, (k - 1) as nat);
        assert(parts == seq![body.take(i)] + tail);
        assert forall|f: int, j: int|
            0 <= f < parts.len() - 1 && 0 <= j < parts[f].len() implies #[trigger] parts[f][j] != ',' by {
            if f > 0 {
                assert(parts[f] == tail[f - 1]);
                assert(tail[f - 1][j] != ',');
            } else {
                assert(parts[0] == body.take(i));
            }
        }
    } else if k == 0 {
    } else {
        lemma_count_gap(body, ',', 0, body.len() as int);
        assert(count_from(body, ',', 0) == 0);
    }
}

// ---------------------------------------------------------------------------
// The fields of the default style
// ---------------------------------------------------------------------------

/// The names of the style fields, in the order of the `[V4+ Styles]` Format
/// line.
pub open spec fn style_format_names() -> Seq<Seq<char>> {
    seq![
        "Name"@,
        "Fontname"@,
        "Fontsize"@,
        "PrimaryColour"@,
        "SecondaryColour"@,
        "OutlineColour"@,
        "BackColour"@,
        "Bold"@,
        "Italic"@,
        "Underline"@,
        "StrikeOut"@,
        "ScaleX"@,
        "ScaleY"@,
        "Spacing"@,
        "Angle"@,
        "BorderStyle"@,
        "Outline"@,
        "Shadow"@,
        "Alignment"@,
        "MarginL"@,
        "MarginR"@,
        "MarginV"@,
        "Encoding"@,
    ]
}

/// The fixed colours, flags, scales, spacing, angle and border style of the
/// Default style.
pub open spec fn fixed_style_fields() -> Seq<Seq<char>> {
    seq![
        "&H0000FFFF"@,
        "&H0000FFFF"@,
        "&H00000000"@,
        "&H64000000"@,
        "0"@,
        "0"@,
        "0"@,
        "0"@,
        "100"@,
        "100"@,
        "0"@,
        "0"@,
        "1"@,
    ]
}

/// The values of the Default style, field by field.
pub open spec fn default_style_fields(font_name: Seq<char>, layout: SubtitleLayout) -> Seq<Seq<char>> {
    seq!["Default"@, font_name, decimal(layout.font_size as nat)] + fixed_style_fields() + seq![
        decimal(layout.outline_size as nat),
        decimal(layout.shadow_size as nat),
        "2"@,
        decimal(layout.margin_l as nat),
        decimal(layout.margin_r as nat),
        decimal(layout.margin_v as nat),
        "1"@,
    ]
}

/// The script info of the header, up to the styles section.
pub open spec fn script_info(video_width: u32, video_height: u32) -> Seq<char> {
    "[Script Info]\nScriptType: v4.00+\nWrapStyle: 0\nScaledBorderAndShadow: yes\nPlayResX: "@
        + decimal(video_width as nat) + "\nPlayResY: "@ + decimal(video_height as nat)
        + "\n\n[V4+ Styles]\n"@
}

/// The events section of the header, with its Format line.
pub open spec fn events_format() -> Seq<char> {
    "\n[Events]\nFormat: Layer, Start, End, Style, Name, MarginL, MarginR, MarginV, Effect, Text\n"@
}

/// Joining two non-empty runs of fields joins their joins.
proof fn lemma_join_append(a: Seq<Seq<char>>, b: Seq<Seq<char>>, sep: char)
    requires
        a.len() > 0,
        b.len() > 0,
    ensures
        join(a + b, sep) == join(a, sep) + seq![sep] + join(b, sep),
    decreases a.len(),
{
    if a.len() == 1 {
        assert((a + b).drop_first() =~= b);
    } else {
        lemma_join_append(a.drop_first(), b, sep);
        assert((a + b).drop_first() =~= a.drop_first() + b);
    }
}

/// Joining with a separator string appends one part at a time.
proof fn lemma_join_with_push(parts: Seq<Seq<char>>, x: Seq<char>, sep: Seq<char>)
    requires
        parts.len() > 0,
    ensures
        join_with(parts.push(x), sep) == join_with(parts, sep) + sep + x,
{
    assert(parts.push(x).drop_last() =~= parts);
}

#[verifier::spinoff_prover]
#[verifier::rlimit(50)]
proof fn lemma_format_names_joined()
    ensures
        join_with(style_format_names(), ", "@) == "Name, Fontname, Fontsize, PrimaryColour, SecondaryColour, OutlineColour, BackColour, Bold, Italic, Underline, StrikeOut, ScaleX, ScaleY, Spacing, Angle, BorderStyle, Outline, Shadow, Alignment, MarginL, MarginR, MarginV, Encoding"@,
{
    let names = style_format_names();
    reveal_strlit("Alignment");
    reveal_strlit("Angle");
    reveal_strlit("BackColour");
    reveal_strlit("Bold");
    reveal_strlit("BorderStyle");
    reveal_strlit("Encoding");
    reveal_strlit("Fontname");
    reveal_strlit("Fontsize");
    reveal_strlit("Italic");
    reveal_strlit("MarginL");
    reveal_strlit("MarginR");
    reveal_strlit("MarginV");
    reveal_strlit("Name");
    reveal_strlit("Outline");
    reveal_strlit("OutlineColour");
    reveal_strlit("PrimaryColour");
    reveal_strlit("ScaleX");
    reveal_strlit("ScaleY");
    reveal_strlit("SecondaryColour");
    reveal_strlit("Shadow");
    reveal_strlit("Spacing");
    reveal_strlit("StrikeOut");
    reveal_strlit("Underline");
    reveal_strlit(", ");
    reveal_strlit("Name, Fontname, Fontsize, PrimaryColour, SecondaryColour, OutlineColour, BackColour, Bold, Italic, Underline, StrikeOut, ScaleX, ScaleY, Spacing, Angle, BorderStyle, Outline, Shadow, Alignment, MarginL, MarginR, MarginV, Encoding");
    assert(join_with(names.take(1), ", "@) == names[0]);
    lemma_join_with_push(names.take(1), names[1], ", "@);
    assert(names.take(2) =~= names.take(1).push(names[1]));
    lemma_join_with_push(names.take(2), names[2], ", "@);
    assert(names.take(3) =~= names.take(2).push(names[2]));
    lemma_join_with_push(names.take(3), names[3], ", "@);
    assert(names.take(4) =~= names.take(3).push(names[3]));
    lemma_join_with_push(names.take(4), names[4], ", "@);
    assert(names.take(5) =~= names.take(4).push(names[4]));
    lemma_join_with_push(names.take(5), names[5], ", "@);
    assert(names.take(6) =~= names.take(5).push(names[5]));
    lemma_join_with_push(names.take(6), names[6], ", "@);
    assert(names.take(7) =~= names.take(6).push(names[6]));
    lemma_join_with_push(names.take(7), names[7], ", "@);
    assert(names.take(8) =~= names.take(7).push(names[7]));
    lemma_join_with_push(names.take(8), names[8], ", "@);
    assert(names.take(9) =~= names.take(8).push(names[8]));
    lemma_join_with_push(names.take(9), names[9], ", "@);
    assert(names.take(10) =~= names.take(9).push(names[9]));
    lemma_join_with_push(names.take(10), names[10], ", "@);
    assert(names.take(11) =~= names.take(10).push(names[10]));
    lemma_join_with_push(names.take(11), names[11], ", "@);
    assert(names.take(12) =~= names.take(11).push(names[11]));
    lemma_join_with_push(names.take(12), names[12], ", "@);
    assert(names.take(13) =~= names.take(12).push(names[12]));
    lemma_join_with_push(names.take(13), names[13], ", "@);
    assert(names.take(14) =~= names.take(13).push(names[13]));
    lemma_join_with_push(names.take(14), names[14], ", "@);
    assert(names.take(15) =~= names.take(14).push(names[14]));
    lemma_join_with_push(names.take(15), names[15], ", "@);
    assert(names.take(16) =~= names.take(15).push(names[15]));
    lemma_join_with_push(names.take(16), names[16], ", "@);
    assert(names.take(17) =~= names.take(16).push(names[16]));
    lemma_join_with_push(names.take(17), names[17], ", "@);
    assert(names.take(18) =~= names.take(17).push(names[17]));
    lemma_join_with_push(names.take(18), names[18], ", "@);
    assert(names.take(19) =~= names.take(18).push(names[18]));
    lemma_join_with_push(names.take(19), names[19], ", "@);
    assert(names.take(20) =~= names.take(19).push(names[19]));
    lemma_join_with_push(names.take(20), names[20], ", "@);
    assert(names.take(21) =~= names.take(20).push(names[20]));
    lemma_join_with_push(names.take(21), names[21], ", "@);
    assert(names.take(22) =~= names.take(21).push(names[21]));
    lemma_join_with_push(names.take(22), names[22], ", "@);
    assert(names.take(23) =~= names.take(22).push(names[22]));
    assert(names.take(23) =~= names);
    assert(join_with(names, ", "@) =~= "Name, Fontname, Fontsize, PrimaryColour, SecondaryColour, OutlineColour, BackColour, Bold, Italic, Underline, StrikeOut, ScaleX, ScaleY, Spacing, Angle, BorderStyle, Outline, Shadow, Alignment, MarginL, MarginR, MarginV, Encoding"@);
}

#[verifier::spinoff_prover]
#[verifier::rlimit(50)]
proof fn lemma_fixed_fields_joined()
    ensures
        join(fixed_style_fields(), ',') == "&H0000FFFF,&H0000FFFF,&H00000000,&H64000000,0,0,0,0,100,100,0,0,1"@,
{
    let f = fixed_style_fields();
    reveal_strlit("&H00000000");
    reveal_strlit("&H0000FFFF");
    reveal_strlit("&H64000000");
    reveal_strlit("0");
    reveal_strlit("1");
    reveal_strlit("100");
    reveal_strlit("&H0000FFFF,&H0000FFFF,&H00000000,&H64000000,0,0,0,0,100,100,0,0,1");
    assert(f.skip(12) =~= seq![f[12]]);
    assert(join(f.skip(12), ',') == f[12]);
    assert(f.skip(11).drop_first() =~= f.skip(12));
    assert(join(f.skip(11), ',') == f[11] + seq![','] + (f[12]));
    assert(f.skip(10).drop_first() =~= f.skip(11));
    assert(join(f.skip(10), ',') == f[10] + seq![','] + (f[11] + seq![','] + (f[12])));
    assert(f.skip(9).drop_first() =~= f.skip(10));
    assert(join(f.skip(9), ',') == f[9] + seq![','] + (f[10] + seq![','] + (f[11] + seq![','] + (f[12]))));
    assert(f.skip(8).drop_first() =~= f.skip(9));
    assert(join(f.skip(8), ',') == f[8] + seq![','] + (f[9] + seq![','] + (f[10] + seq![','] + (f[11] + seq![','] + (f[12])))));
    assert(f.skip(7).drop_first() =~= f.skip(8));
    assert(join(f.skip(7), ',') == f[7] + seq![','] + (f[8] + seq![','] + (f[9] + seq![','] + (f[10] + seq![','] + (f[11] + seq![','] + (f[12]))))));
    assert(f.skip(6).drop_first() =~= f.skip(7));
    assert(join(f.skip(6), ',') == f[6] + seq![','] + (f[7] + seq![','] + (f[8] + seq![','] + (f[9] + seq![','] + (f[10] + seq![','] + (f[11] + seq![','] + (f[12])))))));
    assert(f.skip(5).drop_first() =~= f.skip(6));
    assert(join(f.skip(5), ',') == f[5] + seq![','] + (f[6] + seq![','] + (f[7] + seq![','] + (f[8] + seq![','] + (f[9] + seq![','] + (f[10] + seq![','] + (f[11] + seq![','] + (f[12]))))))));
    assert(f.skip(4).drop_first() =~= f.skip(5));
    assert(join(f.skip(4), ',') == f[4] + seq![','] + (f[5] + seq![','] + (f[6] + seq![','] + (f[7] + seq![','] + (f[8] + seq![','] + (f[9] + seq![','] + (f[10] + seq![','] + (f[11] + seq![','] + (f[12])))))))));
    assert(f.skip(3).drop_first() =~= f.skip(4));
    assert(join(f.skip(3), ',') == f[3] + seq![','] + (f[4] + seq![','] + (f[5] + seq![','] + (f[6] + seq![','] + (f[7] + seq![','] + (f[8] + seq![','] + (f[9] + seq![','] + (f[10] + seq![','] + (f[11] + seq![','] + (f[12]))))))))));
    assert(f.skip(2).drop_first() =~= f.skip(3));
    assert(join(f.skip(2), ',') == f[2] + seq![','] + (f[3] + seq![','] + (f[4] + seq![','] + (f[5] + seq![','] + (f[6] + seq![','] + (f[7] + seq![','] + (f[8] + seq![','] + (f[9] + seq![','] + (f[10] + seq![','] + (f[11] + seq![','] + (f[12])))))))))));
    assert(f.skip(1).drop_first() =~= f.skip(2));
    assert(join(f.skip(1), ',') == f[1] + seq![','] + (f[2] + seq![','] + (f[3] + seq![','] + (f[4] + seq![','] + (f[5] + seq![','] + (f[6] + seq![','] + (f[7] + seq![','] + (f[8] + seq![','] + (f[9] + seq![','] + (f[10] + seq![','] + (f[11] + seq![','] + (f[12]))))))))))));
    assert(f.skip(0).drop_first() =~= f.skip(1));
    assert(join(f.skip(0), ',') == f[0] + seq![','] + (f[1] + seq![','] + (f[2] + seq![','] + (f[3] + seq![','] + (f[4] + seq![','] + (f[5] + seq![','] + (f[6] + seq![','] + (f[7] + seq![','] + (f[8] + seq![','] + (f[9] + seq![','] + (f[10] + seq![','] + (f[11] + seq![','] + (f[12])))))))))))));
    assert(f.skip(0) =~= f);
    assert(f[0] + seq![','] + (f[1] + seq![','] + (f[2] + seq![','] + (f[3] + seq![','] + (f[4] + seq![','] + (f[5] + seq![','] + (f[6] + seq![','] + (f[7] + seq![','] + (f[8] + seq![','] + (f[9] + seq![','] + (f[10] + seq![','] + (f[11] + seq![','] + (f[12])))))))))))) =~= "&H0000FFFF,&H0000FFFF,&H00000000,&H64000000,0,0,0,0,100,100,0,0,1"@);
}

proof fn lemma_separators()
    ensures
        ",&H0000FFFF,&H0000FFFF,&H00000000,&H64000000,0,0,0,0,100,100,0,0,1,"@ == ","@ + "&H0000FFFF,&H0000FFFF,&H00000000,&H64000000,0,0,0,0,100,100,0,0,1"@ + ","@,
        ",2,"@ == ","@ + "2"@ + ","@,
        ",1"@ == ","@ + "1"@,
        ","@ == seq![','],
{
    reveal_strlit(",&H0000FFFF,&H0000FFFF,&H00000000,&H64000000,0,0,0,0,100,100,0,0,1,");
    reveal_strlit("&H0000FFFF,&H0000FFFF,&H00000000,&H64000000,0,0,0,0,100,100,0,0,1");
    reveal_strlit(",2,");
    reveal_strlit(",1");
    reveal_strlit(",");
    reveal_strlit("2");
    reveal_strlit("1");
    assert(",&H0000FFFF,&H0000FFFF,&H00000000,&H64000000,0,0,0,0,100,100,0,0,1,"@ =~= ","@ + "&H0000FFFF,&H0000FFFF,&H00000000,&H64000000,0,0,0,0,100,100,0,0,1"@ + ","@);
    assert(",2,"@ =~= ","@ + "2"@ + ","@);
    assert(",1"@ =~= ","@ + "1"@);
    assert(","@ =~= seq![',']);
}

proof fn lemma_three_joined(a: Seq<char>, b: Seq<char>, c: Seq<char>)
    ensures
        join(seq![a, b, c], ',') == a + seq![','] + b + seq![','] + c,
{
    let p = seq![a, b, c];
    assert(p.drop_first() =~= seq![b, c]);
    assert(seq![b, c].drop_first() =~= seq![c]);
    assert(join(seq![c], ',') == c);
    assert(join(seq![b, c], ',') == b + seq![','] + c);
    assert(join(p, ',') =~= a + seq![','] + b + seq![','] + c);
}

#[verifier::spinoff_prover]
#[verifier::rlimit(50)]
proof fn lemma_seven_joined(
    a: Seq<char>,
    b: Seq<char>,
    c: Seq<char>,
    d: Seq<char>,
    e: Seq<char>,
    f: Seq<char>,
    g: Seq<char>,
)
    ensures
        join(seq![a, b, c, d, e, f, g], ',') == a + seq![','] + b + seq![','] + c + seq![','] + d + seq![',']
            + e + seq![','] + f + seq![','] + g,
{
    let p = seq![a, b, c, d, e, f, g];
    assert(p.drop_first() =~= seq![b, c, d, e, f, g]);
    assert(seq![b, c, d, e, f, g].drop_first() =~= seq![c, d, e, f, g]);
    assert(seq![c, d, e, f, g].drop_first() =~= seq![d, e, f, g]);
    assert(seq![d, e, f, g].drop_first() =~= seq![e, f, g]);
    lemma_three_joined(e, f, g);
    assert(join(seq![d, e, f, g], ',') == d + seq![','] + join(seq![e, f, g], ','));
    assert(join(seq![c, d, e, f, g], ',') == c + seq![','] + join(seq![d, e, f, g], ','));
    assert(join(seq![b, c, d, e, f, g], ',') == b + seq![','] + join(seq![c, d, e, f, g], ','));
    assert(join(p, ',') == a + seq![','] + join(seq![b, c, d, e, f, g], ','));
    assert(join(p, ',') =~= a + seq![','] + b + seq![','] + c + seq![','] + d + seq![','] + e + seq![','] + f
        + seq![','] + g);
}

/// Style fields with the given values joined by commas.
#[verifier::spinoff_prover]
#[verifier::rlimit(100)]
proof fn lemma_style_fields_joined(
    font_name: Seq<char>,
    fs: Seq<char>,
    o: Seq<char>,
    sh: Seq<char>,
    ml: Seq<char>,
    mr: Seq<char>,
    mv: Seq<char>,
)
    ensures
        join(seq!["Default"@, font_name, fs] + fixed_style_fields() + seq![o, sh, "2"@, ml, mr, mv, "1"@], ',')
            == "Default"@ + ","@ + font_name + ","@ + fs + ",&H0000FFFF,&H0000FFFF,&H00000000,&H64000000,0,0,0,0,100,100,0,0,1,"@ + o + ","@ + sh + ",2,"@ + ml + ","@
            + mr + ","@ + mv + ",1"@,
{
    let head = seq!["Default"@, font_name, fs];
    let tail = seq![o, sh, "2"@, ml, mr, mv, "1"@];
    lemma_fixed_fields_joined();
    lemma_separators();
    lemma_three_joined("Default"@, font_name, fs);
    lemma_seven_joined(o, sh, "2"@, ml, mr, mv, "1"@);
    lemma_join_append(head, fixed_style_fields(), ',');
    lemma_join_append(head + fixed_style_fields(), tail, ',');
    let c = seq![','];
    let lit = "&H0000FFFF,&H0000FFFF,&H00000000,&H64000000,0,0,0,0,100,100,0,0,1"@;
    let d = "Default"@;
    let two = "2"@;
    let one = "1"@;
    assert(join(head + fixed_style_fields() + tail, ',') == (d + c + font_name + c + fs) + c + lit + c + (o + c
        + sh + c + two + c + ml + c + mr + c + mv + c + one));
    assert(join(head + fixed_style_fields() + tail, ',') =~= d + c + font_name + c + fs + (c + lit + c) + o + c
        + sh + (c + two + c) + ml + c + mr + c + mv + (c + one));
}

/// The Default style's fields joined by commas.
proof fn lemma_default_fields_joined(font_name: Seq<char>, layout: SubtitleLayout)
    ensures
        join(default_style_fields(font_name, layout), ',') == "Default"@ + ","@ + font_name + ","@ + decimal(
            layout.font_size as nat,
        ) + ",&H0000FFFF,&H0000FFFF,&H00000000,&H64000000,0,0,0,0,100,100,0,0,1,"@ + decimal(layout.outline_size as nat) + ","@ + decimal(layout.shadow_size as nat)
            + ",2,"@ + decimal(layout.margin_l as nat) + ","@ + decimal(layout.margin_r as nat) + ","@ + decimal(
            layout.margin_v as nat,
        ) + ",1"@,
{
    lemma_style_fields_joined(
        font_name,
        decimal(layout.font_size as nat),
        decimal(layout.outline_size as nat),
        decimal(layout.shadow_size as nat),
        decimal(layout.margin_l as nat),
        decimal(layout.margin_r as nat),
        decimal(layout.margin_v as nat),
    );
}

#[verifier::spinoff_prover]
#[verifier::rlimit(50)]
proof fn lemma_header_literals()
    ensures
        "\n\n[V4+ Styles]\nFormat: Name, Fontname, Fontsize, PrimaryColour, SecondaryColour, OutlineColour, BackColour, Bold, Italic, Underline, StrikeOut, ScaleX, ScaleY, Spacing, Angle, BorderStyle, Outline, Shadow, Alignment, MarginL, MarginR, MarginV, Encoding\nStyle: Default,"@ == "\n\n[V4+ Styles]\n"@ + "Format: "@
            + "Name, Fontname, Fontsize, PrimaryColour, SecondaryColour, OutlineColour, BackColour, Bold, Italic, Underline, StrikeOut, ScaleX, ScaleY, Spacing, Angle, BorderStyle, Outline, Shadow, Alignment, MarginL, MarginR, MarginV, Encoding"@ + "\nStyle: "@ + "Default"@ + ","@,
        ",1\n\n[Events]\nFormat: Layer, Start, End, Style, Name, MarginL, MarginR, MarginV, Effect, Text\n"@ == ",1"@ + "\n"@ + "\n[Events]\nFormat: Layer, Start, End, Style, Name, MarginL, MarginR, MarginV, Effect, Text\n"@,
{
    reveal_strlit("\n\n[V4+ Styles]\nFormat: Name, Fontname, Fontsize, PrimaryColour, SecondaryColour, OutlineColour, BackColour, Bold, Italic, Underline, StrikeOut, ScaleX, ScaleY, Spacing, Angle, BorderStyle, Outline, Shadow, Alignment, MarginL, MarginR, MarginV, Encoding\nStyle: Default,");
    reveal_strlit("\n\n[V4+ Styles]\n");
    reveal_strlit("Format: ");
    reveal_strlit("Name, Fontname, Fontsize, PrimaryColour, SecondaryColour, OutlineColour, BackColour, Bold, Italic, Underline, StrikeOut, ScaleX, ScaleY, Spacing, Angle, BorderStyle, Outline, Shadow, Alignment, MarginL, MarginR, MarginV, Encoding");
    reveal_strlit("\nStyle: ");
    reveal_strlit("Default");
    reveal_strlit(",");
    reveal_strlit(",1\n\n[Events]\nFormat: Layer, Start, End, Style, Name, MarginL, MarginR, MarginV, Effect, Text\n");
    reveal_strlit(",1");
    reveal_strlit("\n");
    reveal_strlit("\n[Events]\nFormat: Layer, Start, End, Style, Name, MarginL, MarginR, MarginV, Effect, Text\n");
    assert("\n\n[V4+ Styles]\nFormat: Name, Fontname, Fontsize, PrimaryColour, SecondaryColour, OutlineColour, BackColour, Bold, Italic, Underline, StrikeOut, ScaleX, ScaleY, Spacing, Angle, BorderStyle, Outline, Shadow, Alignment, MarginL, MarginR, MarginV, Encoding\nStyle: Default,"@ =~= "\n\n[V4+ Styles]\n"@ + "Format: "@
        + "Name, Fontname, Fontsize, PrimaryColour, SecondaryColour, OutlineColour, BackColour, Bold, Italic, Underline, StrikeOut, ScaleX, ScaleY, Spacing, Angle, BorderStyle, Outline, Shadow, Alignment, MarginL, MarginR, MarginV, Encoding"@ + "\nStyle: "@ + "Default"@ + ","@);
    assert(",1\n\n[Events]\nFormat: Layer, Start, End, Style, Name, MarginL, MarginR, MarginV, Effect, Text\n"@ =~= ",1"@ + "\n"@ + "\n[Events]\nFormat: Layer, Start, End, Style, Name, MarginL, MarginR, MarginV, Effect, Text\n"@);
}

/// The rendered header declares the style fields in its Format line and
/// gives the Default style's values in the same order, joined by commas:
/// the name `Default`, the font name, the resolved font size, the fixed
/// colours and flags, the resolved outline and shadow sizes, alignment 2
/// (bottom centre), the resolved margins and encoding 1.
#[verifier::spinoff_prover]
#[verifier::rlimit(50)]
pub proof fn lemma_style_line_fields(font_name: Seq<char>, layout: SubtitleLayout, video_width: u32, video_height: u32)
    ensures
        ass_header(font_name, layout, video_width, video_height) == script_info(video_width, video_height)
            + "Format: "@ + join_with(style_format_names(), ", "@) + "\nStyle: "@ + join(
            default_style_fields(font_name, layout),
            ',',
        ) + "\n"@ + events_format(),
        style_format_names().len() == 23,
        default_style_fields(font_name, layout).len() == 23,
        style_format_names()[0] == "Name"@ && default_style_fields(font_name, layout)[0] == "Default"@,
        style_format_names()[1] == "Fontname"@ && default_style_fields(font_name, layout)[1] == font_name,
        style_format_names()[2] == "Fontsize"@ && default_style_fields(font_name, layout)[2] == decimal(
            layout.font_size as nat,
        ),
        style_format_names()[16] == "Outline"@ && default_style_fields(font_name, layout)[16] == decimal(
            layout.outline_size as nat,
        ),
        style_format_names()[17] == "Shadow"@ && default_style_fields(font_name, layout)[17] == decimal(
            layout.shadow_size as nat,
        ),
        style_format_names()[18] == "Alignment"@ && default_style_fields(font_name, layout)[18] == "2"@,
        style_format_names()[19] == "MarginL"@ && default_style_fields(font_name, layout)[19] == decimal(
            layout.margin_l as nat,
        ),
        style_format_names()[20] == "MarginR"@ && default_style_fields(font_name, layout)[20] == decimal(
            layout.margin_r as nat,
        ),
        style_format_names()[21] == "MarginV"@ && default_style_fields(font_name, layout)[21] == decimal(
            layout.margin_v as nat,
        ),
{
    let line = "Default"@ + ","@ + font_name + ","@ + decimal(layout.font_size as nat) + ",&H0000FFFF,&H0000FFFF,&H00000000,&H64000000,0,0,0,0,100,100,0,0,1,"@
        + decimal(layout.outline_size as nat) + ","@ + decimal(layout.shadow_size as nat) + ",2,"@ + decimal(
        layout.margin_l as nat,
    ) + ","@ + decimal(layout.margin_r as nat) + ","@ + decimal(layout.margin_v as nat) + ",1"@;
    lemma_format_names_joined();
    lemma_default_fields_joined(font_name, layout);
    lemma_header_literals();
    let styles = "\n\n[V4+ Styles]\n"@;
    let format = "Format: "@;
    let fmt = "Name, Fontname, Fontsize, PrimaryColour, SecondaryColour, OutlineColour, BackColour, Bold, Italic, Underline, StrikeOut, ScaleX, ScaleY, Spacing, Angle, BorderStyle, Outline, Shadow, Alignment, MarginL, MarginR, MarginV, Encoding"@;
    let style = "\nStyle: "@;
    let nl = "\n"@;
    let events = "\n[Events]\nFormat: Layer, Start, End, Style, Name, MarginL, MarginR, MarginV, Effect, Text\n"@;
    assert(ass_header(font_name, layout, video_width, video_height) == "[Script Info]\nScriptType: v4.00+\nWrapStyle: 0\nScaledBorderAndShadow: yes\nPlayResX: "@
        + decimal(video_width as nat) + "\nPlayResY: "@ + decimal(video_height as nat) + (styles + format + fmt
        + style + "Default"@ + ","@) + font_name + ","@ + decimal(layout.font_size as nat)
        + ",&H0000FFFF,&H0000FFFF,&H00000000,&H64000000,0,0,0,0,100,100,0,0,1,"@ + decimal(layout.outline_size as nat)
        + ","@ + decimal(layout.shadow_size as nat) + ",2,"@ + decimal(layout.margin_l as nat) + ","@ + decimal(
        layout.margin_r as nat,
    ) + ","@ + decimal(layout.margin_v as nat) + (",1"@ + nl + events));
    assert(ass_header(font_name, layout, video_width, video_height) =~= script_info(video_width, video_height)
        + "Format: "@ + join_with(style_format_names(), ", "@) + "\nStyle: "@ + line + "\n"@ + events_format());
}

} // verus!
