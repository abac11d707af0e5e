//! Character classification used by line wrapping: Unicode general
//! category and script (from outside crates), East Asian width classes,
//! display widths and break opportunities.
use unicode_general_category::get_general_category;
use unicode_script::UnicodeScript;
use vstd::prelude::*;

use crate::text::chars_of;

verus! {

// ---------------------------------------------------------------------------
// Outside facts about characters
// ---------------------------------------------------------------------------

/// The two-letter abbreviation of the Unicode general category of `c`, as the
/// `unicode-general-category` crate's table gives it.
pub uninterp spec fn general_category_abbreviation(c: char) -> Seq<char>;

/// The four-letter short name of the Unicode script of `c`, as the
/// `unicode-script` crate's table gives it.
pub uninterp spec fn script_short_name(c: char) -> Seq<char>;

/// Whether `c` has the Unicode `Uppercase` property (`char::is_uppercase`).
pub uninterp spec fn has_uppercase_property(c: char) -> bool;

/// Calls `unicode_general_category::get_general_category` and converts the
/// category to its abbreviation with `GeneralCategory::abbreviation`.  The
/// contract claims only that the result is the (table-defined) abbreviation
/// named `general_category_abbreviation(c)`.
#[verifier::external_body]
fn category_abbreviation_of(c: char) -> (r: String)
    ensures
        r@ == general_category_abbreviation(c),
{
    get_general_category(c).abbreviation().to_owned()
}

/// Calls `unicode_script::UnicodeScript::script` and converts the script to
/// its four-letter name with `Script::short_name`.  The contract claims only
/// that the result is the (table-defined) name `script_short_name(c)`.
#[verifier::external_body]
fn script_short_name_of(c: char) -> (r: String)
    ensures
        r@ == script_short_name(c),
{
    c.script().short_name().to_owned()
}

/// Calls `char::is_uppercase`; the contract claims only that the result is the
/// (table-defined) property `has_uppercase_property(c)`.
#[verifier::external_body]
fn is_uppercase_char(c: char) -> (r: bool)
    ensures
        r == has_uppercase_property(c),
{
    c.is_uppercase()
}

// ---------------------------------------------------------------------------
// General categories that matter for widths and breaks
// ---------------------------------------------------------------------------

/// The general categories that line wrapping distinguishes.
#[derive(Clone, Copy, Debug, PartialEq, Eq, Structural)]
pub enum Category {
    NonspacingMark,
    SpacingMark,
    EnclosingMark,
    Format,
    DecimalNumber,
    LetterNumber,
    OtherNumber,
    ClosePunctuation,
    ConnectorPunctuation,
    DashPunctuation,
    FinalPunctuation,
    InitialPunctuation,
    OpenPunctuation,
    OtherPunctuation,
    UppercaseLetter,
    LowercaseLetter,
    TitlecaseLetter,
    ModifierLetter,
    OtherLetter,
    Other,
}

/// The category that a two-letter abbreviation stands for.
pub open spec fn category_from_abbreviation(a: Seq<char>) -> Category {
    if a == seq!['M', 'n'] {
        Category::NonspacingMark
    } else if a == seq!['M', 'c'] {
        Category::SpacingMark
    } else if a == seq!['M', 'e'] {
        Category::EnclosingMark
    } else if a == seq!['C', 'f'] {
        Category::Format
    } else if a == seq!['N', 'd'] {
        Category::DecimalNumber
    } else if a == seq!['N', 'l'] {
        Category::LetterNumber
    } else if a == seq!['N', 'o'] {
        Category::OtherNumber
    } else if a == seq!['P', 'e'] {
        Category::ClosePunctuation
    } else if a == seq!['P', 'c'] {
        Category::ConnectorPunctuation
    } else if a == seq!['P', 'd'] {
        Category::DashPunctuation
    } else if a == seq!['P', 'f'] {
        Category::FinalPunctuation
    } else if a == seq!['P', 'i'] {
        Category::InitialPunctuation
    } else if a == seq!['P', 's'] {
        Category::OpenPunctuation
    } else if a == seq!['P', 'o'] {
        Category::OtherPunctuation
    } else if a == seq!['L', 'u'] {
        Category::UppercaseLetter
    } else if a == seq!['L', 'l'] {
        Category::LowercaseLetter
    } else if a == seq!['L', 't'] {
        Category::TitlecaseLetter
    } else if a == seq!['L', 'm'] {
        Category::ModifierLetter
    } else if a == seq!['L', 'o'] {
        Category::OtherLetter
    } else {
        Category::Other
    }
}

/// The general category of `c`.
pub open spec fn category(c: char) -> Category {
    category_from_abbreviation(general_category_abbreviation(c))
}

fn abbreviation_is(a: &[char], x: char, y: char) -> (r: bool)
    ensures
        r == (a@ == seq![x, y]),
{
    let r = a.len() == 2 && a[0] == x && a[1] == y;
    proof {
        if r {
            assert(a@ =~= seq![x, y]);
        }
    }
    r
}

/// The general category of `c`.
pub fn category_of(c: char) -> (r: Category)
    ensures
        r == category(c),
{
    let s = category_abbreviation_of(c);
    let a = chars_of(s.as_str());
    let a = a.as_slice();
    if abbreviation_is(a, 'M', 'n') {
        Category::NonspacingMark
    } else if abbreviation_is(a, 'M', 'c') {
        Category::SpacingMark
    } else if abbreviation_is(a, 'M', 'e') {
        Category::EnclosingMark
    } else if abbreviation_is(a, 'C', 'f') {
        Category::Format
    } else if abbreviation_is(a, 'N', 'd') {
        Category::DecimalNumber
    } else if abbreviation_is(a, 'N', 'l') {
        Category::LetterNumber
    } else if abbreviation_is(a, 'N', 'o') {
        Category::OtherNumber
    } else if abbreviation_is(a, 'P', 'e') {
        Category::ClosePunctuation
    } else if abbreviation_is(a, 'P', 'c') {
        Category::ConnectorPunctuation
    } else if abbreviation_is(a, 'P', 'd') {
        Category::DashPunctuation
    } else if abbreviation_is(a, 'P', 'f') {
        Category::FinalPunctuation
    } else if abbreviation_is(a, 'P', 'i') {
        Category::InitialPunctuation
    } else if abbreviation_is(a, 'P', 's') {
        Category::OpenPunctuation
    } else if abbreviation_is(a, 'P', 'o') {
        Category::OtherPunctuation
    } else if abbreviation_is(a, 'L', 'u') {
        Category::UppercaseLetter
    } else if abbreviation_is(a, 'L', 'l') {
        Category::LowercaseLetter
    } else if abbreviation_is(a, 'L', 't') {
        Category::TitlecaseLetter
    } else if abbreviation_is(a, 'L', 'm') {
        Category::ModifierLetter
    } else if abbreviation_is(a, 'L', 'o') {
        Category::OtherLetter
    } else {
        Category::Other
    }
}

/// Marks and format characters, which take no width.
pub open spec fn is_zero_width_category(k: Category) -> bool {
    ||| k == Category::NonspacingMark
    ||| k == Category::SpacingMark
    ||| k == Category::EnclosingMark
    ||| k == Category::Format
}

/// The punctuation categories.
pub open spec fn is_punctuation_category(k: Category) -> bool {
    ||| k == Category::ClosePunctuation
    ||| k == Category::ConnectorPunctuation
    ||| k == Category::DashPunctuation
    ||| k == Category::FinalPunctuation
    ||| k == Category::InitialPunctuation
    ||| k == Category::OpenPunctuation
    ||| k == Category::OtherPunctuation
}

/// The letter categories.
pub open spec fn is_letter_category(k: Category) -> bool {
    ||| k == Category::UppercaseLetter
    ||| k == Category::LowercaseLetter
    ||| k == Category::TitlecaseLetter
    ||| k == Category::ModifierLetter
    ||| k == Category::OtherLetter
}

/// Letters and numbers.
pub open spec fn is_letter_or_number_category(k: Category) -> bool {
    ||| is_letter_category(k)
    ||| k == Category::DecimalNumber
    ||| k == Category::LetterNumber
    ||| k == Category::OtherNumber
}

// ---------------------------------------------------------------------------
// East Asian width
// ---------------------------------------------------------------------------

/// East Asian width classes.
#[derive(Clone, Copy, Debug, PartialEq, Eq, Structural)]
pub enum EastAsianWidth {
    Fullwidth,
    Wide,
    Narrow,
    Ambiguous,
    Neutral,
}

/// Whether `cp` lies in one of the inclusive ranges of `r`.
pub open spec fn in_ranges(cp: u32, r: Seq<(u32, u32)>) -> bool {
    exists|i: int| 0 <= i < r.len() && (#[trigger] r[i]).0 <= cp <= r[i].1
}

/// Whether `cp` lies in one of the inclusive ranges of `r`.
pub fn in_ranges_exec(cp: u32, r: &[(u32, u32)]) -> (b: bool)
    ensures
        b == in_ranges(cp, r@),
{
    let mut i: usize = 0;
    while i < r.len()
        invariant
            i <= r@.len(),
            forall|k: int| 0 <= k < i ==> !((#[trigger] r@[k]).0 <= cp <= r@[k].1),
        decreases r.len() - i,
    {
        let (a, b) = r[i];
        if a <= cp && cp <= b {
            return true;
        }
        i = i + 1;
    }
    false
}

/// The East Asian width class of `c`, by the range tables.
pub open spec fn east_asian_width(c: char) -> EastAsianWidth {
    let cp = c as u32;
    if in_ranges(cp, FULLWIDTH_RANGES@) {
        EastAsianWidth::Fullwidth
    } else if in_ranges(cp, WIDE_RANGES@) {
        EastAsianWidth::Wide
    } else if (0x20 <= cp <= 0x7e) || (0xff61 <= cp <= 0xff9f) {
        EastAsianWidth::Narrow
    } else if in_ranges(cp, AMBIGUOUS_RANGES@) {
        EastAsianWidth::Ambiguous
    } else {
        EastAsianWidth::Neutral
    }
}

/// The East Asian width class of `c`.
pub fn east_asian_width_of(c: char) -> (w: EastAsianWidth)
    ensures
        w == east_asian_width(c),
{
    let cp = c as u32;
    if in_ranges_exec(cp, &FULLWIDTH_RANGES) {
        EastAsianWidth::Fullwidth
    } else if in_ranges_exec(cp, &WIDE_RANGES) {
        EastAsianWidth::Wide
    } else if (0x20 <= cp && cp <= 0x7e) || (0xff61 <= cp && cp <= 0xff9f) {
        EastAsianWidth::Narrow
    } else if in_ranges_exec(cp, &AMBIGUOUS_RANGES) {
        EastAsianWidth::Ambiguous
    } else {
        EastAsianWidth::Neutral
    }
}

/// Whether `c` is fullwidth or wide.
pub open spec fn is_wide(c: char) -> bool {
    east_asian_width(c) == EastAsianWidth::Fullwidth || east_asian_width(c)
        == EastAsianWidth::Wide
}

// ---------------------------------------------------------------------------
// Display width, in hundredths of a fullwidth cell
// ---------------------------------------------------------------------------

/// The estimated display width of `c` in hundredths of a fullwidth cell.
pub open spec fn char_width(c: char) -> u64 {
    let k = category(c);
    if is_zero_width_category(k) {
        0
    } else if c == ' ' || c == '\t' {
        35
    } else if c as u32 >= 0x1f300 {
        200
    } else if is_wide(c) {
        100
    } else if k == Category::DecimalNumber {
        56
    } else if is_punctuation_category(k) {
        if east_asian_width(c) == EastAsianWidth::Narrow {
            45
        } else {
            60
        }
    } else if is_letter_category(k) {
        if script_short_name(c) == seq!['L', 'a', 't', 'n'] {
            if has_uppercase_property(c) {
                62
            } else {
                52
            }
        } else {
            68
        }
    } else if east_asian_width(c) == EastAsianWidth::Ambiguous {
        80
    } else {
        60
    }
}

fn is_latin_script(c: char) -> (r: bool)
    ensures
        r == (script_short_name(c) == seq!['L', 'a', 't', 'n']),
{
    let s = script_short_name_of(c);
    let n = chars_of(s.as_str());
    let r = n.len() == 4 && n[0] == 'L' && n[1] == 'a' && n[2] == 't' && n[3] == 'n';
    proof {
        if r {
            assert(n@ =~= seq!['L', 'a', 't', 'n']);
        }
    }
    r
}

/// The estimated display width of `c`, in hundredths of a fullwidth cell.
pub fn estimate_char_width(c: char) -> (w: u64)
    ensures
        w == char_width(c),
        w <= 200,
{
    let k = category_of(c);
    if k == Category::NonspacingMark || k == Category::SpacingMark || k == Category::EnclosingMark
        || k == Category::Format {
        return 0;
    }
    if c == ' ' || c == '\t' {
        return 35;
    }
    if c as u32 >= 0x1f300 {
        return 200;
    }
    let eaw = east_asian_width_of(c);
    if eaw == EastAsianWidth::Fullwidth || eaw == EastAsianWidth::Wide {
        return 100;
    }
    if k == Category::DecimalNumber {
        56
    } else if k == Category::ClosePunctuation || k == Category::ConnectorPunctuation || k
        == Category::DashPunctuation || k == Category::FinalPunctuation || k
        == Category::InitialPunctuation || k == Category::OpenPunctuation || k
        == Category::OtherPunctuation {
        if eaw == EastAsianWidth::Narrow {
            45
        } else {
            60
        }
    } else if k == Category::UppercaseLetter || k == Category::LowercaseLetter || k
        == Category::TitlecaseLetter || k == Category::ModifierLetter || k
        == Category::OtherLetter {
        if is_latin_script(c) {
            if is_uppercase_char(c) {
                62
            } else {
                52
            }
        } else {
            68
        }
    } else if eaw == EastAsianWidth::Ambiguous {
        80
    } else {
        60
    }
}

// ---------------------------------------------------------------------------
// Break opportunities
// ---------------------------------------------------------------------------

pub const OPENING_PUNCTUATION: [char; 15] = [
    '(', '[', '{', '<', '（', '［', '｛', '〈', '《', '「', '『', '【', '〔', '“', '‘',
];

pub const PREFERRED_BREAK_PUNCTUATION: [char; 10] = [
    '，', '。', ',', '.', '!', '?', '！', '？', '；', '、',
];

pub const FORCE_BREAK_PUNCTUATION: [char; 27] = [
    ',', '.', ';', ':', '!', '?', ')', ']', '}', '/', '-', '–', '—', '，', '。', '．', '、', '；',
    '：', '！', '？', '》', '」', '』', '】', '〕', '）',
];

/// Whether `c` occurs in `set`.
pub fn contains_char(set: &[char], c: char) -> (r: bool)
    ensures
        r == set@.contains(c),
{
    let mut i: usize = 0;
    while i < set.len()
        invariant
            i <= set@.len(),
            forall|k: int| 0 <= k < i ==> set@[k] != c,
        decreases set.len() - i,
    {
        if set[i] == c {
            assert(set@[i as int] == c);
            return true;
        }
        i = i + 1;
    }
    false
}

/// A character after which a line is best broken (sentence punctuation).
pub open spec fn is_preferred_break(c: char) -> bool {
    !OPENING_PUNCTUATION@.contains(c) && PREFERRED_BREAK_PUNCTUATION@.contains(c)
}

/// A character after which a line may be broken, and which must not begin
/// a line (closing and separating punctuation).
pub open spec fn is_force_break(c: char) -> bool {
    !OPENING_PUNCTUATION@.contains(c) && FORCE_BREAK_PUNCTUATION@.contains(c)
}

/// A wide letter or number (CJK ideographs, kana, hangul): a line may be
/// broken after it.
pub open spec fn is_cjk_force_break(c: char) -> bool {
    !OPENING_PUNCTUATION@.contains(c) && is_letter_or_number_category(category(c)) && is_wide(
        c,
    )
}

pub fn is_preferred_break_char(c: char) -> (r: bool)
    ensures
        r == is_preferred_break(c),
{
    !contains_char(&OPENING_PUNCTUATION, c) && contains_char(&PREFERRED_BREAK_PUNCTUATION, c)
}

pub fn is_force_break_char(c: char) -> (r: bool)
    ensures
        r == is_force_break(c),
{
    !contains_char(&OPENING_PUNCTUATION, c) && contains_char(&FORCE_BREAK_PUNCTUATION, c)
}

pub fn is_cjk_force_break_char(c: char) -> (r: bool)
    ensures
        r == is_cjk_force_break(c),
{
    if contains_char(&OPENING_PUNCTUATION, c) {
        return false;
    }
    let k = category_of(c);
    let letter_or_number = k == Category::UppercaseLetter || k == Category::LowercaseLetter || k
        == Category::TitlecaseLetter || k == Category::ModifierLetter || k
        == Category::OtherLetter || k == Category::DecimalNumber || k == Category::LetterNumber
        || k == Category::OtherNumber;
    if !letter_or_number {
        return false;
    }
    let w = east_asian_width_of(c);
    w == EastAsianWidth::Fullwidth || w == EastAsianWidth::Wide
}

// ---------------------------------------------------------------------------
// Range tables
// ---------------------------------------------------------------------------

pub const FULLWIDTH_RANGES: [(u32, u32); 2] = [
    (0xff01, 0xff60),
    (0xffe0, 0xffe6),
];

pub const WIDE_RANGES: [(u32, u32); 55] = [
    (0x1100, 0x115f),
    (0x231a, 0x231b),
    (0x2329, 0x232a),
    (0x23e9, 0x23ec),
    (0x23f0, 0x23f0),
    (0x23f3, 0x23f3),
    (0x25fd, 0x25fe),
    (0x2614, 0x2615),
    (0x2648, 0x2653),
    (0x267f, 0x267f),
    (0x2693, 0x2693),
    (0x26a1, 0x26a1),
    (0x26aa, 0x26ab),
    (0x26bd, 0x26be),
    (0x26c4, 0x26c5),
    (0x26ce, 0x26ce),
    (0x26d4, 0x26d4),
    (0x26ea, 0x26ea),
    (0x26f2, 0x26f3),
    (0x26f5, 0x26f5),
    (0x26fa, 0x26fa),
    (0x26fd, 0x26fd),
    (0x2705, 0x2705),
    (0x270a, 0x270b),
    (0x2728, 0x2728),
    (0x274c, 0x274c),
    (0x274e, 0x274e),
    (0x2753, 0x2755),
    (0x2757, 0x2757),
    (0x2795, 0x2797),
    (0x27b0, 0x27b0),
    (0x27bf, 0x27bf),
    (0x2b1b, 0x2b1c),
    (0x2b50, 0x2b50),
    (0x2b55, 0x2b55),
    (0x2e80, 0x2ffb),
    (0x3000, 0x303e),
    (0x3041, 0x33ff),
    (0x3400, 0x4dbf),
    (0x4e00, 0xa4c6),
    (0xa960, 0xa97c),
    (0xac00, 0xd7a3),
    (0xf900, 0xfaff),
    (0xfe10, 0xfe19),
    (0xfe30, 0xfe6b),
    (0x1f004, 0x1f004),
    (0x1f0cf, 0x1f0cf),
    (0x1f18e, 0x1f18e),
    (0x1f191, 0x1f19a),
    (0x1f200, 0x1f251),
    (0x1f300, 0x1f64f),
    (0x1f680, 0x1f6ff),
    (0x1f900, 0x1f9ff),
    (0x20000, 0x2fffd),
    (0x30000, 0x3fffd),
];

pub const AMBIGUOUS_RANGES: [(u32, u32); 177] = [
    (0x00a1, 0x00a1),
    (0x00a4, 0x00a4),
    (0x00a7, 0x00a8),
    (0x00aa, 0x00aa),
    (0x00ad, 0x00ae),
    (0x00b0, 0x00b4),
    (0x00b6, 0x00ba),
    (0x00bc, 0x00bf),
    (0x00c6, 0x00c6),
    (0x00d0, 0x00d0),
    (0x00d7, 0x00d8),
    (0x00de, 0x00e1),
    (0x00e6, 0x00e6),
    (0x00e8, 0x00ea),
    (0x00ec, 0x00ed),
    (0x00f0, 0x00f0),
    (0x00f2, 0x00f3),
    (0x00f7, 0x00fa),
    (0x00fc, 0x00fc),
    (0x00fe, 0x00fe),
    (0x0101, 0x0101),
    (0x0111, 0x0111),
    (0x0113, 0x0113),
    (0x011b, 0x011b),
    (0x0126, 0x0127),
    (0x012b, 0x012b),
    (0x0131, 0x0133),
    (0x0138, 0x0138),
    (0x013f, 0x0142),
    (0x0144, 0x0144),
    (0x0148, 0x014b),
    (0x014d, 0x014d),
    (0x0152, 0x0153),
    (0x0166, 0x0167),
    (0x016b, 0x016b),
    (0x01ce, 0x01ce),
    (0x01d0, 0x01d0),
    (0x01d2, 0x01d2),
    (0x01d4, 0x01d4),
    (0x01d6, 0x01d6),
    (0x01d8, 0x01d8),
    (0x01da, 0x01da),
    (0x01dc, 0x01dc),
    (0x0251, 0x0251),
    (0x0261, 0x0261),
    (0x02c4, 0x02c4),
    (0x02c7, 0x02c7),
    (0x02c9, 0x02cb),
    (0x02cd, 0x02cd),
    (0x02d0, 0x02d0),
    (0x02d8, 0x02db),
    (0x02dd, 0x02dd),
    (0x02df, 0x02df),
    (0x0300, 0x036f),
    (0x0391, 0x03a1),
    (0x03a3, 0x03a9),
    (0x03b1, 0x03c1),
    (0x03c3, 0x03c9),
    (0x0401, 0x0401),
    (0x0410, 0x044f),
    (0x0451, 0x0451),
    (0x2010, 0x2010),
    (0x2013, 0x2016),
    (0x2018, 0x2019),
    (0x201c, 0x201d),
    (0x2020, 0x2022),
    (0x2024, 0x2027),
    (0x2030, 0x2030),
    (0x2032, 0x2033),
    (0x2035, 0x2035),
    (0x203b, 0x203b),
    (0x203e, 0x203e),
    (0x2074, 0x2074),
    (0x207f, 0x207f),
    (0x2081, 0x2084),
    (0x20ac, 0x20ac),
    (0x2103, 0x2103),
    (0x2105, 0x2105),
    (0x2109, 0x2109),
    (0x2113, 0x2113),
    (0x2116, 0x2116),
    (0x2121, 0x2122),
    (0x2126, 0x2126),
    (0x212b, 0x212b),
    (0x2153, 0x2154),
    (0x215b, 0x215e),
    (0x2160, 0x216b),
    (0x2170, 0x2179),
    (0x2189, 0x2189),
    (0x2190, 0x2199),
    (0x21b8, 0x21b9),
    (0x21d2, 0x21d2),
    (0x21d4, 0x21d4),
    (0x21e7, 0x21e7),
    (0x2200, 0x2200),
    (0x2202, 0x2203),
    (0x2207, 0x2208),
    (0x220b, 0x220b),
    (0x220f, 0x220f),
    (0x2211, 0x2211),
    (0x2215, 0x2215),
    (0x221a, 0x221a),
    (0x221d, 0x2220),
    (0x2223, 0x2223),
    (0x2225, 0x2225),
    (0x2227, 0x222c),
    (0x222e, 0x222e),
    (0x2234, 0x2237),
    (0x223c, 0x223d),
    (0x2248, 0x2248),
    (0x224c, 0x224c),
    (0x2252, 0x2252),
    (0x2260, 0x2261),
    (0x2264, 0x2267),
    (0x226a, 0x226b),
    (0x226e, 0x226f),
    (0x2282, 0x2283),
    (0x2286, 0x2287),
    (0x2295, 0x2295),
    (0x2299, 0x2299),
    (0x22a5, 0x22a5),
    (0x22bf, 0x22bf),
    (0x2312, 0x2312),
    (0x2460, 0x24e9),
    (0x24eb, 0x254b),
    (0x2550, 0x2573),
    (0x2580, 0x258f),
    (0x2592, 0x2595),
    (0x25a0, 0x25a1),
    (0x25a3, 0x25a9),
    (0x25b2, 0x25b3),
    (0x25b6, 0x25b7),
    (0x25bc, 0x25bd),
    (0x25c0, 0x25c1),
    (0x25c6, 0x25c8),
    (0x25cb, 0x25cb),
    (0x25ce, 0x25d1),
    (0x25e2, 0x25e5),
    (0x25ef, 0x25ef),
    (0x2605, 0x2606),
    (0x2609, 0x2609),
    (0x260e, 0x260f),
    (0x261c, 0x261c),
    (0x261e, 0x261e),
    (0x2640, 0x2640),
    (0x2642, 0x2642),
    (0x2660, 0x2661),
    (0x2663, 0x2665),
    (0x2667, 0x266a),
    (0x266c, 0x266d),
    (0x266f, 0x266f),
    (0x269e, 0x269f),
    (0x26bf, 0x26bf),
    (0x26c6, 0x26cd),
    (0x26cf, 0x26d3),
    (0x26d5, 0x26e1),
    (0x26e3, 0x26e3),
    (0x26e8, 0x26e9),
    (0x26eb, 0x26f1),
    (0x26f4, 0x26f4),
    (0x26f6, 0x26f9),
    (0x26fb, 0x26fc),
    (0x26fe, 0x26ff),
    (0x273d, 0x273d),
    (0x2776, 0x277f),
    (0xe000, 0xf8ff),
    (0xfe00, 0xfe0f),
    (0xfffd, 0xfffd),
    (0x1f100, 0x1f10a),
    (0x1f110, 0x1f12d),
    (0x1f130, 0x1f169),
    (0x1f170, 0x1f18d),
    (0x1f18f, 0x1f190),
    (0x1f19b, 0x1f1ac),
    (0xe0100, 0xe01ef),
    (0xf0000, 0xffffd),
    (0x100000, 0x10fffd),
];

} // verus!
