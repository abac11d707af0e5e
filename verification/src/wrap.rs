//! Line wrapping of ASS dialogue text.
//!
//! The text is split into tokens (override tags, explicit line breaks, hard
//! spaces, visible characters and spaces).  Each run of tokens between
//! explicit line breaks is wrapped greedily: as soon as the accumulated
//! display width exceeds the line capacity, the line is broken at the last
//! sentence punctuation, else at the last space or other break opportunity,
//! else just before the character that overflowed; closing punctuation is
//! kept with the line before the break, and spaces at the break are dropped.
//!
//! Widths are counted exactly in hundredths of a fullwidth cell, and the line
//! capacity is the exact ratio `num / den` of fullwidth cells.
use vstd::prelude::*;

use crate::chars::{
    char_width, estimate_char_width, is_cjk_force_break, is_cjk_force_break_char,
    is_force_break, is_force_break_char, is_preferred_break, is_preferred_break_char,
};
use crate::text::{find_char_from, find_from, is_whitespace, is_ws, lemma_find_from, push_all};

verus! {

/// The kinds of token in ASS dialogue text.
#[derive(Clone, Copy, Debug, PartialEq, Eq, Structural)]
pub enum TokenKind {
    /// An override block such as `{\i1}`.
    Tag,
    /// An explicit line break, `\N` or `\n`.
    Newline,
    /// A hard space, `\h`.
    HardSpace,
    /// A visible character, or an escaped character.
    Text,
    /// A whitespace character.
    Space,
}

/// A token of dialogue text: its source characters, display width in
/// hundredths of a fullwidth cell, whether it is visible, and the character
/// that decides break opportunities after it.
pub struct Token {
    pub kind: TokenKind,
    pub raw: Vec<char>,
    pub width: u64,
    pub visible: bool,
    pub break_char: Option<char>,
}

/// The mathematical value of a token.
pub struct TokenModel {
    pub kind: TokenKind,
    pub raw: Seq<char>,
    pub width: u64,
    pub visible: bool,
    pub break_char: Option<char>,
}

impl View for Token {
    type V = TokenModel;

    open spec fn view(&self) -> TokenModel {
        TokenModel {
            kind: self.kind,
            raw: self.raw@,
            width: self.width,
            visible: self.visible,
            break_char: self.break_char,
        }
    }
}

/// The models of a sequence of tokens.
pub open spec fn models(ts: Seq<Token>) -> Seq<TokenModel> {
    ts.map_values(|t: Token| t@)
}

/// A line capacity of `num / den` fullwidth cells.
#[derive(Clone, Copy, Debug, PartialEq, Eq)]
pub struct MaxUnits {
    pub num: u64,
    pub den: u64,
}

/// The explicit line break that wrapping inserts.
pub open spec fn line_break() -> Seq<char> {
    seq!['\\', 'N']
}

// ---------------------------------------------------------------------------
// Tokenizing
// ---------------------------------------------------------------------------

/// The token for one character that is not part of an escape or a tag.
pub open spec fn char_token(c: char) -> TokenModel {
    if is_ws(c) {
        TokenModel { kind: TokenKind::Space, raw: seq![c], width: char_width(c), visible: false, break_char: None }
    } else {
        TokenModel { kind: TokenKind::Text, raw: seq![c], width: char_width(c), visible: true, break_char: Some(c) }
    }
}

/// The token for a backslash escape `\c` other than `\N`, `\n` and `\h`.
pub open spec fn escape_token(c: char) -> TokenModel {
    TokenModel {
        kind: TokenKind::Text,
        raw: seq!['\\', c],
        width: char_width(c),
        visible: !is_ws(c),
        break_char: Some(c),
    }
}

/// The token for the hard space `\h`.
pub open spec fn hard_space_token() -> TokenModel {
    TokenModel { kind: TokenKind::HardSpace, raw: seq!['\\', 'h'], width: 35, visible: false, break_char: None }
}

/// The token for an override tag or explicit line break with source `raw`.
pub open spec fn invisible_token(kind: TokenKind, raw: Seq<char>) -> TokenModel {
    TokenModel { kind, raw, width: 0, visible: false, break_char: None }
}

/// The tokens of dialogue text `s`.  An override tag runs from `{` to the
/// first `}`; a `{` without a closing `}` is an ordinary character.
pub open spec fn tokenize(s: Seq<char>) -> Seq<TokenModel>
    decreases s.len(),
{
    if s.len() == 0 {
        seq![]
    } else if s[0] == '{' && find_from(s, '}', 0) < s.len() {
        let j = find_from(s, '}', 0);
        proof {
            lemma_find_from(s, '}', 0);
        }
        seq![invisible_token(TokenKind::Tag, s.take(j + 1))] + tokenize(s.skip(j + 1))
    } else if s.len() >= 2 && s[0] == '\\' && (s[1] == 'N' || s[1] == 'n') {
        seq![invisible_token(TokenKind::Newline, s.take(2))] + tokenize(s.skip(2))
    } else if s.len() >= 2 && s[0] == '\\' && s[1] == 'h' {
        seq![hard_space_token()] + tokenize(s.skip(2))
    } else if s.len() >= 2 && s[0] == '\\' {
        seq![escape_token(s[1])] + tokenize(s.skip(2))
    } else {
        seq![char_token(s[0])] + tokenize(s.skip(1))
    }
}

proof fn lemma_find_shift(s: Seq<char>, c: char, i: int, k: int)
    requires
        0 <= i <= s.len(),
        0 <= k <= s.len() - i,
    ensures
        find_from(s, c, i + k) == i + find_from(s.skip(i), c, k),
    decreases s.len() - i - k,
{
    if k < s.len() - i {
        assert(s.skip(i)[k] == s[i + k]);
        lemma_find_shift(s, c, i, k + 1);
    }
}

fn char_token_exec(c: char) -> (t: Token)
    ensures
        t@ == char_token(c),
{
    let w = estimate_char_width(c);
    let mut raw: Vec<char> = Vec::new();
    raw.push(c);
    assert(raw@ =~= seq![c]);
    if is_whitespace(c) {
        Token { kind: TokenKind::Space, raw, width: w, visible: false, break_char: None }
    } else {
        Token { kind: TokenKind::Text, raw, width: w, visible: true, break_char: Some(c) }
    }
}

/// The token that starts at `s[i]`, and the index after it.
fn next_token(s: &[char], i: usize) -> (r: (Token, usize))
    requires
        i < s@.len(),
    ensures
        i < r.1 <= s@.len(),
        tokenize(s@.skip(i as int)) == seq![r.0@] + tokenize(s@.skip(r.1 as int)),
{
    let n = s.len();
    let ghost rest = s@.skip(i as int);
    assert(rest.len() > 0);
    assert(rest[0] == s@[i as int]);
    if s[i] == '{' {
        let j = find_char_from(s, '}', i);
        proof {
            lemma_find_shift(s@, '}', i as int, 0);
            lemma_find_from(s@, '}', i as int);
        }
        if j < n {
            let mut raw: Vec<char> = Vec::new();
            push_all(&mut raw, &s[i..j + 1]);
            proof {
                assert(rest.take(j - i + 1) =~= s@.subrange(i as int, j + 1));
                assert(rest.skip(j - i + 1) =~= s@.skip(j + 1));
            }
            return (Token { kind: TokenKind::Tag, raw, width: 0, visible: false, break_char: None }, j + 1);
        }
    }
    if i + 1 < n && s[i] == '\\' {
        let next = s[i + 1];
        proof {
            assert(rest[1] == s@[i + 1]);
            assert(rest.skip(2) =~= s@.skip(i + 2));
        }
        let mut raw: Vec<char> = Vec::new();
        raw.push('\\');
        raw.push(next);
        assert(raw@ =~= seq!['\\', next]);
        if next == 'N' || next == 'n' {
            proof {
                assert(rest.take(2) =~= seq!['\\', next]);
            }
            return (Token { kind: TokenKind::Newline, raw, width: 0, visible: false, break_char: None }, i + 2);
        } else if next == 'h' {
            return (Token { kind: TokenKind::HardSpace, raw, width: 35, visible: false, break_char: None }, i + 2);
        } else {
            let w = estimate_char_width(next);
            let visible = !is_whitespace(next);
            return (Token { kind: TokenKind::Text, raw, width: w, visible, break_char: Some(next) }, i + 2);
        }
    }
    let c = s[i];
    proof {
        assert(rest.skip(1) =~= s@.skip(i + 1));
    }
    (char_token_exec(c), i + 1)
}

/// The tokens of dialogue text `s`.
pub fn tokenize_ass_text(s: &[char]) -> (r: Vec<Token>)
    ensures
        models(r@) == tokenize(s@),
{
    let n = s.len();
    let mut tokens: Vec<Token> = Vec::new();
    let mut i: usize = 0;
    assert(s@.skip(0) == s@);
    assert(models(tokens@) =~= Seq::<TokenModel>::empty());
    assert(models(tokens@) + tokenize(s@) =~= tokenize(s@));
    while i < n
        invariant
            i <= n,
            n == s@.len(),
            models(tokens@) + tokenize(s@.skip(i as int)) == tokenize(s@),
        decreases n - i,
    {
        let ghost before = models(tokens@);
        let (t, j) = next_token(s, i);
        tokens.push(t);
        proof {
            assert(models(tokens@) =~= before + seq![t@]);
            assert(before + (seq![t@] + tokenize(s@.skip(j as int))) =~= models(tokens@) + tokenize(
                s@.skip(j as int),
            ));
        }
        i = j;
    }
    proof {
        assert(s@.skip(n as int) =~= Seq::<char>::empty());
        assert(models(tokens@) + Seq::<TokenModel>::empty() =~= models(tokens@));
    }
    tokens
}

// ---------------------------------------------------------------------------
// Widths, visibility and break opportunities over token ranges
// ---------------------------------------------------------------------------

/// The source characters of `ts[a..b]`, concatenated.
pub open spec fn raw_concat(ts: Seq<TokenModel>, a: int, b: int) -> Seq<char>
    decreases b - a,
{
    if b <= a {
        seq![]
    } else {
        raw_concat(ts, a, b - 1) + ts[b - 1].raw
    }
}

/// The total width of `ts[a..b]`.
pub open spec fn width_sum(ts: Seq<TokenModel>, a: int, b: int) -> nat
    decreases b - a,
{
    if b <= a {
        0
    } else {
        width_sum(ts, a, b - 1) + ts[b - 1].width as nat
    }
}

/// Whether `ts[a..b]` holds a visible token.
pub open spec fn any_visible(ts: Seq<TokenModel>, a: int, b: int) -> bool {
    exists|k: int| a <= k < b && (#[trigger] ts[k]).visible
}

/// Whether a width (in hundredths of a cell) exceeds the capacity `m`.
pub open spec fn exceeds(w: nat, m: MaxUnits) -> bool {
    w * m.den > m.num * 100
}

/// Whether the line `ts[start..=i]` is too wide and holds visible text.
pub open spec fn overflows_at(ts: Seq<TokenModel>, start: int, i: int, m: MaxUnits) -> bool {
    exceeds(width_sum(ts, start, i + 1), m) && any_visible(ts, start, i + 1)
}

/// The first `i >= from` at which the line starting at `start` overflows,
/// or `ts.len()` when it never does.
pub open spec fn first_overflow(ts: Seq<TokenModel>, start: int, from: int, m: MaxUnits) -> int
    decreases ts.len() - from,
{
    if from >= ts.len() {
        ts.len() as int
    } else if overflows_at(ts, start, from, m) {
        from
    } else {
        first_overflow(ts, start, from + 1, m)
    }
}

/// A text token after which a line is best broken.
pub open spec fn preferred_token(t: TokenModel) -> bool {
    &&& t.kind == TokenKind::Text
    &&& t.break_char matches Some(c) && is_preferred_break(c)
}

/// A text token after which a line may be broken.
pub open spec fn breakable_token(t: TokenModel) -> bool {
    &&& t.kind == TokenKind::Text
    &&& t.break_char matches Some(c) && (is_preferred_break(c) || is_force_break(c)
        || is_cjk_force_break(c))
}

/// A closing punctuation token, which must not begin a line.
pub open spec fn closing_token(t: TokenModel) -> bool {
    &&& t.kind == TokenKind::Text
    &&& t.break_char matches Some(c) && is_force_break(c)
}

/// The last preferred break `(split, next)` among `ts[start..j]`.
pub open spec fn last_preferred(ts: Seq<TokenModel>, start: int, j: int) -> Option<(int, int)>
    decreases j - start,
{
    if j <= start {
        None
    } else if preferred_token(ts[j - 1]) {
        Some((j, j))
    } else {
        last_preferred(ts, start, j - 1)
    }
}

/// The last break opportunity `(split, next)` among `ts[start..j]`: a space
/// after visible text (dropped at the break), or after a breakable token.
pub open spec fn last_force(ts: Seq<TokenModel>, start: int, j: int) -> Option<(int, int)>
    decreases j - start,
{
    if j <= start {
        None
    } else if ts[j - 1].kind == TokenKind::Space && any_visible(ts, start, j - 1) {
        Some((j - 1, j))
    } else if breakable_token(ts[j - 1]) {
        Some((j, j))
    } else {
        last_force(ts, start, j - 1)
    }
}

/// A break candidate that ends the line after `start`.
pub open spec fn usable_break(o: Option<(int, int)>, start: int) -> bool {
    o matches Some(x) && x.0 > start
}

/// The pair of a break candidate.
pub open spec fn break_pair(o: Option<(int, int)>) -> (int, int) {
    match o {
        Some(x) => x,
        None => (0, 0),
    }
}

/// Where to break the line `ts[start..=i]` that overflows at `i`.
pub open spec fn choose_break(ts: Seq<TokenModel>, start: int, i: int) -> (int, int) {
    let p = last_preferred(ts, start, i + 1);
    let f = last_force(ts, start, i + 1);
    if usable_break(p, start) {
        break_pair(p)
    } else if usable_break(f, start) {
        break_pair(f)
    } else {
        let s1 = if any_visible(ts, start, i) {
            i
        } else {
            i + 1
        };
        let s2 = if s1 <= start {
            i + 1
        } else {
            s1
        };
        (s2, s2)
    }
}

/// The first index at or after `i` that is not a space.
pub open spec fn skip_spaces(ts: Seq<TokenModel>, i: int) -> int
    decreases ts.len() - i,
{
    if 0 <= i < ts.len() && ts[i].kind == TokenKind::Space {
        skip_spaces(ts, i + 1)
    } else {
        i
    }
}

pub proof fn lemma_skip_spaces(ts: Seq<TokenModel>, i: int)
    requires
        0 <= i <= ts.len(),
    ensures
        i <= skip_spaces(ts, i) <= ts.len(),
        forall|k: int| i <= k < skip_spaces(ts, i) ==> (#[trigger] ts[k]).kind == TokenKind::Space,
        skip_spaces(ts, i) < ts.len() ==> ts[skip_spaces(ts, i)].kind != TokenKind::Space,
    decreases ts.len() - i,
{
    if i < ts.len() && ts[i].kind == TokenKind::Space {
        lemma_skip_spaces(ts, i + 1);
    }
}

/// Moves a break past spaces and closing punctuation that would otherwise
/// begin the next line: returns the end of the line and the start of the
/// next one.
pub open spec fn keep_punctuation(ts: Seq<TokenModel>, split: int, next: int) -> (int, int)
    decreases ts.len() - next,
{
    if 0 <= next <= ts.len() {
        let nx = skip_spaces(ts, next);
        proof {
            lemma_skip_spaces(ts, next);
        }
        if nx < ts.len() && closing_token(ts[nx]) {
            keep_punctuation(ts, nx + 1, nx + 1)
        } else {
            (split, nx)
        }
    } else {
        (split, next)
    }
}

pub proof fn lemma_keep_punctuation(ts: Seq<TokenModel>, split: int, next: int)
    requires
        0 <= split <= next <= ts.len(),
        forall|k: int| split <= k < next ==> (#[trigger] ts[k]).kind == TokenKind::Space,
    ensures
        ({
            let (s, nx) = keep_punctuation(ts, split, next);
            &&& split <= s <= nx <= ts.len()
            &&& next <= nx
            &&& forall|k: int| s <= k < nx ==> (#[trigger] ts[k]).kind == TokenKind::Space
            &&& nx < ts.len() ==> ts[nx].kind != TokenKind::Space && !closing_token(ts[nx])
        }),
    decreases ts.len() - next,
{
    let nx = skip_spaces(ts, next);
    lemma_skip_spaces(ts, next);
    if nx < ts.len() && closing_token(ts[nx]) {
        lemma_keep_punctuation(ts, nx + 1, nx + 1);
    }
}

proof fn lemma_last_preferred(ts: Seq<TokenModel>, start: int, j: int)
    requires
        0 <= start,
        j <= ts.len(),
    ensures
        last_preferred(ts, start, j) matches Some(p) ==> start < p.0 == p.1 <= j,
    decreases j - start,
{
    if j > start && !preferred_token(ts[j - 1]) {
        lemma_last_preferred(ts, start, j - 1);
    }
}

proof fn lemma_last_force(ts: Seq<TokenModel>, start: int, j: int)
    requires
        0 <= start,
        j <= ts.len(),
    ensures
        last_force(ts, start, j) matches Some(p) ==> start < p.0 <= p.1 <= j && (p.0 < p.1
            ==> p.1 == p.0 + 1 && ts[p.0].kind == TokenKind::Space),
    decreases j - start,
{
    if j > start {
        if ts[j - 1].kind == TokenKind::Space && any_visible(ts, start, j - 1) {
            let k = choose|k: int| start <= k < j - 1 && (#[trigger] ts[k]).visible;
        } else if !breakable_token(ts[j - 1]) {
            lemma_last_force(ts, start, j - 1);
        }
    }
}

pub proof fn lemma_choose_break(ts: Seq<TokenModel>, start: int, i: int)
    requires
        0 <= start <= i < ts.len(),
    ensures
        start < choose_break(ts, start, i).0 <= choose_break(ts, start, i).1 <= i + 1,
        forall|k: int|
            choose_break(ts, start, i).0 <= k < choose_break(ts, start, i).1 ==> (#[trigger] ts[k]).kind
                == TokenKind::Space,
{
    lemma_last_preferred(ts, start, i + 1);
    lemma_last_force(ts, start, i + 1);
}

/// The break after the line that starts at `start` and overflows at `i`:
/// the end of the line and the start of the next one.
pub open spec fn break_after(ts: Seq<TokenModel>, start: int, i: int) -> (int, int) {
    let b = choose_break(ts, start, i);
    keep_punctuation(ts, b.0, b.1)
}

pub proof fn lemma_break_after(ts: Seq<TokenModel>, start: int, i: int)
    requires
        0 <= start <= i < ts.len(),
    ensures
        ({
            let (s, nx) = break_after(ts, start, i);
            &&& start < s <= nx <= ts.len()
            &&& forall|k: int| s <= k < nx ==> (#[trigger] ts[k]).kind == TokenKind::Space
            &&& nx < ts.len() ==> ts[nx].kind != TokenKind::Space && !closing_token(ts[nx])
        }),
{
    lemma_choose_break(ts, start, i);
    let b = choose_break(ts, start, i);
    lemma_keep_punctuation(ts, b.0, b.1);
}

pub proof fn lemma_first_overflow(ts: Seq<TokenModel>, start: int, from: int, m: MaxUnits)
    requires
        0 <= from <= ts.len(),
    ensures
        from <= first_overflow(ts, start, from, m) <= ts.len(),
        first_overflow(ts, start, from, m) < ts.len() ==> overflows_at(
            ts,
            start,
            first_overflow(ts, start, from, m),
            m,
        ),
        forall|k: int| from <= k < first_overflow(ts, start, from, m) ==> !overflows_at(ts, start, k, m),
    decreases ts.len() - from,
{
    if from < ts.len() && !overflows_at(ts, start, from, m) {
        lemma_first_overflow(ts, start, from + 1, m);
    }
}

// ---------------------------------------------------------------------------
// Wrapping
// ---------------------------------------------------------------------------

/// The wrapped text of the tokens `ts[start..]`.
pub open spec fn wrap_from(ts: Seq<TokenModel>, start: int, m: MaxUnits) -> Seq<char>
    decreases ts.len() - start,
{
    if start < 0 || start >= ts.len() {
        seq![]
    } else {
        let i = first_overflow(ts, start, start, m);
        proof {
            lemma_first_overflow(ts, start, start, m);
        }
        if i >= ts.len() {
            raw_concat(ts, start, ts.len() as int)
        } else {
            let (s, nx) = break_after(ts, start, i);
            proof {
                lemma_break_after(ts, start, i);
            }
            raw_concat(ts, start, s) + line_break() + wrap_from(ts, nx, m)
        }
    }
}

/// The wrapped text of a run of tokens without explicit line breaks.  An
/// empty run, or a capacity of zero, leaves the text as it is.
pub open spec fn wrap_segment(ts: Seq<TokenModel>, m: MaxUnits) -> Seq<char> {
    if ts.len() == 0 || m.num == 0 {
        raw_concat(ts, 0, ts.len() as int)
    } else {
        wrap_from(ts, 0, m)
    }
}

/// Index of the first explicit line break token, or `ts.len()`.
pub open spec fn first_newline(ts: Seq<TokenModel>, i: int) -> int
    decreases ts.len() - i,
{
    if i >= ts.len() {
        ts.len() as int
    } else if ts[i].kind == TokenKind::Newline {
        i
    } else {
        first_newline(ts, i + 1)
    }
}

pub proof fn lemma_first_newline(ts: Seq<TokenModel>, i: int)
    requires
        0 <= i <= ts.len(),
    ensures
        i <= first_newline(ts, i) <= ts.len(),
        forall|k: int| i <= k < first_newline(ts, i) ==> (#[trigger] ts[k]).kind != TokenKind::Newline,
        first_newline(ts, i) < ts.len() ==> ts[first_newline(ts, i)].kind == TokenKind::Newline,
    decreases ts.len() - i,
{
    if i < ts.len() && ts[i].kind != TokenKind::Newline {
        lemma_first_newline(ts, i + 1);
    }
}

/// Wraps each run between explicit line breaks, keeping the breaks.
pub open spec fn wrap_tokens(ts: Seq<TokenModel>, m: MaxUnits) -> Seq<char>
    decreases ts.len(),
{
    let k = first_newline(ts, 0);
    proof {
        lemma_first_newline(ts, 0);
    }
    if k >= ts.len() {
        wrap_segment(ts, m)
    } else {
        wrap_segment(ts.take(k), m) + ts[k].raw + wrap_tokens(ts.skip(k + 1), m)
    }
}

/// The wrapped form of ASS dialogue text `s` for a line capacity `m`.
pub open spec fn wrap_text(s: Seq<char>, m: MaxUnits) -> Seq<char> {
    wrap_tokens(tokenize(s), m)
}

// ---------------------------------------------------------------------------
// Executable wrapping
// ---------------------------------------------------------------------------

/// Appends the source characters of `tokens[a..b]` to `out`.
fn push_raws(out: &mut Vec<char>, tokens: &[Token], a: usize, b: usize)
    requires
        a <= b <= tokens@.len(),
    ensures
        final(out)@ == old(out)@ + raw_concat(models(tokens@), a as int, b as int),
{
    let ghost ts = models(tokens@);
    let mut k = a;
    while k < b
        invariant
            a <= k <= b <= tokens@.len(),
            ts == models(tokens@),
            out@ == old(out)@ + raw_concat(ts, a as int, k as int),
        decreases b - k,
    {
        push_all(out, tokens[k].raw.as_slice());
        k = k + 1;
    }
}

proof fn lemma_exceeds_threshold(w: nat, num: nat, den: nat)
    requires
        den > 0,
    ensures
        (w * den > num * 100) == (w > (num * 100) / den),
{
    let q = (num * 100) / den;
    let r = (num * 100) % den;
    assert(num * 100 == q * den + r && 0 <= r < den) by (nonlinear_arith)
        requires
            den > 0,
            q == (num * 100) / den,
            r == (num * 100) % den,
    ;
    if w > q {
        assert(w * den >= (q + 1) * den) by (nonlinear_arith)
            requires
                w >= q + 1,
        ;
        assert((q + 1) * den == q * den + den) by (nonlinear_arith);
    } else {
        assert(w * den <= q * den) by (nonlinear_arith)
            requires
                w <= q,
        ;
    }
}

/// Scans the line that starts at `start`: the index at which it first
/// overflows (or `tokens.len()`), and at that index the last preferred break,
/// the last break opportunity, and whether visible text precedes it.
fn scan_line(tokens: &[Token], start: usize, m: MaxUnits) -> (r: (
    usize,
    Option<(usize, usize)>,
    Option<(usize, usize)>,
    bool,
))
    requires
        start < tokens@.len(),
        m.den > 0,
    ensures
        ({
            let ts = models(tokens@);
            let (i, p, f, v) = r;
            &&& i == first_overflow(ts, start as int, start as int, m)
            &&& i < ts.len() ==> {
                &&& (p matches Some(x) ==> last_preferred(ts, start as int, i + 1) == Some(
                    (x.0 as int, x.1 as int),
                ))
                &&& (p is None ==> last_preferred(ts, start as int, i + 1) is None)
                &&& (f matches Some(x) ==> last_force(ts, start as int, i + 1) == Some(
                    (x.0 as int, x.1 as int),
                ))
                &&& (f is None ==> last_force(ts, start as int, i + 1) is None)
                &&& v == any_visible(ts, start as int, i as int)
            }
        }),
{
    let ghost ts = models(tokens@);
    let n = tokens.len();
    let threshold: u128 = (m.num as u128 * 100) / (m.den as u128);
    let mut index = start;
    let mut width: u128 = 0;
    let mut preferred: Option<(usize, usize)> = None;
    let mut force: Option<(usize, usize)> = None;
    let mut visible = false;
    loop
        invariant
            ts == models(tokens@),
            n == tokens@.len(),
            start <= index <= n,
            m.den > 0,
            threshold == ((m.num as nat) * 100) / (m.den as nat),
            width == width_sum(ts, start as int, index as int),
            width <= (index - start) * 0xffff_ffff_ffff_ffffu64,
            preferred matches Some(x) ==> last_preferred(ts, start as int, index as int) == Some(
                (x.0 as int, x.1 as int),
            ),
            preferred is None ==> last_preferred(ts, start as int, index as int) is None,
            force matches Some(x) ==> last_force(ts, start as int, index as int) == Some(
                (x.0 as int, x.1 as int),
            ),
            force is None ==> last_force(ts, start as int, index as int) is None,
            visible == any_visible(ts, start as int, index as int),
            first_overflow(ts, start as int, start as int, m) == first_overflow(
                ts,
                start as int,
                index as int,
                m,
            ),
        decreases n - index,
    {
        if index >= n {
            return (n, preferred, force, visible);
        }
        let t = &tokens[index];
        width = width + t.width as u128;
        match t.kind {
            TokenKind::Space => {
                if visible {
                    force = Some((index, index + 1));
                }
            },
            TokenKind::Text => {
                if let Some(c) = t.break_char {
                    if is_preferred_break_char(c) {
                        preferred = Some((index + 1, index + 1));
                        force = Some((index + 1, index + 1));
                    } else if is_force_break_char(c) || is_cjk_force_break_char(c) {
                        force = Some((index + 1, index + 1));
                    }
                }
            },
            _ => {},
        }
        let visible_through = visible || t.visible;
        proof {
            assert(ts[index as int] == tokens@[index as int]@);
            assert(visible_through == any_visible(ts, start as int, index + 1)) by {
                if t.visible {
                    assert(ts[index as int].visible);
                }
                if any_visible(ts, start as int, index + 1) && !visible {
                    let k = choose|k: int| start <= k < index + 1 && (#[trigger] ts[k]).visible;
                    assert(k == index);
                }
            }
            lemma_exceeds_threshold(width as nat, m.num as nat, m.den as nat);
        }
        if width > threshold && visible_through {
            return (index, preferred, force, visible);
        }
        visible = visible_through;
        index = index + 1;
    }
}

/// The break `(split, next)` for a line that starts at `start` and
/// overflows at `i`, given the scan results at `i`.
fn choose_break_exec(
    tokens: &[Token],
    start: usize,
    i: usize,
    preferred: Option<(usize, usize)>,
    force: Option<(usize, usize)>,
    visible_before: bool,
) -> (r: (usize, usize))
    requires
        start <= i < tokens@.len(),
        preferred matches Some(x) ==> last_preferred(models(tokens@), start as int, i + 1) == Some(
            (x.0 as int, x.1 as int),
        ),
        preferred is None ==> last_preferred(models(tokens@), start as int, i + 1) is None,
        force matches Some(x) ==> last_force(models(tokens@), start as int, i + 1) == Some(
            (x.0 as int, x.1 as int),
        ),
        force is None ==> last_force(models(tokens@), start as int, i + 1) is None,
        visible_before == any_visible(models(tokens@), start as int, i as int),
    ensures
        (r.0 as int, r.1 as int) == choose_break(models(tokens@), start as int, i as int),
{
    let n = tokens.len();
    if let Some((s, nx)) = preferred {
        if s > start {
            return (s, nx);
        }
    }
    if let Some((s, nx)) = force {
        if s > start {
            return (s, nx);
        }
    }
    let s1 = if visible_before {
        i
    } else {
        i + 1
    };
    let s2 = if s1 <= start {
        i + 1
    } else {
        s1
    };
    (s2, s2)
}

/// The index of the first non-space token at or after `i`.
fn skip_leading_spaces(tokens: &[Token], i: usize) -> (r: usize)
    requires
        i <= tokens@.len(),
    ensures
        r == skip_spaces(models(tokens@), i as int),
{
    let ghost ts = models(tokens@);
    let mut j = i;
    while j < tokens.len() && tokens[j].kind == TokenKind::Space
        invariant
            i <= j <= tokens@.len(),
            ts == models(tokens@),
            skip_spaces(ts, i as int) == skip_spaces(ts, j as int),
        decreases tokens.len() - j,
    {
        assert(ts[j as int] == tokens@[j as int]@);
        j = j + 1;
    }
    proof {
        if j < tokens.len() {
            assert(ts[j as int] == tokens@[j as int]@);
        }
    }
    j
}

/// Moves a break past spaces and closing punctuation (see `keep_punctuation`).
fn keep_punctuation_with_previous(tokens: &[Token], split: usize, next: usize) -> (r: (
    usize,
    usize,
))
    requires
        split <= next <= tokens@.len(),
    ensures
        (r.0 as int, r.1 as int) == keep_punctuation(models(tokens@), split as int, next as int),
{
    let ghost ts = models(tokens@);
    let ghost goal = keep_punctuation(ts, split as int, next as int);
    let mut cut = split;
    let mut next_start = skip_leading_spaces(tokens, next);
    proof {
        lemma_skip_spaces(ts, next as int);
    }
    loop
        invariant
            cut <= next_start <= tokens@.len(),
            ts == models(tokens@),
            goal == keep_punctuation(ts, split as int, next as int),
            goal == (if next_start < ts.len() && closing_token(ts[next_start as int]) {
                keep_punctuation(ts, next_start + 1, next_start + 1)
            } else {
                (cut as int, next_start as int)
            }),
        decreases tokens.len() - next_start,
    {
        if next_start >= tokens.len() {
            assert(goal == (cut as int, next_start as int));
            return (cut, next_start);
        }
        let closing = tokens[next_start].kind == TokenKind::Text && match tokens[next_start].break_char {
            Some(c) => is_force_break_char(c),
            None => false,
        };
        assert(ts[next_start as int] == tokens@[next_start as int]@);
        if !closing {
            assert(!closing_token(ts[next_start as int]));
            assert(goal == (cut as int, next_start as int));
            return (cut, next_start);
        }
        cut = next_start + 1;
        next_start = skip_leading_spaces(tokens, cut);
        proof {
            lemma_skip_spaces(ts, cut as int);
        }
    }
}


/// Wraps a run of tokens without explicit line breaks (see `wrap_segment`).
pub fn wrap_segment_exec(tokens: &[Token], m: MaxUnits) -> (r: Vec<char>)
    requires
        m.den > 0,
    ensures
        r@ == wrap_segment(models(tokens@), m),
{
    let ghost ts = models(tokens@);
    let n = tokens.len();
    let mut out: Vec<char> = Vec::new();
    if n == 0 || m.num == 0 {
        push_raws(&mut out, tokens, 0, n);
        return out;
    }
    let mut start: usize = 0;
    assert(out@ + wrap_from(ts, 0, m) =~= wrap_from(ts, 0, m));
    while start < n
        invariant
            ts == models(tokens@),
            n == ts.len(),
            start <= n,
            m.den > 0,
            out@ + wrap_from(ts, start as int, m) == wrap_from(ts, 0, m),
        decreases n - start,
    {
        let ghost before = out@;
        let (i, p, f, v) = scan_line(tokens, start, m);
        proof {
            lemma_first_overflow(ts, start as int, start as int, m);
        }
        if i >= n {
            push_raws(&mut out, tokens, start, n);
            proof {
                assert(wrap_from(ts, n as int, m) == Seq::<char>::empty());
                assert(out@ + wrap_from(ts, n as int, m) =~= before + wrap_from(ts, start as int, m));
            }
            start = n;
        } else {
            let (s0, n0) = choose_break_exec(tokens, start, i, p, f, v);
            proof {
                lemma_choose_break(ts, start as int, i as int);
                lemma_break_after(ts, start as int, i as int);
            }
            let (s, nx) = keep_punctuation_with_previous(tokens, s0, n0);
            push_raws(&mut out, tokens, start, s);
            out.push('\\');
            out.push('N');
            proof {
                assert(out@ =~= before + raw_concat(ts, start as int, s as int) + line_break());
                assert(out@ + wrap_from(ts, nx as int, m) =~= before + wrap_from(ts, start as int, m));
            }
            start = nx;
        }
    }
    out
}

/// The index of the first explicit line break token at or after `from`.
fn next_newline(tokens: &[Token], from: usize) -> (r: usize)
    requires
        from <= tokens@.len(),
    ensures
        r == first_newline(models(tokens@), from as int),
{
    let ghost ts = models(tokens@);
    let mut k = from;
    while k < tokens.len() && tokens[k].kind != TokenKind::Newline
        invariant
            from <= k <= tokens@.len(),
            ts == models(tokens@),
            first_newline(ts, from as int) == first_newline(ts, k as int),
        decreases tokens.len() - k,
    {
        assert(ts[k as int] == tokens@[k as int]@);
        k = k + 1;
    }
    proof {
        if k < tokens.len() {
            assert(ts[k as int] == tokens@[k as int]@);
        }
    }
    k
}

proof fn lemma_first_newline_shift(ts: Seq<TokenModel>, a: int, k: int)
    requires
        0 <= a <= ts.len(),
        0 <= k <= ts.len() - a,
    ensures
        first_newline(ts, a + k) == a + first_newline(ts.skip(a), k),
    decreases ts.len() - a - k,
{
    if k < ts.len() - a {
        assert(ts.skip(a)[k] == ts[a + k]);
        lemma_first_newline_shift(ts, a, k + 1);
    }
}

/// Wraps ASS dialogue text for the line capacity `m` (see `wrap_text`).
pub fn wrap_ass_text(text: &[char], m: MaxUnits) -> (r: Vec<char>)
    requires
        m.den > 0,
    ensures
        r@ == wrap_text(text@, m),
{
    let tokens = tokenize_ass_text(text);
    let ghost all = models(tokens@);
    let n = tokens.len();
    let mut out: Vec<char> = Vec::new();
    let mut seg: usize = 0;
    assert(all.skip(0) == all);
    assert(out@ + wrap_tokens(all, m) =~= wrap_tokens(all, m));
    loop
        invariant
            all == models(tokens@),
            all == tokenize(text@),
            n == all.len(),
            seg <= n,
            m.den > 0,
            out@ + wrap_tokens(all.skip(seg as int), m) == wrap_tokens(all, m),
        decreases n - seg,
    {
        let ghost rest = all.skip(seg as int);
        let ghost before = out@;
        let k = next_newline(tokens.as_slice(), seg);
        proof {
            lemma_first_newline_shift(all, seg as int, 0);
            lemma_first_newline(all, seg as int);
        }
        if k >= n {
            let part = wrap_segment_exec(&tokens.as_slice()[seg..n], m);
            proof {
                assert(models(tokens@.subrange(seg as int, n as int)) =~= rest);
            }
            push_all(&mut out, part.as_slice());
            return out;
        }
        let part = wrap_segment_exec(&tokens.as_slice()[seg..k], m);
        proof {
            assert(models(tokens@.subrange(seg as int, k as int)) =~= rest.take(k - seg));
            assert(rest[k - seg] == tokens@[k as int]@);
            assert(rest.skip(k - seg + 1) =~= all.skip(k + 1));
        }
        push_all(&mut out, part.as_slice());
        push_all(&mut out, tokens[k].raw.as_slice());
        proof {
            assert(out@ + wrap_tokens(all.skip(k + 1), m) =~= before + wrap_tokens(rest, m));
        }
        seg = k + 1;
    }
}

// ---------------------------------------------------------------------------
// Laws of wrapping
// ---------------------------------------------------------------------------

proof fn lemma_raw_concat_cons(t: TokenModel, rest: Seq<TokenModel>, b: int)
    requires
        0 <= b <= rest.len(),
    ensures
        raw_concat(seq![t] + rest, 0, b + 1) == t.raw + raw_concat(rest, 0, b),
    decreases b,
{
    let ts = seq![t] + rest;
    if b == 0 {
        assert(raw_concat(ts, 0, 0) == Seq::<char>::empty());
        assert(raw_concat(ts, 0, 1) == raw_concat(ts, 0, 0) + ts[0].raw);
        assert(t.raw + raw_concat(rest, 0, 0) =~= t.raw);
    } else {
        lemma_raw_concat_cons(t, rest, b - 1);
        assert(ts[b] == rest[b - 1]);
        assert(t.raw + raw_concat(rest, 0, b) =~= t.raw + raw_concat(rest, 0, b - 1) + rest[b - 1].raw);
    }
}

/// Tokenizing loses nothing: the tokens' source characters, in order, are
/// the text.
pub proof fn lemma_tokenize_lossless(s: Seq<char>)
    ensures
        raw_concat(tokenize(s), 0, tokenize(s).len() as int) == s,
    decreases s.len(),
{
    if s.len() > 0 {
        let k: int = if s[0] == '{' && find_from(s, '}', 0) < s.len() {
            lemma_find_from(s, '}', 0);
            find_from(s, '}', 0) + 1
        } else if s.len() >= 2 && s[0] == '\\' {
            2
        } else {
            1
        };
        let rest = tokenize(s.skip(k));
        lemma_tokenize_lossless(s.skip(k));
        let t = tokenize(s)[0];
        assert(tokenize(s) == seq![t] + rest);
        lemma_raw_concat_cons(t, rest, rest.len() as int);
        assert(t.raw == s.take(k));
        assert(s.take(k) + s.skip(k) =~= s);
    }
}

proof fn lemma_width_sum_prefix(ts: Seq<TokenModel>, a: int, b: int, c: int)
    requires
        a <= b <= c,
    ensures
        width_sum(ts, a, b) <= width_sum(ts, a, c),
    decreases c - b,
{
    if b < c {
        lemma_width_sum_prefix(ts, a, b, c - 1);
    }
}

/// Text whose explicit-break-free whole fits the capacity is left as it is.
pub proof fn lemma_fitting_text_unwrapped(s: Seq<char>, m: MaxUnits)
    requires
        forall|k: int| 0 <= k < tokenize(s).len() ==> (#[trigger] tokenize(s)[k]).kind != TokenKind::Newline,
        !exceeds(width_sum(tokenize(s), 0, tokenize(s).len() as int), m),
    ensures
        wrap_text(s, m) == s,
{
    let ts = tokenize(s);
    let n = ts.len() as int;
    lemma_tokenize_lossless(s);
    lemma_first_newline(ts, 0);
    assert(first_newline(ts, 0) == n);
    if n > 0 && m.num != 0 {
        lemma_first_overflow(ts, 0, 0, m);
        let i = first_overflow(ts, 0, 0, m);
        if i < n {
            lemma_width_sum_prefix(ts, 0, i + 1, n);
            let w1 = width_sum(ts, 0, i + 1);
            let w2 = width_sum(ts, 0, n);
            assert(w1 * m.den <= w2 * m.den) by (nonlinear_arith)
                requires
                    w1 <= w2,
            ;
            assert(false);
        }
    }
}

/// The shape of a token: its source is never empty; an explicit line
/// break is `\N` or `\n`; a hard space is `\h`; an override tag runs from
/// `{` to the first `}`; a space is one whitespace character.
pub open spec fn token_shape(t: TokenModel) -> bool {
    &&& t.raw.len() > 0
    &&& t.kind == TokenKind::Newline ==> t.raw == seq!['\\', 'N'] || t.raw == seq!['\\', 'n']
    &&& t.kind == TokenKind::HardSpace ==> t.raw == seq!['\\', 'h']
    &&& t.kind == TokenKind::Tag ==> {
        &&& t.raw.len() >= 2
        &&& t.raw[0] == '{'
        &&& t.raw.last() == '}'
        &&& forall|j: int| 0 <= j < t.raw.len() - 1 ==> #[trigger] t.raw[j] != '}'
    }
    &&& t.kind == TokenKind::Space ==> t.raw.len() == 1 && is_ws(t.raw[0])
}

/// Every token of a text has its shape (see `token_shape`).
pub proof fn lemma_token_shapes(s: Seq<char>)
    ensures
        forall|k: int| 0 <= k < tokenize(s).len() ==> token_shape(#[trigger] tokenize(s)[k]),
    decreases s.len(),
{
    if s.len() > 0 {
        let k: int = if s[0] == '{' && find_from(s, '}', 0) < s.len() {
            lemma_find_from(s, '}', 0);
            find_from(s, '}', 0) + 1
        } else if s.len() >= 2 && s[0] == '\\' {
            2
        } else {
            1
        };
        lemma_tokenize_lossless(s);
        lemma_token_shapes(s.skip(k));
        let rest = tokenize(s.skip(k));
        let t = tokenize(s)[0];
        assert(tokenize(s) == seq![t] + rest);
        if s[0] == '{' && find_from(s, '}', 0) < s.len() {
            let j = find_from(s, '}', 0);
            assert(t.raw == s.take(j + 1));
            assert(j > 0);
            assert forall|i: int| 0 <= i < t.raw.len() - 1 implies #[trigger] t.raw[i] != '}' by {
                assert(t.raw[i] == s[i]);
            }
        }
        if s[0] == '{' && find_from(s, '}', 0) < s.len() {
            let j = find_from(s, '}', 0);
            assert(t.raw.last() == s[j]);
        } else if s.len() >= 2 && s[0] == '\\' && (s[1] == 'N' || s[1] == 'n') {
            assert(t.raw == s.take(2));
            assert(s.take(2) =~= seq!['\\', s[1]]);
        } else if s.len() >= 2 && s[0] == '\\' {
        } else {
            assert(t == char_token(s[0]));
        }
        assert(token_shape(t));
        assert forall|i: int| 0 <= i < tokenize(s).len() implies token_shape(#[trigger] tokenize(s)[i]) by {
            if i > 0 {
                assert(tokenize(s)[i] == rest[i - 1]);
            }
        }
    }
}

/// The breaks that wrapping makes in `ts[start..]`: for each line after the
/// first, where the previous line ends and where the new one starts.
pub open spec fn wrap_breaks(ts: Seq<TokenModel>, start: int, m: MaxUnits) -> Seq<(int, int)>
    decreases ts.len() - start,
{
    if start < 0 || start >= ts.len() {
        seq![]
    } else {
        let i = first_overflow(ts, start, start, m);
        proof {
            lemma_first_overflow(ts, start, start, m);
        }
        if i >= ts.len() {
            seq![]
        } else {
            let (s, nx) = break_after(ts, start, i);
            proof {
                lemma_break_after(ts, start, i);
            }
            seq![(s, nx)] + wrap_breaks(ts, nx, m)
        }
    }
}

/// The tokens `ts[start..]` cut at the breaks `bs`: the source of each line,
/// with `\N` between lines and the tokens between a line's end and the
/// next line's start left out.
pub open spec fn cut_at(ts: Seq<TokenModel>, start: int, bs: Seq<(int, int)>) -> Seq<char>
    decreases bs.len(),
{
    if bs.len() == 0 {
        raw_concat(ts, start, ts.len() as int)
    } else {
        raw_concat(ts, start, bs[0].0) + line_break() + cut_at(ts, bs[0].1, bs.drop_first())
    }
}

/// Whether the breaks `bs` of `ts[start..]` move forward and leave out only
/// spaces.
pub open spec fn breaks_drop_only_spaces(ts: Seq<TokenModel>, start: int, bs: Seq<(int, int)>) -> bool
    decreases bs.len(),
{
    bs.len() == 0 || {
        &&& start < bs[0].0 <= bs[0].1 <= ts.len()
        &&& forall|k: int| bs[0].0 <= k < bs[0].1 ==> (#[trigger] ts[k]).kind == TokenKind::Space
        &&& breaks_drop_only_spaces(ts, bs[0].1, bs.drop_first())
    }
}

/// Wrapping only inserts line breaks: the wrapped text of `ts[start..]` is
/// its source cut into lines at forward-moving breaks, with `\N` between the
/// lines and only spaces left out at each break.
pub proof fn lemma_wrap_only_inserts_breaks(ts: Seq<TokenModel>, start: int, m: MaxUnits)
    requires
        0 <= start,
    ensures
        wrap_from(ts, start, m) == cut_at(ts, start, wrap_breaks(ts, start, m)),
        breaks_drop_only_spaces(ts, start, wrap_breaks(ts, start, m)),
    decreases ts.len() - start,
{
    if start < ts.len() {
        let i = first_overflow(ts, start, start, m);
        lemma_first_overflow(ts, start, start, m);
        if i < ts.len() {
            let (s, nx) = break_after(ts, start, i);
            lemma_break_after(ts, start, i);
            lemma_wrap_only_inserts_breaks(ts, nx, m);
            let bs = wrap_breaks(ts, start, m);
            assert(bs == seq![(s, nx)] + wrap_breaks(ts, nx, m));
            assert(bs.drop_first() == wrap_breaks(ts, nx, m));
        }
    }
}

/// The same for a run of tokens without explicit breaks: an empty run or a
/// zero capacity is left as it is, and otherwise only line breaks are
/// inserted, at forward-moving breaks that leave out only spaces.
pub proof fn lemma_segment_only_inserts_breaks(ts: Seq<TokenModel>, m: MaxUnits)
    ensures
        ts.len() == 0 || m.num == 0 ==> wrap_segment(ts, m) == raw_concat(ts, 0, ts.len() as int),
        ts.len() > 0 && m.num != 0 ==> {
            &&& wrap_segment(ts, m) == cut_at(ts, 0, wrap_breaks(ts, 0, m))
            &&& breaks_drop_only_spaces(ts, 0, wrap_breaks(ts, 0, m))
        },
{
    lemma_wrap_only_inserts_breaks(ts, 0, m);
}

/// Whether the line `ts[start..j]` can end at split `s`: before a space that
/// follows visible text of the line (the space is dropped), or after a
/// breakable text token.
pub open spec fn break_opportunity(ts: Seq<TokenModel>, start: int, j: int, s: int) -> bool {
    ||| (start <= s < j && ts[s].kind == TokenKind::Space && any_visible(ts, start, s))
    ||| (start < s <= j && breakable_token(ts[s - 1]))
}

/// Whether the line `ts[start..j]` can end at split `s` after sentence
/// punctuation.
pub open spec fn preferred_opportunity(ts: Seq<TokenModel>, start: int, j: int, s: int) -> bool {
    start < s <= j && preferred_token(ts[s - 1])
}

proof fn lemma_last_force_is_last(ts: Seq<TokenModel>, start: int, j: int)
    requires
        0 <= start,
        j <= ts.len(),
    ensures
        last_force(ts, start, j) is None ==> forall|s: int| !#[trigger] break_opportunity(ts, start, j, s),
        last_force(ts, start, j) matches Some(p) ==> break_opportunity(ts, start, j, p.0) && forall|s: int|
            #[trigger] break_opportunity(ts, start, j, s) ==> s <= p.0,
    decreases j - start,
{
    if j > start {
        if ts[j - 1].kind == TokenKind::Space && any_visible(ts, start, j - 1) {
        } else if breakable_token(ts[j - 1]) {
        } else {
            lemma_last_force_is_last(ts, start, j - 1);
            assert forall|s: int| #[trigger] break_opportunity(ts, start, j, s) implies break_opportunity(
                ts,
                start,
                j - 1,
                s,
            ) by {}
        }
    }
}

proof fn lemma_last_preferred_is_last(ts: Seq<TokenModel>, start: int, j: int)
    requires
        0 <= start,
        j <= ts.len(),
    ensures
        last_preferred(ts, start, j) is None ==> forall|s: int| !#[trigger] preferred_opportunity(ts, start, j, s),
        last_preferred(ts, start, j) matches Some(p) ==> preferred_opportunity(ts, start, j, p.0) && forall|s: int|
            #[trigger] preferred_opportunity(ts, start, j, s) ==> s <= p.0,
    decreases j - start,
{
    if j > start && !preferred_token(ts[j - 1]) {
        lemma_last_preferred_is_last(ts, start, j - 1);
        assert forall|s: int| #[trigger] preferred_opportunity(ts, start, j, s) implies preferred_opportunity(
            ts,
            start,
            j - 1,
            s,
        ) by {}
    }
}

/// A line that overflows at `i` is filled greedily: it ends at the last
/// sentence-punctuation break up to and with the overflowing token; without
/// one, at the last break opportunity there; without any, right before the
/// overflowing token when visible text precedes it (else right after it).
pub proof fn lemma_break_is_last_opportunity(ts: Seq<TokenModel>, start: int, i: int)
    requires
        0 <= start <= i < ts.len(),
    ensures
        ({
            let b = choose_break(ts, start, i);
            &&& (exists|s: int| #[trigger] preferred_opportunity(ts, start, i + 1, s)) ==> {
                &&& preferred_opportunity(ts, start, i + 1, b.0)
                &&& forall|s: int| #[trigger] preferred_opportunity(ts, start, i + 1, s) ==> s <= b.0
            }
            &&& (!exists|s: int| #[trigger] preferred_opportunity(ts, start, i + 1, s)) && (exists|s: int|
                #[trigger] break_opportunity(ts, start, i + 1, s)) ==> {
                &&& break_opportunity(ts, start, i + 1, b.0)
                &&& forall|s: int| #[trigger] break_opportunity(ts, start, i + 1, s) ==> s <= b.0
            }
            &&& (!exists|s: int| #[trigger] preferred_opportunity(ts, start, i + 1, s)) && (!exists|s: int|
                #[trigger] break_opportunity(ts, start, i + 1, s)) ==> b.0 == (if any_visible(ts, start, i) {
                i
            } else {
                i + 1
            })
        }),
{
    lemma_last_preferred_is_last(ts, start, i + 1);
    lemma_last_force_is_last(ts, start, i + 1);
    lemma_last_preferred(ts, start, i + 1);
    lemma_last_force(ts, start, i + 1);
    if any_visible(ts, start, i) {
        let k = choose|k: int| start <= k < i && (#[trigger] ts[k]).visible;
    }
}

/// Moving a break past closing punctuation keeps only spaces and closing
/// punctuation with the line.
proof fn lemma_keep_punctuation_keeps_closing(ts: Seq<TokenModel>, split: int, next: int)
    requires
        0 <= split <= next <= ts.len(),
        forall|k: int| split <= k < next ==> (#[trigger] ts[k]).kind == TokenKind::Space,
    ensures
        forall|k: int|
            split <= k < keep_punctuation(ts, split, next).0 ==> (#[trigger] ts[k]).kind == TokenKind::Space
                || closing_token(ts[k]),
    decreases ts.len() - next,
{
    let nx = skip_spaces(ts, next);
    lemma_skip_spaces(ts, next);
    if nx < ts.len() && closing_token(ts[nx]) {
        lemma_keep_punctuation_keeps_closing(ts, nx + 1, nx + 1);
    }
}

/// Wrapping fills each line greedily: the first line of `ts[start..]` that
/// overflows at `i` ends no earlier than the last break opportunity up to
/// and with the overflowing token (the last sentence-punctuation break when
/// there is one), and nothing before `i` overflows; past the chosen break,
/// which lies at most right after the overflowing token, the line keeps
/// only spaces and closing punctuation.
pub proof fn lemma_lines_filled_greedily(ts: Seq<TokenModel>, start: int, m: MaxUnits)
    requires
        0 <= start < ts.len(),
        first_overflow(ts, start, start, m) < ts.len(),
    ensures
        ({
            let i = first_overflow(ts, start, start, m);
            let line_end = wrap_breaks(ts, start, m)[0].0;
            &&& wrap_breaks(ts, start, m).len() >= 1
            &&& overflows_at(ts, start, i, m)
            &&& forall|k: int| start <= k < i ==> !overflows_at(ts, start, k, m)
            &&& forall|s: int| #[trigger] preferred_opportunity(ts, start, i + 1, s) ==> s <= line_end
            &&& (!exists|s: int| #[trigger] preferred_opportunity(ts, start, i + 1, s)) ==> forall|s: int|
                #[trigger] break_opportunity(ts, start, i + 1, s) ==> s <= line_end
            &&& start < choose_break(ts, start, i).0 <= line_end
            &&& choose_break(ts, start, i).0 <= i + 1
            &&& forall|k: int|
                choose_break(ts, start, i).0 <= k < line_end ==> (#[trigger] ts[k]).kind == TokenKind::Space
                    || closing_token(ts[k])
        }),
{
    let i = first_overflow(ts, start, start, m);
    lemma_first_overflow(ts, start, start, m);
    lemma_break_is_last_opportunity(ts, start, i);
    lemma_choose_break(ts, start, i);
    let b = choose_break(ts, start, i);
    lemma_keep_punctuation(ts, b.0, b.1);
    lemma_keep_punctuation_keeps_closing(ts, b.0, b.1);
    let (s, nx) = break_after(ts, start, i);
    lemma_break_after(ts, start, i);
    assert(wrap_breaks(ts, start, m) == seq![(s, nx)] + wrap_breaks(ts, nx, m));
}

} // verus!
