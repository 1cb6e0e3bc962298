//! ANSI-escape-aware text pipeline: a width-aware line wrapper that treats
//! escape sequences as zero-width, and a parser that turns SGR-colored text
//! into styled runs.

use vstd::prelude::*;

use crate::strutil::first_at_or_after;
use crate::strutil::chars_of;
use crate::strutil::string_of_range;

verus! {

/// Whether the wrapper's scanner stands inside an escape sequence after
/// reading the first `i` characters: an `ESC` opens a sequence and the next
/// `m` closes it.
pub open spec fn esc_state_after(s: Seq<char>, i: int) -> bool
    decreases i,
{
    if i <= 0 {
        false
    } else {
        let prev = esc_state_after(s, i - 1);
        let c = s[i - 1];
        if c == '\u{1b}' {
            true
        } else if prev && c == 'm' {
            false
        } else {
            prev
        }
    }
}

/// Whether the character at `i` counts toward the visible width: characters
/// inside an escape sequence, and the `ESC` that opens one, do not.
pub open spec fn is_visible(s: Seq<char>, i: int) -> bool {
    s[i] != '\u{1b}' && !esc_state_after(s, i)
}

/// How many of the first `i` characters are visible.
pub open spec fn vcount(s: Seq<char>, i: int) -> int
    decreases i,
{
    if i <= 0 {
        0
    } else {
        vcount(s, i - 1) + if is_visible(s, i - 1) {
            1int
        } else {
            0int
        }
    }
}

/// The position just after the `w`-th visible character, scanning from `i`
/// with `cnt` visible characters already seen; the length if the count is
/// never reached.
pub open spec fn spec_break_pos(s: Seq<char>, w: int, i: int, cnt: int) -> int
    decreases s.len() - i,
{
    if i < 0 || i >= s.len() {
        s.len() as int
    } else if is_visible(s, i) && cnt + 1 == w {
        i + 1
    } else {
        spec_break_pos(s, w, i + 1, cnt + if is_visible(s, i) {
            1int
        } else {
            0int
        })
    }
}

/// Wrapping of the remainder of an over-long line: a remainder with nothing
/// visible is dropped, one whose visible width fits stays whole, and otherwise
/// a segment ending right after the `w`-th visible character is cut off.
pub open spec fn spec_wrap_rest(s: Seq<char>, w: int) -> Seq<Seq<char>>
    decreases s.len(),
{
    if vcount(s, s.len() as int) == 0 {
        Seq::empty()
    } else if vcount(s, s.len() as int) < w {
        seq![s]
    } else {
        let bp0 = spec_break_pos(s, w, 0, 0);
        let bp = if bp0 < 1 {
            1
        } else if bp0 > s.len() {
            s.len() as int
        } else {
            bp0
        };
        seq![s.subrange(0, bp)] + spec_wrap_rest(s.subrange(bp, s.len() as int), w)
    }
}

/// Wrapping of one newline-free line: a line no longer than the width passes
/// through unchanged, a longer one is cut after every `w`-th visible
/// character.
pub open spec fn spec_wrap_piece(s: Seq<char>, w: int) -> Seq<Seq<char>> {
    if w <= 0 || s.len() <= w {
        seq![s]
    } else {
        spec_wrap_rest(s, w)
    }
}

/// The line split on explicit newlines, a trailing newline yielding no empty
/// final piece.
pub open spec fn spec_split_newlines(s: Seq<char>) -> Seq<Seq<char>>
    decreases s.len(),
{
    if s.len() == 0 {
        Seq::empty()
    } else {
        let e = first_at_or_after(s, 0, '\n');
        if e < 0 || e >= s.len() {
            seq![s]
        } else {
            seq![s.subrange(0, e)] + spec_split_newlines(s.subrange(e + 1, s.len() as int))
        }
    }
}

pub open spec fn spec_wrap_pieces(pieces: Seq<Seq<char>>, w: int) -> Seq<Seq<char>>
    decreases pieces.len(),
{
    if pieces.len() == 0 {
        Seq::empty()
    } else {
        spec_wrap_pieces(pieces.drop_last(), w) + spec_wrap_piece(pieces.last(), w)
    }
}

/// The wrapping of one input string: an empty string gives one empty output
/// line; otherwise each newline-separated piece is wrapped in turn.
pub open spec fn spec_wrap_line(s: Seq<char>, w: int) -> Seq<Seq<char>> {
    if s.len() == 0 {
        seq![Seq::<char>::empty()]
    } else {
        spec_wrap_pieces(spec_split_newlines(s), w)
    }
}

pub open spec fn spec_wrap(lines: Seq<Seq<char>>, w: int) -> Seq<Seq<char>>
    decreases lines.len(),
{
    if lines.len() == 0 {
        Seq::empty()
    } else {
        spec_wrap(lines.drop_last(), w) + spec_wrap_line(lines.last(), w)
    }
}

/// The search result lies between its start and the length.
proof fn lemma_first_bounds(s: Seq<char>, a: int, c: char)
    requires
        0 <= a <= s.len(),
    ensures
        a <= first_at_or_after(s, a, c) <= s.len(),
    decreases s.len() - a,
{
    if a < s.len() && s[a] != c {
        lemma_first_bounds(s, a + 1, c);
    }
}

proof fn lemma_vcount_mono(s: Seq<char>, i: int, j: int)
    requires
        i <= j,
    ensures
        vcount(s, i) <= vcount(s, j),
    decreases j - i,
{
    if i < j {
        lemma_vcount_mono(s, i, j - 1);
    }
}

/// Wraps one over-long remainder: appends to `out` the strings that
/// `spec_wrap_rest` of `cs[from..to]` describes.
fn wrap_rest_into(cs: &Vec<char>, from: usize, to: usize, width: usize, out: &mut Vec<String>)
    requires
        from <= to <= cs@.len(),
        width >= 1,
    ensures
        final(out)@.len() >= old(out)@.len(),
        final(out)@.map_values(|x: String| x@) == old(out)@.map_values(|x: String| x@)
            + spec_wrap_rest(cs@.subrange(from as int, to as int), width as int),
    decreases to - from,
{
    let ghost rem = cs@.subrange(from as int, to as int);
    let ghost pre_views = out@.map_values(|x: String| x@);
    // scan for the width-th visible character
    let mut i: usize = from;
    let mut cnt: usize = 0;
    let mut st: bool = false;
    let mut brk: usize = to;
    let mut found: bool = false;
    while i < to && !found
        invariant
            from <= i <= to <= cs@.len(),
            rem == cs@.subrange(from as int, to as int),
            width >= 1,
            !found ==> {
                &&& st == esc_state_after(rem, i - from)
                &&& cnt == vcount(rem, i - from)
                &&& cnt < width
                &&& spec_break_pos(rem, width as int, 0, 0) == spec_break_pos(
                    rem,
                    width as int,
                    i - from,
                    cnt as int,
                )
            },
            found ==> {
                &&& from < brk <= to
                &&& brk - from == spec_break_pos(rem, width as int, 0, 0)
                &&& cnt == width
                &&& cnt == vcount(rem, brk - from)
            },
        decreases to - i,
    {
        let c = cs[i];
        proof {
            assert(rem[i - from] == cs@[i as int]);
        }
        if c == '\u{1b}' {
            st = true;
        } else if st && c == 'm' {
            st = false;
        } else if !st {
            cnt = cnt + 1;
            if cnt == width {
                brk = i + 1;
                found = true;
            }
        }
        i = i + 1;
    }
    if !found {
        // the whole remainder fits, or nothing in it is visible
        proof {
            assert(cnt == vcount(rem, rem.len() as int));
        }
        if cnt > 0 {
            let piece = string_of_range(cs, from, to);
            let ghost pv = out@.map_values(|x: String| x@);
            out.push(piece);
            proof {
                assert(out@.map_values(|x: String| x@) =~= pv + seq![rem]);
                assert(spec_wrap_rest(rem, width as int) == seq![rem]);
            }
        } else {
            proof {
                assert(spec_wrap_rest(rem, width as int) =~= Seq::<Seq<char>>::empty());
                assert(out@.map_values(|x: String| x@) =~= pre_views + Seq::<
                    Seq<char>,
                >::empty());
            }
        }
    } else {
        let piece = string_of_range(cs, from, brk);
        let ghost pv = out@.map_values(|x: String| x@);
        out.push(piece);
        proof {
            assert(rem.subrange(0, brk - from) =~= cs@.subrange(from as int, brk as int));
            assert(out@.map_values(|x: String| x@) =~= pv + seq![rem.subrange(0, brk - from)]);
            lemma_vcount_mono(rem, brk - from, rem.len() as int);
            assert(vcount(rem, rem.len() as int) >= width);
        }
        wrap_rest_into(cs, brk, to, width, out);
        proof {
            let bp0 = spec_break_pos(rem, width as int, 0, 0);
            assert(bp0 == brk - from);
            assert(rem.subrange(brk - from, rem.len() as int) =~= cs@.subrange(
                brk as int,
                to as int,
            ));
            assert(rem.subrange(0, brk - from) =~= cs@.subrange(from as int, brk as int));
            assert(final(out)@.map_values(|x: String| x@) =~= pre_views + spec_wrap_rest(
                rem,
                width as int,
            ));
        }
    }
}

/// Wraps one newline-free piece `cs[from..to]` into `out`.
fn wrap_piece_into(cs: &Vec<char>, from: usize, to: usize, width: usize, out: &mut Vec<String>)
    requires
        from <= to <= cs@.len(),
    ensures
        final(out)@.map_values(|x: String| x@) == old(out)@.map_values(|x: String| x@)
            + spec_wrap_piece(cs@.subrange(from as int, to as int), width as int),
{
    let ghost piece = cs@.subrange(from as int, to as int);
    if width == 0 || to - from <= width {
        let s = string_of_range(cs, from, to);
        let ghost pv = out@.map_values(|x: String| x@);
        out.push(s);
        proof {
            assert(out@.map_values(|x: String| x@) =~= pv + seq![piece]);
        }
    } else {
        wrap_rest_into(cs, from, to, width, out);
    }
}

/// Wraps one input string: splits it on newlines, then cuts each piece after
/// every `width`-th visible character; escape sequences count as zero width
/// and are never split. An empty input yields one empty output line.
pub fn wrap_line(text: &String, width: usize) -> (r: Vec<String>)
    ensures
        r@.map_values(|x: String| x@) == spec_wrap_line(text@, width as int),
{
    let cs = chars_of(text.as_str());
    let mut out: Vec<String> = Vec::new();
    if cs.len() == 0 {
        out.push(String::new());
        proof {
            assert(out@.map_values(|x: String| x@) =~= seq![Seq::<char>::empty()]);
        }
        return out;
    }
    let n = cs.len();
    proof {
        assert(cs@.subrange(0, n as int) =~= cs@);
        assert(Seq::<Seq<char>>::empty() + spec_wrap_pieces(
            spec_split_newlines(cs@),
            width as int,
        ) =~= spec_wrap_pieces(spec_split_newlines(cs@), width as int));
    }
    let mut a: usize = 0;
    while a < n
        invariant
            cs@ == text@,
            n == cs@.len(),
            a <= n,
            n > 0,
            spec_wrap_pieces(spec_split_newlines(cs@), width as int) == out@.map_values(
                |x: String| x@,
            ) + (if a < n {
                spec_wrap_pieces(spec_split_newlines(cs@.subrange(a as int, n as int)), width as int)
            } else {
                Seq::<Seq<char>>::empty()
            }),
        decreases n - a,
    {
        let e = crate::strutil::find_char_from(&cs, a, '\n');
        let ghost sub = cs@.subrange(a as int, n as int);
        proof {
            lemma_first_step(cs@, a as int, '\n');
            assert(e - a == first_at_or_after(sub, 0, '\n'));
        }
        wrap_piece_into(&cs, a, e, width, &mut out);
        proof {
            assert(sub.subrange(0, e - a) =~= cs@.subrange(a as int, e as int));
            if e < n {
                assert(sub.subrange(e - a + 1, sub.len() as int) =~= cs@.subrange(
                    e + 1,
                    n as int,
                ));
                lemma_wrap_pieces_first(sub, width as int);
            } else {
                assert(sub.subrange(0, e - a) =~= sub);
                lemma_wrap_pieces_single(sub, width as int);
            }
        }
        if e < n {
            a = e + 1;
        } else {
            a = n;
        }
    }
    proof {
        assert(out@.map_values(|x: String| x@) + Seq::<Seq<char>>::empty() =~= out@.map_values(
            |x: String| x@,
        ));
    }
    out
}

/// Searching from `a` equals searching the suffix that starts at `a` from
/// its own start, shifted back.
proof fn lemma_first_step(s: Seq<char>, a: int, c: char)
    requires
        0 <= a <= s.len(),
    ensures
        first_at_or_after(s, a, c) == first_at_or_after(s.subrange(a, s.len() as int), 0, c) + a,
    decreases s.len() - a,
{
    let sub = s.subrange(a, s.len() as int);
    if a < s.len() {
        if s[a] == c {
        } else {
            lemma_first_step(s, a + 1, c);
            let sub2 = s.subrange(a + 1, s.len() as int);
            assert(sub2 =~= sub.subrange(1, sub.len() as int));
            lemma_first_step(sub, 1, c);
        }
    }
}

/// Unfolds `spec_wrap_pieces` over a split whose first piece is followed by
/// more: the first piece's wrapping comes first.
proof fn lemma_wrap_pieces_first(s: Seq<char>, w: int)
    requires
        s.len() > 0,
        first_at_or_after(s, 0, '\n') < s.len(),
    ensures
        spec_wrap_pieces(spec_split_newlines(s), w) =~= spec_wrap_piece(
            s.subrange(0, first_at_or_after(s, 0, '\n')),
            w,
        ) + spec_wrap_pieces(
            spec_split_newlines(s.subrange(first_at_or_after(s, 0, '\n') + 1, s.len() as int)),
            w,
        ),
{
    let e = first_at_or_after(s, 0, '\n');
    lemma_first_bounds(s, 0, '\n');
    let head = s.subrange(0, e);
    let tail = spec_split_newlines(s.subrange(e + 1, s.len() as int));
    assert(spec_split_newlines(s) == seq![head] + tail);
    lemma_wrap_pieces_prepend(head, tail, w);
}

/// A single piece wraps to its own wrapping.
proof fn lemma_wrap_pieces_single(s: Seq<char>, w: int)
    requires
        s.len() > 0,
        first_at_or_after(s, 0, '\n') >= s.len(),
    ensures
        spec_wrap_pieces(spec_split_newlines(s), w) =~= spec_wrap_piece(s, w),
{
    lemma_first_bounds(s, 0, '\n');
    assert(spec_split_newlines(s) == seq![s]);
    assert(spec_split_newlines(s).drop_last() =~= Seq::<Seq<char>>::empty());
    assert(spec_wrap_pieces(Seq::<Seq<char>>::empty(), w) == Seq::<Seq<char>>::empty());
    assert(Seq::<Seq<char>>::empty() + spec_wrap_piece(s, w) =~= spec_wrap_piece(s, w));
}

/// Wrapping pieces headed by `head` wraps `head` first.
proof fn lemma_wrap_pieces_prepend(head: Seq<char>, tail: Seq<Seq<char>>, w: int)
    ensures
        spec_wrap_pieces(seq![head] + tail, w) =~= spec_wrap_piece(head, w) + spec_wrap_pieces(
            tail,
            w,
        ),
    decreases tail.len(),
{
    let all = seq![head] + tail;
    if tail.len() == 0 {
        assert(all.len() == 1);
        assert(all.last() == head);
        assert(all.drop_last() =~= Seq::<Seq<char>>::empty());
        assert(spec_wrap_pieces(Seq::<Seq<char>>::empty(), w) == Seq::<Seq<char>>::empty());
        assert(Seq::<Seq<char>>::empty() + spec_wrap_piece(head, w) =~= spec_wrap_piece(head, w));
        assert(spec_wrap_pieces(Seq::<Seq<char>>::empty(), w) + spec_wrap_piece(head, w)
            =~= spec_wrap_piece(head, w) + spec_wrap_pieces(tail, w));
    } else {
        lemma_wrap_pieces_prepend(head, tail.drop_last(), w);
        assert(all.drop_last() =~= seq![head] + tail.drop_last());
        assert(all.last() == tail.last());
    }
}

/// Wraps every line: the wrappings of the inputs, concatenated in order.
pub fn wrap(lines: &Vec<String>, width: usize) -> (r: Vec<String>)
    ensures
        r@.map_values(|x: String| x@) == spec_wrap(lines@.map_values(|x: String| x@), width as int),
{
    let ghost linesv = lines@.map_values(|x: String| x@);
    let mut out: Vec<String> = Vec::new();
    let mut i: usize = 0;
    while i < lines.len()
        invariant
            linesv == lines@.map_values(|x: String| x@),
            i <= lines@.len(),
            out@.map_values(|x: String| x@) == spec_wrap(linesv.subrange(0, i as int), width as int),
        decreases lines@.len() - i,
    {
        let mut part = wrap_line(&lines[i], width);
        let ghost pv = out@.map_values(|x: String| x@);
        let ghost partv = part@.map_values(|x: String| x@);
        out.append(&mut part);
        proof {
            assert(out@.map_values(|x: String| x@) =~= pv + partv);
            let pre = linesv.subrange(0, i as int);
            let cur = linesv.subrange(0, i + 1);
            assert(cur.drop_last() =~= pre);
            assert(cur.last() == linesv[i as int]);
            assert(out@.map_values(|x: String| x@) =~= spec_wrap(cur, width as int));
        }
        i = i + 1;
    }
    proof {
        assert(linesv.subrange(0, linesv.len() as int) =~= linesv);
    }
    out
}

/// A terminal color: the named 3/4-bit palette, the 8-bit indexed palette,
/// true color, or the terminal's default.
#[derive(Debug, Clone, Copy, PartialEq, Eq, Structural)]
pub enum Color {
    Reset,
    Black,
    Red,
    Green,
    Yellow,
    Blue,
    Magenta,
    Cyan,
    White,
    DarkGray,
    LightRed,
    LightGreen,
    LightYellow,
    LightBlue,
    LightMagenta,
    LightCyan,
    Gray,
    Rgb(u8, u8, u8),
    Indexed(u8),
}

/// One text modifier of the SGR codes `1` through `9`.
#[derive(Debug, Clone, Copy, PartialEq, Eq, Structural)]
pub enum Modifier {
    Bold,
    Dim,
    Italic,
    Underlined,
    SlowBlink,
    RapidBlink,
    Reversed,
    Hidden,
    CrossedOut,
}

/// The set of modifiers in effect; modifiers accumulate and are not
/// exclusive.
#[derive(Debug, Clone, Copy, PartialEq, Eq, Structural)]
pub struct ModifierSet {
    pub bold: bool,
    pub dim: bool,
    pub italic: bool,
    pub underlined: bool,
    pub slow_blink: bool,
    pub rapid_blink: bool,
    pub reversed: bool,
    pub hidden: bool,
    pub crossed_out: bool,
}

pub open spec fn spec_no_modifiers() -> ModifierSet {
    ModifierSet {
        bold: false,
        dim: false,
        italic: false,
        underlined: false,
        slow_blink: false,
        rapid_blink: false,
        reversed: false,
        hidden: false,
        crossed_out: false,
    }
}

pub open spec fn spec_with_modifier(m: ModifierSet, x: Modifier) -> ModifierSet {
    match x {
        Modifier::Bold => ModifierSet { bold: true, ..m },
        Modifier::Dim => ModifierSet { dim: true, ..m },
        Modifier::Italic => ModifierSet { italic: true, ..m },
        Modifier::Underlined => ModifierSet { underlined: true, ..m },
        Modifier::SlowBlink => ModifierSet { slow_blink: true, ..m },
        Modifier::RapidBlink => ModifierSet { rapid_blink: true, ..m },
        Modifier::Reversed => ModifierSet { reversed: true, ..m },
        Modifier::Hidden => ModifierSet { hidden: true, ..m },
        Modifier::CrossedOut => ModifierSet { crossed_out: true, ..m },
    }
}

/// A text style: foreground, background and modifiers. `clears_all` marks a
/// style produced by a full reset, which also discharges any styling in
/// effect before it.
#[derive(Debug, Clone, Copy, PartialEq, Eq)]
pub struct Style {
    pub fg: Option<Color>,
    pub bg: Option<Color>,
    pub modifiers: ModifierSet,
    pub clears_all: bool,
}

pub open spec fn spec_style_default() -> Style {
    Style { fg: None, bg: None, modifiers: spec_no_modifiers(), clears_all: false }
}

pub open spec fn spec_style_reset() -> Style {
    Style {
        fg: Some(Color::Reset),
        bg: Some(Color::Reset),
        modifiers: spec_no_modifiers(),
        clears_all: true,
    }
}

impl Style {
    /// The empty style: nothing set.
    pub fn plain() -> (r: Style)
        ensures
            r == spec_style_default(),
    {
        Style { fg: None, bg: None, modifiers: ModifierSet::default(), clears_all: false }
    }

    /// The style the SGR reset code `0` produces: both colors reset and all
    /// prior styling discharged.
    pub fn reset() -> (r: Style)
        ensures
            r == spec_style_reset(),
    {
        Style {
            fg: Some(Color::Reset),
            bg: Some(Color::Reset),
            modifiers: ModifierSet::default(),
            clears_all: true,
        }
    }

    pub fn fg(self, c: Color) -> (r: Style)
        ensures
            r == (Style { fg: Some(c), ..self }),
    {
        Style { fg: Some(c), ..self }
    }

    pub fn bg(self, c: Color) -> (r: Style)
        ensures
            r == (Style { bg: Some(c), ..self }),
    {
        Style { bg: Some(c), ..self }
    }

    pub fn add_modifier(self, m: Modifier) -> (r: Style)
        ensures
            r == (Style { modifiers: spec_with_modifier(self.modifiers, m), ..self }),
    {
        let modifiers = match m {
            Modifier::Bold => ModifierSet { bold: true, ..self.modifiers },
            Modifier::Dim => ModifierSet { dim: true, ..self.modifiers },
            Modifier::Italic => ModifierSet { italic: true, ..self.modifiers },
            Modifier::Underlined => ModifierSet { underlined: true, ..self.modifiers },
            Modifier::SlowBlink => ModifierSet { slow_blink: true, ..self.modifiers },
            Modifier::RapidBlink => ModifierSet { rapid_blink: true, ..self.modifiers },
            Modifier::Reversed => ModifierSet { reversed: true, ..self.modifiers },
            Modifier::Hidden => ModifierSet { hidden: true, ..self.modifiers },
            Modifier::CrossedOut => ModifierSet { crossed_out: true, ..self.modifiers },
        };
        Style { modifiers, ..self }
    }
}

impl Default for ModifierSet {
    fn default() -> (r: ModifierSet)
        ensures
            r == spec_no_modifiers(),
    {
        ModifierSet {
            bold: false,
            dim: false,
            italic: false,
            underlined: false,
            slow_blink: false,
            rapid_blink: false,
            reversed: false,
            hidden: false,
            crossed_out: false,
        }
    }
}

impl Default for Style {
    fn default() -> (r: Style)
        ensures
            r == spec_style_default(),
    {
        Style::plain()
    }
}

pub open spec fn spec_normal_color(n: int) -> Color {
    if n == 30 {
        Color::Black
    } else if n == 31 {
        Color::Red
    } else if n == 32 {
        Color::Green
    } else if n == 33 {
        Color::Yellow
    } else if n == 34 {
        Color::Blue
    } else if n == 35 {
        Color::Magenta
    } else if n == 36 {
        Color::Cyan
    } else {
        Color::White
    }
}

pub open spec fn spec_bright_color(n: int) -> Color {
    if n == 90 {
        Color::DarkGray
    } else if n == 91 {
        Color::LightRed
    } else if n == 92 {
        Color::LightGreen
    } else if n == 93 {
        Color::LightYellow
    } else if n == 94 {
        Color::LightBlue
    } else if n == 95 {
        Color::LightMagenta
    } else if n == 96 {
        Color::LightCyan
    } else {
        Color::Gray
    }
}

pub open spec fn spec_modifier(n: int) -> Modifier {
    if n == 1 {
        Modifier::Bold
    } else if n == 2 {
        Modifier::Dim
    } else if n == 3 {
        Modifier::Italic
    } else if n == 4 {
        Modifier::Underlined
    } else if n == 5 {
        Modifier::SlowBlink
    } else if n == 6 {
        Modifier::RapidBlink
    } else if n == 7 {
        Modifier::Reversed
    } else if n == 8 {
        Modifier::Hidden
    } else {
        Modifier::CrossedOut
    }
}

/// The 3/4-bit SGR codes the pipeline accepts.
pub open spec fn is_sgr_code(n: int) -> bool {
    (1 <= n <= 9) || (30 <= n <= 37) || n == 39 || (40 <= n <= 47) || n == 49 || (90 <= n <= 97)
        || (100 <= n <= 107)
}

/// What one 3/4-bit code does to a style: modifiers accumulate, colors
/// replace the matching slot.
pub open spec fn spec_color_3_4bit(st: Style, n: int) -> Style {
    if 1 <= n <= 9 {
        Style { modifiers: spec_with_modifier(st.modifiers, spec_modifier(n)), ..st }
    } else if 30 <= n <= 37 {
        Style { fg: Some(spec_normal_color(n)), ..st }
    } else if 90 <= n <= 97 {
        Style { fg: Some(spec_bright_color(n)), ..st }
    } else if n == 39 {
        Style { fg: Some(Color::Reset), ..st }
    } else if 40 <= n <= 47 {
        Style { bg: Some(spec_normal_color(n - 10)), ..st }
    } else if 100 <= n <= 107 {
        Style { bg: Some(spec_bright_color(n - 10)), ..st }
    } else {
        Style { bg: Some(Color::Reset), ..st }
    }
}

/// The named foreground color of codes `30` through `37`.
pub fn normal_color(n: u8) -> (r: Color)
    requires
        30 <= n <= 37,
    ensures
        r == spec_normal_color(n as int),
{
    match n {
        30 => Color::Black,
        31 => Color::Red,
        32 => Color::Green,
        33 => Color::Yellow,
        34 => Color::Blue,
        35 => Color::Magenta,
        36 => Color::Cyan,
        _ => Color::White,
    }
}

/// The bright color of codes `90` through `97`.
pub fn bright_color(n: u8) -> (r: Color)
    requires
        90 <= n <= 97,
    ensures
        r == spec_bright_color(n as int),
{
    match n {
        90 => Color::DarkGray,
        91 => Color::LightRed,
        92 => Color::LightGreen,
        93 => Color::LightYellow,
        94 => Color::LightBlue,
        95 => Color::LightMagenta,
        96 => Color::LightCyan,
        _ => Color::Gray,
    }
}

/// The modifier of codes `1` through `9`.
pub fn modifiers(n: u8) -> (r: Modifier)
    requires
        1 <= n <= 9,
    ensures
        r == spec_modifier(n as int),
{
    match n {
        1 => Modifier::Bold,
        2 => Modifier::Dim,
        3 => Modifier::Italic,
        4 => Modifier::Underlined,
        5 => Modifier::SlowBlink,
        6 => Modifier::RapidBlink,
        7 => Modifier::Reversed,
        8 => Modifier::Hidden,
        _ => Modifier::CrossedOut,
    }
}

/// Applies one 3/4-bit code to a style.
pub fn color_3_4bit(style: Style, code: u8) -> (r: Style)
    requires
        is_sgr_code(code as int),
    ensures
        r == spec_color_3_4bit(style, code as int),
{
    if 1 <= code && code <= 9 {
        style.add_modifier(modifiers(code))
    } else if 30 <= code && code <= 37 {
        style.fg(normal_color(code))
    } else if 90 <= code && code <= 97 {
        style.fg(bright_color(code))
    } else if code == 39 {
        style.fg(Color::Reset)
    } else if 40 <= code && code <= 47 {
        style.bg(normal_color(code - 10))
    } else if 100 <= code && code <= 107 {
        style.bg(bright_color(code - 10))
    } else {
        style.bg(Color::Reset)
    }
}

/// The code string split on semicolons; an empty string is one empty token.
pub open spec fn spec_split_semis(s: Seq<char>) -> Seq<Seq<char>>
    decreases s.len(),
{
    let e = first_at_or_after(s, 0, ';');
    if e < 0 || e >= s.len() {
        seq![s]
    } else {
        seq![s.subrange(0, e)] + spec_split_semis(s.subrange(e + 1, s.len() as int))
    }
}

/// A token that parses as one decimal byte.
pub open spec fn tok_u8(t: Seq<char>) -> bool {
    t.len() > 0 && crate::table::all_digits(t) && crate::table::digits_val(t) <= 255
}

/// Whether the tokens from `i` on form well-formed SGR parameters: extended
/// `38`/`48` forms carry their arguments, and every plain code is one the
/// pipeline knows.
pub open spec fn spec_valid_codes_from(toks: Seq<Seq<char>>, i: int) -> bool
    decreases toks.len() - i,
{
    if i < 0 || i >= toks.len() {
        true
    } else if toks[i] == "38"@ || toks[i] == "48"@ {
        if i + 1 < toks.len() && toks[i + 1] == "5"@ {
            i + 2 < toks.len() && tok_u8(toks[i + 2]) && spec_valid_codes_from(toks, i + 3)
        } else if i + 1 < toks.len() && toks[i + 1] == "2"@ {
            i + 4 < toks.len() && tok_u8(toks[i + 2]) && tok_u8(toks[i + 3]) && tok_u8(
                toks[i + 4],
            ) && spec_valid_codes_from(toks, i + 5)
        } else {
            false
        }
    } else if toks[i] == "0"@ {
        spec_valid_codes_from(toks, i + 1)
    } else {
        tok_u8(toks[i]) && is_sgr_code(crate::table::digits_val(toks[i]))
            && spec_valid_codes_from(toks, i + 1)
    }
}

/// What the tokens from `i` on make of a style: extended forms set one color,
/// `0` starts over from a full reset, and plain codes accumulate.
pub open spec fn spec_apply_codes_from(st: Style, toks: Seq<Seq<char>>, i: int) -> Style
    decreases toks.len() - i,
{
    if i < 0 || i >= toks.len() {
        st
    } else if toks[i] == "38"@ || toks[i] == "48"@ {
        let is_fg = toks[i] == "38"@;
        if i + 1 < toks.len() && toks[i + 1] == "5"@ {
            if i + 2 < toks.len() {
                let c = Color::Indexed(crate::table::digits_val(toks[i + 2]) as u8);
                let st2 = if is_fg {
                    Style { fg: Some(c), ..st }
                } else {
                    Style { bg: Some(c), ..st }
                };
                spec_apply_codes_from(st2, toks, i + 3)
            } else {
                st
            }
        } else if i + 1 < toks.len() && toks[i + 1] == "2"@ {
            if i + 4 < toks.len() {
                let c = Color::Rgb(
                    crate::table::digits_val(toks[i + 2]) as u8,
                    crate::table::digits_val(toks[i + 3]) as u8,
                    crate::table::digits_val(toks[i + 4]) as u8,
                );
                let st2 = if is_fg {
                    Style { fg: Some(c), ..st }
                } else {
                    Style { bg: Some(c), ..st }
                };
                spec_apply_codes_from(st2, toks, i + 5)
            } else {
                st
            }
        } else {
            st
        }
    } else if toks[i] == "0"@ {
        spec_apply_codes_from(spec_style_reset(), toks, i + 1)
    } else {
        spec_apply_codes_from(
            spec_color_3_4bit(st, crate::table::digits_val(toks[i])),
            toks,
            i + 1,
        )
    }
}

/// Well-formedness of a whole semicolon-separated code string.
pub open spec fn spec_codes_ok(s: Seq<char>) -> bool {
    spec_valid_codes_from(spec_split_semis(s), 0)
}

/// The style a whole code string denotes, accumulated from the empty style.
pub open spec fn spec_style_of_codes(s: Seq<char>) -> Style {
    spec_apply_codes_from(spec_style_default(), spec_split_semis(s), 0)
}

/// Splits `cs` on semicolons.
fn split_semis(cs: &Vec<char>) -> (r: Vec<String>)
    ensures
        r@.map_values(|x: String| x@) == spec_split_semis(cs@),
{
    let mut out: Vec<String> = Vec::new();
    let n = cs.len();
    let mut a: usize = 0;
    proof {
        assert(cs@.subrange(0, n as int) =~= cs@);
        assert(Seq::<Seq<char>>::empty() + spec_split_semis(cs@) =~= spec_split_semis(cs@));
    }
    loop
        invariant_except_break
            spec_split_semis(cs@) == out@.map_values(|x: String| x@) + spec_split_semis(
                cs@.subrange(a as int, n as int),
            ),
        invariant
            a <= n,
            n == cs@.len(),
        ensures
            out@.map_values(|x: String| x@) == spec_split_semis(cs@),
        decreases n - a + 1,
    {
        let e = crate::strutil::find_char_from(cs, a, ';');
        let ghost sub = cs@.subrange(a as int, n as int);
        proof {
            lemma_first_step(cs@, a as int, ';');
            assert(e - a == first_at_or_after(sub, 0, ';'));
        }
        let piece = string_of_range(cs, a, e);
        let ghost pv = out@.map_values(|x: String| x@);
        out.push(piece);
        proof {
            assert(out@.map_values(|x: String| x@) =~= pv + seq![cs@.subrange(
                a as int,
                e as int,
            )]);
            assert(sub.subrange(0, e - a) =~= cs@.subrange(a as int, e as int));
        }
        if e >= n {
            proof {
                assert(sub.subrange(0, e - a) =~= sub);
                assert(spec_split_semis(sub) == seq![sub]);
            }
            break;
        }
        proof {
            assert(sub.subrange(e - a + 1, sub.len() as int) =~= cs@.subrange(e + 1, n as int));
            assert(spec_split_semis(sub) == seq![sub.subrange(0, e - a)] + spec_split_semis(
                cs@.subrange(e + 1, n as int),
            ));
        }
        a = e + 1;
    }
    out
}

/// The byte a decimal token denotes.
fn parse_u8_tok(t: &String) -> (r: u8)
    requires
        tok_u8(t@),
    ensures
        r as int == crate::table::digits_val(t@),
{
    let cs = chars_of(t.as_str());
    let v = crate::table::parse_num_range(&cs, 0, cs.len());
    proof {
        assert(cs@.subrange(0, cs@.len() as int) =~= cs@);
        crate::table::lemma_digits_val_nonneg(t@);
    }
    v as u8
}

fn tok_is(t: &String, lit: &str) -> (r: bool)
    ensures
        r == (t@ == lit@),
{
    let l: String = lit.to_owned();
    *t == l
}

/// Applies a token vector to the empty style, mirroring
/// `spec_apply_codes_from`.
fn apply_codes(toks: &Vec<String>) -> (r: Style)
    requires
        spec_valid_codes_from(toks@.map_values(|x: String| x@), 0),
    ensures
        r == spec_apply_codes_from(
            spec_style_default(),
            toks@.map_values(|x: String| x@),
            0,
        ),
{
    let ghost toksv = toks@.map_values(|x: String| x@);
    let mut st = Style::plain();
    let mut i: usize = 0;
    while i < toks.len()
        invariant
            toksv == toks@.map_values(|x: String| x@),
            i <= toksv.len(),
            spec_valid_codes_from(toksv, i as int),
            spec_apply_codes_from(spec_style_default(), toksv, 0) == spec_apply_codes_from(
                st,
                toksv,
                i as int,
            ),
        decreases toksv.len() - i,
    {
        let is38 = tok_is(&toks[i], "38");
        let is48 = tok_is(&toks[i], "48");
        if is38 || is48 {
            let ext = tok_is(&toks[i + 1], "5");
            if ext {
                let n = parse_u8_tok(&toks[i + 2]);
                let c = Color::Indexed(n);
                st = if is38 {
                    st.fg(c)
                } else {
                    st.bg(c)
                };
                i = i + 3;
            } else {
                let r = parse_u8_tok(&toks[i + 2]);
                let g = parse_u8_tok(&toks[i + 3]);
                let b = parse_u8_tok(&toks[i + 4]);
                let c = Color::Rgb(r, g, b);
                st = if is38 {
                    st.fg(c)
                } else {
                    st.bg(c)
                };
                i = i + 5;
            }
        } else if tok_is(&toks[i], "0") {
            st = Style::reset();
            i = i + 1;
        } else {
            let n = parse_u8_tok(&toks[i]);
            st = color_3_4bit(st, n);
            i = i + 1;
        }
    }
    st
}

/// Parses one semicolon-separated SGR parameter string into the style it
/// denotes, starting from the empty style; `0` resets everything.
pub fn generate_style_from_ansi_color(codes: &str) -> (r: Style)
    requires
        spec_codes_ok(codes@),
    ensures
        r == spec_style_of_codes(codes@),
{
    let cs = chars_of(codes);
    let toks = split_semis(&cs);
    apply_codes(&toks)
}

/// One run of text carrying one style.
#[derive(Debug, Clone, PartialEq, Eq)]
pub struct Span {
    pub content: String,
    pub style: Style,
}

impl View for Span {
    type V = (Seq<char>, Style);

    open spec fn view(&self) -> (Seq<char>, Style) {
        (self.content@, self.style)
    }
}

impl Span {
    /// An unstyled run.
    pub fn raw(content: String) -> (r: Span)
        ensures
            r@ == (content@, spec_style_default()),
    {
        Span { content, style: Style::plain() }
    }

    /// A run carrying the given style.
    pub fn styled(content: String, style: Style) -> (r: Span)
        ensures
            r@ == (content@, style),
    {
        Span { content, style }
    }
}

/// One displayed line: its runs in order.
#[derive(Debug, Clone, PartialEq, Eq)]
pub struct Spans(pub Vec<Span>);

impl View for Spans {
    type V = Seq<(Seq<char>, Style)>;

    open spec fn view(&self) -> Seq<(Seq<char>, Style)> {
        self.0@.map_values(|sp: Span| sp@)
    }
}

/// The first position at or after `pos` where an escape sequence (`ESC` `[`)
/// begins, or the length if there is none.
pub open spec fn first_esc_at_or_after(s: Seq<char>, pos: int) -> int
    decreases s.len() - pos,
{
    if pos < 0 || pos >= s.len() {
        s.len() as int
    } else if s[pos] == '\u{1b}' && pos + 1 < s.len() && s[pos + 1] == '[' {
        pos
    } else {
        first_esc_at_or_after(s, pos + 1)
    }
}

/// The runs of a line's tail that begins with an escape sequence: the
/// sequence's parameters style the text up to the next escape sequence.
pub open spec fn spec_spans_rest(s: Seq<char>) -> Seq<(Seq<char>, Style)>
    decreases s.len(),
{
    let m = first_at_or_after(s, 0, 'm');
    if m < 2 || m >= s.len() {
        Seq::empty()
    } else {
        let style = spec_style_of_codes(s.subrange(2, m));
        let rest = s.subrange(m + 1, s.len() as int);
        let e = first_esc_at_or_after(rest, 0);
        if 0 <= e < rest.len() {
            seq![(rest.subrange(0, e), style)] + spec_spans_rest(
                rest.subrange(e, rest.len() as int),
            )
        } else {
            seq![(rest, style)]
        }
    }
}

/// Whether a line's tail that begins with an escape sequence is well formed:
/// each sequence closes with an `m` and carries known codes.
pub open spec fn spec_rest_ok(s: Seq<char>) -> bool
    decreases s.len(),
{
    let m = first_at_or_after(s, 0, 'm');
    if m < 2 || m >= s.len() {
        false
    } else {
        spec_codes_ok(s.subrange(2, m)) && {
            let rest = s.subrange(m + 1, s.len() as int);
            let e = first_esc_at_or_after(rest, 0);
            if 0 <= e < rest.len() {
                spec_rest_ok(rest.subrange(e, rest.len() as int))
            } else {
                true
            }
        }
    }
}

/// Whether every escape sequence of the line is well formed.
pub open spec fn spec_line_ok(s: Seq<char>) -> bool {
    let e = first_esc_at_or_after(s, 0);
    if 0 <= e < s.len() {
        spec_rest_ok(s.subrange(e, s.len() as int))
    } else {
        true
    }
}

/// The runs of one line: the text before the first escape sequence is
/// unstyled, and each escape sequence styles the text after it; each
/// sequence's style stands on its own, accumulated from the empty style.
pub open spec fn spec_spans_of_line(s: Seq<char>) -> Seq<(Seq<char>, Style)> {
    let e = first_esc_at_or_after(s, 0);
    if !(0 <= e < s.len()) {
        seq![(s, spec_style_default())]
    } else if e > 0 {
        seq![(s.subrange(0, e), spec_style_default())] + spec_spans_rest(
            s.subrange(e, s.len() as int),
        )
    } else {
        spec_spans_rest(s)
    }
}

pub open spec fn spec_generate_spans(lines: Seq<Seq<char>>) -> Seq<Seq<(Seq<char>, Style)>> {
    lines.map_values(|l: Seq<char>| spec_spans_of_line(l))
}

/// The first position at or after `from` where an escape sequence begins.
fn find_esc_from(cs: &Vec<char>, from: usize) -> (r: usize)
    requires
        from <= cs@.len(),
    ensures
        r == first_esc_at_or_after(cs@, from as int),
        from <= r <= cs@.len(),
        r < cs@.len() ==> cs@[r as int] == '\u{1b}' && r + 1 < cs@.len() && cs@[r + 1] == '[',
{
    let mut i: usize = from;
    while i < cs.len()
        invariant
            from <= i <= cs@.len(),
            first_esc_at_or_after(cs@, from as int) == first_esc_at_or_after(cs@, i as int),
        decreases cs@.len() - i,
    {
        if cs[i] == '\u{1b}' && i + 1 < cs.len() {
            if cs[i + 1] == '[' {
                return i;
            }
        }
        i = i + 1;
    }
    i
}

/// The escape search from `a` equals the search over the suffix that starts
/// at `a`, shifted back.
proof fn lemma_first_esc_step(s: Seq<char>, a: int)
    requires
        0 <= a <= s.len(),
    ensures
        first_esc_at_or_after(s, a) == first_esc_at_or_after(
            s.subrange(a, s.len() as int),
            0,
        ) + a,
    decreases s.len() - a,
{
    let sub = s.subrange(a, s.len() as int);
    if a < s.len() {
        if s[a] == '\u{1b}' && a + 1 < s.len() && s[a + 1] == '[' {
        } else {
            lemma_first_esc_step(s, a + 1);
            let sub2 = s.subrange(a + 1, s.len() as int);
            assert(sub2 =~= sub.subrange(1, sub.len() as int));
            lemma_first_esc_step(sub, 1);
        }
    }
}

/// The style of the escape parameters `cs[a..b]`.
fn style_of_range(cs: &Vec<char>, a: usize, b: usize) -> (r: Style)
    requires
        a <= b <= cs@.len(),
        spec_codes_ok(cs@.subrange(a as int, b as int)),
    ensures
        r == spec_style_of_codes(cs@.subrange(a as int, b as int)),
{
    let sub = crate::strutil::vec_range(cs, a, b);
    let toks = split_semis(&sub);
    apply_codes(&toks)
}

/// The runs of the lines, one `Spans` per input line. Requires every escape
/// sequence to be closed by `m` and to carry only supported codes; the
/// reference treats anything else as unreachable.
pub fn generate_spans(lines: &Vec<String>) -> (r: Vec<Spans>)
    requires
        forall|i: int| 0 <= i < lines@.len() ==> spec_line_ok(#[trigger] lines@[i]@),
    ensures
        r@.map_values(|x: Spans| x@) == spec_generate_spans(
            lines@.map_values(|x: String| x@),
        ),
{
    let ghost linesv = lines@.map_values(|x: String| x@);
    let mut out: Vec<Spans> = Vec::new();
    let mut i: usize = 0;
    while i < lines.len()
        invariant
            linesv == lines@.map_values(|x: String| x@),
            forall|q: int| 0 <= q < lines@.len() ==> spec_line_ok(#[trigger] lines@[q]@),
            i <= linesv.len(),
            out@.len() == i,
            forall|q: int| 0 <= q < i ==> (#[trigger] out@[q])@ == spec_spans_of_line(linesv[q]),
        decreases linesv.len() - i,
    {
        let sp = spans_of_line(&lines[i]);
        out.push(sp);
        i = i + 1;
    }
    proof {
        assert(out@.map_values(|x: Spans| x@) =~= spec_generate_spans(linesv));
    }
    out
}

/// The runs of one line.
fn spans_of_line(line: &String) -> (r: Spans)
    requires
        spec_line_ok(line@),
    ensures
        r@ == spec_spans_of_line(line@),
{
    let cs = chars_of(line.as_str());
    let n = cs.len();
    let mut sp: Vec<Span> = Vec::new();
    let e0 = find_esc_from(&cs, 0);
    if e0 >= n {
        let content = string_of_range(&cs, 0, n);
        sp.push(Span::raw(content));
        proof {
            assert(cs@.subrange(0, n as int) =~= cs@);
            assert(Spans(sp)@ =~= spec_spans_of_line(line@));
        }
        return Spans(sp);
    }
    if e0 > 0 {
        let content = string_of_range(&cs, 0, e0);
        sp.push(Span::raw(content));
    }
    proof {
        assert(cs@.subrange(0, n as int) =~= cs@);
        if e0 > 0 {
            assert(sp@.map_values(|x: Span| x@) =~= seq![(cs@.subrange(0, e0 as int),
                spec_style_default())]);
        } else {
            assert(sp@.map_values(|x: Span| x@) =~= Seq::<(Seq<char>, Style)>::empty());
            assert(cs@.subrange(0, n as int) =~= cs@);
            assert(Seq::<(Seq<char>, Style)>::empty() + spec_spans_rest(cs@.subrange(
                0,
                n as int,
            )) =~= spec_spans_rest(cs@.subrange(0, n as int)));
        }
    }
    let mut cur: usize = e0;
    loop
        invariant_except_break
            cs@ == line@,
            n == cs@.len(),
            cur < n,
            cs@[cur as int] == '\u{1b}',
            cur + 1 < n && cs@[cur + 1] == '[',
            spec_rest_ok(cs@.subrange(cur as int, n as int)),
            spec_spans_of_line(cs@) == sp@.map_values(|x: Span| x@) + spec_spans_rest(
                cs@.subrange(cur as int, n as int),
            ),
        ensures
            sp@.map_values(|x: Span| x@) == spec_spans_of_line(cs@),
            cs@ == line@,
        decreases n - cur,
    {
        let ghost suffix = cs@.subrange(cur as int, n as int);
        let m = crate::strutil::find_char_from(&cs, cur, 'm');
        proof {
            lemma_first_step(cs@, cur as int, 'm');
            assert(m - cur == first_at_or_after(suffix, 0, 'm'));
            // well-formedness gives the closing `m`
            assert(m - cur >= 2 && m - cur < suffix.len());
            assert(suffix.subrange(2, m - cur) =~= cs@.subrange(cur + 2, m as int));
        }
        let style = style_of_range(&cs, cur + 2, m);
        let e2 = find_esc_from(&cs, m + 1);
        proof {
            lemma_first_esc_step(cs@, m + 1);
            assert(suffix.subrange(m - cur + 1, suffix.len() as int) =~= cs@.subrange(
                m + 1,
                n as int,
            ));
            assert(e2 - (m + 1) == first_esc_at_or_after(cs@.subrange(m + 1, n as int), 0));
        }
        let content = string_of_range(&cs, m + 1, e2);
        let ghost pv = sp@.map_values(|x: Span| x@);
        sp.push(Span::styled(content, style));
        proof {
            assert(sp@.map_values(|x: Span| x@) =~= pv + seq![(cs@.subrange(m + 1, e2 as int),
                style)]);
            let rest = suffix.subrange(m - cur + 1, suffix.len() as int);
            let er = e2 - (m + 1);
            if er < rest.len() {
                assert(rest.subrange(0, er) =~= cs@.subrange(m + 1, e2 as int));
                assert(rest.subrange(er, rest.len() as int) =~= cs@.subrange(e2 as int, n as int));
            } else {
                assert(rest =~= cs@.subrange(m + 1, e2 as int));
            }
        }
        if e2 >= n {
            break;
        }
        cur = e2;
    }
    Spans(sp)
}

} // verus!
