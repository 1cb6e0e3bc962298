//! Text-entry state: an editing cursor with a blink timer, and the filter
//! input form built on it.

use vstd::prelude::*;

use crate::ansi::Modifier;
use crate::ansi::Span;
use crate::ansi::Spans;
use crate::ansi::Style;
use crate::ansi::spec_style_default;
use crate::ansi::spec_with_modifier;

verus! {

/// Whether the cursor is currently drawn.
#[derive(Debug, Clone, Copy, PartialEq, Eq, Structural)]
pub enum Mode {
    Show,
    Hide,
}

impl Mode {
    /// Flips the blink phase.
    pub fn toggle(&mut self)
        ensures
            *final(self) == (match *old(self) {
                Mode::Show => Mode::Hide,
                Mode::Hide => Mode::Show,
            }),
    {
        match self {
            Mode::Show => *self = Mode::Hide,
            Mode::Hide => *self = Mode::Show,
        }
    }
}

/// The style the cursor cell carries: reversed video while shown, nothing
/// while hidden.
pub open spec fn spec_cursor_style(m: Mode) -> Style {
    match m {
        Mode::Show => Style {
            modifiers: spec_with_modifier(
                crate::ansi::spec_no_modifiers(),
                Modifier::Reversed,
            ),
            ..spec_style_default()
        },
        Mode::Hide => spec_style_default(),
    }
}

/// An editing cursor: a position in the text and a blink timer. Times are
/// plain milliseconds handed in by the caller on every operation.
#[derive(Debug, Clone, Copy, PartialEq, Eq, Structural)]
pub struct Cursor {
    pub pos: usize,
    pub last_tick: u64,
    pub tick_rate: u64,
    pub mode: Mode,
}

impl Cursor {
    /// A fresh cursor at the start of the text, shown, blinking every half
    /// second, with its timer started at `now`.
    pub fn new(now: u64) -> (r: Cursor)
        ensures
            r == (Cursor { pos: 0, last_tick: now, tick_rate: 500, mode: Mode::Show }),
    {
        Cursor { pos: 0, last_tick: now, tick_rate: 500, mode: Mode::Show }
    }

    /// Steps the cursor forward; any movement makes the cursor visible and
    /// restarts the blink timer.
    pub fn forward(&mut self, now: u64)
        ensures
            final(self).pos == if old(self).pos < usize::MAX {
                old(self).pos + 1
            } else {
                old(self).pos as int
            },
            final(self).last_tick == now,
            final(self).mode == Mode::Show,
            final(self).tick_rate == old(self).tick_rate,
    {
        if self.pos < usize::MAX {
            self.pos = self.pos + 1;
        }
        self.last_tick = now;
        self.mode = Mode::Show;
    }

    /// Steps the cursor back, stopping at the start; any movement makes the
    /// cursor visible and restarts the blink timer.
    pub fn back(&mut self, now: u64)
        ensures
            final(self).pos == if old(self).pos > 0 {
                old(self).pos - 1
            } else {
                0int
            },
            final(self).last_tick == now,
            final(self).mode == Mode::Show,
            final(self).tick_rate == old(self).tick_rate,
    {
        if self.pos > 0 {
            self.pos = self.pos - 1;
        }
        self.last_tick = now;
        self.mode = Mode::Show;
    }

    /// Flips the blink phase once the interval has elapsed; called on every
    /// render tick.
    pub fn update_tick(&mut self, now: u64)
        ensures
            final(self).pos == old(self).pos,
            final(self).tick_rate == old(self).tick_rate,
            ({
                let elapsed = if now >= old(self).last_tick {
                    now - old(self).last_tick
                } else {
                    0int
                };
                if old(self).tick_rate <= elapsed {
                    final(self).last_tick == now && final(self).mode == (match old(self).mode {
                        Mode::Show => Mode::Hide,
                        Mode::Hide => Mode::Show,
                    })
                } else {
                    final(self).last_tick == old(self).last_tick && final(self).mode == old(self).mode
                }
            }),
    {
        let elapsed: u64 = if now >= self.last_tick {
            now - self.last_tick
        } else {
            0
        };
        if self.tick_rate <= elapsed {
            self.mode.toggle();
            self.last_tick = now;
        }
    }

    /// The style the cursor cell carries right now.
    pub fn cursor_style(&self) -> (r: Style)
        ensures
            r == spec_cursor_style(self.mode),
    {
        match self.mode {
            Mode::Show => Style::plain().add_modifier(Modifier::Reversed),
            Mode::Hide => Style::plain(),
        }
    }

    pub fn pos(&self) -> (r: usize)
        ensures
            r == self.pos,
    {
        self.pos
    }
}

/// The runs that draw the entry text with its cursor: an empty text is just
/// the cursor cell; a cursor inside the text highlights the character under
/// it; a cursor at the end appends a highlighted space.
pub open spec fn spec_render_content(content: Seq<char>, pos: int, m: Mode) -> Seq<
    (Seq<char>, Style),
> {
    if content.len() == 0 {
        seq![(" "@, spec_cursor_style(m))]
    } else if pos < content.len() {
        Seq::new(
            content.len(),
            |i: int| (seq![content[i]], if i == pos {
                spec_cursor_style(m)
            } else {
                spec_style_default()
            }),
        )
    } else {
        seq![(content, spec_style_default()), (" "@, spec_cursor_style(m))]
    }
}

/// A filter input form: its text and its cursor. The cursor position never
/// passes the end of the text.
#[derive(Debug)]
pub struct InputForm {
    content: String,
    cursor: Cursor,
}

impl InputForm {
    #[verifier::type_invariant]
    spec fn wf(self) -> bool {
        self.cursor.pos <= self.content@.len()
    }

    pub closed spec fn spec_content(self) -> Seq<char> {
        self.content@
    }

    pub closed spec fn spec_cursor(self) -> Cursor {
        self.cursor
    }

    /// An empty form with its blink timer started at `now`.
    pub fn new(now: u64) -> (r: InputForm)
        ensures
            r.spec_content() == Seq::<char>::empty(),
            r.spec_cursor() == Cursor::new_spec(now),
    {
        InputForm { content: String::new(), cursor: Cursor::new(now) }
    }

    /// Inserts a character at the cursor and steps the cursor past it; the
    /// cursor becomes visible and its timer restarts.
    pub fn insert_char(&mut self, c: char, now: u64)
        ensures
            final(self).spec_content() == old(self).spec_content().insert(
                old(self).spec_cursor().pos as int,
                c,
            ),
            final(self).spec_cursor().pos == if old(self).spec_cursor().pos < usize::MAX {
                old(self).spec_cursor().pos + 1
            } else {
                usize::MAX as int
            },
            final(self).spec_cursor().mode == Mode::Show,
            final(self).spec_cursor().last_tick == now,
    {
        proof {
            use_type_invariant(&*self);
        }
        let pos = self.cursor.pos;
        let n = self.content.as_str().unicode_len();
        let mut rebuilt = String::new();
        rebuilt.append(self.content.as_str().substring_char(0, pos));
        crate::strutil::push_char(&mut rebuilt, c);
        rebuilt.append(self.content.as_str().substring_char(pos, n));
        self.content = rebuilt;
        let mut cur = self.cursor;
        cur.forward(now);
        self.cursor = cur;
        proof {
            assert(final(self).content@ =~= old(self).content@.insert(
                old(self).cursor.pos as int,
                c,
            ));
        }
    }

    /// Deletes the character before the cursor, when there is one; the cursor
    /// moves back onto the gap, becomes visible, and its timer restarts.
    pub fn remove_char(&mut self, now: u64)
        ensures
            ({
                let pos = old(self).spec_cursor().pos as int;
                if old(self).spec_content().len() > 0 && pos > 0 {
                    final(self).spec_content() == old(self).spec_content().remove(pos - 1)
                        && final(self).spec_cursor().pos == pos - 1 && final(self).spec_cursor().mode == Mode::Show && final(self).spec_cursor().last_tick
                        == now
                } else {
                    final(self).spec_content() == old(self).spec_content() && final(self).spec_cursor() == old(self).spec_cursor()
                }
            }),
    {
        proof {
            use_type_invariant(&*self);
        }
        let n = self.content.as_str().unicode_len();
        if n > 0 && self.cursor.pos > 0 {
            let mut cur = self.cursor;
            cur.back(now);
            self.cursor = cur;
            let pos = self.cursor.pos;
            let mut rebuilt = String::new();
            rebuilt.append(self.content.as_str().substring_char(0, pos));
            rebuilt.append(self.content.as_str().substring_char(pos + 1, n));
            self.content = rebuilt;
            proof {
                assert(final(self).content@ =~= old(self).content@.remove(
                    old(self).cursor.pos - 1,
                ));
            }
        }
    }

    /// Moves the cursor one character right, never past the end.
    pub fn forward_cursor(&mut self, now: u64)
        ensures
            final(self).spec_content() == old(self).spec_content(),
            final(self).spec_cursor().pos == if old(self).spec_cursor().pos < old(self).spec_content().len() {
                old(self).spec_cursor().pos + 1
            } else {
                old(self).spec_cursor().pos as int
            },
            old(self).spec_cursor().pos < old(self).spec_content().len() ==> final(self).spec_cursor().mode == Mode::Show && final(self).spec_cursor().last_tick == now,
    {
        proof {
            use_type_invariant(&*self);
        }
        let n = self.content.as_str().unicode_len();
        if self.cursor.pos < n {
            let mut cur = self.cursor;
            cur.forward(now);
            self.cursor = cur;
        }
    }

    /// Moves the cursor one character left, never before the start; the
    /// cursor becomes visible and its timer restarts.
    pub fn back_cursor(&mut self, now: u64)
        ensures
            final(self).spec_content() == old(self).spec_content(),
            final(self).spec_cursor().pos == if old(self).spec_cursor().pos > 0 {
                old(self).spec_cursor().pos - 1
            } else {
                0int
            },
            final(self).spec_cursor().mode == Mode::Show,
            final(self).spec_cursor().last_tick == now,
    {
        proof {
            use_type_invariant(&*self);
        }
        let mut cur = self.cursor;
        cur.back(now);
        self.cursor = cur;
    }

    pub fn content(&self) -> (r: &str)
        ensures
            r@ == self.spec_content(),
    {
        self.content.as_str()
    }

    pub fn cursor(&self) -> (r: &Cursor)
        ensures
            *r == self.spec_cursor(),
    {
        &self.cursor
    }

    /// Empties the text; the cursor returns to the start.
    pub fn clear_content(&mut self)
        ensures
            final(self).spec_content() == Seq::<char>::empty(),
            final(self).spec_cursor().pos == 0,
    {
        self.cursor.pos = 0;
        self.content = String::new();
    }

    /// Advances the blink timer once per render tick.
    pub fn update_tick(&mut self, now: u64)
        ensures
            final(self).spec_content() == old(self).spec_content(),
            final(self).spec_cursor().pos == old(self).spec_cursor().pos,
    {
        proof {
            use_type_invariant(&*self);
        }
        let mut cur = self.cursor;
        cur.update_tick(now);
        self.cursor = cur;
    }

    /// The runs that draw `content` with `cursor`, as `spec_render_content`
    /// describes.
    pub fn render_content(content: &str, cursor: &Cursor) -> (r: Spans)
        ensures
            r@ == spec_render_content(content@, cursor.pos as int, cursor.mode),
    {
        let n = content.unicode_len();
        let mut sp: Vec<Span> = Vec::new();
        if n == 0 {
            sp.push(Span::styled(" ".to_owned(), cursor.cursor_style()));
            proof {
                assert(Spans(sp)@ =~= spec_render_content(content@, cursor.pos as int,
                    cursor.mode));
            }
            Spans(sp)
        } else if cursor.pos < n {
            let cs = crate::strutil::chars_of(content);
            let mut i: usize = 0;
            while i < n
                invariant
                    cs@ == content@,
                    n == content@.len(),
                    i <= n,
                    sp@.len() == i,
                    forall|q: int| 0 <= q < i ==> (#[trigger] sp@[q])@ == (seq![content@[q]],
                    if q == cursor.pos as int {
                        spec_cursor_style(cursor.mode)
                    } else {
                        spec_style_default()
                    }),
                decreases n - i,
            {
                let mut one = String::new();
                crate::strutil::push_char(&mut one, cs[i]);
                let style = if i == cursor.pos {
                    cursor.cursor_style()
                } else {
                    Style::plain()
                };
                sp.push(Span::styled(one, style));
                i = i + 1;
            }
            proof {
                assert(Spans(sp)@ =~= spec_render_content(content@, cursor.pos as int,
                    cursor.mode));
            }
            Spans(sp)
        } else {
            sp.push(Span::raw(content.to_owned()));
            sp.push(Span::styled(" ".to_owned(), cursor.cursor_style()));
            proof {
                assert(Spans(sp)@ =~= spec_render_content(content@, cursor.pos as int,
                    cursor.mode));
            }
            Spans(sp)
        }
    }
}

impl Cursor {
    /// The cursor `new` returns, for use in contracts.
    pub open spec fn new_spec(now: u64) -> Cursor {
        Cursor { pos: 0, last_tick: now, tick_rate: 500, mode: Mode::Show }
    }
}

} // verus!
