//! The closed set of widget kinds a pane can host, each with its item
//! collection and selection cursor, and the uniform navigation operations
//! over them.

use vstd::prelude::*;

use crate::input::InputForm;
use crate::input::Mode;

verus! {

/// A scrollable list of lines with an optional selection.
#[derive(Debug, Clone, PartialEq, Eq)]
pub struct List {
    pub items: Vec<String>,
    pub selected: Option<usize>,
}

/// What `next` does to a selection over `n` items: empty stays unselected,
/// no selection lands on the first item, the last item wraps to the first.
pub open spec fn spec_next_index(sel: Option<usize>, n: int) -> Option<usize> {
    if n <= 0 {
        None
    } else {
        match sel {
            None => Some(0usize),
            Some(i) => if i + 1 >= n {
                Some(0usize)
            } else {
                Some((i + 1) as usize)
            },
        }
    }
}

/// What `prev` does to a selection over `n` items: empty stays unselected,
/// no selection lands on the first item, the first item wraps to the last.
pub open spec fn spec_prev_index(sel: Option<usize>, n: int) -> Option<usize> {
    if n <= 0 {
        None
    } else {
        match sel {
            None => Some(0usize),
            Some(i) => if i == 0 {
                Some((n - 1) as usize)
            } else {
                Some((i - 1) as usize)
            },
        }
    }
}

/// Navigation wraps: on a non-empty collection, stepping next from the last
/// index returns to the first, stepping back from the first returns to the
/// last, and on an empty collection both moves stay unselected.
pub proof fn lemma_navigation_wraps(n: int)
    requires
        n <= usize::MAX,
    ensures
        n > 0 ==> spec_next_index(Some((n - 1) as usize), n) == Some(0usize),
        n > 0 ==> spec_prev_index(Some(0usize), n) == Some((n - 1) as usize),
        n <= 0 ==> spec_next_index(None, n) is None && spec_prev_index(None, n) is None,
{
}

/// The first item as a selection, when there is one.
pub open spec fn spec_first_index(n: int) -> Option<usize> {
    if n > 0 {
        Some(0usize)
    } else {
        None
    }
}

/// The last item as a selection, when there is one.
pub open spec fn spec_last_index(n: int) -> Option<usize> {
    if n > 0 {
        Some((n - 1) as usize)
    } else {
        None
    }
}

/// A selection clamped into `[0, n)`, or dropped when there is nothing.
pub open spec fn spec_clamp_index(sel: Option<usize>, n: int) -> Option<usize> {
    if n <= 0 {
        None
    } else {
        match sel {
            None => None,
            Some(i) => if i < n {
                Some(i)
            } else {
                Some((n - 1) as usize)
            },
        }
    }
}

impl List {
    /// A fresh list: nothing selected until the first navigation.
    pub fn new(items: Vec<String>) -> (r: List)
        ensures
            r.items@ == items@,
            r.selected is None,
    {
        List { items, selected: None }
    }

    /// Replaces the items; the selection is clamped into the new bounds.
    pub fn set_items(&mut self, items: Vec<String>)
        ensures
            final(self).items@ == items@,
            final(self).selected == spec_clamp_index(old(self).selected, items@.len() as int),
    {
        let n = items.len();
        self.items = items;
        self.selected = match self.selected {
            None => None,
            Some(i) => {
                if n == 0 {
                    None
                } else if i < n {
                    Some(i)
                } else {
                    Some(n - 1)
                }
            },
        };
    }

    /// Moves the selection to the next item, wrapping from the last to the
    /// first; inert on an empty list.
    pub fn next(&mut self)
        ensures
            final(self).items@ == old(self).items@,
            final(self).selected == spec_next_index(
                old(self).selected,
                old(self).items@.len() as int,
            ),
    {
        let n = self.items.len();
        if n == 0 {
            self.selected = None;
        } else {
            self.selected = match self.selected {
                None => Some(0),
                Some(i) => {
                    if i >= n - 1 {
                        Some(0)
                    } else {
                        Some(i + 1)
                    }
                },
            };
        }
    }

    /// Moves the selection to the previous item, wrapping from the first to
    /// the last; inert on an empty list.
    pub fn prev(&mut self)
        ensures
            final(self).items@ == old(self).items@,
            final(self).selected == spec_prev_index(
                old(self).selected,
                old(self).items@.len() as int,
            ),
    {
        let n = self.items.len();
        if n == 0 {
            self.selected = None;
        } else {
            self.selected = match self.selected {
                None => Some(0),
                Some(i) => {
                    if i == 0 {
                        Some(n - 1)
                    } else {
                        Some(i - 1)
                    }
                },
            };
        }
    }

    /// Selects the first item, when there is one.
    pub fn select_first(&mut self)
        ensures
            final(self).items@ == old(self).items@,
            final(self).selected == spec_first_index(old(self).items@.len() as int),
    {
        if self.items.len() > 0 {
            self.selected = Some(0);
        } else {
            self.selected = None;
        }
    }

    /// Selects the last item, when there is one.
    pub fn select_last(&mut self)
        ensures
            final(self).items@ == old(self).items@,
            final(self).selected == spec_last_index(old(self).items@.len() as int),
    {
        let n = self.items.len();
        if n > 0 {
            self.selected = Some(n - 1);
        } else {
            self.selected = None;
        }
    }

    /// Drops the selection.
    pub fn unselect(&mut self)
        ensures
            final(self).items@ == old(self).items@,
            final(self).selected is None,
    {
        self.selected = None;
    }

    pub fn items(&self) -> (r: &Vec<String>)
        ensures
            r@ == self.items@,
    {
        &self.items
    }

    pub fn selected(&self) -> (r: Option<usize>)
        ensures
            r == self.selected,
    {
        self.selected
    }
}

/// A table of rows with an optional selection; rows are plain cell vectors.
#[derive(Debug, Clone, PartialEq, Eq)]
pub struct TableWidget {
    pub items: Vec<Vec<String>>,
    pub selected: Option<usize>,
}

impl TableWidget {
    pub fn new(items: Vec<Vec<String>>) -> (r: TableWidget)
        ensures
            r.items@ == items@,
            r.selected == (if items@.len() > 0 {
                Some(0usize)
            } else {
                None::<usize>
            }),
    {
        let selected: Option<usize> = if items.len() > 0 {
            Some(0)
        } else {
            None
        };
        TableWidget { items, selected }
    }

    /// Replaces the rows; the selection is clamped into the new bounds.
    pub fn set_items(&mut self, items: Vec<Vec<String>>)
        ensures
            final(self).items@ == items@,
            final(self).selected == spec_clamp_index(old(self).selected, items@.len() as int),
    {
        let n = items.len();
        self.items = items;
        self.selected = match self.selected {
            None => None,
            Some(i) => {
                if n == 0 {
                    None
                } else if i < n {
                    Some(i)
                } else {
                    Some(n - 1)
                }
            },
        };
    }

    pub fn next(&mut self)
        ensures
            final(self).items@ == old(self).items@,
            final(self).selected == spec_next_index(
                old(self).selected,
                old(self).items@.len() as int,
            ),
    {
        let n = self.items.len();
        if n == 0 {
            self.selected = None;
        } else {
            self.selected = match self.selected {
                None => Some(0),
                Some(i) => {
                    if i >= n - 1 {
                        Some(0)
                    } else {
                        Some(i + 1)
                    }
                },
            };
        }
    }

    pub fn prev(&mut self)
        ensures
            final(self).items@ == old(self).items@,
            final(self).selected == spec_prev_index(
                old(self).selected,
                old(self).items@.len() as int,
            ),
    {
        let n = self.items.len();
        if n == 0 {
            self.selected = None;
        } else {
            self.selected = match self.selected {
                None => Some(0),
                Some(i) => {
                    if i == 0 {
                        Some(n - 1)
                    } else {
                        Some(i - 1)
                    }
                },
            };
        }
    }

    pub fn select_first(&mut self)
        ensures
            final(self).items@ == old(self).items@,
            final(self).selected == spec_first_index(old(self).items@.len() as int),
    {
        if self.items.len() > 0 {
            self.selected = Some(0);
        } else {
            self.selected = None;
        }
    }

    pub fn select_last(&mut self)
        ensures
            final(self).items@ == old(self).items@,
            final(self).selected == spec_last_index(old(self).items@.len() as int),
    {
        let n = self.items.len();
        if n > 0 {
            self.selected = Some(n - 1);
        } else {
            self.selected = None;
        }
    }

    pub fn items(&self) -> (r: &Vec<Vec<String>>)
        ensures
            r@ == self.items@,
    {
        &self.items
    }

    pub fn selected(&self) -> (r: Option<usize>)
        ensures
            r == self.selected,
    {
        self.selected
    }

    /// The first cell of the selected row, when the selection and the row are
    /// there.
    pub fn selected_first_cell(&self) -> (r: Option<String>)
        ensures
            match r {
                Some(s) => {
                    &&& self.selected is Some
                    &&& (self.selected->0 as int) < self.items@.len()
                    &&& self.items@[self.selected->0 as int]@.len() > 0
                    &&& s@ == self.items@[self.selected->0 as int]@[0]@
                },
                None => !(self.selected is Some && (self.selected->0 as int) < self.items@.len()
                    && self.items@[self.selected->0 as int]@.len() > 0),
            },
    {
        match self.selected {
            Some(i) => {
                if i < self.items.len() && self.items[i].len() > 0 {
                    Some(self.items[i][0].clone())
                } else {
                    None
                }
            },
            None => None,
        }
    }
}

/// Scrollable text: lines and a scroll cursor that always stays in bounds
/// (`0` on empty text).
#[derive(Debug, Clone, PartialEq, Eq)]
pub struct TextWidget {
    pub items: Vec<String>,
    pub selected: usize,
}

/// The last valid scroll position over `n` lines.
pub open spec fn spec_last_pos(n: int) -> int {
    if n <= 0 {
        0
    } else {
        n - 1
    }
}

impl TextWidget {
    pub fn new() -> (r: TextWidget)
        ensures
            r.items@.len() == 0,
            r.selected == 0,
    {
        TextWidget { items: Vec::new(), selected: 0 }
    }

    /// Whether the cursor stands on the last line (or the text is empty), so
    /// that new lines should keep it pinned to the bottom.
    pub fn is_bottom(&self) -> (r: bool)
        ensures
            r == (self.selected as int >= spec_last_pos(self.items@.len() as int)),
    {
        self.items.len() == 0 || self.selected >= self.items.len() - 1
    }

    pub fn selected(&self) -> (r: usize)
        ensures
            r == self.selected,
    {
        self.selected
    }

    pub fn items(&self) -> (r: &Vec<String>)
        ensures
            r@ == self.items@,
    {
        &self.items
    }

    /// Moves the cursor to the last line.
    pub fn select_last(&mut self)
        ensures
            final(self).items@ == old(self).items@,
            final(self).selected as int == spec_last_pos(old(self).items@.len() as int),
    {
        if self.items.len() == 0 {
            self.selected = 0;
        } else {
            self.selected = self.items.len() - 1;
        }
    }

    /// Moves the cursor to `pos`, clamped to the last line.
    pub fn select(&mut self, pos: usize)
        ensures
            final(self).items@ == old(self).items@,
            final(self).selected as int == (if pos as int <= spec_last_pos(
                old(self).items@.len() as int,
            ) {
                pos as int
            } else {
                spec_last_pos(old(self).items@.len() as int)
            }),
    {
        let last: usize = if self.items.len() == 0 {
            0
        } else {
            self.items.len() - 1
        };
        self.selected = if pos <= last {
            pos
        } else {
            last
        };
    }

    /// Replaces the lines; the cursor is clamped into the new bounds.
    pub fn set_items(&mut self, items: Vec<String>)
        ensures
            final(self).items@ == items@,
            final(self).selected as int == (if old(self).selected as int <= spec_last_pos(
                items@.len() as int,
            ) {
                old(self).selected as int
            } else {
                spec_last_pos(items@.len() as int)
            }),
    {
        let last: usize = if items.len() == 0 {
            0
        } else {
            items.len() - 1
        };
        self.items = items;
        if self.selected > last {
            self.selected = last;
        }
    }

    /// Appends lines at the end; the cursor stays put.
    pub fn append_items(&mut self, items: &Vec<String>)
        ensures
            final(self).items@ == old(self).items@ + items@,
            final(self).selected == old(self).selected,
    {
        let mut i: usize = 0;
        while i < items.len()
            invariant
                i <= items@.len(),
                self.items@ == old(self).items@ + items@.subrange(0, i as int),
                self.selected == old(self).selected,
            decreases items@.len() - i,
        {
            self.items.push(items[i].clone());
            i = i + 1;
            proof {
                assert(self.items@ =~= old(self).items@ + items@.subrange(0, i as int));
            }
        }
        proof {
            assert(items@.subrange(0, items@.len() as int) =~= items@);
        }
    }

    /// Drops all lines.
    pub fn clear(&mut self)
        ensures
            final(self).items@.len() == 0,
            final(self).selected == 0,
    {
        self.items = Vec::new();
        self.selected = 0;
    }

    /// Scrolls one line up, stopping at the top.
    pub fn scroll_up(&mut self)
        ensures
            final(self).items@ == old(self).items@,
            final(self).selected as int == (if old(self).selected > 0 {
                old(self).selected - 1
            } else {
                0int
            }),
    {
        if self.selected > 0 {
            self.selected = self.selected - 1;
        }
    }

    /// Scrolls one line down, stopping at the last line.
    pub fn scroll_down(&mut self)
        ensures
            final(self).items@ == old(self).items@,
            final(self).selected as int == (if (old(self).selected as int) < spec_last_pos(
                old(self).items@.len() as int,
            ) {
                old(self).selected + 1
            } else {
                old(self).selected as int
            }),
    {
        let last: usize = if self.items.len() == 0 {
            0
        } else {
            self.items.len() - 1
        };
        if self.selected < last {
            self.selected = self.selected + 1;
        }
    }

    /// Takes a fresh snapshot of the lines: the cursor follows the bottom if
    /// it was there, follows its old line when that line still exists, and
    /// otherwise falls to the bottom.
    pub fn update_items(&mut self, items: Vec<String>)
        ensures
            final(self).items@ == items@,
            final(self).selected as int == ({
                let lp = spec_last_pos(items@.len() as int);
                if old(self).selected as int >= spec_last_pos(old(self).items@.len() as int)
                    || (items@.len() as int) < old(self).selected as int {
                    lp
                } else if old(self).selected as int <= lp {
                    old(self).selected as int
                } else {
                    lp
                }
            }),
    {
        let was_bottom = self.is_bottom();
        let old_select = self.selected;
        let new_len = items.len();
        self.items = items;
        if was_bottom || new_len < old_select {
            if self.items.len() == 0 {
                self.selected = 0;
            } else {
                self.selected = self.items.len() - 1;
            }
        } else {
            let last: usize = if self.items.len() == 0 {
                0
            } else {
                self.items.len() - 1
            };
            self.selected = if old_select <= last {
                old_select
            } else {
                last
            };
        }
    }

    /// Appends log lines, keeping the view pinned to the bottom if it was
    /// there.
    pub fn append_logs(&mut self, logs: &Vec<String>)
        ensures
            final(self).items@ == old(self).items@ + logs@,
            final(self).selected as int == (if old(self).selected as int >= spec_last_pos(
                old(self).items@.len() as int,
            ) {
                spec_last_pos(old(self).items@.len() + logs@.len() as int)
            } else {
                old(self).selected as int
            }),
    {
        let was_bottom = self.is_bottom();
        self.append_items(logs);
        if was_bottom {
            self.select_last();
        }
    }
}

/// Whether `needle` occurs contiguously inside `hay`.
pub open spec fn spec_contains(hay: Seq<char>, needle: Seq<char>) -> bool {
    exists|k: int| 0 <= k <= hay.len() - needle.len() && #[trigger] hay.subrange(
        k,
        k + needle.len(),
    ) == needle
}

/// The indexes of the items containing `q`, scanning from `pos`.
pub open spec fn spec_filtered_from(items: Seq<Seq<char>>, q: Seq<char>, pos: int) -> Seq<int>
    decreases items.len() - pos,
{
    if pos < 0 || pos >= items.len() {
        Seq::empty()
    } else if spec_contains(items[pos], q) {
        seq![pos] + spec_filtered_from(items, q, pos + 1)
    } else {
        spec_filtered_from(items, q, pos + 1)
    }
}

/// Whether `needle` occurs inside `hay`.
fn contains_sub(hay: &Vec<char>, needle: &Vec<char>) -> (r: bool)
    ensures
        r == spec_contains(hay@, needle@),
{
    let nl = needle.len();
    let hl = hay.len();
    if nl == 0 {
        proof {
            assert(hay@.subrange(0, 0 + needle@.len() as int) =~= needle@);
            assert(spec_contains(hay@, needle@));
        }
        return true;
    }
    if nl > hl {
        proof {
            assert(!spec_contains(hay@, needle@)) by {
                assert(hay@.len() - needle@.len() < 0);
            }
        }
        return false;
    }
    let mut k: usize = 0;
    while k <= hl - nl
        invariant
            nl == needle@.len(),
            hl == hay@.len(),
            1 <= nl <= hl,
            k <= hl - nl + 1,
            forall|k2: int| 0 <= k2 < k ==> #[trigger] hay@.subrange(k2, k2 + needle@.len()) != needle@,
        decreases hl - nl - k + 1,
    {
        let mut j: usize = 0;
        let mut differs = false;
        while j < nl && !differs
            invariant
                nl == needle@.len(),
                hl == hay@.len(),
                nl <= hl,
                k <= hl - nl,
                j <= nl,
                !differs ==> forall|q: int| 0 <= q < j ==> hay@[k + q] == needle@[q],
                differs ==> hay@.subrange(k as int, k + needle@.len()) != needle@,
            decreases nl - j + (if differs {
                0int
            } else {
                1int
            }),
        {
            if hay[k + j] != needle[j] {
                proof {
                    assert(hay@.subrange(k as int, k + needle@.len())[j as int] != needle@[
                        j as int]);
                }
                differs = true;
            } else {
                j = j + 1;
            }
        }
        if !differs {
            proof {
                assert(hay@.subrange(k as int, k + needle@.len()) =~= needle@);
            }
            return true;
        }
        k = k + 1;
    }
    proof {
        assert forall|k2: int| 0 <= k2 <= hay@.len() - needle@.len() implies #[trigger] hay@
            .subrange(k2, k2 + needle@.len()) != needle@ by {}
    }
    false
}

/// The indexes of the items that contain the query, in order.
fn refilter(items: &Vec<String>, q: &str) -> (r: Vec<usize>)
    ensures
        r@.map_values(|x: usize| x as int) == spec_filtered_from(
            items@.map_values(|x: String| x@),
            q@,
            0,
        ),
        forall|j: int| 0 <= j < r@.len() ==> (#[trigger] r@[j] as int) < items@.len(),
{
    let ghost itemsv = items@.map_values(|x: String| x@);
    let qcs = crate::strutil::chars_of(q);
    let mut r: Vec<usize> = Vec::new();
    let mut i: usize = 0;
    while i < items.len()
        invariant
            itemsv == items@.map_values(|x: String| x@),
            qcs@ == q@,
            i <= itemsv.len(),
            forall|j: int| 0 <= j < r@.len() ==> (#[trigger] r@[j] as int) < items@.len(),
            spec_filtered_from(itemsv, q@, 0) == r@.map_values(|x: usize| x as int)
                + spec_filtered_from(itemsv, q@, i as int),
        decreases itemsv.len() - i,
    {
        let cs = crate::strutil::chars_of(items[i].as_str());
        let ghost pre = r@;
        if contains_sub(&cs, &qcs) {
            r.push(i);
            proof {
                assert(r@.map_values(|x: usize| x as int) =~= pre.map_values(|x: usize| x as int)
                    + seq![i as int]);
            }
        }
        i = i + 1;
    }
    proof {
        assert(spec_filtered_from(itemsv, q@, itemsv.len() as int) =~= Seq::<int>::empty());
        assert(r@.map_values(|x: usize| x as int) + Seq::<int>::empty() =~= r@.map_values(
            |x: usize| x as int,
        ));
    }
    r
}

/// Whether a select widget's filtered view matches its items and its query.
pub open spec fn filter_matches(
    items: Seq<Seq<char>>,
    q: Seq<char>,
    filtered: Seq<usize>,
) -> bool {
    filtered.map_values(|x: usize| x as int) == spec_filtered_from(items, q, 0)
}

/// A picker with a filter line and a single choice: the candidates are the
/// items containing the filter text, and the cursor walks those.
#[derive(Debug)]
pub struct SingleSelect {
    pub filter: InputForm,
    pub items: Vec<String>,
    pub filtered: Vec<usize>,
    pub cursor: Option<usize>,
    pub focus_filter: bool,
}

impl SingleSelect {
    pub open spec fn views(self) -> Seq<Seq<char>> {
        self.items@.map_values(|x: String| x@)
    }

    /// The filtered view is sound: it lists exactly the matching items and
    /// its entries index into the items.
    pub open spec fn filtered_ok(self) -> bool {
        filter_matches(self.views(), self.filter.spec_content(), self.filtered@) && (forall|
            j: int,
        | 0 <= j < self.filtered@.len() ==> (#[trigger] self.filtered@[j] as int)
            < self.items@.len())
    }

    pub fn new(now: u64) -> (r: SingleSelect)
        ensures
            r.items@.len() == 0,
            r.filtered@.len() == 0,
            r.cursor is None,
            r.focus_filter,
            r.filter.spec_content().len() == 0,
            r.filtered_ok(),
    {
        let r = SingleSelect {
            filter: InputForm::new(now),
            items: Vec::new(),
            filtered: Vec::new(),
            cursor: None,
            focus_filter: true,
        };
        proof {
            assert(r.views() =~= Seq::<Seq<char>>::empty());
            assert(r.filtered@.map_values(|x: usize| x as int) =~= spec_filtered_from(
                r.views(),
                r.filter.spec_content(),
                0,
            ));
        }
        r
    }

    /// Replaces the candidates, refilters, and puts the cursor on the first
    /// match when there is one.
    pub fn set_items(&mut self, items: Vec<String>)
        ensures
            final(self).items@ == items@,
            final(self).filter == old(self).filter,
            final(self).filtered_ok(),
            final(self).cursor == (if final(self).filtered@.len() > 0 {
                Some(0usize)
            } else {
                None::<usize>
            }),
            final(self).focus_filter == old(self).focus_filter,
    {
        self.items = items;
        let f = refilter(&self.items, self.filter.content());
        self.cursor = if f.len() > 0 {
            Some(0)
        } else {
            None
        };
        self.filtered = f;
    }

    /// Types one character into the filter and refilters; the cursor returns
    /// to the first match.
    pub fn insert_char(&mut self, c: char, now: u64)
        ensures
            final(self).items@ == old(self).items@,
            final(self).focus_filter == old(self).focus_filter,
            final(self).filter.spec_content() == old(self).filter.spec_content().insert(
                old(self).filter.spec_cursor().pos as int,
                c,
            ),
            final(self).filter.spec_cursor().pos == (if old(self).filter.spec_cursor().pos
                < usize::MAX {
                old(self).filter.spec_cursor().pos + 1
            } else {
                old(self).filter.spec_cursor().pos as int
            }),
            final(self).filter.spec_cursor().mode == Mode::Show,
            final(self).filter.spec_cursor().last_tick == now,
            final(self).filtered_ok(),
            final(self).cursor == (if final(self).filtered@.len() > 0 {
                Some(0usize)
            } else {
                None::<usize>
            }),
    {
        self.filter.insert_char(c, now);
        let f = refilter(&self.items, self.filter.content());
        self.cursor = if f.len() > 0 {
            Some(0)
        } else {
            None
        };
        self.filtered = f;
    }

    /// Erases the character before the filter cursor and refilters; the
    /// cursor returns to the first match.
    pub fn remove_char(&mut self, now: u64)
        ensures
            final(self).items@ == old(self).items@,
            final(self).focus_filter == old(self).focus_filter,
            ({
                let content = old(self).filter.spec_content();
                let pos = old(self).filter.spec_cursor().pos as int;
                if content.len() > 0 && pos > 0 {
                    final(self).filter.spec_content() == content.remove(pos - 1) && final(self).filter.spec_cursor().pos == pos - 1
                } else {
                    final(self).filter.spec_content() == content && final(self).filter.spec_cursor().pos == pos
                }
            }),
            final(self).filtered_ok(),
            final(self).cursor == (if final(self).filtered@.len() > 0 {
                Some(0usize)
            } else {
                None::<usize>
            }),
    {
        self.filter.remove_char(now);
        let f = refilter(&self.items, self.filter.content());
        self.cursor = if f.len() > 0 {
            Some(0)
        } else {
            None
        };
        self.filtered = f;
    }

    /// Moves the filter cursor one character right.
    pub fn forward_cursor(&mut self, now: u64)
        ensures
            final(self).items@ == old(self).items@,
            final(self).filtered@ == old(self).filtered@,
            final(self).cursor == old(self).cursor,
            final(self).focus_filter == old(self).focus_filter,
            final(self).filter.spec_content() == old(self).filter.spec_content(),
            final(self).filter.spec_cursor().pos == (if (old(self).filter.spec_cursor().pos as int)
                < old(self).filter.spec_content().len() {
                old(self).filter.spec_cursor().pos + 1
            } else {
                old(self).filter.spec_cursor().pos as int
            }),
    {
        self.filter.forward_cursor(now);
    }

    /// Moves the filter cursor one character left.
    pub fn back_cursor(&mut self, now: u64)
        ensures
            final(self).items@ == old(self).items@,
            final(self).filtered@ == old(self).filtered@,
            final(self).cursor == old(self).cursor,
            final(self).focus_filter == old(self).focus_filter,
            final(self).filter.spec_content() == old(self).filter.spec_content(),
            final(self).filter.spec_cursor().pos == (if old(self).filter.spec_cursor().pos > 0 {
                old(self).filter.spec_cursor().pos - 1
            } else {
                0int
            }),
    {
        self.filter.back_cursor(now);
    }

    /// Moves the choice to the next match, wrapping.
    pub fn select_next_item(&mut self)
        ensures
            final(self).items@ == old(self).items@,
            final(self).filtered@ == old(self).filtered@,
            final(self).filter == old(self).filter,
            final(self).focus_filter == old(self).focus_filter,
            final(self).cursor == spec_next_index(
                old(self).cursor,
                old(self).filtered@.len() as int,
            ),
    {
        let n = self.filtered.len();
        if n == 0 {
            self.cursor = None;
        } else {
            self.cursor = match self.cursor {
                None => Some(0),
                Some(i) => {
                    if i >= n - 1 {
                        Some(0)
                    } else {
                        Some(i + 1)
                    }
                },
            };
        }
    }

    /// Moves the choice to the previous match, wrapping.
    pub fn select_prev_item(&mut self)
        ensures
            final(self).items@ == old(self).items@,
            final(self).filtered@ == old(self).filtered@,
            final(self).filter == old(self).filter,
            final(self).focus_filter == old(self).focus_filter,
            final(self).cursor == spec_prev_index(
                old(self).cursor,
                old(self).filtered@.len() as int,
            ),
    {
        let n = self.filtered.len();
        if n == 0 {
            self.cursor = None;
        } else {
            self.cursor = match self.cursor {
                None => Some(0),
                Some(i) => {
                    if i == 0 {
                        Some(n - 1)
                    } else {
                        Some(i - 1)
                    }
                },
            };
        }
    }

    /// Moves the focus between the filter line and the match list.
    pub fn select_next_pane(&mut self)
        ensures
            final(self).items@ == old(self).items@,
            final(self).filtered@ == old(self).filtered@,
            final(self).cursor == old(self).cursor,
            final(self).filter == old(self).filter,
            final(self).focus_filter == !old(self).focus_filter,
    {
        self.focus_filter = !self.focus_filter;
    }


    /// Moves the choice to the first match, when there is one.
    pub fn select_first_item(&mut self)
        ensures
            final(self).items@ == old(self).items@,
            final(self).filtered@ == old(self).filtered@,
            final(self).filter == old(self).filter,
            final(self).focus_filter == old(self).focus_filter,
            final(self).cursor == spec_first_index(old(self).filtered@.len() as int),
    {
        if self.filtered.len() > 0 {
            self.cursor = Some(0);
        } else {
            self.cursor = None;
        }
    }

    /// Moves the choice to the last match, when there is one.
    pub fn select_last_item(&mut self)
        ensures
            final(self).items@ == old(self).items@,
            final(self).filtered@ == old(self).filtered@,
            final(self).filter == old(self).filter,
            final(self).focus_filter == old(self).focus_filter,
            final(self).cursor == spec_last_index(old(self).filtered@.len() as int),
    {
        let n = self.filtered.len();
        if n > 0 {
            self.cursor = Some(n - 1);
        } else {
            self.cursor = None;
        }
    }

    /// The chosen item, when the cursor stands on a match.
    pub fn get_item(&self) -> (r: Option<String>)
        ensures
            match r {
                Some(s) => {
                    &&& self.cursor is Some
                    &&& (self.cursor->0 as int) < self.filtered@.len()
                    &&& (self.filtered@[self.cursor->0 as int] as int) < self.items@.len()
                    &&& s@ == self.items@[self.filtered@[self.cursor->0 as int] as int]@
                },
                None => !(self.cursor is Some && (self.cursor->0 as int) < self.filtered@.len()
                    && (self.filtered@[self.cursor->0 as int] as int) < self.items@.len()),
            },
    {
        match self.cursor {
            Some(c) => {
                if c < self.filtered.len() {
                    let mi = self.filtered[c];
                    if mi < self.items.len() {
                        Some(self.items[mi].clone())
                    } else {
                        None
                    }
                } else {
                    None
                }
            },
            None => None,
        }
    }
}

/// The items marked as picked, in order, scanning from `pos`.
pub open spec fn spec_picked_from(items: Seq<Seq<char>>, picked: Seq<bool>, pos: int) -> Seq<
    Seq<char>,
>
    decreases items.len() - pos,
{
    if pos < 0 || pos >= items.len() {
        Seq::empty()
    } else if pos < picked.len() && picked[pos] {
        seq![items[pos]] + spec_picked_from(items, picked, pos + 1)
    } else {
        spec_picked_from(items, picked, pos + 1)
    }
}

/// A picker with a filter line and any number of choices: besides the
/// filter-driven cursor it keeps, for every item, whether it is picked;
/// picking is independent of the cursor.
#[derive(Debug)]
pub struct MultipleSelect {
    pub filter: InputForm,
    pub items: Vec<String>,
    pub picked: Vec<bool>,
    pub filtered: Vec<usize>,
    pub cursor: Option<usize>,
    pub focus_filter: bool,
}

impl MultipleSelect {
    pub open spec fn views(self) -> Seq<Seq<char>> {
        self.items@.map_values(|x: String| x@)
    }

    pub open spec fn filtered_ok(self) -> bool {
        filter_matches(self.views(), self.filter.spec_content(), self.filtered@) && (forall|
            j: int,
        | 0 <= j < self.filtered@.len() ==> (#[trigger] self.filtered@[j] as int)
            < self.items@.len())
    }

    pub fn new(now: u64) -> (r: MultipleSelect)
        ensures
            r.items@.len() == 0,
            r.picked@.len() == 0,
            r.filtered@.len() == 0,
            r.cursor is None,
            r.focus_filter,
            r.filter.spec_content().len() == 0,
            r.filtered_ok(),
    {
        let r = MultipleSelect {
            filter: InputForm::new(now),
            items: Vec::new(),
            picked: Vec::new(),
            filtered: Vec::new(),
            cursor: None,
            focus_filter: true,
        };
        proof {
            assert(r.views() =~= Seq::<Seq<char>>::empty());
            assert(r.filtered@.map_values(|x: usize| x as int) =~= spec_filtered_from(
                r.views(),
                r.filter.spec_content(),
                0,
            ));
        }
        r
    }

    /// Replaces the candidates: nothing is picked, the view refilters, the
    /// cursor lands on the first match.
    pub fn set_items(&mut self, items: Vec<String>)
        ensures
            final(self).items@ == items@,
            final(self).filter == old(self).filter,
            final(self).focus_filter == old(self).focus_filter,
            final(self).picked@.len() == items@.len(),
            forall|j: int| 0 <= j < items@.len() ==> !(#[trigger] final(self).picked@[j]),
            final(self).filtered_ok(),
            final(self).cursor == (if final(self).filtered@.len() > 0 {
                Some(0usize)
            } else {
                None::<usize>
            }),
    {
        let n = items.len();
        self.items = items;
        let mut picked: Vec<bool> = Vec::new();
        let mut i: usize = 0;
        while i < n
            invariant
                i <= n,
                picked@.len() == i,
                forall|j: int| 0 <= j < i ==> !(#[trigger] picked@[j]),
            decreases n - i,
        {
            picked.push(false);
            i = i + 1;
        }
        self.picked = picked;
        let f = refilter(&self.items, self.filter.content());
        self.cursor = if f.len() > 0 {
            Some(0)
        } else {
            None
        };
        self.filtered = f;
    }

    /// Types one character into the filter and refilters.
    pub fn insert_char(&mut self, c: char, now: u64)
        ensures
            final(self).items@ == old(self).items@,
            final(self).picked@ == old(self).picked@,
            final(self).focus_filter == old(self).focus_filter,
            final(self).filter.spec_content() == old(self).filter.spec_content().insert(
                old(self).filter.spec_cursor().pos as int,
                c,
            ),
            final(self).filter.spec_cursor().pos == (if old(self).filter.spec_cursor().pos
                < usize::MAX {
                old(self).filter.spec_cursor().pos + 1
            } else {
                old(self).filter.spec_cursor().pos as int
            }),
            final(self).filtered_ok(),
            final(self).cursor == (if final(self).filtered@.len() > 0 {
                Some(0usize)
            } else {
                None::<usize>
            }),
    {
        self.filter.insert_char(c, now);
        let f = refilter(&self.items, self.filter.content());
        self.cursor = if f.len() > 0 {
            Some(0)
        } else {
            None
        };
        self.filtered = f;
    }

    /// Erases the character before the filter cursor and refilters.
    pub fn remove_char(&mut self, now: u64)
        ensures
            final(self).items@ == old(self).items@,
            final(self).picked@ == old(self).picked@,
            final(self).focus_filter == old(self).focus_filter,
            ({
                let content = old(self).filter.spec_content();
                let pos = old(self).filter.spec_cursor().pos as int;
                if content.len() > 0 && pos > 0 {
                    final(self).filter.spec_content() == content.remove(pos - 1) && final(self).filter.spec_cursor().pos == pos - 1
                } else {
                    final(self).filter.spec_content() == content && final(self).filter.spec_cursor().pos == pos
                }
            }),
            final(self).filtered_ok(),
            final(self).cursor == (if final(self).filtered@.len() > 0 {
                Some(0usize)
            } else {
                None::<usize>
            }),
    {
        self.filter.remove_char(now);
        let f = refilter(&self.items, self.filter.content());
        self.cursor = if f.len() > 0 {
            Some(0)
        } else {
            None
        };
        self.filtered = f;
    }

    pub fn forward_cursor(&mut self, now: u64)
        ensures
            final(self).items@ == old(self).items@,
            final(self).picked@ == old(self).picked@,
            final(self).filtered@ == old(self).filtered@,
            final(self).cursor == old(self).cursor,
            final(self).focus_filter == old(self).focus_filter,
            final(self).filter.spec_content() == old(self).filter.spec_content(),
            final(self).filter.spec_cursor().pos == (if (old(self).filter.spec_cursor().pos as int)
                < old(self).filter.spec_content().len() {
                old(self).filter.spec_cursor().pos + 1
            } else {
                old(self).filter.spec_cursor().pos as int
            }),
    {
        self.filter.forward_cursor(now);
    }

    pub fn back_cursor(&mut self, now: u64)
        ensures
            final(self).items@ == old(self).items@,
            final(self).picked@ == old(self).picked@,
            final(self).filtered@ == old(self).filtered@,
            final(self).cursor == old(self).cursor,
            final(self).focus_filter == old(self).focus_filter,
            final(self).filter.spec_content() == old(self).filter.spec_content(),
            final(self).filter.spec_cursor().pos == (if old(self).filter.spec_cursor().pos > 0 {
                old(self).filter.spec_cursor().pos - 1
            } else {
                0int
            }),
    {
        self.filter.back_cursor(now);
    }

    pub fn select_next_item(&mut self)
        ensures
            final(self).items@ == old(self).items@,
            final(self).picked@ == old(self).picked@,
            final(self).filtered@ == old(self).filtered@,
            final(self).filter == old(self).filter,
            final(self).focus_filter == old(self).focus_filter,
            final(self).cursor == spec_next_index(
                old(self).cursor,
                old(self).filtered@.len() as int,
            ),
    {
        let n = self.filtered.len();
        if n == 0 {
            self.cursor = None;
        } else {
            self.cursor = match self.cursor {
                None => Some(0),
                Some(i) => {
                    if i >= n - 1 {
                        Some(0)
                    } else {
                        Some(i + 1)
                    }
                },
            };
        }
    }

    pub fn select_prev_item(&mut self)
        ensures
            final(self).items@ == old(self).items@,
            final(self).picked@ == old(self).picked@,
            final(self).filtered@ == old(self).filtered@,
            final(self).filter == old(self).filter,
            final(self).focus_filter == old(self).focus_filter,
            final(self).cursor == spec_prev_index(
                old(self).cursor,
                old(self).filtered@.len() as int,
            ),
    {
        let n = self.filtered.len();
        if n == 0 {
            self.cursor = None;
        } else {
            self.cursor = match self.cursor {
                None => Some(0),
                Some(i) => {
                    if i == 0 {
                        Some(n - 1)
                    } else {
                        Some(i - 1)
                    }
                },
            };
        }
    }

    pub fn select_next_pane(&mut self)
        ensures
            final(self).items@ == old(self).items@,
            final(self).picked@ == old(self).picked@,
            final(self).filtered@ == old(self).filtered@,
            final(self).cursor == old(self).cursor,
            final(self).filter == old(self).filter,
            final(self).focus_filter == !old(self).focus_filter,
    {
        self.focus_filter = !self.focus_filter;
    }


    /// Moves the choice to the first match, when there is one.
    pub fn select_first_item(&mut self)
        ensures
            final(self).items@ == old(self).items@,
            final(self).filtered@ == old(self).filtered@,
            final(self).filter == old(self).filter,
            final(self).focus_filter == old(self).focus_filter,
            final(self).picked@ == old(self).picked@,
            final(self).cursor == spec_first_index(old(self).filtered@.len() as int),
    {
        if self.filtered.len() > 0 {
            self.cursor = Some(0);
        } else {
            self.cursor = None;
        }
    }

    /// Moves the choice to the last match, when there is one.
    pub fn select_last_item(&mut self)
        ensures
            final(self).items@ == old(self).items@,
            final(self).filtered@ == old(self).filtered@,
            final(self).filter == old(self).filter,
            final(self).focus_filter == old(self).focus_filter,
            final(self).picked@ == old(self).picked@,
            final(self).cursor == spec_last_index(old(self).filtered@.len() as int),
    {
        let n = self.filtered.len();
        if n > 0 {
            self.cursor = Some(n - 1);
        } else {
            self.cursor = None;
        }
    }

    /// Flips whether the item under the cursor is picked; the cursor itself
    /// stays put.
    pub fn toggle_select_unselect(&mut self)
        ensures
            final(self).items@ == old(self).items@,
            final(self).filtered@ == old(self).filtered@,
            final(self).cursor == old(self).cursor,
            final(self).focus_filter == old(self).focus_filter,
            final(self).filter == old(self).filter,
            ({
                let valid = old(self).cursor is Some && (old(self).cursor->0 as int) < old(
                    self,
                ).filtered@.len() && (old(self).filtered@[old(self).cursor->0 as int] as int)
                    < old(self).picked@.len();
                if valid {
                    final(self).picked@ == old(self).picked@.update(
                        old(self).filtered@[old(self).cursor->0 as int] as int,
                        !old(self).picked@[old(self).filtered@[old(self).cursor->0 as int] as int],
                    )
                } else {
                    final(self).picked@ == old(self).picked@
                }
            }),
    {
        match self.cursor {
            Some(c) => {
                if c < self.filtered.len() {
                    let mi = self.filtered[c];
                    if mi < self.picked.len() {
                        let v = self.picked[mi];
                        let _ = self.picked.remove(mi);
                        self.picked.insert(mi, !v);
                        proof {
                            assert(self.picked@ =~= old(self).picked@.update(mi as int, !v));
                        }
                    }
                }
            },
            None => {},
        }
    }

    /// The picked items, in item order.
    pub fn selected_items(&self) -> (r: Vec<String>)
        ensures
            r@.map_values(|x: String| x@) == spec_picked_from(self.views(), self.picked@, 0),
    {
        let ghost itemsv = self.items@.map_values(|x: String| x@);
        let mut r: Vec<String> = Vec::new();
        let mut i: usize = 0;
        while i < self.items.len()
            invariant
                itemsv == self.items@.map_values(|x: String| x@),
                i <= itemsv.len(),
                spec_picked_from(itemsv, self.picked@, 0) == r@.map_values(|x: String| x@)
                    + spec_picked_from(itemsv, self.picked@, i as int),
            decreases itemsv.len() - i,
        {
            let ghost pre = r@;
            if i < self.picked.len() && self.picked[i] {
                r.push(self.items[i].clone());
                proof {
                    assert(r@.map_values(|x: String| x@) =~= pre.map_values(|x: String| x@)
                        + seq![itemsv[i as int]]);
                }
            }
            i = i + 1;
        }
        proof {
            assert(spec_picked_from(itemsv, self.picked@, itemsv.len() as int) =~= Seq::<
                Seq<char>,
            >::empty());
            assert(r@.map_values(|x: String| x@) + Seq::<Seq<char>>::empty() =~= r@.map_values(
                |x: String| x@,
            ));
        }
        r
    }
}

} // verus!
