//! The window tree: tabs, panes and their widgets, with focus, navigation
//! and the pane updates the dispatch loop performs. Every operation is
//! specified against an abstract view of the tree; the view abstracts the
//! cursor blink timers away.

use vstd::prelude::*;

use crate::event::PaneId;
use crate::event::SubWindowId;
use crate::event::TabId;
use crate::widget::List;
use crate::widget::MultipleSelect;
use crate::widget::SingleSelect;
use crate::widget::TableWidget;
use crate::widget::TextWidget;
use crate::widget::spec_next_index;
use crate::widget::spec_prev_index;
use crate::widget::spec_clamp_index;
use crate::widget::spec_last_pos;

verus! {

/// The uniform navigation operations every focusable widget answers.
#[derive(Debug, Clone, Copy, PartialEq, Eq, Structural)]
pub enum NavOp {
    NextItem,
    PrevItem,
    FirstItem,
    LastItem,
    ScrollUp,
    ScrollDown,
}

/// The abstract state of one widget; filter views carry the filter text and
/// its cursor position but not the blink timer.
#[verifier::ext_equal]
pub enum WidgetView {
    List { items: Seq<Seq<char>>, selected: Option<int> },
    Table { items: Seq<Seq<Seq<char>>>, selected: Option<int> },
    Text { items: Seq<Seq<char>>, selected: int },
    SingleSelect {
        filter: Seq<char>,
        filter_pos: int,
        items: Seq<Seq<char>>,
        filtered: Seq<int>,
        cursor: Option<int>,
        focus_filter: bool,
    },
    MultipleSelect {
        filter: Seq<char>,
        filter_pos: int,
        items: Seq<Seq<char>>,
        picked: Seq<bool>,
        filtered: Seq<int>,
        cursor: Option<int>,
        focus_filter: bool,
    },
    Blank,
}

#[verifier::ext_equal]
pub struct PaneView {
    pub id: PaneId,
    pub title: Seq<char>,
    pub chunk_index: int,
    pub widget: WidgetView,
}

#[verifier::ext_equal]
pub struct TabView {
    pub id: TabId,
    pub title: Seq<char>,
    pub panes: Seq<PaneView>,
    pub selected_pane_index: int,
    pub selectable: Seq<int>,
}

#[verifier::ext_equal]
pub struct WindowView {
    pub tabs: Seq<TabView>,
    pub selected_tab_index: int,
}

/// One widget a pane hosts: a closed set of kinds.
#[derive(Debug)]
pub enum Widget {
    List(List),
    Table(TableWidget),
    Text(TextWidget),
    SingleSelect(SingleSelect),
    MultipleSelect(MultipleSelect),
    Blank,
}

impl View for Widget {
    type V = WidgetView;

    open spec fn view(&self) -> WidgetView {
        match self {
            Widget::List(l) => WidgetView::List {
                items: l.items@.map_values(|s: String| s@),
                selected: spec_opt_int(l.selected),
            },
            Widget::Table(t) => WidgetView::Table {
                items: t.items@.map_values(|r: Vec<String>| r@.map_values(|s: String| s@)),
                selected: spec_opt_int(t.selected),
            },
            Widget::Text(t) => WidgetView::Text {
                items: t.items@.map_values(|s: String| s@),
                selected: t.selected as int,
            },
            Widget::SingleSelect(s) => WidgetView::SingleSelect {
                filter: s.filter.spec_content(),
                filter_pos: s.filter.spec_cursor().pos as int,
                items: s.items@.map_values(|x: String| x@),
                filtered: s.filtered@.map_values(|x: usize| x as int),
                cursor: spec_opt_int(s.cursor),
                focus_filter: s.focus_filter,
            },
            Widget::MultipleSelect(s) => WidgetView::MultipleSelect {
                filter: s.filter.spec_content(),
                filter_pos: s.filter.spec_cursor().pos as int,
                items: s.items@.map_values(|x: String| x@),
                picked: s.picked@,
                filtered: s.filtered@.map_values(|x: usize| x as int),
                cursor: spec_opt_int(s.cursor),
                focus_filter: s.focus_filter,
            },
            Widget::Blank => WidgetView::Blank,
        }
    }
}

pub open spec fn spec_opt_int(o: Option<usize>) -> Option<int> {
    match o {
        Some(i) => Some(i as int),
        None => None,
    }
}

/// A rectangular region of a tab hosting one widget.
#[derive(Debug)]
pub struct Pane {
    pub id: PaneId,
    pub title: String,
    pub widget: Widget,
    pub chunk_index: usize,
}

impl View for Pane {
    type V = PaneView;

    open spec fn view(&self) -> PaneView {
        PaneView {
            id: self.id,
            title: self.title@,
            chunk_index: self.chunk_index as int,
            widget: self.widget@,
        }
    }
}

/// One tab: its panes, the focused pane, and which panes can take focus.
#[derive(Debug)]
pub struct Tab {
    pub id: TabId,
    pub title: String,
    pub panes: Vec<Pane>,
    pub selected_pane_index: usize,
    pub selectable_widgets: Vec<usize>,
}

impl View for Tab {
    type V = TabView;

    open spec fn view(&self) -> TabView {
        TabView {
            id: self.id,
            title: self.title@,
            panes: self.panes@.map_values(|p: Pane| p@),
            selected_pane_index: self.selected_pane_index as int,
            selectable: self.selectable_widgets@.map_values(|x: usize| x as int),
        }
    }
}

/// The main window: its tabs and the selected tab.
#[derive(Debug)]
pub struct Window {
    pub tabs: Vec<Tab>,
    pub selected_tab_index: usize,
}

impl View for Window {
    type V = WindowView;

    open spec fn view(&self) -> WindowView {
        WindowView {
            tabs: self.tabs@.map_values(|t: Tab| t@),
            selected_tab_index: self.selected_tab_index as int,
        }
    }
}

/// A modal overlay holding one focused widget; while open it alone receives
/// input.
#[derive(Debug)]
pub struct SubWindow<W> {
    pub id: SubWindowId,
    pub widget: W,
}

impl<W> SubWindow<W> {
    pub fn new(id: SubWindowId, widget: W) -> (r: SubWindow<W>)
        ensures
            r.id == id,
            r.widget == widget,
    {
        SubWindow { id, widget }
    }

    pub fn pane(&self) -> (r: &W)
        ensures
            r == self.widget,
    {
        &self.widget
    }
}

/// Navigation over an optional selection, per operation.
pub open spec fn spec_nav_opt(sel: Option<int>, n: int, op: NavOp) -> Option<int> {
    match op {
        NavOp::NextItem | NavOp::ScrollDown => spec_opt_int(
            spec_next_index(spec_opt_usize(sel), n),
        ),
        NavOp::PrevItem | NavOp::ScrollUp => spec_opt_int(spec_prev_index(spec_opt_usize(sel), n)),
        NavOp::FirstItem => spec_opt_int(crate::widget::spec_first_index(n)),
        NavOp::LastItem => spec_opt_int(crate::widget::spec_last_index(n)),
    }
}

pub open spec fn spec_opt_usize(o: Option<int>) -> Option<usize> {
    match o {
        Some(i) => Some(i as usize),
        None => None,
    }
}

/// Navigation of a text scroll position, per operation.
pub open spec fn spec_nav_text(sel: int, n: int, op: NavOp) -> int {
    match op {
        NavOp::NextItem | NavOp::ScrollDown => if sel < spec_last_pos(n) {
            sel + 1
        } else {
            sel
        },
        NavOp::PrevItem | NavOp::ScrollUp => if sel > 0 {
            sel - 1
        } else {
            0
        },
        NavOp::FirstItem => 0,
        NavOp::LastItem => spec_last_pos(n),
    }
}

/// What one navigation operation does to one widget.
pub open spec fn spec_widget_nav(v: WidgetView, op: NavOp) -> WidgetView {
    match v {
        WidgetView::List { items, selected } => WidgetView::List {
            items,
            selected: spec_nav_opt(selected, items.len() as int, op),
        },
        WidgetView::Table { items, selected } => WidgetView::Table {
            items,
            selected: spec_nav_opt(selected, items.len() as int, op),
        },
        WidgetView::Text { items, selected } => WidgetView::Text {
            items,
            selected: spec_nav_text(selected, items.len() as int, op),
        },
        WidgetView::SingleSelect { filter, filter_pos, items, filtered, cursor, focus_filter } =>
            WidgetView::SingleSelect {
            filter,
            filter_pos,
            items,
            filtered,
            cursor: spec_nav_opt(cursor, filtered.len() as int, op),
            focus_filter,
        },
        WidgetView::MultipleSelect {
            filter,
            filter_pos,
            items,
            picked,
            filtered,
            cursor,
            focus_filter,
        } => WidgetView::MultipleSelect {
            filter,
            filter_pos,
            items,
            picked,
            filtered,
            cursor: spec_nav_opt(cursor, filtered.len() as int, op),
            focus_filter,
        },
        WidgetView::Blank => WidgetView::Blank,
    }
}

/// Navigation reaches the focused pane of the tab, when there is one.
pub open spec fn spec_tab_nav(t: TabView, op: NavOp) -> TabView {
    if 0 <= t.selected_pane_index < t.panes.len() {
        let p = t.panes[t.selected_pane_index];
        TabView {
            panes: t.panes.update(
                t.selected_pane_index,
                PaneView { widget: spec_widget_nav(p.widget, op), ..p },
            ),
            ..t
        }
    } else {
        t
    }
}

/// Navigation reaches the focused widget of the selected tab, when there is
/// one.
pub open spec fn spec_window_nav(w: WindowView, op: NavOp) -> WindowView {
    if 0 <= w.selected_tab_index < w.tabs.len() {
        WindowView {
            tabs: w.tabs.update(
                w.selected_tab_index,
                spec_tab_nav(w.tabs[w.selected_tab_index], op),
            ),
            ..w
        }
    } else {
        w
    }
}

impl Widget {
    /// Applies one navigation operation; inert on an empty collection and on
    /// a blank pane.
    pub fn navigate(&mut self, op: NavOp)
        ensures
            final(self)@ == spec_widget_nav(old(self)@, op),
    {
        let mut w = Widget::Blank;
        std::mem::swap(&mut w, self);
        match w {
            Widget::List(mut l) => {
                match op {
                    NavOp::NextItem | NavOp::ScrollDown => l.next(),
                    NavOp::PrevItem | NavOp::ScrollUp => l.prev(),
                    NavOp::FirstItem => l.select_first(),
                    NavOp::LastItem => l.select_last(),
                }
                *self = Widget::List(l);
            },
            Widget::Table(mut t) => {
                match op {
                    NavOp::NextItem | NavOp::ScrollDown => t.next(),
                    NavOp::PrevItem | NavOp::ScrollUp => t.prev(),
                    NavOp::FirstItem => t.select_first(),
                    NavOp::LastItem => t.select_last(),
                }
                *self = Widget::Table(t);
            },
            Widget::Text(mut t) => {
                match op {
                    NavOp::NextItem | NavOp::ScrollDown => t.scroll_down(),
                    NavOp::PrevItem | NavOp::ScrollUp => t.scroll_up(),
                    NavOp::FirstItem => t.select(0),
                    NavOp::LastItem => t.select_last(),
                }
                *self = Widget::Text(t);
            },
            Widget::SingleSelect(mut s) => {
                match op {
                    NavOp::NextItem | NavOp::ScrollDown => s.select_next_item(),
                    NavOp::PrevItem | NavOp::ScrollUp => s.select_prev_item(),
                    NavOp::FirstItem => s.select_first_item(),
                    NavOp::LastItem => s.select_last_item(),
                }
                *self = Widget::SingleSelect(s);
            },
            Widget::MultipleSelect(mut s) => {
                match op {
                    NavOp::NextItem | NavOp::ScrollDown => s.select_next_item(),
                    NavOp::PrevItem | NavOp::ScrollUp => s.select_prev_item(),
                    NavOp::FirstItem => s.select_first_item(),
                    NavOp::LastItem => s.select_last_item(),
                }
                *self = Widget::MultipleSelect(s);
            },
            Widget::Blank => {
                *self = Widget::Blank;
            },
        }
        proof {
            assert(self@ =~= spec_widget_nav(old(self)@, op));
        }
    }
}

/// An update the dispatch loop applies to one pane's widget.
#[derive(Debug)]
pub enum WidgetOp {
    Clear,
    SetList(Vec<String>),
    SetTable(Vec<Vec<String>>),
    SetText(Vec<String>),
    UpdateText(Vec<String>),
    AppendLogs(Vec<String>),
}

#[verifier::ext_equal]
pub enum WidgetOpView {
    Clear,
    SetList(Seq<Seq<char>>),
    SetTable(Seq<Seq<Seq<char>>>),
    SetText(Seq<Seq<char>>),
    UpdateText(Seq<Seq<char>>),
    AppendLogs(Seq<Seq<char>>),
}

impl View for WidgetOp {
    type V = WidgetOpView;

    open spec fn view(&self) -> WidgetOpView {
        match self {
            WidgetOp::Clear => WidgetOpView::Clear,
            WidgetOp::SetList(v) => WidgetOpView::SetList(v@.map_values(|s: String| s@)),
            WidgetOp::SetTable(v) => WidgetOpView::SetTable(
                v@.map_values(|r: Vec<String>| r@.map_values(|s: String| s@)),
            ),
            WidgetOp::SetText(v) => WidgetOpView::SetText(v@.map_values(|s: String| s@)),
            WidgetOp::UpdateText(v) => WidgetOpView::UpdateText(v@.map_values(|s: String| s@)),
            WidgetOp::AppendLogs(v) => WidgetOpView::AppendLogs(v@.map_values(|s: String| s@)),
        }
    }
}

/// What one update does to one widget; an update aimed at another widget
/// kind leaves the widget alone.
pub open spec fn spec_widget_apply(v: WidgetView, op: WidgetOpView) -> WidgetView {
    match (v, op) {
        (WidgetView::List { items, selected }, WidgetOpView::Clear) => WidgetView::List {
            items: Seq::empty(),
            selected: None,
        },
        (WidgetView::Table { items, selected }, WidgetOpView::Clear) => WidgetView::Table {
            items: Seq::empty(),
            selected: None,
        },
        (WidgetView::Text { items, selected }, WidgetOpView::Clear) => WidgetView::Text {
            items: Seq::empty(),
            selected: 0,
        },
        (WidgetView::List { items, selected }, WidgetOpView::SetList(new_items)) =>
            WidgetView::List {
            items: new_items,
            selected: spec_opt_int(
                spec_clamp_index(spec_opt_usize(selected), new_items.len() as int),
            ),
        },
        (WidgetView::Table { items, selected }, WidgetOpView::SetTable(new_items)) =>
            WidgetView::Table {
            items: new_items,
            selected: spec_opt_int(
                spec_clamp_index(spec_opt_usize(selected), new_items.len() as int),
            ),
        },
        (WidgetView::Text { items, selected }, WidgetOpView::SetText(new_items)) =>
            WidgetView::Text {
            items: new_items,
            selected: if selected <= spec_last_pos(new_items.len() as int) {
                selected
            } else {
                spec_last_pos(new_items.len() as int)
            },
        },
        (WidgetView::Text { items, selected }, WidgetOpView::UpdateText(new_items)) =>
            WidgetView::Text {
            items: new_items,
            selected: {
                let lp = spec_last_pos(new_items.len() as int);
                if selected >= spec_last_pos(items.len() as int) || (new_items.len() as int)
                    < selected {
                    lp
                } else if selected <= lp {
                    selected
                } else {
                    lp
                }
            },
        },
        (WidgetView::Text { items, selected }, WidgetOpView::AppendLogs(logs)) =>
            WidgetView::Text {
            items: items + logs,
            selected: if selected >= spec_last_pos(items.len() as int) {
                spec_last_pos(items.len() + logs.len() as int)
            } else {
                selected
            },
        },
        (_, _) => v,
    }
}

impl Widget {
    /// Applies one update; updates aimed at another widget kind do nothing.
    pub fn apply(&mut self, op: WidgetOp)
        ensures
            final(self)@ == spec_widget_apply(old(self)@, op@),
    {
        let ghost opv = op@;
        let mut w = Widget::Blank;
        std::mem::swap(&mut w, self);
        match (w, op) {
            (Widget::List(mut l), WidgetOp::Clear) => {
                l.set_items(Vec::new());
                l.unselect();
                *self = Widget::List(l);
            },
            (Widget::Table(mut t), WidgetOp::Clear) => {
                t.set_items(Vec::new());
                *self = Widget::Table(t);
            },
            (Widget::Text(mut t), WidgetOp::Clear) => {
                t.clear();
                *self = Widget::Text(t);
            },
            (Widget::List(mut l), WidgetOp::SetList(items)) => {
                l.set_items(items);
                *self = Widget::List(l);
            },
            (Widget::Table(mut t), WidgetOp::SetTable(items)) => {
                t.set_items(items);
                *self = Widget::Table(t);
            },
            (Widget::Text(mut t), WidgetOp::SetText(items)) => {
                t.set_items(items);
                *self = Widget::Text(t);
            },
            (Widget::Text(mut t), WidgetOp::UpdateText(items)) => {
                t.update_items(items);
                *self = Widget::Text(t);
            },
            (Widget::Text(mut t), WidgetOp::AppendLogs(logs)) => {
                t.append_logs(&logs);
                *self = Widget::Text(t);
            },
            (other, _) => {
                *self = other;
            },
        }
        proof {
            assert(self@ =~= spec_widget_apply(old(self)@, opv));
        }
    }
}

/// The indexes of the panes that can take focus: every pane whose widget is
/// not blank.
pub open spec fn spec_selectable_from(panes: Seq<PaneView>, pos: int) -> Seq<int>
    decreases panes.len() - pos,
{
    if pos < 0 || pos >= panes.len() {
        Seq::empty()
    } else if !(panes[pos].widget is Blank) {
        seq![pos] + spec_selectable_from(panes, pos + 1)
    } else {
        spec_selectable_from(panes, pos + 1)
    }
}

/// The first selectable index strictly after `cur`, scanning from `pos`; the
/// length of `sel` if there is none.
pub open spec fn spec_first_greater(sel: Seq<int>, cur: int, pos: int) -> int
    decreases sel.len() - pos,
{
    if pos < 0 || pos >= sel.len() {
        sel.len() as int
    } else if sel[pos] > cur {
        pos
    } else {
        spec_first_greater(sel, cur, pos + 1)
    }
}

/// Where pane focus moves next: the next selectable pane after the current
/// one, wrapping to the first; nowhere when nothing is selectable.
pub open spec fn spec_next_selectable(sel: Seq<int>, cur: int) -> int {
    if sel.len() == 0 {
        cur
    } else {
        let g = spec_first_greater(sel, cur, 0);
        if g < sel.len() {
            sel[g]
        } else {
            sel[0]
        }
    }
}

/// The last selectable index strictly before `cur`, scanning from `pos` with
/// `acc` the best so far.
pub open spec fn spec_last_smaller(sel: Seq<int>, cur: int, pos: int, acc: Option<int>) -> Option<
    int,
>
    decreases sel.len() - pos,
{
    if pos < 0 || pos >= sel.len() {
        acc
    } else if sel[pos] < cur {
        spec_last_smaller(sel, cur, pos + 1, Some(pos))
    } else {
        spec_last_smaller(sel, cur, pos + 1, acc)
    }
}

/// Where pane focus moves back to: the previous selectable pane, wrapping to
/// the last; nowhere when nothing is selectable.
pub open spec fn spec_prev_selectable(sel: Seq<int>, cur: int) -> int {
    if sel.len() == 0 {
        cur
    } else {
        match spec_last_smaller(sel, cur, 0, None) {
            Some(p) => sel[p],
            None => sel[sel.len() - 1],
        }
    }
}

impl Pane {
    pub fn new(id: PaneId, title: String, widget: Widget, chunk_index: usize) -> (r: Pane)
        ensures
            r@ == (PaneView {
                id,
                title: title@,
                chunk_index: chunk_index as int,
                widget: widget@,
            }),
    {
        Pane { id, title, widget, chunk_index }
    }

    pub fn widget(&self) -> (r: &Widget)
        ensures
            r@ == self@.widget,
    {
        &self.widget
    }

    pub fn title(&self) -> (r: &str)
        ensures
            r@ == self@.title,
    {
        self.title.as_str()
    }

    pub fn chunk_index(&self) -> (r: usize)
        ensures
            r as int == self@.chunk_index,
    {
        self.chunk_index
    }

    /// Moves the pane's widget selection to the next item.
    pub fn next_item(&mut self)
        ensures
            final(self)@ == (PaneView {
                widget: spec_widget_nav(old(self)@.widget, NavOp::NextItem),
                ..old(self)@
            }),
    {
        self.widget.navigate(NavOp::NextItem);
        proof {
            assert(self@ =~= PaneView {
                widget: spec_widget_nav(old(self)@.widget, NavOp::NextItem),
                ..old(self)@
            });
        }
    }

    /// Moves the pane's widget selection to the previous item.
    pub fn prev_item(&mut self)
        ensures
            final(self)@ == (PaneView {
                widget: spec_widget_nav(old(self)@.widget, NavOp::PrevItem),
                ..old(self)@
            }),
    {
        self.widget.navigate(NavOp::PrevItem);
        proof {
            assert(self@ =~= PaneView {
                widget: spec_widget_nav(old(self)@.widget, NavOp::PrevItem),
                ..old(self)@
            });
        }
    }
}

/// The pane index a fresh tab focuses: the first selectable pane, or `0`.
pub open spec fn spec_first_selected(sel: Seq<int>) -> int {
    if sel.len() > 0 {
        sel[0]
    } else {
        0
    }
}

impl Tab {
    /// A tab over the given panes; the selectable panes are those whose
    /// widget is not blank, and the first of them (if any) starts focused.
    pub fn new(id: TabId, title: String, panes: Vec<Pane>) -> (r: Tab)
        ensures
            r@ == (TabView {
                id,
                title: title@,
                panes: panes@.map_values(|p: Pane| p@),
                selected_pane_index: spec_first_selected(
                    spec_selectable_from(panes@.map_values(|p: Pane| p@), 0),
                ),
                selectable: spec_selectable_from(panes@.map_values(|p: Pane| p@), 0),
            }),
    {
        let ghost panesv = panes@.map_values(|p: Pane| p@);
        let mut selectable: Vec<usize> = Vec::new();
        let mut i: usize = 0;
        while i < panes.len()
            invariant
                panesv == panes@.map_values(|p: Pane| p@),
                i <= panesv.len(),
                spec_selectable_from(panesv, 0) == selectable@.map_values(|x: usize| x as int)
                    + spec_selectable_from(panesv, i as int),
            decreases panesv.len() - i,
        {
            let ghost pre = selectable@;
            let is_blank = match &panes[i].widget {
                Widget::Blank => true,
                _ => false,
            };
            if !is_blank {
                selectable.push(i);
                proof {
                    assert(selectable@.map_values(|x: usize| x as int) =~= pre.map_values(
                        |x: usize| x as int,
                    ) + seq![i as int]);
                }
            }
            i = i + 1;
        }
        proof {
            assert(spec_selectable_from(panesv, panesv.len() as int) =~= Seq::<int>::empty());
            assert(selectable@.map_values(|x: usize| x as int) + Seq::<int>::empty()
                =~= selectable@.map_values(|x: usize| x as int));
        }
        let selected_pane_index: usize = if selectable.len() > 0 {
            selectable[0]
        } else {
            0
        };
        let r = Tab { id, title, panes, selected_pane_index, selectable_widgets: selectable };
        proof {
            assert(r@ =~= TabView {
                id,
                title: r.title@,
                panes: panesv,
                selected_pane_index: spec_first_selected(spec_selectable_from(panesv, 0)),
                selectable: spec_selectable_from(panesv, 0),
            });
        }
        r
    }

    pub fn title(&self) -> (r: &str)
        ensures
            r@ == self@.title,
    {
        self.title.as_str()
    }

    pub fn panes(&self) -> (r: &Vec<Pane>)
        ensures
            r@.map_values(|p: Pane| p@) == self@.panes,
    {
        &self.panes
    }

    /// The focused pane, when the focus index is in bounds.
    pub fn selected_pane(&self) -> (r: Option<&Pane>)
        ensures
            match r {
                Some(p) => 0 <= self@.selected_pane_index < self@.panes.len() && p@
                    == self@.panes[self@.selected_pane_index],
                None => !(0 <= self@.selected_pane_index < self@.panes.len()),
            },
    {
        if self.selected_pane_index < self.panes.len() {
            Some(&self.panes[self.selected_pane_index])
        } else {
            None
        }
    }

    /// Moves the focus to the next selectable pane, wrapping from the last
    /// to the first.
    pub fn next_pane(&mut self)
        ensures
            final(self)@ == (TabView {
                selected_pane_index: spec_next_selectable(
                    old(self)@.selectable,
                    old(self)@.selected_pane_index,
                ),
                ..old(self)@
            }),
    {
        let ghost selv = self.selectable_widgets@.map_values(|x: usize| x as int);
        let ghost cur = self.selected_pane_index as int;
        let n = self.selectable_widgets.len();
        if n == 0 {
            proof {
                assert(self@ =~= TabView {
                    selected_pane_index: spec_next_selectable(selv, cur),
                    ..old(self)@
                });
            }
            return;
        }
        let mut i: usize = 0;
        let mut found: Option<usize> = None;
        while i < n
            invariant_except_break
                found is None,
                spec_first_greater(selv, cur, 0) == spec_first_greater(selv, cur, i as int),
            invariant
                selv == self.selectable_widgets@.map_values(|x: usize| x as int),
                cur == self.selected_pane_index as int,
                n == selv.len(),
                i <= n,
            ensures
                selv == self.selectable_widgets@.map_values(|x: usize| x as int),
                cur == self.selected_pane_index as int,
                match found {
                    Some(g) => g < n && spec_first_greater(selv, cur, 0) == g as int,
                    None => spec_first_greater(selv, cur, 0) == selv.len(),
                },
            decreases n - i,
        {
            if self.selectable_widgets[i] > self.selected_pane_index {
                found = Some(i);
                break;
            }
            i = i + 1;
        }
        match found {
            Some(g) => {
                self.selected_pane_index = self.selectable_widgets[g];
            },
            None => {
                self.selected_pane_index = self.selectable_widgets[0];
            },
        }
        proof {
            assert(self@ =~= TabView {
                selected_pane_index: spec_next_selectable(selv, cur),
                ..old(self)@
            });
        }
    }

    /// Moves the focus to the previous selectable pane, wrapping from the
    /// first to the last.
    pub fn prev_pane(&mut self)
        ensures
            final(self)@ == (TabView {
                selected_pane_index: spec_prev_selectable(
                    old(self)@.selectable,
                    old(self)@.selected_pane_index,
                ),
                ..old(self)@
            }),
    {
        let ghost selv = self.selectable_widgets@.map_values(|x: usize| x as int);
        let ghost cur = self.selected_pane_index as int;
        let n = self.selectable_widgets.len();
        if n == 0 {
            proof {
                assert(self@ =~= TabView {
                    selected_pane_index: spec_prev_selectable(selv, cur),
                    ..old(self)@
                });
            }
            return;
        }
        let mut i: usize = 0;
        let mut acc: Option<usize> = None;
        while i < n
            invariant
                selv == self.selectable_widgets@.map_values(|x: usize| x as int),
                cur == self.selected_pane_index as int,
                n == selv.len(),
                i <= n,
                (match acc {
                    Some(a) => a < n,
                    None => true,
                }),
                spec_last_smaller(selv, cur, 0, None) == spec_last_smaller(
                    selv,
                    cur,
                    i as int,
                    match acc {
                        Some(a) => Some(a as int),
                        None => None,
                    },
                ),
            decreases n - i,
        {
            if self.selectable_widgets[i] < self.selected_pane_index {
                acc = Some(i);
            }
            i = i + 1;
        }
        match acc {
            Some(a) => {
                self.selected_pane_index = self.selectable_widgets[a];
            },
            None => {
                self.selected_pane_index = self.selectable_widgets[n - 1];
            },
        }
        proof {
            assert(self@ =~= TabView {
                selected_pane_index: spec_prev_selectable(selv, cur),
                ..old(self)@
            });
        }
    }

    /// Routes one navigation operation to the focused pane's widget.
    pub fn navigate(&mut self, op: NavOp)
        ensures
            final(self)@ == spec_tab_nav(old(self)@, op),
    {
        if self.selected_pane_index < self.panes.len() {
            let pi = self.selected_pane_index;
            let mut pane = self.panes.remove(pi);
            pane.widget.navigate(op);
            self.panes.insert(pi, pane);
            proof {
                assert(self.panes@.map_values(|p: Pane| p@) =~= old(self)@.panes.update(
                    pi as int,
                    PaneView {
                        widget: spec_widget_nav(old(self)@.panes[pi as int].widget, op),
                        ..old(self)@.panes[pi as int]
                    },
                ));
                assert(self@ =~= spec_tab_nav(old(self)@, op));
            }
        } else {
            proof {
                assert(self@ =~= spec_tab_nav(old(self)@, op));
            }
        }
    }
}

/// The first pane with the given id, or the number of panes when absent.
pub open spec fn spec_find_in_panes(panes: Seq<PaneView>, id: PaneId, pos: int) -> int
    decreases panes.len() - pos,
{
    if pos < 0 || pos >= panes.len() {
        panes.len() as int
    } else if panes[pos].id == id {
        pos
    } else {
        spec_find_in_panes(panes, id, pos + 1)
    }
}

/// The first tab-and-pane position of the pane with the given id.
pub open spec fn spec_find_pane(tabs: Seq<TabView>, id: PaneId, pos: int) -> Option<(int, int)>
    decreases tabs.len() - pos,
{
    if pos < 0 || pos >= tabs.len() {
        None
    } else {
        let pi = spec_find_in_panes(tabs[pos].panes, id, 0);
        if pi < tabs[pos].panes.len() {
            Some((pos, pi))
        } else {
            spec_find_pane(tabs, id, pos + 1)
        }
    }
}

/// An update addressed to a pane id reaches the first pane carrying that id
/// and nothing else.
pub open spec fn spec_window_apply_op(w: WindowView, id: PaneId, op: WidgetOpView) -> WindowView {
    match spec_find_pane(w.tabs, id, 0) {
        None => w,
        Some((ti, pi)) => {
            let t = w.tabs[ti];
            let p = t.panes[pi];
            WindowView {
                tabs: w.tabs.update(
                    ti,
                    TabView {
                        panes: t.panes.update(
                            pi,
                            PaneView { widget: spec_widget_apply(p.widget, op), ..p },
                        ),
                        ..t
                    },
                ),
                ..w
            }
        },
    }
}

/// Selecting a pane by id focuses it within its own tab.
pub open spec fn spec_window_select_pane(w: WindowView, id: PaneId) -> WindowView {
    match spec_find_pane(w.tabs, id, 0) {
        None => w,
        Some((ti, pi)) => WindowView {
            tabs: w.tabs.update(
                ti,
                TabView { selected_pane_index: pi, ..w.tabs[ti] },
            ),
            ..w
        },
    }
}

/// Tab selection by a one-based number: out of range is a no-op.
pub open spec fn spec_window_select_tab(w: WindowView, n: int) -> WindowView {
    if 1 <= n <= w.tabs.len() {
        WindowView { selected_tab_index: n - 1, ..w }
    } else {
        w
    }
}

/// The next tab, wrapping from the last to the first.
pub open spec fn spec_window_next_tab(w: WindowView) -> WindowView {
    if w.tabs.len() == 0 {
        w
    } else if w.selected_tab_index + 1 >= w.tabs.len() {
        WindowView { selected_tab_index: 0, ..w }
    } else {
        WindowView { selected_tab_index: w.selected_tab_index + 1, ..w }
    }
}

/// Pane-focus movement within the selected tab.
pub open spec fn spec_window_next_pane(w: WindowView) -> WindowView {
    if 0 <= w.selected_tab_index < w.tabs.len() {
        let t = w.tabs[w.selected_tab_index];
        WindowView {
            tabs: w.tabs.update(
                w.selected_tab_index,
                TabView {
                    selected_pane_index: spec_next_selectable(t.selectable, t.selected_pane_index),
                    ..t
                },
            ),
            ..w
        }
    } else {
        w
    }
}

pub open spec fn spec_window_prev_pane(w: WindowView) -> WindowView {
    if 0 <= w.selected_tab_index < w.tabs.len() {
        let t = w.tabs[w.selected_tab_index];
        WindowView {
            tabs: w.tabs.update(
                w.selected_tab_index,
                TabView {
                    selected_pane_index: spec_prev_selectable(t.selectable, t.selected_pane_index),
                    ..t
                },
            ),
            ..w
        }
    } else {
        w
    }
}

/// The first cell of the selected row of the pod table, when the pods pane,
/// its selection and the row are all there.
pub open spec fn spec_selected_pod(w: WindowView) -> Option<Seq<char>> {
    match spec_find_pane(w.tabs, PaneId::PodsPods, 0) {
        None => None,
        Some((ti, pi)) => match w.tabs[ti].panes[pi].widget {
            WidgetView::Table { items, selected } => match selected {
                Some(i) => if 0 <= i < items.len() && items[i].len() > 0 {
                    Some(items[i][0])
                } else {
                    None
                },
                None => None,
            },
            _ => None,
        },
    }
}

/// The selected entry of the config list, when the configs pane and its
/// selection are there.
pub open spec fn spec_selected_config(w: WindowView) -> Option<Seq<char>> {
    match spec_find_pane(w.tabs, PaneId::ConfigsConfigs, 0) {
        None => None,
        Some((ti, pi)) => match w.tabs[ti].panes[pi].widget {
            WidgetView::List { items, selected } => match selected {
                Some(i) => if 0 <= i < items.len() {
                    Some(items[i])
                } else {
                    None
                },
                None => None,
            },
            _ => None,
        },
    }
}

impl Window {
    pub fn new(tabs: Vec<Tab>) -> (r: Window)
        ensures
            r@ == (WindowView { tabs: tabs@.map_values(|t: Tab| t@), selected_tab_index: 0 }),
    {
        let r = Window { tabs, selected_tab_index: 0 };
        proof {
            assert(r@ =~= WindowView {
                tabs: r.tabs@.map_values(|t: Tab| t@),
                selected_tab_index: 0,
            });
        }
        r
    }

    pub fn tabs(&self) -> (r: &Vec<Tab>)
        ensures
            r@.map_values(|t: Tab| t@) == self@.tabs,
    {
        &self.tabs
    }

    pub fn selected_tab_index(&self) -> (r: usize)
        ensures
            r as int == self@.selected_tab_index,
    {
        self.selected_tab_index
    }

    /// Moves to the next tab, wrapping from the last to the first.
    pub fn select_next_tab(&mut self)
        ensures
            final(self)@ == spec_window_next_tab(old(self)@),
    {
        if self.tabs.len() == 0 {
        } else if self.tabs.len() - 1 <= self.selected_tab_index {
            self.selected_tab_index = 0;
        } else {
            self.selected_tab_index = self.selected_tab_index + 1;
        }
        proof {
            assert(self@ =~= spec_window_next_tab(old(self)@));
        }
    }

    /// Selects a tab by its one-based number; out of range does nothing.
    pub fn select_tab(&mut self, n: usize)
        ensures
            final(self)@ == spec_window_select_tab(old(self)@, n as int),
    {
        if 1 <= n && n <= self.tabs.len() {
            self.selected_tab_index = n - 1;
        }
        proof {
            assert(self@ =~= spec_window_select_tab(old(self)@, n as int));
        }
    }

    /// The selected tab, when the selection is in bounds.
    pub fn selected_tab(&self) -> (r: Option<&Tab>)
        ensures
            match r {
                Some(t) => 0 <= self@.selected_tab_index < self@.tabs.len() && t@
                    == self@.tabs[self@.selected_tab_index],
                None => !(0 <= self@.selected_tab_index < self@.tabs.len()),
            },
    {
        if self.selected_tab_index < self.tabs.len() {
            Some(&self.tabs[self.selected_tab_index])
        } else {
            None
        }
    }

    pub fn selected_tab_id(&self) -> (r: Option<TabId>)
        ensures
            match r {
                Some(id) => 0 <= self@.selected_tab_index < self@.tabs.len() && id
                    == self@.tabs[self@.selected_tab_index].id,
                None => !(0 <= self@.selected_tab_index < self@.tabs.len()),
            },
    {
        if self.selected_tab_index < self.tabs.len() {
            Some(self.tabs[self.selected_tab_index].id)
        } else {
            None
        }
    }

    pub fn selected_pane_id(&self) -> (r: Option<PaneId>)
        ensures
            ({
                let sti = self@.selected_tab_index;
                match r {
                    Some(id) => {
                        &&& 0 <= sti < self@.tabs.len()
                        &&& 0 <= self@.tabs[sti].selected_pane_index < self@.tabs[sti].panes.len()
                        &&& id == self@.tabs[sti].panes[self@.tabs[sti].selected_pane_index].id
                    },
                    None => !(0 <= sti < self@.tabs.len()
                        && 0 <= self@.tabs[sti].selected_pane_index < self@.tabs[
                        sti].panes.len()),
                }
            }),
    {
        if self.selected_tab_index < self.tabs.len() {
            let t = &self.tabs[self.selected_tab_index];
            if t.selected_pane_index < t.panes.len() {
                Some(t.panes[t.selected_pane_index].id)
            } else {
                None
            }
        } else {
            None
        }
    }

    /// Routes one navigation operation to the focused widget of the selected
    /// tab.
    pub fn navigate(&mut self, op: NavOp)
        ensures
            final(self)@ == spec_window_nav(old(self)@, op),
    {
        if self.selected_tab_index < self.tabs.len() {
            let ti = self.selected_tab_index;
            let mut tab = self.tabs.remove(ti);
            tab.navigate(op);
            self.tabs.insert(ti, tab);
            proof {
                assert(self.tabs@.map_values(|t: Tab| t@) =~= old(self)@.tabs.update(
                    ti as int,
                    spec_tab_nav(old(self)@.tabs[ti as int], op),
                ));
                assert(self@ =~= spec_window_nav(old(self)@, op));
            }
        } else {
            proof {
                assert(self@ =~= spec_window_nav(old(self)@, op));
            }
        }
    }

    /// Moves the focused widget's selection forward.
    pub fn select_next_item(&mut self)
        ensures
            final(self)@ == spec_window_nav(old(self)@, NavOp::NextItem),
    {
        self.navigate(NavOp::NextItem);
    }

    /// Moves the focused widget's selection back.
    pub fn select_prev_item(&mut self)
        ensures
            final(self)@ == spec_window_nav(old(self)@, NavOp::PrevItem),
    {
        self.navigate(NavOp::PrevItem);
    }

    pub fn select_first_item(&mut self)
        ensures
            final(self)@ == spec_window_nav(old(self)@, NavOp::FirstItem),
    {
        self.navigate(NavOp::FirstItem);
    }

    pub fn select_last_item(&mut self)
        ensures
            final(self)@ == spec_window_nav(old(self)@, NavOp::LastItem),
    {
        self.navigate(NavOp::LastItem);
    }

    pub fn scroll_up(&mut self)
        ensures
            final(self)@ == spec_window_nav(old(self)@, NavOp::ScrollUp),
    {
        self.navigate(NavOp::ScrollUp);
    }

    pub fn scroll_down(&mut self)
        ensures
            final(self)@ == spec_window_nav(old(self)@, NavOp::ScrollDown),
    {
        self.navigate(NavOp::ScrollDown);
    }

    /// Moves pane focus within the selected tab.
    pub fn select_next_pane(&mut self)
        ensures
            final(self)@ == spec_window_next_pane(old(self)@),
    {
        if self.selected_tab_index < self.tabs.len() {
            let ti = self.selected_tab_index;
            let mut tab = self.tabs.remove(ti);
            tab.next_pane();
            self.tabs.insert(ti, tab);
            proof {
                assert(self@.tabs =~= spec_window_next_pane(old(self)@).tabs);
                assert(self@ =~= spec_window_next_pane(old(self)@));
            }
        } else {
            proof {
                assert(self@ =~= spec_window_next_pane(old(self)@));
            }
        }
    }

    pub fn select_prev_pane(&mut self)
        ensures
            final(self)@ == spec_window_prev_pane(old(self)@),
    {
        if self.selected_tab_index < self.tabs.len() {
            let ti = self.selected_tab_index;
            let mut tab = self.tabs.remove(ti);
            tab.prev_pane();
            self.tabs.insert(ti, tab);
            proof {
                assert(self@.tabs =~= spec_window_prev_pane(old(self)@).tabs);
                assert(self@ =~= spec_window_prev_pane(old(self)@));
            }
        } else {
            proof {
                assert(self@ =~= spec_window_prev_pane(old(self)@));
            }
        }
    }

    /// The position of the first pane with the given id.
    fn find_pane(&self, id: PaneId) -> (r: Option<(usize, usize)>)
        ensures
            match r {
                Some(p) => {
                    &&& spec_find_pane(self@.tabs, id, 0) == Some((p.0 as int, p.1 as int))
                    &&& (p.0 as int) < self@.tabs.len()
                    &&& (p.1 as int) < self@.tabs[p.0 as int].panes.len()
                },
                None => spec_find_pane(self@.tabs, id, 0) is None,
            },
    {
        let mut ti: usize = 0;
        while ti < self.tabs.len()
            invariant
                ti <= self@.tabs.len(),
                spec_find_pane(self@.tabs, id, 0) == spec_find_pane(self@.tabs, id, ti as int),
            decreases self@.tabs.len() - ti,
        {
            let ghost panesv = self@.tabs[ti as int].panes;
            let tab = &self.tabs[ti];
            let mut pi: usize = 0;
            while pi < tab.panes.len()
                invariant
                    panesv == tab@.panes,
                    (ti as int) < self@.tabs.len(),
                    panesv == self@.tabs[ti as int].panes,
                    spec_find_pane(self@.tabs, id, 0) == spec_find_pane(
                        self@.tabs,
                        id,
                        ti as int,
                    ),
                    pi <= panesv.len(),
                    spec_find_in_panes(panesv, id, 0) == spec_find_in_panes(
                        panesv,
                        id,
                        pi as int,
                    ),
                decreases panesv.len() - pi,
            {
                if tab.panes[pi].id == id {
                    proof {
                        assert(panesv[pi as int].id == id);
                        assert(spec_find_in_panes(panesv, id, pi as int) == pi as int);
                        assert(spec_find_pane(self@.tabs, id, ti as int) == Some((
                            ti as int,
                            pi as int,
                        )));
                    }
                    return Some((ti, pi));
                }
                pi = pi + 1;
            }
            proof {
                assert(spec_find_in_panes(panesv, id, panesv.len() as int)
                    == panesv.len() as int);
                assert(spec_find_in_panes(panesv, id, 0) == panesv.len() as int);
                assert(spec_find_pane(self@.tabs, id, ti as int) == spec_find_pane(
                    self@.tabs,
                    id,
                    ti + 1,
                ));
            }
            ti = ti + 1;
        }
        None
    }

    /// Applies one update to the pane with the given id; an id no pane
    /// carries does nothing.
    pub fn apply_widget_op(&mut self, id: PaneId, op: WidgetOp)
        ensures
            final(self)@ == spec_window_apply_op(old(self)@, id, op@),
    {
        let ghost opv = op@;
        match self.find_pane(id) {
            Some((ti, pi)) => {
                let mut tab = self.tabs.remove(ti);
                let mut pane = tab.panes.remove(pi);
                pane.widget.apply(op);
                tab.panes.insert(pi, pane);
                self.tabs.insert(ti, tab);
                proof {
                    let oldw = old(self)@;
                    let t = oldw.tabs[ti as int];
                    let p = t.panes[pi as int];
                    assert(tab@.panes =~= t.panes.update(
                        pi as int,
                        PaneView { widget: spec_widget_apply(p.widget, opv), ..p },
                    ));
                    assert(self@.tabs =~= oldw.tabs.update(
                        ti as int,
                        TabView {
                            panes: t.panes.update(
                                pi as int,
                                PaneView { widget: spec_widget_apply(p.widget, opv), ..p },
                            ),
                            ..t
                        },
                    ));
                    assert(self@ =~= spec_window_apply_op(oldw, id, opv));
                }
            },
            None => {
                proof {
                    assert(self@ =~= spec_window_apply_op(old(self)@, id, opv));
                }
            },
        }
    }

    /// Focuses the pane with the given id within its own tab.
    pub fn select_pane(&mut self, id: PaneId)
        ensures
            final(self)@ == spec_window_select_pane(old(self)@, id),
    {
        match self.find_pane(id) {
            Some((ti, pi)) => {
                let mut tab = self.tabs.remove(ti);
                tab.selected_pane_index = pi;
                self.tabs.insert(ti, tab);
                proof {
                    assert(self@.tabs =~= spec_window_select_pane(old(self)@, id).tabs);
                    assert(self@ =~= spec_window_select_pane(old(self)@, id));
                }
            },
            None => {
                proof {
                    assert(self@ =~= spec_window_select_pane(old(self)@, id));
                }
            },
        }
    }

    /// The name of the selected pod, read from the pods table.
    pub fn selected_pod(&self) -> (r: Option<String>)
        ensures
            match r {
                Some(s) => spec_selected_pod(self@) == Some(s@),
                None => spec_selected_pod(self@) is None,
            },
    {
        match self.find_pane(PaneId::PodsPods) {
            Some((ti, pi)) => {
                match &self.tabs[ti].panes[pi].widget {
                    Widget::Table(t) => t.selected_first_cell(),
                    _ => None,
                }
            },
            None => None,
        }
    }

    /// The name of the selected config entry, read from the config list.
    pub fn selected_config(&self) -> (r: Option<String>)
        ensures
            match r {
                Some(s) => spec_selected_config(self@) == Some(s@),
                None => spec_selected_config(self@) is None,
            },
    {
        match self.find_pane(PaneId::ConfigsConfigs) {
            Some((ti, pi)) => {
                match &self.tabs[ti].panes[pi].widget {
                    Widget::List(l) => {
                        match l.selected() {
                            Some(i) => {
                                if i < l.items.len() {
                                    Some(l.items[i].clone())
                                } else {
                                    None
                                }
                            },
                            None => None,
                        }
                    },
                    _ => None,
                }
            },
            None => None,
        }
    }
}

} // verus!
