//! The pure decision core of the event loop: one event in, a directive and
//! at most one outgoing message out. The loop around it performs the channel
//! receive, the sends and the drawing; nothing here blocks.

use vstd::prelude::*;

use crate::event::Event;
use crate::event::KeyCode;
use crate::event::KeyModifiers;
use crate::event::Kube;
use crate::event::PaneId;
use crate::event::SubWindowId;
use crate::event::TabId;
use crate::event::WindowEvent;
use crate::widget::MultipleSelect;
use crate::widget::SingleSelect;
use crate::window::NavOp;
use crate::window::SubWindow;
use crate::window::WidgetOpView;
use crate::window::Window;
use crate::window::WindowView;
use crate::window::WidgetView;
use crate::window::spec_selected_config;
use crate::window::spec_selected_pod;
use crate::window::spec_window_apply_op;
use crate::window::spec_window_nav;
use crate::window::spec_window_next_pane;
use crate::window::spec_window_prev_pane;
use crate::window::spec_window_select_pane;
use crate::window::spec_window_select_tab;

verus! {

/// The cluster messages the main window consumes: the results the workers
/// publish.
pub open spec fn worker_kube(k: &Kube) -> bool {
    ||| k is Pod
    ||| k is Configs
    ||| k is LogStreamResponse
    ||| k is ConfigResponse
    ||| k is GetCurrentContextResponse
    ||| k is Event
}

/// The cluster messages addressed to a dialog.
pub open spec fn dialog_kube(k: &Kube) -> bool {
    ||| k is GetNamespacesResponse
    ||| k is GetAPIsResponse
}

/// The digit a tab-selection key denotes.
pub open spec fn spec_digit(c: char) -> int {
    c as u32 - 48
}

/// What `window_action` promises: the case analysis over the event, relating
/// the window view, the context strings, the directive and the outgoing
/// message after the call to those before it.
pub open spec fn window_action_post(
    oldw: WindowView,
    neww: WindowView,
    old_ns: Seq<char>,
    new_ns: Seq<char>,
    old_ctx: Seq<char>,
    new_ctx: Seq<char>,
    ev: &Event,
    r: (WindowEvent, Option<Kube>),
) -> bool {
    match ev {
        Event::Input(k) => {
            let plain_frame = new_ns == old_ns && new_ctx == old_ctx;
            if k.code == KeyCode::Char('q') {
                r.0 == WindowEvent::CloseWindow && neww == oldw && r.1 is None && plain_frame
            } else if k.code == KeyCode::Char('j') || k.code == KeyCode::Down {
                r.0 == WindowEvent::Continue && neww == spec_window_nav(oldw, NavOp::NextItem)
                    && r.1 is None && plain_frame
            } else if k.code == KeyCode::Char('k') || k.code == KeyCode::Up {
                r.0 == WindowEvent::Continue && neww == spec_window_nav(oldw, NavOp::PrevItem)
                    && r.1 is None && plain_frame
            } else if k.code == KeyCode::Char('n') && k.modifiers == KeyModifiers::Control {
                r.0 == WindowEvent::Continue && neww == spec_window_nav(oldw, NavOp::NextItem)
                    && r.1 is None && plain_frame
            } else if k.code == KeyCode::Char('p') && k.modifiers == KeyModifiers::Control {
                r.0 == WindowEvent::Continue && neww == spec_window_nav(oldw, NavOp::PrevItem)
                    && r.1 is None && plain_frame
            } else if k.code == KeyCode::Char('u') && k.modifiers == KeyModifiers::Control {
                r.0 == WindowEvent::Continue && neww == spec_window_nav(oldw, NavOp::ScrollUp)
                    && r.1 is None && plain_frame
            } else if k.code == KeyCode::Char('d') && k.modifiers == KeyModifiers::Control {
                r.0 == WindowEvent::Continue && neww == spec_window_nav(oldw, NavOp::ScrollDown)
                    && r.1 is None && plain_frame
            } else if k.code == KeyCode::Tab && k.modifiers == KeyModifiers::Plain {
                r.0 == WindowEvent::Continue && neww == spec_window_next_pane(oldw) && r.1 is None
                    && plain_frame
            } else if (k.code == KeyCode::BackTab || k.code == KeyCode::Tab) && k.modifiers
                == KeyModifiers::Shift {
                r.0 == WindowEvent::Continue && neww == spec_window_prev_pane(oldw) && r.1 is None
                    && plain_frame
            } else if (match k.code {
                KeyCode::Char(c) => 49 <= c as u32 <= 57,
                _ => false,
            }) {
                let c = k.code->Char_0;
                r.0 == WindowEvent::Continue && neww == spec_window_select_tab(
                    oldw,
                    spec_digit(c),
                ) && r.1 is None && plain_frame
            } else if k.code == KeyCode::Char('n') {
                r.0 == WindowEvent::OpenSubWindow(SubWindowId::Namespaces) && neww == oldw && (
                match r.1 {
                    Some(m) => m is GetNamespacesRequest,
                    None => false,
                }) && plain_frame
            } else if k.code == KeyCode::Char('G') {
                r.0 == WindowEvent::Continue && neww == spec_window_nav(oldw, NavOp::LastItem)
                    && r.1 is None && plain_frame
            } else if k.code == KeyCode::Char('g') {
                r.0 == WindowEvent::Continue && neww == spec_window_nav(oldw, NavOp::FirstItem)
                    && r.1 is None && plain_frame
            } else if k.code == KeyCode::Char('/') || k.code == KeyCode::Char('f') {
                if spec_selected_tab_is(oldw, TabId::Apis) {
                    r.0 == WindowEvent::OpenSubWindow(SubWindowId::Apis) && neww == oldw && (
                    match r.1 {
                        Some(m) => m is GetAPIsRequest,
                        None => false,
                    }) && plain_frame
                } else {
                    r.0 == WindowEvent::Continue && neww == oldw && r.1 is None && plain_frame
                }
            } else if k.code == KeyCode::Enter {
                if spec_selected_pane_is(oldw, PaneId::PodsPods) {
                    r.0 == WindowEvent::Continue && neww == spec_window_apply_op(
                        oldw,
                        PaneId::PodsLogs,
                        WidgetOpView::Clear,
                    ) && (match (spec_selected_pod(oldw), r.1) {
                        (Some(name), Some(Kube::LogStreamRequest(s))) => s@ == name,
                        (None, None) => true,
                        (_, _) => false,
                    }) && plain_frame
                } else if spec_selected_pane_is(oldw, PaneId::ConfigsConfigs) {
                    r.0 == WindowEvent::Continue && neww == spec_window_apply_op(
                        oldw,
                        PaneId::ConfigsConfigs,
                        WidgetOpView::Clear,
                    ) && (match (spec_selected_config(oldw), r.1) {
                        (Some(name), Some(Kube::ConfigRequest(s))) => s@ == name,
                        (None, None) => true,
                        (_, _) => false,
                    }) && plain_frame
                } else {
                    r.0 == WindowEvent::Continue && neww == oldw && r.1 is None && plain_frame
                }
            } else {
                r.0 == WindowEvent::Continue && neww == oldw && r.1 is None && plain_frame
            }
        },
        Event::Resize(_, _) => r.0 == WindowEvent::ResizeWindow && neww == oldw && r.1 is None
            && new_ns == old_ns && new_ctx == old_ctx,
        Event::Tick | Event::Mouse => r.0 == WindowEvent::Continue && neww == oldw && r.1 is None
            && new_ns == old_ns && new_ctx == old_ctx,
        Event::Kube(k) => r.0 == WindowEvent::Continue && r.1 is None && (match k {
            Kube::Pod(info) => neww == spec_window_apply_op(
                oldw,
                PaneId::PodsPods,
                WidgetOpView::SetTable(
                    info@.map_values(|row: Vec<String>| row@.map_values(|s: String| s@)),
                ),
            ) && new_ns == old_ns && new_ctx == old_ctx,
            Kube::Configs(c) => neww == spec_window_apply_op(
                oldw,
                PaneId::ConfigsConfigs,
                WidgetOpView::SetList(c@.map_values(|s: String| s@)),
            ) && new_ns == old_ns && new_ctx == old_ctx,
            Kube::LogStreamResponse(logs) => neww == spec_window_apply_op(
                oldw,
                PaneId::PodsLogs,
                WidgetOpView::AppendLogs(logs@.map_values(|s: String| s@)),
            ) && new_ns == old_ns && new_ctx == old_ctx,
            Kube::ConfigResponse(raw) => neww == spec_window_apply_op(
                oldw,
                PaneId::ConfigsRawData,
                WidgetOpView::SetText(raw@.map_values(|s: String| s@)),
            ) && new_ns == old_ns && new_ctx == old_ctx,
            Kube::GetCurrentContextResponse(ctx, ns) => neww == oldw && new_ctx == ctx@ && new_ns
                == ns@,
            Kube::Event(lines) => neww == spec_window_apply_op(
                oldw,
                PaneId::EventEvent,
                WidgetOpView::UpdateText(lines@.map_values(|s: String| s@)),
            ) && new_ns == old_ns && new_ctx == old_ctx,
            _ => false,
        }),
    }
}

/// Whether the selected tab carries the given id.
pub open spec fn spec_selected_tab_is(w: WindowView, id: TabId) -> bool {
    0 <= w.selected_tab_index < w.tabs.len() && w.tabs[w.selected_tab_index].id == id
}

/// Whether the focused pane of the selected tab carries the given id.
pub open spec fn spec_selected_pane_is(w: WindowView, id: PaneId) -> bool {
    0 <= w.selected_tab_index < w.tabs.len() && {
        let t = w.tabs[w.selected_tab_index];
        0 <= t.selected_pane_index < t.panes.len() && t.panes[t.selected_pane_index].id == id
    }
}

/// Dispatches one event to the main window, as `window_action_post`
/// describes case by case. Cluster messages that belong to a dialog or to a
/// worker's own loop are never routed here.
pub fn window_action(
    window: &mut Window,
    ev: &Event,
    current_namespace: &mut String,
    current_context: &mut String,
) -> (r: (WindowEvent, Option<Kube>))
    requires
        match ev {
            Event::Kube(k) => worker_kube(k),
            _ => true,
        },
    ensures
        window_action_post(
            old(window)@,
            final(window)@,
            old(current_namespace)@,
            final(current_namespace)@,
            old(current_context)@,
            final(current_context)@,
            ev,
            r,
        ),
{
    match ev {
        Event::Input(k) => {
            if k.code == KeyCode::Char('q') {
                (WindowEvent::CloseWindow, None)
            } else if k.code == KeyCode::Char('j') || k.code == KeyCode::Down {
                window.navigate(NavOp::NextItem);
                (WindowEvent::Continue, None)
            } else if k.code == KeyCode::Char('k') || k.code == KeyCode::Up {
                window.navigate(NavOp::PrevItem);
                (WindowEvent::Continue, None)
            } else if k.code == KeyCode::Char('n') && k.modifiers == KeyModifiers::Control {
                window.navigate(NavOp::NextItem);
                (WindowEvent::Continue, None)
            } else if k.code == KeyCode::Char('p') && k.modifiers == KeyModifiers::Control {
                window.navigate(NavOp::PrevItem);
                (WindowEvent::Continue, None)
            } else if k.code == KeyCode::Char('u') && k.modifiers == KeyModifiers::Control {
                window.navigate(NavOp::ScrollUp);
                (WindowEvent::Continue, None)
            } else if k.code == KeyCode::Char('d') && k.modifiers == KeyModifiers::Control {
                window.navigate(NavOp::ScrollDown);
                (WindowEvent::Continue, None)
            } else if k.code == KeyCode::Tab && k.modifiers == KeyModifiers::Plain {
                window.select_next_pane();
                (WindowEvent::Continue, None)
            } else if (k.code == KeyCode::BackTab || k.code == KeyCode::Tab) && k.modifiers
                == KeyModifiers::Shift {
                window.select_prev_pane();
                (WindowEvent::Continue, None)
            } else {
                let digit: Option<u32> = match k.code {
                    KeyCode::Char(c) => {
                        let u = c as u32;
                        if 49 <= u && u <= 57 {
                            Some(u - 48)
                        } else {
                            None
                        }
                    },
                    _ => None,
                };
                match digit {
                    Some(d) => {
                        window.select_tab(d as usize);
                        (WindowEvent::Continue, None)
                    },
                    None => {
                        if k.code == KeyCode::Char('n') {
                            (
                                WindowEvent::OpenSubWindow(SubWindowId::Namespaces),
                                Some(Kube::GetNamespacesRequest),
                            )
                        } else if k.code == KeyCode::Char('G') {
                            window.navigate(NavOp::LastItem);
                            (WindowEvent::Continue, None)
                        } else if k.code == KeyCode::Char('g') {
                            window.navigate(NavOp::FirstItem);
                            (WindowEvent::Continue, None)
                        } else if k.code == KeyCode::Char('/') || k.code == KeyCode::Char('f') {
                            let on_apis = match window.selected_tab_id() {
                                Some(id) => id == TabId::Apis,
                                None => false,
                            };
                            if on_apis {
                                (
                                    WindowEvent::OpenSubWindow(SubWindowId::Apis),
                                    Some(Kube::GetAPIsRequest),
                                )
                            } else {
                                (WindowEvent::Continue, None)
                            }
                        } else if k.code == KeyCode::Enter {
                            let pane = window.selected_pane_id();
                            match pane {
                                Some(PaneId::PodsPods) => {
                                    let name = window.selected_pod();
                                    window.apply_widget_op(
                                        PaneId::PodsLogs,
                                        crate::window::WidgetOp::Clear,
                                    );
                                    match name {
                                        Some(n) => (
                                            WindowEvent::Continue,
                                            Some(Kube::LogStreamRequest(n)),
                                        ),
                                        None => (WindowEvent::Continue, None),
                                    }
                                },
                                Some(PaneId::ConfigsConfigs) => {
                                    let name = window.selected_config();
                                    window.apply_widget_op(
                                        PaneId::ConfigsConfigs,
                                        crate::window::WidgetOp::Clear,
                                    );
                                    match name {
                                        Some(n) => (
                                            WindowEvent::Continue,
                                            Some(Kube::ConfigRequest(n)),
                                        ),
                                        None => (WindowEvent::Continue, None),
                                    }
                                },
                                _ => (WindowEvent::Continue, None),
                            }
                        } else {
                            (WindowEvent::Continue, None)
                        }
                    },
                }
            }
        },
        Event::Resize(_, _) => (WindowEvent::ResizeWindow, None),
        Event::Tick => (WindowEvent::Continue, None),
        Event::Mouse => (WindowEvent::Continue, None),
        Event::Kube(k) => {
            match k {
                Kube::Pod(info) => {
                    window.apply_widget_op(
                        PaneId::PodsPods,
                        crate::window::WidgetOp::SetTable(clone_rows(info)),
                    );
                    (WindowEvent::Continue, None)
                },
                Kube::Configs(c) => {
                    window.apply_widget_op(
                        PaneId::ConfigsConfigs,
                        crate::window::WidgetOp::SetList(clone_lines(c)),
                    );
                    (WindowEvent::Continue, None)
                },
                Kube::LogStreamResponse(logs) => {
                    window.apply_widget_op(
                        PaneId::PodsLogs,
                        crate::window::WidgetOp::AppendLogs(clone_lines(logs)),
                    );
                    (WindowEvent::Continue, None)
                },
                Kube::ConfigResponse(raw) => {
                    window.apply_widget_op(
                        PaneId::ConfigsRawData,
                        crate::window::WidgetOp::SetText(clone_lines(raw)),
                    );
                    (WindowEvent::Continue, None)
                },
                Kube::GetCurrentContextResponse(ctx, ns) => {
                    *current_context = ctx.clone();
                    *current_namespace = ns.clone();
                    (WindowEvent::Continue, None)
                },
                Kube::Event(lines) => {
                    window.apply_widget_op(
                        PaneId::EventEvent,
                        crate::window::WidgetOp::UpdateText(clone_lines(lines)),
                    );
                    (WindowEvent::Continue, None)
                },
                _ => (WindowEvent::Continue, None),
            }
        },
    }
}

/// A copy of the lines, view for view.
fn clone_lines(v: &Vec<String>) -> (r: Vec<String>)
    ensures
        r@.map_values(|s: String| s@) == v@.map_values(|s: String| s@),
{
    let mut r: Vec<String> = Vec::new();
    let mut i: usize = 0;
    while i < v.len()
        invariant
            i <= v@.len(),
            r@.len() == i,
            forall|j: int| 0 <= j < i ==> (#[trigger] r@[j])@ == v@[j]@,
        decreases v@.len() - i,
    {
        r.push(v[i].clone());
        i = i + 1;
    }
    proof {
        assert(r@.map_values(|s: String| s@) =~= v@.map_values(|s: String| s@));
    }
    r
}

/// A copy of the rows, view for view.
fn clone_rows(v: &Vec<Vec<String>>) -> (r: Vec<Vec<String>>)
    ensures
        r@.map_values(|row: Vec<String>| row@.map_values(|s: String| s@)) == v@.map_values(
            |row: Vec<String>| row@.map_values(|s: String| s@),
        ),
{
    let mut r: Vec<Vec<String>> = Vec::new();
    let mut i: usize = 0;
    while i < v.len()
        invariant
            i <= v@.len(),
            r@.len() == i,
            forall|j: int| 0 <= j < i ==> (#[trigger] r@[j])@.map_values(|s: String| s@)
                == v@[j]@.map_values(|s: String| s@),
        decreases v@.len() - i,
    {
        r.push(clone_lines(&v[i]));
        i = i + 1;
    }
    proof {
        assert(r@.map_values(|row: Vec<String>| row@.map_values(|s: String| s@)) =~= v@.map_values(
            |row: Vec<String>| row@.map_values(|s: String| s@),
        ));
    }
    r
}

/// The abstract state of a single-choice dialog widget.
pub open spec fn ss_view(s: &SingleSelect) -> WidgetView {
    WidgetView::SingleSelect {
        filter: s.filter.spec_content(),
        filter_pos: s.filter.spec_cursor().pos as int,
        items: s.items@.map_values(|x: String| x@),
        filtered: s.filtered@.map_values(|x: usize| x as int),
        cursor: crate::window::spec_opt_int(s.cursor),
        focus_filter: s.focus_filter,
    }
}

/// The abstract state of a multi-choice dialog widget.
pub open spec fn ms_view(s: &MultipleSelect) -> WidgetView {
    WidgetView::MultipleSelect {
        filter: s.filter.spec_content(),
        filter_pos: s.filter.spec_cursor().pos as int,
        items: s.items@.map_values(|x: String| x@),
        picked: s.picked@,
        filtered: s.filtered@.map_values(|x: usize| x as int),
        cursor: crate::window::spec_opt_int(s.cursor),
        focus_filter: s.focus_filter,
    }
}

pub open spec fn spec_filtered_int(items: Seq<Seq<char>>, q: Seq<char>) -> Seq<int> {
    crate::widget::spec_filtered_from(items, q, 0)
}

pub open spec fn spec_first_cursor(n: int) -> Option<int> {
    if n > 0 {
        Some(0int)
    } else {
        None
    }
}

/// Typing one character into a select widget's filter: the text grows at the
/// filter cursor, the matches refilter, the choice returns to the first
/// match.
pub open spec fn spec_select_insert(a: WidgetView, c: char) -> WidgetView {
    match a {
        WidgetView::SingleSelect { filter, filter_pos, items, filtered, cursor, focus_filter } => {
            let nf = filter.insert(filter_pos, c);
            let nfl = spec_filtered_int(items, nf);
            WidgetView::SingleSelect {
                filter: nf,
                filter_pos: if filter_pos < usize::MAX as int {
                    filter_pos + 1
                } else {
                    filter_pos
                },
                items,
                filtered: nfl,
                cursor: spec_first_cursor(nfl.len() as int),
                focus_filter,
            }
        },
        WidgetView::MultipleSelect {
            filter,
            filter_pos,
            items,
            picked,
            filtered,
            cursor,
            focus_filter,
        } => {
            let nf = filter.insert(filter_pos, c);
            let nfl = spec_filtered_int(items, nf);
            WidgetView::MultipleSelect {
                filter: nf,
                filter_pos: if filter_pos < usize::MAX as int {
                    filter_pos + 1
                } else {
                    filter_pos
                },
                items,
                picked,
                filtered: nfl,
                cursor: spec_first_cursor(nfl.len() as int),
                focus_filter,
            }
        },
        _ => a,
    }
}

/// Erasing the character before a select widget's filter cursor.
pub open spec fn spec_select_remove(a: WidgetView) -> WidgetView {
    match a {
        WidgetView::SingleSelect { filter, filter_pos, items, filtered, cursor, focus_filter } => {
            let nf = if filter.len() > 0 && filter_pos > 0 {
                filter.remove(filter_pos - 1)
            } else {
                filter
            };
            let np = if filter.len() > 0 && filter_pos > 0 {
                filter_pos - 1
            } else {
                filter_pos
            };
            let nfl = spec_filtered_int(items, nf);
            WidgetView::SingleSelect {
                filter: nf,
                filter_pos: np,
                items,
                filtered: nfl,
                cursor: spec_first_cursor(nfl.len() as int),
                focus_filter,
            }
        },
        WidgetView::MultipleSelect {
            filter,
            filter_pos,
            items,
            picked,
            filtered,
            cursor,
            focus_filter,
        } => {
            let nf = if filter.len() > 0 && filter_pos > 0 {
                filter.remove(filter_pos - 1)
            } else {
                filter
            };
            let np = if filter.len() > 0 && filter_pos > 0 {
                filter_pos - 1
            } else {
                filter_pos
            };
            let nfl = spec_filtered_int(items, nf);
            WidgetView::MultipleSelect {
                filter: nf,
                filter_pos: np,
                items,
                picked,
                filtered: nfl,
                cursor: spec_first_cursor(nfl.len() as int),
                focus_filter,
            }
        },
        _ => a,
    }
}

/// Moving a select widget's filter cursor one step.
pub open spec fn spec_select_cursor(a: WidgetView, fwd: bool) -> WidgetView {
    match a {
        WidgetView::SingleSelect { filter, filter_pos, items, filtered, cursor, focus_filter } =>
            WidgetView::SingleSelect {
            filter,
            filter_pos: spec_move_pos(filter_pos, filter.len() as int, fwd),
            items,
            filtered,
            cursor,
            focus_filter,
        },
        WidgetView::MultipleSelect {
            filter,
            filter_pos,
            items,
            picked,
            filtered,
            cursor,
            focus_filter,
        } => WidgetView::MultipleSelect {
            filter,
            filter_pos: spec_move_pos(filter_pos, filter.len() as int, fwd),
            items,
            picked,
            filtered,
            cursor,
            focus_filter,
        },
        _ => a,
    }
}

pub open spec fn spec_move_pos(pos: int, len: int, fwd: bool) -> int {
    if fwd {
        if pos < len {
            pos + 1
        } else {
            pos
        }
    } else {
        if pos > 0 {
            pos - 1
        } else {
            0
        }
    }
}

/// Moving the focus between a select widget's filter line and its list.
pub open spec fn spec_select_toggle_focus(a: WidgetView) -> WidgetView {
    match a {
        WidgetView::SingleSelect { filter, filter_pos, items, filtered, cursor, focus_filter } =>
            WidgetView::SingleSelect {
            filter,
            filter_pos,
            items,
            filtered,
            cursor,
            focus_filter: !focus_filter,
        },
        WidgetView::MultipleSelect {
            filter,
            filter_pos,
            items,
            picked,
            filtered,
            cursor,
            focus_filter,
        } => WidgetView::MultipleSelect {
            filter,
            filter_pos,
            items,
            picked,
            filtered,
            cursor,
            focus_filter: !focus_filter,
        },
        _ => a,
    }
}

/// Replacing a select widget's candidates: nothing picked, matches
/// refiltered, choice on the first match.
pub open spec fn spec_select_set_items(a: WidgetView, new_items: Seq<Seq<char>>) -> WidgetView {
    match a {
        WidgetView::SingleSelect { filter, filter_pos, items, filtered, cursor, focus_filter } => {
            let nfl = spec_filtered_int(new_items, filter);
            WidgetView::SingleSelect {
                filter,
                filter_pos,
                items: new_items,
                filtered: nfl,
                cursor: spec_first_cursor(nfl.len() as int),
                focus_filter,
            }
        },
        WidgetView::MultipleSelect {
            filter,
            filter_pos,
            items,
            picked,
            filtered,
            cursor,
            focus_filter,
        } => {
            let nfl = spec_filtered_int(new_items, filter);
            WidgetView::MultipleSelect {
                filter,
                filter_pos,
                items: new_items,
                picked: Seq::new(new_items.len(), |i: int| false),
                filtered: nfl,
                cursor: spec_first_cursor(nfl.len() as int),
                focus_filter,
            }
        },
        _ => a,
    }
}

/// Flipping whether the item under the cursor of a multi-choice widget is
/// picked.
pub open spec fn spec_select_toggle_pick(a: WidgetView) -> WidgetView {
    match a {
        WidgetView::MultipleSelect {
            filter,
            filter_pos,
            items,
            picked,
            filtered,
            cursor,
            focus_filter,
        } => {
            let npicked = match cursor {
                Some(c) => if 0 <= c < filtered.len() && 0 <= filtered[c] < picked.len() {
                    picked.update(filtered[c], !picked[filtered[c]])
                } else {
                    picked
                },
                None => picked,
            };
            WidgetView::MultipleSelect {
                filter,
                filter_pos,
                items,
                picked: npicked,
                filtered,
                cursor,
                focus_filter,
            }
        },
        _ => a,
    }
}

/// The single-choice widget's chosen item.
pub open spec fn spec_select_item(a: WidgetView) -> Option<Seq<char>> {
    match a {
        WidgetView::SingleSelect { filter, filter_pos, items, filtered, cursor, focus_filter } =>
            match cursor {
            Some(c) => if 0 <= c < filtered.len() && 0 <= filtered[c] < items.len() {
                Some(items[filtered[c]])
            } else {
                None
            },
            None => None,
        },
        _ => None,
    }
}

/// What confirming a namespace does to the main window: the namespace-bound
/// panes are emptied and the pods and configs tabs return to their list
/// panes.
pub open spec fn spec_ns_confirm_window(w: WindowView) -> WindowView {
    let w1 = spec_window_apply_op(w, PaneId::EventEvent, WidgetOpView::Clear);
    let w2 = spec_window_apply_op(w1, PaneId::PodsLogs, WidgetOpView::Clear);
    let w3 = spec_window_select_pane(w2, PaneId::PodsPods);
    let w4 = spec_window_apply_op(w3, PaneId::ConfigsRawData, WidgetOpView::Clear);
    spec_window_select_pane(w4, PaneId::ConfigsConfigs)
}

/// What `namespace_subwin_action` promises, case by case. An `Input` event
/// other than the confirming `Enter` never touches the main window.
pub open spec fn ns_action_post(
    oldw: WindowView,
    neww: WindowView,
    a: WidgetView,
    b: WidgetView,
    old_ns: Seq<char>,
    new_ns: Seq<char>,
    ev: &Event,
    r: (WindowEvent, Option<Kube>),
) -> bool {
    match ev {
        Event::Input(k) => {
            let frame = neww == oldw && new_ns == old_ns;
            if k.modifiers == KeyModifiers::Control && k.code == KeyCode::Char('q') {
                r.0 == WindowEvent::CloseSubWindow && b == a && r.1 is None && frame
            } else if k.modifiers == KeyModifiers::Control && (k.code == KeyCode::Char('n')
                || k.code == KeyCode::Char('u')) {
                r.0 == WindowEvent::Continue && b == crate::window::spec_widget_nav(
                    a,
                    NavOp::NextItem,
                ) && r.1 is None && frame
            } else if k.modifiers == KeyModifiers::Control && (k.code == KeyCode::Char('p')
                || k.code == KeyCode::Char('d')) {
                r.0 == WindowEvent::Continue && b == crate::window::spec_widget_nav(
                    a,
                    NavOp::PrevItem,
                ) && r.1 is None && frame
            } else if k.modifiers == KeyModifiers::Control && k.code == KeyCode::Char('h') {
                r.0 == WindowEvent::Continue && b == spec_select_remove(a) && r.1 is None && frame
            } else if k.code == KeyCode::Tab {
                r.0 == WindowEvent::Continue && b == spec_select_toggle_focus(a) && r.1 is None
                    && frame
            } else if k.code == KeyCode::Delete || k.code == KeyCode::Backspace {
                r.0 == WindowEvent::Continue && b == spec_select_remove(a) && r.1 is None && frame
            } else if k.code == KeyCode::Right {
                r.0 == WindowEvent::Continue && b == spec_select_cursor(a, true) && r.1 is None
                    && frame
            } else if k.code == KeyCode::Left {
                r.0 == WindowEvent::Continue && b == spec_select_cursor(a, false) && r.1 is None
                    && frame
            } else if k.code == KeyCode::Enter {
                r.0 == WindowEvent::CloseSubWindow && b == a && (match spec_select_item(a) {
                    Some(item) => (match r.1 {
                        Some(Kube::SetNamespace(s)) => s@ == item,
                        _ => false,
                    }) && new_ns == item && neww == spec_ns_confirm_window(oldw),
                    None => r.1 is None && new_ns == old_ns && neww == oldw,
                })
            } else if (k.code is Char) {
                let c = k.code->Char_0;
                r.0 == WindowEvent::Continue && b == spec_select_insert(a, c) && r.1 is None
                    && frame
            } else {
                r.0 == WindowEvent::Continue && b == a && r.1 is None && frame
            }
        },
        Event::Kube(k) => {
            let frame = neww == oldw && new_ns == old_ns;
            match k {
                Kube::GetNamespacesResponse(ns) => r.0 == WindowEvent::Continue && b
                    == spec_select_set_items(a, ns@.map_values(|s: String| s@)) && r.1 is None
                    && frame,
                _ => r.0 == WindowEvent::Continue && b == a && r.1 is None && frame,
            }
        },
        Event::Resize(_, _) => r.0 == WindowEvent::ResizeWindow && b == a && r.1 is None && neww
            == oldw && new_ns == old_ns,
        Event::Tick | Event::Mouse => r.0 == WindowEvent::Continue && b == a && r.1 is None
            && neww == oldw && new_ns == old_ns,
    }
}

/// Handles one event while the namespace dialog is open: keys edit the
/// dialog's filter and choice; confirming with `Enter` publishes the new
/// namespace, empties the namespace-bound panes and closes the dialog.
pub fn namespace_subwin_action(
    window: &mut Window,
    subwin: &mut SubWindow<SingleSelect>,
    ev: &Event,
    now: u64,
    current_namespace: &mut String,
) -> (r: (WindowEvent, Option<Kube>))
    ensures
        ns_action_post(
            old(window)@,
            final(window)@,
            ss_view(&old(subwin).widget),
            ss_view(&final(subwin).widget),
            old(current_namespace)@,
            final(current_namespace)@,
            ev,
            r,
        ),
{
    match ev {
        Event::Input(k) => {
            if k.modifiers == KeyModifiers::Control && k.code == KeyCode::Char('q') {
                (WindowEvent::CloseSubWindow, None)
            } else if k.modifiers == KeyModifiers::Control && (k.code == KeyCode::Char('n')
                || k.code == KeyCode::Char('u')) {
                subwin.widget.select_next_item();
                proof {
                    assert(ss_view(&subwin.widget) =~= crate::window::spec_widget_nav(
                        ss_view(&old(subwin).widget),
                        NavOp::NextItem,
                    ));
                }
                (WindowEvent::Continue, None)
            } else if k.modifiers == KeyModifiers::Control && (k.code == KeyCode::Char('p')
                || k.code == KeyCode::Char('d')) {
                subwin.widget.select_prev_item();
                proof {
                    assert(ss_view(&subwin.widget) =~= crate::window::spec_widget_nav(
                        ss_view(&old(subwin).widget),
                        NavOp::PrevItem,
                    ));
                }
                (WindowEvent::Continue, None)
            } else if k.modifiers == KeyModifiers::Control && k.code == KeyCode::Char('h') {
                subwin.widget.remove_char(now);
                proof {
                    assert(ss_view(&subwin.widget) =~= spec_select_remove(
                        ss_view(&old(subwin).widget),
                    ));
                }
                (WindowEvent::Continue, None)
            } else if k.code == KeyCode::Tab {
                subwin.widget.select_next_pane();
                proof {
                    assert(ss_view(&subwin.widget) =~= spec_select_toggle_focus(
                        ss_view(&old(subwin).widget),
                    ));
                }
                (WindowEvent::Continue, None)
            } else if k.code == KeyCode::Delete || k.code == KeyCode::Backspace {
                subwin.widget.remove_char(now);
                proof {
                    assert(ss_view(&subwin.widget) =~= spec_select_remove(
                        ss_view(&old(subwin).widget),
                    ));
                }
                (WindowEvent::Continue, None)
            } else if k.code == KeyCode::Right {
                subwin.widget.forward_cursor(now);
                proof {
                    assert(ss_view(&subwin.widget) =~= spec_select_cursor(
                        ss_view(&old(subwin).widget),
                        true,
                    ));
                }
                (WindowEvent::Continue, None)
            } else if k.code == KeyCode::Left {
                subwin.widget.back_cursor(now);
                proof {
                    assert(ss_view(&subwin.widget) =~= spec_select_cursor(
                        ss_view(&old(subwin).widget),
                        false,
                    ));
                }
                (WindowEvent::Continue, None)
            } else if k.code == KeyCode::Enter {
                match subwin.widget.get_item() {
                    Some(item) => {
                        let msg = Kube::SetNamespace(item.clone());
                        *current_namespace = item;
                        window.apply_widget_op(PaneId::EventEvent, crate::window::WidgetOp::Clear);
                        window.apply_widget_op(PaneId::PodsLogs, crate::window::WidgetOp::Clear);
                        window.select_pane(PaneId::PodsPods);
                        window.apply_widget_op(
                            PaneId::ConfigsRawData,
                            crate::window::WidgetOp::Clear,
                        );
                        window.select_pane(PaneId::ConfigsConfigs);
                        (WindowEvent::CloseSubWindow, Some(msg))
                    },
                    None => (WindowEvent::CloseSubWindow, None),
                }
            } else {
                let c: Option<char> = match k.code {
                    KeyCode::Char(c) => Some(c),
                    _ => None,
                };
                match c {
                    Some(c) => {
                        subwin.widget.insert_char(c, now);
                        proof {
                            assert(ss_view(&subwin.widget) =~= spec_select_insert(
                                ss_view(&old(subwin).widget),
                                c,
                            ));
                        }
                        (WindowEvent::Continue, None)
                    },
                    None => (WindowEvent::Continue, None),
                }
            }
        },
        Event::Kube(k) => {
            match k {
                Kube::GetNamespacesResponse(ns) => {
                    subwin.widget.set_items(clone_lines(ns));
                    proof {
                        assert(ss_view(&subwin.widget) =~= spec_select_set_items(
                            ss_view(&old(subwin).widget),
                            ns@.map_values(|s: String| s@),
                        ));
                    }
                    (WindowEvent::Continue, None)
                },
                _ => (WindowEvent::Continue, None),
            }
        },
        Event::Resize(_, _) => (WindowEvent::ResizeWindow, None),
        Event::Tick => (WindowEvent::Continue, None),
        Event::Mouse => (WindowEvent::Continue, None),
    }
}

/// What `apis_subwin_action` promises, case by case; no event routed here
/// ever touches the main window.
pub open spec fn apis_action_post(
    oldw: WindowView,
    neww: WindowView,
    a: WidgetView,
    b: WidgetView,
    ev: &Event,
    r: (WindowEvent, Option<Kube>),
) -> bool {
    neww == oldw && (match ev {
        Event::Input(k) => {
            if k.modifiers == KeyModifiers::Control && k.code == KeyCode::Char('q') {
                r.0 == WindowEvent::CloseSubWindow && b == a && r.1 is None
            } else if k.modifiers == KeyModifiers::Control && (k.code == KeyCode::Char('n')
                || k.code == KeyCode::Char('u')) {
                r.0 == WindowEvent::Continue && b == crate::window::spec_widget_nav(
                    a,
                    NavOp::NextItem,
                ) && r.1 is None
            } else if k.modifiers == KeyModifiers::Control && (k.code == KeyCode::Char('p')
                || k.code == KeyCode::Char('d')) {
                r.0 == WindowEvent::Continue && b == crate::window::spec_widget_nav(
                    a,
                    NavOp::PrevItem,
                ) && r.1 is None
            } else if k.modifiers == KeyModifiers::Control && k.code == KeyCode::Char('h') {
                r.0 == WindowEvent::Continue && b == spec_select_remove(a) && r.1 is None
            } else if k.code == KeyCode::Tab {
                r.0 == WindowEvent::Continue && b == spec_select_toggle_focus(a) && r.1 is None
            } else if k.code == KeyCode::Enter || k.code == KeyCode::Char(' ') {
                r.0 == WindowEvent::Continue && b == spec_select_toggle_pick(a) && r.1 is None
            } else if k.code == KeyCode::Delete || k.code == KeyCode::Backspace {
                r.0 == WindowEvent::Continue && b == spec_select_remove(a) && r.1 is None
            } else if k.code == KeyCode::Right {
                r.0 == WindowEvent::Continue && b == spec_select_cursor(a, true) && r.1 is None
            } else if k.code == KeyCode::Left {
                r.0 == WindowEvent::Continue && b == spec_select_cursor(a, false) && r.1 is None
            } else if (k.code is Char) {
                let c = k.code->Char_0;
                r.0 == WindowEvent::Continue && b == spec_select_insert(a, c) && r.1 is None
            } else {
                r.0 == WindowEvent::Continue && b == a && r.1 is None
            }
        },
        Event::Kube(k) => match k {
            Kube::GetAPIsResponse(apis) => r.0 == WindowEvent::Continue && b
                == spec_select_set_items(a, apis@.map_values(|s: String| s@)) && r.1 is None,
            _ => r.0 == WindowEvent::Continue && b == a && r.1 is None,
        },
        Event::Resize(_, _) => r.0 == WindowEvent::ResizeWindow && b == a && r.1 is None,
        Event::Tick | Event::Mouse => r.0 == WindowEvent::Continue && b == a && r.1 is None,
    })
}

/// Handles one event while the api-kinds dialog is open: keys edit the
/// dialog's filter, choices toggle with `Enter` or space; the main window is
/// never touched.
pub fn apis_subwin_action(
    window: &mut Window,
    subwin: &mut SubWindow<MultipleSelect>,
    ev: &Event,
    now: u64,
) -> (r: (WindowEvent, Option<Kube>))
    ensures
        apis_action_post(
            old(window)@,
            final(window)@,
            ms_view(&old(subwin).widget),
            ms_view(&final(subwin).widget),
            ev,
            r,
        ),
{
    match ev {
        Event::Input(k) => {
            if k.modifiers == KeyModifiers::Control && k.code == KeyCode::Char('q') {
                (WindowEvent::CloseSubWindow, None)
            } else if k.modifiers == KeyModifiers::Control && (k.code == KeyCode::Char('n')
                || k.code == KeyCode::Char('u')) {
                subwin.widget.select_next_item();
                proof {
                    assert(ms_view(&subwin.widget) =~= crate::window::spec_widget_nav(
                        ms_view(&old(subwin).widget),
                        NavOp::NextItem,
                    ));
                }
                (WindowEvent::Continue, None)
            } else if k.modifiers == KeyModifiers::Control && (k.code == KeyCode::Char('p')
                || k.code == KeyCode::Char('d')) {
                subwin.widget.select_prev_item();
                proof {
                    assert(ms_view(&subwin.widget) =~= crate::window::spec_widget_nav(
                        ms_view(&old(subwin).widget),
                        NavOp::PrevItem,
                    ));
                }
                (WindowEvent::Continue, None)
            } else if k.modifiers == KeyModifiers::Control && k.code == KeyCode::Char('h') {
                subwin.widget.remove_char(now);
                proof {
                    assert(ms_view(&subwin.widget) =~= spec_select_remove(
                        ms_view(&old(subwin).widget),
                    ));
                }
                (WindowEvent::Continue, None)
            } else if k.code == KeyCode::Tab {
                subwin.widget.select_next_pane();
                proof {
                    assert(ms_view(&subwin.widget) =~= spec_select_toggle_focus(
                        ms_view(&old(subwin).widget),
                    ));
                }
                (WindowEvent::Continue, None)
            } else if k.code == KeyCode::Enter || k.code == KeyCode::Char(' ') {
                subwin.widget.toggle_select_unselect();
                proof {
                    assert(ms_view(&subwin.widget) =~= spec_select_toggle_pick(
                        ms_view(&old(subwin).widget),
                    ));
                }
                (WindowEvent::Continue, None)
            } else if k.code == KeyCode::Delete || k.code == KeyCode::Backspace {
                subwin.widget.remove_char(now);
                proof {
                    assert(ms_view(&subwin.widget) =~= spec_select_remove(
                        ms_view(&old(subwin).widget),
                    ));
                }
                (WindowEvent::Continue, None)
            } else if k.code == KeyCode::Right {
                subwin.widget.forward_cursor(now);
                proof {
                    assert(ms_view(&subwin.widget) =~= spec_select_cursor(
                        ms_view(&old(subwin).widget),
                        true,
                    ));
                }
                (WindowEvent::Continue, None)
            } else if k.code == KeyCode::Left {
                subwin.widget.back_cursor(now);
                proof {
                    assert(ms_view(&subwin.widget) =~= spec_select_cursor(
                        ms_view(&old(subwin).widget),
                        false,
                    ));
                }
                (WindowEvent::Continue, None)
            } else {
                let c: Option<char> = match k.code {
                    KeyCode::Char(c) => Some(c),
                    _ => None,
                };
                match c {
                    Some(c) => {
                        subwin.widget.insert_char(c, now);
                        proof {
                            assert(ms_view(&subwin.widget) =~= spec_select_insert(
                                ms_view(&old(subwin).widget),
                                c,
                            ));
                        }
                        (WindowEvent::Continue, None)
                    },
                    None => (WindowEvent::Continue, None),
                }
            }
        },
        Event::Kube(k) => {
            match k {
                Kube::GetAPIsResponse(apis) => {
                    subwin.widget.set_items(clone_lines(apis));
                    proof {
                        assert(Seq::new(
                            apis@.map_values(|s: String| s@).len(),
                            |i: int| false,
                        ) =~= subwin.widget.picked@);
                        assert(ms_view(&subwin.widget) =~= spec_select_set_items(
                            ms_view(&old(subwin).widget),
                            apis@.map_values(|s: String| s@),
                        ));
                    }
                    (WindowEvent::Continue, None)
                },
                _ => (WindowEvent::Continue, None),
            }
        },
        Event::Resize(_, _) => (WindowEvent::ResizeWindow, None),
        Event::Tick => (WindowEvent::Continue, None),
        Event::Mouse => (WindowEvent::Continue, None),
    }
}

/// Routes one event: worker results always reach the main window, dialog
/// data always reaches its dialog, and everything else goes to the open
/// dialog first — modal exclusivity — or to the main window when none is
/// open.
///
/// The last two clauses carry the modal guarantees: with a dialog open, an
/// input event never changes the main window — except the namespace dialog's
/// confirming `Enter`, which empties the namespace-bound panes — and a
/// worker result always lands in the main window, dialogs untouched.
pub fn dispatch(
    window: &mut Window,
    ns_dialog: &mut SubWindow<SingleSelect>,
    apis_dialog: &mut SubWindow<MultipleSelect>,
    opened: Option<SubWindowId>,
    ev: &Event,
    now: u64,
    current_namespace: &mut String,
    current_context: &mut String,
) -> (r: (WindowEvent, Option<Kube>))
    requires
        match ev {
            Event::Kube(k) => worker_kube(k) || dialog_kube(k),
            _ => true,
        },
    ensures
        (match ev {
            Event::Kube(k) => {
                if worker_kube(k) {
                    window_action_post(
                        old(window)@,
                        final(window)@,
                        old(current_namespace)@,
                        final(current_namespace)@,
                        old(current_context)@,
                        final(current_context)@,
                        ev,
                        r,
                    ) && final(ns_dialog).widget == old(ns_dialog).widget && final(apis_dialog).widget == old(apis_dialog).widget
                } else {
                    true
                }
            },
            _ => true,
        }),
        opened == Some(SubWindowId::Namespaces) && (match ev {
            Event::Input(k) => k.code != KeyCode::Enter || spec_select_item(
                ss_view(&old(ns_dialog).widget),
            ) is None,
            Event::Kube(k) => dialog_kube(k),
            _ => true,
        }) ==> final(window)@ == old(window)@,
        opened == Some(SubWindowId::Apis) && (match ev {
            Event::Input(_) => true,
            Event::Kube(k) => dialog_kube(k),
            _ => true,
        }) ==> final(window)@ == old(window)@,
{
    let route_to_worker = match ev {
        Event::Kube(k) => {
            match k {
                Kube::Pod(_) | Kube::Configs(_) | Kube::LogStreamResponse(_)
                    | Kube::ConfigResponse(_) | Kube::GetCurrentContextResponse(_, _)
                    | Kube::Event(_) => true,
                _ => false,
            }
        },
        _ => false,
    };
    if route_to_worker {
        return window_action(window, ev, current_namespace, current_context);
    }
    let to_ns = match ev {
        Event::Kube(k) => match k {
            Kube::GetNamespacesResponse(_) => true,
            _ => false,
        },
        _ => opened == Some(SubWindowId::Namespaces),
    };
    let to_apis = match ev {
        Event::Kube(k) => match k {
            Kube::GetAPIsResponse(_) => true,
            _ => false,
        },
        _ => opened == Some(SubWindowId::Apis),
    };
    if to_ns {
        namespace_subwin_action(window, ns_dialog, ev, now, current_namespace)
    } else if to_apis {
        apis_subwin_action(window, apis_dialog, ev, now)
    } else {
        window_action(window, ev, current_namespace, current_context)
    }
}

} // verus!
