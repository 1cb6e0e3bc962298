use kubetui::event::PaneId;
use kubetui::event::TabId;
use kubetui::widget::List;
use kubetui::widget::TableWidget;
use kubetui::widget::TextWidget;
use kubetui::window::Pane;
use kubetui::window::Tab;
use kubetui::window::Widget;
use kubetui::window::WidgetOp;
use kubetui::window::Window;

#[test]
fn one_prev_is_selected_first_index() {
    let mut list = List::new(vec![
        String::from("Item 0"),
        String::from("Item 1"),
        String::from("Item 2"),
    ]);

    list.prev();
    assert_eq!(Some(0), list.selected())
}

#[test]
fn two_prev_is_selected_last_index() {
    let mut list = List::new(vec![
        String::from("Item 0"),
        String::from("Item 1"),
        String::from("Item 2"),
    ]);

    list.prev();
    list.prev();
    assert_eq!(Some(2), list.selected())
}

#[test]
fn one_next_is_selected_first_index() {
    let mut list = List::new(vec![
        String::from("Item 0"),
        String::from("Item 1"),
        String::from("Item 2"),
    ]);

    list.next();
    assert_eq!(Some(0), list.selected())
}

#[test]
fn last_next_is_selected_first_index() {
    let mut list = List::new(vec![
        String::from("Item 0"),
        String::from("Item 1"),
        String::from("Item 2"),
    ]);

    list.next();
    list.next();
    list.next();
    list.next();
    assert_eq!(Some(0), list.selected())
}

#[test]
fn navigation_is_inert_on_an_empty_list() {
    let mut list = List::new(Vec::new());
    list.next();
    assert_eq!(None, list.selected());
    list.prev();
    assert_eq!(None, list.selected());
}

#[test]
fn prev_at_first_index_wraps_to_last() {
    // selecting prev at index 0 of a non-empty list returns to the last index
    let mut list = List::new(vec!["a".to_string(), "b".to_string(), "c".to_string()]);
    list.next();
    assert_eq!(Some(0), list.selected());
    list.prev();
    assert_eq!(Some(2), list.selected());
}

fn sample_window() -> Window {
    let pods_tab = Tab::new(
        TabId::Pods,
        "1:Pods".to_string(),
        vec![
            Pane::new(
                PaneId::PodsPods,
                "Pods".to_string(),
                Widget::Table(TableWidget::new(vec![vec![
                    "pod-0".to_string(),
                    "Running".to_string(),
                ]])),
                0,
            ),
            Pane::new(
                PaneId::PodsLogs,
                "Logs".to_string(),
                Widget::Text(TextWidget::new()),
                1,
            ),
        ],
    );
    let configs_tab = Tab::new(
        TabId::Configs,
        "2:Configs".to_string(),
        vec![
            Pane::new(
                PaneId::ConfigsConfigs,
                "Configs".to_string(),
                Widget::List(List::new(vec!["cm-0".to_string()])),
                0,
            ),
            Pane::new(
                PaneId::ConfigsRawData,
                "Raw Data".to_string(),
                Widget::Text(TextWidget::new()),
                1,
            ),
        ],
    );
    Window::new(vec![pods_tab, configs_tab])
}

#[test]
fn select_tab_out_of_range_is_a_no_op() {
    let mut w = sample_window();
    w.select_tab(2);
    assert_eq!(w.selected_tab_index(), 1);
    w.select_tab(9);
    assert_eq!(w.selected_tab_index(), 1);
    w.select_tab(0);
    assert_eq!(w.selected_tab_index(), 1);
    w.select_tab(1);
    assert_eq!(w.selected_tab_index(), 0);
}

#[test]
fn next_pane_cycles_through_selectable_panes() {
    let mut w = sample_window();
    assert_eq!(w.selected_pane_id(), Some(PaneId::PodsPods));
    w.select_next_pane();
    assert_eq!(w.selected_pane_id(), Some(PaneId::PodsLogs));
    w.select_next_pane();
    assert_eq!(w.selected_pane_id(), Some(PaneId::PodsPods));
}

#[test]
fn apply_widget_op_reaches_the_addressed_pane() {
    let mut w = sample_window();
    w.apply_widget_op(
        PaneId::PodsLogs,
        WidgetOp::AppendLogs(vec!["line-1".to_string(), "line-2".to_string()]),
    );
    let tab = w.selected_tab().unwrap();
    match tab.panes()[1].widget() {
        Widget::Text(t) => {
            assert_eq!(t.items(), &vec!["line-1".to_string(), "line-2".to_string()]);
            assert_eq!(t.selected(), 1);
        }
        _ => panic!("expected the logs pane to host text"),
    }
}

#[test]
fn text_widget_follows_the_bottom() {
    let mut t = TextWidget::new();
    t.append_logs(&vec!["a".to_string(), "b".to_string()]);
    assert_eq!(t.selected(), 1);
    assert!(t.is_bottom());
    t.scroll_up();
    assert_eq!(t.selected(), 0);
    // no longer at the bottom: appended lines leave the view in place
    t.append_logs(&vec!["c".to_string()]);
    assert_eq!(t.selected(), 0);
}
