use kubetui::dispatch::apis_subwin_action;
use kubetui::dispatch::dispatch;
use kubetui::dispatch::namespace_subwin_action;
use kubetui::dispatch::window_action;
use kubetui::event::Event;
use kubetui::event::KeyCode;
use kubetui::event::KeyEvent;
use kubetui::event::KeyModifiers;
use kubetui::event::Kube;
use kubetui::event::PaneId;
use kubetui::event::SubWindowId;
use kubetui::event::TabId;
use kubetui::event::WindowEvent;
use kubetui::table::KubeTable;
use kubetui::widget::List;
use kubetui::widget::MultipleSelect;
use kubetui::widget::SingleSelect;
use kubetui::widget::TableWidget;
use kubetui::widget::TextWidget;
use kubetui::window::Pane;
use kubetui::window::SubWindow;
use kubetui::window::Tab;
use kubetui::window::Widget;
use kubetui::window::Window;
use kubetui::worker::NetworkPollWorker;
use kubetui::worker::PollWorker;
use kubetui::worker::WorkerStep;
use kubetui::worker::insert_ns;

fn key(code: KeyCode) -> Event {
    Event::Input(KeyEvent { code, modifiers: KeyModifiers::Plain })
}

fn pods_window() -> Window {
    let pods_tab = Tab::new(
        TabId::Pods,
        "1:Pods".to_string(),
        vec![
            Pane::new(
                PaneId::PodsPods,
                "Pods".to_string(),
                Widget::Table(TableWidget::new(vec![vec![
                    "pod-0".to_string(),
                    "Running".to_string(),
                ]])),
                0,
            ),
            Pane::new(
                PaneId::PodsLogs,
                "Logs".to_string(),
                Widget::Text(TextWidget::new()),
                1,
            ),
        ],
    );
    Window::new(vec![pods_tab])
}

fn pods_selection(w: &Window) -> Option<usize> {
    match w.selected_tab().unwrap().panes()[0].widget() {
        Widget::Table(t) => t.selected(),
        _ => panic!("expected the pods pane to host a table"),
    }
}

#[test]
fn quit_key_closes_the_window() {
    let mut w = pods_window();
    let mut ns = String::new();
    let mut ctx = String::new();
    let (we, msg) = window_action(&mut w, &key(KeyCode::Char('q')), &mut ns, &mut ctx);
    assert_eq!(we, WindowEvent::CloseWindow);
    assert!(msg.is_none());
}

#[test]
fn enter_on_pods_requests_the_log_stream() {
    let mut w = pods_window();
    let mut ns = String::new();
    let mut ctx = String::new();
    let (we, msg) = window_action(&mut w, &key(KeyCode::Enter), &mut ns, &mut ctx);
    assert_eq!(we, WindowEvent::Continue);
    match msg {
        Some(Kube::LogStreamRequest(name)) => assert_eq!(name, "pod-0"),
        other => panic!("expected a log stream request, got {:?}", other),
    }
}

#[test]
fn namespace_key_opens_the_dialog_and_asks_for_namespaces() {
    let mut w = pods_window();
    let mut ns = String::new();
    let mut ctx = String::new();
    let (we, msg) = window_action(&mut w, &key(KeyCode::Char('n')), &mut ns, &mut ctx);
    assert_eq!(we, WindowEvent::OpenSubWindow(SubWindowId::Namespaces));
    assert!(matches!(msg, Some(Kube::GetNamespacesRequest)));
}

#[test]
fn current_context_response_updates_both_strings() {
    let mut w = pods_window();
    let mut ns = String::new();
    let mut ctx = String::new();
    let ev = Event::Kube(Kube::GetCurrentContextResponse(
        "cluster-a".to_string(),
        "team-x".to_string(),
    ));
    let (we, msg) = window_action(&mut w, &ev, &mut ns, &mut ctx);
    assert_eq!(we, WindowEvent::Continue);
    assert!(msg.is_none());
    assert_eq!(ctx, "cluster-a");
    assert_eq!(ns, "team-x");
}

#[test]
fn modal_input_never_reaches_the_main_window() {
    let mut w = pods_window();
    let before = pods_selection(&w);
    let mut ns_dialog = SubWindow::new(SubWindowId::Namespaces, SingleSelect::new(0));
    let mut apis_dialog = SubWindow::new(SubWindowId::Apis, MultipleSelect::new(0));
    let mut ns = String::new();
    let mut ctx = String::new();

    // with the namespace dialog open, navigation keys edit the dialog only
    let ev = Event::Input(KeyEvent { code: KeyCode::Char('n'), modifiers: KeyModifiers::Control });
    let (we, msg) = dispatch(
        &mut w,
        &mut ns_dialog,
        &mut apis_dialog,
        Some(SubWindowId::Namespaces),
        &ev,
        0,
        &mut ns,
        &mut ctx,
    );
    assert_eq!(we, WindowEvent::Continue);
    assert!(msg.is_none());
    assert_eq!(pods_selection(&w), before);

    // with the api dialog open, even plain characters stay in the dialog
    let (we, msg) = dispatch(
        &mut w,
        &mut ns_dialog,
        &mut apis_dialog,
        Some(SubWindowId::Apis),
        &key(KeyCode::Char('j')),
        0,
        &mut ns,
        &mut ctx,
    );
    assert_eq!(we, WindowEvent::Continue);
    assert!(msg.is_none());
    assert_eq!(pods_selection(&w), before);
    assert_eq!(apis_dialog.widget.filter.content(), "j");
}

#[test]
fn worker_results_reach_the_main_window_while_a_dialog_is_open() {
    let mut w = pods_window();
    let mut ns_dialog = SubWindow::new(SubWindowId::Namespaces, SingleSelect::new(0));
    let mut apis_dialog = SubWindow::new(SubWindowId::Apis, MultipleSelect::new(0));
    let mut ns = String::new();
    let mut ctx = String::new();

    let ev = Event::Kube(Kube::Pod(vec![
        vec!["pod-a".to_string()],
        vec!["pod-b".to_string()],
    ]));
    let (we, msg) = dispatch(
        &mut w,
        &mut ns_dialog,
        &mut apis_dialog,
        Some(SubWindowId::Namespaces),
        &ev,
        0,
        &mut ns,
        &mut ctx,
    );
    assert_eq!(we, WindowEvent::Continue);
    assert!(msg.is_none());
    match w.selected_tab().unwrap().panes()[0].widget() {
        Widget::Table(t) => assert_eq!(t.items().len(), 2),
        _ => panic!("expected the pods pane to host a table"),
    }
}

#[test]
fn namespace_confirm_publishes_and_clears() {
    let mut w = pods_window();
    w.apply_widget_op(
        PaneId::PodsLogs,
        kubetui::window::WidgetOp::AppendLogs(vec!["old log".to_string()]),
    );
    let mut dialog = SubWindow::new(SubWindowId::Namespaces, SingleSelect::new(0));
    dialog.widget.set_items(vec!["team-a".to_string(), "team-b".to_string()]);
    dialog.widget.select_next_item();
    let mut ns = String::new();

    let (we, msg) = namespace_subwin_action(&mut w, &mut dialog, &key(KeyCode::Enter), 0, &mut ns);
    assert_eq!(we, WindowEvent::CloseSubWindow);
    match msg {
        Some(Kube::SetNamespace(n)) => assert_eq!(n, "team-b"),
        other => panic!("expected the namespace message, got {:?}", other),
    }
    assert_eq!(ns, "team-b");
    match w.selected_tab().unwrap().panes()[1].widget() {
        Widget::Text(t) => assert!(t.items().is_empty()),
        _ => panic!("expected the logs pane to host text"),
    }
}

#[test]
fn apis_dialog_toggles_choices() {
    let mut w = pods_window();
    let mut dialog = SubWindow::new(SubWindowId::Apis, MultipleSelect::new(0));
    let ev = Event::Kube(Kube::GetAPIsResponse(vec![
        "apps/v1".to_string(),
        "batch/v1".to_string(),
    ]));
    let (we, _) = apis_subwin_action(&mut w, &mut dialog, &ev, 0);
    assert_eq!(we, WindowEvent::Continue);

    let (_, _) = apis_subwin_action(&mut w, &mut dialog, &key(KeyCode::Enter), 0);
    assert_eq!(dialog.widget.selected_items(), vec!["apps/v1".to_string()]);

    // toggling again unpicks; the cursor itself stays put
    let (_, _) = apis_subwin_action(&mut w, &mut dialog, &key(KeyCode::Char(' ')), 0);
    assert!(dialog.widget.selected_items().is_empty());
}

#[test]
fn dialog_filter_narrows_choices() {
    let mut w = pods_window();
    let mut dialog = SubWindow::new(SubWindowId::Namespaces, SingleSelect::new(0));
    dialog.widget.set_items(vec![
        "team-a".to_string(),
        "kube-system".to_string(),
        "team-b".to_string(),
    ]);
    let mut ns = String::new();
    for c in "team".chars() {
        let ev = Event::Input(KeyEvent { code: KeyCode::Char(c), modifiers: KeyModifiers::Plain });
        namespace_subwin_action(&mut w, &mut dialog, &ev, 0, &mut ns);
    }
    assert_eq!(dialog.widget.get_item(), Some("team-a".to_string()));
    dialog.widget.select_next_item();
    assert_eq!(dialog.widget.get_item(), Some("team-b".to_string()));
}

#[test]
fn cancelled_worker_publishes_nothing_more() {
    let worker = NetworkPollWorker::new(PollWorker { namespaces: vec!["team-a".to_string()] });
    let step = worker.step(true, Ok(Vec::new()));
    assert!(matches!(step, WorkerStep::Exit));
}

#[test]
fn running_worker_publishes_each_tick() {
    let worker = NetworkPollWorker::new(PollWorker { namespaces: vec!["team-a".to_string()] });
    let rows = vec![vec![
        "Pod".to_string(),
        "pod-0".to_string(),
        "1h".to_string(),
    ]];
    match worker.step(false, Ok(rows)) {
        WorkerStep::Publish(kubetui::event::NetworkMessage::Poll(Ok(t))) => {
            assert_eq!(
                t.header(),
                &vec!["KIND".to_string(), "NAME".to_string(), "AGE".to_string()]
            );
            assert_eq!(t.rows().len(), 1);
        }
        other => panic!("expected a published poll table, got {:?}", other),
    }
}

#[test]
fn multiple_namespaces_prepend_a_namespace_column() {
    let worker = NetworkPollWorker::new(PollWorker {
        namespaces: vec!["a".to_string(), "b".to_string()],
    });
    assert_eq!(
        worker.polling_header(),
        vec![
            "NAMESPACE".to_string(),
            "KIND".to_string(),
            "NAME".to_string(),
            "AGE".to_string()
        ]
    );
    assert!(insert_ns(&vec!["a".to_string(), "b".to_string()]));
    assert!(!insert_ns(&vec!["a".to_string()]));
}

#[test]
fn fetch_failure_fails_the_whole_tick() {
    let worker = NetworkPollWorker::new(PollWorker { namespaces: vec!["a".to_string()] });
    let err = kubetui::event::FetchError { message: "connection refused".to_string() };
    match worker.polling(Err(err)) {
        Err(e) => assert_eq!(e.message, "connection refused"),
        Ok(_) => panic!("a failed fetch must fail the tick"),
    }
}

#[test]
fn kube_table_new_accepts_aligned_rows() {
    let t = KubeTable::new(
        vec!["KIND".to_string(), "NAME".to_string(), "AGE".to_string()],
        vec![vec![
            "Pod".to_string(),
            "pod-0".to_string(),
            "1h".to_string(),
        ]],
    )
    .unwrap();
    assert_eq!(t.rows()[0][1], "pod-0");
}
