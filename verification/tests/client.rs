use ratatui::backend::TestBackend;
use ratatui::{Frame, Terminal};
use ssm::client::{
    App, AppStateKind, AppStateServiceList, Event, KeyCode, KeyEventKind, MouseEventKind,
    StateCall, Turn,
};
use ssm::common::{LogEntry, LogKind, NetMessageC2S, NetMessageS2C, ServiceConfig, ServiceStatus};
use ssm::list::{Area, ListState};
use ssm::model::{Action, ServerMessage};
use ssm::server::Server;
use std::collections::HashMap;
use std::time::SystemTime;

fn config(name: &str) -> ServiceConfig {
    ServiceConfig {
        name: name.to_string(),
        executable: "/bin/true".to_string(),
        working_directory: "/".to_string(),
        arguments: Vec::new(),
        environment: HashMap::new(),
        auto_start: false,
        show_timestamp: false,
    }
}

fn press(code: KeyCode) -> Event {
    Event::Key {
        kind: KeyEventKind::Press,
        code,
    }
}

fn selected(app: &App) -> Option<usize> {
    match &app.state {
        AppStateKind::ServiceList(list) => list.list_state.selected,
    }
}

#[test]
fn list_state_moves() {
    let mut state = ListState::with_selected(Some(3));
    assert_eq!(state.offset, 0);
    state.offset = 2;
    state.select_next();
    assert_eq!(state, ListState { selected: Some(4), offset: 2 });
    state.select_previous();
    assert_eq!(state, ListState { selected: Some(3), offset: 2 });
}

#[test]
fn list_state_bounds() {
    let mut state = ListState::with_selected(None);
    state.select_next();
    assert_eq!(state.selected, Some(0));
    state.select_previous();
    assert_eq!(state.selected, Some(0));
    let mut state = ListState::with_selected(None);
    state.select_previous();
    assert_eq!(state.selected, Some(usize::MAX));
    state.select_next();
    assert_eq!(state.selected, Some(usize::MAX));
}

#[test]
fn new_client() {
    let app = App::new();
    assert!(!app.exit);
    assert!(app.services.is_empty());
    assert!(app.statuses.is_empty());
    assert_eq!(selected(&app), Some(0));
}

#[test]
fn keys_move_the_selection() {
    let mut app = App::new();
    assert!(app.handle_events(Some(press(KeyCode::Down))));
    assert!(app.handle_events(Some(press(KeyCode::Down))));
    assert_eq!(selected(&app), Some(2));
    assert!(app.handle_events(Some(press(KeyCode::Up))));
    assert_eq!(selected(&app), Some(1));
    for kind in [KeyEventKind::Release, KeyEventKind::Repeat] {
        assert!(app.handle_events(Some(Event::Key {
            kind,
            code: KeyCode::Down
        })));
    }
    assert_eq!(selected(&app), Some(1));
    assert!(app.handle_events(Some(press(KeyCode::Char('x')))));
    assert!(app.handle_events(Some(press(KeyCode::Other))));
    assert_eq!(selected(&app), Some(1));
}

#[test]
fn mouse_moves_the_selection() {
    let mut app = App::new();
    app.with_state_ref(StateCall::Event(&Event::Mouse(MouseEventKind::ScrollDown)));
    assert_eq!(selected(&app), Some(1));
    app.with_state_ref(StateCall::Event(&Event::Mouse(MouseEventKind::Other)));
    assert_eq!(selected(&app), Some(1));
    app.with_state_ref(StateCall::Event(&Event::Mouse(MouseEventKind::ScrollUp)));
    assert_eq!(selected(&app), Some(0));
    app.with_state_ref(StateCall::Event(&Event::Other));
    app.with_state_ref(StateCall::Message(&NetMessageS2C::ClearLogs));
    assert_eq!(selected(&app), Some(0));
}

#[test]
fn down_then_up_is_where_it_was() {
    let mut list = AppStateServiceList::new();
    list.list_state.selected = Some(5);
    assert!(list.handle_event(&press(KeyCode::Down)).is_none());
    assert!(list.handle_event(&Event::Mouse(MouseEventKind::ScrollUp)).is_none());
    assert_eq!(list.list_state.selected, Some(5));
}

#[test]
fn app_state_is_the_screen() {
    let mut kind = AppStateKind::ServiceList(AppStateServiceList::new());
    kind.app_state().list_state.select_next();
    assert_eq!(kind.app_state().list_state.selected, Some(1));
}

#[test]
fn only_q_leaves() {
    let mut app = App::new();
    app.handle_events(Some(press(KeyCode::Char('Q'))));
    app.handle_events(Some(Event::Key {
        kind: KeyEventKind::Release,
        code: KeyCode::Char('q'),
    }));
    assert!(!app.handle_events(None));
    assert!(!app.exit);
    assert!(app.handle_events(Some(press(KeyCode::Char('q')))));
    assert!(app.exit);
    app.handle_events(Some(press(KeyCode::Up)));
    assert!(app.exit);
}

#[test]
fn messages_are_learned() {
    let mut app = App::new();
    assert!(!app.handle_network(Vec::new()));
    assert!(app.handle_network(vec![
        NetMessageS2C::UpdateServiceConfig { id: 1, config: config("a") },
        NetMessageS2C::UpdateServiceStatus { id: 1, status: ServiceStatus::Down },
        NetMessageS2C::UpdateServiceConfig { id: 2, config: config("b") },
        NetMessageS2C::UpdateServiceStatus { id: 2, status: ServiceStatus::Dead },
        NetMessageS2C::UpdateServiceStatus { id: 1, status: ServiceStatus::Running },
    ]));
    assert_eq!(app.services.get(&1).unwrap().name, "a");
    assert_eq!(app.statuses.get(&1), Some(&ServiceStatus::Running));
    assert!(app.handle_network(vec![
        NetMessageS2C::RemoveService(2),
        NetMessageS2C::ClearLogs,
        NetMessageS2C::AddLog(LogEntry {
            text: "x".to_string(),
            kind: LogKind::Out,
            time: SystemTime::UNIX_EPOCH,
        }),
    ]));
    assert_eq!(app.services.len(), 1);
    assert_eq!(app.statuses.len(), 1);
}

#[test]
fn turns() {
    let mut app = App::new();
    assert_eq!(app.run(None, Vec::new()), Turn::Wait);
    assert_eq!(app.run(Some(Event::Other), Vec::new()), Turn::Draw);
    assert_eq!(app.run(None, vec![NetMessageS2C::ClearLogs]), Turn::Draw);
    let last = vec![NetMessageS2C::UpdateServiceStatus { id: 3, status: ServiceStatus::Down }];
    assert_eq!(app.run(Some(press(KeyCode::Char('q'))), last), Turn::Exit);
    assert_eq!(app.statuses.get(&3), Some(&ServiceStatus::Down));
}

#[test]
fn the_loop_begins_by_drawing() {
    let mut app = App::new();
    assert_eq!(app.first_turn(), Turn::Draw);
    app.exit = true;
    assert_eq!(app.first_turn(), Turn::Exit);
}

#[test]
fn a_client_that_leaves_takes_in_nothing() {
    let mut app = App::new();
    app.exit = true;
    let late = vec![NetMessageS2C::UpdateServiceStatus { id: 3, status: ServiceStatus::Down }];
    assert_eq!(app.run(Some(press(KeyCode::Down)), late), Turn::Exit);
    assert!(app.statuses.is_empty());
    assert_eq!(selected(&app), Some(0));
}

#[test]
fn a_screen_that_is_asked_for_is_shown() {
    let mut app = App::new();
    app.handle_events(Some(press(KeyCode::Down)));
    app.show(None);
    assert_eq!(selected(&app), Some(1));
    let mut other = AppStateServiceList::new();
    other.list_state.selected = Some(7);
    app.show(Some(AppStateKind::ServiceList(other)));
    assert_eq!(selected(&app), Some(7));
}

/// Draws on a terminal of this size, and gives what then stands on it.
fn on_terminal(width: u16, height: u16, draw: impl FnOnce(&mut Frame)) -> Vec<String> {
    let mut terminal = Terminal::new(TestBackend::new(width, height)).unwrap();
    terminal.draw(draw).unwrap();
    let buffer = terminal.backend().buffer();
    let mut rows = Vec::new();
    for y in 0..height {
        let mut row = String::new();
        for x in 0..width {
            row.push_str(buffer[(x, y)].symbol());
        }
        rows.push(row);
    }
    rows
}

/// The whole of a terminal of this size.
fn whole(width: u16, height: u16) -> Area {
    Area { x: 0, y: 0, width, height }
}

#[test]
fn the_list_is_drawn() {
    let mut app = App::new();
    app.run(Some(press(KeyCode::Down)), Vec::new());
    let rows = on_terminal(6, 4, |frame| app.render(frame));
    assert_eq!(rows, vec!["  aaa ", "> bbb ", "  ccc ", "      "]);
    assert_eq!(selected(&app), Some(1));
}

#[test]
fn drawing_corrects_the_selection() {
    let mut list = AppStateServiceList::new();
    for _ in 0..7 {
        list.handle_event(&press(KeyCode::Down));
    }
    let rows = on_terminal(5, 2, |frame| {
        assert!(list.render(frame).is_none());
    });
    assert_eq!(rows, vec!["  bbb", "> ccc"]);
    assert_eq!(list.list_state, ListState { selected: Some(2), offset: 1 });
    list.handle_event(&press(KeyCode::Up));
    assert_eq!(list.list_state, ListState { selected: Some(1), offset: 1 });
    list.handle_message(&NetMessageS2C::ClearLogs);
    assert!(list.list_state.selected.is_some());
}

#[test]
fn drawing_in_an_empty_area_changes_nothing() {
    let mut list = AppStateServiceList::new();
    list.list_state = ListState { selected: Some(9), offset: 8 };
    on_terminal(5, 2, |frame| {
        list.render_in(frame, whole(0, 2));
        list.render_in(frame, whole(5, 0));
    });
    assert_eq!(list.list_state, ListState { selected: Some(9), offset: 8 });
}

#[test]
fn drawing_beside_the_terminal_shows_nothing() {
    let mut list = AppStateServiceList::new();
    list.list_state.selected = Some(9);
    let far = Area { x: u16::MAX - 2, y: u16::MAX - 3, width: 2, height: 3 };
    let rows = on_terminal(5, 1, |frame| {
        list.render_in(frame, far);
    });
    assert_eq!(rows, vec!["     "]);
    assert_eq!(list.list_state.selected, Some(2));
}

#[test]
fn no_drawing_past_the_largest_position() {
    let mut list = AppStateServiceList::new();
    list.list_state.selected = Some(9);
    on_terminal(5, 1, |frame| {
        list.render_in(frame, Area { x: u16::MAX - 1, y: 0, width: 1, height: 1 });
        list.render_in(frame, Area { x: 0, y: u16::MAX - 2, width: 1, height: 3 });
    });
    assert_eq!(list.list_state.selected, Some(9));
}

#[test]
fn drawing_again_changes_nothing() {
    let mut list = AppStateServiceList::new();
    list.list_state = ListState { selected: Some(2), offset: 9 };
    on_terminal(5, 1, |frame| {
        list.render_in(frame, whole(5, 1));
        let once = list.list_state;
        list.render_in(frame, whole(5, 1));
        assert_eq!(list.list_state, once);
    });
    assert_eq!(list.list_state, ListState { selected: Some(2), offset: 2 });
}

/// What drawing is to make of the selection and of the first entry.
fn expected(state: ListState, entries: usize, height: usize) -> ListState {
    if height == 0 {
        return state;
    }
    if entries == 0 {
        return ListState { selected: None, offset: 0 };
    }
    let first = state.offset.min(entries - 1);
    let Some(selected) = state.selected else {
        return ListState { selected: None, offset: first };
    };
    let selected = selected.min(entries - 1);
    let offset = if selected < first {
        selected
    } else if selected < first + height {
        first
    } else {
        selected + 1 - height
    };
    ListState { selected: Some(selected), offset }
}

#[test]
fn drawing_scrolls_to_the_selected_entry() {
    let texts = ["one", "two", "", "four", "five"];
    for entries in 0..texts.len() + 1 {
        for height in 0..7u16 {
            for offset in [0, 1, 2, 3, 4, 5, 6, usize::MAX] {
                for selected in [None, Some(0), Some(1), Some(3), Some(4), Some(5), Some(usize::MAX)] {
                    let before = ListState { selected, offset };
                    let mut state = before;
                    on_terminal(8, 7, |frame| {
                        state.render(frame, whole(8, height), texts[..entries].to_vec(), "* ");
                    });
                    assert_eq!(state, expected(before, entries, usize::from(height)));
                }
            }
        }
    }
}

/// Hands what the server sends to one client to the client.
fn deliver(app: &mut App, client: u128, actions: Vec<Action>) {
    let mut messages = Vec::new();
    for action in actions {
        if let Action::Send { to, message } = action {
            if to.contains(&client) {
                messages.push(message.clone());
            }
        }
    }
    app.handle_network(messages);
}

#[test]
fn client_keeps_in_step_with_the_server() {
    let now = SystemTime::UNIX_EPOCH;
    let mut server = Server::new();
    let mut app = App::new();
    server.load(vec![(
        "00000000-0000-0000-0000-000000000001".to_string(),
        config("a"),
    )]);
    let actions = server.handle(ServerMessage::ClientConnect(9), None, now);
    deliver(&mut app, 9, actions);
    assert_eq!(app.statuses.get(&1), Some(&ServiceStatus::Down));
    let requests = vec![
        (NetMessageC2S::UpdateServiceConfig { id: 2, config: config("b") }, None),
        (NetMessageC2S::StartService(1), Some(Ok(4))),
        (NetMessageC2S::StartService(2), Some(Err("no".to_string()))),
        (NetMessageC2S::PauseService(1), None),
        (NetMessageC2S::UpdateServiceConfig { id: 1, config: config("c") }, None),
        (NetMessageC2S::RemoveService(2), None),
    ];
    for (message, launched) in requests {
        let message = ServerMessage::ClientMessage { client: 9, message };
        let actions = server.handle(message, launched, now);
        deliver(&mut app, 9, actions);
        assert_eq!(app.services.len(), server.services.len());
        for (id, service) in &server.services {
            assert_eq!(app.services.get(id).unwrap().name, service.config.name);
            if let Some(status) = app.statuses.get(id) {
                assert_eq!(*status, service.status);
            }
        }
    }
    assert_eq!(app.statuses.get(&1), Some(&ServiceStatus::Paused));
    assert_eq!(app.statuses.get(&2), None);
}

#[test]
fn watching_client_has_the_log() {
    let now = SystemTime::UNIX_EPOCH;
    let mut server = Server::new();
    server.load(vec![(
        "00000000-0000-0000-0000-000000000001".to_string(),
        config("a"),
    )]);
    server.handle(ServerMessage::ClientConnect(9), None, now);
    let mut copy: Vec<String> = vec!["stale".to_string()];
    let mut steps = vec![
        (NetMessageC2S::StartService(1), Some(Ok(4))),
        (NetMessageC2S::MonitorLog(1), None),
        (NetMessageC2S::StartService(1), None),
        (NetMessageC2S::SendIn("one".to_string()), None),
        (NetMessageC2S::SendIn("two".to_string()), None),
        (NetMessageC2S::MonitorLog(1), None),
        (NetMessageC2S::PauseService(1), None),
    ];
    steps.push((NetMessageC2S::StartService(1), Some(Ok(5))));
    steps.push((NetMessageC2S::SendIn("three".to_string()), None));
    for (message, launched) in steps {
        let message = ServerMessage::ClientMessage { client: 9, message };
        for action in server.handle(message, launched, now) {
            match action {
                Action::Send { to, message: NetMessageS2C::ClearLogs } if to == vec![9] => {
                    copy.clear()
                }
                Action::Send { to, message: NetMessageS2C::AddLog(log) } if to == vec![9] => {
                    copy.push(log.text)
                }
                _ => {}
            }
        }
        if server.clients.get(&9) == Some(&Some(1)) {
            let logs: Vec<String> = server.services[&1]
                .logs
                .iter()
                .map(|log| log.text.clone())
                .collect();
            assert_eq!(copy, logs);
        }
    }
    assert_eq!(copy, vec!["three".to_string()]);
}
