use ssm::common::{LogEntry, LogKind, NetMessageC2S, NetMessageS2C, ServiceConfig, ServiceStatus};
use ssm::feed::{client_accepted, line_read, process_waited, request_read};
use ssm::ids::service_file_name;
use ssm::model::{Action, ProcessMessage, ServerMessage};
use ssm::server::Server;
use ssm::service::{can_start, Service};
use std::collections::HashMap;
use std::time::{Duration, SystemTime};

const WEB: u128 = 0x67e5504410b1426f9247bb680e5fe0c8;
const DB: u128 = 0x550e8400e29b41d4a716446655440000;
const ANN: u128 = 1;
const BOB: u128 = 2;

fn at(seconds: u64) -> SystemTime {
    SystemTime::UNIX_EPOCH + Duration::from_secs(seconds)
}

fn config(name: &str, auto_start: bool) -> ServiceConfig {
    let mut environment = HashMap::new();
    environment.insert("LANG".to_string(), "C".to_string());
    ServiceConfig {
        name: name.to_string(),
        executable: "/bin/cat".to_string(),
        working_directory: "/tmp".to_string(),
        arguments: vec!["-u".to_string()],
        environment,
        auto_start,
        show_timestamp: true,
    }
}

fn ask(server: &mut Server, client: u128, message: NetMessageC2S) -> Vec<Action> {
    server.handle(ServerMessage::ClientMessage { client, message }, None, at(9))
}

fn start(server: &mut Server, id: u128, outcome: Result<u64, String>) -> Vec<Action> {
    let message = ServerMessage::ClientMessage {
        client: ANN,
        message: NetMessageC2S::StartService(id),
    };
    assert!(server.launch_request(&message).is_some());
    server.handle(message, Some(outcome), at(3))
}

fn exit(server: &mut Server, id: u128) -> Vec<Action> {
    server.handle(
        ServerMessage::Process {
            id,
            message: ProcessMessage::Exit,
        },
        None,
        at(9),
    )
}

fn log(server: &mut Server, id: u128, text: &str) -> Vec<Action> {
    let message = line_read(id, LogKind::Out, Some(text.to_string()), at(5)).unwrap();
    server.handle(message, None, at(9))
}

/// A server with one configured service and two clients.
fn serving() -> Server {
    let mut server = Server::new();
    server.load(vec![(service_file_name(WEB), config("web", false))]);
    assert!(server.handle(ServerMessage::ClientConnect(ANN), None, at(1)).len() == 2);
    assert!(server.handle(ServerMessage::ClientConnect(BOB), None, at(1)).len() == 2);
    server
}

fn running() -> Server {
    let mut server = serving();
    start(&mut server, WEB, Ok(7));
    server
}

fn status(server: &Server, id: u128) -> ServiceStatus {
    server.services.get(&id).unwrap().status
}

fn texts(server: &Server, id: u128) -> Vec<String> {
    let service = server.services.get(&id).unwrap();
    service.logs.iter().map(|log| log.text.clone()).collect()
}

fn sorted(mut clients: Vec<u128>) -> Vec<u128> {
    clients.sort();
    clients
}

/// The clients that are told this state of a service.
fn told_status(action: &Action, id: u128, status: ServiceStatus) -> Vec<u128> {
    match action {
        Action::Send {
            to,
            message:
                NetMessageS2C::UpdateServiceStatus {
                    id: about,
                    status: told,
                },
        } => {
            assert_eq!(*about, id);
            assert_eq!(*told, status);
            sorted(to.clone())
        }
        _ => panic!("another action: {:?}", action),
    }
}

fn told_log(action: &Action, text: &str, kind: LogKind) -> Vec<u128> {
    match action {
        Action::Send {
            to,
            message: NetMessageS2C::AddLog(log),
        } => {
            assert_eq!(log.text, text);
            assert_eq!(log.kind, kind);
            sorted(to.clone())
        }
        _ => panic!("another action: {:?}", action),
    }
}

fn told_clear(action: &Action) -> Vec<u128> {
    match action {
        Action::Send {
            to,
            message: NetMessageS2C::ClearLogs,
        } => sorted(to.clone()),
        _ => panic!("another action: {:?}", action),
    }
}

#[test]
fn fresh_service() {
    let service = Service::from_config(WEB, config("web", true));
    assert_eq!(service.id, WEB);
    assert_eq!(service.process, None);
    assert_eq!(service.status, ServiceStatus::Down);
    assert!(service.logs.is_empty());
    assert!(!service.stopping);
    assert_eq!(service.config.name, "web");
}

#[test]
fn startable_states() {
    assert!(can_start(ServiceStatus::Down));
    assert!(!can_start(ServiceStatus::Running));
    assert!(!can_start(ServiceStatus::Stopping));
    assert!(can_start(ServiceStatus::Dead));
    assert!(can_start(ServiceStatus::Miscarried));
    assert!(can_start(ServiceStatus::Paused));
}

#[test]
fn try_start_success_and_failure() {
    let mut service = Service::from_config(WEB, config("web", true));
    service.stopping = true;
    service.push_log(LogEntry {
        text: "old".to_string(),
        kind: LogKind::Out,
        time: at(1),
    });
    assert_eq!(service.try_start(Some(Err("no such file".to_string())), at(2)), None);
    assert_eq!(service.status, ServiceStatus::Miscarried);
    assert_eq!(service.logs.len(), 1);
    assert_eq!(service.logs[0].text, "no such file");
    assert_eq!(service.logs[0].kind, LogKind::Error);
    assert_eq!(service.logs[0].time, at(2));
    assert!(!service.stopping);

    assert_eq!(service.try_start(Some(Ok(4)), at(3)), None);
    assert_eq!(service.status, ServiceStatus::Running);
    assert_eq!(service.process, Some(4));
    assert!(service.logs.is_empty());

    assert_eq!(service.try_start(None, at(4)), None);
    assert_eq!(service.process, Some(4));
    assert_eq!(service.status, ServiceStatus::Running);
}

#[test]
fn connecting_client_learns_all_services() {
    let mut server = serving();
    server.load(vec![(service_file_name(DB), config("db", false))]);
    start(&mut server, DB, Ok(3));
    let actions = server.handle(ServerMessage::ClientConnect(5), None, at(1));
    assert_eq!(actions.len(), 4);
    let mut seen = Vec::new();
    for pair in [0, 2] {
        let about = match &actions[pair] {
            Action::Send {
                to,
                message: NetMessageS2C::UpdateServiceConfig { id, config },
            } => {
                assert_eq!(*to, vec![5]);
                assert_eq!(config.name, if *id == WEB { "web" } else { "db" });
                assert_eq!(config.arguments, vec!["-u".to_string()]);
                assert_eq!(config.environment.get("LANG"), Some(&"C".to_string()));
                *id
            }
            other => panic!("another action: {:?}", other),
        };
        let expected = if about == WEB {
            ServiceStatus::Down
        } else {
            ServiceStatus::Running
        };
        assert_eq!(told_status(&actions[pair + 1], about, expected), vec![5]);
        seen.push(about);
    }
    seen.sort();
    assert_eq!(seen, vec![DB, WEB]);
    assert_eq!(server.clients.get(&5), Some(&None));
}

#[test]
fn start_is_announced() {
    let mut server = serving();
    ask(&mut server, BOB, NetMessageC2S::MonitorLog(WEB));
    let actions = start(&mut server, WEB, Ok(7));
    assert_eq!(actions.len(), 2);
    assert_eq!(told_status(&actions[0], WEB, ServiceStatus::Running), vec![ANN, BOB]);
    assert_eq!(told_clear(&actions[1]), vec![BOB]);
    assert_eq!(status(&server, WEB), ServiceStatus::Running);
}

#[test]
fn failed_start_is_miscarried() {
    let mut server = serving();
    let actions = start(&mut server, WEB, Err("denied".to_string()));
    assert_eq!(told_status(&actions[0], WEB, ServiceStatus::Miscarried), vec![ANN, BOB]);
    assert!(told_clear(&actions[1]).is_empty());
    assert_eq!(texts(&server, WEB), vec!["denied".to_string()]);
}

#[test]
fn second_start_changes_nothing() {
    let mut server = running();
    log(&mut server, WEB, "kept");
    let message = ServerMessage::ClientMessage {
        client: ANN,
        message: NetMessageC2S::StartService(WEB),
    };
    assert!(server.launch_request(&message).is_none());
    let actions = server.handle(message, None, at(4));
    assert_eq!(actions.len(), 2);
    assert_eq!(told_status(&actions[0], WEB, ServiceStatus::Running), vec![ANN, BOB]);
    assert!(told_clear(&actions[1]).is_empty());
    assert_eq!(texts(&server, WEB), vec!["kept".to_string()]);
    assert_eq!(server.services.get(&WEB).unwrap().process, Some(7));
}

#[test]
fn launch_request_hands_out_the_configuration() {
    let server = serving();
    let (start, _) = request_read(ANN, Some(NetMessageC2S::StartService(WEB)));
    let (id, config) = server.launch_request(&start).unwrap();
    assert_eq!(id, WEB);
    assert_eq!(config.executable, "/bin/cat");
    assert!(server
        .launch_request(&request_read(ANN, Some(NetMessageC2S::StartService(DB))).0)
        .is_none());
    assert!(server
        .launch_request(&request_read(ANN, Some(NetMessageC2S::StopService(WEB))).0)
        .is_none());
}

#[test]
fn stop_then_exit_is_down() {
    let mut server = running();
    let actions = ask(&mut server, ANN, NetMessageC2S::StopService(WEB));
    assert_eq!(actions.len(), 2);
    assert!(matches!(actions[0], Action::Signal { process: 7, signal: 15 }));
    assert_eq!(told_status(&actions[1], WEB, ServiceStatus::Stopping), vec![ANN, BOB]);
    assert!(ask(&mut server, ANN, NetMessageC2S::StopService(WEB)).is_empty());
    assert!(ask(&mut server, ANN, NetMessageC2S::PauseService(WEB)).is_empty());
    assert!(ask(&mut server, ANN, NetMessageC2S::RemoveService(WEB)).is_empty());
    assert_eq!(status(&server, WEB), ServiceStatus::Stopping);
    let actions = exit(&mut server, WEB);
    assert_eq!(actions.len(), 2);
    assert!(matches!(actions[0], Action::Release { process: 7 }));
    assert_eq!(told_status(&actions[1], WEB, ServiceStatus::Down), vec![ANN, BOB]);
    assert_eq!(server.services.get(&WEB).unwrap().process, None);
}

#[test]
fn unasked_exit_is_dead() {
    let mut server = running();
    let actions = exit(&mut server, WEB);
    assert_eq!(told_status(&actions[1], WEB, ServiceStatus::Dead), vec![ANN, BOB]);
    let actions = exit(&mut server, WEB);
    assert_eq!(actions.len(), 1);
    assert_eq!(told_status(&actions[0], WEB, ServiceStatus::Dead), vec![ANN, BOB]);
}

#[test]
fn kill_then_exit_is_down() {
    let mut server = running();
    let actions = ask(&mut server, ANN, NetMessageC2S::KillService(WEB));
    assert_eq!(actions.len(), 1);
    assert!(matches!(actions[0], Action::Kill { process: 7 }));
    assert_eq!(status(&server, WEB), ServiceStatus::Running);
    exit(&mut server, WEB);
    assert_eq!(status(&server, WEB), ServiceStatus::Down);
    assert!(ask(&mut server, ANN, NetMessageC2S::KillService(WEB)).is_empty());
}

#[test]
fn pause_and_unpause() {
    let mut server = running();
    assert!(ask(&mut server, ANN, NetMessageC2S::UnpauseService(WEB)).is_empty());
    let actions = ask(&mut server, ANN, NetMessageC2S::PauseService(WEB));
    assert!(matches!(actions[0], Action::Signal { process: 7, signal: 19 }));
    assert_eq!(told_status(&actions[1], WEB, ServiceStatus::Paused), vec![ANN, BOB]);
    assert!(ask(&mut server, ANN, NetMessageC2S::PauseService(WEB)).is_empty());
    assert!(ask(&mut server, ANN, NetMessageC2S::StopService(WEB)).is_empty());
    assert!(ask(&mut server, ANN, NetMessageC2S::KillService(WEB)).is_empty());
    let actions = ask(&mut server, ANN, NetMessageC2S::UnpauseService(WEB));
    assert!(matches!(actions[0], Action::Signal { process: 7, signal: 18 }));
    assert_eq!(told_status(&actions[1], WEB, ServiceStatus::Running), vec![ANN, BOB]);
    assert_eq!(status(&server, WEB), ServiceStatus::Running);
}

#[test]
fn starting_a_paused_service_replaces_its_process() {
    let mut server = running();
    ask(&mut server, ANN, NetMessageC2S::PauseService(WEB));
    let actions = start(&mut server, WEB, Ok(8));
    assert_eq!(actions.len(), 3);
    assert!(matches!(actions[0], Action::Release { process: 7 }));
    assert_eq!(server.services.get(&WEB).unwrap().process, Some(8));

    ask(&mut server, ANN, NetMessageC2S::PauseService(WEB));
    let actions = start(&mut server, WEB, Err("denied".to_string()));
    assert_eq!(actions.len(), 2);
    assert_eq!(server.services.get(&WEB).unwrap().process, Some(8));
    assert_eq!(status(&server, WEB), ServiceStatus::Miscarried);
}

#[test]
fn log_lines_reach_observers() {
    let mut server = running();
    log(&mut server, WEB, "one");
    let actions = ask(&mut server, BOB, NetMessageC2S::MonitorLog(WEB));
    assert_eq!(actions.len(), 2);
    assert_eq!(told_clear(&actions[0]), vec![BOB]);
    assert_eq!(told_log(&actions[1], "one", LogKind::Out), vec![BOB]);
    let actions = log(&mut server, WEB, "two");
    assert_eq!(actions.len(), 1);
    assert_eq!(told_log(&actions[0], "two", LogKind::Out), vec![BOB]);
    assert_eq!(texts(&server, WEB), vec!["one".to_string(), "two".to_string()]);
    assert_eq!(server.services.get(&WEB).unwrap().logs[0].time, at(5));

    assert!(ask(&mut server, BOB, NetMessageC2S::CancelMonitorLog).is_empty());
    assert_eq!(server.clients.get(&BOB), Some(&None));
    let actions = log(&mut server, WEB, "three");
    assert!(told_log(&actions[0], "three", LogKind::Out).is_empty());
}

#[test]
fn monitoring_the_unknown_is_ignored() {
    let mut server = running();
    assert!(ask(&mut server, BOB, NetMessageC2S::MonitorLog(DB)).is_empty());
    assert_eq!(server.clients.get(&BOB), Some(&None));
    assert!(ask(&mut server, 77, NetMessageC2S::MonitorLog(WEB)).is_empty());
    assert!(ask(&mut server, 77, NetMessageC2S::CancelMonitorLog).is_empty());
    assert_eq!(server.clients.len(), 2);
}

#[test]
fn input_is_logged_and_written() {
    let mut server = running();
    assert!(ask(&mut server, ANN, NetMessageC2S::SendIn("lost".to_string())).is_empty());
    ask(&mut server, ANN, NetMessageC2S::MonitorLog(WEB));
    ask(&mut server, BOB, NetMessageC2S::MonitorLog(WEB));
    let actions = ask(&mut server, ANN, NetMessageC2S::SendIn("hello\n".to_string()));
    assert_eq!(actions.len(), 2);
    assert_eq!(told_log(&actions[0], "hello\n", LogKind::In), vec![ANN, BOB]);
    match &actions[1] {
        Action::WriteInput { process, text } => {
            assert_eq!(*process, 7);
            assert_eq!(text, "hello\n");
        }
        other => panic!("another action: {:?}", other),
    }
    assert_eq!(server.services.get(&WEB).unwrap().logs[0].time, at(9));
    exit(&mut server, WEB);
    assert!(ask(&mut server, ANN, NetMessageC2S::SendIn("late".to_string())).is_empty());
    assert_eq!(texts(&server, WEB), vec!["hello\n".to_string()]);
}

#[test]
fn configuration_is_saved_and_announced() {
    let mut server = running();
    log(&mut server, WEB, "kept");
    for (id, name) in [(WEB, "web2"), (DB, "db")] {
        let actions = ask(
            &mut server,
            ANN,
            NetMessageC2S::UpdateServiceConfig {
                id,
                config: config(name, true),
            },
        );
        assert_eq!(actions.len(), 2);
        match &actions[0] {
            Action::SaveConfig { file_name, config } => {
                assert_eq!(*file_name, service_file_name(id));
                assert_eq!(config.name, name);
            }
            other => panic!("another action: {:?}", other),
        }
        match &actions[1] {
            Action::Send {
                to,
                message: NetMessageS2C::UpdateServiceConfig { id: about, config },
            } => {
                assert_eq!(sorted(to.clone()), vec![ANN, BOB]);
                assert_eq!(*about, id);
                assert_eq!(config.name, name);
            }
            other => panic!("another action: {:?}", other),
        }
        assert_eq!(server.services.get(&id).unwrap().config.name, name);
    }
    assert_eq!(status(&server, WEB), ServiceStatus::Running);
    assert_eq!(texts(&server, WEB), vec!["kept".to_string()]);
    assert_eq!(status(&server, DB), ServiceStatus::Down);
}

#[test]
fn removal() {
    let mut server = running();
    assert!(ask(&mut server, ANN, NetMessageC2S::RemoveService(WEB)).is_empty());
    ask(&mut server, ANN, NetMessageC2S::PauseService(WEB));
    let actions = ask(&mut server, ANN, NetMessageC2S::RemoveService(WEB));
    assert_eq!(actions.len(), 3);
    match &actions[0] {
        Action::DeleteConfig { file_name } => assert_eq!(*file_name, service_file_name(WEB)),
        other => panic!("another action: {:?}", other),
    }
    assert!(matches!(actions[1], Action::Release { process: 7 }));
    match &actions[2] {
        Action::Send {
            to,
            message: NetMessageS2C::RemoveService(id),
        } => {
            assert_eq!(sorted(to.clone()), vec![ANN, BOB]);
            assert_eq!(*id, WEB);
        }
        other => panic!("another action: {:?}", other),
    }
    assert!(server.services.is_empty());
    assert!(ask(&mut server, ANN, NetMessageC2S::RemoveService(WEB)).is_empty());
    assert!(log(&mut server, WEB, "late").is_empty());
    assert!(exit(&mut server, WEB).is_empty());
    assert!(ask(&mut server, ANN, NetMessageC2S::StartService(WEB)).is_empty());
}

#[test]
fn removed_service_starts_afresh() {
    let mut server = running();
    log(&mut server, WEB, "gone");
    exit(&mut server, WEB);
    let actions = ask(&mut server, ANN, NetMessageC2S::RemoveService(WEB));
    assert_eq!(actions.len(), 2);
    ask(
        &mut server,
        ANN,
        NetMessageC2S::UpdateServiceConfig {
            id: WEB,
            config: config("again", false),
        },
    );
    assert_eq!(status(&server, WEB), ServiceStatus::Down);
    assert!(texts(&server, WEB).is_empty());
}

#[test]
fn disconnected_client_is_told_nothing() {
    let mut server = running();
    ask(&mut server, BOB, NetMessageC2S::MonitorLog(WEB));
    let (gone, more) = request_read(BOB, None);
    assert!(matches!(gone, ServerMessage::ClientDisconnect(BOB)));
    assert!(!more);
    let actions = server.handle(gone, None, at(9));
    assert!(matches!(actions[..], [Action::Close { client: BOB }]));
    let (again, _) = request_read(BOB, None);
    assert!(server.handle(again, None, at(9)).is_empty());
    let actions = log(&mut server, WEB, "unseen");
    assert!(told_log(&actions[0], "unseen", LogKind::Out).is_empty());
    let actions = exit(&mut server, WEB);
    assert_eq!(told_status(&actions[1], WEB, ServiceStatus::Dead), vec![ANN]);
}

#[test]
fn other_services_are_left_alone() {
    let mut server = running();
    server.load(vec![(service_file_name(DB), config("db", false))]);
    start(&mut server, DB, Ok(9));
    ask(&mut server, ANN, NetMessageC2S::StopService(DB));
    assert_eq!(status(&server, WEB), ServiceStatus::Running);
    assert_eq!(status(&server, DB), ServiceStatus::Stopping);
}

#[test]
fn loading_skips_other_files() {
    let mut server = Server::new();
    server.load(vec![
        ("notes.txt".to_string(), config("notes", true)),
        (service_file_name(WEB), config("web", true)),
        (service_file_name(DB), config("db", false)),
        ("550E8400E29B41D4A716446655440000".to_string(), config("db2", true)),
    ]);
    assert_eq!(server.services.len(), 2);
    assert_eq!(server.services.get(&WEB).unwrap().config.name, "web");
    assert_eq!(server.services.get(&DB).unwrap().config.name, "db2");
    assert_eq!(status(&server, WEB), ServiceStatus::Down);
}

#[test]
fn restoring_a_service() {
    let mut server = Server::new();
    server.restore(None, config("nobody", false));
    assert!(server.services.is_empty());
    server.restore(Some(DB), config("db", false));
    server.restore(Some(DB), config("db2", false));
    assert_eq!(server.services.len(), 1);
    assert_eq!(server.services.get(&DB).unwrap().config.name, "db2");
    assert_eq!(status(&server, DB), ServiceStatus::Down);
}

#[test]
fn saved_services_are_there_after_a_restart() {
    let mut server = running();
    ask(
        &mut server,
        ANN,
        NetMessageC2S::UpdateServiceConfig {
            id: DB,
            config: config("db", true),
        },
    );
    let files = server
        .services
        .iter()
        .map(|(id, service)| (service_file_name(*id), service.config.clone()))
        .collect();
    let mut anew = Server::new();
    anew.load(files);
    assert_eq!(anew.services.len(), 2);
    assert_eq!(anew.services.get(&WEB).unwrap().config.name, "web");
    assert_eq!(anew.services.get(&DB).unwrap().config.name, "db");
    assert_eq!(status(&anew, WEB), ServiceStatus::Down);
}

#[test]
fn auto_start() {
    let mut server = Server::new();
    server.load(vec![
        (service_file_name(WEB), config("web", true)),
        (service_file_name(DB), config("db", false)),
    ]);
    let requests = server.auto_start_requests();
    assert_eq!(requests.len(), 1);
    assert_eq!(requests[0].0, WEB);
    assert_eq!(requests[0].1.name, "web");
    assert_eq!(server.auto_started(WEB, Ok(4), at(1)), None);
    assert_eq!(status(&server, WEB), ServiceStatus::Running);
    assert_eq!(status(&server, DB), ServiceStatus::Down);
    assert!(server.auto_start_requests().is_empty());
}

#[test]
fn output_and_exit_become_messages() {
    match line_read(WEB, LogKind::Error, Some("oops".to_string()), at(6)) {
        Some(ServerMessage::Process {
            id,
            message: ProcessMessage::Log(log),
        }) => {
            assert_eq!(id, WEB);
            assert_eq!(log.text, "oops");
            assert_eq!(log.kind, LogKind::Error);
            assert_eq!(log.time, at(6));
        }
        other => panic!("another message: {:?}", other),
    }
    assert!(line_read(WEB, LogKind::Out, None, at(6)).is_none());
    assert!(matches!(
        process_waited(WEB, true),
        Some(ServerMessage::Process {
            id: WEB,
            message: ProcessMessage::Exit
        })
    ));
    assert!(process_waited(WEB, false).is_none());
    assert!(matches!(
        request_read(ANN, Some(NetMessageC2S::CancelMonitorLog)),
        (
            ServerMessage::ClientMessage {
                client: ANN,
                message: NetMessageC2S::CancelMonitorLog
            },
            true
        )
    ));
}

#[test]
fn accepted_clients_get_random_identifiers() {
    let (first, message) = client_accepted();
    let (second, _) = client_accepted();
    assert!(matches!(message, ServerMessage::ClientConnect(id) if id == first));
    assert_ne!(first, second);
    assert_eq!(first >> 76 & 0xf, 4);
    assert_eq!(first >> 62 & 3, 2);
}
