use streamcore::app_stream::AppStreamer;
use streamcore::desktop_stream::{bgra_to_rgb, DesktopStreamer, ScreenPoll};
use streamcore::protocol::{ClientMessage, ServerMessage, StreamMode};
use streamcore::session::{
    CaptureEvent, CaptureSource, HandleOutcome, ModeAction, Session,
};

fn hybrid_session() -> Session {
    Session::new(7, "127.0.0.1:5000".to_string(), StreamMode::Hybrid)
}

fn set_mode_desktop(screen: Option<u32>) -> ClientMessage {
    ClientMessage::SetMode {
        mode: "desktop".to_string(),
        screen_id: screen,
        command: None,
        args: None,
        workdir: None,
        isolate_files: None,
    }
}

fn set_mode_app(command: Option<&str>) -> ClientMessage {
    ClientMessage::SetMode {
        mode: "app".to_string(),
        screen_id: None,
        command: command.map(|c| c.to_string()),
        args: None,
        workdir: None,
        isolate_files: None,
    }
}

#[test]
fn ping_earns_pong_in_any_state() {
    let s = hybrid_session();
    match s.handle_message(ClientMessage::Ping) {
        HandleOutcome::Reply(ServerMessage::Pong) => {}
        _ => panic!("Ping must earn Pong"),
    }
}

#[test]
fn input_messages_accepted_silently() {
    let s = hybrid_session();
    assert!(matches!(
        s.handle_message(ClientMessage::MouseMove { x: 1, y: 2 }),
        HandleOutcome::NoReply
    ));
    assert!(matches!(
        s.handle_message(ClientMessage::MouseClick { button: 0, pressed: true }),
        HandleOutcome::NoReply
    ));
    assert!(matches!(
        s.handle_message(ClientMessage::KeyPress { key: "a".to_string(), pressed: true }),
        HandleOutcome::NoReply
    ));
}

#[test]
fn hybrid_set_mode_desktop_starts_capture() {
    let mut s = hybrid_session();
    let outcome = s.handle_message(set_mode_desktop(Some(1)));
    match outcome {
        HandleOutcome::Start(ModeAction::Desktop { screen_id }) => assert_eq!(screen_id, 1),
        _ => panic!("desktop selection must request a capture source"),
    }
    // The session commits only once the source exists.
    assert!(matches!(s.mode, StreamMode::Hybrid));
    let ds = DesktopStreamer::new(1, 30, 1024, 768, 0);
    let reply = s.resolve_mode(
        ModeAction::Desktop { screen_id: 1 },
        Some(CaptureSource::Screen(ds)),
    );
    match reply {
        ServerMessage::ModeSet { success, message } => {
            assert!(success);
            assert_eq!(message, "Desktop mode set");
        }
        _ => panic!("expected ModeSet"),
    }
    assert!(matches!(s.mode, StreamMode::Desktop { screen_id: 1 }));
}

#[test]
fn streaming_session_rejects_further_set_mode() {
    let mut s = hybrid_session();
    let ds = DesktopStreamer::new(0, 30, 640, 480, 0);
    s.resolve_mode(
        ModeAction::Desktop { screen_id: 0 },
        Some(CaptureSource::Screen(ds)),
    );
    let mode_before = s.mode.clone();
    match s.handle_message(set_mode_app(Some("xterm"))) {
        HandleOutcome::Reply(ServerMessage::Error { message }) => {
            assert_eq!(message, "Mode can only be set in hybrid mode");
        }
        _ => panic!("a resolved session must reject SetMode"),
    }
    assert_eq!(s.mode, mode_before);
}

#[test]
fn app_mode_without_command_is_rejected() {
    let mut s = hybrid_session();
    match s.handle_message(set_mode_app(None)) {
        HandleOutcome::Reply(ServerMessage::Error { message }) => {
            assert_eq!(message, "Command required for app mode");
        }
        _ => panic!("app selection without a command must be rejected"),
    }
    assert!(matches!(s.mode, StreamMode::Hybrid));
}

#[test]
fn unknown_mode_string_is_rejected() {
    let s = hybrid_session();
    let msg = ClientMessage::SetMode {
        mode: "vnc".to_string(),
        screen_id: None,
        command: None,
        args: None,
        workdir: None,
        isolate_files: None,
    };
    match s.handle_message(msg) {
        HandleOutcome::Reply(ServerMessage::Error { message }) => {
            assert_eq!(message, "Invalid mode. Use 'desktop' or 'app'");
        }
        _ => panic!("an unknown mode must be rejected"),
    }
}

#[test]
fn failed_source_construction_keeps_hybrid() {
    let mut s = hybrid_session();
    let reply = s.resolve_mode(ModeAction::Desktop { screen_id: 0 }, None);
    match reply {
        ServerMessage::ModeSet { success, message: _ } => assert!(!success),
        _ => panic!("expected ModeSet failure"),
    }
    assert!(matches!(s.mode, StreamMode::Hybrid));
    assert!(s.capture.is_none());
}

#[test]
fn desktop_throttle_and_conversion() {
    let mut s = hybrid_session();
    let ds = DesktopStreamer::new(0, 30, 2, 1, 0);
    s.resolve_mode(
        ModeAction::Desktop { screen_id: 0 },
        Some(CaptureSource::Screen(ds)),
    );
    // Too early: interval at 30 fps is 33 ms.
    let r = s
        .capture_frame(CaptureEvent::ScreenTick {
            now_ms: 10,
            poll: ScreenPoll::Frame(vec![1, 2, 3, 4, 5, 6, 7, 8]),
        })
        .unwrap();
    assert!(r.is_none());
    // Not ready leaves the cadence clock alone.
    let r = s
        .capture_frame(CaptureEvent::ScreenTick { now_ms: 40, poll: ScreenPoll::NotReady })
        .unwrap();
    assert!(r.is_none());
    // Due, with two BGRA pixels.
    let r = s
        .capture_frame(CaptureEvent::ScreenTick {
            now_ms: 50,
            poll: ScreenPoll::Frame(vec![1, 2, 3, 4, 5, 6, 7, 8]),
        })
        .unwrap();
    match r {
        Some(ServerMessage::Frame { width, height, data }) => {
            assert_eq!((width, height), (2, 1));
            assert_eq!(data, vec![3, 2, 1, 7, 6, 5]);
        }
        _ => panic!("a due tick with a frame must produce a frame"),
    }
    // Hard failure is fatal.
    let r = s.capture_frame(CaptureEvent::ScreenTick { now_ms: 100, poll: ScreenPoll::Failed });
    assert!(r.is_err());
}

#[test]
fn bgra_conversion_drops_partial_pixel() {
    assert_eq!(bgra_to_rgb(&vec![1, 2, 3, 4, 5]), vec![3, 2, 1]);
    assert_eq!(bgra_to_rgb(&vec![]), Vec::<u8>::new());
}

#[test]
fn app_exit_signals_stopped_exactly_once() {
    let mut s = hybrid_session();
    let asr = AppStreamer::new("xterm".to_string(), vec![], None, false, 7);
    s.resolve_mode(
        ModeAction::Application {
            command: "xterm".to_string(),
            args: vec![],
            workdir: None,
            isolate_files: false,
        },
        Some(CaptureSource::Window(asr)),
    );
    // First poll after the exit: exactly one stopped signal.
    match s.capture_frame(CaptureEvent::AppExited).unwrap() {
        Some(ServerMessage::Error { message }) => {
            assert_eq!(message, "Application has stopped");
        }
        _ => panic!("exit must be reported"),
    }
    // Afterwards: nothing more, frames included.
    assert!(s.capture_frame(CaptureEvent::AppExited).unwrap().is_none());
    let dump = vec![0u8; 150];
    assert!(s.capture_frame(CaptureEvent::WindowDump(dump)).unwrap().is_none());
}

#[test]
fn window_dump_becomes_frame() {
    let mut s = hybrid_session();
    let asr = AppStreamer::new("xterm".to_string(), vec![], None, false, 7);
    s.resolve_mode(
        ModeAction::Application {
            command: "xterm".to_string(),
            args: vec![],
            workdir: None,
            isolate_files: false,
        },
        Some(CaptureSource::Window(asr)),
    );
    // While the window is missing there is no frame and no error.
    assert!(s.capture_frame(CaptureEvent::WindowMissing).unwrap().is_none());
    // An undersized dump yields nothing.
    assert!(s.capture_frame(CaptureEvent::WindowDump(vec![0u8; 100])).unwrap().is_none());
    // A full dump yields the bytes after the header.
    let mut dump = vec![0u8; 100];
    dump.extend_from_slice(&[10, 20, 30]);
    match s.capture_frame(CaptureEvent::WindowDump(dump)).unwrap() {
        Some(ServerMessage::Frame { width, height, data }) => {
            assert_eq!((width, height), (800, 600));
            assert_eq!(data, vec![10, 20, 30]);
        }
        _ => panic!("a full dump must become a frame"),
    }
}

#[test]
fn preselected_mode_requests_its_source() {
    let s = Session::new(1, "p".to_string(), StreamMode::Desktop { screen_id: 4 });
    match s.initialize_streamers() {
        Some(ModeAction::Desktop { screen_id }) => assert_eq!(screen_id, 4),
        _ => panic!("desktop session must request a screen source"),
    }
    let h = hybrid_session();
    assert!(h.initialize_streamers().is_none());
}

#[test]
fn pong_interleaves_in_send_order() {
    // One scheduling iteration per event; each event's outputs go out before
    // the next event is handled, so a Pong follows its Ping immediately.
    let mut s = hybrid_session();
    let ds = DesktopStreamer::new(0, 30, 1, 1, 0);
    s.resolve_mode(
        ModeAction::Desktop { screen_id: 0 },
        Some(CaptureSource::Screen(ds)),
    );
    let mut sent: Vec<ServerMessage> = Vec::new();
    // Frame tick, then Ping, then another frame tick.
    if let Some(m) = s
        .capture_frame(CaptureEvent::ScreenTick {
            now_ms: 50,
            poll: ScreenPoll::Frame(vec![1, 2, 3, 4]),
        })
        .unwrap()
    {
        sent.push(m);
    }
    match s.handle_message(ClientMessage::Ping) {
        HandleOutcome::Reply(m) => sent.push(m),
        _ => panic!("Ping must earn Pong"),
    }
    if let Some(m) = s
        .capture_frame(CaptureEvent::ScreenTick {
            now_ms: 100,
            poll: ScreenPoll::Frame(vec![5, 6, 7, 8]),
        })
        .unwrap()
    {
        sent.push(m);
    }
    assert_eq!(sent.len(), 3);
    assert!(matches!(sent[0], ServerMessage::Frame { .. }));
    assert_eq!(sent[1], ServerMessage::Pong);
    assert!(matches!(sent[2], ServerMessage::Frame { .. }));
}
