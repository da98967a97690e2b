//! One connection's session: the mode state machine (deferred "hybrid"
//! negotiation, desktop, isolated application), the capture source it owns,
//! and the handling of decoded client messages and capture-timer outcomes.
//!
//! The session decides; its caller performs the outside work (opening a
//! capturer, spawning a process, polling a window) and hands the outcomes
//! back as plain values.

use vstd::prelude::*;
use crate::app_stream::{AppStreamer, XWD_HEADER_LEN};
use crate::desktop_stream::{CaptureError, DesktopStreamer, ScreenPoll, rgb_of_bgra};
use crate::protocol::{ClientMessage, ServerMessage, StreamMode};
use crate::text::string_of;

verus! {

/// Width reported for application frames until per-window dimensions exist.
pub const APP_FRAME_WIDTH: u32 = 800;

/// Height reported for application frames until per-window dimensions exist.
pub const APP_FRAME_HEIGHT: u32 = 600;

/// The capture source a session streams from: exactly one variant is ever
/// active, never both.
pub enum CaptureSource {
    Screen(DesktopStreamer),
    Window(AppStreamer),
}

/// A mode selection the caller must realize by constructing the matching
/// capture source (opening the screen capturer, or spawning the process and
/// discovering its window).
pub enum ModeAction {
    Desktop { screen_id: u32 },
    Application { command: String, args: Vec<String>, workdir: Option<String>, isolate_files: bool },
}

impl ModeAction {
    /// The stream mode this action resolves the session into.
    pub open spec fn stream_mode(self) -> StreamMode {
        match self {
            ModeAction::Desktop { screen_id } => StreamMode::Desktop { screen_id },
            ModeAction::Application { command, args, workdir, isolate_files } => {
                StreamMode::Application { command, args, workdir, isolate_files }
            },
        }
    }
}

/// What handling one client message asks of the caller.
pub enum HandleOutcome {
    /// Send this message back to the client.
    Reply(ServerMessage),
    /// Nothing to send.
    NoReply,
    /// Construct the capture source this action names, then complete the
    /// transition with [`Session::resolve_mode`].
    Start(ModeAction),
}

/// The outcome of one capture-timer tick, as observed by the caller.
pub enum CaptureEvent {
    /// The screen primitive was polled at `now_ms` with this result.
    ScreenTick { now_ms: u64, poll: ScreenPoll },
    /// A native dump of the application's window was captured.
    WindowDump(Vec<u8>),
    /// The application has no discoverable window this tick.
    WindowMissing,
    /// The captured application process has exited.
    AppExited,
}

/// The server-side state of one client connection.
pub struct Session {
    pub id: u128,
    pub peer: String,
    pub mode: StreamMode,
    pub capture: Option<CaptureSource>,
}

impl Session {
    /// The capture source, when present, matches the resolved mode and is
    /// itself well formed; an unresolved session has no source.
    pub open spec fn wf(&self) -> bool {
        &&& self.capture matches Some(CaptureSource::Screen(ds)) ==> (ds.wf()
            && self.mode is Desktop)
        &&& self.capture matches Some(CaptureSource::Window(asr)) ==> (asr.wf()
            && self.mode is Application)
        &&& self.mode is Hybrid ==> self.capture is None
    }

    /// A fresh session in the given mode with no capture source yet.
    pub fn new(id: u128, peer: String, mode: StreamMode) -> (r: Self)
        ensures
            r.wf(),
            r.id == id,
            r.peer == peer,
            r.mode == mode,
            r.capture is None,
    {
        Session { id, peer, mode, capture: None }
    }

    /// What source a session launched in a preselected mode still needs:
    /// its own mode's action, or nothing in hybrid mode, where the client
    /// chooses first.
    pub fn initialize_streamers(&self) -> (r: Option<ModeAction>)
        ensures
            self.mode matches StreamMode::Desktop { screen_id } ==> r == Some(
                ModeAction::Desktop { screen_id },
            ),
            self.mode matches StreamMode::Application { command, args, workdir, isolate_files }
                ==> (r matches Some(a) && a matches ModeAction::Application {
                command: c,
                args: ar,
                workdir: w,
                isolate_files: i,
            } && c == command && ar@ == args@ && w == workdir && i == isolate_files),
            self.mode is Hybrid ==> r is None,
    {
        match &self.mode {
            StreamMode::Desktop { screen_id } => Some(ModeAction::Desktop { screen_id: *screen_id }),
            StreamMode::Application { command, args, workdir, isolate_files } => {
                let ar = args.clone();
                assert(ar@ =~= args@);
                Some(
                    ModeAction::Application {
                        command: command.clone(),
                        args: ar,
                        workdir: workdir.clone(),
                        isolate_files: *isolate_files,
                    },
                )
            },
            StreamMode::Hybrid => None,
        }
    }

    /// Gives a session in a preselected mode its freshly constructed capture
    /// source.
    pub fn attach_capture(&mut self, source: CaptureSource)
        requires
            old(self).wf(),
            old(self).capture is None,
            source matches CaptureSource::Screen(ds) ==> (ds.wf() && old(self).mode is Desktop),
            source matches CaptureSource::Window(asr) ==> (asr.wf() && old(self).mode is Application),
        ensures
            final(self).wf(),
            final(self).id == old(self).id,
            final(self).peer == old(self).peer,
            final(self).mode == old(self).mode,
            final(self).capture == Some(source),
    {
        self.capture = Some(source);
    }

    /// Applies one decoded client message.
    ///
    /// A `SetMode` in a session already streaming is rejected with an error
    /// and changes nothing: the mode is immutable once resolved. In hybrid
    /// mode, a desktop or application selection becomes a [`ModeAction`] for
    /// the caller (an application selection without a command is rejected),
    /// and anything else is an error. `Ping` earns `Pong`; input messages
    /// are accepted with no reply. No message mutates the session here.
    pub fn handle_message(&self, msg: ClientMessage) -> (r: HandleOutcome)
        ensures
            msg is Ping ==> r == HandleOutcome::Reply(ServerMessage::Pong),
            msg is MouseMove || msg is MouseClick || msg is KeyPress ==> r is NoReply,
            msg matches ClientMessage::SetMode { .. } && !(self.mode is Hybrid) ==> (r
                matches HandleOutcome::Reply(ServerMessage::Error { message }) && message@
                == "Mode can only be set in hybrid mode"@),
            self.mode is Hybrid ==> (msg matches ClientMessage::SetMode {
                mode,
                screen_id,
                command,
                args,
                workdir,
                isolate_files,
            } ==> {
                &&& mode@ == "desktop"@ ==> r == HandleOutcome::Start(
                    ModeAction::Desktop {
                        screen_id: (match screen_id {
                            Some(s) => s,
                            None => 0,
                        }),
                    },
                )
                &&& mode@ == "app"@ && command is None ==> (r matches HandleOutcome::Reply(
                    ServerMessage::Error { message },
                ) && message@ == "Command required for app mode"@)
                &&& mode@ == "app"@ ==> (command matches Some(c) ==> (r
                    matches HandleOutcome::Start(ModeAction::Application {
                        command: c2,
                        args: a2,
                        workdir: w2,
                        isolate_files: i2,
                    }) && c2 == c && w2 == workdir && (args matches Some(a) ==> a2@ == a@) && (
                    args is None ==> a2@.len() == 0) && i2 == (isolate_files matches Some(
                        true,
                    ))))
                &&& mode@ != "desktop"@ && mode@ != "app"@ ==> (r matches HandleOutcome::Reply(
                    ServerMessage::Error { message },
                ) && message@ == "Invalid mode. Use 'desktop' or 'app'"@)
            }),
    {
        proof {
            reveal_strlit("desktop");
            reveal_strlit("app");
        }
        match msg {
            ClientMessage::SetMode { mode, screen_id, command, args, workdir, isolate_files } => {
                if !(matches!(&self.mode, StreamMode::Hybrid)) {
                    return HandleOutcome::Reply(
                        ServerMessage::Error {
                            message: string_of("Mode can only be set in hybrid mode"),
                        },
                    );
                }
                let desktop_lit = string_of("desktop");
                let app_lit = string_of("app");
                if mode == desktop_lit {
                    assert("desktop"@ != "app"@) by {
                        assert("desktop"@.len() == 7 && "app"@.len() == 3);
                    }
                    let sid: u32 = match screen_id {
                        Some(s) => s,
                        None => 0,
                    };
                    HandleOutcome::Start(ModeAction::Desktop { screen_id: sid })
                } else if mode == app_lit {
                    match command {
                        Some(c) => {
                            let a2: Vec<String> = match args {
                                Some(a) => a,
                                None => Vec::new(),
                            };
                            let i2: bool = match isolate_files {
                                Some(b) => b,
                                None => false,
                            };
                            HandleOutcome::Start(
                                ModeAction::Application {
                                    command: c,
                                    args: a2,
                                    workdir,
                                    isolate_files: i2,
                                },
                            )
                        },
                        None => HandleOutcome::Reply(
                            ServerMessage::Error {
                                message: string_of("Command required for app mode"),
                            },
                        ),
                    }
                } else {
                    HandleOutcome::Reply(
                        ServerMessage::Error {
                            message: string_of("Invalid mode. Use 'desktop' or 'app'"),
                        },
                    )
                }
            },
            ClientMessage::Ping => HandleOutcome::Reply(ServerMessage::Pong),
            ClientMessage::MouseMove { .. } => HandleOutcome::NoReply,
            ClientMessage::MouseClick { .. } => HandleOutcome::NoReply,
            ClientMessage::KeyPress { .. } => HandleOutcome::NoReply,
        }
    }

    /// Completes a mode selection: with a constructed source the session
    /// leaves hybrid mode for good and reports success; without one it stays
    /// unchanged in hybrid mode and reports the failure, keeping the
    /// connection open for another attempt.
    pub fn resolve_mode(&mut self, action: ModeAction, source: Option<CaptureSource>) -> (r:
        ServerMessage)
        requires
            old(self).wf(),
            old(self).mode is Hybrid,
            source matches Some(src) ==> match (action, src) {
                (ModeAction::Desktop { .. }, CaptureSource::Screen(ds)) => ds.wf(),
                (ModeAction::Application { .. }, CaptureSource::Window(asr)) => asr.wf(),
                _ => false,
            },
        ensures
            final(self).wf(),
            final(self).id == old(self).id,
            final(self).peer == old(self).peer,
            source matches Some(src) ==> (final(self).mode == action.stream_mode() && final(self).capture == Some(src) && (r matches ServerMessage::ModeSet { success, message }
                && success && (action is Desktop ==> message@ == "Desktop mode set"@) && (
            action is Application ==> message@ == "Application mode set"@))),
            source is None ==> (*final(self) == *old(self) && (r matches ServerMessage::ModeSet {
                success,
                message,
            } && !success && message@ == "Failed to initialize capture source"@)),
    {
        match source {
            Some(src) => {
                let is_desktop = matches!(&action, ModeAction::Desktop { .. });
                self.mode = match action {
                    ModeAction::Desktop { screen_id } => StreamMode::Desktop { screen_id },
                    ModeAction::Application { command, args, workdir, isolate_files } => {
                        StreamMode::Application { command, args, workdir, isolate_files }
                    },
                };
                self.capture = Some(src);
                ServerMessage::ModeSet {
                    success: true,
                    message: if is_desktop {
                        string_of("Desktop mode set")
                    } else {
                        string_of("Application mode set")
                    },
                }
            },
            None => ServerMessage::ModeSet {
                success: false,
                message: string_of("Failed to initialize capture source"),
            },
        }
    }

    /// Records a window-discovery outcome on an application session.
    pub fn record_window_discovery(&mut self, found: Option<u64>)
        requires
            old(self).wf(),
            old(self).capture matches Some(CaptureSource::Window(_)),
        ensures
            final(self).wf(),
            final(self).id == old(self).id,
            final(self).peer == old(self).peer,
            final(self).mode == old(self).mode,
            old(self).capture matches Some(CaptureSource::Window(a1)) ==> (final(self).capture matches Some(CaptureSource::Window(a2)) && a2.window_id == (
            if found is Some {
                found
            } else {
                a1.window_id
            }) && a2.command == a1.command && a2.args == a1.args && a2.workdir == a1.workdir
                && a2.isolate_files == a1.isolate_files && a2.isolation_env == a1.isolation_env
                && a2.exit_reported == a1.exit_reported),
    {
        match &mut self.capture {
            Some(CaptureSource::Window(asr)) => asr.record_discovery(found),
            _ => (),
        }
    }

    /// Applies one capture-timer outcome.
    ///
    /// A screen session follows its source's cadence contract and wraps a
    /// captured frame with the source's dimensions; a hard screen failure is
    /// the one fatal result. An application session turns a window dump into
    /// a frame (an undersized dump yields nothing), yields nothing while the
    /// window is missing, and answers the process's exit with exactly one
    /// "stopped" error: afterwards it emits nothing further, frames
    /// included. A session with no source yields nothing.
    pub fn capture_frame(&mut self, ev: CaptureEvent) -> (r: Result<
        Option<ServerMessage>,
        CaptureError,
    >)
        requires
            old(self).wf(),
            old(self).capture matches Some(CaptureSource::Screen(ds)) ==> (ev
                matches CaptureEvent::ScreenTick { now_ms, .. } && now_ms >= ds.last_frame_ms),
            old(self).capture matches Some(CaptureSource::Window(_)) ==> !(ev
                matches CaptureEvent::ScreenTick { .. }),
        ensures
            final(self).wf(),
            final(self).id == old(self).id,
            final(self).peer == old(self).peer,
            final(self).mode == old(self).mode,
            old(self).capture is None ==> (r matches Ok(f) && f is None && *final(self) == *old(self)),
            old(self).capture matches Some(CaptureSource::Screen(ds)) ==> (ev
                matches CaptureEvent::ScreenTick { now_ms, poll } ==> {
                &&& !ds.spec_due(now_ms) ==> (r matches Ok(f) && f is None && *final(self) == *old(self))
                &&& ds.spec_due(now_ms) ==> {
                    &&& poll matches ScreenPoll::Frame(bgra) ==> (r matches Ok(f) && f matches Some(
                        m,
                    ) && m matches ServerMessage::Frame { width, height, data } && width == ds.width
                        && height == ds.height && data@ == rgb_of_bgra(bgra@) && (final(self).capture matches Some(CaptureSource::Screen(ds2)) && ds2.last_frame_ms == now_ms
                        && ds2.screen_id == ds.screen_id && ds2.frame_rate == ds.frame_rate
                        && ds2.width == ds.width && ds2.height == ds.height))
                    &&& poll is NotReady ==> (r matches Ok(f) && f is None && *final(self) == *old(self))
                    &&& poll is Failed ==> (r matches Err(e) && e == CaptureError::Failed && *final(self) == *old(self))
                }
            }),
            old(self).capture matches Some(CaptureSource::Window(asr)) ==> {
                &&& asr.exit_reported ==> (r matches Ok(f) && f is None && *final(self) == *old(self))
                &&& !asr.exit_reported ==> {
                    &&& ev is AppExited ==> (r matches Ok(f) && f matches Some(m) && m
                        matches ServerMessage::Error { message } && message@
                        == "Application has stopped"@ && (final(self).capture matches Some(
                        CaptureSource::Window(a2),
                    ) && a2.exit_reported && a2.command == asr.command && a2.args == asr.args
                        && a2.workdir == asr.workdir && a2.isolate_files == asr.isolate_files
                        && a2.isolation_env == asr.isolation_env && a2.window_id == asr.window_id))
                    &&& ev matches CaptureEvent::WindowDump(d) ==> {
                        &&& d@.len() > XWD_HEADER_LEN ==> (r matches Ok(f) && f matches Some(m) && m
                            matches ServerMessage::Frame { width, height, data } && width
                            == APP_FRAME_WIDTH && height == APP_FRAME_HEIGHT && data@
                            == d@.subrange(XWD_HEADER_LEN as int, d@.len() as int) && *final(self)
                            == *old(self))
                        &&& d@.len() <= XWD_HEADER_LEN ==> (r matches Ok(f) && f is None && *final(self) == *old(self))
                    }
                    &&& ev is WindowMissing ==> (r matches Ok(f) && f is None && *final(self)
                        == *old(self))
                }
            },
    {
        match &mut self.capture {
            None => Ok(None),
            Some(CaptureSource::Screen(ds)) => {
                match ev {
                    CaptureEvent::ScreenTick { now_ms, poll } => {
                        let width = ds.width;
                        let height = ds.height;
                        match ds.capture_frame(now_ms, poll) {
                            Ok(Some(data)) => Ok(
                                Some(ServerMessage::Frame { width, height, data }),
                            ),
                            Ok(None) => Ok(None),
                            Err(e) => Err(e),
                        }
                    },
                    _ => Ok(None),
                }
            },
            Some(CaptureSource::Window(asr)) => {
                if asr.exit_reported {
                    return Ok(None);
                }
                match ev {
                    CaptureEvent::AppExited => {
                        asr.exit_reported = true;
                        Ok(
                            Some(
                                ServerMessage::Error {
                                    message: string_of("Application has stopped"),
                                },
                            ),
                        )
                    },
                    CaptureEvent::WindowDump(d) => {
                        match asr.parse_xwd_to_rgb(&d) {
                            Ok(data) => Ok(
                                Some(
                                    ServerMessage::Frame {
                                        width: APP_FRAME_WIDTH,
                                        height: APP_FRAME_HEIGHT,
                                        data,
                                    },
                                ),
                            ),
                            Err(_) => Ok(None),
                        }
                    },
                    CaptureEvent::WindowMissing => Ok(None),
                    CaptureEvent::ScreenTick { .. } => Ok(None),
                }
            },
        }
    }

    /// The ordered teardown step this module owns: marks the session's
    /// sandbox gone and yields its root for removal, exactly once. The
    /// caller stops the captured process first and removes the returned tree
    /// afterwards; neither step may suppress the other.
    pub fn release_sandbox(&mut self) -> (r: Option<String>)
        requires
            old(self).wf(),
        ensures
            final(self).wf(),
            final(self).id == old(self).id,
            final(self).peer == old(self).peer,
            final(self).mode == old(self).mode,
            old(self).capture matches Some(CaptureSource::Window(asr)) ==> (
            asr.isolation_env matches Some(env) ==> (env.live ==> (r matches Some(root) && root@
                == env.base_dir@))),
            !(old(self).capture matches Some(CaptureSource::Window(_))) ==> (r is None && *final(self) == *old(self)),
    {
        match &mut self.capture {
            Some(CaptureSource::Window(asr)) => asr.teardown_sandbox(),
            _ => None,
        }
    }
}

} // verus!
