//! The wire protocol: the session mode and the client and server message
//! kinds carried in the JSON envelope.

use vstd::prelude::*;

verus! {

/// What a session streams: a whole screen, one sandboxed application, or
/// nothing yet (`Hybrid`, awaiting the client's choice).
#[derive(Debug, Clone, PartialEq)]
pub enum StreamMode {
    Desktop { screen_id: u32 },
    Application { command: String, args: Vec<String>, workdir: Option<String>, isolate_files: bool },
    Hybrid,
}

/// A message decoded from the client.
#[derive(Debug, Clone, PartialEq)]
pub enum ClientMessage {
    SetMode {
        mode: String,
        screen_id: Option<u32>,
        command: Option<String>,
        args: Option<Vec<String>>,
        workdir: Option<String>,
        isolate_files: Option<bool>,
    },
    MouseMove { x: i32, y: i32 },
    MouseClick { button: u8, pressed: bool },
    KeyPress { key: String, pressed: bool },
    Ping,
}

/// A message sent to the client.
#[derive(Debug, Clone, PartialEq)]
pub enum ServerMessage {
    Frame { width: u32, height: u32, data: Vec<u8> },
    ModeSet { success: bool, message: String },
    Pong,
    Error { message: String },
}

} // verus!
