use vstd::prelude::*;

verus! {

/// A file served over plain HTTP next to the WebSocket endpoint.
#[derive(Debug, Clone)]
pub struct StaticFile {
    pub uri: String,
    pub file: String,
    pub content_type: String,
}

/// Settings of one run. They do not change once a session has started.
#[derive(Debug, Clone)]
pub struct Options {
    /// Outgoing WebSocket messages are text rather than binary.
    pub websocket_text_mode: bool,
    /// Subprotocol advertised in the handshake.
    pub websocket_protocol: Option<String>,
    /// A UDP endpoint serves one datagram exchange.
    pub udp_oneshot_mode: bool,
    /// Only the forward direction runs.
    pub unidirectional: bool,
    /// Only the reverse direction runs.
    pub unidirectional_reverse: bool,
    /// The session ends when either direction ends.
    pub exit_on_eof: bool,
    /// Only the first connection of the left side is served.
    pub oneshot: bool,
    /// A stale Unix socket path is removed before binding.
    pub unlink_unix_socket: bool,
    /// Arguments of a child process.
    pub exec_args: Vec<String>,
    /// Target address of the WebSocket client handshake.
    pub ws_c_uri: String,
    /// A zero-length WebSocket message does not end the reading half.
    pub no_exit_on_zeromsg: bool,
    /// Zero-length WebSocket messages are skipped.
    pub websocket_ignore_zeromsg: bool,
    /// Files served over plain HTTP.
    pub serve_static_files: Vec<StaticFile>,
}

impl Options {
    /// Whether no option is switched on.
    pub open spec fn is_default(&self) -> bool {
        &&& !self.websocket_text_mode
        &&& self.websocket_protocol is None
        &&& !self.udp_oneshot_mode
        &&& !self.unidirectional
        &&& !self.unidirectional_reverse
        &&& !self.exit_on_eof
        &&& !self.oneshot
        &&& !self.unlink_unix_socket
        &&& self.exec_args@.len() == 0
        &&& self.ws_c_uri@.len() == 0
        &&& !self.no_exit_on_zeromsg
        &&& !self.websocket_ignore_zeromsg
        &&& self.serve_static_files@.len() == 0
    }
}

impl Default for Options {
    fn default() -> (r: Options)
        ensures
            r.is_default(),
    {
        Options {
            websocket_text_mode: false,
            websocket_protocol: None,
            udp_oneshot_mode: false,
            unidirectional: false,
            unidirectional_reverse: false,
            exit_on_eof: false,
            oneshot: false,
            unlink_unix_socket: false,
            exec_args: Vec::new(),
            ws_c_uri: String::new(),
            no_exit_on_zeromsg: false,
            websocket_ignore_zeromsg: false,
            serve_static_files: Vec::new(),
        }
    }
}

} // verus!
