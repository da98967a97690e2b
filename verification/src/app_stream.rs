//! Single-application capture source: the spawn plan for the captured
//! process (command, arguments, sandbox-bound environment), the window
//! handle discovered for it, and the conversion of a native window dump to
//! the protocol's pixel payload.
//!
//! Spawning, liveness polling and the window-query calls are process and
//! display work done by the caller; their outcomes are handed in as plain
//! values.

use vstd::prelude::*;
use crate::desktop_stream::CaptureError;
use crate::isolation::IsolationEnvironment;

verus! {

/// Bytes of native window-dump header preceding the pixel data.
pub const XWD_HEADER_LEN: usize = 100;

/// The capture state of one captured application.
pub struct AppStreamer {
    pub command: String,
    pub args: Vec<String>,
    pub workdir: Option<String>,
    pub isolate_files: bool,
    /// The window handle found for the process, if discovery has succeeded.
    pub window_id: Option<u64>,
    /// The session's sandbox; present exactly when isolation was requested.
    pub isolation_env: Option<IsolationEnvironment>,
    /// Whether the one "application stopped" signal has been emitted.
    pub exit_reported: bool,
}

impl AppStreamer {
    /// A sandbox exists exactly when isolation was requested, and its paths
    /// are consistently derived.
    pub open spec fn wf(&self) -> bool {
        &&& self.isolate_files <==> self.isolation_env is Some
        &&& self.isolation_env matches Some(env) ==> env.wf()
    }

    /// A fresh source for one application; when isolation is requested the
    /// session's sandbox paths are derived here, namespaced by `session_id`.
    pub fn new(
        command: String,
        args: Vec<String>,
        workdir: Option<String>,
        isolate_files: bool,
        session_id: u128,
    ) -> (r: Self)
        ensures
            r.wf(),
            r.command == command,
            r.args == args,
            r.workdir == workdir,
            r.isolate_files == isolate_files,
            r.window_id is None,
            !r.exit_reported,
            isolate_files ==> (r.isolation_env matches Some(env) && env.session_id == session_id
                && env.live),
            !isolate_files ==> r.isolation_env is None,
    {
        let isolation_env = if isolate_files {
            Some(IsolationEnvironment::new(session_id))
        } else {
            None
        };
        AppStreamer {
            command,
            args,
            workdir,
            isolate_files,
            window_id: None,
            isolation_env,
            exit_reported: false,
        }
    }

    /// The environment variable bindings the spawned process must run with:
    /// the sandbox bindings when isolation is on, nothing otherwise.
    pub fn spawn_environment(&self) -> (r: Vec<(String, String)>)
        ensures
            self.isolation_env matches Some(env) ==> {
                &&& r@.len() == 5
                &&& r@[0].0@ == "HOME"@ && r@[0].1@ == env.home_dir@
                &&& r@[1].0@ == "XDG_DATA_HOME"@ && r@[1].1@ == env.data_dir@
                &&& r@[2].0@ == "XDG_CONFIG_HOME"@ && r@[2].1@ == env.config_dir@
                &&& r@[3].0@ == "XDG_CACHE_HOME"@ && r@[3].1@ == env.cache_dir@
                &&& r@[4].0@ == "TMPDIR"@ && r@[4].1@ == env.temp_dir@
            },
            self.isolation_env is None ==> r@.len() == 0,
    {
        match &self.isolation_env {
            Some(env) => env.environment_bindings(),
            None => Vec::new(),
        }
    }

    /// Records the outcome of one window-discovery attempt: a found handle
    /// replaces the stored one; a failed attempt changes nothing.
    pub fn record_discovery(&mut self, found: Option<u64>)
        ensures
            final(self).window_id == (if found is Some {
                found
            } else {
                old(self).window_id
            }),
            final(self).command == old(self).command,
            final(self).args == old(self).args,
            final(self).workdir == old(self).workdir,
            final(self).isolate_files == old(self).isolate_files,
            final(self).isolation_env == old(self).isolation_env,
            final(self).exit_reported == old(self).exit_reported,
    {
        if let Some(w) = found {
            self.window_id = Some(w);
        }
    }

    /// Converts a native window dump to the frame payload: the bytes after
    /// the fixed-size header. A dump no longer than the header is invalid.
    pub fn parse_xwd_to_rgb(&self, xwd: &Vec<u8>) -> (r: Result<Vec<u8>, CaptureError>)
        ensures
            r matches Ok(d) ==> xwd@.len() > XWD_HEADER_LEN && d@ == xwd@.subrange(
                XWD_HEADER_LEN as int,
                xwd@.len() as int,
            ),
            r is Err <==> xwd@.len() <= XWD_HEADER_LEN,
    {
        if xwd.len() <= XWD_HEADER_LEN {
            return Err(CaptureError::Failed);
        }
        let mut d: Vec<u8> = Vec::new();
        let mut i: usize = XWD_HEADER_LEN;
        while i < xwd.len()
            invariant
                XWD_HEADER_LEN <= i <= xwd.len(),
                d@ == xwd@.subrange(XWD_HEADER_LEN as int, i as int),
            decreases xwd.len() - i,
        {
            d.push(xwd[i]);
            assert(d@ =~= xwd@.subrange(XWD_HEADER_LEN as int, i + 1));
            i = i + 1;
        }
        Ok(d)
    }

    /// Marks the sandbox gone and yields its root for removal, once; later
    /// calls change nothing. Process termination is the caller's step and
    /// must be attempted regardless of what this returns.
    pub fn teardown_sandbox(&mut self) -> (r: Option<String>)
        requires
            old(self).wf(),
        ensures
            final(self).wf(),
            old(self).isolation_env matches Some(env) ==> (final(self).isolation_env matches Some(
                e2,
            ) && e2.session_id == env.session_id && e2.base_dir == env.base_dir && e2.home_dir
                == env.home_dir && e2.data_dir == env.data_dir && e2.config_dir == env.config_dir
                && e2.cache_dir == env.cache_dir && e2.temp_dir == env.temp_dir),
            final(self).command == old(self).command,
            final(self).args == old(self).args,
            final(self).workdir == old(self).workdir,
            final(self).isolate_files == old(self).isolate_files,
            final(self).window_id == old(self).window_id,
            final(self).exit_reported == old(self).exit_reported,
            old(self).isolation_env is None ==> (r is None && final(self).isolation_env is None),
            old(self).isolation_env matches Some(env) ==> (env.live ==> (r matches Some(root)
                && root@ == env.base_dir@ && (final(self).isolation_env matches Some(e2)
                && !e2.live))),
            old(self).isolation_env matches Some(env) ==> (!env.live ==> (r is None
                && final(self).isolation_env == old(self).isolation_env)),
    {
        match &mut self.isolation_env {
            Some(env) => env.cleanup(),
            None => None,
        }
    }
}

} // verus!
