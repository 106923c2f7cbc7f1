//! Compositor control service: the socket paths a session's control and
//! event sockets live at.
//!
//! Connecting to a socket and pumping its events is the transport's job;
//! the path construction is verified here.  The primary location is under
//! the session's runtime directory; when it does not exist on disk the
//! transport falls back to the temporary directory.

use vstd::prelude::*;

verus! {

/// The compositor session: its instance signature and the runtime
/// directory sockets are created under.
#[derive(Debug)]
pub struct HyprlandService {
    instance_signature: String,
    xdg_runtime_dir: String,
}

/// The socket path for one socket name under one base directory.
pub open spec fn spec_socket_path(
    folder: Seq<char>,
    signature: Seq<char>,
    socket: Seq<char>,
) -> Seq<char> {
    folder + "/hypr/"@ + signature + "/."@ + socket + ".sock"@
}

impl HyprlandService {
    /// A service for the running session; the transport reads the
    /// signature and the runtime directory from the session environment.
    pub fn new(instance_signature: String, xdg_runtime_dir: String) -> (r: HyprlandService)
        ensures
            r.signature() == instance_signature@,
            r.runtime_dir() == xdg_runtime_dir@,
    {
        HyprlandService { instance_signature, xdg_runtime_dir }
    }

    pub closed spec fn signature(self) -> Seq<char> {
        self.instance_signature@
    }

    pub closed spec fn runtime_dir(self) -> Seq<char> {
        self.xdg_runtime_dir@
    }

    /// The path of one socket under one base directory.
    pub fn socket_path(&self, folder: &str, socket: &str) -> (r: String)
        ensures
            r@ == spec_socket_path(folder@, self.signature(), socket@),
    {
        let mut r = String::from_str(folder);
        r.append("/hypr/");
        r.append(self.instance_signature.as_str());
        r.append("/.");
        r.append(socket);
        r.append(".sock");
        r
    }

    /// The two candidate paths for a socket: under the runtime directory,
    /// and the temporary-directory fallback.  The transport connects to the
    /// first that exists.
    pub fn socket_path_candidates(&self, socket: &str) -> (r: (String, String))
        ensures
            r.0@ == spec_socket_path(self.runtime_dir(), self.signature(), socket@),
            r.1@ == spec_socket_path("/tmp"@, self.signature(), socket@),
    {
        let primary = self.socket_path(self.xdg_runtime_dir.clone().as_str(), socket);
        let fallback = self.socket_path("/tmp", socket);
        (primary, fallback)
    }
}

} // verus!
