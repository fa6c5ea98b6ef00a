//! How the store is opened.

use vstd::prelude::*;

verus! {

/// The default of the `chunk-bytes` argument.
pub const DEFAULT_CHUNK_BYTES: usize = 3 * 1024 * 1024;

/// How many threads talk to the remote store.
pub const REMOTE_THREADS: usize = 1;

/// How many seconds a request to the remote store may take. Without a limit a
/// failure to resolve the server's name would never be noticed.
pub const REMOTE_TIMEOUT_SECONDS: u64 = 30 * 60;

/// Which store to open.
#[derive(Debug)]
pub struct StoreOptions {
    /// The directory of the local store, `None` for the default one.
    pub directory: Option<String>,
    /// The remote store behind it, where there is one.
    pub remote: Option<RemoteOptions>,
}

/// How to reach the remote store.
#[derive(Debug)]
pub struct RemoteOptions {
    pub address: String,
    pub instance_name: Option<String>,
    /// The certificates that the server is checked against. Without them the
    /// connection is not encrypted.
    pub root_ca_certs: Option<Vec<u8>>,
    pub oauth_bearer_token: Option<String>,
    pub threads: usize,
    pub chunk_bytes: usize,
    pub timeout_seconds: u64,
}

/// What a [`StoreOptions`] holds.
pub struct StoreOptionsView {
    pub directory: Option<Seq<char>>,
    pub remote: Option<RemoteOptionsView>,
}

/// What a [`RemoteOptions`] holds.
pub struct RemoteOptionsView {
    pub address: Seq<char>,
    pub instance_name: Option<Seq<char>>,
    pub root_ca_certs: Option<Seq<u8>>,
    pub oauth_bearer_token: Option<Seq<char>>,
    pub threads: usize,
    pub chunk_bytes: usize,
    pub timeout_seconds: u64,
}

/// What an optional text holds.
pub open spec fn text_of(text: Option<String>) -> Option<Seq<char>> {
    match text {
        Some(t) => Some(t@),
        None => None,
    }
}

/// What an optional row of bytes holds.
pub open spec fn bytes_of(bytes: Option<Vec<u8>>) -> Option<Seq<u8>> {
    match bytes {
        Some(b) => Some(b@),
        None => None,
    }
}

impl View for RemoteOptions {
    type V = RemoteOptionsView;

    open spec fn view(&self) -> RemoteOptionsView {
        RemoteOptionsView {
            address: self.address@,
            instance_name: text_of(self.instance_name),
            root_ca_certs: bytes_of(self.root_ca_certs),
            oauth_bearer_token: text_of(self.oauth_bearer_token),
            threads: self.threads,
            chunk_bytes: self.chunk_bytes,
            timeout_seconds: self.timeout_seconds,
        }
    }
}

impl View for StoreOptions {
    type V = StoreOptionsView;

    open spec fn view(&self) -> StoreOptionsView {
        StoreOptionsView {
            directory: text_of(self.directory),
            remote: match self.remote {
                Some(remote) => Some(remote@),
                None => None,
            },
        }
    }
}

} // verus!
