//! Talking to another machine's sharing server.

use vstd::prelude::*;
use crate::files::annotations::Annotation;
use crate::text::{concat, decimal, u64_to_decimal};

verus! {

/// A client for one remote machine.
pub struct NetworkClient {
    /// `http://ADDRESS:PORT`.
    pub base_url: String,
}

/// A machine found on the network.
pub struct RemoteMachine {
    pub name: String,
    pub machine_id: String,
    pub address: String,
    pub port: u16,
}

/// The base URL of a machine's sharing server.
pub open spec fn base_url_of(address: Seq<char>, port: u16) -> Seq<char> {
    "http://"@ + address + ":"@ + decimal(port as nat)
}

impl NetworkClient {
    /// A client for the server at `address` and `port`.
    pub fn new(address: &str, port: u16) -> (c: Self)
        ensures
            c.base_url@ == base_url_of(address@, port),
    {
        let head = concat("http://", address);
        let with_colon = concat(head.as_str(), ":");
        let digits = u64_to_decimal(port as u64);
        let base_url = concat(with_colon.as_str(), digits.as_str());
        NetworkClient { base_url }
    }

    /// The files the remote machine shares. The remote protocol is not
    /// implemented: the list is empty.
    pub fn list_remote_files(&self) -> (r: Result<Vec<String>, String>)
        ensures
            r matches Ok(v) && v@.len() == 0,
    {
        Ok(Vec::new())
    }

    /// Asks the remote machine for permission to modify `file_path`. The
    /// remote protocol is not implemented: permission is never granted.
    pub fn request_modification(&self, file_path: &str, operation: &str) -> (r: Result<bool, String>)
        ensures
            r == Ok::<bool, String>(false),
    {
        Ok(false)
    }

    /// The annotations of a remote file. The remote protocol is not
    /// implemented: the list is empty.
    pub fn get_remote_annotations(&self, file_path: &str) -> (r: Result<Vec<Annotation>, String>)
        ensures
            r matches Ok(v) && v@.len() == 0,
    {
        Ok(Vec::new())
    }

    /// Adds an annotation to a remote file. The remote protocol is not
    /// implemented: nothing is sent.
    pub fn add_remote_annotation(&self, file_path: &str, annotation: &Annotation) -> (r: Result<(), String>)
        ensures
            r == Ok::<(), String>(()),
    {
        Ok(())
    }
}

} // verus!
