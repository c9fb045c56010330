//! The sharing server's state: what it shares and the requests it received.

use vstd::prelude::*;
use crate::files::annotations::AnnotationStore;
use crate::files::profile::ProfileConfig;
use crate::network::share::{ModificationRequest, RequestStatus, ShareConfig};

verus! {

/// The state of the sharing server.
pub struct NetworkServer {
    pub config: ShareConfig,
    pub profile_config: ProfileConfig,
    pub annotations: AnnotationStore,
    pub pending_requests: Vec<ModificationRequest>,
    pub running: bool,
}

/// The requests after answering request `id`: the first request with that
/// id gets the status, the others stay as they were.
pub open spec fn answered(
    s: Seq<ModificationRequest>,
    id: u128,
    status: RequestStatus,
    after: Seq<ModificationRequest>,
) -> bool {
    if exists|k: int| 0 <= k < s.len() && s[k].id == id {
        exists|k: int|
            0 <= k < s.len() && s[k].id == id && (forall|j: int| 0 <= j < k ==> s[j].id != id)
                && after == s.update(k, ModificationRequest { status, ..s[k] })
    } else {
        after == s
    }
}

impl NetworkServer {
    /// A stopped server with no request.
    pub fn new(config: ShareConfig, profile_config: ProfileConfig, annotations: AnnotationStore) -> (s: Self)
        ensures
            s.config == config,
            s.profile_config == profile_config,
            s.annotations == annotations,
            s.pending_requests@.len() == 0,
            !s.running,
    {
        NetworkServer { config, profile_config, annotations, pending_requests: Vec::new(), running: false }
    }

    /// Marks the server as running (serving the endpoints is not implemented).
    pub fn start(&mut self) -> (r: Result<(), String>)
        ensures
            r == Ok::<(), String>(()),
            final(self).running,
            final(self).pending_requests == old(self).pending_requests,
    {
        self.running = true;
        Ok(())
    }

    /// Marks the server as stopped.
    pub fn stop(&mut self)
        ensures
            !final(self).running,
            final(self).pending_requests == old(self).pending_requests,
    {
        self.running = false;
    }

    /// Answers the first request with identifier `request_id`: approved or denied.
    pub fn process_request(&mut self, request_id: u128, approved: bool)
        ensures
            answered(
                old(self).pending_requests@,
                request_id,
                if approved { RequestStatus::Approved } else { RequestStatus::Denied },
                final(self).pending_requests@,
            ),
            final(self).running == old(self).running,
    {
        let status = if approved { RequestStatus::Approved } else { RequestStatus::Denied };
        let ghost before = self.pending_requests@;
        let mut i: usize = 0;
        while i < self.pending_requests.len()
            invariant
                self.pending_requests@ == before,
                i <= before.len(),
                forall|j: int| 0 <= j < i ==> before[j].id != request_id,
            ensures
                self.pending_requests@ == before,
                i <= before.len(),
                forall|j: int| 0 <= j < i ==> before[j].id != request_id,
                i == before.len() || before[i as int].id == request_id,
            decreases before.len() - i,
        {
            if self.pending_requests[i].id == request_id {
                break;
            }
            i = i + 1;
        }
        if i < self.pending_requests.len() {
            let mut req = self.pending_requests.remove(i);
            req.status = status;
            self.pending_requests.insert(i, req);
            proof {
                assert(self.pending_requests@ =~= before.update(i as int, req));
                assert(answered(before, request_id, status, self.pending_requests@));
            }
        }
    }

    /// Whether `path` may be shared (see [`ProfileConfig::is_network_available`]).
    pub fn can_share_file(&self, path: &str) -> (r: bool)
        ensures
            r == self.profile_config.network_available(path@),
    {
        self.profile_config.is_network_available(path)
    }
}

} // verus!
