//! What this machine shares, and requests from other machines to modify files.

use vstd::prelude::*;
use crate::files::profile::{law_shared_profiles_available, Profile, ProfileConfig};
use crate::files::search::WalkedEntry;
use crate::stamps::new_uuid;

verus! {

/// How this machine shares files on the network.
pub struct ShareConfig {
    /// Port of the sharing server.
    pub port: u16,
    /// Whether the sharing server is on.
    pub enabled: bool,
    /// Name of this machine on the network.
    pub machine_name: String,
    /// Unique id of this machine.
    pub machine_id: String,
    pub username: String,
}

/// The host name: calls `hostname::get`, converting the name lossily to text;
/// `None` when it cannot be read. Nothing is stated of the name: it depends
/// on the machine.
#[verifier::external_body]
fn host_name() -> Option<String> {
    match hostname::get() {
        Ok(h) => Some(h.to_string_lossy().to_string()),
        Err(_) => None,
    }
}

/// The current user's name: calls `whoami::username`. Nothing is stated of
/// it: it depends on the machine.
#[verifier::external_body]
fn user_name() -> String {
    whoami::username()
}

/// A UUID written as `uuid` writes one: 36 characters, hyphens at positions
/// 8, 13, 18 and 23, lowercase hexadecimal digits elsewhere.
pub open spec fn uuid_text_shape(s: Seq<char>) -> bool {
    &&& s.len() == 36
    &&& forall|i: int|
        0 <= i < 36 ==> if i == 8 || i == 13 || i == 18 || i == 23 {
            s[i] == '-'
        } else {
            ('0' <= s[i] <= '9') || ('a' <= s[i] <= 'f')
        }
}

/// Calls `uuid::Uuid::new_v4` and writes it with `Display` (the hyphenated
/// lowercase form): the value is random, only its shape is stated.
#[verifier::external_body]
fn new_uuid_text() -> (r: String)
    ensures
        uuid_text_shape(r@),
{
    uuid::Uuid::new_v4().to_string()
}

/// The machine name to use: the host name, or `unknown` when it could not be read.
pub fn machine_name_or_unknown(host: Option<String>) -> (r: String)
    ensures
        match host {
            Some(h) => r@ == h@,
            None => r@ == "unknown"@,
        },
{
    match host {
        Some(h) => h,
        None => "unknown".to_owned(),
    }
}

impl ShareConfig {
    /// The configuration used until one is saved: port 7100, sharing off, this
    /// machine's host name (or `unknown`), a fresh id and the current user.
    pub fn new() -> (c: Self)
        ensures
            c.port == 7100,
            !c.enabled,
            uuid_text_shape(c.machine_id@),
    {
        ShareConfig {
            port: 7100,
            enabled: false,
            machine_name: machine_name_or_unknown(host_name()),
            machine_id: new_uuid_text(),
            username: user_name(),
        }
    }
}

impl Default for ShareConfig {
    fn default() -> (c: Self)
        ensures
            c.port == 7100,
            !c.enabled,
    {
        ShareConfig::new()
    }
}

/// Where a request to modify a file stands.
#[derive(Debug, Clone, Copy, PartialEq, Eq, Structural)]
pub enum RequestStatus {
    Pending,
    Approved,
    Denied,
}

/// A request from another machine to modify a local file.
pub struct ModificationRequest {
    /// Random identifier.
    pub id: u128,
    pub requester_machine: String,
    pub requester_user: String,
    pub file_path: String,
    pub operation: String,
    pub status: RequestStatus,
}

impl ModificationRequest {
    /// A pending request with a fresh identifier.
    pub fn new(requester_machine: String, requester_user: String, file_path: String, operation: String) -> (r: Self)
        ensures
            r.requester_machine == requester_machine,
            r.requester_user == requester_user,
            r.file_path == file_path,
            r.operation == operation,
            r.status == RequestStatus::Pending,
    {
        ModificationRequest {
            id: new_uuid(),
            requester_machine,
            requester_user,
            file_path,
            operation,
            status: RequestStatus::Pending,
        }
    }
}

/// The walked entries that are files the configuration lets us share, in walk order.
pub open spec fn shareable_of(s: Seq<WalkedEntry>, config: ProfileConfig) -> Seq<Seq<char>>
    decreases s.len(),
{
    if s.len() == 0 {
        Seq::empty()
    } else if s.last().is_file && config.network_available(s.last().path@) {
        shareable_of(s.drop_last(), config).push(s.last().path@)
    } else {
        shareable_of(s.drop_last(), config)
    }
}

/// The files among the walked entries of a tree that may be shared on the network.
pub fn get_shareable_files(entries: &Vec<WalkedEntry>, profile_config: &ProfileConfig) -> (r: Vec<String>)
    ensures
        crate::paths::strings_view(r@) == shareable_of(entries@, *profile_config),
        forall|i: int|
            0 <= i < entries@.len() && entries@[i].is_file && profile_config.network_available(entries@[i].path@)
                ==> #[trigger] crate::paths::strings_view(r@).contains(entries@[i].path@),
{
    let mut r: Vec<String> = Vec::new();
    let mut i: usize = 0;
    while i < entries.len()
        invariant
            i <= entries@.len(),
            crate::paths::strings_view(r@) == shareable_of(entries@.subrange(0, i as int), *profile_config),
        decreases entries@.len() - i,
    {
        proof {
            assert(entries@.subrange(0, i + 1).drop_last() =~= entries@.subrange(0, i as int));
        }
        let e = &entries[i];
        if e.is_file && profile_config.is_network_available(e.path.as_str()) {
            r.push(e.path.clone());
            proof {
                assert(crate::paths::strings_view(r@) =~= shareable_of(entries@.subrange(0, i as int), *profile_config).push(e.path@));
            }
        }
        i = i + 1;
    }
    proof {
        assert(entries@.subrange(0, entries@.len() as int) =~= entries@);
        assert forall|k: int|
            0 <= k < entries@.len() && entries@[k].is_file && profile_config.network_available(entries@[k].path@)
                implies #[trigger] crate::paths::strings_view(r@).contains(entries@[k].path@) by {
            law_shareable_files_complete(entries@, *profile_config, k);
        }
    }
    r
}

/// Every file offered for sharing is a file that may be shared: outside the
/// secure directories and of a shared profile.
pub proof fn law_shareable_files_are_available(s: Seq<WalkedEntry>, config: ProfileConfig, i: int)
    requires
        0 <= i < shareable_of(s, config).len(),
    ensures
        config.network_available(shareable_of(s, config)[i]),
    decreases s.len(),
{
    if s.len() > 0 {
        let rest = shareable_of(s.drop_last(), config);
        if s.last().is_file && config.network_available(s.last().path@) {
            if i < rest.len() {
                law_shareable_files_are_available(s.drop_last(), config, i);
            }
        } else {
            law_shareable_files_are_available(s.drop_last(), config, i);
        }
    }
}

/// Every walked file that may be shared is offered: a file outside the secure
/// directories whose profile is shared on the network is in the list.
pub proof fn law_shareable_files_complete(s: Seq<WalkedEntry>, config: ProfileConfig, i: int)
    requires
        0 <= i < s.len(),
        s[i].is_file,
        config.network_available(s[i].path@),
    ensures
        shareable_of(s, config).contains(s[i].path@),
    decreases s.len(),
{
    let rest = shareable_of(s.drop_last(), config);
    if i == s.len() - 1 {
        let r = rest.push(s.last().path@);
        assert(r[r.len() - 1] == s[i].path@);
    } else {
        assert(s.drop_last()[i] == s[i]);
        law_shareable_files_complete(s.drop_last(), config, i);
        if s.last().is_file && config.network_available(s.last().path@) {
            let k = choose|k: int| 0 <= k < rest.len() && rest[k] == s[i].path@;
            assert(rest.push(s.last().path@)[k] == s[i].path@);
        }
    }
}

/// Personal and professional files outside every secure directory are offered
/// for sharing.
pub proof fn law_personal_and_work_files_offered(s: Seq<WalkedEntry>, config: ProfileConfig, i: int)
    requires
        0 <= i < s.len(),
        s[i].is_file,
        !config.in_secure(s[i].path@),
        config.resolved(s[i].path@) == Some(Profile::Pessoal) || config.resolved(s[i].path@) == Some(
            Profile::Profissional,
        ),
    ensures
        shareable_of(s, config).contains(s[i].path@),
{
    law_shared_profiles_available(config, s[i].path@);
    law_shareable_files_complete(s, config, i);
}

} // verus!
