use f1rma::files::annotations::AnnotationStore;
use f1rma::files::profile::{Profile, ProfileConfig};
use f1rma::files::search::WalkedEntry;
use f1rma::network::client::NetworkClient;
use f1rma::network::discovery::{instance_name, mdns_host_name, service_type_text, DiscoveryEvent, DiscoveryState};
use f1rma::network::permissions::PermissionManager;
use f1rma::network::server::NetworkServer;
use f1rma::network::share::{get_shareable_files, machine_name_or_unknown, ModificationRequest, RequestStatus, ShareConfig};

fn resolved(fullname: &str, id: &str, address: Option<&str>) -> DiscoveryEvent {
    DiscoveryEvent::Resolved {
        fullname: fullname.to_string(),
        machine_id: Some(id.to_string()),
        username: Some(String::from("ana")),
        version: Some(String::from("0.1.0")),
        address: address.map(|a| a.to_string()),
        port: 7100,
    }
}

#[test]
fn granted_files_are_permitted_until_revoked() {
    let mut pm = PermissionManager::new();
    assert!(pm.always_ask);
    assert!(!pm.has_permission("m1", "/a"));
    pm.grant_permission(String::from("m1"), String::from("/a"));
    pm.grant_permission(String::from("m1"), String::from("/b"));
    assert!(pm.has_permission("m1", "/a"));
    assert!(!pm.has_permission("m2", "/a"));
    pm.revoke_permission("m1", "/a");
    assert!(!pm.has_permission("m1", "/a"));
    assert!(pm.has_permission("m1", "/b"));
}

#[test]
fn trusted_machines_may_modify_everything() {
    let mut pm = PermissionManager::default();
    pm.trust_machine(String::from("m9"));
    assert!(pm.has_permission("m9", "/qualquer"));
    pm.grant_permission(String::from("m1"), String::from("/a"));
    pm.clear_temporary_permissions();
    assert!(!pm.has_permission("m1", "/a"));
    assert!(pm.has_permission("m9", "/x"));
    pm.untrust_machine("m9");
    assert!(!pm.has_permission("m9", "/x"));
}

#[test]
fn discovery_tracks_peers_by_id() {
    let mut st = DiscoveryState::new();
    assert_eq!(st.peer_count(), 0);
    st.handle_service_event("local", resolved("notebook._f1rma._tcp.local.", "m1", Some("10.0.0.2")), 50);
    st.handle_service_event("local", resolved("eu._f1rma._tcp.local.", "local", None), 51);
    assert_eq!(st.peer_count(), 1);
    let peers = st.all_peers();
    assert_eq!(peers[0].machine_name, "notebook");
    assert_eq!(peers[0].address, "10.0.0.2");
    assert_eq!(peers[0].last_seen, Some(50));
    assert!(peers[0].online);
    st.handle_service_event("local", resolved("notebook2._f1rma._tcp.local.", "m1", None), 60);
    assert_eq!(st.peer_count(), 1);
    assert_eq!(st.all_peers()[0].machine_name, "notebook2");
    assert_eq!(st.all_peers()[0].address, "");
}

#[test]
fn removed_services_mark_peers_offline() {
    let mut st = DiscoveryState::default();
    st.handle_service_event("local", resolved("sala._f1rma._tcp.local.", "m1", Some("10.0.0.3")), 1);
    st.handle_service_event("local", resolved("quarto._f1rma._tcp.local.", "m2", Some("10.0.0.4")), 2);
    assert_eq!(st.online_peers().len(), 2);
    st.handle_service_event("local", DiscoveryEvent::Removed { fullname: String::from("sala._f1rma._tcp.local.") }, 3);
    let online = st.online_peers();
    assert_eq!(online.len(), 1);
    assert_eq!(online[0].machine_id, "m2");
    // The count is of online peers; the offline one is still known.
    assert_eq!(st.peer_count(), 1);
    assert_eq!(st.all_peers().len(), 2);
    st.handle_service_event("local", DiscoveryEvent::Other, 4);
    assert_eq!(st.peer_count(), 1);
}

#[test]
fn running_flag() {
    let mut st = DiscoveryState::new();
    assert!(!st.is_running());
    st.set_running(true);
    assert!(st.is_running());
}

#[test]
fn client_base_url_and_unimplemented_calls() {
    let c = NetworkClient::new("192.168.0.7", 7100);
    assert_eq!(c.base_url, "http://192.168.0.7:7100");
    assert_eq!(c.list_remote_files(), Ok(Vec::new()));
    assert_eq!(c.request_modification("/a", "rename"), Ok(false));
    assert!(c.get_remote_annotations("/a").unwrap().is_empty());
}

#[test]
fn share_defaults() {
    let c = ShareConfig::new();
    assert_eq!(c.port, 7100);
    assert!(!c.enabled);
    assert_eq!(c.machine_id.len(), 36);
    assert_eq!(&c.machine_id[8..9], "-");
    assert!(c.machine_id.chars().all(|ch| ch == '-' || ch.is_ascii_digit() || ('a'..='f').contains(&ch)));
    assert_ne!(c.machine_id, ShareConfig::default().machine_id);
    assert_eq!(machine_name_or_unknown(None), "unknown");
    assert_eq!(machine_name_or_unknown(Some(String::from("pc"))), "pc");
}

#[test]
fn shareable_files_are_shared_profile_files_outside_secure_dirs() {
    let mut config = ProfileConfig::default();
    config.assign_profile(String::from("/h"), Profile::Pessoal);
    config.assign_profile(String::from("/h/dev"), Profile::Dev);
    config.secure_directories.push(String::from("/h/cofre"));
    let e = |p: &str, f: bool| WalkedEntry { path: p.to_string(), name: String::new(), is_dir: !f, is_file: f };
    let entries = vec![e("/h", false), e("/h/a.txt", true), e("/h/dev/x.rs", true), e("/h/cofre/s", true), e("/h/b.md", true)];
    assert_eq!(get_shareable_files(&entries, &config), vec![String::from("/h/a.txt"), String::from("/h/b.md")]);
}

#[test]
fn the_server_answers_requests() {
    let mut config = ProfileConfig::default();
    config.assign_profile(String::from("/p"), Profile::Profissional);
    let mut server = NetworkServer::new(ShareConfig::new(), config, AnnotationStore::new());
    assert!(!server.running);
    assert_eq!(server.start(), Ok(()));
    assert!(server.running);
    let req = ModificationRequest::new(String::from("m1"), String::from("ana"), String::from("/p/a"), String::from("delete"));
    let id = req.id;
    assert_eq!(req.status, RequestStatus::Pending);
    server.pending_requests.push(req);
    server.process_request(id, false);
    assert_eq!(server.pending_requests[0].status, RequestStatus::Denied);
    server.process_request(id, true);
    assert_eq!(server.pending_requests[0].status, RequestStatus::Approved);
    assert!(server.can_share_file("/p/a"));
    assert!(!server.can_share_file("/q/a"));
    server.stop();
    assert!(!server.running);
}

#[test]
fn announcement_names() {
    assert_eq!(service_type_text(), "_f1rma._tcp.local.");
    assert_eq!(instance_name("Sala", "0123456789abcdef"), "Sala_01234567");
    assert_eq!(mdns_host_name("Meu PC Novo"), "meu-pc-novo.local.");
}
