//! The mirror of satellite records.

use phux_server::hub::fault::RelayFault;
use phux_server::hub::link_mirror::RecordFrame;
use phux_server::hub::metadata_mirror::{
    apply_mirrored, forget_mirrored_terminal, is_mirrored_key, publish_asked_flag, ASKED_PRESENT,
    RESOURCE_AGENT_KEY, RESOURCE_ASKED_KEY,
};
use phux_server::hub::relay::RelaySession;
use phux_server::hub::session::{RelayRequest, Resolved};
use phux_server::ids::{SatelliteHost, TerminalId};
use phux_server::mailbox::Mailboxes;
use phux_server::metadata::{MetadataStore, Scope};
use phux_server::wire::{BootstrapLimits, ErrorCode, FrameKind};

fn host() -> SatelliteHost {
    SatelliteHost::new("gpubox")
}

fn local_scope(id: u32) -> Scope {
    Scope::Resource(TerminalId::local(id))
}

fn satellite_scope(id: u32) -> Scope {
    Scope::Resource(TerminalId::satellite(host(), id))
}

#[test]
fn allowlist_is_the_agent_record_and_the_asked_flag() {
    assert!(is_mirrored_key(RESOURCE_AGENT_KEY));
    assert!(is_mirrored_key(RESOURCE_ASKED_KEY));
    assert!(!is_mirrored_key("phux.tags/v1"));
    assert!(!is_mirrored_key("phux.agent-session/v1"));
}

#[test]
fn a_local_agent_record_is_stored_under_the_satellite_scope() {
    let mut store = MetadataStore::new();
    let bytes = br#"{"name":"builder"}"#.to_vec();
    let applied = apply_mirrored(
        &mut store,
        &host(),
        &local_scope(7),
        RESOURCE_AGENT_KEY,
        Some(bytes.clone()),
    );
    assert!(applied);
    assert_eq!(
        store.get(&satellite_scope(7), RESOURCE_AGENT_KEY),
        Some(&bytes)
    );
    assert!(
        store.get(&local_scope(7), RESOURCE_AGENT_KEY).is_none(),
        "the hub must not keep the satellite's Local scope"
    );
}

#[test]
fn a_tombstone_removes_the_mirrored_key() {
    let mut store = MetadataStore::new();
    apply_mirrored(
        &mut store,
        &host(),
        &local_scope(7),
        RESOURCE_ASKED_KEY,
        Some(vec![ASKED_PRESENT]),
    );
    let cleared = apply_mirrored(
        &mut store,
        &host(),
        &local_scope(7),
        RESOURCE_ASKED_KEY,
        None,
    );
    assert!(cleared);
    assert!(store
        .get(&satellite_scope(7), RESOURCE_ASKED_KEY)
        .is_none());
}

#[test]
fn a_non_allowlisted_key_and_a_satellite_scope_are_ignored() {
    let mut store = MetadataStore::new();
    let other = apply_mirrored(
        &mut store,
        &host(),
        &local_scope(7),
        "phux.tags/v1",
        Some(b"x".to_vec()),
    );
    let chained = apply_mirrored(
        &mut store,
        &host(),
        &satellite_scope(7),
        RESOURCE_AGENT_KEY,
        Some(br#"{"name":"nope"}"#.to_vec()),
    );
    assert!(!(other || chained));
    assert!(store.is_empty(&satellite_scope(7)));
}

#[test]
fn the_asked_flag_is_one_byte_or_a_tombstone() {
    let mut store = MetadataStore::new();
    let wire = TerminalId::local(3);
    publish_asked_flag(&mut store, &wire, true);
    assert_eq!(
        store.get(&Scope::Resource(wire.clone()), RESOURCE_ASKED_KEY),
        Some(&vec![ASKED_PRESENT])
    );
    publish_asked_flag(&mut store, &wire, false);
    assert!(store
        .get(&Scope::Resource(wire), RESOURCE_ASKED_KEY)
        .is_none());
}

#[test]
fn a_gone_satellite_terminal_leaves_no_mirror() {
    let mut store = MetadataStore::new();
    for key in [RESOURCE_AGENT_KEY, RESOURCE_ASKED_KEY] {
        apply_mirrored(&mut store, &host(), &local_scope(7), key, Some(vec![1]));
        apply_mirrored(&mut store, &host(), &local_scope(8), key, Some(vec![2]));
    }
    forget_mirrored_terminal(&mut store, &host(), 7);
    assert!(store.is_empty(&satellite_scope(7)));
    assert_eq!(
        store.get(&satellite_scope(8), RESOURCE_AGENT_KEY),
        Some(&vec![2])
    );
}

fn link() -> RelaySession {
    RelaySession::new(
        host(),
        BootstrapLimits {
            max_chunk_bytes: 256 * 1024,
            max_history_page_bytes: 1024 * 1024,
        },
    )
}

/// The request that asks for `wanted`.
fn read_of(frames: &[RecordFrame], wanted: &str) -> u32 {
    for frame in frames {
        if let RecordFrame::GetMetadata {
            request_id, key, ..
        } = frame
        {
            if key == wanted {
                return *request_id;
            }
        }
    }
    panic!("the mirror does not read {wanted}")
}

#[test]
fn the_link_retags_a_changed_record_and_a_get_reply() {
    let mut session = link();
    let mut store = MetadataStore::new();
    let frames = session.mirror_terminal(7);
    let mut mailboxes = Mailboxes::new();
    assert!(session
        .handle_request_checked(RelayRequest::MirrorTerminal { terminal: 7 }, &mut mailboxes)
        .wire
        .is_none());
    assert_eq!(
        frames.len(),
        4,
        "subscribe and get, for each allowlisted key"
    );
    assert!(
        session.mirror_terminal(7).is_empty(),
        "a second mirror on the same connection sends nothing"
    );

    session
        .handle_record_frame(
            RecordFrame::MetadataChanged {
                scope: local_scope(7),
                key: RESOURCE_AGENT_KEY.to_owned(),
                value: Some(br#"{"name":"builder"}"#.to_vec()),
                actor: None,
            },
            &mut store,
        )
        .expect("metadata changed is in-bounds");
    assert_eq!(
        store.get(&satellite_scope(7), RESOURCE_AGENT_KEY),
        Some(&br#"{"name":"builder"}"#.to_vec())
    );

    session
        .handle_record_frame(
            RecordFrame::MetadataChanged {
                scope: local_scope(7),
                key: "phux.tags/v1".to_owned(),
                value: Some(b"nope".to_vec()),
                actor: None,
            },
            &mut store,
        )
        .expect("a non-allowlisted key must not tear the link");
    assert!(store.get(&satellite_scope(7), "phux.tags/v1").is_none());

    session
        .handle_record_frame(
            RecordFrame::MetadataChanged {
                scope: satellite_scope(7),
                key: RESOURCE_ASKED_KEY.to_owned(),
                value: Some(vec![ASKED_PRESENT]),
                actor: None,
            },
            &mut store,
        )
        .expect("a satellite-tagged scope must not tear the link");
    assert!(
        store
            .get(&satellite_scope(7), RESOURCE_ASKED_KEY)
            .is_none(),
        "hub-and-spoke does not chain"
    );

    let request_id = read_of(&frames, RESOURCE_ASKED_KEY);
    session
        .handle_record_frame(
            RecordFrame::MetadataValue {
                request_id,
                value: Some(vec![ASKED_PRESENT]),
            },
            &mut store,
        )
        .expect("metadata value is in-bounds");
    assert_eq!(
        store.get(&satellite_scope(7), RESOURCE_ASKED_KEY),
        Some(&vec![ASKED_PRESENT])
    );
}

#[test]
fn a_read_is_answered_once() {
    let mut session = link();
    let mut store = MetadataStore::new();
    let frames = session.mirror_terminal(7);
    let request_id = read_of(&frames, RESOURCE_AGENT_KEY);
    for value in [vec![1], vec![2]] {
        session
            .handle_record_frame(
                RecordFrame::MetadataValue {
                    request_id,
                    value: Some(value),
                },
                &mut store,
            )
            .expect("in-bounds");
    }
    assert_eq!(
        store.get(&satellite_scope(7), RESOURCE_AGENT_KEY),
        Some(&vec![1])
    );
}

#[test]
fn a_refused_read_is_off_the_books() {
    let mut session = link();
    let mut boxes = Mailboxes::new();
    let frames = session.mirror_terminal(7);
    assert_eq!(session.requests.pending_reads.len(), 2);
    let request_id = read_of(&frames, RESOURCE_AGENT_KEY);
    let resolved = session
        .handle_inbound(
            FrameKind::Error {
                request_id: Some(request_id),
                code: ErrorCode::TerminalNotFound,
                message: "nope".to_owned(),
            },
            &mut boxes,
        )
        .expect("a refused read does not tear the link");
    assert!(matches!(resolved, Resolved::Nobody));
    assert_eq!(session.requests.pending_reads.len(), 1);
}

#[test]
fn satellites_do_not_read_the_hubs_records() {
    let mut session = link();
    let mut store = MetadataStore::new();
    assert_eq!(
        session.handle_record_frame(
            RecordFrame::GetMetadata {
                request_id: 1,
                scope: local_scope(7),
                key: RESOURCE_AGENT_KEY.to_owned(),
            },
            &mut store,
        ),
        Err(RelayFault::DirectionInvalid)
    );
}
