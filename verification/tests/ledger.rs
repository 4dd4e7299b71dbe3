use file_carrier::error::FileCarrierError;
use file_carrier::hierarchy::CarrierFs;
use file_carrier::register::{
    build_canonical_reaches, commit_registration, register_folder, ContactDataRate,
    RegisterAction,
};
use file_carrier::unregister::{commit_unregistration, unregister_folder};

fn carrier_with(reaches: Option<Vec<&str>>, connected: Option<&str>) -> CarrierFs {
    CarrierFs {
        root_is_dir: true,
        data_is_dir: true,
        readme_present: true,
        reaches: reaches.map(|lines| lines.into_iter().map(|s| s.to_string()).collect()),
        connected: connected.map(|s| s.to_string()),
    }
}

fn lines(fs: &CarrierFs) -> Vec<String> {
    fs.reaches.clone().expect("ledger file should exist")
}

#[test]
fn register_chooses_earliest_peer() {
    // ledger [A, B, C], local id A: the ledger keeps [A, B, C], the peer is B
    let mut fs = carrier_with(Some(vec!["A", "B", "C"]), None);
    let folder = "/mnt/usb".to_string();
    let local = "A".to_string();
    let data = "/mnt/usb/.bundles/data".to_string();

    let action = register_folder(&mut fs, &folder, &local, &data, 100, 300).unwrap();
    match action {
        RegisterAction::SendContact { peer, config } => {
            assert_eq!(peer, "B");
            assert_eq!(config.eid, "B");
            assert_eq!(config.reaches_eid, vec!["B".to_string(), "C".to_string()]);
            assert_eq!(config.cla_address, "file:/mnt/usb/.bundles/data");
            assert_eq!(config.contacts.len(), 1);
            assert_eq!(config.contacts[0].start, 100);
            assert_eq!(config.contacts[0].end, 400);
            assert!(matches!(config.contacts[0].data_rate, ContactDataRate::Unlimited));
        },
        RegisterAction::FirstUser => panic!("expected a peer"),
    }
    // nothing is written before the send is confirmed
    assert_eq!(lines(&fs), vec!["A".to_string(), "B".to_string(), "C".to_string()]);
    assert_eq!(fs.connected, None);

    let peer = commit_registration(&mut fs, &local);
    assert_eq!(peer, "B");
    assert_eq!(lines(&fs), vec!["A".to_string(), "B".to_string(), "C".to_string()]);
    assert_eq!(fs.connected, Some("B".to_string()));
}

#[test]
fn register_prepends_local_id() {
    // ledger [B], local id A: the ledger becomes [A, B], the peer is B
    let mut fs = carrier_with(Some(vec!["B"]), None);
    let folder = "/mnt/usb".to_string();
    let local = "A".to_string();
    let data = "/mnt/usb/.bundles/data".to_string();

    let action = register_folder(&mut fs, &folder, &local, &data, 0, 300).unwrap();
    let peer = match action {
        RegisterAction::SendContact { peer, .. } => peer,
        RegisterAction::FirstUser => panic!("expected a peer"),
    };
    assert_eq!(peer, "B");
    let committed = commit_registration(&mut fs, &local);
    assert_eq!(committed, "B");
    assert_eq!(lines(&fs), vec!["A".to_string(), "B".to_string()]);
    assert_eq!(fs.connected, Some("B".to_string()));
}

#[test]
fn register_first_user_ledger_absent() {
    // no ledger file, local id A: ledger becomes [A], FirstUser, no marker
    let mut fs = carrier_with(None, None);
    let folder = "/mnt/usb".to_string();
    let local = "A".to_string();
    let data = "/mnt/usb/.bundles/data".to_string();

    let action = register_folder(&mut fs, &folder, &local, &data, 0, 300).unwrap();
    assert!(matches!(action, RegisterAction::FirstUser));
    assert_eq!(lines(&fs), vec!["A".to_string()]);
    assert_eq!(fs.connected, None);
}

#[test]
fn register_first_user_ledger_empty() {
    let mut fs = carrier_with(Some(vec![]), None);
    let folder = "/mnt/usb".to_string();
    let local = "A".to_string();
    let data = "/mnt/usb/.bundles/data".to_string();

    let action = register_folder(&mut fs, &folder, &local, &data, 0, 300).unwrap();
    assert!(matches!(action, RegisterAction::FirstUser));
    assert_eq!(lines(&fs), vec!["A".to_string()]);
    assert_eq!(fs.connected, None);
}

#[test]
fn register_first_user_only_local_lines() {
    // a ledger holding only the local id still has no peer
    let mut fs = carrier_with(Some(vec!["A", "A"]), None);
    let folder = "/mnt/usb".to_string();
    let local = "A".to_string();
    let data = "/mnt/usb/.bundles/data".to_string();

    let action = register_folder(&mut fs, &folder, &local, &data, 0, 300).unwrap();
    assert!(matches!(action, RegisterAction::FirstUser));
    assert_eq!(lines(&fs), vec!["A".to_string()]);
    assert_eq!(fs.connected, None);
}

#[test]
fn register_not_a_carrier_writes_nothing() {
    // the hierarchy is missing: NotAFileCarrier and no write at all
    let mut fs = CarrierFs {
        root_is_dir: false,
        data_is_dir: false,
        readme_present: false,
        reaches: Some(vec!["B".to_string()]),
        connected: None,
    };
    let before = fs.clone();
    let folder = "/mnt/usb".to_string();
    let local = "A".to_string();
    let data = "/mnt/usb/.bundles/data".to_string();

    let err = register_folder(&mut fs, &folder, &local, &data, 0, 300).unwrap_err();
    assert_eq!(err, FileCarrierError::NotAFileCarrier("/mnt/usb".to_string()));
    assert_eq!(fs, before);
}

#[test]
fn register_partial_hierarchy_is_no_carrier() {
    // the bundle root alone, without the data directory, is no carrier
    let mut fs = CarrierFs {
        root_is_dir: true,
        data_is_dir: false,
        readme_present: false,
        reaches: None,
        connected: None,
    };
    let before = fs.clone();
    let folder = "/mnt/usb".to_string();
    let local = "A".to_string();
    let data = "/mnt/usb/.bundles/data".to_string();

    let err = register_folder(&mut fs, &folder, &local, &data, 0, 300).unwrap_err();
    assert!(matches!(err, FileCarrierError::NotAFileCarrier(_)));
    assert_eq!(fs, before);
}

#[test]
fn register_twice_is_idempotent() {
    // two registrations with no third-party write in between: same peer,
    // same ledger entries
    let mut fs = carrier_with(Some(vec!["B", "A", "B", "C"]), None);
    let folder = "/mnt/usb".to_string();
    let local = "A".to_string();
    let data = "/mnt/usb/.bundles/data".to_string();

    let first = register_folder(&mut fs, &folder, &local, &data, 0, 300).unwrap();
    let first_peer = match first {
        RegisterAction::SendContact { peer, .. } => peer,
        RegisterAction::FirstUser => panic!("expected a peer"),
    };
    commit_registration(&mut fs, &local);
    let after_first = lines(&fs);
    // local id first, duplicates dropped, discovery order kept
    assert_eq!(after_first, vec!["A".to_string(), "B".to_string(), "C".to_string()]);

    let second = register_folder(&mut fs, &folder, &local, &data, 50, 300).unwrap();
    let second_peer = match second {
        RegisterAction::SendContact { peer, .. } => peer,
        RegisterAction::FirstUser => panic!("expected a peer"),
    };
    commit_registration(&mut fs, &local);
    assert_eq!(second_peer, first_peer);
    assert_eq!(lines(&fs), after_first);
}

#[test]
fn canonical_ledger_dedups_and_keeps_order() {
    let local = "A".to_string();
    let raw = vec![
        "B".to_string(),
        "A".to_string(),
        "B".to_string(),
        "C".to_string(),
        "B".to_string(),
    ];
    let canonical = build_canonical_reaches(&local, &raw);
    assert_eq!(canonical, vec!["A".to_string(), "B".to_string(), "C".to_string()]);
}

#[test]
fn unregister_missing_marker_is_io_error() {
    // a carrier whose marker file is missing: an IO error, not a no-op
    let fs = carrier_with(Some(vec!["A", "B"]), None);
    let folder = "/mnt/usb".to_string();
    let err = unregister_folder(&fs, &folder).unwrap_err();
    assert_eq!(err, FileCarrierError::IOError);
}

#[test]
fn unregister_not_a_carrier() {
    let fs = CarrierFs {
        root_is_dir: false,
        data_is_dir: false,
        readme_present: false,
        reaches: None,
        connected: Some("B".to_string()),
    };
    let folder = "/mnt/usb".to_string();
    let err = unregister_folder(&fs, &folder).unwrap_err();
    assert_eq!(err, FileCarrierError::NotAFileCarrier("/mnt/usb".to_string()));
}

#[test]
fn unregister_round_trip_keeps_ledger() {
    let mut fs = carrier_with(Some(vec!["A", "B"]), Some("B"));
    let folder = "/mnt/usb".to_string();
    let peer = unregister_folder(&fs, &folder).unwrap();
    assert_eq!(peer, "B");
    commit_unregistration(&mut fs);
    assert_eq!(fs.connected, None);
    // history accumulates: the ledger is never touched by unregister
    assert_eq!(lines(&fs), vec!["A".to_string(), "B".to_string()]);
}

#[test]
fn error_messages() {
    assert_eq!(FileCarrierError::Ud3tnError.message(), "ud3tn Error");
    assert_eq!(FileCarrierError::IOError.message(), "io Error");
    assert_eq!(
        FileCarrierError::NotAFileCarrier("/mnt/usb".to_string()).message(),
        "/mnt/usb is not a file carrier"
    );
    assert_eq!(
        FileCarrierError::FirstUser("/mnt/usb".to_string()).message(),
        "You are the first to use /mnt/usb as a file carrier"
    );
}
