use file_carrier::daemon::{
    agent_task_step, device_eligible, mount_and_register, sweep_mount_action, AgentLoopDecision,
    AgentMessage, MountAction, SweepAction,
};
use file_carrier::hierarchy::CarrierFs;
use file_carrier::interface_map::InterfaceMap;

fn carrier(is_carrier: bool) -> CarrierFs {
    CarrierFs {
        root_is_dir: is_carrier,
        data_is_dir: is_carrier,
        readme_present: is_carrier,
        reaches: None,
        connected: None,
    }
}

#[test]
fn agent_loop_decisions() {
    let d = agent_task_step(Some(AgentMessage::Register("/mnt/usb".to_string())));
    assert_eq!(d, AgentLoopDecision::HandleRegister { mountpoint: "/mnt/usb".to_string() });
    assert_eq!(agent_task_step(Some(AgentMessage::Shutdown)), AgentLoopDecision::Exit);
    assert_eq!(agent_task_step(None), AgentLoopDecision::Exit);
}

#[test]
fn mount_and_register_non_carrier_unmounts_and_stays_silent() {
    // a device that mounts fine but is no carrier is unmounted again and no
    // register message is queued
    let action = mount_and_register("/mnt/usb".to_string(), &carrier(false));
    assert_eq!(action, MountAction::UnmountAndSkip);
}

#[test]
fn mount_and_register_carrier_enqueues_register() {
    let action = mount_and_register("/mnt/usb".to_string(), &carrier(true));
    assert_eq!(
        action,
        MountAction::EnqueueRegister { message: AgentMessage::Register("/mnt/usb".to_string()) }
    );
}

#[test]
fn eligibility_needs_removable_drive_and_filesystem() {
    assert!(device_eligible(true, true, true));
    assert!(!device_eligible(false, true, true));
    assert!(!device_eligible(true, false, true));
    assert!(!device_eligible(true, true, false));
}

#[test]
fn sweep_actions() {
    // our own inspection mount, a carrier: unmount, then remount uniformly
    assert_eq!(
        sweep_mount_action(true, "/mnt/a".to_string(), &carrier(true)),
        SweepAction::UnmountAndRegister
    );
    // our own inspection mount, no carrier: just unmount
    assert_eq!(
        sweep_mount_action(true, "/mnt/b".to_string(), &carrier(false)),
        SweepAction::UnmountOnly
    );
    // pre-mounted carrier: register in place, mount state untouched
    assert_eq!(
        sweep_mount_action(false, "/mnt/c".to_string(), &carrier(true)),
        SweepAction::RegisterInPlace { message: AgentMessage::Register("/mnt/c".to_string()) }
    );
    // pre-mounted, no carrier: leave the mount alone
    assert_eq!(
        sweep_mount_action(false, "/mnt/d".to_string(), &carrier(false)),
        SweepAction::LeaveMounted
    );
}

#[test]
fn interface_map_tracks_registrations() {
    let mut map = InterfaceMap::new();
    let sda = "/block/sda".to_string();
    let sdb = "/block/sdb".to_string();
    assert!(map.get(&sda).is_none());

    map.insert(sda.clone(), "B".to_string());
    assert_eq!(map.get(&sda).map(|eid| eid.as_str()), Some("B"));
    assert!(map.get(&sdb).is_none());

    map.insert(sdb.clone(), "C".to_string());
    map.insert(sda.clone(), "D".to_string());
    // the newer registration replaces the older one for the same object
    assert_eq!(map.get(&sda).map(|eid| eid.as_str()), Some("D"));
    assert_eq!(map.get(&sdb).map(|eid| eid.as_str()), Some("C"));

    // a removal notification is reversed into the eid to tear down
    assert_eq!(map.remove(&sda), Some("D".to_string()));
    assert!(map.get(&sda).is_none());
    assert_eq!(map.remove(&sda), None);
    assert_eq!(map.get(&sdb).map(|eid| eid.as_str()), Some("C"));
}
