use zonegroup::cli::{parse_command, Command, UsageError};
use zonegroup::device::{is_speaker, DeviceInfo};
use zonegroup::directory::{build_directory, list_report};
use zonegroup::join::{join_outcome, plan_join, ControlResult, JoinError, JoinOutcome, JoinStep};

const MUSIC_SERVICE: &str = "urn:upnp-org:serviceId:MusicServices";

fn speaker_device(handle: usize, uuid: &str, zone: &str, address: &str) -> DeviceInfo {
    DeviceInfo {
        handle,
        uuid: uuid.to_string(),
        zone_name: zone.to_string(),
        address: address.to_string(),
        service_ids: vec![
            "urn:upnp-org:serviceId:AVTransport".to_string(),
            MUSIC_SERVICE.to_string(),
        ],
    }
}

fn plain_device(handle: usize, uuid: &str, zone: &str, address: &str) -> DeviceInfo {
    DeviceInfo {
        handle,
        uuid: uuid.to_string(),
        zone_name: zone.to_string(),
        address: address.to_string(),
        service_ids: vec!["urn:upnp-org:serviceId:ContentDirectory".to_string()],
    }
}

fn strings(items: &[&str]) -> Vec<String> {
    items.iter().map(|s| s.to_string()).collect()
}

#[test]
fn is_speaker_accepts_music_service() {
    let d = speaker_device(0, "RINCON_A", "Living Room", "192.168.1.10");
    assert!(is_speaker(&d));
}

#[test]
fn is_speaker_rejects_other_services() {
    let d = plain_device(0, "MEDIA_X", "Study", "192.168.1.99");
    assert!(!is_speaker(&d));
    let empty = DeviceInfo {
        handle: 1,
        uuid: "MEDIA_Y".to_string(),
        zone_name: "Hall".to_string(),
        address: "192.168.1.98".to_string(),
        service_ids: vec![],
    };
    assert!(!is_speaker(&empty));
}

#[test]
fn directory_keeps_only_speakers() {
    let devices = vec![
        speaker_device(0, "RINCON_A", "Living Room", "192.168.1.10"),
        plain_device(1, "MEDIA_X", "Study", "192.168.1.99"),
        speaker_device(2, "RINCON_B", "Kitchen", "192.168.1.11"),
    ];
    let dir = build_directory(&devices);
    assert_eq!(dir.entries.len(), 2);
    assert_eq!(dir.entries[0].name, "Living Room");
    assert_eq!(dir.entries[1].name, "Kitchen");
    for entry in &dir.entries {
        for member in &entry.members {
            assert!(member.service_ids.iter().any(|s| s == MUSIC_SERVICE));
        }
    }
}

#[test]
fn directory_groups_bonded_pair_in_discovery_order() {
    let devices = vec![
        speaker_device(0, "RINCON_L1", "Living Room", "192.168.1.10"),
        speaker_device(1, "RINCON_K1", "Kitchen", "192.168.1.11"),
        speaker_device(2, "RINCON_L2", "Living Room", "192.168.1.12"),
    ];
    let dir = build_directory(&devices);
    assert_eq!(dir.entries.len(), 2);
    assert_eq!(dir.entries[0].name, "Living Room");
    assert_eq!(dir.entries[0].members.len(), 2);
    assert_eq!(dir.entries[0].members[0].uuid, "RINCON_L1");
    assert_eq!(dir.entries[0].members[1].uuid, "RINCON_L2");
    assert_eq!(dir.entries[1].members.len(), 1);
    assert_eq!(dir.entries[1].members[0].uuid, "RINCON_K1");
}

#[test]
fn empty_discovery_gives_empty_report() {
    let dir = build_directory(&vec![]);
    assert_eq!(dir.entries.len(), 0);
    let report = list_report(&dir);
    assert_eq!(report.len(), 0);
}

#[test]
fn list_report_carries_ids_and_addresses() {
    let devices = vec![
        speaker_device(0, "RINCON_L1", "Living Room", "192.168.1.10"),
        speaker_device(1, "RINCON_L2", "Living Room", "192.168.1.12"),
    ];
    let dir = build_directory(&devices);
    let report = list_report(&dir);
    assert_eq!(report.len(), 1);
    assert_eq!(report[0].name, "Living Room");
    assert_eq!(report[0].uuids, strings(&["RINCON_L1", "RINCON_L2"]));
    assert_eq!(
        report[0].addresses,
        strings(&["192.168.1.10", "192.168.1.12"])
    );
}

#[test]
fn parse_missing_subcommand() {
    let r = parse_command(&vec![]);
    assert!(matches!(r, Err(UsageError::MissingSubcommand)));
}

#[test]
fn parse_unknown_subcommand() {
    let r = parse_command(&strings(&["pause"]));
    assert!(matches!(r, Err(UsageError::UnknownSubcommand)));
}

#[test]
fn parse_list() {
    let r = parse_command(&strings(&["list"]));
    assert!(matches!(r, Ok(Command::List)));
}

#[test]
fn join_with_one_zone_is_a_usage_error() {
    let r = parse_command(&strings(&["join", "Living Room"]));
    assert!(matches!(r, Err(UsageError::TooFewZones)));
    let r = parse_command(&strings(&["join"]));
    assert!(matches!(r, Err(UsageError::TooFewZones)));
}

#[test]
fn parse_join_splits_master_and_members() {
    let r = parse_command(&strings(&["join", "Living Room", "Kitchen", "Office"]));
    match r {
        Ok(Command::Join { master, members }) => {
            assert_eq!(master, "Living Room");
            assert_eq!(members, strings(&["Kitchen", "Office"]));
        }
        _ => panic!("expected a join command"),
    }
}

#[test]
fn join_unknown_master_fails_without_steps() {
    let devices = vec![speaker_device(0, "RINCON_K1", "Kitchen", "192.168.1.11")];
    let dir = build_directory(&devices);
    let r = plan_join(&"Attic".to_string(), &strings(&["Kitchen"]), &dir);
    assert!(matches!(r, Err(JoinError::UnknownMasterZone)));
}

#[test]
fn join_unknown_member_costs_only_that_member() {
    let devices = vec![
        speaker_device(0, "RINCON_A", "Living Room", "192.168.1.10"),
        speaker_device(1, "RINCON_B", "Kitchen", "192.168.1.11"),
    ];
    let dir = build_directory(&devices);
    let plan = plan_join(
        &"Living Room".to_string(),
        &strings(&["Attic", "Kitchen"]),
        &dir,
    )
    .expect("master is known");
    assert_eq!(plan.steps.len(), 2);
    assert!(matches!(plan.steps[0], JoinStep::UnknownZone));
    match &plan.steps[1] {
        JoinStep::Redirect { member_handle, uri } => {
            assert_eq!(*member_handle, 1);
            assert_eq!(uri, "x-rincon:RINCON_A");
        }
        _ => panic!("the known member must still get a redirect"),
    }
}

#[test]
fn join_two_members_targets_the_master_twice() {
    let devices = vec![
        speaker_device(0, "RINCON_A", "Living Room", "192.168.1.10"),
        speaker_device(1, "RINCON_B", "Kitchen", "192.168.1.11"),
        speaker_device(2, "RINCON_C", "Office", "192.168.1.12"),
    ];
    let dir = build_directory(&devices);
    let plan = plan_join(
        &"Living Room".to_string(),
        &strings(&["Kitchen", "Office"]),
        &dir,
    )
    .expect("master is known");
    assert_eq!(plan.master_uuid, "RINCON_A");
    assert_eq!(plan.steps.len(), 2);
    let expected_handles = [1usize, 2usize];
    for (step, expected) in plan.steps.iter().zip(expected_handles.iter()) {
        match step {
            JoinStep::Redirect { member_handle, uri } => {
                assert_eq!(member_handle, expected);
                assert_eq!(uri, "x-rincon:RINCON_A");
            }
            _ => panic!("both members are known"),
        }
    }
}

#[test]
fn join_master_of_bonded_pair_uses_first_discovered() {
    let devices = vec![
        speaker_device(0, "RINCON_L1", "Living Room", "192.168.1.10"),
        speaker_device(1, "RINCON_L2", "Living Room", "192.168.1.12"),
        speaker_device(2, "RINCON_K1", "Kitchen", "192.168.1.11"),
    ];
    let dir = build_directory(&devices);
    let plan = plan_join(&"Living Room".to_string(), &strings(&["Kitchen"]), &dir)
        .expect("master is known");
    assert_eq!(plan.master_uuid, "RINCON_L1");
}

#[test]
fn one_failed_call_leaves_other_outcomes_alone() {
    let first = join_outcome(ControlResult::TransportError("connection reset".to_string()));
    let second = join_outcome(ControlResult::Success);
    match first {
        JoinOutcome::TransportFailed(m) => assert_eq!(m, "connection reset"),
        _ => panic!("a transport error is a hard failure"),
    }
    assert!(matches!(second, JoinOutcome::Joined));
}

#[test]
fn control_results_map_to_distinct_outcomes() {
    assert!(matches!(
        join_outcome(ControlResult::Success),
        JoinOutcome::Joined
    ));
    assert!(matches!(
        join_outcome(ControlResult::NotFound),
        JoinOutcome::TargetNotFound
    ));
    assert!(matches!(
        join_outcome(ControlResult::TransportError("timed out".to_string())),
        JoinOutcome::TransportFailed(_)
    ));
}
