use iroh_willow::proto::meadowcap::AccessMode;
use iroh_willow::uwill::command::WillowCommand;
use iroh_willow::uwill::ucan::Command;

#[test]
fn roundtrip_commands() {
    for cmd in [
        WillowCommand::Full,
        WillowCommand::Read,
        WillowCommand::Write,
        WillowCommand::Enumerate,
    ] {
        let ucan_cmd = cmd.to_ucan_command();
        let parsed = WillowCommand::from_ucan_command(&ucan_cmd);
        assert_eq!(parsed, Some(cmd));
    }
}

#[test]
fn command_hierarchy() {
    let full = WillowCommand::Full.to_ucan_command();
    let read = WillowCommand::Read.to_ucan_command();
    let write = WillowCommand::Write.to_ucan_command();
    let enumerate = WillowCommand::Enumerate.to_ucan_command();

    assert!(read.starts_with(&full));
    assert!(write.starts_with(&full));
    assert!(enumerate.starts_with(&full));
    assert!(!read.starts_with(&write));
    assert!(!enumerate.starts_with(&read));
}

#[test]
fn proves_access() {
    assert!(WillowCommand::Full.proves_read());
    assert!(WillowCommand::Full.proves_write());
    assert!(WillowCommand::Read.proves_read());
    assert!(!WillowCommand::Read.proves_write());
    assert!(!WillowCommand::Write.proves_read());
    assert!(WillowCommand::Write.proves_write());
    // Enumerate proves neither read nor write, but proves enumerate
    assert!(!WillowCommand::Enumerate.proves_read());
    assert!(!WillowCommand::Enumerate.proves_write());
    assert!(WillowCommand::Enumerate.proves_enumerate());
    assert!(WillowCommand::Full.proves_enumerate());
    assert!(!WillowCommand::Read.proves_enumerate());
    assert!(!WillowCommand::Write.proves_enumerate());
}

#[test]
fn commands_are_written_out() {
    assert_eq!(WillowCommand::Full.as_str(), "willow");
    assert_eq!(WillowCommand::Read.as_str(), "willow/read");
    assert_eq!(WillowCommand::Write.as_str(), "willow/write");
    assert_eq!(WillowCommand::Enumerate.as_str(), "willow/enumerate");
    assert_eq!(WillowCommand::Enumerate.to_ucan_command().to_text(), "/willow/enumerate");
    assert_eq!(WillowCommand::Full.to_ucan_command().to_text(), "/willow");
    assert_eq!(Command::new(vec![]).to_text(), "/");
}

#[test]
fn commands_have_access_modes() {
    assert_eq!(WillowCommand::Full.access_mode(), AccessMode::Write);
    assert_eq!(WillowCommand::Write.access_mode(), AccessMode::Write);
    assert_eq!(WillowCommand::Read.access_mode(), AccessMode::Read);
    assert_eq!(WillowCommand::Enumerate.access_mode(), AccessMode::Read);
}

#[test]
fn other_commands_are_not_willow_commands() {
    for segments in [
        vec![],
        vec!["ucan"],
        vec!["willow", "delete"],
        vec!["read"],
        vec!["willow", "read", "more"],
        vec!["Willow"],
    ] {
        let command = Command::new(segments.into_iter().map(String::from).collect());
        assert_eq!(WillowCommand::from_ucan_command(&command), None);
    }
}
