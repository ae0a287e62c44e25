use jellysink::instance::{after_install, parse_instance_command, AfterInstall, InstanceCommand};

#[test]
fn after_install_restarts_from_tray_when_running() {
    assert_eq!(after_install(true, true, true), AfterInstall::Restart);
}

#[test]
fn after_install_stops_from_cli_when_running() {
    assert_eq!(after_install(false, true, true), AfterInstall::Stop);
}

#[test]
fn after_install_does_nothing_when_not_running_or_not_updated() {
    assert_eq!(after_install(true, false, true), AfterInstall::Nothing);
    assert_eq!(after_install(false, true, false), AfterInstall::Nothing);
    assert_eq!(after_install(true, true, false), AfterInstall::Nothing);
}

#[test]
fn parse_instance_command_stop_and_restart() {
    assert_eq!(parse_instance_command("stop"), Some(InstanceCommand::Stop));
    assert_eq!(
        parse_instance_command("restart\n"),
        Some(InstanceCommand::Restart)
    );
    assert_eq!(
        parse_instance_command("  restart  "),
        Some(InstanceCommand::Restart)
    );
    assert_eq!(parse_instance_command("stopping"), None);
    assert_eq!(parse_instance_command("stop-please"), None);
    assert_eq!(parse_instance_command(""), None);
}

#[test]
fn every_command_message_parses_back() {
    for c in [InstanceCommand::Stop, InstanceCommand::Restart] {
        assert_eq!(parse_instance_command(c.message()), Some(c));
    }
}
