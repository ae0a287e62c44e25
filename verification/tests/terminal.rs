use jellysink::terminal::{exec_prefix, terminal_candidates, TerminalLaunch};

fn payload() -> Vec<String> {
    vec![
        "/tmp/jellysink".into(),
        "update".into(),
        "--from-tray".into(),
    ]
}

fn available_from(names: &[&str]) -> Vec<(String, String)> {
    names
        .iter()
        .map(|n| (n.to_string(), format!("/usr/bin/{n}")))
        .collect()
}

fn args_as_str(launch: &TerminalLaunch) -> Vec<String> {
    launch.args.clone()
}

#[test]
fn xdg_terminal_exec_wins_when_present() {
    let available = available_from(&["xdg-terminal-exec", "kitty"]);
    let launches = terminal_candidates(&payload(), &available, None);
    assert_eq!(launches[0].program, "/usr/bin/xdg-terminal-exec");
    assert_eq!(
        args_as_str(&launches[0]),
        vec![
            "--title=jellysink",
            "--",
            "/tmp/jellysink",
            "update",
            "--from-tray"
        ]
    );
}

#[test]
fn env_terminal_used_when_no_xdg() {
    let available = available_from(&["kitty"]);
    let launches = terminal_candidates(&payload(), &available, Some("kitty"));
    assert_eq!(launches[0].program, "/usr/bin/kitty");
    assert_eq!(
        args_as_str(&launches[0]),
        vec!["-e", "/tmp/jellysink", "update", "--from-tray"]
    );
}

#[test]
fn wezterm_uses_start_dash_dash() {
    let available = available_from(&["wezterm"]);
    let launches = terminal_candidates(&payload(), &available, None);
    assert_eq!(
        args_as_str(&launches[0]),
        vec!["start", "--", "/tmp/jellysink", "update", "--from-tray"]
    );
}

#[test]
fn gnome_terminal_uses_double_dash() {
    let available = available_from(&["gnome-terminal"]);
    let launches = terminal_candidates(&payload(), &available, None);
    assert_eq!(
        args_as_str(&launches[0]),
        vec!["--", "/tmp/jellysink", "update", "--from-tray"]
    );
}

#[test]
fn xfce4_terminal_uses_dash_x() {
    let available = available_from(&["xfce4-terminal"]);
    let launches = terminal_candidates(&payload(), &available, None);
    assert_eq!(
        args_as_str(&launches[0]),
        vec!["-x", "/tmp/jellysink", "update", "--from-tray"]
    );
}

#[test]
fn kitty_uses_dash_e() {
    let available = available_from(&["kitty"]);
    let launches = terminal_candidates(&payload(), &available, None);
    assert_eq!(
        args_as_str(&launches[0]),
        vec!["-e", "/tmp/jellysink", "update", "--from-tray"]
    );
}

#[test]
fn nothing_available_yields_empty() {
    let available = available_from(&[]);
    let launches = terminal_candidates(&payload(), &available, Some("kitty"));
    assert!(launches.is_empty());
}

#[test]
fn missing_env_terminal_falls_through_to_fallback() {
    let available = available_from(&["foot"]);
    let launches = terminal_candidates(&payload(), &available, Some("kitty"));
    assert_eq!(launches[0].program, "/usr/bin/foot");
    assert_eq!(
        args_as_str(&launches[0]),
        vec!["-e", "/tmp/jellysink", "update", "--from-tray"]
    );
}

#[test]
fn env_terminal_wezterm_uses_start_dash_dash() {
    let available = available_from(&["wezterm"]);
    let launches = terminal_candidates(&payload(), &available, Some("wezterm"));
    assert_eq!(
        args_as_str(&launches[0]),
        vec!["start", "--", "/tmp/jellysink", "update", "--from-tray"]
    );
}

#[test]
fn env_terminal_absolute_gnome_uses_double_dash() {
    let available = available_from(&["gnome-terminal"]);
    let launches = terminal_candidates(&payload(), &available, Some("/usr/bin/gnome-terminal"));
    assert_eq!(launches[0].program, "/usr/bin/gnome-terminal");
    assert_eq!(
        args_as_str(&launches[0]),
        vec!["--", "/tmp/jellysink", "update", "--from-tray"]
    );
}

#[test]
fn env_terminal_unknown_defaults_to_dash_e() {
    let available = available_from(&["myterm"]);
    let launches = terminal_candidates(&payload(), &available, Some("myterm"));
    assert_eq!(
        args_as_str(&launches[0]),
        vec!["-e", "/tmp/jellysink", "update", "--from-tray"]
    );
}

#[test]
fn an_unknown_terminal_gets_dash_e_and_known_ones_their_flags() {
    assert_eq!(exec_prefix("myterm"), vec!["-e"]);
    assert_eq!(exec_prefix("wezterm"), vec!["start", "--"]);
    assert_eq!(exec_prefix("xfce4-terminal"), vec!["-x"]);
}

#[test]
fn every_available_terminal_is_offered_in_order() {
    let available = available_from(&["xdg-terminal-exec", "foot", "kitty"]);
    let launches = terminal_candidates(&payload(), &available, Some("kitty"));
    let programs: Vec<&str> = launches.iter().map(|l| l.program.as_str()).collect();
    assert_eq!(programs[0], "/usr/bin/xdg-terminal-exec");
    assert_eq!(programs[1], "/usr/bin/kitty");
    assert!(programs.contains(&"/usr/bin/foot"));
}
