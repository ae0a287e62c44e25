use jellysink::tray::{with_update_badge, CastTray, Icon, MenuEntry};

fn standard_labels(tray: &CastTray) -> Vec<String> {
    tray.menu()
        .into_iter()
        .filter_map(|item| match item {
            MenuEntry::Install { label } | MenuEntry::Quit { label } => Some(label),
            MenuEntry::Separator => None,
        })
        .collect()
}

#[test]
fn menu_is_quit_only_without_pending_update() {
    assert_eq!(standard_labels(&CastTray::new()), vec!["Quit".to_string()]);
}

#[test]
fn menu_offers_install_when_pending() {
    let mut t = CastTray::new();
    t.set_pending("1.2.3".into());
    let items = t.menu();
    assert!(
        matches!(items.get(1), Some(MenuEntry::Separator)),
        "install item should be followed by a separator"
    );
    assert_eq!(
        standard_labels(&t),
        vec!["Install update (v1.2.3)".to_string(), "Quit".to_string()]
    );
}

#[test]
fn pending_update_mentions_version_in_tooltip() {
    let mut t = CastTray::new();
    assert!(t.tool_tip().is_none());
    t.set_pending("1.2.3".into());
    let tip = t.tool_tip().unwrap();
    assert!(
        tip.contains("1.2.3"),
        "tooltip should name the pending version, got {tip:?}"
    );
}

fn plain_icon(size: i32) -> Icon {
    let mut data = Vec::new();
    for _ in 0..size * size {
        data.extend_from_slice(&[255, 188, 119, 126]);
    }
    Icon { width: size, height: size, data }
}

#[test]
fn pending_update_badges_the_icon() {
    let mut t = CastTray::new();
    assert!(!t.badged());
    t.set_pending("1.2.3".into());
    assert!(t.badged());

    let idle = plain_icon(256);
    let pending = with_update_badge(idle.clone());
    assert_eq!((idle.width, idle.height), (pending.width, pending.height));
    assert_eq!(idle.data.len(), pending.data.len());
    assert_ne!(idle.data, pending.data, "pending icon should carry an update badge");
    let center = ((128 * 256) + 128) * 4;
    assert_eq!(
        &idle.data[center..center + 4],
        &pending.data[center..center + 4],
        "badge should sit in a corner, not over the logo"
    );
}

#[test]
fn the_badge_is_a_green_dot_in_a_white_ring() {
    let icon = with_update_badge(plain_icon(50));
    // radius 10, centre (39, 39), inner radius 7
    let at = |x: usize, y: usize| {
        let i = (y * 50 + x) * 4;
        [icon.data[i], icon.data[i + 1], icon.data[i + 2], icon.data[i + 3]]
    };
    assert_eq!(at(39, 39), [255, 46, 204, 113]);
    assert_eq!(at(39, 30), [255, 255, 255, 255]);
    assert_eq!(at(0, 0), [255, 188, 119, 126]);
}

#[test]
fn an_empty_icon_is_left_alone() {
    let icon = Icon { width: 0, height: 5, data: vec![1, 2, 3] };
    assert_eq!(with_update_badge(icon.clone()), icon);
}
