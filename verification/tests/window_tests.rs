use host_core::window::WindowType;

#[test]
fn each_window_kind_has_its_own_label() {
    let kinds =
        [WindowType::Primary, WindowType::Hud, WindowType::Secondary, WindowType::Overlay];
    assert_eq!(WindowType::Primary.label(), "main");
    assert_eq!(WindowType::Hud.label(), "hud");
    assert_eq!(WindowType::Secondary.label(), "secondary");
    assert_eq!(WindowType::Overlay.label(), "overlay");
    for a in kinds {
        for b in kinds {
            if a != b {
                assert_ne!(a.label(), b.label());
            }
        }
    }
}

#[test]
fn titles_and_bridge_kinds_match_the_window_kind() {
    assert_eq!(WindowType::Primary.title(), "Codex");
    assert_eq!(WindowType::Hud.title(), "Codex HUD");
    assert_eq!(WindowType::Secondary.title(), "Codex Secondary");
    assert_eq!(WindowType::Overlay.title(), "Codex Overlay");

    assert_eq!(WindowType::Hud.bridge_kind(), "hud");
    assert_eq!(WindowType::Primary.bridge_kind(), "electron");
    assert_eq!(WindowType::Secondary.bridge_kind(), "electron");
    assert_eq!(WindowType::Overlay.bridge_kind(), "electron");
}
