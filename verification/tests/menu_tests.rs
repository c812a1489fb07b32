use kite::menu::{
    action_from_id, build_context_menu, handle_context_menu_event, paste_script,
    sanitize_target_type, ContextMenuTarget, MenuAction, MenuCommand, MenuEntry,
};
use kite::shortcuts::{registered_shortcuts, shortcut_action, shortcut_event, ShortcutKey, ShortcutMods};
use kite::system::{app_is_foreground, epoch_ms_as_i64, now_ms};
use kite::tabs::TabState;

#[test]
fn menu_rows_follow_the_target() {
    assert!(build_context_menu("link", true, false, false)
        == vec![MenuEntry::Item(MenuAction::OpenLink), MenuEntry::Item(MenuAction::CopyLink)]);
    assert!(build_context_menu("link", false, false, false)
        == vec![
            MenuEntry::Item(MenuAction::Back),
            MenuEntry::Item(MenuAction::Forward),
            MenuEntry::Item(MenuAction::Reload)
        ]);
    assert!(build_context_menu("image", false, true, false).len() == 5);
    assert!(build_context_menu("image", false, true, false)[1] == MenuEntry::Separator);
    assert!(build_context_menu("editable", false, false, false)
        == vec![MenuEntry::Item(MenuAction::Paste), MenuEntry::Item(MenuAction::SelectAll)]);
    assert!(build_context_menu("editable", false, false, true)[0] == MenuEntry::Item(MenuAction::CutSelection));
    assert!(build_context_menu("selection", false, false, true)
        == vec![MenuEntry::Item(MenuAction::CopySelection), MenuEntry::Item(MenuAction::SelectAll)]);
}

#[test]
fn target_kinds_are_sanitized() {
    assert_eq!(sanitize_target_type("image"), "image");
    assert_eq!(sanitize_target_type("editable"), "editable");
    assert_eq!(sanitize_target_type("<script>"), "page");
}

#[test]
fn menu_ids_round_trip() {
    for a in [
        MenuAction::OpenLink,
        MenuAction::CopyLink,
        MenuAction::OpenImage,
        MenuAction::SaveImage,
        MenuAction::CopyImage,
        MenuAction::CopyImageSrc,
        MenuAction::CutSelection,
        MenuAction::CopySelection,
        MenuAction::Paste,
        MenuAction::SelectAll,
        MenuAction::Back,
        MenuAction::Forward,
        MenuAction::Reload,
    ] {
        assert!(action_from_id(a.id()) == Some(a));
    }
    assert!(action_from_id("ctx-nope").is_none());
    assert_eq!(MenuAction::SaveImage.label(), "Save Image As...");
}

#[test]
fn menu_commands_use_the_recorded_target() {
    let mut st = TabState::new();
    let l = st.allocate_label();
    st.push_tab(l.clone(), "https://a.com/".into(), true);
    let t = ContextMenuTarget {
        href: Some("https://b.com/".into()),
        src: None,
        selection_text: Some("hello".into()),
        source_label: l,
    };
    match handle_context_menu_event(Some(&t), &st, "ctx-open-link") {
        MenuCommand::OpenInNewTab { url, private } => {
            assert_eq!(url, "https://b.com/");
            assert!(private);
        }
        _ => panic!("expected a new tab"),
    }
    assert!(matches!(handle_context_menu_event(Some(&t), &st, "ctx-copy-selection"), MenuCommand::CopyText(ref s) if s == "hello"));
    assert!(matches!(handle_context_menu_event(Some(&t), &st, "ctx-save-image"), MenuCommand::Nothing));
    assert!(matches!(handle_context_menu_event(Some(&t), &st, "ctx-reload"), MenuCommand::RunScript("location.reload()")));
    assert!(matches!(handle_context_menu_event(None, &st, "ctx-reload"), MenuCommand::Nothing));
    assert!(matches!(handle_context_menu_event(Some(&t), &st, "ctx-cut-selection"), MenuCommand::CutSelection(Some(ref s)) if s == "hello"));
}

#[test]
fn paste_script_quotes_the_text() {
    assert_eq!(paste_script("a'b\"c"), "document.execCommand('insertText', false, \"a'b\\\"c\");");
}

#[test]
fn foreground_and_clock() {
    assert!(app_is_foreground(Some(42), 42));
    assert!(!app_is_foreground(Some(41), 42));
    assert!(!app_is_foreground(None, 42));
    assert!(now_ms() > 1_600_000_000_000);
    assert_eq!(epoch_ms_as_i64(None), 0);
    assert_eq!(epoch_ms_as_i64(Some(5)), 5);
    assert_eq!(epoch_ms_as_i64(Some(u128::from(u64::MAX))), -1);
}

#[test]
fn shortcuts_name_their_actions() {
    let ctrl = ShortcutMods { control: true, shift: false, alt: false, meta: false };
    let ctrl_shift = ShortcutMods { control: true, shift: true, alt: false, meta: false };
    let alt = ShortcutMods { control: false, shift: false, alt: true, meta: false };
    assert_eq!(shortcut_action(ctrl, ShortcutKey::KeyT), Some("new_tab"));
    assert_eq!(shortcut_action(ctrl_shift, ShortcutKey::KeyT), Some("reopen_closed_tab"));
    assert_eq!(shortcut_action(ctrl, ShortcutKey::Digit(9)), Some("switch_tab_last"));
    assert_eq!(shortcut_action(ctrl, ShortcutKey::Digit(0)), Some("zoom_reset"));
    assert_eq!(shortcut_action(ctrl_shift, ShortcutKey::Tab), Some("switch_tab_prev"));
    assert_eq!(shortcut_action(alt, ShortcutKey::Home), Some("go_home"));
    assert_eq!(shortcut_action(alt, ShortcutKey::KeyT), None);
    assert_eq!(shortcut_event(false, true, ctrl, ShortcutKey::KeyW), None);
    assert_eq!(shortcut_event(true, false, ctrl, ShortcutKey::KeyW), None);
    assert_eq!(shortcut_event(true, true, ctrl, ShortcutKey::KeyW), Some("close_tab"));
    let all = registered_shortcuts();
    assert_eq!(all.len(), 26);
    assert!(all.iter().all(|(m, k)| shortcut_action(*m, *k).is_some()));
}

#[test]
fn registered_shortcuts_are_the_listed_ones() {
    let r = registered_shortcuts();
    assert_eq!(r.len(), 26);
    for (i, a) in r.iter().enumerate() {
        assert!(shortcut_action(a.0, a.1).is_some());
        for b in &r[i + 1..] {
            assert!(!(a.0 == b.0 && a.1 == b.1));
        }
    }
    let ctrl = ShortcutMods { control: true, shift: false, alt: false, meta: false };
    let ctrl_shift = ShortcutMods { control: true, shift: true, alt: false, meta: false };
    assert!(r[1].0 == ctrl && r[1].1 == ShortcutKey::KeyW);
    assert!(r[2].0 == ctrl_shift && r[2].1 == ShortcutKey::KeyT);
    assert!(r[3].0 == ctrl_shift && r[3].1 == ShortcutKey::KeyN);
}
