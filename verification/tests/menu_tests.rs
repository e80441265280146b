//! The idle and busy menu state machines.
use sui::menu::{BusyMenu, IdleMenu, IdleMenuWithSettings, MenuLabelTop, SettingsSubMenu};

#[test]
fn idle_menu_cycles_right() {
    let mut m = IdleMenuWithSettings { idle_menu: IdleMenu::AppMain };
    m.move_right(0);
    assert_eq!(m.idle_menu, IdleMenu::ShowVersion);
    m.move_right(0);
    assert_eq!(m.idle_menu, IdleMenu::Settings(None));
    m.move_right(0);
    assert_eq!(m.idle_menu, IdleMenu::Exit);
    m.move_right(0);
    assert_eq!(m.idle_menu, IdleMenu::AppMain);
}

#[test]
fn idle_menu_cycles_left() {
    let mut m = IdleMenuWithSettings { idle_menu: IdleMenu::AppMain };
    m.move_left(0);
    assert_eq!(m.idle_menu, IdleMenu::Exit);
    m.move_left(0);
    assert_eq!(m.idle_menu, IdleMenu::Settings(None));
}

#[test]
fn settings_submenu_offers_the_opposite_of_the_setting() {
    let mut m = IdleMenuWithSettings { idle_menu: IdleMenu::Settings(None) };
    let (exit, store) = m.handle_both(0);
    assert!(exit.is_none());
    assert!(store.is_none());
    assert_eq!(m.idle_menu, IdleMenu::Settings(Some(SettingsSubMenu::EnableBlindSigning)));

    let mut m = IdleMenuWithSettings { idle_menu: IdleMenu::Settings(None) };
    let _ = m.handle_both(1);
    assert_eq!(m.idle_menu, IdleMenu::Settings(Some(SettingsSubMenu::DisableBlindSigning)));
}

#[test]
fn toggling_blind_signing_asks_to_persist() {
    let mut m = IdleMenuWithSettings {
        idle_menu: IdleMenu::Settings(Some(SettingsSubMenu::EnableBlindSigning)),
    };
    let (_, store) = m.handle_both(0);
    assert_eq!(store, Some(1));
    assert_eq!(m.idle_menu, IdleMenu::Settings(Some(SettingsSubMenu::DisableBlindSigning)));
    let (_, store) = m.handle_both(1);
    assert_eq!(store, Some(0));
}

#[test]
fn exit_entry_requests_exit() {
    let mut m = IdleMenuWithSettings { idle_menu: IdleMenu::Exit };
    let (exit, store) = m.handle_both(0);
    assert!(exit.is_some());
    assert!(store.is_none());
}

#[test]
fn back_leaves_the_submenu() {
    let mut m = IdleMenuWithSettings {
        idle_menu: IdleMenu::Settings(Some(SettingsSubMenu::Back)),
    };
    let _ = m.handle_both(0);
    assert_eq!(m.idle_menu, IdleMenu::Settings(None));
}

#[test]
fn idle_labels() {
    let m = IdleMenuWithSettings { idle_menu: IdleMenu::ShowVersion };
    let (top, bottom) = m.label();
    match top {
        MenuLabelTop::Text(t) => assert_eq!(t, "Version"),
        _ => panic!("expected a text label"),
    }
    assert_eq!(bottom.text, "0.1.0");
    assert!(!bottom.bold);
}

#[test]
fn busy_menu_cancel_path() {
    let mut b = BusyMenu::Working;
    assert!(b.handle_both().is_none());
    b.move_right();
    assert_eq!(b, BusyMenu::Cancel);
    assert!(b.handle_both().is_some());
    b.move_left();
    assert_eq!(b, BusyMenu::Working);
}

#[test]
fn busy_labels() {
    let (top, _) = BusyMenu::Working.label();
    match top {
        MenuLabelTop::Text(t) => assert_eq!(t, "Working..."),
        _ => panic!("expected a text label"),
    }
}
