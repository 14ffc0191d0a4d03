use resonance::menu::{main_menu, shortcut, MenuAction};

#[test]
fn main_menu_without_session() {
    let labels: Vec<String> = main_menu(false).into_iter().map(|m| m.label).collect();
    assert_eq!(labels, vec!["Create Session", "Join Session", "Settings", "Quit"]);
}

#[test]
fn main_menu_with_session() {
    let items = main_menu(true);
    assert_eq!(items.len(), 5);
    assert_eq!(items[2].label, "Leave Session");
    assert_eq!(items[2].action, MenuAction::Leave);
    assert_eq!(items[4].action, MenuAction::Quit);
}

#[test]
fn shortcuts() {
    assert_eq!(shortcut('q'), Some(MenuAction::Quit));
    assert_eq!(shortcut('j'), Some(MenuAction::Join));
    assert_eq!(shortcut('l'), Some(MenuAction::Leave));
    assert_eq!(shortcut('c'), Some(MenuAction::CopyLink));
    assert_eq!(shortcut('s'), Some(MenuAction::Settings));
    assert_eq!(shortcut('t'), Some(MenuAction::TestSession));
    assert_eq!(shortcut('x'), None);
}
