use bulk_rename::editor::resolve_editor;

#[test]
fn visual_wins() {
    let r = resolve_editor(Some("nano".to_string()), Some("emacs".to_string()));
    assert_eq!(r, "nano");
}

#[test]
fn editor_is_second() {
    assert_eq!(resolve_editor(None, Some("emacs".to_string())), "emacs");
}

#[test]
fn vi_is_the_default() {
    assert_eq!(resolve_editor(None, None), "vi");
}
