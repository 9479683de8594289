use bulk_rename::error::Error;
use bulk_rename::session::{Action, Outcome, Session, Stage};

fn names(list: &[&str]) -> Vec<String> {
    list.iter().map(|s| s.to_string()).collect()
}

fn expect_rename(action: Action, from: &str, to: &str) {
    match action {
        Action::Rename(f, t) => {
            assert_eq!(f, from);
            assert_eq!(t, to);
        }
        other => panic!("expected a rename, got {:?}", other),
    }
}

#[test]
fn new_session_writes_names_to_buffer() {
    let s = Session::new(names(&["a.txt", "b.txt"]));
    assert!(matches!(s.stage, Stage::Editing));
    assert_eq!(s.buffer_text(), "a.txt\nb.txt\n");
}

#[test]
fn scenario_one_rename() {
    let mut s = Session::new(names(&["a.txt", "b.txt"]));
    let a = s.edited(Ok("a1.txt\nb.txt\n".to_string()));
    expect_rename(a, "a.txt", "a1.txt");
    let a = s.renamed(Ok(()));
    assert!(matches!(a, Action::Finish(Ok(Outcome::Renamed))));
    assert!(matches!(s.stage, Stage::Finished));
}

#[test]
fn scenario_deleted_line() {
    let mut s = Session::new(names(&["a.txt", "b.txt"]));
    match s.edited(Ok("a1.txt\n".to_string())) {
        Action::Finish(Err(Error::WrongLength(lines))) => assert_eq!(lines, names(&["a1.txt"])),
        other => panic!("expected WrongLength, got {:?}", other),
    }
    assert!(matches!(s.stage, Stage::Finished));
}

#[test]
fn scenario_no_edits() {
    let mut s = Session::new(names(&["a.txt", "b.txt"]));
    let text = s.buffer_text();
    let a = s.edited(Ok(text));
    assert!(matches!(a, Action::Finish(Ok(Outcome::NoChanges))));
}

#[test]
fn scenario_swap_stops_at_first_failure() {
    let mut s = Session::new(names(&["a.txt", "b.txt"]));
    let a = s.edited(Ok("b.txt\na.txt\n".to_string()));
    expect_rename(a, "a.txt", "b.txt");
    match s.renamed(Err("destination exists".to_string())) {
        Action::Finish(Err(Error::RenameError(from, to, msg))) => {
            assert_eq!(from, "a.txt");
            assert_eq!(to, "b.txt");
            assert_eq!(msg, "destination exists");
        }
        other => panic!("expected a RenameError, got {:?}", other),
    }
    assert!(matches!(s.stage, Stage::Finished));
}

#[test]
fn renames_are_handed_out_in_order() {
    let mut s = Session::new(names(&["a", "b", "c"]));
    let a = s.edited(Ok("x\nb\nz\n".to_string()));
    expect_rename(a, "a", "x");
    expect_rename(s.renamed(Ok(())), "c", "z");
    assert!(matches!(s.renamed(Ok(())), Action::Finish(Ok(Outcome::Renamed))));
}

#[test]
fn failure_after_first_rename_keeps_it() {
    let mut s = Session::new(names(&["a", "b", "c"]));
    expect_rename(s.edited(Ok("x\ny\nz\n".to_string())), "a", "x");
    expect_rename(s.renamed(Ok(())), "b", "y");
    match s.renamed(Err("no such file".to_string())) {
        Action::Finish(Err(Error::RenameError(from, to, _))) => {
            assert_eq!(from, "b");
            assert_eq!(to, "y");
        }
        other => panic!("expected a RenameError, got {:?}", other),
    }
}

#[test]
fn buffer_failure_is_io_error() {
    let mut s = Session::new(names(&["a.txt"]));
    match s.edited(Err("disk full".to_string())) {
        Action::Finish(Err(Error::IOError(msg))) => assert_eq!(msg, "disk full"),
        other => panic!("expected an IOError, got {:?}", other),
    }
}

#[test]
fn identity_edit_twice_renames_nothing() {
    let n = names(&["a.txt", "b.txt", ""]);
    for _ in 0..2 {
        let mut s = Session::new(n.clone());
        let text = s.buffer_text();
        assert!(matches!(s.edited(Ok(text)), Action::Finish(Ok(Outcome::NoChanges))));
    }
}

#[test]
fn crlf_buffer_counts_as_unchanged() {
    let mut s = Session::new(names(&["a.txt", "b.txt"]));
    let a = s.edited(Ok("a.txt\r\nb.txt\r\n".to_string()));
    assert!(matches!(a, Action::Finish(Ok(Outcome::NoChanges))));
}
