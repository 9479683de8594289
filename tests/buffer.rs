use bulk_rename::buffer::{buffer_text, parse_names};

fn names(list: &[&str]) -> Vec<String> {
    list.iter().map(|s| s.to_string()).collect()
}

#[test]
fn each_name_is_a_newline_terminated_line() {
    assert_eq!(buffer_text(&names(&["a.txt", "b.txt"])), "a.txt\nb.txt\n");
}

#[test]
fn no_names_give_an_empty_buffer() {
    assert_eq!(buffer_text(&Vec::new()), "");
    assert!(parse_names("").is_empty());
}

#[test]
fn round_trip_keeps_names() {
    let n = names(&["a.txt", "", "dir/b c.txt", "ünï cødé", "x"]);
    assert_eq!(parse_names(&buffer_text(&n)), n);
}

#[test]
fn last_line_without_newline_counts() {
    assert_eq!(parse_names("a\nb"), names(&["a", "b"]));
}

#[test]
fn blank_lines_are_names() {
    assert_eq!(parse_names("a\n\nb\n\n"), names(&["a", "", "b", ""]));
}

#[test]
fn crlf_line_breaks_are_stripped() {
    assert_eq!(parse_names("a\r\nb\r\n"), names(&["a", "b"]));
    assert_eq!(parse_names("a\r"), names(&["a\r"]));
    assert_eq!(parse_names("a\r\r\n"), names(&["a\r"]));
}
