use distro_rootfs::path::{file_name_exec, join_path_exec, split_path};
use distro_rootfs::text::{is_whitespace_char, replace_str, split_lines, str_lt};

#[test]
fn replace_is_left_to_right_without_overlap() {
    assert_eq!(replace_str("aaa", "aa", "b"), "ba");
    assert_eq!(replace_str("{v}-{v}", "{v}", "1.2"), "1.2-1.2");
    assert_eq!(replace_str("none", "{x}", "y"), "none");
}

#[test]
fn lines_follow_str_lines() {
    let text = "a\r\nb\n\nc";
    let expected: Vec<&str> = text.lines().collect();
    assert_eq!(split_lines(text), expected);
    assert_eq!(split_lines("x\n"), vec!["x"]);
    assert!(split_lines("").is_empty());
    assert_eq!(split_lines("a\r"), vec!["a\r"]);
}

#[test]
fn string_order_matches_std() {
    for (a, b) in [("20260217_13:00", "20260218_13:00"), ("9", "10"), ("ab", "abc"), ("b", "a"), ("é", "z")] {
        assert_eq!(str_lt(a, b), a < b);
    }
}

#[test]
fn path_helpers() {
    assert_eq!(join_path_exec("", "a"), "a");
    assert_eq!(join_path_exec("/x", "/abs"), "/abs");
    assert_eq!(split_path("/a//b/./c/"), vec!["a", "b", "c"]);
    assert_eq!(file_name_exec("/a/.."), "");
    assert_eq!(file_name_exec("rootfs.tar.xz"), "rootfs.tar.xz");
}

#[test]
fn whitespace_matches_std() {
    for c in (0u32..0x11000).filter_map(char::from_u32) {
        assert_eq!(is_whitespace_char(c), c.is_whitespace());
    }
}
