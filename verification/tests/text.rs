use soundcloud::path::{
    build_permalink_address, build_user_collection_path, build_user_path, read_user_id,
};
use soundcloud::text::{append_decimal, parse_decimal, read_last_segment};

fn written(n: usize) -> String {
    let mut text = String::new();
    append_decimal(&mut text, n);
    text
}

#[test]
fn numbers_are_written_in_decimal() {
    assert_eq!(written(0), "0");
    assert_eq!(written(7), "7");
    assert_eq!(written(10), "10");
    assert_eq!(written(42), "42");
    assert_eq!(written(1009), "1009");
    assert_eq!(written(1234567890), "1234567890");
    assert_eq!(written(usize::MAX), usize::MAX.to_string());
}

#[test]
fn a_number_is_written_behind_what_the_text_holds() {
    let mut text = String::from("/users/");
    append_decimal(&mut text, 305);
    assert_eq!(text, "/users/305");
}

#[test]
fn decimal_texts_are_read() {
    assert_eq!(parse_decimal("0"), Some(0));
    assert_eq!(parse_decimal("42"), Some(42));
    assert_eq!(parse_decimal("007"), Some(7));
    assert_eq!(parse_decimal("+15"), Some(15));
    assert_eq!(parse_decimal(&usize::MAX.to_string()), Some(usize::MAX));
}

#[test]
fn texts_that_are_no_number_are_refused() {
    assert_eq!(parse_decimal(""), None);
    assert_eq!(parse_decimal("+"), None);
    assert_eq!(parse_decimal("-1"), None);
    assert_eq!(parse_decimal("4x"), None);
    assert_eq!(parse_decimal("x4"), None);
    assert_eq!(parse_decimal(" 4"), None);
    assert_eq!(parse_decimal("4 "), None);
    assert_eq!(parse_decimal("++4"), None);
    assert_eq!(parse_decimal("4+"), None);
    assert_eq!(parse_decimal("١٢"), None);
}

#[test]
fn numbers_that_do_not_fit_are_refused() {
    let too_large = format!("{}0", usize::MAX);
    assert_eq!(parse_decimal(&too_large), None);
    let one_more = (usize::MAX as u128 + 1).to_string();
    assert_eq!(parse_decimal(&one_more), None);
    assert_eq!(parse_decimal("99999999999999999999999999999999"), None);
}

#[test]
fn reading_agrees_with_the_standard_library() {
    for text in ["", "+", "0", "+0", "12", "-3", "1_000", "18446744073709551615", "18446744073709551616"] {
        assert_eq!(parse_decimal(text), usize::from_str_radix(text, 10).ok(), "{:?}", text);
    }
}

#[test]
fn what_was_written_is_read_back() {
    for n in [0usize, 1, 9, 10, 99, 100, 65535, usize::MAX] {
        assert_eq!(parse_decimal(&written(n)), Some(n));
    }
}

#[test]
fn the_last_segment_follows_the_last_slash() {
    assert_eq!(read_last_segment("/users/42"), Some("42"));
    assert_eq!(read_last_segment("/users/42/"), Some(""));
    assert_eq!(read_last_segment("/"), Some(""));
    assert_eq!(read_last_segment("/users"), Some("users"));
    assert_eq!(read_last_segment("/üsers/ö42"), Some("ö42"));
}

#[test]
fn a_text_that_is_no_absolute_path_has_no_segment() {
    assert_eq!(read_last_segment(""), None);
    assert_eq!(read_last_segment("users/42"), None);
    assert_eq!(read_last_segment("42"), None);
}

#[test]
fn user_ids_are_read_from_resource_paths() {
    assert_eq!(read_user_id("/users/42"), Some(42));
    assert_eq!(read_user_id("/users/0"), Some(0));
    assert_eq!(read_user_id("/42"), Some(42));
    assert_eq!(read_user_id("/users/42/"), None);
    assert_eq!(read_user_id("/users/ada"), None);
    assert_eq!(read_user_id("/tracks/12a"), None);
    assert_eq!(read_user_id("users/42"), None);
    assert_eq!(read_user_id(""), None);
}

#[test]
fn a_user_path_leads_back_to_the_user() {
    for id in [0usize, 5, 42, 1000, usize::MAX] {
        assert_eq!(read_user_id(&build_user_path(id)), Some(id));
    }
}

#[test]
fn paths_are_built_from_ids() {
    assert_eq!(build_user_path(42), "/users/42");
    assert_eq!(build_user_collection_path(42, "followers"), "/users/42/followers");
    assert_eq!(build_user_collection_path(0, "web-profiles"), "/users/0/web-profiles");
    assert_eq!(build_permalink_address("ada"), "https://soundcloud.com/ada");
    assert_eq!(build_permalink_address(""), "https://soundcloud.com/");
}
