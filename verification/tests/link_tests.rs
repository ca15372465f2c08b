use release_monitor::utils::{extract_next_link, next_link_is_readable};

#[test]
fn next_link_is_found() {
    let h = "<https://api.github.com/user/starred?page=2>; rel=\"next\", <https://api.github.com/user/starred?page=5>; rel=\"last\"";
    assert!(next_link_is_readable(h));
    assert_eq!(extract_next_link(h.to_string()), Some("https://api.github.com/user/starred?page=2".to_string()));
}

#[test]
fn next_link_later_in_the_header() {
    let h = "<https://a/?page=1>; rel=\"prev\",  <https://a/?page=3>;   rel=\"next\"  ";
    // the link part is not trimmed: the blanks after the comma stay
    assert_eq!(extract_next_link(h.to_string()), Some("  https://a/?page=3".to_string()));
}

#[test]
fn no_next_link_on_the_last_page() {
    let h = "<https://a/?page=1>; rel=\"first\", <https://a/?page=4>; rel=\"prev\"";
    assert!(next_link_is_readable(h));
    assert_eq!(extract_next_link(h.to_string()), None);
}

#[test]
fn all_angle_brackets_are_taken_out() {
    let h = "<<x>y>>; rel=\"next\"";
    assert_eq!(extract_next_link(h.to_string()), Some("xy".to_string()));
}

#[test]
fn a_field_without_parts_cannot_be_read() {
    assert!(!next_link_is_readable("garbage"));
    assert!(!next_link_is_readable("<a>; rel=\"prev\", broken"));
    // a broken field after the next link is never looked at
    assert!(next_link_is_readable("<a>; rel=\"next\", broken"));
    assert_eq!(extract_next_link("<a>; rel=\"next\", broken".to_string()), Some("a".to_string()));
}
