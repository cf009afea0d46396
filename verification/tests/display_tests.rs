use watchr::display::{bracketed_timestamp, notification_script};

#[test]
fn macos_notification_script() {
    assert_eq!(
        notification_script("watchr", "make succeeded in 3ms"),
        "display notification \"make succeeded in 3ms\" with title \"watchr\""
    );
}

#[test]
fn bracketed_clock_time() {
    let t: Vec<char> = bracketed_timestamp().chars().collect();
    assert_eq!(t.len(), 10);
    assert_eq!(t[0], '[');
    assert_eq!(t[3], ':');
    assert_eq!(t[6], ':');
    assert_eq!(t[9], ']');
}
