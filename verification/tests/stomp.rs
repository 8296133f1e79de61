use cs2_radar::stomp::{subscription_id, StompSession};

#[test]
fn connect_is_answered_with_connected() {
    let mut s = StompSession::new();
    let reply = s.handle_client_frame("CONNECT\naccept-version:1.2,1.1,1.0\nheart-beat:10000,10000\n\n\0");
    assert_eq!(reply.as_deref(), Some("CONNECTED\nversion:1.2\n\n\0"));
    assert_eq!(s.subscription(), "sub-0");
}

#[test]
fn connect_without_accept_version_is_ignored() {
    let mut s = StompSession::new();
    assert_eq!(s.handle_client_frame("CONNECT\n\n\0"), None);
    assert_eq!(s.subscription(), "sub-0");
}

#[test]
fn subscribe_sets_the_subscription() {
    let mut s = StompSession::new();
    let reply = s.handle_client_frame("SUBSCRIBE\nid:sub-7\ndestination:/topic/radar\n\n\0");
    assert_eq!(reply, None);
    assert_eq!(s.subscription(), "sub-7");
    assert_eq!(
        s.message_frame("{\"tick\":1}"),
        "MESSAGE\nsubscription:sub-7\ncontent-type:application/json\n\n{\"tick\":1}\0"
    );
}

#[test]
fn subscribe_to_another_topic_is_ignored() {
    let mut s = StompSession::new();
    assert_eq!(s.handle_client_frame("SUBSCRIBE\nid:sub-3\ndestination:/topic/other\n\n\0"), None);
    assert_eq!(s.subscription(), "sub-0");
}

#[test]
fn subscribe_without_id_falls_back_to_sub_0() {
    let mut s = StompSession::new();
    s.handle_client_frame("SUBSCRIBE\nid:a\ndestination:/topic/radar\n\n\0");
    assert_eq!(s.subscription(), "a");
    s.handle_client_frame("SUBSCRIBE\ndestination:/topic/radar\n\n\0");
    assert_eq!(s.subscription(), "sub-0");
}

#[test]
fn connect_wins_over_subscribe() {
    let mut s = StompSession::new();
    let reply = s.handle_client_frame("CONNECT accept-version SUBSCRIBE /topic/radar\nid:x\n");
    assert!(reply.is_some());
    assert_eq!(s.subscription(), "sub-0");
}

#[test]
fn subscription_ids_follow_str_lines() {
    assert_eq!(subscription_id("SUBSCRIBE\r\nid:abc\r\n\r\n"), "abc");
    assert_eq!(subscription_id("SUBSCRIBE\nid:id:id:x\n"), "x");
    assert_eq!(subscription_id("SUBSCRIBE\nid:last\r"), "last\r");
    assert_eq!(subscription_id("id:first\nid:second\n"), "first");
    assert_eq!(subscription_id("SUBSCRIBE\n id:no\n"), "sub-0");
    assert_eq!(subscription_id("SUBSCRIBE\nid:\n"), "");
    assert_eq!(subscription_id(""), "sub-0");
    assert_eq!(subscription_id("xid:1\nid:2"), "2");
    assert_eq!(subscription_id("id:ü\n"), "ü");
}

#[test]
fn subscription_ids_agree_with_std() {
    for text in ["SUBSCRIBE\r\nid:abc\r\n", "a\nid:id:q\r\nid:z", "\n\n", "id:\r", "id:1\r\r\n", "x\r\nid:é"] {
        let mut expected = String::from("sub-0");
        for line in text.lines() {
            if line.starts_with("id:") {
                expected = line.trim_start_matches("id:").to_string();
                break;
            }
        }
        assert_eq!(subscription_id(text), expected, "{:?}", text);
    }
}

#[test]
fn subscriptions_are_one_line_without_id_tag() {
    for text in ["id:id:a\r\nb", "SUBSCRIBE\nid:x\ny", "id:\n", "id:id:id:", "q"] {
        let id = subscription_id(text);
        assert!(!id.contains('\n'));
        assert!(!id.starts_with("id:"));
    }
}
