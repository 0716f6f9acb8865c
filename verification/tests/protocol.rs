use pub_socket::subscription::{
    apply_control, first_match, is_control, position_of, same_topic, topic_matches, topic_of,
    SUBSCRIBE, UNSUBSCRIBE,
};

fn subscribe(topic: &[u8]) -> Vec<u8> {
    let mut frame = vec![SUBSCRIBE];
    frame.extend_from_slice(topic);
    frame
}

fn unsubscribe(topic: &[u8]) -> Vec<u8> {
    let mut frame = vec![UNSUBSCRIBE];
    frame.extend_from_slice(topic);
    frame
}

#[test]
fn tags_are_zero_and_one() {
    assert_eq!(UNSUBSCRIBE, 0);
    assert_eq!(SUBSCRIBE, 1);
}

#[test]
fn prefix_matches() {
    assert!(topic_matches(&b"news".to_vec(), &b"newsflash".to_vec()));
    assert!(topic_matches(&b"news".to_vec(), &b"news".to_vec()));
    assert!(!topic_matches(&b"news".to_vec(), &b"weather".to_vec()));
    assert!(!topic_matches(&b"news".to_vec(), &b"new".to_vec()));
    assert!(!topic_matches(&b"newt".to_vec(), &b"newsflash".to_vec()));
}

#[test]
fn topic_longer_than_payload_does_not_match() {
    assert!(!topic_matches(&b"newsflash".to_vec(), &b"news".to_vec()));
    assert!(!topic_matches(&b"x".to_vec(), &Vec::new()));
}

#[test]
fn empty_topic_matches_every_payload() {
    assert!(topic_matches(&Vec::new(), &b"anything".to_vec()));
    assert!(topic_matches(&Vec::new(), &Vec::new()));
    assert!(topic_matches(&Vec::new(), &vec![0u8, 255u8]));
}

#[test]
fn same_topic_compares_all_bytes() {
    assert!(same_topic(&b"abc".to_vec(), &b"abc".to_vec()));
    assert!(same_topic(&Vec::new(), &Vec::new()));
    assert!(!same_topic(&b"abc".to_vec(), &b"abd".to_vec()));
    assert!(!same_topic(&b"ab".to_vec(), &b"abc".to_vec()));
    assert!(!same_topic(&b"abc".to_vec(), &b"ab".to_vec()));
}

#[test]
fn first_match_takes_the_earliest_subscription() {
    let subs = vec![b"zzz".to_vec(), b"ne".to_vec(), b"news".to_vec(), Vec::new()];
    assert_eq!(first_match(&subs, &b"newsflash".to_vec()), Some(1));
    assert_eq!(first_match(&subs, &b"other".to_vec()), Some(3));
    assert_eq!(first_match(&subs, &b"zzzz".to_vec()), Some(0));
}

#[test]
fn first_match_finds_nothing_without_a_prefix() {
    let subs = vec![b"news".to_vec(), b"sport".to_vec()];
    assert_eq!(first_match(&subs, &b"weather".to_vec()), None);
    assert_eq!(first_match(&subs, &Vec::new()), None);
    assert_eq!(first_match(&Vec::new(), &b"weather".to_vec()), None);
}

#[test]
fn position_of_wants_equal_bytes() {
    let subs = vec![b"ab".to_vec(), b"a".to_vec(), b"abc".to_vec(), b"a".to_vec()];
    assert_eq!(position_of(&subs, &b"a".to_vec()), Some(1));
    assert_eq!(position_of(&subs, &b"abc".to_vec()), Some(2));
    assert_eq!(position_of(&subs, &b"abcd".to_vec()), None);
    assert_eq!(position_of(&subs, &Vec::new()), None);
}

#[test]
fn topic_of_drops_the_tag() {
    assert_eq!(topic_of(&vec![1u8, 10u8, 20u8, 30u8]), vec![10u8, 20u8, 30u8]);
    assert_eq!(topic_of(&vec![0u8]), Vec::<u8>::new());
    assert_eq!(topic_of(&subscribe(b"news")), b"news".to_vec());
}

#[test]
fn subscribe_appends_in_order() {
    let mut subs: Vec<Vec<u8>> = Vec::new();
    apply_control(&mut subs, &subscribe(b"b"));
    apply_control(&mut subs, &subscribe(b"a"));
    apply_control(&mut subs, &subscribe(b""));
    apply_control(&mut subs, &subscribe(b"b"));
    assert_eq!(subs, vec![b"b".to_vec(), b"a".to_vec(), Vec::new(), b"b".to_vec()]);
}

#[test]
fn unsubscribe_removes_the_first_equal_entry() {
    let mut subs = vec![b"a".to_vec(), b"b".to_vec(), b"a".to_vec(), b"c".to_vec()];
    apply_control(&mut subs, &unsubscribe(b"a"));
    assert_eq!(subs, vec![b"b".to_vec(), b"a".to_vec(), b"c".to_vec()]);
    apply_control(&mut subs, &unsubscribe(b"a"));
    assert_eq!(subs, vec![b"b".to_vec(), b"c".to_vec()]);
}

#[test]
fn unsubscribe_of_an_absent_topic_changes_nothing() {
    let mut subs = vec![b"a".to_vec(), b"b".to_vec()];
    apply_control(&mut subs, &unsubscribe(b"c"));
    assert_eq!(subs, vec![b"a".to_vec(), b"b".to_vec()]);
    apply_control(&mut subs, &unsubscribe(b""));
    assert_eq!(subs, vec![b"a".to_vec(), b"b".to_vec()]);
    apply_control(&mut subs, &unsubscribe(b"ab"));
    assert_eq!(subs, vec![b"a".to_vec(), b"b".to_vec()]);
}

#[test]
fn unsubscribe_is_not_a_prefix_match() {
    let mut subs = vec![b"news".to_vec()];
    apply_control(&mut subs, &unsubscribe(b"new"));
    apply_control(&mut subs, &unsubscribe(b"newsflash"));
    assert_eq!(subs, vec![b"news".to_vec()]);
}

#[test]
fn empty_topic_can_be_subscribed_and_unsubscribed() {
    let mut subs: Vec<Vec<u8>> = Vec::new();
    apply_control(&mut subs, &vec![SUBSCRIBE]);
    assert_eq!(subs, vec![Vec::<u8>::new()]);
    apply_control(&mut subs, &vec![UNSUBSCRIBE]);
    assert!(subs.is_empty());
}

#[test]
fn frame_without_bytes_is_ignored() {
    let mut subs = vec![b"a".to_vec()];
    apply_control(&mut subs, &Vec::new());
    assert_eq!(subs, vec![b"a".to_vec()]);
}

#[test]
fn unknown_tag_is_ignored() {
    let mut subs = vec![b"a".to_vec()];
    apply_control(&mut subs, &vec![2u8, b'a']);
    apply_control(&mut subs, &vec![255u8]);
    apply_control(&mut subs, &b"a".to_vec());
    assert_eq!(subs, vec![b"a".to_vec()]);
}

#[test]
fn control_frames_take_effect_in_order() {
    let mut subs: Vec<Vec<u8>> = Vec::new();
    let frames = vec![
        subscribe(b"x"),
        subscribe(b"y"),
        unsubscribe(b"z"),
        subscribe(b"x"),
        unsubscribe(b"x"),
        subscribe(b"z"),
        unsubscribe(b"y"),
        unsubscribe(b"y"),
    ];
    for frame in &frames {
        apply_control(&mut subs, frame);
    }
    assert_eq!(subs, vec![b"x".to_vec(), b"z".to_vec()]);
}

#[test]
fn subscribe_and_unsubscribe_balance() {
    let mut subs = vec![b"keep".to_vec()];
    for _ in 0..3 {
        apply_control(&mut subs, &subscribe(b"t"));
    }
    assert_eq!(subs.len(), 4);
    for _ in 0..3 {
        apply_control(&mut subs, &unsubscribe(b"t"));
    }
    assert_eq!(subs, vec![b"keep".to_vec()]);
}

#[test]
fn topic_of_a_frame_without_bytes_is_empty() {
    assert_eq!(topic_of(&Vec::new()), Vec::<u8>::new());
}

#[test]
fn only_tags_zero_and_one_make_a_control_frame() {
    assert!(is_control(&vec![0u8]));
    assert!(is_control(&vec![1u8]));
    assert!(is_control(&subscribe(b"news")));
    assert!(is_control(&unsubscribe(b"news")));
    assert!(!is_control(&Vec::new()));
    assert!(!is_control(&vec![2u8, 1u8]));
    assert!(!is_control(&vec![255u8]));
    assert!(!is_control(&b"news".to_vec()));
}
