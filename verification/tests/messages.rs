use osctet::messages::MessageBuffer;
use osctet::module::TrackTarget;

#[test]
fn the_latest_messages_are_kept_oldest_first() {
    let mut buffer = MessageBuffer::new(3);
    assert_eq!(buffer.len(), 0);
    assert!(buffer.iter().is_empty());
    buffer.push(String::from("one"));
    buffer.push(String::from("two"));
    assert_eq!(buffer.iter(), vec![String::from("one"), String::from("two")]);
    buffer.push(String::from("three"));
    buffer.push(String::from("four"));
    assert_eq!(buffer.len(), 3);
    assert_eq!(
        buffer.iter(),
        vec![String::from("two"), String::from("three"), String::from("four")]
    );
}

#[test]
fn a_buffer_without_room_keeps_nothing() {
    let mut buffer = MessageBuffer::new(0);
    buffer.push(String::from("lost"));
    assert_eq!(buffer.len(), 0);
}

#[test]
fn notes_played_by_hand_follow_the_target_of_the_track() {
    assert_eq!(TrackTarget::Global.patch_choice(Some(3)), Some(3));
    assert_eq!(TrackTarget::Silent.patch_choice(None), None);
    assert_eq!(TrackTarget::Kit.patch_choice(Some(3)), None);
    assert_eq!(TrackTarget::Patch(1).patch_choice(Some(3)), Some(1));
}
