use osctet::edit::{delete_event, push_event, replace_event};
use osctet::fx::FXSettings;
use osctet::module::{
    Channel, ChannelCoords, Edit, Event, EventData, KitEntry, LocatedEvent, Module, Note,
    Position, Track, TrackEdit, TrackTarget,
};
use osctet::settings::Patch;

fn ev(tick: u32, data: EventData) -> Event {
    Event { tick, data }
}

fn note(pitch: i32) -> Note {
    Note { pitch }
}

fn module() -> Module {
    Module::new(FXSettings::default())
}

fn events(m: &Module, track: usize, channel: usize) -> Vec<Event> {
    m.tracks[track].channels[channel].events.clone()
}

#[test]
fn inserted_events_are_kept_in_order_and_can_be_undone() {
    let mut m = module();
    m.insert_event(2, 0, ev(10, EventData::Pitch(note(1))));
    m.insert_event(2, 0, ev(5, EventData::Pitch(note(2))));
    m.insert_event(2, 0, ev(10, EventData::Pressure(3)));
    assert_eq!(
        events(&m, 2, 0),
        vec![
            ev(5, EventData::Pitch(note(2))),
            ev(10, EventData::Pitch(note(1))),
            ev(10, EventData::Pressure(3)),
        ]
    );
    assert!(m.has_unsaved_changes);
    m.insert_event(2, 0, ev(10, EventData::NoteOff));
    assert_eq!(
        events(&m, 2, 0),
        vec![ev(5, EventData::Pitch(note(2))), ev(10, EventData::NoteOff), ev(10, EventData::Pressure(3))]
    );
    assert!(m.undo());
    assert_eq!(
        events(&m, 2, 0),
        vec![
            ev(5, EventData::Pitch(note(2))),
            ev(10, EventData::Pitch(note(1))),
            ev(10, EventData::Pressure(3)),
        ]
    );
    assert!(m.redo());
    assert_eq!(events(&m, 2, 0)[1], ev(10, EventData::NoteOff));
    assert!(!m.redo());
    assert!(m.undo() && m.undo() && m.undo() && m.undo());
    assert!(events(&m, 2, 0).is_empty());
    assert!(!m.undo());
}

#[test]
fn a_new_edit_clears_what_could_be_redone() {
    let mut m = module();
    m.insert_event(1, 0, ev(1, EventData::NoteOff));
    assert!(m.undo());
    m.insert_event(1, 0, ev(2, EventData::NoteOff));
    assert!(!m.redo());
    assert_eq!(events(&m, 1, 0), vec![ev(2, EventData::NoteOff)]);
}

#[test]
fn tracks_come_and_go_with_a_history() {
    let mut m = module();
    m.add_track();
    assert_eq!(m.tracks.len(), 4);
    assert_eq!(m.tracks[3].target, TrackTarget::Patch(0));
    assert_eq!(m.tracks[3].channels.len(), 1);
    assert!(m.undo());
    assert_eq!(m.tracks.len(), 3);
    assert_eq!(m.drain_track_history(), vec![TrackEdit::Insert(3), TrackEdit::Remove(3)]);
    assert!(m.drain_track_history().is_empty());
    assert!(m.redo());
    assert_eq!(m.tracks.len(), 4);
    m.push_edit(Edit::RemoveTrack(1));
    let targets: Vec<TrackTarget> = m.tracks.iter().map(|t| t.target).collect();
    assert_eq!(targets, vec![TrackTarget::Global, TrackTarget::Patch(0), TrackTarget::Patch(0)]);
    assert!(m.undo());
    assert_eq!(m.tracks[1].target, TrackTarget::Kit);
}

#[test]
fn the_reverse_of_an_inserted_track_removes_the_last_track() {
    let mut m = module();
    let inverse = m.flip_edit(Edit::InsertTrack(1, Track::new(TrackTarget::Silent)));
    assert!(matches!(inverse, Edit::RemoveTrack(3)));
    assert_eq!(m.tracks[1].target, TrackTarget::Silent);
}

#[test]
fn edits_that_name_nothing_change_nothing() {
    let mut m = module();
    assert!(matches!(m.flip_edit(Edit::RemoveTrack(3)), Edit::RemoveTrack(3)));
    assert!(matches!(
        m.flip_edit(Edit::InsertTrack(4, Track::new(TrackTarget::Kit))),
        Edit::InsertTrack(4, _)
    ));
    assert!(matches!(m.flip_edit(Edit::RemapTrack(3, TrackTarget::Kit)), Edit::RemapTrack(3, TrackTarget::Kit)));
    assert!(matches!(m.flip_edit(Edit::AddChannel(3, Channel::new())), Edit::AddChannel(3, _)));
    assert!(matches!(m.flip_edit(Edit::RemoveChannel(3)), Edit::RemoveChannel(3)));
    assert!(matches!(m.flip_edit(Edit::RemovePatch(1)), Edit::RemovePatch(1)));
    assert!(matches!(
        m.flip_edit(Edit::InsertPatch(2, Patch::new(String::from("x")))),
        Edit::InsertPatch(2, _)
    ));
    assert_eq!(m.tracks.len(), 3);
    assert_eq!(m.patches.len(), 1);
    assert!(m.has_unsaved_changes);
    let lost = m.flip_edit(Edit::PatternData {
        remove: vec![Position::new(0, 9, 0, 0)],
        add: vec![LocatedEvent { track: 1, channel: 5, event: ev(1, EventData::End) }],
    });
    match lost {
        Edit::PatternData { remove, add } => assert!(remove.is_empty() && add.is_empty()),
        _ => panic!("not a pattern edit"),
    }
    m.push_edit(Edit::RemoveChannel(0));
    assert!(m.tracks[0].channels.is_empty());
    assert!(matches!(m.flip_edit(Edit::RemoveChannel(0)), Edit::RemoveChannel(0)));
}

#[test]
fn targets_and_channels_can_be_edited_and_restored() {
    let mut m = module();
    m.push_edit(Edit::RemapTrack(1, TrackTarget::Patch(0)));
    assert_eq!(m.tracks[1].target, TrackTarget::Patch(0));
    m.push_edit(Edit::AddChannel(1, Channel { events: vec![ev(3, EventData::NoteOff)] }));
    assert_eq!(m.tracks[1].channels.len(), 2);
    assert!(m.undo());
    assert_eq!(m.tracks[1].channels.len(), 1);
    assert!(m.redo());
    assert_eq!(events(&m, 1, 1), vec![ev(3, EventData::NoteOff)]);
    assert!(m.undo() && m.undo());
    assert_eq!(m.tracks[1].target, TrackTarget::Kit);
}

#[test]
fn removing_a_patch_renumbers_kit_and_tracks() {
    let mut m = module();
    m.push_edit(Edit::InsertPatch(1, Patch::new(String::from("Two"))));
    m.push_edit(Edit::InsertPatch(2, Patch::new(String::from("Three"))));
    m.kit = vec![
        KitEntry { input_note: note(1), patch_index: 0, patch_note: note(1) },
        KitEntry { input_note: note(2), patch_index: 1, patch_note: note(2) },
        KitEntry { input_note: note(3), patch_index: 2, patch_note: note(3) },
    ];
    m.add_track();
    m.tracks[1].target = TrackTarget::Patch(1);
    m.tracks[2].target = TrackTarget::Patch(2);
    m.push_edit(Edit::RemovePatch(1));
    let names: Vec<String> = m.patches.iter().map(|p| p.name.clone()).collect();
    assert_eq!(names, vec![String::from("Init"), String::from("Three")]);
    assert_eq!(
        m.kit,
        vec![
            KitEntry { input_note: note(1), patch_index: 0, patch_note: note(1) },
            KitEntry { input_note: note(3), patch_index: 1, patch_note: note(3) },
        ]
    );
    let targets: Vec<TrackTarget> = m.tracks.iter().map(|t| t.target).collect();
    assert_eq!(
        targets,
        vec![TrackTarget::Global, TrackTarget::Silent, TrackTarget::Patch(1), TrackTarget::Patch(0)]
    );
    assert!(m.undo());
    assert_eq!(m.patches.len(), 3);
    assert_eq!(m.patches[1].name, "Two");
}

#[test]
fn events_between_positions_can_be_deleted_and_restored() {
    let mut m = module();
    m.tracks[1].channels[0].events = vec![ev(0, EventData::NoteOff), ev(5, EventData::NoteOff)];
    m.tracks[2].channels[0].events = vec![ev(2, EventData::NoteOff), ev(9, EventData::NoteOff)];
    m.delete_events(Position::new(1, 1, 0, 0), Position::new(8, 2, 0, 0));
    assert_eq!(events(&m, 1, 0), vec![ev(0, EventData::NoteOff)]);
    assert_eq!(events(&m, 2, 0), vec![ev(9, EventData::NoteOff)]);
    assert!(m.undo());
    assert_eq!(events(&m, 1, 0), vec![ev(0, EventData::NoteOff), ev(5, EventData::NoteOff)]);
    assert_eq!(events(&m, 2, 0), vec![ev(2, EventData::NoteOff), ev(9, EventData::NoteOff)]);
    m.has_unsaved_changes = false;
    m.delete_events(Position::new(100, 0, 0, 0), Position::new(200, 2, 0, 0));
    assert!(!m.has_unsaved_changes);
}

#[test]
fn shifting_channels_can_be_undone() {
    let mut m = module();
    m.tracks[1].channels[0].events =
        vec![ev(0, EventData::NoteOff), ev(4, EventData::Pressure(1)), ev(8, EventData::NoteOff)];
    m.tracks[2].channels[0].events = vec![ev(4, EventData::NoteOff)];
    m.shift_channel_events(Position::new(2, 1, 0, 0), Position::new(0, 1, 0, 0), -4);
    assert_eq!(events(&m, 1, 0), vec![ev(0, EventData::NoteOff), ev(4, EventData::NoteOff)]);
    assert_eq!(events(&m, 2, 0), vec![ev(4, EventData::NoteOff)]);
    assert!(m.undo());
    assert_eq!(
        events(&m, 1, 0),
        vec![ev(0, EventData::NoteOff), ev(4, EventData::Pressure(1)), ev(8, EventData::NoteOff)]
    );
    let inverse = m.flip_edit(Edit::ShiftEvents {
        channels: vec![ChannelCoords { track: 2, channel: 0 }, ChannelCoords { track: 7, channel: 0 }],
        start: 0,
        distance: i64::MIN,
        insert: Vec::new(),
    });
    match inverse {
        Edit::ShiftEvents { distance, insert, .. } => {
            assert_eq!(distance, i64::MAX);
            assert_eq!(insert, vec![LocatedEvent { track: 2, channel: 0, event: ev(4, EventData::NoteOff) }]);
        }
        _ => panic!("not a shift"),
    }
}

#[test]
fn events_are_replaced_in_place() {
    let mut m = module();
    m.tracks[2].channels[0].events = vec![ev(0, EventData::Pitch(note(1))), ev(0, EventData::Pressure(2))];
    let new = LocatedEvent { track: 2, channel: 0, event: ev(0, EventData::Pressure(9)) };
    let was = m.replace_event(new);
    assert_eq!(was, LocatedEvent { track: 2, channel: 0, event: ev(0, EventData::Pressure(2)) });
    assert_eq!(events(&m, 2, 0)[1], ev(0, EventData::Pressure(9)));
    let absent = LocatedEvent { track: 2, channel: 0, event: ev(3, EventData::Pressure(9)) };
    assert_eq!(m.replace_event(absent), absent);
    assert_eq!(replace_event(&mut m.tracks, LocatedEvent { track: 8, channel: 0, event: ev(0, EventData::End) }).track, 8);
    m.push_edit(Edit::ReplaceEvents(vec![LocatedEvent { track: 2, channel: 0, event: ev(0, EventData::NoteOff) }]));
    assert_eq!(events(&m, 2, 0)[0], ev(0, EventData::NoteOff));
    assert!(m.undo());
    assert_eq!(events(&m, 2, 0)[0], ev(0, EventData::Pitch(note(1))));
    assert_eq!(m.event_at(Position::new(0, 2, 0, 1)), Some(ev(0, EventData::Pressure(9))));
    assert_eq!(m.event_at(Position::new(0, 2, 0, 2)), None);
    assert_eq!(m.event_at(Position::new(0, 2, 4, 1)), None);
    assert_eq!(m.delete_event(Position::new(0, 2, 0, 1)), Some(ev(0, EventData::Pressure(9))));
    assert_eq!(m.delete_event(Position::new(0, 2, 0, 1)), None);
    assert_eq!(delete_event(&mut m.tracks, Position::new(0, 5, 0, 0)), None);
    assert!(!push_event(&mut m.tracks, LocatedEvent { track: 5, channel: 0, event: ev(0, EventData::End) }));
}
