use osctet::fx::FXSettings;
use osctet::module::{
    sort_events, sort_key, Channel, Event, EventData, KitEntry, LocatedEvent, Module, Note,
    Position, Selection, Track, TrackTarget,
};
use osctet::settings::Patch;
use osctet::tempo::Tempo;

fn ev(tick: u32, data: EventData) -> Event {
    Event { tick, data }
}

fn note(pitch: i32) -> Note {
    Note { pitch }
}

fn module() -> Module {
    Module::new(FXSettings::default())
}

fn located(track: usize, channel: usize, event: Event) -> LocatedEvent {
    LocatedEvent { track, channel, event }
}

/// Control track with two channels, a kit track and a patch track.
fn song() -> Module {
    let mut m = module();
    m.tracks[0].channels[0].events = vec![
        ev(0, EventData::Tempo(90_000)),
        ev(240, EventData::Loop),
        ev(480, EventData::RationalTempo(3, 2)),
        ev(960, EventData::End),
    ];
    m.tracks[0].channels.push(Channel { events: vec![ev(120, EventData::Loop), ev(600, EventData::Section)] });
    m.tracks[1].channels[0].events = vec![ev(0, EventData::Pitch(note(36_000)))];
    m.tracks[2].channels[0].events = vec![
        ev(0, EventData::Pitch(note(60_000))),
        ev(0, EventData::Pressure(7)),
        ev(480, EventData::NoteOff),
    ];
    m
}

#[test]
fn columns_of_events() {
    assert_eq!(EventData::Pitch(note(0)).logical_column(), 0);
    assert_eq!(EventData::Pressure(3).logical_column(), 1);
    assert_eq!(EventData::Modulation(3).logical_column(), 2);
    assert_eq!(EventData::StartGlide(1).logical_column(), 0x81);
    assert_eq!(EventData::EndGlide(2).logical_column(), 0x82);
    assert_eq!(EventData::TickGlide(0).logical_column(), 0x80);
    assert_eq!(EventData::TickGlide(0).spatial_column(), 0);
    assert_eq!(EventData::StartGlide(2).spatial_column(), 2);
    assert_eq!(EventData::End.spatial_column(), 0);
    assert!(EventData::Tempo(1).is_ctrl());
    assert!(EventData::RationalTempo(1, 2).is_ctrl());
    assert!(EventData::End.is_ctrl());
    assert!(EventData::Loop.is_ctrl());
    assert!(EventData::Section.is_ctrl());
    assert!(!EventData::NoteOff.is_ctrl());
    assert!(!EventData::Bend(5).is_ctrl());
}

#[test]
fn position_tuple_and_new() {
    let p = Position::new(7, 1, 2, 3);
    assert_eq!(p, Position { tick: 7, track: 1, channel: 2, column: 3 });
    assert_eq!(p.x_tuple(), (1, 2, 3));
}

#[test]
fn located_event_and_its_position() {
    let p = Position::new(7, 1, 2, 1);
    let e = LocatedEvent::from_position(p, EventData::StartGlide(1));
    assert_eq!(e, located(1, 2, ev(7, EventData::StartGlide(1))));
    assert_eq!(e.position(), Position { tick: 7, track: 1, channel: 2, column: 0x81 });
}

#[test]
fn sorting_orders_by_tick_then_column_and_is_stable() {
    let a = ev(5, EventData::Pressure(1));
    let b = ev(5, EventData::Pitch(note(1)));
    let c = ev(2, EventData::Modulation(1));
    let d = ev(5, EventData::Pitch(note(2)));
    let e = ev(5, EventData::NoteOff);
    let f = ev(0, EventData::End);
    let mut events = vec![a, b, c, d, e, f];
    sort_events(&mut events);
    assert_eq!(events, vec![f, c, b, d, e, a]);
    assert_eq!(sort_key(a), 5 * 256 + 1);
    let mut channel = Channel { events: vec![a, f] };
    channel.sort_events();
    assert_eq!(channel.events, vec![f, a]);
    let mut none: Vec<Event> = Vec::new();
    sort_events(&mut none);
    assert!(none.is_empty());
}

#[test]
fn shifting_forward_moves_the_events_from_the_start_on() {
    let mut channel = Channel {
        events: vec![ev(0, EventData::NoteOff), ev(10, EventData::NoteOff), ev(20, EventData::End)],
    };
    let deleted = channel.shift_events(10, 5);
    assert!(deleted.is_empty());
    assert_eq!(
        channel.events,
        vec![ev(0, EventData::NoteOff), ev(15, EventData::NoteOff), ev(25, EventData::End)]
    );
}

#[test]
fn shifting_back_deletes_what_it_passes_over() {
    let mut channel = Channel {
        events: vec![
            ev(0, EventData::NoteOff),
            ev(10, EventData::Pressure(1)),
            ev(14, EventData::Pressure(2)),
            ev(15, EventData::Pressure(3)),
            ev(30, EventData::End),
        ],
    };
    let deleted = channel.shift_events(10, -5);
    assert_eq!(deleted, vec![ev(10, EventData::Pressure(1)), ev(14, EventData::Pressure(2))]);
    assert_eq!(
        channel.events,
        vec![ev(0, EventData::NoteOff), ev(10, EventData::Pressure(3)), ev(25, EventData::End)]
    );
}

#[test]
fn shifting_keeps_ticks_in_range() {
    let mut channel = Channel { events: vec![ev(u32::MAX - 1, EventData::End)] };
    assert!(channel.shift_events(0, 10).is_empty());
    assert_eq!(channel.events, vec![ev(u32::MAX, EventData::End)]);
    let mut channel = Channel { events: vec![ev(3, EventData::End)] };
    assert!(channel.shift_events(0, i64::MIN).len() == 1);
    assert!(channel.events.is_empty());
}

#[test]
fn glides_are_open_between_start_and_end() {
    let channel = Channel {
        events: vec![
            ev(10, EventData::StartGlide(0)),
            ev(12, EventData::StartGlide(1)),
            ev(20, EventData::EndGlide(0)),
            ev(30, EventData::TickGlide(0)),
        ],
    };
    assert!(!channel.is_interpolated(0, 5));
    assert!(!channel.is_interpolated(0, 10));
    assert!(channel.is_interpolated(0, 11));
    assert!(channel.is_interpolated(0, 20));
    assert!(!channel.is_interpolated(0, 21));
    assert!(channel.is_interpolated(0, 30));
    assert!(!channel.is_interpolated(0, 31));
    assert!(channel.is_interpolated(1, 13));
    assert!(channel.is_interpolated(1, 500));
    assert!(!channel.is_interpolated(2, 13));
    assert_eq!(
        channel.interp_by_col(0),
        vec![
            ev(10, EventData::StartGlide(0)),
            ev(20, EventData::EndGlide(0)),
            ev(30, EventData::TickGlide(0)),
        ]
    );
}

#[test]
fn previous_event_of_a_column() {
    let channel = Channel {
        events: vec![
            ev(0, EventData::Pitch(note(1))),
            ev(0, EventData::Pressure(4)),
            ev(8, EventData::Pitch(note(2))),
            ev(9, EventData::Modulation(2)),
        ],
    };
    assert_eq!(channel.prev_event(0, 9), Some(ev(8, EventData::Pitch(note(2)))));
    assert_eq!(channel.prev_event(0, 8), Some(ev(0, EventData::Pitch(note(1)))));
    assert_eq!(channel.prev_event(0, 0), None);
    assert_eq!(channel.prev_event(1, 100), Some(ev(0, EventData::Pressure(4))));
    assert_eq!(channel.prev_event(2, 9), None);
}

#[test]
fn a_new_module_has_three_tracks_and_one_patch() {
    let mut m = module();
    assert_eq!(m.title, "");
    assert_eq!(m.author, "");
    assert_eq!(m.fx, FXSettings::default());
    assert!(m.kit.is_empty());
    assert_eq!(m.patches.len(), 1);
    assert_eq!(m.patches[0].name, "Init");
    let targets: Vec<TrackTarget> = m.tracks.iter().map(|t| t.target).collect();
    assert_eq!(targets, vec![TrackTarget::Global, TrackTarget::Kit, TrackTarget::Patch(0)]);
    assert!(m.tracks.iter().all(|t| t.channels.len() == 1 && t.channels[0].events.is_empty()));
    assert_eq!(m.division, 4);
    assert!(!m.has_unsaved_changes);
    assert!(!m.undo() && !m.redo());
}

#[test]
fn events_are_scanned_track_by_track() {
    let m = song();
    let all = m.select_events(Selection::Everything);
    assert_eq!(all.len(), 10);
    assert_eq!(all[0], located(0, 0, ev(0, EventData::Tempo(90_000))));
    assert_eq!(all[4], located(0, 1, ev(120, EventData::Loop)));
    assert_eq!(all[6], located(1, 0, ev(0, EventData::Pitch(note(36_000)))));
    assert_eq!(all[9], located(2, 0, ev(480, EventData::NoteOff)));
    let window = m.select_events(Selection::Within { from: 120, to: 480 });
    assert_eq!(
        window,
        vec![located(0, 0, ev(240, EventData::Loop)), located(0, 1, ev(120, EventData::Loop))]
    );
    let region = m.scan_events(Position::new(0, 0, 1, 0), Position::new(480, 2, 0, 0));
    assert_eq!(
        region,
        vec![
            located(0, 1, ev(120, EventData::Loop)),
            located(1, 0, ev(0, EventData::Pitch(note(36_000)))),
            located(2, 0, ev(0, EventData::Pitch(note(60_000)))),
            located(2, 0, ev(480, EventData::NoteOff)),
        ]
    );
}

#[test]
fn loop_start_is_the_last_at_or_before_the_tick() {
    let m = song();
    assert_eq!(m.find_loop_start(119), None);
    assert_eq!(m.find_loop_start(120), Some(120));
    assert_eq!(m.find_loop_start(239), Some(120));
    assert_eq!(m.find_loop_start(240), Some(240));
    assert_eq!(m.find_loop_start(u32::MAX), Some(240));
    assert_eq!(module().find_loop_start(100), None);
}

#[test]
fn ends_and_loops() {
    let m = song();
    assert!(m.ends());
    assert!(m.loops());
    assert!(!module().ends());
    assert!(!module().loops());
    let mut ends_first = module();
    ends_first.tracks[0].channels[0].events = vec![ev(0, EventData::End), ev(5, EventData::Loop)];
    assert!(ends_first.ends());
    assert!(!ends_first.loops());
    let mut other_track = module();
    other_track.tracks[1].channels[0].events = vec![ev(0, EventData::End), ev(5, EventData::Loop)];
    assert!(!other_track.ends());
    assert!(!other_track.loops());
}

#[test]
fn last_tick_and_loop_distance() {
    let m = song();
    assert_eq!(m.last_event_tick(), Some(960));
    assert_eq!(module().last_event_tick(), None);
    assert_eq!(m.nearest_loop(0), Some(240));
    assert_eq!(m.nearest_loop(1000), Some(120));
    assert_eq!(m.nearest_loop(180), Some(120));
    assert_eq!(module().nearest_loop(5), None);
}

#[test]
fn tempo_at_a_tick_follows_the_tempo_events_before_it() {
    let m = song();
    assert_eq!(m.tempo_at(0), Tempo::standard());
    assert_eq!(m.tempo_at(1), Tempo { num: 90, den: 1 });
    assert_eq!(m.tempo_at(480), Tempo { num: 90, den: 1 });
    assert_eq!(m.tempo_at(481), Tempo { num: 135, den: 1 });
    let mut across = module();
    across.tracks[0].channels[0].events = vec![ev(10, EventData::RationalTempo(1, 2))];
    across.tracks[0].channels.push(Channel { events: vec![ev(5, EventData::Tempo(100_000))] });
    assert_eq!(across.tempo_at(11), Tempo { num: 50, den: 1 });
}

#[test]
fn notes_map_to_patches_through_the_track() {
    let mut m = song();
    m.kit = vec![
        KitEntry { input_note: note(36_000), patch_index: 0, patch_note: note(48_000) },
        KitEntry { input_note: note(36_000), patch_index: 0, patch_note: note(1) },
        KitEntry { input_note: note(38_000), patch_index: 4, patch_note: note(50_000) },
    ];
    m.patches.push(Patch::new(String::from("Second")));
    m.kit[1].patch_index = 1;
    m.kit.push(KitEntry { input_note: note(40_000), patch_index: 1, patch_note: note(52_000) });
    let named = |r: Option<(&Patch, Note)>| r.map(|(p, n)| (p.name.clone(), n));
    let init = String::from("Init");
    let second = String::from("Second");
    assert_eq!(named(m.map_note(note(60_000), 2)), Some((init.clone(), note(60_000))));
    assert_eq!(named(m.map_note(note(36_000), 1)), Some((init.clone(), note(48_000))));
    assert_eq!(named(m.map_note(note(40_000), 1)), Some((second.clone(), note(52_000))));
    assert_eq!(named(m.map_note(note(38_000), 1)), None);
    assert_eq!(named(m.map_note(note(37_000), 1)), None);
    assert_eq!(named(m.map_note(note(60_000), 0)), None);
    assert_eq!(named(m.map_note(note(60_000), 3)), None);
    m.tracks[2].target = TrackTarget::Patch(1);
    assert_eq!(named(m.map_note(note(60_000), 2)), Some((second.clone(), note(60_000))));
    m.tracks[2].target = TrackTarget::Patch(2);
    assert_eq!(named(m.map_note(note(60_000), 2)), None);
    m.tracks[2].target = TrackTarget::Silent;
    assert_eq!(named(m.map_note(note(60_000), 2)), None);
    assert_eq!(named(m.map_input(Some(0), note(5))), Some((init.clone(), note(5))));
    assert_eq!(named(m.map_input(Some(1), note(5))), Some((second.clone(), note(5))));
    assert_eq!(named(m.map_input(Some(2), note(5))), None);
    assert_eq!(named(m.map_input(None, note(36_000))), Some((init.clone(), note(48_000))));
    assert_eq!(named(m.get_kit_patch(note(36_000))), Some((init.clone(), note(48_000))));
    assert_eq!(named(m.get_kit_patch(note(1))), None);
    assert_eq!(KitEntry::default().patch_index, 0);
}

#[test]
fn channels_are_counted_across_tracks() {
    let mut m = module();
    m.tracks[1].channels.push(Channel::new());
    m.tracks[1].channels.push(Channel::new());
    let from = Position::new(0, 0, 0, 0);
    assert_eq!(m.channels_between(from, Position::new(0, 0, 0, 0)), 0);
    assert_eq!(m.channels_between(from, Position::new(0, 1, 0, 0)), 1);
    assert_eq!(m.channels_between(from, Position::new(0, 1, 2, 0)), 3);
    assert_eq!(m.channels_between(from, Position::new(0, 2, 0, 0)), 4);
    assert_eq!(m.channels_between(from, Position::new(0, 9, 0, 0)), 5);
    assert_eq!(m.channels_between(Position::new(0, 1, 1, 0), Position::new(0, 2, 0, 0)), 2);
    assert_eq!(from.add_channels(0, &m.tracks), Some(from));
    assert_eq!(from.add_channels(1, &m.tracks), Some(Position::new(0, 1, 0, 0)));
    assert_eq!(from.add_channels(3, &m.tracks), Some(Position::new(0, 1, 2, 0)));
    assert_eq!(from.add_channels(4, &m.tracks), Some(Position::new(0, 2, 0, 0)));
    assert_eq!(from.add_channels(5, &m.tracks), None);
    assert_eq!(Position::new(3, 7, 0, 2).add_channels(0, &m.tracks), Some(Position::new(3, 7, 0, 2)));
    assert_eq!(Position::new(3, 7, 0, 2).add_channels(1, &m.tracks), None);
    let track = Track::new(TrackTarget::Kit);
    assert_eq!(track.channels.len(), 1);
}

#[test]
fn playtime_adds_up_the_time_between_tempo_events() {
    // 480 ticks at 90 beats per minute, then 480 at 135
    let m = song();
    assert_eq!(m.playtime(), Some(2_666_666_666 + 1_777_777_777));
    assert_eq!(module().playtime(), Some(0));
    let mut open = module();
    open.tracks[2].channels[0].events = vec![ev(240, EventData::NoteOff)];
    assert_eq!(open.playtime(), Some(1_000_000_000));
    open.tracks[0].channels[0].events = vec![ev(120, EventData::Tempo(0))];
    assert_eq!(open.playtime(), None);
    open.tracks[0].channels[0].events = vec![ev(240, EventData::Tempo(0))];
    assert_eq!(open.playtime(), Some(1_000_000_000));
    open.tracks[0].channels[0].events =
        vec![ev(120, EventData::Tempo(60_000)), ev(60, EventData::Tempo(120_000))];
    // half a second to the first, nothing back to the second, then 180 ticks at 120
    assert_eq!(open.playtime(), Some(500_000_000 + 750_000_000));
}

