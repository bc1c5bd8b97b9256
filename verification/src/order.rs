//! Time order of the channels.
//!
//! The events of a channel are kept in order of tick, then column. Every
//! edit keeps them so: events that come into a channel are sorted into it,
//! and what an edit gives back for its undoing is in order too.

use crate::edit::{
    channel_at, deleting, deleting_all, event_index, find_event, inserting_all, placed,
    replacing, replacing_all, shifting, shifting_all, sorting_all, tracks_without_patch,
    with_channel,
};
use crate::module::{
    is_sorted, lemma_stable_sorted, spec_sort_key, EditView, Event, LocatedEvent, ModuleView,
    Position, ChannelCoords, TrackView,
};
use vstd::prelude::*;

verus! {

/// Every channel of the track is in order.
pub open spec fn track_sorted(track: TrackView) -> bool {
    forall|c: int| 0 <= c < track.channels.len() ==> is_sorted(#[trigger] track.channels[c])
}

/// Every channel of every track is in order.
pub open spec fn tracks_sorted(tracks: Seq<TrackView>) -> bool {
    forall|t: int| 0 <= t < tracks.len() ==> track_sorted(#[trigger] tracks[t])
}

/// The track or channel that the edit brings, if it brings one, is in
/// order.
pub open spec fn edit_sorted(edit: EditView) -> bool {
    match edit {
        EditView::InsertTrack(index, track) => track_sorted(track),
        EditView::AddChannel(index, channel) => is_sorted(channel),
        _ => true,
    }
}

/// Every edit of the stack brings what is in order.
pub open spec fn edits_sorted(edits: Seq<EditView>) -> bool {
    forall|i: int| 0 <= i < edits.len() ==> edit_sorted(#[trigger] edits[i])
}

impl ModuleView {
    /// Every channel is in order, and so is what the edits on the undo and
    /// redo stacks would bring back.
    pub open spec fn in_order(self) -> bool {
        &&& tracks_sorted(self.tracks)
        &&& edits_sorted(self.undo_stack)
        &&& edits_sorted(self.redo_stack)
    }
}

/// The tracks have the same channels in both, but for their events.
pub open spec fn same_shape(a: Seq<TrackView>, b: Seq<TrackView>) -> bool {
    &&& a.len() == b.len()
    &&& forall|t: int|
        0 <= t < a.len() ==> (#[trigger] a[t]).target == b[t].target && a[t].channels.len()
            == b[t].channels.len()
}

/// Replacing the events of a channel by events in order keeps the tracks in
/// order.
proof fn lemma_with_channel_sorted(
    tracks: Seq<TrackView>,
    track: usize,
    channel: usize,
    events: Seq<Event>,
)
    requires
        placed(tracks, track, channel),
        is_sorted(events),
        tracks_sorted(tracks),
    ensures
        tracks_sorted(with_channel(tracks, track, channel, events)),
        same_shape(with_channel(tracks, track, channel, events), tracks),
{
    let after = with_channel(tracks, track, channel, events);
    assert forall|t: int| 0 <= t < after.len() implies track_sorted(#[trigger] after[t]) by {
        assert(track_sorted(tracks[t]));
        assert forall|c: int| 0 <= c < after[t].channels.len() implies is_sorted(
            #[trigger] after[t].channels[c],
        ) by {
            if t == track && c == channel {
            } else {
                assert(after[t].channels[c] == tracks[t].channels[c]);
            }
        }
    }
}

/// A channel in order is in order without one of its events.
proof fn lemma_remove_sorted(events: Seq<Event>, k: int)
    requires
        is_sorted(events),
        0 <= k < events.len(),
    ensures
        is_sorted(events.remove(k)),
{
    let after = events.remove(k);
    assert forall|a: int, b: int| 0 <= a <= b < after.len() implies spec_sort_key(
        #[trigger] after[a],
    ) <= spec_sort_key(#[trigger] after[b]) by {
        let a0 = if a < k {
            a
        } else {
            a + 1
        };
        let b0 = if b < k {
            b
        } else {
            b + 1
        };
        assert(after[a] == events[a0] && after[b] == events[b0]);
        assert(spec_sort_key(events[a0]) <= spec_sort_key(events[b0]));
    }
}

/// The event that is found is at the tick and in the column asked for.
proof fn lemma_find_event(events: Seq<Event>, tick: u32, column: u8, k: int)
    requires
        find_event(events, tick, column, k) is Some,
    ensures
        0 <= find_event(events, tick, column, k).unwrap() < events.len(),
        events[find_event(events, tick, column, k).unwrap()].tick == tick,
        events[find_event(events, tick, column, k).unwrap()].data.spec_logical_column() == column,
    decreases events.len() - k,
{
    if 0 <= k < events.len() && !(events[k].tick == tick && events[k].data.spec_logical_column()
        == column) {
        lemma_find_event(events, tick, column, k + 1);
    }
}

/// Taking an event out keeps the tracks in order.
proof fn lemma_deleting_sorted(tracks: Seq<TrackView>, pos: Position)
    requires
        tracks_sorted(tracks),
    ensures
        tracks_sorted(deleting(tracks, pos).0),
        same_shape(deleting(tracks, pos).0, tracks),
{
    if let Some(k) = event_index(tracks, pos) {
        let events = channel_at(tracks, pos.track, pos.channel);
        lemma_find_event(events, pos.tick, pos.column, 0);
        assert(track_sorted(tracks[pos.track as int]));
        lemma_remove_sorted(events, k);
        lemma_with_channel_sorted(tracks, pos.track, pos.channel, events.remove(k));
    }
}

/// Taking events out keeps the tracks in order.
pub proof fn lemma_deleting_all_sorted(tracks: Seq<TrackView>, positions: Seq<Position>)
    requires
        tracks_sorted(tracks),
    ensures
        tracks_sorted(deleting_all(tracks, positions).0),
        same_shape(deleting_all(tracks, positions).0, tracks),
    decreases positions.len(),
{
    if positions.len() > 0 {
        lemma_deleting_all_sorted(tracks, positions.drop_last());
        lemma_deleting_sorted(deleting_all(tracks, positions.drop_last()).0, positions.last());
    }
}

/// Whether one of the events belongs in the channel.
pub open spec fn touches(events: Seq<LocatedEvent>, track: int, channel: int) -> bool {
    exists|i: int|
        0 <= i < events.len() && (#[trigger] events[i]).track == track && events[i].channel
            == channel
}

/// Events that are added leave the channels that none of them belongs in
/// as they are.
proof fn lemma_inserting_all(tracks: Seq<TrackView>, events: Seq<LocatedEvent>)
    ensures
        same_shape(inserting_all(tracks, events).0, tracks),
        forall|t: int, c: int|
            0 <= t < tracks.len() && 0 <= c < tracks[t].channels.len() && !touches(events, t, c)
                ==> (#[trigger] inserting_all(tracks, events).0[t].channels[c]) == tracks[t].channels[c],
    decreases events.len(),
{
    if events.len() > 0 {
        let rest = events.drop_last();
        let e = events.last();
        lemma_inserting_all(tracks, rest);
        let before = inserting_all(tracks, rest).0;
        let after = inserting_all(tracks, events).0;
        assert forall|t: int, c: int|
            0 <= t < tracks.len() && 0 <= c < tracks[t].channels.len() && !touches(
                events,
                t,
                c,
            ) implies (#[trigger] after[t].channels[c]) == tracks[t].channels[c] by {
            assert(!touches(rest, t, c)) by {
                if touches(rest, t, c) {
                    let i = choose|i: int|
                        0 <= i < rest.len() && (#[trigger] rest[i]).track == t && rest[i].channel
                            == c;
                    assert(events[i] == rest[i]);
                }
            }
            assert(before[t].channels[c] == tracks[t].channels[c]);
            assert(!(e.track == t && e.channel == c)) by {
                if e.track == t && e.channel == c {
                    assert(events[events.len() - 1] == e);
                }
            }
        }
    }
}

/// Sorting the channels that events belong in leaves every such channel
/// in order, and the others as they are.
proof fn lemma_sorting_all(tracks: Seq<TrackView>, events: Seq<LocatedEvent>)
    ensures
        same_shape(sorting_all(tracks, events), tracks),
        forall|t: int, c: int|
            0 <= t < tracks.len() && 0 <= c < tracks[t].channels.len() && touches(events, t, c)
                ==> is_sorted(#[trigger] sorting_all(tracks, events)[t].channels[c]),
        forall|t: int, c: int|
            0 <= t < tracks.len() && 0 <= c < tracks[t].channels.len() && !touches(events, t, c)
                ==> (#[trigger] sorting_all(tracks, events)[t].channels[c]) == tracks[t].channels[c],
    decreases events.len(),
{
    if events.len() > 0 {
        let rest = events.drop_last();
        let e = events.last();
        lemma_sorting_all(tracks, rest);
        let before = sorting_all(tracks, rest);
        let after = sorting_all(tracks, events);
        assert forall|t: int, c: int|
            0 <= t < tracks.len() && 0 <= c < tracks[t].channels.len() implies (touches(
            events,
            t,
            c,
        ) ==> is_sorted(#[trigger] after[t].channels[c])) && (!touches(events, t, c)
            ==> after[t].channels[c] == tracks[t].channels[c]) by {
            if e.track == t && e.channel == c {
                assert(events[events.len() - 1] == e);
                assert(placed(before, e.track, e.channel));
                lemma_stable_sorted(channel_at(before, e.track, e.channel));
            } else {
                assert(after[t].channels[c] == before[t].channels[c]);
                if touches(events, t, c) {
                    let i = choose|i: int|
                        0 <= i < events.len() && (#[trigger] events[i]).track == t
                            && events[i].channel == c;
                    assert(rest[i] == events[i]);
                    assert(touches(rest, t, c));
                } else {
                    assert(!touches(rest, t, c)) by {
                        if touches(rest, t, c) {
                            let i = choose|i: int|
                                0 <= i < rest.len() && (#[trigger] rest[i]).track == t
                                    && rest[i].channel == c;
                            assert(events[i] == rest[i]);
                        }
                    }
                }
            }
        }
    }
}

/// Events that are added and sorted into their channels keep the tracks in
/// order.
pub proof fn lemma_added_sorted(tracks: Seq<TrackView>, events: Seq<LocatedEvent>)
    requires
        tracks_sorted(tracks),
    ensures
        tracks_sorted(sorting_all(inserting_all(tracks, events).0, events)),
        same_shape(sorting_all(inserting_all(tracks, events).0, events), tracks),
{
    let inserted = inserting_all(tracks, events).0;
    let after = sorting_all(inserted, events);
    lemma_inserting_all(tracks, events);
    lemma_sorting_all(inserted, events);
    assert forall|t: int| 0 <= t < after.len() implies track_sorted(#[trigger] after[t]) by {
        assert(track_sorted(tracks[t]));
        assert(inserted[t].channels.len() == tracks[t].channels.len());
        assert forall|c: int| 0 <= c < after[t].channels.len() implies is_sorted(
            #[trigger] after[t].channels[c],
        ) by {
            if !touches(events, t, c) {
                assert(after[t].channels[c] == inserted[t].channels[c]);
                assert(inserted[t].channels[c] == tracks[t].channels[c]);
            }
        }
    }
}

/// Shifting the events of a channel keeps the tracks in order.
proof fn lemma_shifting_sorted(tracks: Seq<TrackView>, coords: ChannelCoords, start: u32, distance: i64)
    requires
        tracks_sorted(tracks),
    ensures
        tracks_sorted(shifting(tracks, coords, start, distance).0),
        same_shape(shifting(tracks, coords, start, distance).0, tracks),
{
    if placed(tracks, coords.track as usize, coords.channel as usize) {
        let after = shifting(tracks, coords, start, distance).0;
        let events = after[coords.track as int].channels[coords.channel as int];
        lemma_stable_sorted(
            channel_at(tracks, coords.track as usize, coords.channel as usize).filter(
                crate::module::staying(start, distance),
            ).map_values(crate::module::moving(start, distance)),
        );
        lemma_with_channel_sorted(tracks, coords.track as usize, coords.channel as usize, events);
    }
}

/// Shifting the events of channels keeps the tracks in order.
pub proof fn lemma_shifting_all_sorted(
    tracks: Seq<TrackView>,
    channels: Seq<ChannelCoords>,
    start: u32,
    distance: i64,
)
    requires
        tracks_sorted(tracks),
    ensures
        tracks_sorted(shifting_all(tracks, channels, start, distance).0),
        same_shape(shifting_all(tracks, channels, start, distance).0, tracks),
    decreases channels.len(),
{
    if channels.len() > 0 {
        lemma_shifting_all_sorted(tracks, channels.drop_last(), start, distance);
        lemma_shifting_sorted(
            shifting_all(tracks, channels.drop_last(), start, distance).0,
            channels.last(),
            start,
            distance,
        );
    }
}

/// Replacing the data of an event keeps the tracks in order: the event
/// stays at its tick and in its column.
proof fn lemma_replacing_sorted(tracks: Seq<TrackView>, e: LocatedEvent)
    requires
        tracks_sorted(tracks),
    ensures
        tracks_sorted(replacing(tracks, e).0),
        same_shape(replacing(tracks, e).0, tracks),
{
    if let Some(k) = event_index(tracks, e.spec_position()) {
        let events = channel_at(tracks, e.track, e.channel);
        lemma_find_event(events, e.event.tick, e.event.data.spec_logical_column(), 0);
        let new = Event { data: e.event.data, ..events[k] };
        let after = events.update(k, new);
        assert(track_sorted(tracks[e.track as int]));
        assert(spec_sort_key(new) == spec_sort_key(events[k]));
        assert forall|a: int, b: int| 0 <= a <= b < after.len() implies spec_sort_key(
            #[trigger] after[a],
        ) <= spec_sort_key(#[trigger] after[b]) by {
            assert(spec_sort_key(after[a]) == spec_sort_key(events[a]));
            assert(spec_sort_key(after[b]) == spec_sort_key(events[b]));
        }
        lemma_with_channel_sorted(tracks, e.track, e.channel, after);
    }
}

/// Replacing the data of events keeps the tracks in order.
pub proof fn lemma_replacing_all_sorted(tracks: Seq<TrackView>, events: Seq<LocatedEvent>)
    requires
        tracks_sorted(tracks),
    ensures
        tracks_sorted(replacing_all(tracks, events).0),
        same_shape(replacing_all(tracks, events).0, tracks),
    decreases events.len(),
{
    if events.len() > 0 {
        lemma_replacing_all_sorted(tracks, events.drop_last());
        lemma_replacing_sorted(replacing_all(tracks, events.drop_last()).0, events.last());
    }
}

/// An edit keeps the channels in order, and the edit that reverses it
/// brings back only what is in order.
pub proof fn lemma_flipped_in_order(m: ModuleView, edit: EditView)
    requires
        tracks_sorted(m.tracks),
        edit_sorted(edit),
    ensures
        tracks_sorted(m.flipped(edit).0.tracks),
        edit_sorted(m.flipped(edit).1),
        m.flipped(edit).0.undo_stack == m.undo_stack,
        m.flipped(edit).0.redo_stack == m.redo_stack,
{
    let after = m.flipped(edit).0.tracks;
    match edit {
        EditView::InsertTrack(index, track) => {
            if index <= m.tracks.len() {
                assert forall|t: int| 0 <= t < after.len() implies track_sorted(
                    #[trigger] after[t],
                ) by {
                    if t < index {
                        assert(after[t] == m.tracks[t]);
                    } else if t > index {
                        assert(after[t] == m.tracks[t - 1]);
                    }
                }
            }
        },
        EditView::RemoveTrack(index) => {
            if index < m.tracks.len() {
                assert(track_sorted(m.tracks[index as int]));
                assert forall|t: int| 0 <= t < after.len() implies track_sorted(
                    #[trigger] after[t],
                ) by {
                    if t < index {
                        assert(after[t] == m.tracks[t]);
                    } else {
                        assert(after[t] == m.tracks[t + 1]);
                    }
                }
            }
        },
        EditView::RemapTrack(index, target) => {
            assert forall|t: int| 0 <= t < after.len() implies track_sorted(#[trigger] after[t]) by {
                assert(track_sorted(m.tracks[t]));
                assert(after[t].channels == m.tracks[t].channels);
            }
        },
        EditView::AddChannel(index, channel) => {
            assert forall|t: int| 0 <= t < after.len() implies track_sorted(#[trigger] after[t]) by {
                assert(track_sorted(m.tracks[t]));
                assert forall|c: int| 0 <= c < after[t].channels.len() implies is_sorted(
                    #[trigger] after[t].channels[c],
                ) by {
                    if c < m.tracks[t].channels.len() {
                        assert(after[t].channels[c] == m.tracks[t].channels[c]);
                    }
                }
            }
        },
        EditView::RemoveChannel(index) => {
            assert forall|t: int| 0 <= t < after.len() implies track_sorted(#[trigger] after[t]) by {
                assert(track_sorted(m.tracks[t]));
                assert forall|c: int| 0 <= c < after[t].channels.len() implies is_sorted(
                    #[trigger] after[t].channels[c],
                ) by {
                    assert(after[t].channels[c] == m.tracks[t].channels[c]);
                }
            }
            if index < m.tracks.len() && m.tracks[index as int].channels.len() > 0 {
                assert(track_sorted(m.tracks[index as int]));
                let channels = m.tracks[index as int].channels;
                assert(is_sorted(channels[channels.len() - 1]));
            }
        },
        EditView::PatternData { remove, add } => {
            lemma_deleting_all_sorted(m.tracks, remove);
            lemma_added_sorted(deleting_all(m.tracks, remove).0, add);
        },
        EditView::InsertPatch(index, patch) => {},
        EditView::RemovePatch(index) => {
            if index < m.patches.len() {
                let renumbered = tracks_without_patch(m.tracks, index);
                assert forall|t: int| 0 <= t < renumbered.len() implies track_sorted(
                    #[trigger] renumbered[t],
                ) by {
                    assert(track_sorted(m.tracks[t]));
                    assert(renumbered[t].channels == m.tracks[t].channels);
                }
            }
        },
        EditView::ShiftEvents { channels, start, distance, insert } => {
            lemma_shifting_all_sorted(m.tracks, channels, start, distance);
            lemma_added_sorted(shifting_all(m.tracks, channels, start, distance).0, insert);
        },
        EditView::ReplaceEvents(events) => {
            lemma_replacing_all_sorted(m.tracks, events);
        },
    }
}

/// Edits, undone and redone, keep a module in order.
pub proof fn lemma_edits_keep_order(m: ModuleView, edit: EditView)
    requires
        m.in_order(),
        edit_sorted(edit),
    ensures
        m.push_edit(edit).in_order(),
        m.undo().in_order(),
        m.redo().in_order(),
{
    lemma_flipped_in_order(m, edit);
    if m.undo_stack.len() > 0 {
        let before = ModuleView { undo_stack: m.undo_stack.drop_last(), ..m };
        assert(edit_sorted(m.undo_stack[m.undo_stack.len() - 1]));
        lemma_flipped_in_order(before, m.undo_stack.last());
        assert forall|i: int| 0 <= i < before.undo_stack.len() implies edit_sorted(
            #[trigger] before.undo_stack[i],
        ) by {
            assert(before.undo_stack[i] == m.undo_stack[i]);
        }
    }
    if m.redo_stack.len() > 0 {
        let before = ModuleView { redo_stack: m.redo_stack.drop_last(), ..m };
        assert(edit_sorted(m.redo_stack[m.redo_stack.len() - 1]));
        lemma_flipped_in_order(before, m.redo_stack.last());
        assert forall|i: int| 0 <= i < before.redo_stack.len() implies edit_sorted(
            #[trigger] before.redo_stack[i],
        ) by {
            assert(before.redo_stack[i] == m.redo_stack[i]);
        }
    }
}

} // verus!
