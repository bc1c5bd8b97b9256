//! The edits of a module and their log.
//!
//! Every change to the data of a module is an [`Edit`]. Carrying one out
//! gives back the edit that reverses it, which goes on the undo stack. An
//! edit that names a track, channel or patch that does not exist changes
//! nothing and is given back as it came.

use crate::fx::FXSettings;
use crate::module::{
    between, leaving, moving, sort_events, stable_sorted, staying, tracks_view, ChannelCoords,
    Edit, EditView, Event, KitEntry, LocatedEvent, Module, ModuleView, Position, Track, TrackEdit,
    TrackTarget, TrackView,
};
use crate::order::{edit_sorted, lemma_edits_keep_order};
use crate::settings::{reindex, spec_reindex, Patch, PatchView, SettingsView};
use vstd::prelude::*;

verus! {

/// Whether the module has the channel.
pub open spec fn placed(tracks: Seq<TrackView>, track: usize, channel: usize) -> bool {
    track < tracks.len() && channel < tracks[track as int].channels.len()
}

/// The events of a channel.
pub open spec fn channel_at(tracks: Seq<TrackView>, track: usize, channel: usize) -> Seq<Event> {
    tracks[track as int].channels[channel as int]
}

/// The tracks with the events of one channel replaced.
pub open spec fn with_channel(
    tracks: Seq<TrackView>,
    track: usize,
    channel: usize,
    events: Seq<Event>,
) -> Seq<TrackView> {
    tracks.update(
        track as int,
        TrackView {
            channels: tracks[track as int].channels.update(channel as int, events),
            ..tracks[track as int]
        },
    )
}

/// The index of the first event from index `k` on that is at `tick` in the
/// logical column `column`.
pub open spec fn find_event(events: Seq<Event>, tick: u32, column: u8, k: int) -> Option<int>
    decreases events.len() - k,
{
    if k < 0 || k >= events.len() {
        None
    } else if events[k].tick == tick && events[k].data.spec_logical_column() == column {
        Some(k)
    } else {
        find_event(events, tick, column, k + 1)
    }
}

/// The index of the event at a position, if the module has one there.
pub open spec fn event_index(tracks: Seq<TrackView>, pos: Position) -> Option<int> {
    if placed(tracks, pos.track, pos.channel) {
        find_event(channel_at(tracks, pos.track, pos.channel), pos.tick, pos.column, 0)
    } else {
        None
    }
}

/// The tracks without the event at a position, and that event.
pub open spec fn deleting(tracks: Seq<TrackView>, pos: Position) -> (Seq<TrackView>, Option<Event>) {
    match event_index(tracks, pos) {
        Some(k) => (
            with_channel(
                tracks,
                pos.track,
                pos.channel,
                channel_at(tracks, pos.track, pos.channel).remove(k),
            ),
            Some(channel_at(tracks, pos.track, pos.channel)[k]),
        ),
        None => (tracks, None),
    }
}

/// The tracks without the events at the positions, taken out one after the
/// other, and the events that were found, each at the place it was asked
/// for.
pub open spec fn deleting_all(tracks: Seq<TrackView>, positions: Seq<Position>) -> (
    Seq<TrackView>,
    Seq<LocatedEvent>,
)
    decreases positions.len(),
{
    if positions.len() == 0 {
        (tracks, Seq::empty())
    } else {
        let before = deleting_all(tracks, positions.drop_last());
        let p = positions.last();
        match deleting(before.0, p).1 {
            Some(event) => (
                deleting(before.0, p).0,
                before.1.push(LocatedEvent { track: p.track, channel: p.channel, event }),
            ),
            None => before,
        }
    }
}

/// The tracks with the event added at the end of its channel, if the
/// module has that channel.
pub open spec fn inserting(tracks: Seq<TrackView>, e: LocatedEvent) -> Seq<TrackView> {
    if placed(tracks, e.track, e.channel) {
        with_channel(tracks, e.track, e.channel, channel_at(tracks, e.track, e.channel).push(e.event))
    } else {
        tracks
    }
}

/// The tracks with the events added, each at the end of its channel, and
/// the positions of those that the module has a channel for.
pub open spec fn inserting_all(tracks: Seq<TrackView>, events: Seq<LocatedEvent>) -> (
    Seq<TrackView>,
    Seq<Position>,
)
    decreases events.len(),
{
    if events.len() == 0 {
        (tracks, Seq::empty())
    } else {
        let before = inserting_all(tracks, events.drop_last());
        let e = events.last();
        if placed(before.0, e.track, e.channel) {
            (inserting(before.0, e), before.1.push(e.spec_position()))
        } else {
            before
        }
    }
}

/// The tracks with the channel of the event sorted.
pub open spec fn sorting(tracks: Seq<TrackView>, e: LocatedEvent) -> Seq<TrackView> {
    if placed(tracks, e.track, e.channel) {
        with_channel(
            tracks,
            e.track,
            e.channel,
            stable_sorted(channel_at(tracks, e.track, e.channel)),
        )
    } else {
        tracks
    }
}

/// The tracks with the channel of each of the events sorted.
pub open spec fn sorting_all(tracks: Seq<TrackView>, events: Seq<LocatedEvent>) -> Seq<TrackView>
    decreases events.len(),
{
    if events.len() == 0 {
        tracks
    } else {
        sorting(sorting_all(tracks, events.drop_last()), events.last())
    }
}

/// The events, each at the place of the channel.
pub open spec fn at_coords(coords: ChannelCoords) -> spec_fn(Event) -> LocatedEvent {
    |event: Event|
        LocatedEvent { track: coords.track as usize, channel: coords.channel as usize, event }
}

/// The tracks with the events of one channel shifted, and the events that
/// this deleted.
pub open spec fn shifting(
    tracks: Seq<TrackView>,
    coords: ChannelCoords,
    start: u32,
    distance: i64,
) -> (Seq<TrackView>, Seq<LocatedEvent>) {
    if placed(tracks, coords.track as usize, coords.channel as usize) {
        let events = channel_at(tracks, coords.track as usize, coords.channel as usize);
        (
            with_channel(
                tracks,
                coords.track as usize,
                coords.channel as usize,
                stable_sorted(
                    events.filter(staying(start, distance)).map_values(moving(start, distance)),
                ),
            ),
            events.filter(leaving(start, distance)).map_values(at_coords(coords)),
        )
    } else {
        (tracks, Seq::empty())
    }
}

/// The tracks with the events of the channels shifted, channel after
/// channel, and the events that this deleted.
pub open spec fn shifting_all(
    tracks: Seq<TrackView>,
    channels: Seq<ChannelCoords>,
    start: u32,
    distance: i64,
) -> (Seq<TrackView>, Seq<LocatedEvent>)
    decreases channels.len(),
{
    if channels.len() == 0 {
        (tracks, Seq::empty())
    } else {
        let before = shifting_all(tracks, channels.drop_last(), start, distance);
        let step = shifting(before.0, channels.last(), start, distance);
        (step.0, before.1 + step.1)
    }
}

/// The tracks with the data of the event at the position of `e` replaced
/// by that of `e`, and the event with the data that was there. Where the
/// module has no event there, nothing changes and `e` comes back.
pub open spec fn replacing(tracks: Seq<TrackView>, e: LocatedEvent) -> (Seq<TrackView>, LocatedEvent) {
    match event_index(tracks, e.spec_position()) {
        Some(k) => (
            with_channel(
                tracks,
                e.track,
                e.channel,
                channel_at(tracks, e.track, e.channel).update(
                    k,
                    Event { data: e.event.data, ..channel_at(tracks, e.track, e.channel)[k] },
                ),
            ),
            LocatedEvent { event: channel_at(tracks, e.track, e.channel)[k], ..e },
        ),
        None => (tracks, e),
    }
}

/// The tracks with the events replaced one after the other, and what each
/// gave back.
pub open spec fn replacing_all(tracks: Seq<TrackView>, events: Seq<LocatedEvent>) -> (
    Seq<TrackView>,
    Seq<LocatedEvent>,
)
    decreases events.len(),
{
    if events.len() == 0 {
        (tracks, Seq::empty())
    } else {
        let before = replacing_all(tracks, events.drop_last());
        let step = replacing(before.0, events.last());
        (step.0, before.1.push(step.1))
    }
}

/// The kit entry once patch `k` is gone; `None` if it mapped to patch `k`.
pub open spec fn kit_without_patch(k: usize) -> spec_fn(KitEntry) -> Option<KitEntry> {
    |e: KitEntry|
        match spec_reindex(e.patch_index, k) {
            Some(i) => Some(KitEntry { patch_index: i, ..e }),
            None => None,
        }
}

/// The target of a track once patch `k` is gone: a track that played it
/// plays nothing.
pub open spec fn spec_target_without_patch(target: TrackTarget, k: usize) -> TrackTarget {
    match target {
        TrackTarget::Patch(i) => match spec_reindex(i, k) {
            Some(j) => TrackTarget::Patch(j),
            None => TrackTarget::Silent,
        },
        _ => target,
    }
}

#[verifier::when_used_as_spec(spec_target_without_patch)]
pub fn target_without_patch(target: TrackTarget, k: usize) -> (t: TrackTarget)
    ensures
        t == spec_target_without_patch(target, k),
{
    match target {
        TrackTarget::Patch(i) => match reindex(i, k) {
            Some(j) => TrackTarget::Patch(j),
            None => TrackTarget::Silent,
        },
        _ => target,
    }
}

/// The opposite distance, or the greatest distance there is for the
/// opposite of the least.
pub open spec fn spec_opposite(distance: i64) -> i64 {
    if distance == i64::MIN {
        i64::MAX
    } else {
        (-distance) as i64
    }
}

#[verifier::when_used_as_spec(spec_opposite)]
pub fn opposite(distance: i64) -> (d: i64)
    ensures
        d == spec_opposite(distance),
{
    if distance == i64::MIN {
        i64::MAX
    } else {
        -distance
    }
}

proof fn lemma_with_channel(tracks: Seq<Track>, before: Seq<Track>, track: usize, channel: usize)
    requires
        placed(tracks_view(before), track, channel),
        tracks.len() == before.len(),
        forall|i: int| 0 <= i < tracks.len() && i != track ==> tracks[i] == before[i],
        tracks[track as int].target == before[track as int].target,
        tracks[track as int].channels@.len() == before[track as int].channels@.len(),
        forall|j: int|
            0 <= j < tracks[track as int].channels@.len() && j != channel
                ==> tracks[track as int].channels@[j] == before[track as int].channels@[j],
    ensures
        tracks_view(tracks) == with_channel(
            tracks_view(before),
            track,
            channel,
            tracks[track as int].channels@[channel as int]@,
        ),
{
    let want = with_channel(
        tracks_view(before),
        track,
        channel,
        tracks[track as int].channels@[channel as int]@,
    );
    assert forall|i: int| 0 <= i < tracks.len() implies tracks_view(tracks)[i] == want[i] by {
        if i == track {
            assert(tracks_view(tracks)[i].channels =~= want[i].channels);
        }
    }
}

/// Index of the event at `tick` in the logical column `column`.
pub fn find_event_index(events: &Vec<Event>, tick: u32, column: u8) -> (r: Option<usize>)
    ensures
        r is Some <==> find_event(events@, tick, column, 0) is Some,
        r is Some ==> r.unwrap() == find_event(events@, tick, column, 0).unwrap(),
        r is Some ==> r.unwrap() < events@.len(),
{
    let n: usize = events.len();
    let mut k: usize = 0;
    while k < n
        invariant
            k <= n,
            n == events@.len(),
            find_event(events@, tick, column, 0) == find_event(events@, tick, column, k as int),
        decreases n - k,
    {
        if events[k].tick == tick && events[k].data.logical_column() == column {
            return Some(k);
        }
        k += 1;
    }
    None
}

/// Takes the event at a position out of its channel.
pub fn delete_event(tracks: &mut Vec<Track>, pos: Position) -> (r: Option<Event>)
    ensures
        (tracks_view(final(tracks)@), r) == deleting(tracks_view(old(tracks)@), pos),
{
    if pos.track < tracks.len() && pos.channel < tracks[pos.track].channels.len() {
        match find_event_index(&tracks[pos.track].channels[pos.channel].events, pos.tick, pos.column) {
            Some(k) => {
                let event = tracks[pos.track].channels[pos.channel].events.remove(k);
                proof {
                    lemma_with_channel(tracks@, old(tracks)@, pos.track, pos.channel);
                }
                Some(event)
            },
            None => None,
        }
    } else {
        None
    }
}

/// Adds the event at the end of its channel, if there is that channel.
pub fn push_event(tracks: &mut Vec<Track>, e: LocatedEvent) -> (r: bool)
    ensures
        r == placed(tracks_view(old(tracks)@), e.track, e.channel),
        tracks_view(final(tracks)@) == inserting(tracks_view(old(tracks)@), e),
{
    if e.track < tracks.len() && e.channel < tracks[e.track].channels.len() {
        tracks[e.track].channels[e.channel].events.push(e.event);
        proof {
            lemma_with_channel(tracks@, old(tracks)@, e.track, e.channel);
        }
        true
    } else {
        false
    }
}

/// Sorts the channel of the event, if there is that channel.
pub fn sort_channel(tracks: &mut Vec<Track>, e: LocatedEvent)
    ensures
        tracks_view(final(tracks)@) == sorting(tracks_view(old(tracks)@), e),
{
    if e.track < tracks.len() && e.channel < tracks[e.track].channels.len() {
        sort_events(&mut tracks[e.track].channels[e.channel].events);
        proof {
            lemma_with_channel(tracks@, old(tracks)@, e.track, e.channel);
        }
    }
}

/// Replaces the data of the event at the position of `e` by that of `e`.
pub fn replace_event(tracks: &mut Vec<Track>, e: LocatedEvent) -> (r: LocatedEvent)
    ensures
        (tracks_view(final(tracks)@), r) == replacing(tracks_view(old(tracks)@), e),
{
    let pos = e.position();
    if pos.track < tracks.len() && pos.channel < tracks[pos.track].channels.len() {
        match find_event_index(&tracks[pos.track].channels[pos.channel].events, pos.tick, pos.column) {
            Some(k) => {
                let was = tracks[pos.track].channels[pos.channel].events[k];
                tracks[pos.track].channels[pos.channel].events[k] = Event {
                    tick: was.tick,
                    data: e.event.data,
                };
                proof {
                    lemma_with_channel(tracks@, old(tracks)@, pos.track, pos.channel);
                }
                LocatedEvent { track: e.track, channel: e.channel, event: was }
            },
            None => e,
        }
    } else {
        e
    }
}

/// Shifts the events of one channel and returns those that this deleted.
pub fn shift_channel(tracks: &mut Vec<Track>, coords: ChannelCoords, start: u32, distance: i64) -> (r:
    Vec<LocatedEvent>)
    ensures
        (tracks_view(final(tracks)@), r@) == shifting(
            tracks_view(old(tracks)@),
            coords,
            start,
            distance,
        ),
{
    let track = coords.track as usize;
    let channel = coords.channel as usize;
    let mut located: Vec<LocatedEvent> = Vec::new();
    if track < tracks.len() && channel < tracks[track].channels.len() {
        let deleted = tracks[track].channels[channel].shift_events(start, distance);
        proof {
            lemma_with_channel(tracks@, old(tracks)@, track, channel);
        }
        let n: usize = deleted.len();
        let mut k: usize = 0;
        while k < n
            invariant
                k <= n,
                n == deleted@.len(),
                track == coords.track as usize,
                channel == coords.channel as usize,
                located@ == deleted@.take(k as int).map_values(at_coords(coords)),
            decreases n - k,
        {
            located.push(LocatedEvent { track, channel, event: deleted[k] });
            k += 1;
        }
    }
    located
}


/// Takes the events at the positions out of their channels, one after the
/// other, and returns those that were found.
pub fn delete_all(tracks: &mut Vec<Track>, positions: &Vec<Position>) -> (found: Vec<LocatedEvent>)
    ensures
        (tracks_view(final(tracks)@), found@) == deleting_all(
            tracks_view(old(tracks)@),
            positions@,
        ),
{
    let mut found: Vec<LocatedEvent> = Vec::new();
    let n: usize = positions.len();
    let mut k: usize = 0;
    while k < n
        invariant
            k <= n,
            n == positions@.len(),
            (tracks_view(tracks@), found@) == deleting_all(
                tracks_view(old(tracks)@),
                positions@.take(k as int),
            ),
        decreases n - k,
    {
        assert(positions@.take(k + 1).drop_last() =~= positions@.take(k as int));
        let p = positions[k];
        if let Some(event) = delete_event(tracks, p) {
            found.push(LocatedEvent { track: p.track, channel: p.channel, event });
        }
        k += 1;
    }
    assert(positions@.take(n as int) == positions@);
    found
}

/// Adds the events, each at the end of its channel, and returns the
/// positions of those that there is a channel for.
pub fn insert_all(tracks: &mut Vec<Track>, events: &Vec<LocatedEvent>) -> (positions: Vec<Position>)
    ensures
        (tracks_view(final(tracks)@), positions@) == inserting_all(
            tracks_view(old(tracks)@),
            events@,
        ),
{
    let mut positions: Vec<Position> = Vec::new();
    let n: usize = events.len();
    let mut k: usize = 0;
    while k < n
        invariant
            k <= n,
            n == events@.len(),
            (tracks_view(tracks@), positions@) == inserting_all(
                tracks_view(old(tracks)@),
                events@.take(k as int),
            ),
        decreases n - k,
    {
        assert(events@.take(k + 1).drop_last() =~= events@.take(k as int));
        let e = events[k];
        if push_event(tracks, e) {
            positions.push(e.position());
        }
        k += 1;
    }
    assert(events@.take(n as int) == events@);
    positions
}

/// Sorts the channel of each of the events.
pub fn sort_all(tracks: &mut Vec<Track>, events: &Vec<LocatedEvent>)
    ensures
        tracks_view(final(tracks)@) == sorting_all(tracks_view(old(tracks)@), events@),
{
    let n: usize = events.len();
    let mut k: usize = 0;
    while k < n
        invariant
            k <= n,
            n == events@.len(),
            tracks_view(tracks@) == sorting_all(tracks_view(old(tracks)@), events@.take(k as int)),
        decreases n - k,
    {
        assert(events@.take(k + 1).drop_last() =~= events@.take(k as int));
        sort_channel(tracks, events[k]);
        k += 1;
    }
    assert(events@.take(n as int) == events@);
}

/// Shifts the events of the channels, channel after channel, and returns
/// the events that this deleted.
pub fn shift_all(
    tracks: &mut Vec<Track>,
    channels: &Vec<ChannelCoords>,
    start: u32,
    distance: i64,
) -> (deleted: Vec<LocatedEvent>)
    ensures
        (tracks_view(final(tracks)@), deleted@) == shifting_all(
            tracks_view(old(tracks)@),
            channels@,
            start,
            distance,
        ),
{
    let mut deleted: Vec<LocatedEvent> = Vec::new();
    let n: usize = channels.len();
    let mut k: usize = 0;
    while k < n
        invariant
            k <= n,
            n == channels@.len(),
            (tracks_view(tracks@), deleted@) == shifting_all(
                tracks_view(old(tracks)@),
                channels@.take(k as int),
                start,
                distance,
            ),
        decreases n - k,
    {
        assert(channels@.take(k + 1).drop_last() =~= channels@.take(k as int));
        let mut step = shift_channel(tracks, channels[k], start, distance);
        deleted.append(&mut step);
        k += 1;
    }
    assert(channels@.take(n as int) == channels@);
    deleted
}

/// Replaces events one after the other and returns what each gave back.
pub fn replace_all(tracks: &mut Vec<Track>, events: &Vec<LocatedEvent>) -> (was: Vec<LocatedEvent>)
    ensures
        (tracks_view(final(tracks)@), was@) == replacing_all(tracks_view(old(tracks)@), events@),
{
    let mut was: Vec<LocatedEvent> = Vec::new();
    let n: usize = events.len();
    let mut k: usize = 0;
    while k < n
        invariant
            k <= n,
            n == events@.len(),
            (tracks_view(tracks@), was@) == replacing_all(
                tracks_view(old(tracks)@),
                events@.take(k as int),
            ),
        decreases n - k,
    {
        assert(events@.take(k + 1).drop_last() =~= events@.take(k as int));
        let r = replace_event(tracks, events[k]);
        was.push(r);
        k += 1;
    }
    assert(events@.take(n as int) == events@);
    was
}

/// The tracks once patch `k` is gone.
pub open spec fn tracks_without_patch(tracks: Seq<TrackView>, k: usize) -> Seq<TrackView> {
    Seq::new(
        tracks.len(),
        |i: int| TrackView { target: spec_target_without_patch(tracks[i].target, k), ..tracks[i] },
    )
}

/// Drops the kit entries that map to patch `index` and renumbers those
/// that map to the patches behind it.
pub fn kit_without(kit: &mut Vec<KitEntry>, index: usize)
    ensures
        final(kit)@ == old(kit)@.filter_map(kit_without_patch(index)),
{
    let mut kept: Vec<KitEntry> = Vec::new();
    let n: usize = kit.len();
    let mut k: usize = 0;
    while k < n
        invariant
            k <= n,
            n == kit@.len(),
            kit@ == old(kit)@,
            kept@ == kit@.take(k as int).filter_map(kit_without_patch(index)),
        decreases n - k,
    {
        proof {
            kit@.lemma_filter_map_take_succ(kit_without_patch(index), k as int);
        }
        let e = kit[k];
        if let Some(i) = reindex(e.patch_index, index) {
            kept.push(KitEntry { input_note: e.input_note, patch_index: i, patch_note: e.patch_note });
        }
        k += 1;
    }
    assert(kit@.take(n as int) == kit@);
    *kit = kept;
}

/// Renumbers the targets of the tracks for the removal of patch `index`.
pub fn retarget(tracks: &mut Vec<Track>, index: usize)
    ensures
        tracks_view(final(tracks)@) == tracks_without_patch(tracks_view(old(tracks)@), index),
{
    let n: usize = tracks.len();
    let mut k: usize = 0;
    while k < n
        invariant
            k <= n,
            n == tracks@.len(),
            n == old(tracks)@.len(),
            forall|i: int|
                0 <= i < k ==> (#[trigger] tracks@[i])@ == (TrackView {
                    target: spec_target_without_patch(old(tracks)@[i].target, index),
                    ..old(tracks)@[i]@
                }),
            forall|i: int| k <= i < n ==> tracks@[i] == old(tracks)@[i],
        decreases n - k,
    {
        let target = target_without_patch(tracks[k].target, index);
        tracks[k].target = target;
        k += 1;
    }
}

impl ModuleView {
    /// A module with one patch and three tracks: the control track, one
    /// that plays the kit and one that plays the patch.
    pub open spec fn initial(fx: FXSettings) -> ModuleView {
        ModuleView {
            title: Seq::empty(),
            author: Seq::empty(),
            fx,
            kit: Seq::empty(),
            patches: seq![PatchView { name: "Init"@, settings: SettingsView::initial() }],
            tracks: seq![
                TrackView { target: TrackTarget::Global, channels: seq![Seq::<Event>::empty()] },
                TrackView { target: TrackTarget::Kit, channels: seq![Seq::<Event>::empty()] },
                TrackView { target: TrackTarget::Patch(0), channels: seq![Seq::<Event>::empty()] },
            ],
            division: 4,
            undo_stack: Seq::empty(),
            redo_stack: Seq::empty(),
            track_history: Seq::empty(),
            has_unsaved_changes: false,
        }
    }

    /// The module without patch `index`: the kit entries that mapped to it
    /// are gone, the tracks that played it play nothing, and what referred
    /// to the patches behind it is renumbered.
    pub open spec fn without_patch(self, index: usize) -> ModuleView {
        ModuleView {
            patches: self.patches.remove(index as int),
            kit: self.kit.filter_map(kit_without_patch(index)),
            tracks: tracks_without_patch(self.tracks, index),
            ..self
        }
    }

    /// The module after the edit was carried out, and the edit that
    /// reverses it. An edit that names a track or patch that does not
    /// exist changes nothing but the mark of unsaved changes, and comes
    /// back as it is.
    pub open spec fn flipped(self, edit: EditView) -> (ModuleView, EditView) {
        let m = ModuleView { has_unsaved_changes: true, ..self };
        match edit {
            EditView::InsertTrack(index, track) => if index <= m.tracks.len() {
                (
                    ModuleView {
                        tracks: m.tracks.insert(index as int, track),
                        track_history: m.track_history.push(TrackEdit::Insert(index)),
                        ..m
                    },
                    EditView::RemoveTrack(m.tracks.len() as usize),
                )
            } else {
                (m, edit)
            },
            EditView::RemoveTrack(index) => if index < m.tracks.len() {
                (
                    ModuleView {
                        tracks: m.tracks.remove(index as int),
                        track_history: m.track_history.push(TrackEdit::Remove(index)),
                        ..m
                    },
                    EditView::InsertTrack(index, m.tracks[index as int]),
                )
            } else {
                (m, edit)
            },
            EditView::RemapTrack(index, target) => if index < m.tracks.len() {
                (
                    ModuleView {
                        tracks: m.tracks.update(
                            index as int,
                            TrackView { target, ..m.tracks[index as int] },
                        ),
                        ..m
                    },
                    EditView::RemapTrack(index, m.tracks[index as int].target),
                )
            } else {
                (m, edit)
            },
            EditView::AddChannel(index, channel) => if index < m.tracks.len() {
                (
                    ModuleView {
                        tracks: m.tracks.update(
                            index as int,
                            TrackView {
                                channels: m.tracks[index as int].channels.push(channel),
                                ..m.tracks[index as int]
                            },
                        ),
                        ..m
                    },
                    EditView::RemoveChannel(index),
                )
            } else {
                (m, edit)
            },
            EditView::RemoveChannel(index) => if index < m.tracks.len()
                && m.tracks[index as int].channels.len() > 0 {
                (
                    ModuleView {
                        tracks: m.tracks.update(
                            index as int,
                            TrackView {
                                channels: m.tracks[index as int].channels.drop_last(),
                                ..m.tracks[index as int]
                            },
                        ),
                        ..m
                    },
                    EditView::AddChannel(index, m.tracks[index as int].channels.last()),
                )
            } else {
                (m, edit)
            },
            EditView::PatternData { remove, add } => {
                let deleted = deleting_all(m.tracks, remove);
                let inserted = inserting_all(deleted.0, add);
                (
                    ModuleView { tracks: sorting_all(inserted.0, add), ..m },
                    EditView::PatternData { remove: inserted.1, add: deleted.1 },
                )
            },
            EditView::InsertPatch(index, patch) => if index <= m.patches.len() {
                (
                    ModuleView { patches: m.patches.insert(index as int, patch), ..m },
                    EditView::RemovePatch(index),
                )
            } else {
                (m, edit)
            },
            EditView::RemovePatch(index) => if index < m.patches.len() {
                (m.without_patch(index), EditView::InsertPatch(index, m.patches[index as int]))
            } else {
                (m, edit)
            },
            EditView::ShiftEvents { channels, start, distance, insert } => {
                let shifted = shifting_all(m.tracks, channels, start, distance);
                let inserted = inserting_all(shifted.0, insert);
                (
                    ModuleView { tracks: sorting_all(inserted.0, insert), ..m },
                    EditView::ShiftEvents {
                        channels,
                        start,
                        distance: spec_opposite(distance),
                        insert: shifted.1,
                    },
                )
            },
            EditView::ReplaceEvents(events) => {
                let replaced = replacing_all(m.tracks, events);
                (ModuleView { tracks: replaced.0, ..m }, EditView::ReplaceEvents(replaced.1))
            },
        }
    }

    /// The module after an edit was carried out and logged: its reverse is
    /// on the undo stack, and nothing is left to redo.
    pub open spec fn push_edit(self, edit: EditView) -> ModuleView {
        ModuleView {
            undo_stack: self.flipped(edit).0.undo_stack.push(self.flipped(edit).1),
            redo_stack: Seq::empty(),
            ..self.flipped(edit).0
        }
    }

    /// The module after the last edit was undone, if there is one.
    pub open spec fn undo(self) -> ModuleView {
        if self.undo_stack.len() > 0 {
            let m = ModuleView { undo_stack: self.undo_stack.drop_last(), ..self };
            let flipped = m.flipped(self.undo_stack.last());
            ModuleView { redo_stack: flipped.0.redo_stack.push(flipped.1), ..flipped.0 }
        } else {
            self
        }
    }

    /// The module after the last edit that was undone was carried out
    /// again, if there is one.
    pub open spec fn redo(self) -> ModuleView {
        if self.redo_stack.len() > 0 {
            let m = ModuleView { redo_stack: self.redo_stack.drop_last(), ..self };
            let flipped = m.flipped(self.redo_stack.last());
            ModuleView { undo_stack: flipped.0.undo_stack.push(flipped.1), ..flipped.0 }
        } else {
            self
        }
    }
}

impl Module {
    pub fn new(fx: FXSettings) -> (m: Module)
        ensures
            m@ == ModuleView::initial(fx),
            m@.in_order(),
    {
        let m = Module {
            title: String::new(),
            author: String::new(),
            fx,
            kit: Vec::new(),
            patches: vec![Patch::new("Init".to_owned())],
            tracks: vec![
                Track::new(TrackTarget::Global),
                Track::new(TrackTarget::Kit),
                Track::new(TrackTarget::Patch(0)),
            ],
            division: 4,
            undo_stack: Vec::new(),
            redo_stack: Vec::new(),
            track_history: Vec::new(),
            has_unsaved_changes: false,
        };
        assert(m@.patches =~= ModuleView::initial(fx).patches);
        assert(m@.tracks =~= ModuleView::initial(fx).tracks);
        assert(m@.undo_stack =~= Seq::empty());
        m
    }

    /// Takes patch `index` out of the module and returns it.
    pub fn remove_patch(&mut self, index: usize) -> (patch: Patch)
        requires
            index < old(self)@.patches.len(),
        ensures
            final(self)@ == old(self)@.without_patch(index),
            patch@ == old(self)@.patches[index as int],
    {
        let patch = self.patches.remove(index);
        kit_without(&mut self.kit, index);
        retarget(&mut self.tracks, index);
        assert(self@.patches =~= old(self)@.patches.remove(index as int));
        patch
    }

    /// Performs an edit operation and returns its inverse.
    pub fn flip_edit(&mut self, edit: Edit) -> (inverse: Edit)
        ensures
            (final(self)@, inverse@) == old(self)@.flipped(edit@),
    {
        self.has_unsaved_changes = true;
        let ghost m = self@;
        match edit {
            Edit::InsertTrack(index, track) => {
                if index <= self.tracks.len() {
                    let last = self.tracks.len();
                    let ghost added = track@;
                    self.tracks.insert(index, track);
                    self.track_history.push(TrackEdit::Insert(index));
                    assert(self@.tracks =~= m.tracks.insert(index as int, added));
                    Edit::RemoveTrack(last)
                } else {
                    Edit::InsertTrack(index, track)
                }
            },
            Edit::RemoveTrack(index) => {
                if index < self.tracks.len() {
                    let track = self.tracks.remove(index);
                    self.track_history.push(TrackEdit::Remove(index));
                    assert(self@.tracks =~= m.tracks.remove(index as int));
                    Edit::InsertTrack(index, track)
                } else {
                    Edit::RemoveTrack(index)
                }
            },
            Edit::RemapTrack(index, target) => {
                if index < self.tracks.len() {
                    let was = self.tracks[index].target;
                    self.tracks[index].target = target;
                    assert(self@.tracks =~= m.tracks.update(
                        index as int,
                        TrackView { target, ..m.tracks[index as int] },
                    ));
                    Edit::RemapTrack(index, was)
                } else {
                    Edit::RemapTrack(index, target)
                }
            },
            Edit::AddChannel(index, channel) => {
                if index < self.tracks.len() {
                    let ghost added = channel@;
                    self.tracks[index].channels.push(channel);
                    proof {
                        let want = TrackView {
                            channels: m.tracks[index as int].channels.push(added),
                            ..m.tracks[index as int]
                        };
                        assert(self.tracks@[index as int]@.channels =~= want.channels);
                        assert(self@.tracks =~= m.tracks.update(index as int, want));
                    }
                    Edit::RemoveChannel(index)
                } else {
                    Edit::AddChannel(index, channel)
                }
            },
            Edit::RemoveChannel(index) => {
                if index < self.tracks.len() && self.tracks[index].channels.len() > 0 {
                    let channel = self.tracks[index].channels.pop().unwrap();
                    proof {
                        let want = TrackView {
                            channels: m.tracks[index as int].channels.drop_last(),
                            ..m.tracks[index as int]
                        };
                        assert(self.tracks@[index as int]@.channels =~= want.channels);
                        assert(self@.tracks =~= m.tracks.update(index as int, want));
                    }
                    Edit::AddChannel(index, channel)
                } else {
                    Edit::RemoveChannel(index)
                }
            },
            Edit::PatternData { remove, add } => {
                let flip_add = delete_all(&mut self.tracks, &remove);
                let flip_remove = insert_all(&mut self.tracks, &add);
                sort_all(&mut self.tracks, &add);
                Edit::PatternData { remove: flip_remove, add: flip_add }
            },
            Edit::InsertPatch(index, patch) => {
                if index <= self.patches.len() {
                    let ghost added = patch@;
                    self.patches.insert(index, patch);
                    assert(self@.patches =~= m.patches.insert(index as int, added));
                    Edit::RemovePatch(index)
                } else {
                    Edit::InsertPatch(index, patch)
                }
            },
            Edit::RemovePatch(index) => {
                if index < self.patches.len() {
                    let patch = self.remove_patch(index);
                    Edit::InsertPatch(index, patch)
                } else {
                    Edit::RemovePatch(index)
                }
            },
            Edit::ShiftEvents { channels, start, distance, insert } => {
                let deleted = shift_all(&mut self.tracks, &channels, start, distance);
                let _ = insert_all(&mut self.tracks, &insert);
                sort_all(&mut self.tracks, &insert);
                Edit::ShiftEvents { channels, start, distance: opposite(distance), insert: deleted }
            },
            Edit::ReplaceEvents(events) => {
                let was = replace_all(&mut self.tracks, &events);
                Edit::ReplaceEvents(was)
            },
        }
    }

    /// Performs an edit operation and handles undo/redo stacks.
    pub fn push_edit(&mut self, edit: Edit)
        ensures
            final(self)@ == old(self)@.push_edit(edit@),
            old(self)@.in_order() && edit_sorted(edit@) ==> final(self)@.in_order(),
    {
        proof {
            if self@.in_order() && edit_sorted(edit@) {
                lemma_edits_keep_order(self@, edit@);
            }
        }
        let inverse = self.flip_edit(edit);
        let ghost before = self@;
        let ghost added = inverse@;
        self.undo_stack.push(inverse);
        self.redo_stack.clear();
        assert(self@.undo_stack =~= before.undo_stack.push(added));
        assert(self@.redo_stack =~= Seq::empty());
    }

    /// Returns true if there was something to undo.
    pub fn undo(&mut self) -> (done: bool)
        ensures
            done == (old(self)@.undo_stack.len() > 0),
            final(self)@ == old(self)@.undo(),
            old(self)@.in_order() ==> final(self)@.in_order(),
    {
        proof {
            if self@.in_order() {
                lemma_edits_keep_order(self@, EditView::RemoveTrack(0));
            }
        }
        if let Some(edit) = self.undo_stack.pop() {
            assert(self@.undo_stack =~= old(self)@.undo_stack.drop_last());
            let inverse = self.flip_edit(edit);
            let ghost before = self@;
            let ghost added = inverse@;
            self.redo_stack.push(inverse);
            assert(self@.redo_stack =~= before.redo_stack.push(added));
            true
        } else {
            false
        }
    }

    /// Returns true if there was something to redo.
    pub fn redo(&mut self) -> (done: bool)
        ensures
            done == (old(self)@.redo_stack.len() > 0),
            final(self)@ == old(self)@.redo(),
            old(self)@.in_order() ==> final(self)@.in_order(),
    {
        proof {
            if self@.in_order() {
                lemma_edits_keep_order(self@, EditView::RemoveTrack(0));
            }
        }
        if let Some(edit) = self.redo_stack.pop() {
            assert(self@.redo_stack =~= old(self)@.redo_stack.drop_last());
            let inverse = self.flip_edit(edit);
            let ghost before = self@;
            let ghost added = inverse@;
            self.undo_stack.push(inverse);
            assert(self@.undo_stack =~= before.undo_stack.push(added));
            true
        } else {
            false
        }
    }

    /// Hands over the tracks that came and went since the last call.
    pub fn drain_track_history(&mut self) -> (edits: Vec<TrackEdit>)
        ensures
            edits@ == old(self)@.track_history,
            final(self)@ == (ModuleView { track_history: Seq::empty(), ..old(self)@ }),
    {
        let mut edits: Vec<TrackEdit> = Vec::new();
        std::mem::swap(&mut edits, &mut self.track_history);
        edits
    }
}


/// Whether `a` comes before `b` or is `b`, going by track, then channel.
pub open spec fn spec_place_le(a: (usize, usize), b: (usize, usize)) -> bool {
    a.0 < b.0 || (a.0 == b.0 && a.1 <= b.1)
}

#[verifier::when_used_as_spec(spec_place_le)]
pub fn place_le(a: (usize, usize), b: (usize, usize)) -> (r: bool)
    ensures
        r == spec_place_le(a, b),
{
    a.0 < b.0 || (a.0 == b.0 && a.1 <= b.1)
}

/// The channels of a track from the place of `start` to that of `end`,
/// among the first `upto` of the track.
pub open spec fn track_coords(
    tracks: Seq<TrackView>,
    track: int,
    upto: int,
    start: Position,
    end: Position,
) -> Seq<ChannelCoords>
    decreases upto,
{
    if upto <= 0 {
        Seq::empty()
    } else {
        let before = track_coords(tracks, track, upto - 1, start, end);
        let place = (track as usize, (upto - 1) as usize);
        if spec_place_le((start.track, start.channel), place) && spec_place_le(
            place,
            (end.track, end.channel),
        ) {
            before.push(
                ChannelCoords { track: (track % 256) as u8, channel: ((upto - 1) % 256) as u8 },
            )
        } else {
            before
        }
    }
}

/// The channels from the place of `start` to that of `end`, among those of
/// the first `upto` tracks.
pub open spec fn coords_between(tracks: Seq<TrackView>, upto: int, start: Position, end: Position) -> Seq<
    ChannelCoords,
>
    decreases upto,
{
    if upto <= 0 {
        Seq::empty()
    } else {
        coords_between(tracks, upto - 1, start, end) + track_coords(
            tracks,
            upto - 1,
            tracks[upto - 1].channels.len() as int,
            start,
            end,
        )
    }
}

/// The position of an event.
pub open spec fn position_of() -> spec_fn(LocatedEvent) -> Position {
    |e: LocatedEvent| e.spec_position()
}

impl Module {
    /// The event at a position, if there is one.
    pub fn event_at(&self, pos: Position) -> (r: Option<Event>)
        ensures
            r == match event_index(self@.tracks, pos) {
                Some(k) => Some(channel_at(self@.tracks, pos.track, pos.channel)[k]),
                None => None,
            },
    {
        if pos.track < self.tracks.len() && pos.channel < self.tracks[pos.track].channels.len() {
            let events = &self.tracks[pos.track].channels[pos.channel].events;
            match find_event_index(events, pos.tick, pos.column) {
                Some(k) => Some(events[k]),
                None => None,
            }
        } else {
            None
        }
    }

    /// Takes the event at a position out of its channel and returns it.
    pub fn delete_event(&mut self, pos: Position) -> (r: Option<Event>)
        ensures
            final(self)@ == (ModuleView {
                tracks: deleting(old(self)@.tracks, pos).0,
                ..old(self)@
            }),
            r == deleting(old(self)@.tracks, pos).1,
    {
        delete_event(&mut self.tracks, pos)
    }

    /// Replace an event in-place, returning the old value.
    pub fn replace_event(&mut self, new_evt: LocatedEvent) -> (r: LocatedEvent)
        ensures
            final(self)@ == (ModuleView {
                tracks: replacing(old(self)@.tracks, new_evt).0,
                ..old(self)@
            }),
            r == replacing(old(self)@.tracks, new_evt).1,
    {
        replace_event(&mut self.tracks, new_evt)
    }

    /// Adds a track that plays patch 0 behind the others.
    pub fn add_track(&mut self)
        ensures
            final(self)@ == old(self)@.push_edit(
                EditView::InsertTrack(
                    old(self)@.tracks.len() as usize,
                    TrackView {
                        target: TrackTarget::Patch(0),
                        channels: seq![Seq::<Event>::empty()],
                    },
                ),
            ),
            old(self)@.in_order() ==> final(self)@.in_order(),
    {
        let index = self.tracks.len();
        let track = Track::new(TrackTarget::Patch(0));
        self.push_edit(Edit::InsertTrack(index, track));
    }

    /// Puts an event in a channel, in place of the one at its tick and
    /// column if there is one.
    pub fn insert_event(&mut self, track: usize, channel: usize, event: Event)
        ensures
            final(self)@ == old(self)@.push_edit(
                EditView::PatternData {
                    remove: seq![
                        Position {
                            track,
                            channel,
                            tick: event.tick,
                            column: event.data.spec_logical_column(),
                        },
                    ],
                    add: seq![LocatedEvent { track, channel, event }],
                },
            ),
            old(self)@.in_order() ==> final(self)@.in_order(),
    {
        let remove = vec![
            Position { track, channel, tick: event.tick, column: event.data.logical_column() },
        ];
        let add = vec![LocatedEvent { track, channel, event }];
        assert(remove@ =~= seq![
            Position {
                track,
                channel,
                tick: event.tick,
                column: event.data.spec_logical_column(),
            },
        ]);
        assert(add@ =~= seq![LocatedEvent { track, channel, event }]);
        self.push_edit(Edit::PatternData { remove, add });
    }

    /// Delete pattern events between two positions.
    pub fn delete_events(&mut self, start: Position, end: Position)
        ensures
            final(self)@ == ({
                let found = old(self)@.events().filter(between(start, end));
                if found.len() > 0 {
                    old(self)@.push_edit(
                        EditView::PatternData {
                            remove: found.map_values(position_of()),
                            add: Seq::empty(),
                        },
                    )
                } else {
                    old(self)@
                }
            }),
            old(self)@.in_order() ==> final(self)@.in_order(),
    {
        let found = self.scan_events(start, end);
        let mut remove: Vec<Position> = Vec::new();
        let n: usize = found.len();
        let mut k: usize = 0;
        while k < n
            invariant
                k <= n,
                n == found@.len(),
                remove@ == found@.take(k as int).map_values(position_of()),
            decreases n - k,
        {
            remove.push(found[k].position());
            k += 1;
        }
        assert(found@.take(n as int) == found@);
        if remove.len() > 0 {
            let edit = Edit::PatternData { remove, add: Vec::new() };
            self.push_edit(edit);
        }
    }

    /// Shifts the events from the tick of `start` on by `distance` ticks,
    /// in every channel from the place of `start` to that of `end`.
    pub fn shift_channel_events(&mut self, start: Position, end: Position, distance: i64)
        ensures
            final(self)@ == old(self)@.push_edit(
                EditView::ShiftEvents {
                    channels: coords_between(
                        old(self)@.tracks,
                        old(self)@.tracks.len() as int,
                        start,
                        end,
                    ),
                    start: start.tick,
                    distance,
                    insert: Seq::empty(),
                },
            ),
            old(self)@.in_order() ==> final(self)@.in_order(),
    {
        let first = (start.track, start.channel);
        let last = (end.track, end.channel);
        let mut channels: Vec<ChannelCoords> = Vec::new();
        let nt: usize = self.tracks.len();
        let mut t: usize = 0;
        while t < nt
            invariant
                t <= nt,
                nt == self.tracks@.len(),
                first == (start.track, start.channel),
                last == (end.track, end.channel),
                channels@ == coords_between(self@.tracks, t as int, start, end),
            decreases nt - t,
        {
            let nc: usize = self.tracks[t].channels.len();
            let ghost before = channels@;
            let mut c: usize = 0;
            while c < nc
                invariant
                    c <= nc,
                    t < nt,
                    nt == self.tracks@.len(),
                    nc == self.tracks@[t as int].channels@.len(),
                    first == (start.track, start.channel),
                    last == (end.track, end.channel),
                    channels@ == before + track_coords(self@.tracks, t as int, c as int, start, end),
                decreases nc - c,
            {
                if place_le(first, (t, c)) && place_le((t, c), last) {
                    channels.push(ChannelCoords { track: (t % 256) as u8, channel: (c % 256) as u8 });
                }
                c += 1;
            }
            t += 1;
        }
        let edit = Edit::ShiftEvents { channels, start: start.tick, distance, insert: Vec::new() };
        self.push_edit(edit);
    }
}


/// Whether the edit changes the list of tracks, the target of a track or
/// the channels of a track, and names a track that the module has. A track
/// is inserted behind the others.
pub open spec fn is_plain_edit(m: ModuleView, edit: EditView) -> bool {
    match edit {
        EditView::InsertTrack(index, track) => index == m.tracks.len(),
        EditView::RemoveTrack(index) => index < m.tracks.len(),
        EditView::RemapTrack(index, target) => index < m.tracks.len(),
        EditView::AddChannel(index, channel) => index < m.tracks.len(),
        EditView::RemoveChannel(index) => index < m.tracks.len() && m.tracks[index as int].channels.len()
            > 0,
        _ => false,
    }
}

/// The edit that comes back from a plain edit reverses it: carried out in
/// turn, it leaves the tracks as they were before the two. It gives back
/// the first edit, but for a track that was removed from among the others:
/// there it gives back the removal of the last track.
pub proof fn lemma_flip_reverses(m: ModuleView, edit: EditView)
    requires
        is_plain_edit(m, edit),
        m.tracks.len() < usize::MAX,
    ensures
        m.flipped(edit).0.flipped(m.flipped(edit).1).0.tracks == m.tracks,
        m.flipped(edit).0.flipped(m.flipped(edit).1).0.patches == m.patches,
        m.flipped(edit).0.flipped(m.flipped(edit).1).0.kit == m.kit,
        m.flipped(edit).0.flipped(m.flipped(edit).1).1 == (match edit {
            EditView::RemoveTrack(index) => EditView::RemoveTrack((m.tracks.len() - 1) as usize),
            _ => edit,
        }),
{
    let once = m.flipped(edit);
    let twice = once.0.flipped(once.1);
    match edit {
        EditView::AddChannel(index, channel) => {
            assert(once.0.tracks[index as int].channels.drop_last() =~= m.tracks[index as int].channels);
        },
        EditView::RemoveChannel(index) => {
            let channels = m.tracks[index as int].channels;
            assert(channels.drop_last().push(channels.last()) =~= channels);
        },
        _ => {},
    }
    assert(twice.0.tracks =~= m.tracks);
}

} // verus!
