//! Pattern data of a module: tracks, channels and their timed events.
//!
//! A module holds a list of tracks, each with a list of channels, each with
//! a list of events in time order. Track 0 is the control track: tempo
//! changes, loop markers and the end of the module live there.

use crate::fx::FXSettings;
use crate::settings::{Patch, PatchView};
use crate::tempo::Tempo;
use vstd::prelude::*;

verus! {

pub const GLOBAL_COLUMN: u8 = 0;

pub const NOTE_COLUMN: u8 = 0;

pub const VEL_COLUMN: u8 = 1;

pub const MOD_COLUMN: u8 = 2;

/// Number of ticks in a beat.
pub const TICKS_PER_BEAT: u32 = 120;

/// A note of the tuning, held as its pitch in thousandths of a semitone on
/// the MIDI scale.
#[derive(PartialEq, Eq, Structural, Clone, Copy, Debug)]
pub struct Note {
    pub pitch: i32,
}

/// Maps a note played on the kit to a note of a patch.
#[derive(PartialEq, Eq, Structural, Clone, Copy, Debug)]
pub struct KitEntry {
    pub input_note: Note,
    pub patch_index: usize,
    pub patch_note: Note,
}

impl Default for KitEntry {
    fn default() -> (e: KitEntry)
        ensures
            e == (KitEntry {
                input_note: Note { pitch: 0 },
                patch_index: 0,
                patch_note: Note { pitch: 0 },
            }),
    {
        KitEntry { input_note: Note { pitch: 0 }, patch_index: 0, patch_note: Note { pitch: 0 } }
    }
}

/// What the notes of a track play.
#[derive(PartialEq, Eq, Structural, Clone, Copy, Debug)]
pub enum TrackTarget {
    /// Nothing.
    Silent,
    /// Nothing: the control track.
    Global,
    /// The patch that the kit maps each note to.
    Kit,
    /// The patch with this index.
    Patch(usize),
}

impl TrackTarget {
    pub open spec fn spec_patch_choice(&self, selected: Option<usize>) -> Option<usize> {
        match self {
            TrackTarget::Kit => None,
            TrackTarget::Patch(i) => Some(*i),
            _ => selected,
        }
    }

    /// The patch that notes played by hand go to while the cursor is on a
    /// track with this target: the patch of the track, no patch but the
    /// kit on the kit track, and else the patch that is selected.
    #[verifier::when_used_as_spec(spec_patch_choice)]
    pub fn patch_choice(&self, selected: Option<usize>) -> (r: Option<usize>)
        ensures
            r == self.spec_patch_choice(selected),
    {
        match *self {
            TrackTarget::Kit => None,
            TrackTarget::Patch(i) => Some(i),
            _ => selected,
        }
    }
}

/// What happens at a tick of a channel. Tempo is in thousandths of a beat
/// per minute; interpolated values are in thousandths.
#[derive(PartialEq, Eq, Structural, Clone, Copy, Debug)]
pub enum EventData {
    Pitch(Note),
    NoteOff,
    Pressure(u8),
    Modulation(u8),
    Tempo(u32),
    RationalTempo(u8, u8),
    End,
    Loop,
    InterpolatedPitch(i32),
    InterpolatedPressure(i32),
    InterpolatedModulation(i32),
    StartGlide(u8),
    EndGlide(u8),
    TickGlide(u8),
    /// Pitch bend, in cents from the starting note.
    Bend(i16),
    /// Section marker. No effect on playback.
    Section,
}

impl EventData {
    /// Greatest digit that a pressure or modulation event holds.
    pub const DIGIT_MAX: u8 = 0xf;

    /// Marks the logical column of the events that shape a glide.
    pub const INTERP_COL_FLAG: u8 = 0x80;

    pub open spec fn spec_logical_column(&self) -> u8 {
        match self {
            EventData::Pressure(_) => VEL_COLUMN,
            EventData::Modulation(_) => MOD_COLUMN,
            EventData::StartGlide(col) => *col | EventData::INTERP_COL_FLAG,
            EventData::EndGlide(col) => *col | EventData::INTERP_COL_FLAG,
            EventData::TickGlide(col) => *col | EventData::INTERP_COL_FLAG,
            _ => NOTE_COLUMN,
        }
    }

    /// The column that tells the event from others at its tick: glide
    /// events have the flag set on the column they shape.
    #[verifier::when_used_as_spec(spec_logical_column)]
    pub fn logical_column(&self) -> (col: u8)
        ensures
            col == self.spec_logical_column(),
    {
        match *self {
            EventData::Pressure(_) => VEL_COLUMN,
            EventData::Modulation(_) => MOD_COLUMN,
            EventData::StartGlide(col) | EventData::EndGlide(col) | EventData::TickGlide(col) => col
                | EventData::INTERP_COL_FLAG,
            _ => NOTE_COLUMN,
        }
    }

    pub open spec fn spec_spatial_column(&self) -> u8 {
        self.spec_logical_column() & !EventData::INTERP_COL_FLAG
    }

    /// The column the event is shown in: its logical column without the
    /// flag.
    #[verifier::when_used_as_spec(spec_spatial_column)]
    pub fn spatial_column(&self) -> (col: u8)
        ensures
            col == self.spec_spatial_column(),
    {
        self.logical_column() & !EventData::INTERP_COL_FLAG
    }

    pub open spec fn spec_is_ctrl(&self) -> bool {
        *self is Tempo || *self is RationalTempo || *self is End || *self is Loop
            || *self is Section
    }

    /// Whether the event belongs in the control track.
    #[verifier::when_used_as_spec(spec_is_ctrl)]
    pub fn is_ctrl(&self) -> (b: bool)
        ensures
            b == self.spec_is_ctrl(),
    {
        match *self {
            EventData::Tempo(_)
            | EventData::RationalTempo(_, _)
            | EventData::End
            | EventData::Loop
            | EventData::Section => true,
            _ => false,
        }
    }

    pub open spec fn spec_glides(&self, col: u8) -> bool {
        match self {
            EventData::StartGlide(i) => *i == col,
            EventData::EndGlide(i) => *i == col,
            EventData::TickGlide(i) => *i == col,
            _ => false,
        }
    }

    /// Whether the event shapes a glide of column `col`.
    #[verifier::when_used_as_spec(spec_glides)]
    pub fn glides(&self, col: u8) -> (b: bool)
        ensures
            b == self.spec_glides(col),
    {
        match *self {
            EventData::StartGlide(i) | EventData::EndGlide(i) | EventData::TickGlide(i) => i
                == col,
            _ => false,
        }
    }
}

/// An event of a channel.
#[derive(PartialEq, Eq, Structural, Clone, Copy, Debug)]
pub struct Event {
    pub tick: u32,
    pub data: EventData,
}

/// Defines a linked copy region.
#[derive(PartialEq, Eq, Structural, Clone, Copy, Debug)]
pub struct Link {
    pub src_tick: u32,
    pub dst_tick: u32,
    pub duration: u32,
}

/// A place in the pattern.
#[derive(PartialEq, Eq, Structural, Clone, Copy, Debug)]
pub struct Position {
    pub tick: u32,
    pub track: usize,
    pub channel: usize,
    pub column: u8,
}

/// Whether `a` comes before `b` or is `b`, going by track, then channel,
/// then column.
pub open spec fn spec_x_le(a: (usize, usize, u8), b: (usize, usize, u8)) -> bool {
    a.0 < b.0 || (a.0 == b.0 && (a.1 < b.1 || (a.1 == b.1 && a.2 <= b.2)))
}

#[verifier::when_used_as_spec(spec_x_le)]
pub fn x_le(a: (usize, usize, u8), b: (usize, usize, u8)) -> (r: bool)
    ensures
        r == spec_x_le(a, b),
{
    a.0 < b.0 || (a.0 == b.0 && (a.1 < b.1 || (a.1 == b.1 && a.2 <= b.2)))
}

impl Position {
    pub fn new(tick: u32, track: usize, channel: usize, column: u8) -> (p: Position)
        ensures
            p == (Position { tick, track, channel, column }),
    {
        Position { tick, track, channel, column }
    }

    pub open spec fn spec_x_tuple(&self) -> (usize, usize, u8) {
        (self.track, self.channel, self.column)
    }

    /// Returns a tuple of horizontal indices for comparison.
    #[verifier::when_used_as_spec(spec_x_tuple)]
    pub fn x_tuple(&self) -> (t: (usize, usize, u8))
        ensures
            t == self.spec_x_tuple(),
    {
        (self.track, self.channel, self.column)
    }
}

/// The place of a channel, for the edits that shift events.
#[derive(PartialEq, Eq, Structural, Clone, Copy, Debug)]
pub struct ChannelCoords {
    pub track: u8,
    pub channel: u8,
}

/// A track that came or went, for whoever keeps one synth per track.
#[derive(PartialEq, Eq, Structural, Clone, Copy, Debug)]
pub enum TrackEdit {
    Insert(usize),
    Remove(usize),
}

/// An event with the track and channel it belongs to.
#[derive(PartialEq, Eq, Structural, Clone, Copy, Debug)]
pub struct LocatedEvent {
    pub track: usize,
    pub channel: usize,
    pub event: Event,
}

impl LocatedEvent {
    pub fn from_position(pos: Position, data: EventData) -> (e: LocatedEvent)
        ensures
            e == (LocatedEvent {
                track: pos.track,
                channel: pos.channel,
                event: Event { tick: pos.tick, data },
            }),
    {
        LocatedEvent { track: pos.track, channel: pos.channel, event: Event { tick: pos.tick, data } }
    }

    pub open spec fn spec_position(&self) -> Position {
        Position {
            tick: self.event.tick,
            track: self.track,
            channel: self.channel,
            column: self.event.data.spec_logical_column(),
        }
    }

    /// Returns the position of the event.
    #[verifier::when_used_as_spec(spec_position)]
    pub fn position(&self) -> (p: Position)
        ensures
            p == self.spec_position(),
    {
        Position {
            tick: self.event.tick,
            track: self.track,
            channel: self.channel,
            column: self.event.data.logical_column(),
        }
    }
}

/// The events of one channel, in time order.
#[derive(Debug)]
pub struct Channel {
    pub events: Vec<Event>,
}

impl View for Channel {
    type V = Seq<Event>;

    open spec fn view(&self) -> Seq<Event> {
        self.events@
    }
}

/// One track: what its notes play, and its channels.
#[derive(Debug)]
pub struct Track {
    pub target: TrackTarget,
    pub channels: Vec<Channel>,
}

pub struct TrackView {
    pub target: TrackTarget,
    pub channels: Seq<Seq<Event>>,
}

pub open spec fn channels_view(channels: Seq<Channel>) -> Seq<Seq<Event>> {
    Seq::new(channels.len(), |i: int| channels[i]@)
}

pub open spec fn tracks_view(tracks: Seq<Track>) -> Seq<TrackView> {
    Seq::new(tracks.len(), |i: int| tracks[i]@)
}

pub open spec fn patches_view(patches: Seq<Patch>) -> Seq<PatchView> {
    Seq::new(patches.len(), |i: int| patches[i]@)
}

impl View for Track {
    type V = TrackView;

    open spec fn view(&self) -> TrackView {
        TrackView { target: self.target, channels: channels_view(self.channels@) }
    }
}

impl Channel {
    pub fn new() -> (c: Channel)
        ensures
            c@ == Seq::<Event>::empty(),
    {
        Channel { events: Vec::new() }
    }
}

impl Track {
    /// A track with one empty channel.
    pub fn new(target: TrackTarget) -> (t: Track)
        ensures
            t@ == (TrackView { target, channels: seq![Seq::<Event>::empty()] }),
    {
        let t = Track { target, channels: vec![Channel::new()] };
        assert(t@.channels =~= seq![Seq::<Event>::empty()]);
        t
    }
}


/// What events are ordered by within a channel: the tick, then the column
/// the event is shown in.
pub open spec fn spec_sort_key(e: Event) -> u64 {
    (e.tick * 256 + e.data.spec_spatial_column()) as u64
}

#[verifier::when_used_as_spec(spec_sort_key)]
pub fn sort_key(e: Event) -> (k: u64)
    ensures
        k == spec_sort_key(e),
{
    e.tick as u64 * 256 + e.data.spatial_column() as u64
}

/// Each event is ordered at or behind the one before it.
pub open spec fn is_sorted(events: Seq<Event>) -> bool {
    forall|a: int, b: int|
        0 <= a <= b < events.len() ==> spec_sort_key(#[trigger] events[a]) <= spec_sort_key(
            #[trigger] events[b],
        )
}

/// Where `e` goes into `events`: behind the last event that is not ordered
/// behind it.
pub open spec fn insertion_point(events: Seq<Event>, e: Event) -> int
    decreases events.len(),
{
    if events.len() == 0 {
        0
    } else if spec_sort_key(events.last()) <= spec_sort_key(e) {
        events.len() as int
    } else {
        insertion_point(events.drop_last(), e)
    }
}

/// The events in order, those that are ordered alike in the order they had.
pub open spec fn stable_sorted(events: Seq<Event>) -> Seq<Event>
    decreases events.len(),
{
    if events.len() == 0 {
        events
    } else {
        let before = stable_sorted(events.drop_last());
        before.insert(insertion_point(before, events.last()), events.last())
    }
}

pub proof fn lemma_insertion_point(events: Seq<Event>, e: Event)
    ensures
        0 <= insertion_point(events, e) <= events.len(),
        forall|i: int|
            insertion_point(events, e) <= i < events.len() ==> spec_sort_key(#[trigger] events[i])
                > spec_sort_key(e),
        insertion_point(events, e) > 0 ==> spec_sort_key(events[insertion_point(events, e) - 1])
            <= spec_sort_key(e),
    decreases events.len(),
{
    if events.len() > 0 && spec_sort_key(events.last()) > spec_sort_key(e) {
        lemma_insertion_point(events.drop_last(), e);
        let p = insertion_point(events, e);
        assert forall|i: int| p <= i < events.len() implies spec_sort_key(#[trigger] events[i])
            > spec_sort_key(e) by {
            if i < events.len() - 1 {
                assert(events.drop_last()[i] == events[i]);
            }
        }
    }
}

/// Sorting gives the same events, in order. Events that were in order
/// already stay as they are.
pub proof fn lemma_stable_sorted(events: Seq<Event>)
    ensures
        stable_sorted(events).len() == events.len(),
        is_sorted(stable_sorted(events)),
        stable_sorted(events).to_multiset() == events.to_multiset(),
        is_sorted(events) ==> stable_sorted(events) == events,
    decreases events.len(),
{
    broadcast use vstd::seq_lib::group_to_multiset_ensures;

    if events.len() > 0 {
        let rest = events.drop_last();
        let e = events.last();
        let before = stable_sorted(rest);
        lemma_stable_sorted(rest);
        lemma_insertion_point(before, e);
        let p = insertion_point(before, e);
        let after = before.insert(p, e);
        assert(events =~= rest.push(e));
        vstd::seq_lib::to_multiset_insert(before, p, e);
        vstd::seq_lib::to_multiset_build(rest, e);
    }
}

/// The events that stay in a channel when those from `start` on move by
/// `distance` ticks: moving back deletes what the move would pass over.
pub open spec fn staying(start: u32, distance: i64) -> spec_fn(Event) -> bool {
    |e: Event| distance >= 0 || e.tick < start || e.tick >= start - distance
}

/// The events that a move deletes.
pub open spec fn leaving(start: u32, distance: i64) -> spec_fn(Event) -> bool {
    |e: Event| !(distance >= 0 || e.tick < start || e.tick >= start - distance)
}

/// The tick after a move by `distance`, kept within the range of ticks.
pub open spec fn moved_tick(tick: u32, distance: i64) -> u32 {
    if tick + distance < 0 {
        0
    } else if tick + distance > u32::MAX {
        u32::MAX
    } else {
        (tick + distance) as u32
    }
}

/// The event, moved by `distance` ticks if it is at `start` or later.
pub open spec fn moving(start: u32, distance: i64) -> spec_fn(Event) -> Event {
    |e: Event|
        if e.tick >= start {
            Event { tick: moved_tick(e.tick, distance), ..e }
        } else {
            e
        }
}

/// The events of column `col` that shape a glide.
pub open spec fn gliding(col: u8) -> spec_fn(Event) -> bool {
    |e: Event| e.data.spec_glides(col)
}

/// The events before `tick` in the logical column `column`.
pub open spec fn preceding(column: u8, tick: u32) -> spec_fn(Event) -> bool {
    |e: Event| e.tick < tick && e.data.spec_logical_column() == column
}

/// Whether `tick` lies within a glide of column `col`, going through the
/// events from index `k` on with `depth` glides open so far: a glide is
/// open from after its start to its end, and a tick that a glide event
/// marks lies within one.
pub open spec fn glides_from(events: Seq<Event>, col: u8, tick: u32, k: int, depth: int) -> bool
    decreases events.len() - k,
{
    if k < 0 || k >= events.len() {
        depth > 0
    } else if !events[k].data.spec_glides(col) {
        glides_from(events, col, tick, k + 1, depth)
    } else if events[k].tick > tick {
        depth > 0
    } else {
        match events[k].data {
            EventData::StartGlide(_) => glides_from(
                events,
                col,
                tick,
                k + 1,
                if events[k].tick < tick {
                    depth + 1
                } else {
                    depth
                },
            ),
            EventData::EndGlide(_) => glides_from(
                events,
                col,
                tick,
                k + 1,
                if events[k].tick < tick {
                    depth - 1
                } else {
                    depth
                },
            ),
            _ => events[k].tick == tick || glides_from(events, col, tick, k + 1, depth),
        }
    }
}

/// The events of `events` that `keep` holds of, in their order.
pub fn filter_events(events: &Vec<Event>, keep: EventFilter) -> (kept: Vec<Event>)
    ensures
        kept@ == events@.filter(keep.spec_holds()),
{
    let mut kept: Vec<Event> = Vec::new();
    let n: usize = events.len();
    let mut k: usize = 0;
    while k < n
        invariant
            k <= n,
            n == events@.len(),
            kept@ == events@.take(k as int).filter(keep.spec_holds()),
        decreases n - k,
    {
        proof {
            assert(events@.take(k + 1) =~= events@.take(k as int).push(events@[k as int]));
            events@.take(k as int).lemma_filter_push(events@[k as int], keep.spec_holds());
        }
        if keep.holds(events[k]) {
            kept.push(events[k]);
        }
        k += 1;
    }
    assert(events@.take(n as int) == events@);
    kept
}

/// A condition on an event.
#[derive(PartialEq, Eq, Structural, Clone, Copy, Debug)]
pub enum EventFilter {
    /// It stays when the events from `start` on move by `distance`.
    Staying { start: u32, distance: i64 },
    /// It is deleted when the events from `start` on move by `distance`.
    Leaving { start: u32, distance: i64 },
    /// It shapes a glide of the column.
    Gliding(u8),
    /// It lies before `tick` in the logical column `column`.
    Preceding { column: u8, tick: u32 },
}

impl EventFilter {
    pub open spec fn spec_holds(&self) -> spec_fn(Event) -> bool {
        match self {
            EventFilter::Staying { start, distance } => staying(*start, *distance),
            EventFilter::Leaving { start, distance } => leaving(*start, *distance),
            EventFilter::Gliding(col) => gliding(*col),
            EventFilter::Preceding { column, tick } => preceding(*column, *tick),
        }
    }

    pub fn holds(&self, e: Event) -> (b: bool)
        ensures
            b == self.spec_holds()(e),
    {
        match *self {
            EventFilter::Staying { start, distance } => distance >= 0 || e.tick < start
                || e.tick as i128 >= start as i128 - distance as i128,
            EventFilter::Leaving { start, distance } => !(distance >= 0 || e.tick < start
                || e.tick as i128 >= start as i128 - distance as i128),
            EventFilter::Gliding(col) => e.data.glides(col),
            EventFilter::Preceding { column, tick } => e.tick < tick && e.data.logical_column()
                == column,
        }
    }
}

/// Sorts the events with [`sort_key`], keeping the order of those that
/// are ordered alike.
pub fn sort_events(events: &mut Vec<Event>)
    ensures
        final(events)@ == stable_sorted(old(events)@),
        final(events)@.len() == old(events)@.len(),
        is_sorted(final(events)@),
        final(events)@.to_multiset() == old(events)@.to_multiset(),
{
    let n: usize = events.len();
    let mut i: usize = 0;
    while i < n
        invariant
            i <= n,
            n == old(events)@.len(),
            events@.len() == n,
            events@.take(i as int) == stable_sorted(old(events)@.take(i as int)),
            events@.skip(i as int) == old(events)@.skip(i as int),
        decreases n - i,
    {
        let ghost sorted = events@.take(i as int);
        let e = events[i];
        let key = sort_key(e);
        let mut j: usize = i;
        assert(sorted.take(i as int) =~= sorted);
        while j > 0 && sort_key(events[j - 1]) > key
            invariant
                j <= i,
                i < n,
                events@.len() == n,
                sorted == events@.take(i as int),
                key == spec_sort_key(e),
                insertion_point(sorted, e) == insertion_point(sorted.take(j as int), e),
            decreases j,
        {
            proof {
                assert(sorted.take(j as int).drop_last() =~= sorted.take(j - 1));
            }
            j -= 1;
        }
        proof {
            assert(old(events)@.take(i + 1).drop_last() =~= old(events)@.take(i as int));
            assert(old(events)@.take(i + 1).last() == old(events)@.skip(i as int)[0]);
        }
        let ghost before = events@;
        events.remove(i);
        events.insert(j, e);
        proof {
            assert(events@.skip(i + 1) =~= before.skip(i as int).skip(1));
        }
        i += 1;
    }
    proof {
        assert(old(events)@.take(n as int) == old(events)@);
        lemma_stable_sorted(old(events)@);
    }
}

impl Channel {
    /// Shifts the events from `start` on by `distance` ticks, returning the
    /// events that this deletes: moving back by some ticks deletes the
    /// events of as many ticks from `start` on.
    pub fn shift_events(&mut self, start: u32, distance: i64) -> (deleted: Vec<Event>)
        ensures
            deleted@ == old(self)@.filter(leaving(start, distance)),
            final(self)@ == stable_sorted(
                old(self)@.filter(staying(start, distance)).map_values(moving(start, distance)),
            ),
    {
        let deleted = filter_events(&self.events, EventFilter::Leaving { start, distance });
        let mut kept = filter_events(&self.events, EventFilter::Staying { start, distance });
        let ghost staying_events = kept@;
        let n: usize = kept.len();
        let mut k: usize = 0;
        while k < n
            invariant
                k <= n,
                n == staying_events.len(),
                kept@.len() == n,
                forall|x: int|
                    0 <= x < k ==> kept@[x] == moving(start, distance)(staying_events[x]),
                forall|x: int| k <= x < n ==> kept@[x] == staying_events[x],
            decreases n - k,
        {
            let e = kept[k];
            if e.tick >= start {
                let moved: i128 = e.tick as i128 + distance as i128;
                let tick: u32 = if moved < 0 {
                    0
                } else if moved > u32::MAX as i128 {
                    u32::MAX
                } else {
                    moved as u32
                };
                kept[k] = Event { tick, data: e.data };
            }
            k += 1;
        }
        assert(kept@ =~= staying_events.map_values(moving(start, distance)));
        sort_events(&mut kept);
        self.events = kept;
        deleted
    }

    /// Sorts the events by tick, then by the column they are shown in.
    pub fn sort_events(&mut self)
        ensures
            final(self)@ == stable_sorted(old(self)@),
            is_sorted(final(self)@),
            final(self)@.to_multiset() == old(self)@.to_multiset(),
    {
        sort_events(&mut self.events);
    }

    /// The events that shape a glide of column `col`, in their order.
    pub fn interp_by_col(&self, col: u8) -> (events: Vec<Event>)
        ensures
            events@ == self@.filter(gliding(col)),
    {
        filter_events(&self.events, EventFilter::Gliding(col))
    }

    /// Whether `tick` lies within a glide of column `col`.
    pub fn is_interpolated(&self, col: u8, tick: u32) -> (b: bool)
        ensures
            b == glides_from(self@, col, tick, 0, 0),
    {
        let n: usize = self.events.len();
        let mut depth: i128 = 0;
        let mut k: usize = 0;
        while k < n
            invariant
                k <= n,
                n == self@.len(),
                -k <= depth <= k,
                glides_from(self@, col, tick, 0, 0) == glides_from(
                    self@,
                    col,
                    tick,
                    k as int,
                    depth as int,
                ),
            decreases n - k,
        {
            let event = self.events[k];
            if event.data.glides(col) {
                if event.tick > tick {
                    return depth > 0;
                }
                match event.data {
                    EventData::StartGlide(_) => if event.tick < tick {
                        depth += 1;
                    },
                    EventData::EndGlide(_) => if event.tick < tick {
                        depth -= 1;
                    },
                    _ => if event.tick == tick {
                        return true;
                    },
                }
            }
            k += 1;
        }
        depth > 0
    }

    /// Returns the last event before `tick` in `column`.
    pub fn prev_event(&self, column: u8, tick: u32) -> (found: Option<Event>)
        ensures
            found == (if self@.filter(preceding(column, tick)).len() > 0 {
                Some(self@.filter(preceding(column, tick)).last())
            } else {
                None
            }),
    {
        let earlier = filter_events(&self.events, EventFilter::Preceding { column, tick });
        if earlier.len() > 0 {
            Some(earlier[earlier.len() - 1])
        } else {
            None
        }
    }
}


/// An operation that changes the data of a module.
#[derive(Debug)]
pub enum Edit {
    InsertTrack(usize, Track),
    RemoveTrack(usize),
    RemapTrack(usize, TrackTarget),
    AddChannel(usize, Channel),
    RemoveChannel(usize),
    PatternData { remove: Vec<Position>, add: Vec<LocatedEvent> },
    InsertPatch(usize, Patch),
    RemovePatch(usize),
    ShiftEvents { channels: Vec<ChannelCoords>, start: u32, distance: i64, insert: Vec<LocatedEvent> },
    ReplaceEvents(Vec<LocatedEvent>),
}

pub enum EditView {
    InsertTrack(usize, TrackView),
    RemoveTrack(usize),
    RemapTrack(usize, TrackTarget),
    AddChannel(usize, Seq<Event>),
    RemoveChannel(usize),
    PatternData { remove: Seq<Position>, add: Seq<LocatedEvent> },
    InsertPatch(usize, PatchView),
    RemovePatch(usize),
    ShiftEvents { channels: Seq<ChannelCoords>, start: u32, distance: i64, insert: Seq<LocatedEvent> },
    ReplaceEvents(Seq<LocatedEvent>),
}

impl View for Edit {
    type V = EditView;

    open spec fn view(&self) -> EditView {
        match self {
            Edit::InsertTrack(i, track) => EditView::InsertTrack(*i, track@),
            Edit::RemoveTrack(i) => EditView::RemoveTrack(*i),
            Edit::RemapTrack(i, target) => EditView::RemapTrack(*i, *target),
            Edit::AddChannel(i, channel) => EditView::AddChannel(*i, channel@),
            Edit::RemoveChannel(i) => EditView::RemoveChannel(*i),
            Edit::PatternData { remove, add } => EditView::PatternData {
                remove: remove@,
                add: add@,
            },
            Edit::InsertPatch(i, patch) => EditView::InsertPatch(*i, patch@),
            Edit::RemovePatch(i) => EditView::RemovePatch(*i),
            Edit::ShiftEvents { channels, start, distance, insert } => EditView::ShiftEvents {
                channels: channels@,
                start: *start,
                distance: *distance,
                insert: insert@,
            },
            Edit::ReplaceEvents(events) => EditView::ReplaceEvents(events@),
        }
    }
}

pub open spec fn edits_view(edits: Seq<Edit>) -> Seq<EditView> {
    Seq::new(edits.len(), |i: int| edits[i]@)
}

/// A module: its patches, its kit, its tracks, and the log of its edits.
#[derive(Debug)]
pub struct Module {
    pub title: String,
    pub author: String,
    pub fx: FXSettings,
    pub kit: Vec<KitEntry>,
    pub patches: Vec<Patch>,
    pub tracks: Vec<Track>,
    /// Beat division of the pattern editor, kept here for saving.
    pub division: u8,
    pub undo_stack: Vec<Edit>,
    pub redo_stack: Vec<Edit>,
    pub track_history: Vec<TrackEdit>,
    pub has_unsaved_changes: bool,
}

pub struct ModuleView {
    pub title: Seq<char>,
    pub author: Seq<char>,
    pub fx: FXSettings,
    pub kit: Seq<KitEntry>,
    pub patches: Seq<PatchView>,
    pub tracks: Seq<TrackView>,
    pub division: u8,
    pub undo_stack: Seq<EditView>,
    pub redo_stack: Seq<EditView>,
    pub track_history: Seq<TrackEdit>,
    pub has_unsaved_changes: bool,
}

impl View for Module {
    type V = ModuleView;

    open spec fn view(&self) -> ModuleView {
        ModuleView {
            title: self.title@,
            author: self.author@,
            fx: self.fx,
            kit: self.kit@,
            patches: patches_view(self.patches@),
            tracks: tracks_view(self.tracks@),
            division: self.division,
            undo_stack: edits_view(self.undo_stack@),
            redo_stack: edits_view(self.redo_stack@),
            track_history: self.track_history@,
            has_unsaved_changes: self.has_unsaved_changes,
        }
    }
}

/// The events of a channel, each with its place.
pub open spec fn channel_located(events: Seq<Event>, track: int, channel: int) -> Seq<
    LocatedEvent,
> {
    Seq::new(
        events.len(),
        |k: int| LocatedEvent { track: track as usize, channel: channel as usize, event: events[k] },
    )
}

/// The events of the first `upto` channels of a track, channel by channel.
pub open spec fn track_located(t: TrackView, track: int, upto: int) -> Seq<LocatedEvent>
    decreases upto,
{
    if upto <= 0 {
        Seq::empty()
    } else {
        track_located(t, track, upto - 1) + channel_located(t.channels[upto - 1], track, upto - 1)
    }
}

/// The events of the first `upto` tracks, track by track.
pub open spec fn located(tracks: Seq<TrackView>, upto: int) -> Seq<LocatedEvent>
    decreases upto,
{
    if upto <= 0 {
        Seq::empty()
    } else {
        located(tracks, upto - 1) + track_located(
            tracks[upto - 1],
            upto - 1,
            tracks[upto - 1].channels.len() as int,
        )
    }
}

/// The events with a tick from `from` up to, but not at, `to`.
pub open spec fn within(from: u32, to: u32) -> spec_fn(LocatedEvent) -> bool {
    |e: LocatedEvent| from <= e.event.tick < to
}

/// The events between two positions: the tick from that of `start` to that
/// of `end`, the place from that of `start` to that of `end`.
pub open spec fn between(start: Position, end: Position) -> spec_fn(LocatedEvent) -> bool {
    |e: LocatedEvent|
        {
            let place = (e.track, e.channel, e.event.data.spec_spatial_column());
            &&& start.tick <= e.event.tick <= end.tick
            &&& spec_x_le(start.spec_x_tuple(), place)
            &&& spec_x_le(place, end.spec_x_tuple())
        }
}

/// Every event.
pub open spec fn any_event() -> spec_fn(LocatedEvent) -> bool {
    |e: LocatedEvent| true
}

/// The events of track 0, the control track.
pub open spec fn on_control_track() -> spec_fn(LocatedEvent) -> bool {
    |e: LocatedEvent| e.track == 0
}

/// The events of the control track before the tick.
pub open spec fn control_before(tick: u32) -> spec_fn(LocatedEvent) -> bool {
    |e: LocatedEvent| e.track == 0 && e.event.tick < tick
}

/// The event, without its place.
pub open spec fn unlocated() -> spec_fn(LocatedEvent) -> Event {
    |e: LocatedEvent| e.event
}

/// A choice of events of a module.
#[derive(PartialEq, Eq, Structural, Clone, Copy, Debug)]
pub enum Selection {
    /// Every event.
    Everything,
    /// The events with a tick from `from` up to, but not at, `to`.
    Within { from: u32, to: u32 },
    /// The events between two positions.
    Between { start: Position, end: Position },
    /// The events of the control track.
    Control,
    /// The events of the control track before the tick.
    ControlBefore(u32),
}

impl Selection {
    pub open spec fn spec_holds(&self) -> spec_fn(LocatedEvent) -> bool {
        match self {
            Selection::Everything => any_event(),
            Selection::Within { from, to } => within(*from, *to),
            Selection::Between { start, end } => between(*start, *end),
            Selection::Control => on_control_track(),
            Selection::ControlBefore(tick) => control_before(*tick),
        }
    }

    pub fn holds(&self, e: LocatedEvent) -> (b: bool)
        ensures
            b == self.spec_holds()(e),
    {
        match *self {
            Selection::Everything => true,
            Selection::Within { from, to } => from <= e.event.tick && e.event.tick < to,
            Selection::Between { start, end } => {
                let place = (e.track, e.channel, e.event.data.spatial_column());
                start.tick <= e.event.tick && e.event.tick <= end.tick && x_le(
                    start.x_tuple(),
                    place,
                ) && x_le(place, end.x_tuple())
            },
            Selection::Control => e.track == 0,
            Selection::ControlBefore(tick) => e.track == 0 && e.event.tick < tick,
        }
    }
}

impl ModuleView {
    /// Every event of the module with its place: track by track, channel by
    /// channel, in the order of each channel.
    pub open spec fn events(self) -> Seq<LocatedEvent> {
        located(self.tracks, self.tracks.len() as int)
    }

    /// The events of the control track, channel by channel.
    pub open spec fn control_events(self) -> Seq<LocatedEvent> {
        self.events().filter(on_control_track())
    }

    /// Whether loop markers are at `m`, none of them later than `tick`
    /// lies behind it: `m` is the last loop start at or before `tick`.
    pub open spec fn is_loop_start(self, tick: u32, m: u32) -> bool {
        &&& m <= tick
        &&& exists|i: int|
            0 <= i < self.control_events().len() && (#[trigger] self.control_events()[i]).event
                == (Event { tick: m, data: EventData::Loop })
        &&& forall|i: int|
            0 <= i < self.control_events().len() && (#[trigger] self.control_events()[i]).event.data
                == EventData::Loop && self.control_events()[i].event.tick <= tick
                ==> self.control_events()[i].event.tick <= m
    }

    /// Whether the control track has a loop marker at or before `tick`.
    pub open spec fn has_loop_start(self, tick: u32) -> bool {
        exists|i: int|
            0 <= i < self.control_events().len() && (#[trigger] self.control_events()[i]).event.data
                == EventData::Loop && self.control_events()[i].event.tick <= tick
    }

    /// The loop start that playback goes back to from `tick`: the last one
    /// at or before it.
    pub open spec fn loop_start(self, tick: u32) -> Option<u32> {
        if self.has_loop_start(tick) {
            Some(choose|m: u32| self.is_loop_start(tick, m))
        } else {
            None
        }
    }

    /// Whether an event is at `m` and none is later.
    pub open spec fn is_last_tick(self, m: u32) -> bool {
        &&& exists|i: int|
            0 <= i < self.events().len() && (#[trigger] self.events()[i]).event.tick == m
        &&& forall|i: int|
            0 <= i < self.events().len() ==> (#[trigger] self.events()[i]).event.tick <= m
    }

    /// The tick of the last event of the module.
    pub open spec fn last_tick(self) -> Option<u32> {
        if self.events().len() > 0 {
            Some(choose|m: u32| self.is_last_tick(m))
        } else {
            None
        }
    }

    /// The playing time of the module in nanoseconds: the time from each
    /// tempo event of the control track to the next, up to the first end
    /// marker or else the last event.
    pub open spec fn playtime(self) -> Option<u64> {
        match playtime_from(
            self.control_events(),
            0,
            0,
            0,
            Tempo::spec_standard(),
            self.last_tick(),
        ) {
            Some(t) => if t <= u64::MAX {
                Some(t as u64)
            } else {
                None
            },
            None => None,
        }
    }

    /// Whether the control track holds an end marker.
    pub open spec fn ends(self) -> bool {
        exists|i: int|
            0 <= i < self.control_events().len() && (#[trigger] self.control_events()[i]).event.data
                == EventData::End
    }

    /// The tempo at `tick`: the standard tempo, changed by each tempo
    /// event of the control track before `tick`, in time order.
    pub open spec fn tempo_at(self, tick: u32) -> Tempo {
        tempo_after(
            Tempo::spec_standard(),
            stable_sorted(self.events().filter(control_before(tick)).map_values(unlocated())),
        )
    }
}

/// The tempo after the event: set by a tempo event, scaled by a rational
/// tempo event if the scaled tempo can be held, as it was otherwise.
pub open spec fn spec_tempo_changed(tempo: Tempo, data: EventData) -> Tempo {
    match data {
        EventData::Tempo(milli) => Tempo::spec_from_milli(milli),
        EventData::RationalTempo(n, d) => match tempo.spec_scaled(n, d) {
            Some(t) => t,
            None => tempo,
        },
        _ => tempo,
    }
}

#[verifier::when_used_as_spec(spec_tempo_changed)]
pub fn tempo_changed(tempo: Tempo, data: EventData) -> (t: Tempo)
    ensures
        t == spec_tempo_changed(tempo, data),
        tempo.valid() ==> t.valid(),
{
    match data {
        EventData::Tempo(milli) => Tempo::from_milli(milli),
        EventData::RationalTempo(n, d) => match tempo.scaled(n, d) {
            Some(t) => t,
            None => tempo,
        },
        _ => tempo,
    }
}

/// The tempo after the events, in their order.
pub open spec fn tempo_after(tempo: Tempo, events: Seq<Event>) -> Tempo
    decreases events.len(),
{
    if events.len() == 0 {
        tempo
    } else {
        spec_tempo_changed(tempo_after(tempo, events.drop_last()), events.last().data)
    }
}

/// Whether the first end or loop marker from index `k` on is a loop marker.
pub open spec fn loops_from(events: Seq<LocatedEvent>, k: int) -> bool
    decreases events.len() - k,
{
    if k < 0 || k >= events.len() {
        false
    } else {
        match events[k].event.data {
            EventData::End => false,
            EventData::Loop => true,
            _ => loops_from(events, k + 1),
        }
    }
}

/// The first entry of the kit for the note, from index `k` on.
pub open spec fn kit_entry_from(kit: Seq<KitEntry>, note: Note, k: int) -> Option<KitEntry>
    decreases kit.len() - k,
{
    if k < 0 || k >= kit.len() {
        None
    } else if kit[k].input_note == note {
        Some(kit[k])
    } else {
        kit_entry_from(kit, note, k + 1)
    }
}

/// How far `a` is from `b`.
pub open spec fn spec_distance(a: u32, b: u32) -> u32 {
    if a >= b {
        (a - b) as u32
    } else {
        (b - a) as u32
    }
}

#[verifier::when_used_as_spec(spec_distance)]
pub fn distance(a: u32, b: u32) -> (d: u32)
    ensures
        d == spec_distance(a, b),
{
    if a >= b {
        a - b
    } else {
        b - a
    }
}

impl Module {
    /// The events of the module that `selection` holds of, each with its
    /// place: track by track, channel by channel, in the order of each
    /// channel.
    pub fn select_events(&self, selection: Selection) -> (events: Vec<LocatedEvent>)
        ensures
            events@ == self@.events().filter(selection.spec_holds()),
    {
        let p = Ghost(selection.spec_holds());
        let mut events: Vec<LocatedEvent> = Vec::new();
        let ghost mut seen: Seq<LocatedEvent> = Seq::empty();
        let nt: usize = self.tracks.len();
        let mut t: usize = 0;
        while t < nt
            invariant
                t <= nt,
                nt == self.tracks@.len(),
                p@ == selection.spec_holds(),
                seen == located(self@.tracks, t as int),
                events@ == seen.filter(p@),
            decreases nt - t,
        {
            let track = &self.tracks[t];
            let nc: usize = track.channels.len();
            let mut c: usize = 0;
            let ghost before_track = seen;
            while c < nc
                invariant
                    c <= nc,
                    t < nt,
                    nt == self.tracks@.len(),
                    track == self.tracks@[t as int],
                    nc == track.channels@.len(),
                    p@ == selection.spec_holds(),
                    seen == before_track + track_located(track@, t as int, c as int),
                    events@ == seen.filter(p@),
                decreases nc - c,
            {
                let channel = &track.channels[c];
                let ne: usize = channel.events.len();
                let mut k: usize = 0;
                let ghost before_channel = seen;
                while k < ne
                    invariant
                        k <= ne,
                        c < nc,
                        nc == track.channels@.len(),
                        channel == track.channels@[c as int],
                        ne == channel.events@.len(),
                        p@ == selection.spec_holds(),
                        seen == before_channel + channel_located(
                            channel@,
                            t as int,
                            c as int,
                        ).take(k as int),
                        events@ == seen.filter(p@),
                    decreases ne - k,
                {
                    let e = LocatedEvent { track: t, channel: c, event: channel.events[k] };
                    proof {
                        let all = channel_located(channel@, t as int, c as int);
                        seen.lemma_filter_push(e, p@);
                        seen = seen.push(e);
                    }
                    if selection.holds(e) {
                        events.push(e);
                    }
                    k += 1;
                }
                proof {
                    let all = channel_located(channel@, t as int, c as int);
                }
                c += 1;
            }
            t += 1;
        }
        events
    }

    /// Return copies of pattern events between two positions.
    pub fn scan_events(&self, start: Position, end: Position) -> (events: Vec<LocatedEvent>)
        ensures
            events@ == self@.events().filter(between(start, end)),
    {
        self.select_events(Selection::Between { start, end })
    }
}


impl ModuleView {
    /// The patch and note that a note plays on the kit: those of the first
    /// kit entry for the note, if its patch exists.
    pub open spec fn kit_patch(self, note: Note) -> Option<(usize, Note)> {
        match kit_entry_from(self.kit, note, 0) {
            Some(entry) => if entry.patch_index < self.patches.len() {
                Some((entry.patch_index, entry.patch_note))
            } else {
                None
            },
            None => None,
        }
    }

    /// The patch and note that a note plays, given a patch index or none
    /// for the kit.
    pub open spec fn map_input(self, patch_index: Option<usize>, note: Note) -> Option<
        (usize, Note),
    > {
        match patch_index {
            Some(index) => if index < self.patches.len() {
                Some((index, note))
            } else {
                None
            },
            None => self.kit_patch(note),
        }
    }

    /// The patch and note that a note plays on a track.
    pub open spec fn map_note(self, note: Note, track: usize) -> Option<(usize, Note)> {
        if track < self.tracks.len() {
            match self.tracks[track as int].target {
                TrackTarget::Silent => None,
                TrackTarget::Global => None,
                TrackTarget::Kit => self.kit_patch(note),
                TrackTarget::Patch(i) => self.map_input(Some(i), note),
            }
        } else {
            None
        }
    }
}

impl Module {
    fn kit_patch_index(&self, note: Note) -> (r: Option<(usize, Note)>)
        ensures
            r == self@.kit_patch(note),
    {
        let n: usize = self.kit.len();
        let mut k: usize = 0;
        while k < n
            invariant
                k <= n,
                n == self.kit@.len(),
                kit_entry_from(self.kit@, note, 0) == kit_entry_from(self.kit@, note, k as int),
            decreases n - k,
        {
            let entry = self.kit[k];
            if entry.input_note == note {
                if entry.patch_index < self.patches.len() {
                    return Some((entry.patch_index, entry.patch_note));
                } else {
                    return None;
                }
            }
            k += 1;
        }
        None
    }

    /// The patch and the note that a note plays on the kit: those of the
    /// first kit entry for the note. `None` where the kit has no entry for
    /// the note or the entry names a patch that does not exist.
    pub fn get_kit_patch(&self, note: Note) -> (r: Option<(&Patch, Note)>)
        ensures
            r == match self@.kit_patch(note) {
                Some((i, n)) => Some((&self.patches@[i as int], n)),
                None => None,
            },
    {
        match self.kit_patch_index(note) {
            Some((i, n)) => Some((&self.patches[i], n)),
            None => None,
        }
    }

    /// The patch and the note that a note plays: the patch with the given
    /// index, or what the kit maps the note to if none is given. `None`
    /// where there is no such patch or kit entry.
    pub fn map_input(&self, patch_index: Option<usize>, note: Note) -> (r: Option<(&Patch, Note)>)
        ensures
            r == match self@.map_input(patch_index, note) {
                Some((i, n)) => Some((&self.patches@[i as int], n)),
                None => None,
            },
    {
        match patch_index {
            Some(index) => if index < self.patches.len() {
                Some((&self.patches[index], note))
            } else {
                None
            },
            None => self.get_kit_patch(note),
        }
    }

    /// The patch and the note that a note plays on a track. `None` where
    /// the track plays nothing or does not exist, or where there is no
    /// patch or kit entry for the note.
    pub fn map_note(&self, note: Note, track: usize) -> (r: Option<(&Patch, Note)>)
        ensures
            r == match self@.map_note(note, track) {
                Some((i, n)) => Some((&self.patches@[i as int], n)),
                None => None,
            },
    {
        if track < self.tracks.len() {
            match self.tracks[track].target {
                TrackTarget::Silent | TrackTarget::Global => None,
                TrackTarget::Kit => self.get_kit_patch(note),
                TrackTarget::Patch(i) => self.map_input(Some(i), note),
            }
        } else {
            None
        }
    }

    /// The loop start that playback goes back to from `tick`: the last
    /// loop marker of the control track at or before it.
    pub fn find_loop_start(&self, tick: u32) -> (r: Option<u32>)
        ensures
            r is Some <==> self@.has_loop_start(tick),
            r is Some ==> self@.is_loop_start(tick, r.unwrap()),
            r == self@.loop_start(tick),
    {
        let events = self.select_events(Selection::Control);
        let n: usize = events.len();
        let mut found: Option<u32> = None;
        let mut k: usize = 0;
        while k < n
            invariant
                k <= n,
                n == events@.len(),
                events@ == self@.control_events(),
                found is Some ==> found.unwrap() <= tick && exists|i: int|
                    0 <= i < k && (#[trigger] events@[i]).event == (Event {
                        tick: found.unwrap(),
                        data: EventData::Loop,
                    }),
                forall|i: int|
                    0 <= i < k && (#[trigger] events@[i]).event.data == EventData::Loop
                        && events@[i].event.tick <= tick ==> found is Some
                        && events@[i].event.tick <= found.unwrap(),
            decreases n - k,
        {
            let e = events[k].event;
            if e.data == EventData::Loop && e.tick <= tick {
                match found {
                    Some(m) => if e.tick > m {
                        found = Some(e.tick);
                    },
                    None => {
                        found = Some(e.tick);
                    },
                }
            }
            k += 1;
        }
        proof {
            if found is Some {
                assert(self@.is_loop_start(tick, found.unwrap()));
                let m = choose|m: u32| self@.is_loop_start(tick, m);
            }
        }
        found
    }

    /// Returns true if the module ends.
    pub fn ends(&self) -> (b: bool)
        ensures
            b == self@.ends(),
    {
        let events = self.select_events(Selection::Control);
        let n: usize = events.len();
        let mut k: usize = 0;
        while k < n
            invariant
                k <= n,
                n == events@.len(),
                events@ == self@.control_events(),
                forall|i: int| 0 <= i < k ==> (#[trigger] events@[i]).event.data != EventData::End,
            decreases n - k,
        {
            if events[k].event.data == EventData::End {
                return true;
            }
            k += 1;
        }
        false
    }

    /// Returns true if the module loops: the first end or loop marker of
    /// the control track, channel by channel, is a loop marker.
    pub fn loops(&self) -> (b: bool)
        ensures
            b == loops_from(self@.control_events(), 0),
    {
        let events = self.select_events(Selection::Control);
        let n: usize = events.len();
        let mut k: usize = 0;
        while k < n
            invariant
                k <= n,
                n == events@.len(),
                events@ == self@.control_events(),
                loops_from(events@, 0) == loops_from(events@, k as int),
            decreases n - k,
        {
            match events[k].event.data {
                EventData::End => {
                    return false;
                },
                EventData::Loop => {
                    return true;
                },
                _ => {},
            }
            k += 1;
        }
        false
    }

    /// Return the tick value of the last event in the pattern.
    pub fn last_event_tick(&self) -> (r: Option<u32>)
        ensures
            r is None <==> self@.events().len() == 0,
            r is Some ==> self@.is_last_tick(r.unwrap()),
            r == self@.last_tick(),
    {
        let events = self.select_events(Selection::Everything);
        proof {
            assert(self@.events().filter(any_event()) =~= self@.events()) by {
                lemma_filter_everything(self@.events());
            }
        }
        let n: usize = events.len();
        let mut found: Option<u32> = None;
        let mut k: usize = 0;
        while k < n
            invariant
                k <= n,
                n == events@.len(),
                found is None <==> k == 0,
                found is Some ==> exists|i: int|
                    0 <= i < k && (#[trigger] events@[i]).event.tick == found.unwrap(),
                found is Some ==> forall|i: int|
                    0 <= i < k ==> (#[trigger] events@[i]).event.tick <= found.unwrap(),
            decreases n - k,
        {
            let tick = events[k].event.tick;
            match found {
                Some(m) => if tick > m {
                    found = Some(tick);
                },
                None => {
                    found = Some(tick);
                },
            }
            k += 1;
        }
        proof {
            if found is Some {
                assert(self@.is_last_tick(found.unwrap()));
                let m = choose|m: u32| self@.is_last_tick(m);
                assert(m == found.unwrap());
            }
        }
        found
    }

    /// Returns the loop start of the control track that lies farthest from
    /// `tick`: of several that lie as far, the one that comes last, channel
    /// by channel.
    pub fn nearest_loop(&self, tick: u32) -> (r: Option<u32>)
        ensures
            r is None <==> forall|i: int|
                0 <= i < self@.control_events().len() ==> (
                #[trigger] self@.control_events()[i]).event.data != EventData::Loop,
            r is Some ==> exists|j: int|
                0 <= j < self@.control_events().len() && is_farthest_loop(
                    self@.control_events(),
                    tick,
                    j,
                ) && (#[trigger] self@.control_events()[j]).event.tick == r.unwrap(),
    {
        let events = self.select_events(Selection::Control);
        let n: usize = events.len();
        let mut found: Option<u32> = None;
        let ghost mut at: int = 0;
        let mut k: usize = 0;
        while k < n
            invariant
                k <= n,
                n == events@.len(),
                events@ == self@.control_events(),
                found is None <==> forall|i: int|
                    0 <= i < k ==> (#[trigger] events@[i]).event.data != EventData::Loop,
                found is Some ==> 0 <= at < k && events@[at].event == (Event {
                    tick: found.unwrap(),
                    data: EventData::Loop,
                }),
                found is Some ==> forall|i: int|
                    0 <= i < k && (#[trigger] events@[i]).event.data == EventData::Loop
                        ==> spec_distance(events@[i].event.tick, tick) <= spec_distance(
                        found.unwrap(),
                        tick,
                    ) && (i > at ==> spec_distance(events@[i].event.tick, tick) < spec_distance(
                        found.unwrap(),
                        tick,
                    )),
            decreases n - k,
        {
            let e = events[k].event;
            if e.data == EventData::Loop {
                let replace = match found {
                    Some(m) => distance(e.tick, tick) >= distance(m, tick),
                    None => true,
                };
                if replace {
                    found = Some(e.tick);
                    proof {
                        at = k as int;
                    }
                }
            }
            k += 1;
        }
        found
    }

    /// Return the tempo at a given tick.
    pub fn tempo_at(&self, tick: u32) -> (tempo: Tempo)
        ensures
            tempo == self@.tempo_at(tick),
    {
        let located = self.select_events(Selection::ControlBefore(tick));
        let mut events: Vec<Event> = Vec::new();
        let n: usize = located.len();
        let mut k: usize = 0;
        while k < n
            invariant
                k <= n,
                n == located@.len(),
                events@ == located@.take(k as int).map_values(unlocated()),
            decreases n - k,
        {
            events.push(located[k].event);
            k += 1;
        }
        assert(located@.take(n as int) == located@);
        sort_events(&mut events);
        let mut tempo = Tempo::standard();
        let mut i: usize = 0;
        while i < n
            invariant
                i <= n,
                n == events@.len(),
                tempo == tempo_after(Tempo::spec_standard(), events@.take(i as int)),
            decreases n - i,
        {
            assert(events@.take(i + 1).drop_last() =~= events@.take(i as int));
            tempo = tempo_changed(tempo, events[i].data);
            i += 1;
        }
        assert(events@.take(n as int) == events@);
        tempo
    }
}

/// Whether the event at index `j` is a loop marker, no loop marker lies
/// farther from `tick`, and none behind it lies as far.
pub open spec fn is_farthest_loop(events: Seq<LocatedEvent>, tick: u32, j: int) -> bool {
    &&& 0 <= j < events.len()
    &&& events[j].event.data == EventData::Loop
    &&& forall|i: int|
        0 <= i < events.len() && (#[trigger] events[i]).event.data == EventData::Loop
            ==> spec_distance(events[i].event.tick, tick) <= spec_distance(
            events[j].event.tick,
            tick,
        ) && (i > j ==> spec_distance(events[i].event.tick, tick) < spec_distance(
            events[j].event.tick,
            tick,
        ))
}

proof fn lemma_filter_everything(events: Seq<LocatedEvent>)
    ensures
        events.filter(any_event()) == events,
    decreases events.len(),
{
    reveal(Seq::filter);
    if events.len() > 0 {
        lemma_filter_everything(events.drop_last());
    }
}


/// The place one channel on from a place: the next channel of the track,
/// or the first channel of the next track behind its last.
pub open spec fn next_place(tracks: Seq<TrackView>, track: int, channel: int) -> (int, int) {
    if channel + 1 >= tracks[track].channels.len() {
        (track + 1, 0)
    } else {
        (track, channel + 1)
    }
}

/// Number of steps, channel by channel, from a place until neither the
/// track nor the channel lies before that of `end`, or until the tracks
/// end.
pub open spec fn steps_between(tracks: Seq<TrackView>, track: int, channel: int, end: Position) -> nat
    decreases
        tracks.len() - track,
        if 0 <= track < tracks.len() {
            tracks[track].channels.len() - channel
        } else {
            0
        },
{
    if track < 0 || channel < 0 || track >= tracks.len() || !(track < end.track || channel
        < end.channel) {
        0
    } else {
        let next = next_place(tracks, track, channel);
        1 + steps_between(tracks, next.0, next.1, end)
    }
}

/// The place `n` channels on from a place, if the tracks go that far.
pub open spec fn place_after(tracks: Seq<TrackView>, track: int, channel: int, n: nat) -> Option<
    (int, int),
>
    decreases n,
{
    if n == 0 {
        Some((track, channel))
    } else if track < 0 || track >= tracks.len() {
        None
    } else {
        let next = next_place(tracks, track, channel);
        if next.0 >= tracks.len() {
            None
        } else {
            place_after(tracks, next.0, next.1, (n - 1) as nat)
        }
    }
}

impl Position {
    /// The position `channels` channels on, or `None` if it is out of
    /// range.
    pub fn add_channels(&self, channels: usize, tracks: &Vec<Track>) -> (r: Option<Position>)
        ensures
            r == match place_after(
                tracks_view(tracks@),
                self.track as int,
                self.channel as int,
                channels as nat,
            ) {
                Some(place) => Some(
                    Position { track: place.0 as usize, channel: place.1 as usize, ..*self },
                ),
                None => None,
            },
    {
        let mut track: usize = self.track;
        let mut channel: usize = self.channel;
        let mut i: usize = 0;
        while i < channels
            invariant
                i <= channels,
                place_after(
                    tracks_view(tracks@),
                    self.track as int,
                    self.channel as int,
                    channels as nat,
                ) == place_after(
                    tracks_view(tracks@),
                    track as int,
                    channel as int,
                    (channels - i) as nat,
                ),
            decreases channels - i,
        {
            if track >= tracks.len() {
                return None;
            }
            let n: usize = tracks[track].channels.len();
            if n <= 1 || channel >= n - 1 {
                track += 1;
                channel = 0;
            } else {
                channel += 1;
            }
            if track >= tracks.len() {
                return None;
            }
            i += 1;
        }
        Some(Position { tick: self.tick, track, channel, column: self.column })
    }
}

impl Module {
    /// Return the number of channels between two positions.
    pub fn channels_between(&self, start: Position, end: Position) -> (n: usize)
        ensures
            n == (if steps_between(self@.tracks, start.track as int, start.channel as int, end)
                > usize::MAX {
                usize::MAX as nat
            } else {
                steps_between(self@.tracks, start.track as int, start.channel as int, end)
            }),
    {
        let mut n: usize = 0;
        let mut t: usize = start.track;
        let mut c: usize = start.channel;
        let ghost total = steps_between(self@.tracks, start.track as int, start.channel as int, end);
        while t < self.tracks.len() && (t < end.track || c < end.channel)
            invariant
                total == steps_between(self@.tracks, start.track as int, start.channel as int, end),
                n < usize::MAX ==> total == n + steps_between(
                    self@.tracks,
                    t as int,
                    c as int,
                    end,
                ),
                n == usize::MAX ==> total >= usize::MAX,
            decreases
                self.tracks@.len() - t,
                if t < self.tracks@.len() {
                    self.tracks@[t as int].channels@.len() - c
                } else {
                    0
                },
        {
            let len: usize = self.tracks[t].channels.len();
            if n < usize::MAX {
                n += 1;
            }
            if len <= 1 || c >= len - 1 {
                t += 1;
                c = 0;
            } else {
                c += 1;
            }
        }
        n
    }
}


/// Nanoseconds that a tick lasts at one beat per minute.
pub const TICK_NANOS: u64 = 500_000_000;

/// The time in nanoseconds from `from` to `to` at `tempo`, rounded down: 0
/// if `to` does not lie behind `from`, and none at a tempo of 0 or one
/// without a denominator.
pub open spec fn spec_interval(from: u32, to: u32, tempo: Tempo) -> Option<nat> {
    if to <= from {
        Some(0)
    } else if tempo.num == 0 || tempo.den == 0 {
        None
    } else {
        Some((((to - from) * tempo.den * TICK_NANOS) / (tempo.num as int)) as nat)
    }
}

pub fn interval(from: u32, to: u32, tempo: Tempo) -> (r: Option<u128>)
    ensures
        r is Some <==> spec_interval(from, to, tempo) is Some,
        r is Some ==> r.unwrap() == spec_interval(from, to, tempo).unwrap(),
        r is Some ==> r.unwrap() <= 0xffff_ffff * 0xffff_ffff * 500_000_000,
{
    if to <= from {
        Some(0)
    } else if tempo.num == 0 || tempo.den == 0 {
        None
    } else {
        let ticks: u128 = (to - from) as u128;
        let den: u128 = tempo.den as u128;
        assert(ticks * den * 500_000_000 <= 0xffff_ffff * 0xffff_ffff * 500_000_000)
            by (nonlinear_arith)
            requires
                ticks <= 0xffff_ffff,
                den <= 0xffff_ffff,
        ;
        Some(ticks * den * TICK_NANOS as u128 / tempo.num as u128)
    }
}

/// The playing time from the control event with index `k` on, given the
/// tick and tempo of the last tempo event and the time up to it.
pub open spec fn playtime_from(
    events: Seq<LocatedEvent>,
    k: int,
    tick: u32,
    time: nat,
    tempo: Tempo,
    last: Option<u32>,
) -> Option<nat>
    decreases events.len() - k,
{
    if k < 0 || k >= events.len() {
        match last {
            Some(l) => match spec_interval(tick, l, tempo) {
                Some(d) => Some(time + d),
                None => None,
            },
            None => Some(time),
        }
    } else {
        let e = events[k].event;
        match e.data {
            EventData::End => match spec_interval(tick, e.tick, tempo) {
                Some(d) => Some(time + d),
                None => None,
            },
            EventData::Tempo(_) | EventData::RationalTempo(_, _) => match spec_interval(
                tick,
                e.tick,
                tempo,
            ) {
                Some(d) => playtime_from(
                    events,
                    k + 1,
                    e.tick,
                    time + d,
                    spec_tempo_changed(tempo, e.data),
                    last,
                ),
                None => None,
            },
            _ => playtime_from(events, k + 1, tick, time, tempo, last),
        }
    }
}

/// The playing time never falls below the time that has passed.
pub proof fn lemma_playtime_grows(
    events: Seq<LocatedEvent>,
    k: int,
    tick: u32,
    time: nat,
    tempo: Tempo,
    last: Option<u32>,
)
    ensures
        playtime_from(events, k, tick, time, tempo, last) is Some ==> playtime_from(
            events,
            k,
            tick,
            time,
            tempo,
            last,
        ).unwrap() >= time,
    decreases events.len() - k,
{
    if 0 <= k < events.len() {
        let e = events[k].event;
        match e.data {
            EventData::End => {},
            EventData::Tempo(_) | EventData::RationalTempo(_, _) => {
                if let Some(d) = spec_interval(tick, e.tick, tempo) {
                    lemma_playtime_grows(
                        events,
                        k + 1,
                        e.tick,
                        time + d,
                        spec_tempo_changed(tempo, e.data),
                        last,
                    );
                }
            },
            _ => {
                lemma_playtime_grows(events, k + 1, tick, time, tempo, last);
            },
        }
    }
}

impl Module {
    /// Returns the total playtime of the module in nanoseconds, or `None`
    /// where a tempo of 0 keeps it from ever ending or the time does not
    /// fit.
    pub fn playtime(&self) -> (r: Option<u64>)
        ensures
            r == self@.playtime(),
    {
        let events = self.select_events(Selection::Control);
        let last = self.last_event_tick();
        let n: usize = events.len();
        let mut tick: u32 = 0;
        let mut time: u128 = 0;
        let mut tempo = Tempo::standard();
        let mut k: usize = 0;
        while k < n
            invariant
                k <= n,
                n == events@.len(),
                events@ == self@.control_events(),
                last == self@.last_tick(),
                time <= u64::MAX,
                playtime_from(events@, 0, 0, 0, Tempo::spec_standard(), last) == playtime_from(
                    events@,
                    k as int,
                    tick,
                    time as nat,
                    tempo,
                    last,
                ),
            decreases n - k,
        {
            let e = events[k].event;
            match e.data {
                EventData::End => {
                    return match interval(tick, e.tick, tempo) {
                        Some(d) => if time + d <= u64::MAX as u128 {
                            Some((time + d) as u64)
                        } else {
                            None
                        },
                        None => None,
                    };
                },
                EventData::Tempo(_) | EventData::RationalTempo(_, _) => {
                    match interval(tick, e.tick, tempo) {
                        Some(d) => {
                            proof {
                                lemma_playtime_grows(
                                    events@,
                                    k + 1,
                                    e.tick,
                                    (time + d) as nat,
                                    spec_tempo_changed(tempo, e.data),
                                    last,
                                );
                            }
                            if time + d > u64::MAX as u128 {
                                return None;
                            }
                            time = time + d;
                            tick = e.tick;
                            tempo = tempo_changed(tempo, e.data);
                        },
                        None => {
                            return None;
                        },
                    }
                },
                _ => {},
            }
            k += 1;
        }
        match last {
            Some(l) => match interval(tick, l, tempo) {
                Some(d) => if time + d <= u64::MAX as u128 {
                    Some((time + d) as u64)
                } else {
                    None
                },
                None => None,
            },
            None => Some(time as u64),
        }
    }
}

} // verus!
