//! A whole playback of the smallest song: one note and an end.
//!
//! Frame after frame, playback of such a module goes through three states:
//! before the note, while the note sounds, and stopped. It starts the note
//! once, releases it when the end falls due, and leaves no voice behind.

use crate::backend::{next_id, Command, SequencerView};
use crate::module::{within, Event, EventData, LocatedEvent, ModuleView, Note};
use crate::playback::{spec_pattern_key, PlayerView, DEFAULT_PRESSURE};
use crate::settings::SettingsView;
use crate::synth::{commanding, sparing, Change, KeyOrigin, Selector, SynthView, Voice};
use crate::tempo::lemma_step_ticks;
use vstd::prelude::*;

verus! {

/// Where the one note and the end of a module are.
pub struct OneNote {
    /// Track and channel of the note, which is at tick 0.
    pub track: usize,
    pub channel: usize,
    pub note: Note,
    /// Channel of the end in the control track, and its tick.
    pub end_channel: usize,
    pub end: u32,
}

impl OneNote {
    pub open spec fn pitch_event(self) -> LocatedEvent {
        LocatedEvent {
            track: self.track,
            channel: self.channel,
            event: Event { tick: 0, data: EventData::Pitch(self.note) },
        }
    }

    pub open spec fn end_event(self) -> LocatedEvent {
        LocatedEvent {
            track: 0,
            channel: self.end_channel,
            event: Event { tick: self.end, data: EventData::End },
        }
    }

    /// The module holds the note, which its track maps to a patch, and the
    /// end behind tick 0, and nothing else.
    pub open spec fn is_all_of(self, module: ModuleView) -> bool {
        &&& self.end > 0
        &&& module.map_note(self.note, self.track) is Some
        &&& (module.events() == seq![self.end_event(), self.pitch_event()] || module.events()
            == seq![self.pitch_event(), self.end_event()])
    }

    /// The settings of the patch that the note plays.
    pub open spec fn settings(self, module: ModuleView) -> SettingsView {
        module.patches[module.map_note(self.note, self.track).unwrap().0 as int].settings
    }

    /// The synth of the track as the note finds it, with the patch loaded.
    pub open spec fn loaded(self, module: ModuleView, p: PlayerView) -> SynthView {
        SynthView { settings: self.settings(module), ..p.synths[self.track as int] }
    }

    /// The synth of the track while the note sounds.
    pub open spec fn sounding(self, module: ModuleView, p: PlayerView) -> SynthView {
        self.loaded(module, p).note_on(
            spec_pattern_key(self.channel),
            module.map_note(self.note, self.track).unwrap().1.pitch,
            DEFAULT_PRESSURE,
            p.seq.next_voice,
        )
    }

    /// The command that starts the note.
    pub open spec fn start(self, module: ModuleView, p: PlayerView) -> Command {
        self.loaded(module, p).start_command(
            spec_pattern_key(self.channel),
            module.map_note(self.note, self.track).unwrap().1.pitch,
            DEFAULT_PRESSURE,
            p.seq.next_voice,
        )
    }

    /// The command that releases the note.
    pub open spec fn release(self, module: ModuleView, p: PlayerView) -> Command {
        Command::Release {
            voice: p.seq.next_voice,
            release_time: self.settings(module).release_time(),
        }
    }

    /// Playback has not reached the note: it is at tick 0 and nothing was
    /// issued.
    pub open spec fn before_note(self, p: PlayerView, f: PlayerView) -> bool {
        f == (PlayerView { clock: f.clock, ..p })
    }

    /// The note sounds: playback is behind tick 0 and not behind the end,
    /// the one command issued started the note, and its voice is the one
    /// voice there is.
    pub open spec fn during_note(self, module: ModuleView, p: PlayerView, f: PlayerView) -> bool {
        &&& 0 < f.tick <= self.end
        &&& f == (PlayerView {
            tick: f.tick,
            clock: f.clock,
            seq: SequencerView {
                next_voice: next_id(p.seq.next_voice),
                commands: p.seq.commands.push(self.start(module, p)),
            },
            synths: p.synths.update(self.track as int, self.sounding(module, p)),
            ..p
        })
    }

    /// Playback has stopped behind the end: the note was started, then
    /// released, nothing else was issued, and no voice is left.
    pub open spec fn after_end(self, module: ModuleView, p: PlayerView, f: PlayerView) -> bool {
        &&& f.tick > self.end
        &&& f == (PlayerView {
            tick: f.tick,
            clock: f.clock,
            playing: false,
            seq: SequencerView {
                next_voice: next_id(p.seq.next_voice),
                commands: p.seq.commands.push(self.start(module, p)).push(
                    self.release(module, p),
                ),
            },
            synths: p.synths.update(
                self.track as int,
                SynthView { voices: Seq::empty(), ..self.loaded(module, p) },
            ),
            ..p
        })
    }
}

/// No synth holds a voice.
pub open spec fn silent(p: PlayerView) -> bool {
    forall|i: int| 0 <= i < p.synths.len() ==> (#[trigger] p.synths[i]).voices.len() == 0
}

/// The note finds an empty pool: it starts one voice, whatever the play
/// mode, and that is the one command.
proof fn lemma_note_starts(s: OneNote, module: ModuleView, p: PlayerView)
    requires
        s.track < p.synths.len(),
        silent(p),
    ensures
        s.sounding(module, p).voices == seq![
            s.loaded(module, p).new_voice(
                spec_pattern_key(s.channel),
                module.map_note(s.note, s.track).unwrap().1.pitch,
                DEFAULT_PRESSURE,
                p.seq.next_voice,
            ),
        ],
        s.loaded(module, p).note_on_commands(
            spec_pattern_key(s.channel),
            module.map_note(s.note, s.track).unwrap().1.pitch,
            DEFAULT_PRESSURE,
            p.seq.next_voice,
        ) == seq![s.start(module, p)],
        !s.loaded(module, p).reuses_voice(),
{
    reveal(Seq::filter);
}

/// Clearing the notes of the pattern while the one note sounds releases
/// its voice and nothing else.
proof fn lemma_clear_one(s: OneNote, module: ModuleView, p: PlayerView, x: PlayerView, upto: int)
    requires
        s.track < p.synths.len(),
        silent(p),
        x.synths == p.synths.update(s.track as int, s.sounding(module, p)),
        0 <= upto <= x.synths.len(),
    ensures
        x.cleared_upto(KeyOrigin::Pattern, upto) == (if upto > s.track {
            PlayerView {
                seq: SequencerView {
                    commands: x.seq.commands.push(s.release(module, p)),
                    ..x.seq
                },
                synths: p.synths.update(
                    s.track as int,
                    SynthView { voices: Seq::empty(), ..s.loaded(module, p) },
                ),
                ..x
            }
        } else {
            x
        }),
    decreases upto,
{
    reveal(Seq::filter);
    if upto > 0 {
        lemma_clear_one(s, module, p, x, upto - 1);
        lemma_note_starts(s, module, p);
        let y = x.cleared_upto(KeyOrigin::Pattern, upto - 1);
        let i = upto - 1;
        let z = y.released(i as usize, Selector::From(KeyOrigin::Pattern));
        let picked = Selector::From(KeyOrigin::Pattern);
        if i == s.track {
            let voices = s.sounding(module, p).voices;
            let v = voices[0];
            lemma_filter_few(v, v, sparing(picked));
            Seq::<Voice>::lemma_filter_map_singleton(v, commanding(picked, Change::Release));
            assert(z.seq.commands =~= x.seq.commands.push(s.release(module, p)));
            assert(z.synths =~= p.synths.update(
                s.track as int,
                SynthView { voices: Seq::empty(), ..s.loaded(module, p) },
            ));
        } else {
            assert(z.synths =~= y.synths);
        }
    }
}

/// A module of one note and an end has no loop start.
proof fn lemma_no_loop(s: OneNote, module: ModuleView, tick: u32)
    requires
        s.is_all_of(module),
    ensures
        module.loop_start(tick) is None,
{
    if module.has_loop_start(tick) {
        let control = module.control_events();
        let i = choose|i: int|
            0 <= i < control.len() && (#[trigger] control[i]).event.data == EventData::Loop
                && control[i].event.tick <= tick;
        module.events().lemma_filter_contains_rev(crate::module::on_control_track(), control[i]);
    }
}

/// What a condition picks of one item, and of two.
proof fn lemma_filter_few<A>(a: A, b: A, pred: spec_fn(A) -> bool)
    ensures
        seq![a].filter(pred) == (if pred(a) {
            seq![a]
        } else {
            Seq::<A>::empty()
        }),
        seq![a, b].filter(pred) == (if pred(a) {
            seq![a]
        } else {
            Seq::<A>::empty()
        }) + (if pred(b) {
            seq![b]
        } else {
            Seq::<A>::empty()
        }),
{
    let none = Seq::<A>::empty();
    none.lemma_filter_push(a, pred);
    assert(seq![a].push(b) =~= seq![a, b]);
    seq![a].lemma_filter_push(b, pred);
}

/// The events of the module that fall due in a window.
proof fn lemma_window(s: OneNote, module: ModuleView, from: u32, to: u32)
    requires
        s.is_all_of(module),
    ensures
        from == 0 && 0 < to <= s.end ==> module.events().filter(within(from, to)) == seq![
            s.pitch_event(),
        ],
        0 < from <= s.end && s.end < to ==> module.events().filter(within(from, to)) == seq![
            s.end_event(),
        ],
        (from == 0 && to == 0) || (0 < from && to <= s.end) ==> module.events().filter(
            within(from, to),
        ) == Seq::<LocatedEvent>::empty(),
{
    let pred = within(from, to);
    let e = s.end_event();
    let n = s.pitch_event();
    lemma_filter_few(e, n, pred);
    lemma_filter_few(n, e, pred);
}

/// Playback of one note and an end, from tick 0 with no voice sounding,
/// through any number of frames of which none counts more ticks than lie
/// before the end: at every moment playback has not reached the note, or
/// the note sounds, or playback has stopped. So the note is started once
/// and never again, it is started before playback stops, it is released
/// when playback stops, and no voice is left then.
pub proof fn lemma_one_note_and_an_end(
    s: OneNote,
    module: ModuleView,
    p: PlayerView,
    dts: Seq<u64>,
)
    requires
        s.is_all_of(module),
        s.track < p.synths.len(),
        p.playing,
        p.tick == 0,
        silent(p),
        forall|k: int|
            0 <= k < dts.len() ==> p.clock.advanced_over(#[trigger] dts.take(k), p.tempo).ticks(
                dts[k],
                p.tempo,
            ) <= s.end,
    ensures
        s.before_note(p, p.frames(module, dts)) || s.during_note(module, p, p.frames(module, dts))
            || s.after_end(module, p, p.frames(module, dts)),
        p.frames(module, dts).playing ==> p.frames(module, dts).clock == p.clock.advanced_over(
            dts,
            p.tempo,
        ),
    decreases dts.len(),
{
    if dts.len() > 0 {
        let rest = dts.drop_last();
        let dt = dts.last();
        assert forall|k: int| 0 <= k < rest.len() implies p.clock.advanced_over(
            #[trigger] rest.take(k),
            p.tempo,
        ).ticks(rest[k], p.tempo) <= s.end by {
            assert(rest.take(k) =~= dts.take(k));
            assert(rest[k] == dts[k]);
        }
        lemma_one_note_and_an_end(s, module, p, rest);
        let q = p.frames(module, rest);
        if q.playing {
            lemma_step_ticks(q.clock, dt, q.tempo);
            let a = q.advanced(dt);
            let events = module.events().filter(within(q.tick, a.tick));
            lemma_window(s, module, q.tick, a.tick);
            lemma_no_loop(s, module, a.tick);
            lemma_note_starts(s, module, p);
            if s.before_note(p, q) {
                if a.tick != 0 {
                    assert(a.dispatched(module, q.tick, events, 0) == a);
                    let h = a.handle(module, EventData::Pitch(s.note), s.track, s.channel);
                    assert(h.seq.commands =~= p.seq.commands.push(s.start(module, p)));
                }
            } else {
                if a.tick > s.end {
                    assert(a.dispatched(module, q.tick, events, 0) == a);
                    let stopped = PlayerView { playing: false, ..a };
                    lemma_clear_one(s, module, p, stopped, stopped.synths.len() as int);
                }
            }
        }
    }
}

} // verus!
