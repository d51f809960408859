use vstd::prelude::*;
use crate::FULL;
use crate::filter::FILTER_BOUND;
use crate::pitch::{note_frequency, note_to_pitch};
use crate::units::SampleRateKhz;
use crate::voice::{
    next_state, process_layer, sine_table_valid, voice_output, Layer, VoiceState,
};

verus! {

/// The number of voices in the pool.
pub const NUM_VOICES: usize = 8;

/// A MIDI note number.
#[derive(Clone, Copy, Debug, PartialEq, Eq, Structural)]
pub struct Note(pub u8);

/// The velocity of a note-on, `FULL` standing for 1.0.
#[derive(Clone, Copy, Debug, PartialEq, Eq, Structural)]
pub struct Velocity(pub i32);

impl Velocity {
    /// The velocity of a MIDI note-on, `0..=127` scaled onto `0..=FULL`, rounded down.
    pub fn from_midi(velocity: u8) -> (r: Velocity)
        requires
            velocity <= 127,
        ensures
            r.0 == velocity * FULL / 127,
    {
        Velocity((velocity as i32 * FULL) / 127)
    }
}

/// What a note-off did.
#[derive(Clone, Copy, Debug, PartialEq, Eq, Structural)]
pub enum NoteOffOutcome {
    /// The active voice of the note was released.
    Released,
    /// The active voice of the note had been released already; nothing changed.
    AlreadyReleased,
    /// No voice was playing the note; nothing changed.
    NotPlaying,
}

/// What a note-off of `note` does to a pool.
pub open spec fn note_off_outcome(voices: Seq<Voice>, note: Note) -> NoteOffOutcome {
    match active_index(voices, note, voices.len()) {
        Some(i) => if voices[i].release_frame_offset is None {
            NoteOffOutcome::Released
        } else {
            NoteOffOutcome::AlreadyReleased
        },
        None => NoteOffOutcome::NotPlaying,
    }
}

/// A number of frames since a voice's note-on.
#[derive(Clone, Copy, Debug, PartialEq, Eq, Structural)]
pub struct FrameOffset(pub u32);

/// One slot of the voice pool.
#[derive(Clone, Copy, Debug)]
pub struct Voice {
    pub note: Note,
    pub velocity: Velocity,
    /// The frame the voice is at; none while the slot has never sounded.
    pub current_frame_offset: Option<FrameOffset>,
    /// The frame of the note-off, once it came.
    pub release_frame_offset: Option<FrameOffset>,
    /// The frame at which the same note was struck again on another voice, after
    /// which this voice fades out.
    pub fast_fade_frame_offset: Option<FrameOffset>,
    pub state: VoiceState,
}

impl Voice {
    /// A slot that has never sounded.
    pub fn new() -> (r: Voice)
        ensures
            r == idle_voice(),
    {
        Voice {
            note: Note(0),
            velocity: Velocity(0),
            current_frame_offset: None,
            release_frame_offset: None,
            fast_fade_frame_offset: None,
            state: VoiceState::new(0),
        }
    }

    /// The voice that is playing its note: it sounds and has not been faded out by a
    /// newer voice of the same note.
    pub open spec fn active(&self) -> bool {
        self.current_frame_offset is Some && self.fast_fade_frame_offset is None
    }

    /// Whether this is the voice that is playing its note.
    pub fn is_active(&self) -> (r: bool)
        ensures
            r == self.active(),
    {
        self.current_frame_offset.is_some() && self.fast_fade_frame_offset.is_none()
    }

    /// How long the voice has sounded. A slot that never sounded counts as infinitely
    /// old: one more than any frame count, so that it is taken before any voice that
    /// sounds, even one whose frame count has reached `u32::MAX`.
    pub open spec fn age(&self) -> int {
        match self.current_frame_offset {
            Some(o) => o.0 as int,
            None => u32::MAX as int + 1,
        }
    }

    fn age_of(&self) -> (r: u64)
        ensures
            r == self.age(),
    {
        match self.current_frame_offset {
            Some(o) => o.0 as u64,
            None => u32::MAX as u64 + 1,
        }
    }

    /// The frame from which the voice releases: its note-off, or else the frame at
    /// which it was faded out.
    pub open spec fn effective_release(&self) -> Option<u32> {
        match self.release_frame_offset {
            Some(r) => Some(r.0),
            None => match self.fast_fade_frame_offset {
                Some(f) => Some(f.0),
                None => None,
            },
        }
    }

    fn release_of(&self) -> (r: Option<u32>)
        ensures
            r == self.effective_release(),
    {
        match self.release_frame_offset {
            Some(r) => Some(r.0),
            None => match self.fast_fade_frame_offset {
                Some(f) => Some(f.0),
                None => None,
            },
        }
    }

    /// A note within MIDI's range and a filter within its bound.
    pub open spec fn valid(&self) -> bool {
        &&& self.note.0 <= 127
        &&& self.state.valid()
    }
}

/// A slot that has never sounded.
pub open spec fn idle_voice() -> Voice {
    Voice {
        note: Note(0),
        velocity: Velocity(0),
        current_frame_offset: None,
        release_frame_offset: None,
        fast_fade_frame_offset: None,
        state: VoiceState {
            osc: crate::oscillator::OscillatorState { phase_accum: None },
            noise: crate::noise::NoiseState { seed: 0 },
            lpf: crate::filter::LowPassFilterState { last: 0 },
        },
    }
}

/// A voice just struck: at frame 0, not released, not faded, its state fresh.
pub open spec fn struck_voice(note: Note, velocity: Velocity) -> Voice {
    Voice {
        note,
        velocity,
        current_frame_offset: Some(FrameOffset(0)),
        release_frame_offset: None,
        fast_fade_frame_offset: None,
        state: idle_voice().state,
    }
}

/// The voice after a note-on of `note`: if it is the active voice of that note, it is
/// marked to fade out from its current frame.
pub open spec fn faded(v: Voice, note: Note) -> Voice {
    if v.note == note && v.active() {
        Voice { fast_fade_frame_offset: v.current_frame_offset, ..v }
    } else {
        v
    }
}

/// The pool after every active voice of `note` is marked to fade out.
pub open spec fn faded_all(voices: Seq<Voice>, note: Note) -> Seq<Voice> {
    Seq::new(voices.len(), |i: int| faded(voices[i], note))
}

/// The slot among the first `n` that a new note takes: the oldest, the first of
/// them where several are as old.
pub open spec fn oldest_index(voices: Seq<Voice>, n: nat) -> int
    decreases n,
{
    if n <= 1 {
        0
    } else {
        let best = oldest_index(voices, (n - 1) as nat);
        if voices[n - 1].age() > voices[best].age() {
            n - 1
        } else {
            best
        }
    }
}

/// The pool after a note-on: voices of the same note fade, and the oldest slot is
/// struck with the new note.
pub open spec fn after_note_on(voices: Seq<Voice>, note: Note, velocity: Velocity) -> Seq<Voice> {
    let f = faded_all(voices, note);
    f.update(oldest_index(f, voices.len()), struck_voice(note, velocity))
}

/// The last of the first `n` slots that is the active voice of `note`.
pub open spec fn active_index(voices: Seq<Voice>, note: Note, n: nat) -> Option<int>
    decreases n,
{
    if n == 0 {
        None
    } else if voices[n - 1].note == note && voices[n - 1].active() {
        Some(n - 1)
    } else {
        active_index(voices, note, (n - 1) as nat)
    }
}

/// The pool after a note-off: the active voice of the note, if any, is released at its
/// current frame, unless it was released already.
pub open spec fn after_note_off(voices: Seq<Voice>, note: Note) -> Seq<Voice> {
    match active_index(voices, note, voices.len()) {
        Some(i) => if voices[i].release_frame_offset is None {
            voices.update(i, Voice { release_frame_offset: voices[i].current_frame_offset, ..voices[i] })
        } else {
            voices
        },
        None => voices,
    }
}

/// A frame count advanced by one, held at `u32::MAX`.
pub open spec fn saturating_next(o: u32) -> u32 {
    if o < u32::MAX { (o + 1) as u32 } else { u32::MAX }
}

/// What a voice adds to one frame.
pub open spec fn contribution(config: Layer, sine_table: Seq<i16>, rate: int, v: Voice) -> int {
    match v.current_frame_offset {
        Some(o) => {
            let plan = config.plan(note_frequency(v.note.0 as int), rate, o.0 as int, v.effective_release());
            voice_output(plan, v.state, o.0 as int, sine_table)
        },
        None => 0,
    }
}

/// A voice one frame later.
pub open spec fn advanced(config: Layer, sine_table: Seq<i16>, rate: int, v: Voice) -> Voice {
    match v.current_frame_offset {
        Some(o) => {
            let plan = config.plan(note_frequency(v.note.0 as int), rate, o.0 as int, v.effective_release());
            Voice {
                current_frame_offset: Some(FrameOffset(saturating_next(o.0))),
                state: next_state(plan, v.state, o.0 as int, sine_table),
                ..v
            }
        },
        None => v,
    }
}

/// The sum of what the first `n` voices add to one frame.
pub open spec fn frame_sum(config: Layer, sine_table: Seq<i16>, rate: int, voices: Seq<Voice>, n: nat) -> int
    decreases n,
{
    if n == 0 {
        0
    } else {
        frame_sum(config, sine_table, rate, voices, (n - 1) as nat)
            + contribution(config, sine_table, rate, voices[n - 1])
    }
}

/// The pool one frame later.
pub open spec fn advanced_all(config: Layer, sine_table: Seq<i16>, rate: int, voices: Seq<Voice>) -> Seq<Voice> {
    Seq::new(voices.len(), |i: int| advanced(config, sine_table, rate, voices[i]))
}

/// The pool after `n` frames.
pub open spec fn voices_after(config: Layer, sine_table: Seq<i16>, rate: int, voices: Seq<Voice>, n: nat) -> Seq<Voice>
    decreases n,
{
    if n == 0 {
        voices
    } else {
        advanced_all(config, sine_table, rate, voices_after(config, sine_table, rate, voices, (n - 1) as nat))
    }
}

/// Frame `k` of a rendered block: the sum over the voices, in slot order, at that frame.
pub open spec fn rendered_frame(config: Layer, sine_table: Seq<i16>, rate: int, voices: Seq<Voice>, k: nat) -> int {
    let vs = voices_after(config, sine_table, rate, voices, k);
    frame_sum(config, sine_table, rate, vs, vs.len())
}

/// A polyphonic synthesizer: a fixed pool of voices that share one configuration.
pub struct Synth {
    pub config: Layer,
    /// One cycle of a sine, for the sine oscillator.
    pub sine_table: Vec<i16>,
    pub voices: Vec<Voice>,
}

impl Synth {
    /// A valid configuration and sine table, and a full pool of valid voices.
    pub open spec fn valid(&self) -> bool {
        &&& self.config.valid()
        &&& sine_table_valid(self.sine_table@)
        &&& self.voices.len() == NUM_VOICES
        &&& forall|i: int| 0 <= i < self.voices.len() ==> #[trigger] self.voices@[i].valid()
    }

    /// A synthesizer whose voices have never sounded.
    pub fn new(config: Layer, sine_table: Vec<i16>) -> (r: Synth)
        requires
            config.valid(),
            sine_table_valid(sine_table@),
        ensures
            r.valid(),
            r.config == config,
            r.sine_table@ == sine_table@,
            r.voices@ == Seq::new(NUM_VOICES as nat, |i: int| idle_voice()),
    {
        let mut voices: Vec<Voice> = Vec::new();
        let mut i: usize = 0;
        while i < NUM_VOICES
            invariant
                i <= NUM_VOICES,
                voices@ == Seq::new(i as nat, |j: int| idle_voice()),
            decreases NUM_VOICES - i,
        {
            voices.push(Voice::new());
            i = i + 1;
            assert(voices@ =~= Seq::new(i as nat, |j: int| idle_voice()));
        }
        Synth { config, sine_table, voices }
    }

    /// The voice in slot `index`.
    pub fn voice(&self, index: usize) -> (r: Voice)
        requires
            index < self.voices.len(),
        ensures
            r == self.voices@[index as int],
    {
        self.voices[index]
    }

    /// Marks every active voice of `note` to fade out from its current frame.
    fn fade_existing_voices(&mut self, note: Note)
        requires
            old(self).valid(),
        ensures
            final(self).valid(),
            final(self).config == old(self).config,
            final(self).sine_table@ == old(self).sine_table@,
            final(self).voices@ == faded_all(old(self).voices@, note),
    {
        let ghost before = self.voices@;
        let mut i: usize = 0;
        while i < self.voices.len()
            invariant
                self.valid(),
                self.config == old(self).config,
                self.sine_table@ == old(self).sine_table@,
                before == old(self).voices@,
                self.voices.len() == before.len(),
                i <= self.voices.len(),
                forall|j: int| 0 <= j < i ==> self.voices@[j] == faded(before[j], note),
                forall|j: int| i <= j < self.voices.len() ==> self.voices@[j] == before[j],
            decreases self.voices.len() - i,
        {
            let mut v = self.voices[i];
            assert(self.voices@[i as int].valid());
            if v.note == note && v.is_active() {
                v.fast_fade_frame_offset = v.current_frame_offset;
                assert(v.valid());
                self.voices.set(i, v);
                assert(forall|j: int| 0 <= j < self.voices.len() ==> #[trigger] self.voices@[j].valid());
            }
            i = i + 1;
        }
        assert(self.voices@ =~= faded_all(before, note));
    }

    /// The slot that the next note takes: the oldest voice.
    fn next_voice(&self) -> (r: usize)
        requires
            self.voices.len() == NUM_VOICES,
        ensures
            r == oldest_index(self.voices@, NUM_VOICES as nat),
            r < NUM_VOICES,
    {
        let mut oldest: usize = 0;
        let mut i: usize = 1;
        while i < self.voices.len()
            invariant
                self.voices.len() == NUM_VOICES,
                1 <= i <= NUM_VOICES,
                oldest == oldest_index(self.voices@, i as nat),
                oldest < i,
            decreases NUM_VOICES - i,
        {
            if self.voices[i].age_of() > self.voices[oldest].age_of() {
                oldest = i;
            }
            i = i + 1;
        }
        oldest
    }

    /// Starts `note`: voices already playing it fade out, and the oldest voice is
    /// struck with it.
    pub fn note_on(&mut self, note: Note, velocity: Velocity)
        requires
            old(self).valid(),
            note.0 <= 127,
        ensures
            final(self).valid(),
            final(self).config == old(self).config,
            final(self).sine_table@ == old(self).sine_table@,
            final(self).voices@ == after_note_on(old(self).voices@, note, velocity),
    {
        self.fade_existing_voices(note);
        let index = self.next_voice();
        let fresh = Voice {
            note,
            velocity,
            current_frame_offset: Some(FrameOffset(0)),
            release_frame_offset: None,
            fast_fade_frame_offset: None,
            state: VoiceState::new(0),
        };
        self.voices.set(index, fresh);
    }

    /// The slot of the active voice of `note`, the last one if there were several.
    fn find_active_voice_index(&self, note: Note) -> (r: Option<usize>)
        ensures
            r == match active_index(self.voices@, note, self.voices.len() as nat) {
                Some(i) => Some(i as usize),
                None => None::<usize>,
            },
    {
        let mut found: Option<usize> = None;
        let mut i: usize = 0;
        while i < self.voices.len()
            invariant
                i <= self.voices.len(),
                found == match active_index(self.voices@, note, i as nat) {
                    Some(j) => Some(j as usize),
                    None => None::<usize>,
                },
                forall|j: int| #![auto] active_index(self.voices@, note, i as nat) == Some(j) ==> 0 <= j < i,
            decreases self.voices.len() - i,
        {
            proof {
                reveal_with_fuel(active_index, 2);
            }
            if self.voices[i].note == note && self.voices[i].is_active() {
                found = Some(i);
            }
            i = i + 1;
        }
        found
    }

    /// Releases the active voice of `note` at its current frame. A second note-off of
    /// the same voice changes nothing, and says so.
    pub fn note_off(&mut self, note: Note) -> (r: NoteOffOutcome)
        requires
            old(self).valid(),
        ensures
            final(self).valid(),
            final(self).config == old(self).config,
            final(self).sine_table@ == old(self).sine_table@,
            final(self).voices@ == after_note_off(old(self).voices@, note),
            r == note_off_outcome(old(self).voices@, note),
    {
        let mut outcome = NoteOffOutcome::NotPlaying;
        if let Some(index) = self.find_active_voice_index(note) {
            proof {
                lemma_active_index_in_range(self.voices@, note, self.voices.len() as nat);
            }
            let mut v = self.voices[index];
            assert(self.voices@[index as int].valid());
            if v.release_frame_offset.is_none() {
                v.release_frame_offset = v.current_frame_offset;
                assert(v.valid());
                self.voices.set(index, v);
                assert(forall|j: int| 0 <= j < self.voices.len() ==> #[trigger] self.voices@[j].valid());
                outcome = NoteOffOutcome::Released;
            } else {
                outcome = NoteOffOutcome::AlreadyReleased;
            }
        }
        outcome
    }
}

impl Synth {
    /// Adds one frame of the voice in slot `index` to `acc` and moves the voice on by
    /// one frame.
    fn accumulate_voice(&mut self, index: usize, acc: i32, sample_rate: SampleRateKhz) -> (r: i32)
        requires
            old(self).valid(),
            index < NUM_VOICES,
            -(index as int) * FILTER_BOUND <= acc <= (index as int) * FILTER_BOUND,
        ensures
            final(self).valid(),
            final(self).config == old(self).config,
            final(self).sine_table@ == old(self).sine_table@,
            final(self).voices@ == old(self).voices@.update(
                index as int,
                advanced(old(self).config, old(self).sine_table@, sample_rate.0 as int, old(self).voices@[index as int]),
            ),
            r == acc + contribution(old(self).config, old(self).sine_table@, sample_rate.0 as int, old(self).voices@[index as int]),
            -(index as int + 1) * FILTER_BOUND <= r <= (index as int + 1) * FILTER_BOUND,
    {
        let mut v = self.voices[index];
        assert(self.voices@[index as int].valid());
        proof {
            assert((index as int + 1) * FILTER_BOUND == (index as int) * FILTER_BOUND + FILTER_BOUND) by (nonlinear_arith);
            assert(-(index as int + 1) * FILTER_BOUND == -(index as int) * FILTER_BOUND - FILTER_BOUND) by (nonlinear_arith);
            assert(-(index as int) * FILTER_BOUND == -((index as int) * FILTER_BOUND)) by (nonlinear_arith);
            assert((index as int) * FILTER_BOUND <= 7 * FILTER_BOUND) by (nonlinear_arith)
                requires
                    index < 8,
            ;
        }
        match v.current_frame_offset {
            Some(current) => {
                let pitch = note_to_pitch(v.note.0);
                let release = v.release_of();
                let sample = process_layer(
                    &self.config, &mut v.state, pitch, sample_rate, current.0, release, &self.sine_table);
                v.current_frame_offset = Some(FrameOffset(current.0.saturating_add(1)));
                assert(v.valid());
                self.voices.set(index, v);
                assert(forall|j: int| 0 <= j < self.voices.len() ==> #[trigger] self.voices@[j].valid());
                acc + sample
            },
            None => acc,
        }
    }

    /// Renders the next `buffer.len()` frames into `buffer`: each frame is the sum of
    /// every sounding voice, taken in slot order, and each sounding voice moves on by
    /// one frame per frame rendered.
    pub fn sample(&mut self, buffer: &mut Vec<i32>, sample_rate: SampleRateKhz)
        requires
            old(self).valid(),
        ensures
            final(self).valid(),
            final(self).config == old(self).config,
            final(self).sine_table@ == old(self).sine_table@,
            final(buffer)@.len() == old(buffer)@.len(),
            final(self).voices@ == voices_after(
                old(self).config, old(self).sine_table@, sample_rate.0 as int, old(self).voices@, old(buffer)@.len()),
            forall|k: int| 0 <= k < old(buffer)@.len() ==> final(buffer)@[k] as int == #[trigger] rendered_frame(
                old(self).config, old(self).sine_table@, sample_rate.0 as int, old(self).voices@, k as nat),
    {
        let ghost config = self.config;
        let ghost table = self.sine_table@;
        let ghost rate = sample_rate.0 as int;
        let ghost start = self.voices@;
        let mut k: usize = 0;
        while k < buffer.len()
            invariant
                self.valid(),
                self.config == config,
                self.sine_table@ == table,
                config == old(self).config,
                table == old(self).sine_table@,
                start == old(self).voices@,
                rate == sample_rate.0 as int,
                buffer@.len() == old(buffer)@.len(),
                k <= buffer@.len(),
                self.voices@ == voices_after(config, table, rate, start, k as nat),
                forall|j: int| 0 <= j < k ==> buffer@[j] as int == #[trigger] rendered_frame(config, table, rate, start, j as nat),
            decreases buffer@.len() - k,
        {
            let ghost frame_start = self.voices@;
            let mut acc: i32 = 0;
            let mut i: usize = 0;
            while i < NUM_VOICES
                invariant
                    self.valid(),
                    self.config == config,
                    self.sine_table@ == table,
                    rate == sample_rate.0 as int,
                    frame_start.len() == NUM_VOICES,
                    i <= NUM_VOICES,
                    forall|j: int| 0 <= j < i ==> self.voices@[j] == #[trigger] advanced(config, table, rate, frame_start[j]),
                    forall|j: int| i <= j < NUM_VOICES ==> self.voices@[j] == frame_start[j],
                    acc == frame_sum(config, table, rate, frame_start, i as nat),
                    -(i as int) * FILTER_BOUND <= acc <= (i as int) * FILTER_BOUND,
                decreases NUM_VOICES - i,
            {
                acc = self.accumulate_voice(i, acc, sample_rate);
                i = i + 1;
            }
            assert(self.voices@ =~= advanced_all(config, table, rate, frame_start));
            buffer.set(k, acc);
            k = k + 1;
        }
    }
}

/// The active slot of a note lies among the slots searched.
pub proof fn lemma_active_index_in_range(voices: Seq<Voice>, note: Note, n: nat)
    ensures
        active_index(voices, note, n) matches Some(i) ==> 0 <= i < n,
    decreases n,
{
    if n > 0 {
        lemma_active_index_in_range(voices, note, (n - 1) as nat);
    }
}

/// A pool whose voices have never sounded.
pub open spec fn idle_pool() -> Seq<Voice> {
    Seq::new(NUM_VOICES as nat, |i: int| idle_voice())
}

/// The pool after the first `k` of `notes` are struck in turn on an idle pool, with no
/// note-off and no frame rendered between them.
pub open spec fn notes_played(notes: Seq<Note>, velocity: Velocity, k: nat) -> Seq<Voice>
    decreases k,
{
    if k == 0 {
        idle_pool()
    } else {
        after_note_on(notes_played(notes, velocity, (k - 1) as nat), notes[k - 1], velocity)
    }
}

proof fn lemma_oldest_is_first_idle(voices: Seq<Voice>, k: nat, n: nat)
    requires
        1 <= n <= voices.len(),
        k <= n,
        forall|i: int| 0 <= i < k ==> #[trigger] voices[i].age() == 0,
        forall|i: int| k <= i < n ==> #[trigger] voices[i].age() == u32::MAX + 1,
    ensures
        oldest_index(voices, n) == if k < n { k as int } else { 0 },
    decreases n,
{
    if n > 1 {
        if k < n {
            lemma_oldest_is_first_idle(voices, if k < n - 1 { k } else { (n - 1) as nat }, (n - 1) as nat);
        } else {
            lemma_oldest_is_first_idle(voices, (n - 1) as nat, (n - 1) as nat);
        }
    }
}

proof fn lemma_pool_fills_in_order(notes: Seq<Note>, velocity: Velocity, k: nat)
    requires
        k <= NUM_VOICES,
        k <= notes.len(),
    ensures
        notes_played(notes, velocity, k).len() == NUM_VOICES,
        forall|i: int| 0 <= i < k ==> (#[trigger] notes_played(notes, velocity, k)[i]).note == notes[i]
            && notes_played(notes, velocity, k)[i].current_frame_offset == Some(FrameOffset(0)),
        forall|i: int| k <= i < NUM_VOICES ==> #[trigger] notes_played(notes, velocity, k)[i] == idle_voice(),
    decreases k,
{
    if k > 0 {
        lemma_pool_fills_in_order(notes, velocity, (k - 1) as nat);
        let before = notes_played(notes, velocity, (k - 1) as nat);
        let f = faded_all(before, notes[k - 1]);
        assert forall|i: int| 0 <= i < k - 1 implies #[trigger] f[i].age() == 0 by {
            assert(before[i].current_frame_offset == Some(FrameOffset(0)));
        }
        assert forall|i: int| k - 1 <= i < NUM_VOICES implies #[trigger] f[i].age() == u32::MAX + 1 by {
            assert(before[i] == idle_voice());
        }
        lemma_oldest_is_first_idle(f, (k - 1) as nat, NUM_VOICES as nat);
    }
}

/// Voice stealing: on a pool of `NUM_VOICES` voices, striking `NUM_VOICES + 1` notes in
/// turn gives each of the first `NUM_VOICES` its own slot in order, and the last note
/// takes the slot of the first-struck voice, the oldest, while the others keep theirs.
pub proof fn lemma_voice_stealing(notes: Seq<Note>, velocity: Velocity)
    requires
        notes.len() == NUM_VOICES + 1,
    ensures
        forall|i: int| 0 <= i < NUM_VOICES ==> (#[trigger] notes_played(notes, velocity, NUM_VOICES as nat)[i]).note == notes[i],
        notes_played(notes, velocity, (NUM_VOICES + 1) as nat)[0] == struck_voice(notes[NUM_VOICES as int], velocity),
        forall|i: int| 1 <= i < NUM_VOICES ==> (#[trigger] notes_played(notes, velocity, (NUM_VOICES + 1) as nat)[i]).note == notes[i],
{
    lemma_pool_fills_in_order(notes, velocity, NUM_VOICES as nat);
    let full = notes_played(notes, velocity, NUM_VOICES as nat);
    let f = faded_all(full, notes[NUM_VOICES as int]);
    assert forall|i: int| 0 <= i < NUM_VOICES implies #[trigger] f[i].age() == 0 by {
        assert(full[i].current_frame_offset == Some(FrameOffset(0)));
    }
    lemma_oldest_is_first_idle(f, NUM_VOICES as nat, NUM_VOICES as nat);
    assert forall|i: int| 1 <= i < NUM_VOICES implies (#[trigger] notes_played(notes, velocity, (NUM_VOICES + 1) as nat)[i]).note == notes[i] by {
        assert(notes_played(notes, velocity, (NUM_VOICES + 1) as nat)[i] == f[i]);
    }
}

proof fn lemma_single_active(voices: Seq<Voice>, note: Note, c: int, n: nat)
    requires
        n <= voices.len(),
        0 <= c < n,
        voices[c].note == note && voices[c].active(),
        forall|j: int| 0 <= j < n && j != c ==> !(#[trigger] voices[j].note == note && voices[j].active()),
    ensures
        active_index(voices, note, n) == Some(c),
    decreases n,
{
    if n - 1 != c {
        lemma_single_active(voices, note, c, (n - 1) as nat);
    }
}

/// Striking a note that a voice is playing does not cut that voice: unless it is the
/// oldest and so taken for the new note, it keeps sounding from where it was, marked to
/// fade from that frame, and the new voice becomes the one that a note-off releases.
pub proof fn lemma_retrigger_fades(voices: Seq<Voice>, note: Note, velocity: Velocity, i: int)
    requires
        voices.len() == NUM_VOICES,
        0 <= i < NUM_VOICES,
        voices[i].note == note,
        voices[i].active(),
        i != oldest_index(faded_all(voices, note), NUM_VOICES as nat),
    ensures
        after_note_on(voices, note, velocity)[i].note == note,
        after_note_on(voices, note, velocity)[i].current_frame_offset == voices[i].current_frame_offset,
        after_note_on(voices, note, velocity)[i].fast_fade_frame_offset == voices[i].current_frame_offset,
        !after_note_on(voices, note, velocity)[i].active(),
        active_index(after_note_on(voices, note, velocity), note, NUM_VOICES as nat)
            == Some(oldest_index(faded_all(voices, note), NUM_VOICES as nat)),
{
    let f = faded_all(voices, note);
    let c = oldest_index(f, NUM_VOICES as nat);
    let after = after_note_on(voices, note, velocity);
    lemma_oldest_index_in_range(f, NUM_VOICES as nat);
    assert forall|j: int| 0 <= j < NUM_VOICES && j != c implies !(#[trigger] after[j].note == note && after[j].active()) by {
        assert(after[j] == faded(voices[j], note));
    }
    lemma_single_active(after, note, c, NUM_VOICES as nat);
}

/// The oldest slot lies among the slots searched.
pub proof fn lemma_oldest_index_in_range(voices: Seq<Voice>, n: nat)
    ensures
        n >= 1 ==> 0 <= oldest_index(voices, n) < n,
        n == 0 ==> oldest_index(voices, n) == 0,
    decreases n,
{
    if n > 1 {
        lemma_oldest_index_in_range(voices, (n - 1) as nat);
    }
}

/// A slot that never sounded is taken before any voice that sounds: if one of the first
/// `n` slots is free, the slot chosen among them is free.
pub proof fn lemma_free_slot_taken_first(voices: Seq<Voice>, n: nat)
    requires
        1 <= n <= voices.len(),
        exists|j: int| 0 <= j < n && (#[trigger] voices[j]).current_frame_offset is None,
    ensures
        voices[oldest_index(voices, n)].current_frame_offset is None,
    decreases n,
{
    lemma_oldest_index_in_range(voices, n);
    if n > 1 {
        lemma_oldest_index_in_range(voices, (n - 1) as nat);
        if exists|j: int| 0 <= j < n - 1 && (#[trigger] voices[j]).current_frame_offset is None {
            lemma_free_slot_taken_first(voices, (n - 1) as nat);
        }
    }
}

/// Striking a note that a voice is playing while some slot is free never cuts that
/// voice, however long it has sounded: a free slot takes the new note, and the old
/// voice keeps sounding, marked to fade from its current frame.
pub proof fn lemma_retrigger_with_free_slot(voices: Seq<Voice>, note: Note, velocity: Velocity, i: int, free: int)
    requires
        voices.len() == NUM_VOICES,
        0 <= i < NUM_VOICES,
        0 <= free < NUM_VOICES,
        voices[i].note == note,
        voices[i].active(),
        voices[free].current_frame_offset is None,
    ensures
        after_note_on(voices, note, velocity)[i].note == note,
        after_note_on(voices, note, velocity)[i].current_frame_offset == voices[i].current_frame_offset,
        after_note_on(voices, note, velocity)[i].fast_fade_frame_offset == voices[i].current_frame_offset,
        voices[oldest_index(faded_all(voices, note), NUM_VOICES as nat)].current_frame_offset is None,
        after_note_on(voices, note, velocity)[oldest_index(faded_all(voices, note), NUM_VOICES as nat)]
            == struck_voice(note, velocity),
{
    let f = faded_all(voices, note);
    assert(f[free].current_frame_offset is None);
    lemma_free_slot_taken_first(f, NUM_VOICES as nat);
    lemma_oldest_index_in_range(f, NUM_VOICES as nat);
    let c = oldest_index(f, NUM_VOICES as nat);
    assert(voices[c].current_frame_offset is None);
    lemma_retrigger_fades(voices, note, velocity, i);
}

} // verus!
