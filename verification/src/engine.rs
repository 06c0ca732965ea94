//! Engine module: manages voices, processes messages, renders audio.
//!
//! The engine owns a fixed array of voices, the control-message queue, and
//! the voice-selection state. `process_message` is the transition function
//! of the control state machine; `render` drains the queue and fills a byte
//! buffer with interleaved stereo PCM frames.

use vstd::prelude::*;

use crate::audio_util::sample_hi_byte;
use crate::audio_util::sample_lo_byte;
use crate::audio_util::sample_to_i16_le;
use crate::audio_util::scale_q15;
use crate::audio_util::scale_sample;
use crate::config::MASTER_GAIN;
use crate::config::MESSAGE_QUEUE_SIZE;
use crate::config::STARTING_FREQUENCY_MHZ;
use crate::config::VOICE_COUNT;
use crate::message::Message;
use crate::oscillator::OscillatorView;
use crate::oscillator::increment_for;
use crate::oscillator::wavetable_contents;
use crate::queue::MessageQueue;
use crate::queue::queue_messages;
use crate::voice::Voice;
use crate::voice::VoiceView;
use crate::voice::lemma_smoothed_volume_progress;
use crate::voice::lemma_voice_step_wf;
use crate::voice::smoothed_volume;
use crate::voice::voice_output;
use crate::voice::voice_step;
use crate::voice::voice_wf;

verus! {

/// Mathematical image of the engine.
pub ghost struct EngineView {
    pub voices: Seq<VoiceView>,
    pub selected_voice: Option<int>,
    pub sample_rate: int,
    pub queue: Seq<Message>,
    pub active_count: int,
    pub active_count_reciprocal: int,
}

/// Number of voices whose active flag is set.
pub open spec fn count_active(vs: Seq<VoiceView>) -> int
    decreases vs.len(),
{
    if vs.len() == 0 {
        0
    } else {
        count_active(vs.drop_last()) + if vs.last().active {
            1int
        } else {
            0int
        }
    }
}

/// Q15 reciprocal of the active-voice count, the mix normalization factor.
/// One (32768) when no voice is active: the value is inert then, since the
/// mix sum is zero anyway.
pub open spec fn reciprocal_for(count: int) -> int {
    if count >= 1 {
        32768int / count
    } else {
        32768int
    }
}

/// Invariant of a view produced by a well-built engine: the voice array has
/// its fixed size and every voice is well formed, the selection is absent or
/// a valid index, and the cached active count and reciprocal agree with the
/// voices.
pub open spec fn engine_wf(e: EngineView) -> bool {
    &&& e.voices.len() == VOICE_COUNT as int
    &&& forall|i: int| 0 <= i < e.voices.len() ==> voice_wf(#[trigger] e.voices[i])
    &&& match e.selected_voice {
        Some(i) => 0 <= i < VOICE_COUNT as int,
        None => true,
    }
    &&& e.sample_rate >= 1
    &&& e.active_count == count_active(e.voices)
    &&& e.active_count_reciprocal == reciprocal_for(e.active_count)
    &&& e.queue.len() <= MESSAGE_QUEUE_SIZE as int
}

/// A frequency clamped to at least one millihertz.
pub open spec fn freq_clamped(f: int) -> int {
    if f >= 1 {
        f
    } else {
        1
    }
}

/// A Q15 volume clamped to at most full scale.
pub open spec fn volume_clamped(v: int) -> int {
    if v <= 32768 {
        v
    } else {
        32768
    }
}

/// A voice with its active flag flipped and everything else retained.
pub open spec fn toggled_voice(v: VoiceView) -> VoiceView {
    VoiceView { active: !v.active, ..v }
}

/// Effect of `SelectVoice(idx)`: overwrite the selection when the index is
/// valid, otherwise a silent no-op.
pub open spec fn apply_select(e: EngineView, idx: int) -> EngineView {
    if 0 <= idx < e.voices.len() {
        EngineView { selected_voice: Some(idx), ..e }
    } else {
        e
    }
}

/// Effect of `ToggleVoice(idx)`: flip that voice's active flag and rebuild
/// the cached count and reciprocal; a silent no-op on an invalid index.
pub open spec fn apply_toggle(e: EngineView, idx: int) -> EngineView {
    if 0 <= idx < e.voices.len() {
        let vs = e.voices.update(idx, toggled_voice(e.voices[idx]));
        EngineView {
            voices: vs,
            active_count: count_active(vs),
            active_count_reciprocal: reciprocal_for(count_active(vs)),
            ..e
        }
    } else {
        e
    }
}

/// Effect of `SetFrequency(f)`: retune the selected voice (frequency clamped
/// to at least one millihertz); a silent no-op when nothing is selected.
pub open spec fn apply_set_frequency(e: EngineView, f: int) -> EngineView {
    match e.selected_voice {
        Some(idx) => if 0 <= idx < e.voices.len() {
            EngineView {
                voices: e.voices.update(
                    idx,
                    VoiceView {
                        osc: OscillatorView {
                            phase_increment: increment_for(
                                freq_clamped(f),
                                e.voices[idx].osc.sample_rate,
                            ),
                            ..e.voices[idx].osc
                        },
                        ..e.voices[idx]
                    },
                ),
                ..e
            }
        } else {
            e
        },
        None => e,
    }
}

/// Effect of `SetVolume(v)`: set the selected voice's target volume, clamped
/// to Q15 full scale; a silent no-op when nothing is selected.
pub open spec fn apply_set_volume(e: EngineView, v: int) -> EngineView {
    match e.selected_voice {
        Some(idx) => if 0 <= idx < e.voices.len() {
            EngineView {
                voices: e.voices.update(
                    idx,
                    VoiceView { volume_target: volume_clamped(v), ..e.voices[idx] },
                ),
                ..e
            }
        } else {
            e
        },
        None => e,
    }
}

/// The authoritative transition table over control messages. Messages never
/// touch the queue field and never fail: invalid indices and parameter
/// messages without a selection are silent no-ops.
pub open spec fn apply_message(e: EngineView, m: Message) -> EngineView {
    match m {
        Message::SelectVoice(i) => apply_select(e, i as int),
        Message::ToggleVoice(i) => apply_toggle(e, i as int),
        Message::SetFrequency(f) => apply_set_frequency(e, f as int),
        Message::SetVolume(v) => apply_set_volume(e, v as int),
    }
}

/// The engine after its queue is drained completely: every queued message
/// applied in FIFO order, the queue left empty.
pub open spec fn drained(e: EngineView) -> EngineView
    decreases e.queue.len(),
{
    if e.queue.len() == 0 {
        e
    } else {
        drained(EngineView { queue: e.queue.drop_first(), ..apply_message(e, e.queue[0]) })
    }
}

/// Sum of the outputs of the first `n` voices for the next tick.
pub open spec fn mix_prefix(vs: Seq<VoiceView>, n: int) -> int
    decreases n,
{
    if n <= 0 {
        0
    } else {
        mix_prefix(vs, n - 1) + voice_output(vs[n - 1])
    }
}

/// The sample one engine tick returns: the voice mix, normalized by the
/// cached reciprocal of the active count, scaled by the master gain.
pub open spec fn engine_output(e: EngineView) -> int {
    scale_q15(
        scale_q15(mix_prefix(e.voices, e.voices.len() as int), e.active_count_reciprocal),
        MASTER_GAIN as int,
    )
}

/// The engine state after one tick: every voice steps once, everything else
/// stays.
pub open spec fn engine_step(e: EngineView) -> EngineView {
    EngineView { voices: e.voices.map_values(|v: VoiceView| voice_step(v)), ..e }
}

/// The engine state after `n` ticks.
pub open spec fn engine_ticks(e: EngineView, n: nat) -> EngineView
    decreases n,
{
    if n == 0 {
        e
    } else {
        engine_step(engine_ticks(e, (n - 1) as nat))
    }
}

/// The sample written into frame `g` of a render call, counting from the
/// drained engine state.
pub open spec fn rendered_frame_sample(d: EngineView, g: int) -> int {
    engine_output(engine_ticks(d, g as nat))
}

/// The active count never leaves [0, number of voices].
pub proof fn lemma_count_active_bounds(vs: Seq<VoiceView>)
    ensures
        0 <= count_active(vs) <= vs.len(),
    decreases vs.len(),
{
    if vs.len() > 0 {
        lemma_count_active_bounds(vs.drop_last());
    }
}

/// When every voice is inactive the active count is zero.
pub proof fn lemma_count_active_all_inactive(vs: Seq<VoiceView>)
    requires
        forall|i: int| 0 <= i < vs.len() ==> !(#[trigger] vs[i]).active,
    ensures
        count_active(vs) == 0,
    decreases vs.len(),
{
    if vs.len() > 0 {
        lemma_count_active_all_inactive(vs.drop_last());
    }
}

/// Replacing one voice changes the active count exactly by the difference
/// of the two active flags.
pub proof fn lemma_count_active_update(vs: Seq<VoiceView>, i: int, v: VoiceView)
    requires
        0 <= i < vs.len(),
    ensures
        count_active(vs.update(i, v)) == count_active(vs) - (if vs[i].active {
            1int
        } else {
            0int
        }) + (if v.active {
            1int
        } else {
            0int
        }),
    decreases vs.len(),
{
    let vs2 = vs.update(i, v);
    if i == vs.len() - 1 {
        assert(vs2.drop_last() =~= vs.drop_last());
    } else {
        assert(vs2.drop_last() =~= vs.drop_last().update(i, v));
        lemma_count_active_update(vs.drop_last(), i, v);
    }
}

/// The active count only reads the active flags: voices that agree on their
/// flags produce the same count.
pub proof fn lemma_count_active_congruent(vs1: Seq<VoiceView>, vs2: Seq<VoiceView>)
    requires
        vs1.len() == vs2.len(),
        forall|i: int| 0 <= i < vs1.len() ==> (#[trigger] vs1[i]).active == (#[trigger] vs2[i]).active,
    ensures
        count_active(vs1) == count_active(vs2),
    decreases vs1.len(),
{
    if vs1.len() > 0 {
        lemma_count_active_congruent(vs1.drop_last(), vs2.drop_last());
    }
}

/// A well-formed voice's next output is a legal Q15 sample, and exactly
/// zero while the voice is inactive.
pub proof fn lemma_voice_output_bounded(v: VoiceView)
    requires
        voice_wf(v),
    ensures
        -32767 <= voice_output(v) <= 32767,
        !v.active ==> voice_output(v) == 0,
{
    if v.active {
        let idx = crate::oscillator::next_phase(v.osc) / 65536;
        assert(0 <= idx < 1024);
        assert(v.osc.wavetable[idx] == crate::oscillator::wavetable_sample(idx));
        crate::oscillator::lemma_wavetable_sample_bounded(idx);
        lemma_smoothed_volume_progress(v.volume_current, v.volume_target);
        crate::audio_util::lemma_scale_q15_bound(
            crate::oscillator::osc_output(v.osc),
            smoothed_volume(v.volume_current, v.volume_target),
        );
    }
}

/// The mix only reads the first `n` voices: sequences that agree there
/// produce the same partial mix.
pub proof fn lemma_mix_prefix_congruent(vs1: Seq<VoiceView>, vs2: Seq<VoiceView>, n: int)
    requires
        n <= vs1.len(),
        n <= vs2.len(),
        forall|i: int| 0 <= i < n ==> #[trigger] vs1[i] == vs2[i],
    ensures
        mix_prefix(vs1, n) == mix_prefix(vs2, n),
    decreases n,
{
    if n > 0 {
        lemma_mix_prefix_congruent(vs1, vs2, n - 1);
    }
}

/// The partial mix of well-formed voices is bounded by one full-scale
/// sample per active voice among the first `n`.
pub proof fn lemma_mix_prefix_bound(vs: Seq<VoiceView>, n: int)
    requires
        0 <= n <= vs.len(),
        forall|i: int| 0 <= i < vs.len() ==> voice_wf(#[trigger] vs[i]),
    ensures
        -(count_active(vs.take(n)) * 32767) <= mix_prefix(vs, n) <= count_active(vs.take(n))
            * 32767,
        0 <= count_active(vs.take(n)) <= n,
    decreases n,
{
    lemma_count_active_bounds(vs.take(n));
    if n > 0 {
        lemma_mix_prefix_bound(vs, n - 1);
        lemma_voice_output_bounded(vs[n - 1]);
        assert(vs.take(n).drop_last() =~= vs.take(n - 1));
        assert(vs.take(n).last() == vs[n - 1]);
        let ca = count_active(vs.take(n - 1));
        if vs[n - 1].active {
            assert(count_active(vs.take(n)) == ca + 1);
        } else {
            assert(count_active(vs.take(n)) == ca);
            assert(voice_output(vs[n - 1]) == 0);
        }
    }
}

/// The output of a well-formed engine tick never exceeds the master gain:
/// its magnitude stays at or below floor(32767 * MASTER_GAIN / 32768).
pub proof fn lemma_engine_output_bounded(e: EngineView)
    requires
        engine_wf(e),
    ensures
        -27852 <= engine_output(e) <= 27852,
        count_active(e.voices) == 0 ==> engine_output(e) == 0,
{
    let len = e.voices.len() as int;
    let mix = mix_prefix(e.voices, len);
    let c = count_active(e.voices);
    let r = e.active_count_reciprocal;
    lemma_mix_prefix_bound(e.voices, len);
    assert(e.voices.take(len) =~= e.voices);
    let s1 = scale_q15(mix, r);
    if c == 0 {
        assert(mix == 0);
        assert(s1 == 0);
        assert(engine_output(e) == 0);
    } else {
        assert(r == 32768int / c);
        vstd::arithmetic::div_mod::lemma_fundamental_div_mod(32768int, c);
        assert(c * r <= 32768);
        assert(r >= 0) by (nonlinear_arith)
            requires r == 32768int / c, c >= 1;
        crate::audio_util::lemma_scale_q15_mag(mix, r, c * 32767);
        assert((c * 32767) * r <= 32767 * 32768) by (nonlinear_arith)
            requires c * r <= 32768, c >= 1, r >= 0;
        assert(((c * 32767) * r) / 32768 <= (32767 * 32768) / 32768) by (nonlinear_arith)
            requires (c * 32767) * r <= 32767 * 32768, (c * 32767) * r >= 0;
        assert(-32767 <= s1 <= 32767);
        crate::audio_util::lemma_scale_q15_mag(s1, MASTER_GAIN as int, 32767);
        assert((32767 * 27853) / 32768 == 27852);
    }
}

/// One engine tick preserves well-formedness and every voice's active flag.
pub proof fn lemma_engine_step_wf(e: EngineView)
    requires
        engine_wf(e),
    ensures
        engine_wf(engine_step(e)),
        engine_step(e).voices.len() == e.voices.len(),
        forall|i: int|
            0 <= i < e.voices.len() ==> (#[trigger] engine_step(e).voices[i]).active
                == e.voices[i].active,
{
    let stepped = engine_step(e);
    assert forall|i: int| 0 <= i < e.voices.len() implies voice_wf(#[trigger] stepped.voices[i])
        && stepped.voices[i].active == e.voices[i].active by {
        assert(stepped.voices[i] == voice_step(e.voices[i]));
        lemma_voice_step_wf(e.voices[i]);
    }
    lemma_count_active_congruent(e.voices, stepped.voices);
}

/// Law: while no voice is active, every rendered frame of every buffer is
/// silent — each tick outputs exactly zero and leaves all voices inactive,
/// and a zero sample encodes as two zero bytes, so `render` fills buffers of
/// any size with zeros.
pub proof fn lemma_silent_engine_stays_silent(e: EngineView, n: nat)
    requires
        engine_wf(e),
        forall|i: int| 0 <= i < e.voices.len() ==> !(#[trigger] e.voices[i]).active,
    ensures
        engine_wf(engine_ticks(e, n)),
        forall|i: int|
            0 <= i < e.voices.len() ==> !(#[trigger] engine_ticks(e, n).voices[i]).active,
        forall|k: nat| k < n ==> rendered_frame_sample(e, k as int) == 0,
        sample_lo_byte(0) == 0 && sample_hi_byte(0) == 0,
    decreases n,
{
    if n > 0 {
        lemma_silent_engine_stays_silent(e, (n - 1) as nat);
        lemma_engine_step_wf(engine_ticks(e, (n - 1) as nat));
        assert forall|k: nat| k < n implies rendered_frame_sample(e, k as int) == 0 by {
            lemma_silent_engine_stays_silent(e, k);
            let u = engine_ticks(e, k);
            lemma_count_active_all_inactive(u.voices);
            lemma_engine_output_bounded(u);
        }
    }
}

/// The view of every voice the engine starts with: starting frequency,
/// default volume, inactive, phase zero.
pub open spec fn initial_voice(sample_rate: int) -> VoiceView {
    VoiceView {
        osc: OscillatorView {
            wavetable: wavetable_contents(),
            phase: 0,
            phase_increment: increment_for(STARTING_FREQUENCY_MHZ as int, sample_rate),
            sample_rate: sample_rate,
        },
        volume_target: crate::config::DEFAULT_VOICE_VOLUME as int,
        volume_current: crate::config::DEFAULT_VOICE_VOLUME as int,
        active: false,
    }
}

/// Main synth engine managing all voices.
pub struct Engine {
    /// The fixed array of voices (VOICE_COUNT entries).
    voices: Vec<Voice>,
    /// Currently selected voice for parameter control (None = no selection).
    selected_voice: Option<u8>,
    /// Audio sample rate in Hz (stored for future use in filters/effects).
    sample_rate: u32,
    /// Bounded FIFO of pending control messages.
    queue: MessageQueue,
    /// Number of currently active voices, maintained incrementally on every
    /// toggle.
    active_count: u32,
    /// Cached Q15 reciprocal of the active count, so the per-sample mix
    /// multiplies instead of dividing.
    active_count_reciprocal: u16,
}

impl View for Engine {
    type V = EngineView;

    closed spec fn view(&self) -> EngineView {
        EngineView {
            voices: self.voices@.map_values(|v: Voice| v@),
            selected_voice: match self.selected_voice {
                Some(i) => Some(i as int),
                None => None,
            },
            sample_rate: self.sample_rate as int,
            queue: queue_messages(self.queue),
            active_count: self.active_count as int,
            active_count_reciprocal: self.active_count_reciprocal as int,
        }
    }
}

impl Engine {
    /// Create an engine with VOICE_COUNT voices at the starting frequency,
    /// all inactive, no selection, and an empty message queue.
    ///
    /// The sample rate must be positive; a zero rate is a construction-time
    /// misconfiguration.
    pub fn new(sample_rate: u32) -> (e: Engine)
        requires
            sample_rate >= 1,
        ensures
            engine_wf(e@),
            e@.voices =~= Seq::new(VOICE_COUNT as nat, |i: int| initial_voice(sample_rate as int)),
            e@.selected_voice == Option::<int>::None,
            e@.sample_rate == sample_rate as int,
            e@.queue == Seq::<Message>::empty(),
            e@.active_count == 0,
    {
        let mut voices: Vec<Voice> = Vec::new();
        let mut i: usize = 0;
        while i < VOICE_COUNT
            invariant
                i <= VOICE_COUNT,
                voices@.len() == i,
                sample_rate >= 1,
                forall|k: int|
                    0 <= k < i ==> (#[trigger] voices@[k])@ == initial_voice(sample_rate as int),
            decreases VOICE_COUNT - i,
        {
            voices.push(Voice::new(STARTING_FREQUENCY_MHZ, sample_rate));
            i = i + 1;
        }
        let e = Engine {
            voices,
            selected_voice: None,
            sample_rate,
            queue: MessageQueue::new(),
            active_count: 0,
            active_count_reciprocal: 32768,
        };
        proof {
            assert(e@.voices =~= Seq::new(
                VOICE_COUNT as nat,
                |i: int| initial_voice(sample_rate as int),
            ));
            lemma_count_active_all_inactive(e@.voices);
        }
        e
    }

    /// Offer a message to the bounded control queue without blocking. When
    /// the queue is already at capacity the new message is dropped and the
    /// queue is unchanged: audio never stalls on control input, so control
    /// producers must tolerate loss.
    pub fn enqueue_message(&mut self, msg: Message) -> (accepted: bool)
        requires
            engine_wf(old(self)@),
        ensures
            engine_wf(final(self)@),
            old(self)@.queue.len() < MESSAGE_QUEUE_SIZE as int ==> accepted && final(self)@
                == (EngineView { queue: old(self)@.queue.push(msg), ..old(self)@ }),
            old(self)@.queue.len() >= MESSAGE_QUEUE_SIZE as int ==> !accepted && final(self)@
                == old(self)@,
    {
        self.queue.try_send(msg)
    }

    /// The number of control messages currently waiting in the queue.
    pub fn pending_messages(&self) -> (n: usize)
        ensures
            n == self@.queue.len(),
    {
        self.queue.len()
    }

    /// Generate the next mixed audio sample: every voice ticks once, the
    /// sum is normalized by the cached reciprocal of the active count (a
    /// multiplication, not a division, on the hot path) and scaled by the
    /// master gain. The output magnitude never exceeds the master gain.
    pub fn tick(&mut self) -> (s: i32)
        requires
            engine_wf(old(self)@),
        ensures
            engine_wf(final(self)@),
            final(self)@ == engine_step(old(self)@),
            s as int == engine_output(old(self)@),
            -27852 <= s <= 27852,
    {
        proof {
            assert(old(self)@.voices.len() == old(self).voices@.len());
        }
        let n = self.voices.len();
        let mut sum: i32 = 0;
        let mut i: usize = 0;
        while i < n
            invariant
                i <= n,
                n == self.voices@.len(),
                n == VOICE_COUNT,
                self.voices@.len() == old(self).voices@.len(),
                forall|k: int|
                    0 <= k < i ==> (#[trigger] self.voices@[k])@ == voice_step(
                        old(self)@.voices[k],
                    ),
                forall|k: int| i <= k < n ==> (#[trigger] self.voices@[k])@ == old(self)@.voices[k],
                forall|k: int| 0 <= k < n ==> voice_wf(#[trigger] old(self)@.voices[k]),
                sum == mix_prefix(old(self)@.voices, i as int),
                -32767 * (i as int) <= sum <= 32767 * (i as int),
                self.selected_voice == old(self).selected_voice,
                self.sample_rate == old(self).sample_rate,
                self.queue == old(self).queue,
                self.active_count == old(self).active_count,
                self.active_count_reciprocal == old(self).active_count_reciprocal,
            decreases n - i,
        {
            proof {
                lemma_voice_output_bounded(old(self)@.voices[i as int]);
            }
            let v = &mut self.voices[i];
            let out = v.tick();
            sum = sum + out;
            i = i + 1;
        }
        proof {
            assert forall|k: int| 0 <= k < self@.voices.len() implies voice_wf(
                #[trigger] self@.voices[k],
            ) && self@.voices[k].active == old(self)@.voices[k].active by {
                assert(self.voices@.map_values(|v: Voice| v@)[k] == self.voices@[k]@);
                lemma_voice_step_wf(old(self)@.voices[k]);
            }
            assert(self@.voices =~= old(self)@.voices.map_values(|v: VoiceView| voice_step(v)));
            lemma_count_active_congruent(old(self)@.voices, self@.voices);
            assert(self@ =~= engine_step(old(self)@));
            lemma_engine_output_bounded(old(self)@);
        }
        let s1 = scale_sample(sum, self.active_count_reciprocal);
        let s = scale_sample(s1, MASTER_GAIN);
        s
    }

    /// Process a single control message according to the transition table:
    /// select overwrites the selection, toggle flips one voice and rebuilds
    /// the cached count and reciprocal, and the parameter messages act on
    /// the selected voice. Invalid indices and parameter messages without a
    /// selection are silent no-ops, never errors: control input is
    /// best-effort and must not halt audio.
    pub fn process_message(&mut self, msg: Message)
        requires
            engine_wf(old(self)@),
        ensures
            engine_wf(final(self)@),
            final(self)@ == apply_message(old(self)@, msg),
    {
        proof {
            assert(old(self)@.voices.len() == old(self).voices@.len());
        }
        match msg {
            Message::SelectVoice(id) => {
                if (id as usize) < self.voices.len() {
                    self.selected_voice = Some(id);
                }
            },
            Message::ToggleVoice(idx) => {
                let i = idx as usize;
                if i < self.voices.len() {
                    proof {
                        assert(self.voices@.map_values(|v: Voice| v@)[i as int]
                            == self.voices@[i as int]@);
                        lemma_count_active_bounds(old(self)@.voices);
                        lemma_count_active_update(
                            old(self)@.voices,
                            i as int,
                            toggled_voice(old(self)@.voices[i as int]),
                        );
                        lemma_count_active_bounds(
                            old(self)@.voices.update(
                                i as int,
                                toggled_voice(old(self)@.voices[i as int]),
                            ),
                        );
                    }
                    let v = &mut self.voices[i];
                    let was_active = v.is_active();
                    v.set_active(!was_active);
                    if was_active {
                        self.active_count = self.active_count - 1;
                    } else {
                        self.active_count = self.active_count + 1;
                    }
                    self.active_count_reciprocal = if self.active_count > 0 {
                        (32768 / self.active_count) as u16
                    } else {
                        32768
                    };
                    proof {
                        assert(self@.voices =~= apply_toggle(old(self)@, idx as int).voices);
                        assert(self@ =~= apply_toggle(old(self)@, idx as int));
                    }
                }
            },
            Message::SetFrequency(freq) => {
                if let Some(idx) = self.selected_voice {
                    let i = idx as usize;
                    if i < self.voices.len() {
                        proof {
                            assert(self.voices@.map_values(|v: Voice| v@)[i as int]
                                == self.voices@[i as int]@);
                        }
                        let v = &mut self.voices[i];
                        v.set_frequency(freq);
                        proof {
                            assert(self@.voices =~= apply_set_frequency(
                                old(self)@,
                                freq as int,
                            ).voices);
                            assert(self@ =~= apply_set_frequency(old(self)@, freq as int));
                            lemma_count_active_congruent(old(self)@.voices, self@.voices);
                        }
                    }
                }
            },
            Message::SetVolume(vol) => {
                if let Some(idx) = self.selected_voice {
                    let i = idx as usize;
                    if i < self.voices.len() {
                        proof {
                            assert(self.voices@.map_values(|v: Voice| v@)[i as int]
                                == self.voices@[i as int]@);
                        }
                        let v = &mut self.voices[i];
                        v.set_volume(vol);
                        proof {
                            assert(self@.voices =~= apply_set_volume(old(self)@, vol as int).voices);
                            assert(self@ =~= apply_set_volume(old(self)@, vol as int));
                            lemma_count_active_congruent(old(self)@.voices, self@.voices);
                        }
                    }
                }
            },
        }
    }

    /// Render audio into the provided byte buffer.
    ///
    /// A buffer shorter than one 4-byte stereo frame is rejected (returns 0,
    /// nothing changes): the engine never produces a partial frame. Otherwise
    /// the control queue is drained completely and non-blockingly, each
    /// message applied in FIFO arrival order, before any sample of this
    /// buffer is generated — control changes are quantized to buffer
    /// boundaries. Then every complete 4-byte frame receives one engine
    /// tick, encoded as a little-endian i16 and duplicated onto both stereo
    /// channels. Trailing bytes are left untouched and not reported as
    /// written; the return value is the buffer length rounded down to a
    /// multiple of 4.
    pub fn render(&mut self, buffer: &mut Vec<u8>) -> (written: usize)
        requires
            engine_wf(old(self)@),
        ensures
            engine_wf(final(self)@),
            written == old(buffer)@.len() - (old(buffer)@.len() % 4),
            final(buffer)@.len() == old(buffer)@.len(),
            forall|j: int|
                written <= j < old(buffer)@.len() ==> final(buffer)@[j] == old(buffer)@[j],
            old(buffer)@.len() < 4 ==> final(self)@ == old(self)@ && final(buffer)@ == old(
                buffer,
            )@,
            old(buffer)@.len() >= 4 ==> final(self)@ == engine_ticks(
                drained(old(self)@),
                (written / 4) as nat,
            ) && final(self)@.queue.len() == 0,
            old(buffer)@.len() >= 4 ==> forall|g: int|
                0 <= g < written / 4 ==> final(buffer)@[4 * g] == sample_lo_byte(
                    #[trigger] rendered_frame_sample(drained(old(self)@), g),
                ) && final(buffer)@[4 * g + 1] == sample_hi_byte(
                    rendered_frame_sample(drained(old(self)@), g),
                ) && final(buffer)@[4 * g + 2] == sample_lo_byte(
                    rendered_frame_sample(drained(old(self)@), g),
                ) && final(buffer)@[4 * g + 3] == sample_hi_byte(
                    rendered_frame_sample(drained(old(self)@), g),
                ),
    {
        let len = buffer.len();
        if len < 4 {
            return 0;
        }
        // Drain all pending control messages (non-blocking, FIFO) before
        // generating any sample for this buffer.
        let mut more = true;
        while more
            invariant
                engine_wf(self@),
                drained(self@) == drained(old(self)@),
                !more ==> self@.queue.len() == 0,
            decreases self@.queue.len() + (if more {
                1int
            } else {
                0int
            }),
        {
            let ghost e0 = self@;
            let received = self.queue.try_receive();
            match received {
                Some(m) => {
                    proof {
                        assert(self@ == EngineView { queue: e0.queue.drop_first(), ..e0 });
                    }
                    self.process_message(m);
                    proof {
                        lemma_apply_message_queue_independent(e0, e0.queue.drop_first(), m);
                        assert(self@ == EngineView {
                            queue: e0.queue.drop_first(),
                            ..apply_message(e0, m)
                        });
                        assert(drained(self@) == drained(e0));
                    }
                },
                None => {
                    more = false;
                },
            }
        }
        let frames = len / 4;
        let ghost d = drained(old(self)@);
        let mut f: usize = 0;
        while f < frames
            invariant
                engine_wf(self@),
                f <= frames,
                frames == len / 4,
                4 * frames <= len,
                len == old(buffer)@.len(),
                buffer@.len() == len,
                d == drained(old(self)@),
                self@ == engine_ticks(d, f as nat),
                self@.queue.len() == 0,
                forall|g: int|
                    0 <= g < f ==> buffer@[4 * g] == sample_lo_byte(
                        #[trigger] rendered_frame_sample(d, g),
                    ) && buffer@[4 * g + 1] == sample_hi_byte(rendered_frame_sample(d, g))
                        && buffer@[4 * g + 2] == sample_lo_byte(rendered_frame_sample(d, g))
                        && buffer@[4 * g + 3] == sample_hi_byte(rendered_frame_sample(d, g)),
                forall|j: int| 4 * (f as int) <= j < len ==> buffer@[j] == old(buffer)@[j],
            decreases frames - f,
        {
            let s = self.tick();
            proof {
                assert(engine_ticks(d, (f + 1) as nat) == engine_step(engine_ticks(d, f as nat)));
                assert(s as int == rendered_frame_sample(d, f as int));
            }
            let b = sample_to_i16_le(s);
            let lo = b[0];
            let hi = b[1];
            let base = 4 * f;
            buffer.set(base, lo);
            buffer.set(base + 1, hi);
            buffer.set(base + 2, lo);
            buffer.set(base + 3, hi);
            f = f + 1;
        }
        frames * 4
    }
}

/// What a message does to the engine does not depend on what else is
/// waiting in the queue, and the queue passes through unchanged.
pub proof fn lemma_apply_message_queue_independent(e: EngineView, q: Seq<Message>, m: Message)
    ensures
        apply_message(EngineView { queue: q, ..e }, m) == (EngineView {
            queue: q,
            ..apply_message(e, m)
        }),
{
    match m {
        Message::SelectVoice(i) => {
            assert(apply_message(EngineView { queue: q, ..e }, m) =~= (EngineView {
                queue: q,
                ..apply_message(e, m)
            }));
        },
        Message::ToggleVoice(i) => {
            assert(apply_message(EngineView { queue: q, ..e }, m) =~= (EngineView {
                queue: q,
                ..apply_message(e, m)
            }));
        },
        Message::SetFrequency(f) => {
            assert(apply_message(EngineView { queue: q, ..e }, m) =~= (EngineView {
                queue: q,
                ..apply_message(e, m)
            }));
        },
        Message::SetVolume(v) => {
            assert(apply_message(EngineView { queue: q, ..e }, m) =~= (EngineView {
                queue: q,
                ..apply_message(e, m)
            }));
        },
    }
}

} // verus!
