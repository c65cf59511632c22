use vstd::prelude::*;
use std::collections::VecDeque;

use crate::events::EventKind;

verus! {

/// The sounds of the palette.
#[derive(Clone, Copy, Debug, PartialEq, Eq, Hash, Structural)]
pub enum SoundId {
    BeaconTick,
    ProbeChirp,
    ProbeReply,
    AssocUp,
    DeauthZap,
    EapolMotif,
    RtsKnock,
    CtsKnockback,
    AckClick,
    DataTick,
    RetryGlitch,
}

pub const SOUND_COUNT: usize = 11;

pub open spec fn sound_index(id: SoundId) -> int {
    match id {
        SoundId::BeaconTick => 0,
        SoundId::ProbeChirp => 1,
        SoundId::ProbeReply => 2,
        SoundId::AssocUp => 3,
        SoundId::DeauthZap => 4,
        SoundId::EapolMotif => 5,
        SoundId::RtsKnock => 6,
        SoundId::CtsKnockback => 7,
        SoundId::AckClick => 8,
        SoundId::DataTick => 9,
        SoundId::RetryGlitch => 10,
    }
}

pub fn index_of_sound(id: SoundId) -> (r: usize)
    ensures
        r == sound_index(id),
        r < SOUND_COUNT,
{
    match id {
        SoundId::BeaconTick => 0,
        SoundId::ProbeChirp => 1,
        SoundId::ProbeReply => 2,
        SoundId::AssocUp => 3,
        SoundId::DeauthZap => 4,
        SoundId::EapolMotif => 5,
        SoundId::RtsKnock => 6,
        SoundId::CtsKnockback => 7,
        SoundId::AckClick => 8,
        SoundId::DataTick => 9,
        SoundId::RetryGlitch => 10,
    }
}

/// The sound that announces each event kind.
pub open spec fn sound_of(kind: EventKind) -> SoundId {
    match kind {
        EventKind::Beacon => SoundId::BeaconTick,
        EventKind::ProbeReq => SoundId::ProbeChirp,
        EventKind::ProbeResp => SoundId::ProbeReply,
        EventKind::Assoc => SoundId::AssocUp,
        EventKind::Deauth => SoundId::DeauthZap,
        EventKind::Eapol => SoundId::EapolMotif,
        EventKind::Rts => SoundId::RtsKnock,
        EventKind::Cts => SoundId::CtsKnockback,
        EventKind::Ack => SoundId::AckClick,
        EventKind::DataTick => SoundId::DataTick,
    }
}

pub fn sound_for(kind: &EventKind) -> (r: SoundId)
    ensures
        r == sound_of(*kind),
{
    match kind {
        EventKind::Beacon => SoundId::BeaconTick,
        EventKind::ProbeReq => SoundId::ProbeChirp,
        EventKind::ProbeResp => SoundId::ProbeReply,
        EventKind::Assoc => SoundId::AssocUp,
        EventKind::Deauth => SoundId::DeauthZap,
        EventKind::Eapol => SoundId::EapolMotif,
        EventKind::Rts => SoundId::RtsKnock,
        EventKind::Cts => SoundId::CtsKnockback,
        EventKind::Ack => SoundId::AckClick,
        EventKind::DataTick => SoundId::DataTick,
    }
}

/// Full-scale magnitude of a sample: samples are fixed-point fractions of it.
pub const FULL_SCALE: i32 = 32767;

/// Largest gain `play` applies, in thousandths.
pub const MAX_GAIN_MILLI: i32 = 1200;

/// The gain actually applied: clamped to [0, 1.2].
pub open spec fn effective_gain(gain_milli: i32) -> i32 {
    if gain_milli < 0 {
        0
    } else if gain_milli > MAX_GAIN_MILLI {
        MAX_GAIN_MILLI
    } else {
        gain_milli
    }
}

pub fn clamp_gain(gain_milli: i32) -> (r: i32)
    ensures
        r == effective_gain(gain_milli),
        0 <= r <= MAX_GAIN_MILLI,
{
    if gain_milli < 0 {
        0
    } else if gain_milli > MAX_GAIN_MILLI {
        MAX_GAIN_MILLI
    } else {
        gain_milli
    }
}

/// A sample scaled by a gain in thousandths, rounded toward zero.
pub open spec fn scaled(x: i16, g: i32) -> i32 {
    if x >= 0 {
        (x * g / 1000) as i32
    } else {
        (-((-x) * g / 1000)) as i32
    }
}

pub open spec fn scaled_all(s: Seq<i16>, g: i32) -> Seq<i32> {
    s.map_values(|x: i16| scaled(x, g))
}

fn scale(x: i16, g: i32) -> (r: i32)
    requires
        0 <= g <= MAX_GAIN_MILLI,
    ensures
        r == scaled(x, g),
{
    let m: i64 = if x >= 0 { x as i64 } else { -(x as i64) };
    assert(0 <= m * (g as i64) <= 32768 * 1200) by (nonlinear_arith)
        requires
            0 <= m <= 32768,
            0 <= g <= 1200,
    ;
    let v: i64 = m * (g as i64) / 1000;
    if x >= 0 {
        v as i32
    } else {
        (-v) as i32
    }
}

/// The precomputed sounds, one buffer per `SoundId`.
#[derive(Debug)]
pub struct SoundPalette {
    sounds: Vec<Vec<i16>>,
}

impl SoundPalette {
    /// One buffer per sound.
    #[verifier::type_invariant]
    spec fn wf(&self) -> bool {
        self.sounds@.len() == SOUND_COUNT
    }

    /// The samples of sound `id`.
    pub closed spec fn sound(&self, id: SoundId) -> Seq<i16> {
        self.sounds@[sound_index(id)]@
    }

    /// A palette from one buffer per sound, in `SoundId` order.
    pub fn from_buffers(buffers: Vec<Vec<i16>>) -> (r: Option<Self>)
        ensures
            r is Some <==> buffers@.len() == SOUND_COUNT,
            r matches Some(p) ==> forall|id: SoundId| #[trigger]
                p.sound(id) == buffers@[sound_index(id)]@,
    {
        if buffers.len() != SOUND_COUNT {
            return None;
        }
        Some(SoundPalette { sounds: buffers })
    }
}

/// The realtime sample queue: producers append at the back, the output
/// callback takes from the front. It is not capped.
#[derive(Debug)]
pub struct SampleQueue {
    samples: VecDeque<i32>,
}

impl View for SampleQueue {
    type V = Seq<i32>;

    closed spec fn view(&self) -> Seq<i32> {
        self.samples@
    }
}

/// A sample clamped to the full-scale range.
pub open spec fn clamped(x: i32) -> i32 {
    if x < -FULL_SCALE {
        (-FULL_SCALE) as i32
    } else if x > FULL_SCALE {
        FULL_SCALE
    } else {
        x
    }
}

impl SampleQueue {
    pub fn new() -> (r: Self)
        ensures
            r@ == Seq::<i32>::empty(),
    {
        SampleQueue { samples: VecDeque::new() }
    }

    pub fn len(&self) -> (r: usize)
        ensures
            r == self@.len(),
    {
        self.samples.len()
    }

    fn push_scaled(&mut self, sound: &Vec<i16>, g: i32)
        requires
            0 <= g <= MAX_GAIN_MILLI,
        ensures
            final(self)@ == old(self)@ + scaled_all(sound@, g),
    {
        let mut i: usize = 0;
        while i < sound.len()
            invariant
                0 <= g <= MAX_GAIN_MILLI,
                i <= sound@.len(),
                self@ == old(self)@ + scaled_all(sound@.subrange(0, i as int), g),
            decreases sound@.len() - i,
        {
            let v = scale(sound[i], g);
            self.samples.push_back(v);
            i += 1;
            assert(self@ =~= old(self)@ + scaled_all(sound@.subrange(0, i as int), g));
        }
        assert(sound@.subrange(0, sound@.len() as int) =~= sound@);
    }

    /// Appends sound `id` scaled by the clamped gain, then, for a retried
    /// frame, the glitch sound scaled the same way.
    pub fn play(&mut self, palette: &SoundPalette, id: SoundId, overlay_retry: bool, gain_milli: i32)
        ensures
            final(self)@ == old(self)@ + scaled_all(palette.sound(id), effective_gain(gain_milli))
                + if overlay_retry {
                scaled_all(palette.sound(SoundId::RetryGlitch), effective_gain(gain_milli))
            } else {
                Seq::empty()
            },
    {
        proof {
            use_type_invariant(palette);
        }
        let g = clamp_gain(gain_milli);
        self.push_scaled(&palette.sounds[index_of_sound(id)], g);
        if overlay_retry {
            self.push_scaled(&palette.sounds[index_of_sound(SoundId::RetryGlitch)], g);
        } else {
            assert(self@ =~= self@ + Seq::<i32>::empty());
        }
    }

    /// Takes the front sample, clamped to full scale; silence when empty.
    pub fn pop_sample(&mut self) -> (r: i32)
        ensures
            old(self)@.len() == 0 ==> r == 0 && final(self)@ == old(self)@,
            old(self)@.len() > 0 ==> r == clamped(old(self)@[0]) && final(self)@
                == old(self)@.drop_first(),
            -FULL_SCALE <= r <= FULL_SCALE,
    {
        match self.samples.pop_front() {
            Some(x) => if x < -FULL_SCALE {
                -FULL_SCALE
            } else if x > FULL_SCALE {
                FULL_SCALE
            } else {
                x
            },
            None => 0,
        }
    }
}

/// Gains above 1.2 play at 1.2, and negative gains play silence.
pub proof fn lemma_gain_clamped(g: i32, x: i16)
    ensures
        g >= MAX_GAIN_MILLI ==> effective_gain(g) == MAX_GAIN_MILLI,
        g <= 0 ==> scaled(x, effective_gain(g)) == 0,
        0 <= effective_gain(g) <= MAX_GAIN_MILLI,
{
    assert(x * 0 == 0 && (-x) * 0 == 0) by (nonlinear_arith);
}

} // verus!
