use radioscope::audio::{sound_for, SampleQueue, SoundId, SoundPalette};
use radioscope::events::EventKind;

fn palette() -> SoundPalette {
    let mut buffers: Vec<Vec<i16>> = Vec::new();
    for i in 0..11i16 {
        buffers.push(vec![1000 + i, -1000 - i]);
    }
    buffers[10] = vec![500];
    SoundPalette::from_buffers(buffers).unwrap()
}

fn drain(q: &mut SampleQueue) -> Vec<i32> {
    let mut out = Vec::new();
    while q.len() > 0 {
        out.push(q.pop_sample());
    }
    out
}

#[test]
fn play_clamps_gain_above_limit() {
    let p = palette();
    let mut q = SampleQueue::new();
    q.play(&p, SoundId::BeaconTick, false, 2000);
    assert_eq!(drain(&mut q), vec![1200, -1200]);
    q.play(&p, SoundId::BeaconTick, false, 1200);
    assert_eq!(drain(&mut q), vec![1200, -1200]);
}

#[test]
fn negative_gain_is_silence() {
    let p = palette();
    let mut q = SampleQueue::new();
    q.play(&p, SoundId::DataTick, true, -1000);
    assert_eq!(drain(&mut q), vec![0, 0, 0]);
}

#[test]
fn retry_overlay_appends_glitch() {
    let p = palette();
    let mut q = SampleQueue::new();
    q.play(&p, SoundId::AckClick, true, 500);
    assert_eq!(drain(&mut q), vec![504, -504, 250]);
}

#[test]
fn empty_queue_pops_silence() {
    let mut q = SampleQueue::new();
    assert_eq!(q.pop_sample(), 0);
    assert_eq!(q.pop_sample(), 0);
    assert_eq!(q.len(), 0);
}

#[test]
fn popped_samples_are_clamped_to_full_scale() {
    let buffers = vec![vec![32767i16, -32768]; 11];
    let p = SoundPalette::from_buffers(buffers).unwrap();
    let mut q = SampleQueue::new();
    q.play(&p, SoundId::DeauthZap, false, 1200);
    assert_eq!(drain(&mut q), vec![32767, -32767]);
}

#[test]
fn palette_needs_every_sound() {
    assert!(SoundPalette::from_buffers(vec![vec![0i16]; 10]).is_none());
    assert!(SoundPalette::from_buffers(vec![vec![0i16]; 12]).is_none());
}

#[test]
fn kinds_map_to_sounds() {
    assert_eq!(sound_for(&EventKind::Beacon), SoundId::BeaconTick);
    assert_eq!(sound_for(&EventKind::Eapol), SoundId::EapolMotif);
    assert_eq!(sound_for(&EventKind::DataTick), SoundId::DataTick);
    assert_eq!(sound_for(&EventKind::Cts), SoundId::CtsKnockback);
}
