use vitamin::message::{Message, MessageReceiver};
use vitamin::sampler::mixer::VOLUME_STEP;
use vitamin::sampler::{Mixer, MixerMessage, Oscillator, OscillatorMessage};
use vitamin::smooth::SmoothNum;

const HALF: u32 = 0x3f00_0000; // 0.5
const ONE: u32 = 0x3f80_0000; // 1.0
const NEG_ZERO: u32 = 0x8000_0000; // -0.0

#[test]
fn test() {
    let (send, recv) = crossbeam_channel::unbounded();
    send.try_send(4).unwrap();

    println!("{:?}", recv.try_recv().unwrap());
}

#[test]
fn smooth_num_starts_at_rest_and_set_moves_only_target() {
    let mut n = SmoothNum::new(HALF, VOLUME_STEP);
    assert_eq!(n.get(), HALF);
    assert_eq!(n.target, HALF);
    n.set(ONE);
    assert_eq!(n.get(), HALF);
    assert_eq!(n.target, ONE);
    assert_eq!(n.step, VOLUME_STEP);
}

#[test]
fn volume_step_is_one_ten_thousandth() {
    assert_eq!(f32::from_bits(VOLUME_STEP), 0.0001f32);
}

#[test]
fn mixer_starts_empty() {
    let (mixer, _send) = Mixer::new();
    assert!(mixer.source_ids().is_empty());
    assert!(mixer.audible_sources().is_empty());
}

#[test]
fn add_source_is_at_rest() {
    let (mut mixer, _send) = Mixer::new();
    MixerMessage::AddSource(7, HALF).apply(&mut mixer);
    let n = mixer.source(7).unwrap();
    assert_eq!(n, SmoothNum { current: HALF, target: HALF, step: VOLUME_STEP });
}

#[test]
fn set_volume_moves_target_of_present_source_only() {
    let (mut mixer, _send) = Mixer::new();
    MixerMessage::AddSource(1, HALF).apply(&mut mixer);
    MixerMessage::SetVolume(1, ONE).apply(&mut mixer);
    MixerMessage::SetVolume(2, ONE).apply(&mut mixer);
    assert_eq!(mixer.source(1), Some(SmoothNum { current: HALF, target: ONE, step: VOLUME_STEP }));
    assert_eq!(mixer.source(2), None);
    assert_eq!(mixer.source_ids(), vec![1]);
}

#[test]
fn remove_undoes_add() {
    let (mut mixer, _send) = Mixer::new();
    MixerMessage::AddSource(3, HALF).apply(&mut mixer);
    mixer.apply_all(vec![MixerMessage::AddSource(4, ONE), MixerMessage::RemoveSource(4)]);
    assert_eq!(mixer.source_ids(), vec![3]);
    assert_eq!(mixer.source(4), None);
    MixerMessage::RemoveSource(99).apply(&mut mixer);
    assert_eq!(mixer.source_ids(), vec![3]);
}

#[test]
fn mixer_recv_applies_sent_messages_in_order() {
    let (mut mixer, mut send) = Mixer::new();
    send.send(MixerMessage::AddSource(5, 0)).unwrap();
    send.send(MixerMessage::SetVolume(5, HALF)).unwrap();
    send.send(MixerMessage::AddSource(6, ONE)).unwrap();
    send.send(MixerMessage::RemoveSource(6)).unwrap();
    mixer.recv();
    assert_eq!(mixer.source(5), Some(SmoothNum { current: 0, target: HALF, step: VOLUME_STEP }));
    assert_eq!(mixer.source(6), None);
    mixer.recv();
    assert_eq!(mixer.source_ids(), vec![5]);
}

#[test]
fn audible_sources_skip_both_zeros() {
    let (mut mixer, _send) = Mixer::new();
    mixer.apply_all(vec![
        MixerMessage::AddSource(1, 0),
        MixerMessage::AddSource(2, NEG_ZERO),
        MixerMessage::AddSource(3, HALF),
        MixerMessage::AddSource(4, 1),
    ]);
    let mut audible = mixer.audible_sources();
    audible.sort();
    assert_eq!(audible, vec![(3, HALF), (4, 1)]);
}

#[test]
fn tick_sources_touches_every_source_once() {
    let (mut mixer, _send) = Mixer::new();
    mixer.apply_all(vec![MixerMessage::AddSource(1, 0), MixerMessage::AddSource(2, 10)]);
    mixer.tick_sources(|n: SmoothNum| n.current + 1);
    assert_eq!(mixer.source(1).unwrap().current, 1);
    assert_eq!(mixer.source(2).unwrap().current, 11);
    assert_eq!(mixer.source(2).unwrap().target, 10);
    assert_eq!(mixer.source(2).unwrap().step, VOLUME_STEP);
    let mut ids = mixer.source_ids();
    ids.sort();
    assert_eq!(ids, vec![1, 2]);
}

#[test]
fn oscillator_starts_at_phase_zero() {
    let (osc, _send) = Oscillator::new(ONE);
    assert_eq!(osc.freq(), ONE);
    assert_eq!(osc.phase(), 0);
}

#[test]
fn oscillator_takes_last_frequency_sent() {
    let (mut osc, mut send) = Oscillator::new(ONE);
    osc.set_phase(HALF);
    send.send(OscillatorMessage::SetFreq(7)).unwrap();
    send.send(OscillatorMessage::SetFreq(9)).unwrap();
    osc.recv();
    assert_eq!(osc.freq(), 9);
    assert_eq!(osc.phase(), HALF);
    osc.recv();
    assert_eq!(osc.freq(), 9);
    OscillatorMessage::SetFreq(3).apply(&mut osc);
    assert_eq!(osc.freq(), 3);
}

#[test]
fn oscillator_batches_compose() {
    let (mut a, _s1) = Oscillator::new(ONE);
    let (mut b, _s2) = Oscillator::new(ONE);
    a.apply_all(vec![OscillatorMessage::SetFreq(1), OscillatorMessage::SetFreq(2)]);
    a.apply_all(vec![]);
    b.apply_all(vec![OscillatorMessage::SetFreq(1)]);
    b.apply_all(vec![OscillatorMessage::SetFreq(2)]);
    assert_eq!(a.freq(), b.freq());
}

#[test]
fn mixer_batches_compose() {
    let msgs = vec![
        MixerMessage::AddSource(1, HALF),
        MixerMessage::SetVolume(1, ONE),
        MixerMessage::AddSource(2, 0),
        MixerMessage::RemoveSource(1),
    ];
    let (mut whole, _s1) = Mixer::new();
    whole.apply_all(msgs.clone());
    let (mut split, _s2) = Mixer::new();
    split.apply_all(msgs[..2].to_vec());
    split.apply_all(msgs[2..].to_vec());
    assert_eq!(whole.source_ids(), split.source_ids());
    assert_eq!(whole.source(2), split.source(2));
    assert_eq!(whole.source(1), None);
}

#[test]
fn with_current_keeps_target_and_step() {
    let n = SmoothNum::new(HALF, VOLUME_STEP).with_current(ONE);
    assert_eq!(n, SmoothNum { current: ONE, target: HALF, step: VOLUME_STEP });
}

#[test]
fn outbox_reports_disconnection() {
    let (mixer, mut send) = Mixer::new();
    assert_eq!(send.send(MixerMessage::RemoveSource(1)), Ok(()));
    drop(mixer);
    assert_eq!(send.send(MixerMessage::RemoveSource(1)), Err(vitamin::channel::ChannelError::Disconnected));
    assert_eq!(send.try_send(MixerMessage::RemoveSource(1)), Err(vitamin::channel::ChannelError::Disconnected));
}
