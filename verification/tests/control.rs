use vitamin::channel::ChannelError;
use vitamin::frames::{frames_in, write_frames};
use vitamin::look::oscillator::START_FREQ;
use vitamin::look::{MixerWindow, OscillatorWindow, WrappedNetwork};
use vitamin::message::MessageReceiver;
use vitamin::mixer::{Mixer as OwnedMixer, START_VOLUME};
use vitamin::network::Network;
use vitamin::oscillator::Oscillator as FreeOscillator;
use vitamin::sampler::MixerMessage;
use vitamin::text::contains_text;

/// A sampler stand-in that counts how often it was asked to take in messages.
#[derive(Debug, PartialEq)]
struct Probe {
    polls: u32,
}

impl MessageReceiver for Probe {
    fn recv(&mut self) {
        self.polls += 1;
    }
}

#[test]
fn network_registers_arrivals_and_polls_every_sampler() {
    let (mut network, mut send) = Network::<Probe>::new();
    assert!(network.sampler_ids().is_empty());
    send.send((1, Probe { polls: 0 })).unwrap();
    send.send((2, Probe { polls: 0 })).unwrap();
    network.recv();
    assert_eq!(network.get(1), Some(&Probe { polls: 1 }));
    assert_eq!(network.get(2), Some(&Probe { polls: 1 }));
    assert_eq!(network.get(3), None);
    send.send((1, Probe { polls: 10 })).unwrap();
    network.recv();
    assert_eq!(network.get(1), Some(&Probe { polls: 11 }));
    assert_eq!(network.get(2), Some(&Probe { polls: 2 }));
}

#[test]
fn network_later_arrival_replaces_earlier() {
    let (mut network, _send) = Network::<Probe>::new();
    network.register_all(vec![(4, Probe { polls: 1 }), (5, Probe { polls: 2 }), (4, Probe { polls: 3 })]);
    assert_eq!(network.get(4), Some(&Probe { polls: 3 }));
    let mut ids = network.sampler_ids();
    ids.sort();
    assert_eq!(ids, vec![4, 5]);
}

#[test]
fn network_update_all_keeps_ids() {
    let (mut network, _send) = Network::<Probe>::new();
    network.register_all(vec![(1, Probe { polls: 0 }), (2, Probe { polls: 5 })]);
    network.update_all(|p: Probe| Probe { polls: p.polls * 2 + 1 });
    assert_eq!(network.get(1), Some(&Probe { polls: 1 }));
    assert_eq!(network.get(2), Some(&Probe { polls: 11 }));
}

#[test]
fn wrapped_network_names_and_forwards() {
    let (mut wrapped, mut network) = WrappedNetwork::<Probe>::new();
    wrapped.add_sampler(8, "Osc".to_string(), Probe { polls: 0 }).unwrap();
    assert_eq!(wrapped.name_of(8), None);
    assert_eq!(wrapped.recv(), Ok(()));
    assert_eq!(wrapped.name_of(8).map(|s| s.as_str()), Some("Osc"));
    network.recv();
    assert_eq!(network.get(8), Some(&Probe { polls: 1 }));
}

#[test]
fn wrapped_network_stops_when_network_is_gone() {
    let (mut wrapped, network) = WrappedNetwork::<Probe>::new();
    drop(network);
    let r = wrapped.forward_all(vec![(1, "a".to_string(), Probe { polls: 0 })]);
    assert_eq!(r, Err(ChannelError::Disconnected));
    assert_eq!(wrapped.name_of(1), None);
    assert!(wrapped.sampler_ids().is_empty());
}

#[test]
fn mixer_window_takes_on_named_samplers_but_not_itself_or_channels() {
    let (mut wrapped, _network) = WrappedNetwork::<Probe>::new();
    let (id, mut mixer, mut window) = MixerWindow::new();
    assert_eq!(window.id(), id);
    wrapped
        .forward_all(vec![
            (id, "Mixer".to_string(), Probe { polls: 0 }),
            (11, "Channel 0".to_string(), Probe { polls: 0 }),
            (12, "440 Hz".to_string(), Probe { polls: 0 }),
            (13, "Oscillator".to_string(), Probe { polls: 0 }),
        ])
        .unwrap();
    assert_eq!(window.discover_sources(&wrapped), Ok(()));
    let mut ids = window.source_ids();
    ids.sort();
    assert_eq!(ids, vec![12, 13]);
    assert_eq!(window.volume_of(12), Some(0));
    assert_eq!(window.volume_of(11), None);
    assert_eq!(window.volume_of(id), None);

    // looking again adds nothing
    assert_eq!(window.discover_sources(&wrapped), Ok(()));
    assert_eq!(window.source_ids().len(), 2);

    // the mixer hears of each source once, at volume zero
    mixer.recv();
    let mut mixed = mixer.source_ids();
    mixed.sort();
    assert_eq!(mixed, vec![12, 13]);
    assert_eq!(mixer.source(12).unwrap().current, 0);
}

#[test]
fn mixer_window_volume_reaches_mixer_target() {
    let (mut wrapped, _network) = WrappedNetwork::<Probe>::new();
    let (_id, mut mixer, mut window) = MixerWindow::new();
    wrapped.forward_all(vec![(21, "Noise".to_string(), Probe { polls: 0 })]).unwrap();
    window.discover_sources(&wrapped).unwrap();
    window.set_volume(21, 0x3f00_0000).unwrap();
    assert_eq!(window.volume_of(21), Some(0x3f00_0000));
    mixer.recv();
    let n = mixer.source(21).unwrap();
    assert_eq!(n.target, 0x3f00_0000);
    assert_eq!(n.current, 0);
}

#[test]
fn mixer_window_send_fails_once_mixer_is_gone() {
    let (_id, mixer, mut window) = MixerWindow::new();
    drop(mixer);
    assert_eq!(window.set_volume(1, 5), Err(ChannelError::Disconnected));
    assert_eq!(window.volume_of(1), Some(5));
}

#[test]
fn oscillator_window_starts_at_440_and_sends_frequency() {
    let (id, mut osc, mut window) = OscillatorWindow::new();
    assert_eq!(window.id(), id);
    assert_eq!(f32::from_bits(START_FREQ), 440.0);
    assert_eq!(window.freq(), START_FREQ);
    assert_eq!(osc.freq(), START_FREQ);
    let f = 300.0f32.to_bits();
    window.set_freq(f).unwrap();
    assert_eq!(window.freq(), f);
    osc.recv();
    assert_eq!(osc.freq(), f);
}

#[test]
fn fresh_windows_get_different_ids() {
    let (a, _, _) = MixerWindow::new();
    let (b, _, _) = OscillatorWindow::new();
    assert_ne!(a, b);
}

#[test]
fn window_ids_carry_random_uuid_marks() {
    let mask: u128 = 0xF000_C000_0000_0000_0000;
    let marks: u128 = 0x4000_8000_0000_0000_0000;
    for _ in 0..8 {
        let (a, _, _) = MixerWindow::new();
        let (b, _, _) = OscillatorWindow::new();
        assert_eq!(a & mask, marks);
        assert_eq!(b & mask, marks);
    }
}

#[test]
fn owned_mixer_adds_at_half_volume() {
    let mut mixer: OwnedMixer<u8> = Default::default();
    assert!(mixer.sources().is_empty());
    mixer.add("440 Hz".to_string(), 1);
    mixer.add("300 Hz".to_string(), 2);
    assert_eq!(f32::from_bits(START_VOLUME), 0.5);
    let sources = mixer.sources();
    assert_eq!(sources.len(), 2);
    assert_eq!(sources[1].name().as_str(), "300 Hz");
    assert_eq!(*sources[1].sampler(), 2);
    assert_eq!(*sources[0].volume(), START_VOLUME);
    *sources[0].volume() = 0;
    sources[0].name().push('!');
    assert_eq!(*mixer.sources()[0].volume(), 0);
    assert_eq!(mixer.sources()[0].name().as_str(), "440 Hz!");
}

#[test]
fn free_oscillator_keeps_frequency() {
    let osc = FreeOscillator::new(600.0f32.to_bits());
    assert_eq!(f32::from_bits(osc.freq()), 600.0);
}

#[test]
fn frames_count_rounds_up() {
    assert_eq!(frames_in(0, 2), 0);
    assert_eq!(frames_in(6, 2), 3);
    assert_eq!(frames_in(7, 2), 4);
    assert_eq!(frames_in(5, 1), 5);
}

#[test]
fn write_frames_repeats_each_value_on_every_channel() {
    let mut out = [0i16; 7];
    let values = vec![1i16, 2, 3];
    write_frames(&mut out, 3, &values);
    assert_eq!(out, [1, 1, 1, 2, 2, 2, 3]);
    let mut mono = [0u8; 3];
    write_frames(&mut mono, 1, &vec![9u8, 8, 7]);
    assert_eq!(mono, [9, 8, 7]);
}

#[test]
fn contains_text_finds_runs() {
    assert!(contains_text("Channel 0", "Channel"));
    assert!(contains_text("Left Channel", "Channel"));
    assert!(!contains_text("Chan", "Channel"));
    assert!(!contains_text("channel", "Channel"));
    assert!(contains_text("", ""));
    assert!(contains_text("abc", ""));
    assert!(!contains_text("", "a"));
}

#[test]
fn mixer_message_is_plain_data() {
    let m = MixerMessage::SetVolume(1, 2);
    assert_eq!(m, MixerMessage::SetVolume(1, 2));
}

#[test]
fn mixer_window_discovery_needs_no_channel_when_nothing_is_new() {
    let (wrapped, _network) = WrappedNetwork::<Probe>::new();
    let (_id, mixer, mut window) = MixerWindow::new();
    drop(mixer);
    assert_eq!(window.discover_sources(&wrapped), Ok(()));
    assert!(window.source_ids().is_empty());
}

#[test]
fn mixer_window_discovery_fails_after_taking_on_a_source() {
    let (mut wrapped, _network) = WrappedNetwork::<Probe>::new();
    let (_id, mixer, mut window) = MixerWindow::new();
    wrapped.forward_all(vec![(31, "Noise".to_string(), Probe { polls: 0 })]).unwrap();
    drop(mixer);
    assert_eq!(window.discover_sources(&wrapped), Err(ChannelError::Disconnected));
    assert_eq!(window.volume_of(31), Some(0));
}

#[test]
fn add_sampler_always_queues_and_recv_forwards_in_order() {
    let (mut wrapped, mut network) = WrappedNetwork::<Probe>::new();
    assert_eq!(wrapped.add_sampler(1, "a".to_string(), Probe { polls: 5 }), Ok(()));
    assert_eq!(wrapped.add_sampler(1, "b".to_string(), Probe { polls: 7 }), Ok(()));
    assert_eq!(wrapped.add_sampler(2, "c".to_string(), Probe { polls: 0 }), Ok(()));
    assert_eq!(wrapped.recv(), Ok(()));
    assert_eq!(wrapped.name_of(1).map(|s| s.as_str()), Some("b"));
    assert_eq!(wrapped.name_of(2).map(|s| s.as_str()), Some("c"));
    network.recv();
    assert_eq!(network.get(1), Some(&Probe { polls: 8 }));
    assert_eq!(wrapped.recv(), Ok(()));
}

/// A sampler stand-in that keeps a channel's mixer alive.
struct Held(vitamin::sampler::Mixer);

impl MessageReceiver for Held {
    fn recv(&mut self) {
        self.0.recv();
    }
}

#[test]
fn channel_mixers_are_named_and_never_taken_on() {
    let (mut wrapped, mut network) = WrappedNetwork::<Held>::new();
    let (ids, mut windows) = wrapped.add_channel_mixers(2, Held);
    assert_eq!(ids.len(), 2);
    assert_eq!(windows[1].id(), ids[1]);
    let (other, _send) = vitamin::sampler::Mixer::new();
    wrapped.add_sampler(40, "Osc 1".to_string(), Held(other)).unwrap();
    wrapped.recv().unwrap();
    assert_eq!(wrapped.name_of(ids[0]).map(|s| s.as_str()), Some("Channel 0"));
    assert_eq!(wrapped.name_of(ids[1]).map(|s| s.as_str()), Some("Channel 1"));
    windows[0].discover_sources(&wrapped).unwrap();
    assert_eq!(windows[0].source_ids(), vec![40]);
    network.recv();
    let channel = network.get(ids[0]).unwrap();
    assert_eq!(channel.0.source_ids(), vec![40]);
}

#[test]
fn channel_names_count_past_nine() {
    let (mut wrapped, _network) = WrappedNetwork::<Probe>::new();
    let (ids, _windows) = wrapped.add_channel_mixers(12, |_m| Probe { polls: 0 });
    wrapped.recv().unwrap();
    assert_eq!(wrapped.name_of(ids[10]).map(|s| s.as_str()), Some("Channel 10"));
    assert_eq!(wrapped.name_of(ids[11]).map(|s| s.as_str()), Some("Channel 11"));
}
