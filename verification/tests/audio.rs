use deskoryn::audio::{
    audio_role, begin, coder_setup, device_choice, find_device, named_devices, or_default,
    overflow, packet_form, AudioError, AudioRole, AudioSink, AudioSource, Begin, PacketForm,
    PassthroughCodec, MAX_QUEUED,
};
use deskoryn::config::AudioProfile;
use deskoryn::jitter::{JitterBuffer, Pop};
use deskoryn::message::AudioControl;
use deskoryn::reframe::{frame_fits, frame_len, frame_ms, Reframer};

#[test]
fn reorders_and_conceals() {
    let mut jb = JitterBuffer::new(2);
    jb.push(5, vec![5]);
    jb.push(7, vec![7]); // 6 is lost
    // Out-of-order arrival of the prime set:
    assert!(matches!(jb.pop(), Pop::Packet(p) if p == vec![5]));
    assert!(matches!(jb.pop(), Pop::Conceal)); // seq 6 missing
    assert!(matches!(jb.pop(), Pop::Packet(p) if p == vec![7]));
}

#[test]
fn waits_until_enough_is_buffered() {
    let mut jb = JitterBuffer::new(JitterBuffer::depth_for(AudioProfile::LowLatency));
    assert!(matches!(jb.pop(), Pop::Underrun));
    jb.push(9, vec![9]);
    assert!(matches!(jb.pop(), Pop::Underrun));
    jb.push(8, vec![8]);
    assert_eq!(jb.buffered(), 2);
    assert!(matches!(jb.pop(), Pop::Packet(p) if p == vec![8]));
    // A late packet is dropped, a repeated one replaces.
    jb.push(8, vec![1]);
    assert_eq!(jb.buffered(), 1);
    jb.push(9, vec![2]);
    assert_eq!(jb.buffered(), 1);
    assert!(matches!(jb.pop(), Pop::Packet(p) if p == vec![2]));
    assert_eq!(JitterBuffer::depth_for(AudioProfile::HighQuality), 8);
}

#[test]
fn places_wrap_around() {
    let mut jb = JitterBuffer::new(0);
    jb.push(u32::MAX, vec![1]);
    assert!(matches!(jb.pop(), Pop::Packet(p) if p == vec![1]));
    jb.push(0, vec![2]);
    assert!(matches!(jb.pop(), Pop::Packet(p) if p == vec![2]));
}

#[test]
fn frame_len_is_20ms_stereo_at_48k() {
    // 20 ms @ 48 kHz = 960 samples/channel; stereo => 1920 interleaved.
    assert_eq!(frame_len(48_000, 2, AudioProfile::HighQuality), 1920);
    // 10 ms low-latency mono => 480.
    assert_eq!(frame_len(48_000, 1, AudioProfile::LowLatency), 480);
}

#[test]
fn frame_len_is_never_zero() {
    assert_eq!(frame_len(0, 0, AudioProfile::LowLatency), 1);
    assert_eq!(frame_len(8_000, 0, AudioProfile::LowLatency), 80);
    assert_eq!(frame_ms(AudioProfile::LowLatency), 10);
    assert_eq!(frame_ms(AudioProfile::HighQuality), 20);
}

#[test]
fn reframes_irregular_blocks_into_fixed_frames() {
    let mut rf = Reframer::new(4);
    rf.push(&[1.0, 2.0, 3.0]); // 3 < 4
    assert!(rf.pop().is_none());
    rf.push(&[4.0, 5.0, 6.0, 7.0, 8.0]); // total 8 => two frames
    assert_eq!(rf.pop().unwrap(), vec![1.0, 2.0, 3.0, 4.0]);
    assert_eq!(rf.pop().unwrap(), vec![5.0, 6.0, 7.0, 8.0]);
    assert!(rf.pop().is_none());
}

#[test]
fn keeps_remainder_between_pushes() {
    let mut rf = Reframer::new(3);
    rf.push(&[1.0, 2.0, 3.0, 4.0]); // one frame + remainder [4.0]
    assert_eq!(rf.pop().unwrap(), vec![1.0, 2.0, 3.0]);
    assert!(rf.pop().is_none());
    rf.push(&[5.0, 6.0]); // remainder [4,5,6] => one frame
    assert_eq!(rf.pop().unwrap(), vec![4.0, 5.0, 6.0]);
}

#[test]
fn reframer_takes_its_length_from_the_profile() {
    assert!(frame_fits(48_000, 2, AudioProfile::LowLatency));
    let rf: Reframer<f32> = Reframer::for_profile(48_000, 2, AudioProfile::LowLatency);
    assert_eq!(rf.frame_len(), 960);
    let one: Reframer<f32> = Reframer::new(0);
    assert_eq!(one.frame_len(), 1);
}

fn bits(pcm: &[f32]) -> Vec<u32> {
    pcm.iter().map(|v| v.to_bits()).collect()
}

fn play(out: &mut Vec<u32>, p: Pop) {
    match p {
        Pop::Packet(packet) => out.extend(PassthroughCodec.decode(&packet)),
        Pop::Conceal => PassthroughCodec.conceal(out),
        Pop::Underrun => {}
    }
}

#[test]
fn forwards_audio_frames_in_order() {
    let frames: Vec<Vec<f32>> = vec![
        vec![0.1, 0.2, 0.3, 0.4],
        vec![0.5, 0.6, 0.7, 0.8],
        vec![0.9, 1.0, -0.1, -0.2],
    ];
    let expected: Vec<u32> = frames.iter().flat_map(|f| bits(f)).collect();

    let mut source = AudioSource::new(7);
    let start = source.start(AudioProfile::LowLatency, 48_000, 2, 5_000);
    assert!(matches!(start, AudioControl::Start { tag: 7, frame_us: 5000, .. }));
    let mut sink = match begin(Some(start)) {
        Begin::Ready { sink, sample_rate, channels, .. } => {
            assert_eq!((sample_rate, channels), (48_000, 2));
            sink
        }
        _ => panic!("not begun"),
    };
    let mut out = Vec::new();
    for f in &frames {
        let packet = PassthroughCodec.encode(&bits(f));
        play(&mut out, sink.on_frame(source.frame(packet)));
    }
    assert!(AudioSink::ends(&Some(source.stop())));
    while let Some(p) = sink.drain() {
        play(&mut out, p);
    }
    assert_eq!(out, expected, "played PCM must match captured PCM");
}

#[test]
fn streams_begin_with_an_announcement() {
    assert!(matches!(begin(None), Begin::Ended));
    assert!(matches!(begin(Some(AudioControl::Stop { tag: 1 })), Begin::Unexpected));
    assert!(AudioSink::ends(&None));
    assert_eq!(audio_role(true, true), AudioRole::Source);
    assert_eq!(audio_role(false, true), AudioRole::Sink);
    assert_eq!(audio_role(false, false), AudioRole::Idle);
}

#[test]
fn devices_are_found_by_name() {
    let names = vec!["a".to_string(), "b".to_string()];
    let ds = named_devices(&names, &Some("b".to_string()));
    assert!(!ds[0].is_default && ds[1].is_default);
    assert_eq!(or_default(vec![])[0].label, "System default");
    assert_eq!(device_choice(&"default".to_string()), None);
    assert_eq!(device_choice(&"a".to_string()), Some("a".to_string()));
    let found = vec![None, Some("b".to_string())];
    let want = "b".to_string();
    assert!(matches!(find_device(&found, false, Some(&want)), Ok(Some(1))));
    let other = "c".to_string();
    assert!(matches!(
        find_device(&found, true, Some(&other)),
        Err(AudioError::NoDevice(n)) if n == "c"
    ));
    assert!(matches!(find_device(&found, true, None), Ok(None)));
    assert!(find_device(&found, false, None).is_err());
}

#[test]
fn coders_queues_and_packets_have_limits() {
    let c = coder_setup(44_100, 6, AudioProfile::HighQuality);
    assert_eq!((c.rate_hz, c.channels, c.speech, c.max_frame), (48_000, 2, false, 5280));
    assert_eq!(overflow(MAX_QUEUED), 0);
    assert_eq!(overflow(MAX_QUEUED + 3), 3);
    assert_eq!(packet_form(true, 32, true), PacketForm::Silence);
    assert_eq!(packet_form(false, 32, true), PacketForm::Float32);
    assert_eq!(packet_form(false, 16, true), PacketForm::Int16);
    assert_eq!(packet_form(false, 24, true), PacketForm::Unknown);
}
