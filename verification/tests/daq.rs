//! Scans, waveforms and the poller of a data acquisition module.

use ioc_drivers::daq::poller::{
    reads_analog, reads_temperature, sleep_ms, temperature, to_int32, wave_status, DigitalInput,
    OUT_OF_RANGE,
};
use ioc_drivers::daq::wave_dig::WaveDigState;
use ioc_drivers::daq::wave_gen::{
    generate_waveform, Level, WaveGenState, WAVE_TYPE_PULSE, WAVE_TYPE_RANDOM, WAVE_TYPE_SAWTOOTH,
    WAVE_TYPE_SIN, WAVE_TYPE_SQUARE, WAVE_TYPE_USER,
};
use ioc_drivers::daq::{channels, scan_options, ScanFlags, ScanOptions};

const FLAGS: ScanFlags = ScanFlags {
    default_io: 0,
    ext_trigger: 1,
    ext_clock: 2,
    continuous: 4,
    retrigger: 8,
    burst_mode: 16,
};

#[test]
fn options_are_the_flags_that_are_set() {
    let off = ScanOptions {
        ext_trigger: false,
        ext_clock: false,
        continuous: false,
        retrigger: false,
        burst_mode: false,
    };
    assert_eq!(scan_options(&FLAGS, &off), 0);
    assert_eq!(
        scan_options(
            &FLAGS,
            &ScanOptions {
                ext_clock: true,
                burst_mode: true,
                ..off
            }
        ),
        18
    );
    assert_eq!(channels(2, 3), vec![2, 3, 4]);
}

fn scanning() -> WaveDigState {
    let mut w = WaveDigState::new(4, 8, 1, 2, 0);
    assert_eq!(w.start_wave_dig(1, 2, 3), vec![1, 2]);
    let plan = w.scan(5, 6, 7);
    assert_eq!((plan.low_chan, plan.high_chan, plan.num_points), (1, 2, 3));
    assert_eq!((plan.input_mode, plan.range, plan.options), (5, 6, 7));
    w.started(0.25f64.to_bits());
    w
}

#[test]
fn samples_are_sorted_to_their_channels() {
    let mut w = scanning();
    for (i, v) in [1.0f64, 10.0, 2.0, 20.0, 3.0, 30.0].iter().enumerate() {
        w.scan_buffer[i] = v.to_bits();
    }
    assert_eq!(w.read_wave_dig(4, 3, false, 99), None);
    assert_eq!(w.current_point, 2);
    assert_eq!(f32::from_bits(w.channel_buffers[1][1]), 2.0);
    assert_eq!(f32::from_bits(w.channel_buffers[2][0]), 10.0);
    assert_eq!(w.channel_buffers[1][2], 0);
    assert_eq!(w.abs_time_buffer[1], 99);

    assert_eq!(w.read_wave_dig(6, 5, true, 100), None);
    assert!(!w.running);
    assert_eq!(f32::from_bits(w.channel_buffers[2][2]), 30.0);
}

#[test]
fn nothing_read_leaves_the_scan_as_it_is() {
    let mut w = scanning();
    let before = w.clone();
    assert_eq!(w.read_wave_dig(0, 4, true, 1), None);
    assert_eq!(w.read_wave_dig(6, -1, true, 1), None);
    assert_eq!(w, before);
    assert!(w.stop_wave_dig());
    assert!(!w.stop_wave_dig());
}

#[test]
fn a_scan_without_channels_reads_nothing_and_a_stopped_one_is_still_read() {
    let mut w = WaveDigState::new(4, 8, 1, 2, 0);
    assert!(w.start_wave_dig(1, 0, 3).is_empty());
    assert_eq!(w.read_wave_dig(4, 3, true, 1), None);
    assert_eq!(w.current_point, 0);

    let mut w = scanning();
    w.scan_buffer[0] = 4.0f64.to_bits();
    assert!(w.stop_wave_dig());
    assert_eq!(w.read_wave_dig(2, 1, false, 1), None);
    assert_eq!((w.current_point, w.running), (1, false));
    assert_eq!(f32::from_bits(w.channel_buffers[1][0]), 4.0);
}

#[test]
fn an_ended_scan_starts_again_where_that_is_asked() {
    let mut w = scanning();
    w.auto_restart = true;
    let plan = w.read_wave_dig(6, 5, true, 1).unwrap();
    assert_eq!(plan.queue, vec![1, 2]);
    assert_eq!(w.current_point, 0);
    w.restarted(true);
    assert!(w.running);
}

#[test]
fn waveforms_have_their_shapes() {
    assert_eq!(
        generate_waveform(WAVE_TYPE_SQUARE, 4, 0),
        vec![Level::High, Level::High, Level::Low, Level::Low]
    );
    assert_eq!(
        generate_waveform(WAVE_TYPE_PULSE, 3, 0),
        vec![Level::High, Level::Middle, Level::Middle]
    );
    assert_eq!(
        generate_waveform(WAVE_TYPE_PULSE, 2, 9),
        vec![Level::High, Level::High]
    );
    assert_eq!(
        generate_waveform(WAVE_TYPE_SAWTOOTH, 2, 0),
        vec![Level::Ramp(0), Level::Ramp(1)]
    );
    assert_eq!(
        generate_waveform(WAVE_TYPE_SIN, 2, 0),
        vec![Level::Sine(0), Level::Sine(1)]
    );
    assert_eq!(generate_waveform(WAVE_TYPE_USER, 1, 0), vec![Level::Zero]);
    let random = generate_waveform(WAVE_TYPE_RANDOM, 3, 0);
    assert!(random.iter().all(|l| matches!(l, Level::Random(_))));
    assert_ne!(random[0], random[1]);
}

#[test]
fn a_stopped_generator_gives_the_outputs_back() {
    let mut g = WaveGenState::new(2, 8);
    g.start_wave_gen(0, 1, 2, &[1, 2, 3, 4], &[70, 71]);
    g.started(0.5f64.to_bits());
    assert!(g.running);
    assert!(!g.read_wave_gen(2, false));
    assert_eq!(g.current_point, 2);
    assert!(g.read_wave_gen(-1, true));
    assert_eq!(g.stop_wave_gen(), Some(vec![70, 71]));
    assert_eq!(g.stop_wave_gen(), None);
}

#[test]
fn a_steady_input_is_published_once() {
    let mut d = DigitalInput::new();
    assert_eq!(d.read(5), Some(5));
    assert_eq!(d.read(5), None);
    assert_eq!(d.read(u64::from(u32::MAX)), Some(-1));
    assert_eq!(to_int32(0xffff_ffff), -1);
}

#[test]
fn the_poller_reads_what_no_scan_holds() {
    assert!(reads_temperature(1));
    assert!(!reads_temperature(0));
    assert!(reads_analog(false));
    assert!(!reads_analog(true));
    assert_eq!(wave_status(3, true), (3, false));
    assert_eq!(wave_status(3, false), (3, true));
    assert_eq!(temperature(Ok(7), 84), Some(7));
    assert_eq!(temperature(Err(84), 84), Some(OUT_OF_RANGE));
    assert_eq!(temperature(Err(1), 84), None);
    assert_eq!(sleep_ms(None), 50);
    assert_eq!(sleep_ms(Some(1.9f64.to_bits())), 1);
    assert_eq!(sleep_ms(Some((-3.0f64).to_bits())), 0);
}
