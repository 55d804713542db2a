use echokit::boards::base::{
    afe_config, init_lcd, init_spi, AfeConfig, AgcMode, Controller, DmaChannel, LcdAction,
    PanelConfig, PanelIoConfig, SpiAction, SpiBusConfig, SpiHost, AFE_AEC_OFFSET, AUDIO_STACK_SIZE,
};
use echokit::boards::ws2812::{
    encode_pixel, write_pixel, PixelAction, PixelError, PixelStep, PixelWriter, Pulse, RmtMode,
};
use echokit::script::{Script, Step};

const ONE: Pulse = Pulse { high_ticks: 8, low_ticks: 5 };
const ZERO: Pulse = Pulse { high_ticks: 4, low_ticks: 9 };

fn run<A: Clone>(mut script: Script<A>, codes: &dyn Fn(usize) -> i32) -> (Vec<A>, Result<(), i32>) {
    let mut done = Vec::new();
    loop {
        done.push(script.action().clone());
        match script.report(codes(done.len() - 1)) {
            Step::More(next) => script = next,
            Step::Done => return (done, Ok(())),
            Step::Failed(code) => return (done, Err(code)),
        }
    }
}

#[test]
fn the_display_is_started_step_by_step() {
    let (done, result) = run(init_lcd(45, 47, 21), &|_| 0);
    assert_eq!(result, Ok(()));
    let pulse = [
        LcdAction::MakeOutput(21),
        LcdAction::SetLevel(21, 0),
        LcdAction::Wait(50),
        LcdAction::SetLevel(21, 1),
        LcdAction::Wait(120),
    ];
    let mut expected = pulse.to_vec();
    expected.push(LcdAction::ConnectPanel(PanelIoConfig {
        host: SpiHost::Spi3,
        cs: 45,
        dc: 47,
        spi_mode: 3,
        pixel_clock_hz: 10 * 1000 * 1000,
        queue_depth: 20,
        command_bits: 8,
        param_bits: 8,
    }));
    expected.push(LcdAction::CreatePanel(PanelConfig {
        controller: Controller::St7789,
        reset_gpio: 21,
        little_endian: true,
        rgb_order: true,
        bits_per_pixel: 16,
    }));
    expected.push(LcdAction::KeepPanel);
    expected.extend_from_slice(&pulse);
    expected.extend_from_slice(&[
        LcdAction::Reset,
        LcdAction::Init,
        LcdAction::SetGap(0, 0),
        LcdAction::SendParam(0x3A, 0x05),
        LcdAction::SendParam(0x36, 0x00),
        LcdAction::InvertColor(true),
        LcdAction::SwapXy(false),
        LcdAction::Mirror(false, false),
        LcdAction::Switch(true),
    ]);
    assert_eq!(done, expected);
}

#[test]
fn the_first_failure_ends_the_start_of_the_display() {
    let (done, result) = run(init_lcd(45, 47, 21), &|i| if i == 6 { 258 } else { 0 });
    assert_eq!(result, Err(258));
    assert_eq!(done.len(), 7);
}

#[test]
fn a_script_of_one_action_is_done_at_once() {
    assert_eq!(run(Script::new(vec![7]), &|_| 0), (vec![7], Ok(())));
    assert_eq!(run(Script::new(vec![7]), &|_| -1), (vec![7], Err(-1)));
}

#[test]
fn the_bus_takes_a_whole_picture() {
    let start = SpiAction::StartBus {
        host: SpiHost::Spi3,
        dma: DmaChannel::Auto,
        config: SpiBusConfig {
            mosi: 20,
            miso: -1,
            sclk: 19,
            quadwp: -1,
            quadhd: -1,
            max_transfer_size: 115_200,
        },
    };
    assert_eq!(run(init_spi(20, 19), &|_| 0), (vec![start], Ok(())));
    assert_eq!(run(init_spi(20, 19), &|_| 259), (vec![start], Err(259)));
    assert_eq!(AUDIO_STACK_SIZE, 15 * 1024);
    assert_eq!(AFE_AEC_OFFSET, 256);
}

#[test]
fn the_sound_input_has_its_level_held() {
    let mut config = AfeConfig { agc_init: false, agc_mode: AgcMode::Other };
    afe_config(&mut config);
    assert_eq!(config, AfeConfig { agc_init: true, agc_mode: AgcMode::Webrtc });
}

#[test]
fn a_colour_is_sent_green_red_blue_with_the_highest_bit_first() {
    let pulses = encode_pixel(0x01, 0x80, 0xff);
    let mut expected = vec![ZERO; 24];
    expected[0] = ONE;
    expected[15] = ONE;
    for pulse in &mut expected[16..] {
        *pulse = ONE;
    }
    assert_eq!(pulses, expected);
    assert!(pulses.iter().all(|p| p.high_ticks + p.low_ticks == 13));
}

#[test]
fn colours_differ_on_the_line() {
    let all: Vec<Vec<Pulse>> = (0..=255u8).map(|v| encode_pixel(v, 0, 0)).collect();
    for (i, a) in all.iter().enumerate() {
        for (k, b) in all.iter().enumerate() {
            assert_eq!(a == b, i == k);
        }
    }
}

fn write(codes: &[i32]) -> (Vec<PixelAction>, PixelStep) {
    let mut writer: PixelWriter = write_pixel(48, 1, 2, 3);
    let mut done = Vec::new();
    for code in codes {
        done.push(writer.action());
        match writer.report(*code) {
            PixelStep::More(next) => writer = next,
            end => return (done, end),
        }
    }
    panic!("not at its end: {:?}", writer)
}

#[test]
fn a_pixel_is_written_and_the_driver_removed() {
    let (done, end) = write(&[0, 0, 0, 0, 0, -9]);
    assert_eq!(end, PixelStep::Done);
    match &done[0] {
        PixelAction::Configure(config) => {
            assert_eq!((config.gpio, config.channel, config.clock_divider), (48, 0, 8));
            assert_eq!(config.mode, RmtMode::Transmit);
            assert!(config.drive_when_idle && !config.carrier && !config.repeat);
        }
        other => panic!("{:?}", other),
    }
    assert_eq!(
        done[1..],
        [
            PixelAction::AttachGpio(48),
            PixelAction::Install,
            PixelAction::Send(encode_pixel(1, 2, 3)),
            PixelAction::Latch(1),
            PixelAction::Uninstall,
        ]
    );
}

#[test]
fn a_failure_to_write_a_pixel_is_told() {
    let told = |codes: &[i32]| match write(codes) {
        (done, PixelStep::Failed(e)) => (done.len(), e, e.message()),
        other => panic!("{:?}", other),
    };
    assert_eq!(told(&[-1]), (1, PixelError::Configure(-1), "rmt_config failed: -1".to_string()));
    assert_eq!(told(&[0, 2]), (2, PixelError::AttachGpio(2), "rmt_set_gpio failed: 2".to_string()));
    assert_eq!(
        told(&[0, 0, 3]),
        (3, PixelError::Install(3), "rmt_driver_install failed: 3".to_string())
    );
    assert_eq!(
        told(&[0, 0, 0, 4, 0]),
        (5, PixelError::Send(4), "rmt_write_items failed: 4".to_string())
    );
    assert_eq!(write(&[0, 0, 0, 4, 0]).0[4], PixelAction::Uninstall);
}

/// What is kept for drawing, with the connection over which it works, and over which connections
/// commands went, after a start whose actions end with these codes.
fn kept(
    before: Option<(u32, u32)>,
    codes: &dyn Fn(usize) -> i32,
) -> (Option<(u32, u32)>, Vec<u32>) {
    let (done, _) = run(init_lcd(45, 47, 21), codes);
    let (mut connected, mut made, mut kept, mut sent) = (1, None, before, vec![]);
    for (i, action) in done.iter().enumerate() {
        match action {
            _ if codes(i) != 0 => {}
            LcdAction::ConnectPanel(_) => connected = 33,
            LcdAction::CreatePanel(_) => made = Some((77, connected)),
            LcdAction::KeepPanel => kept = made,
            LcdAction::SendParam(..) => sent.push(connected),
            _ => {}
        }
    }
    (kept, sent)
}

#[test]
fn a_started_display_is_the_one_that_is_drawn_on() {
    assert_eq!(kept(None, &|_| 0), (Some((77, 33)), vec![33, 33]));
    assert_eq!(kept(Some((5, 6)), &|_| 0), (Some((77, 33)), vec![33, 33]));
    assert_eq!(kept(Some((5, 6)), &|i| if i == 6 { 258 } else { 0 }), (Some((5, 6)), vec![]));
    assert_eq!(kept(Some((5, 6)), &|i| if i == 17 { 258 } else { 0 }).1, vec![33]);
}
