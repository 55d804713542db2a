//! A single WS2812 pixel, driven by the remote-control peripheral.
use crate::text::{signed_decimal, signed_decimal_text};
use vstd::prelude::*;

verus! {

/// One bit on the line: high for some ticks, then low for some ticks.
#[derive(Clone, Copy, Debug, PartialEq, Eq, Structural)]
pub struct Pulse {
    pub high_ticks: u32,
    pub low_ticks: u32,
}

/// A bit of a byte, counted from the lowest.
pub open spec fn bit_of(byte: u8, bit: int) -> bool {
    (byte >> (bit as u8)) & 1 == 1
}

/// How a bit is sent, in ticks of 100 nanoseconds.
pub open spec fn pulse_of(bit: bool) -> Pulse {
    if bit {
        Pulse { high_ticks: 8, low_ticks: 5 }
    } else {
        Pulse { high_ticks: 4, low_ticks: 9 }
    }
}

/// The bytes in the order in which the pixel takes them: green, red, blue.
pub open spec fn frame(r: u8, g: u8, b: u8) -> Seq<u8> {
    seq![g, r, b]
}

/// The pulses of a colour: 24 bits, of each byte the highest bit first.
pub open spec fn pixel_pulses(r: u8, g: u8, b: u8) -> Seq<Pulse> {
    Seq::new(24, |i: int| pulse_of(bit_of(frame(r, g, b)[i / 8], 7 - i % 8)))
}

/// The pulses of a colour.
pub fn encode_pixel(r: u8, g: u8, b: u8) -> (pulses: Vec<Pulse>)
    ensures
        pulses@ == pixel_pulses(r, g, b),
{
    let bytes: [u8; 3] = [g, r, b];
    assert(bytes@ =~= frame(r, g, b));
    let mut pulses: Vec<Pulse> = Vec::new();
    let mut i: usize = 0;
    while i < 3
        invariant
            i <= 3,
            bytes@ == frame(r, g, b),
            bytes@.len() == 3,
            pulses@ == pixel_pulses(r, g, b).take(8 * i),
        decreases 3 - i,
    {
        let byte: u8 = bytes[i];
        let mut bit: u8 = 8;
        while bit > 0
            invariant
                i < 3,
                bit <= 8,
                bytes@ == frame(r, g, b),
                byte == frame(r, g, b)[i as int],
                pulses@ == pixel_pulses(r, g, b).take(8 * i + 8 - bit),
            decreases bit,
        {
            bit = bit - 1;
            let low: u8 = (byte >> bit) & 1;
            assert(((byte >> bit) & 1) == 0 || ((byte >> bit) & 1) == 1) by (bit_vector);
            let pulse = if low != 0 {
                Pulse { high_ticks: 8, low_ticks: 5 }
            } else {
                Pulse { high_ticks: 4, low_ticks: 9 }
            };
            pulses.push(pulse);
            proof {
                let n = 8 * i + 7 - bit;
                assert(n / 8 == i && n % 8 == 7 - bit);
                assert(pixel_pulses(r, g, b)[n] == pulse);
                assert(pulses@ =~= pixel_pulses(r, g, b).take(n + 1));
            }
        }
        i = i + 1;
    }
    assert(pulses@ =~= pixel_pulses(r, g, b));
    pulses
}

proof fn lemma_bits_make_the_byte(x: u8, y: u8)
    requires
        forall|bit: int| 0 <= bit < 8 ==> #[trigger] bit_of(x, bit) == bit_of(y, bit),
    ensures
        x == y,
{
    assert(bit_of(x, 0) == bit_of(y, 0));
    assert(bit_of(x, 1) == bit_of(y, 1));
    assert(bit_of(x, 2) == bit_of(y, 2));
    assert(bit_of(x, 3) == bit_of(y, 3));
    assert(bit_of(x, 4) == bit_of(y, 4));
    assert(bit_of(x, 5) == bit_of(y, 5));
    assert(bit_of(x, 6) == bit_of(y, 6));
    assert(bit_of(x, 7) == bit_of(y, 7));
    assert(x == y) by (bit_vector)
        requires
            ((x >> 0u8) & 1 == 1) == ((y >> 0u8) & 1 == 1),
            ((x >> 1u8) & 1 == 1) == ((y >> 1u8) & 1 == 1),
            ((x >> 2u8) & 1 == 1) == ((y >> 2u8) & 1 == 1),
            ((x >> 3u8) & 1 == 1) == ((y >> 3u8) & 1 == 1),
            ((x >> 4u8) & 1 == 1) == ((y >> 4u8) & 1 == 1),
            ((x >> 5u8) & 1 == 1) == ((y >> 5u8) & 1 == 1),
            ((x >> 6u8) & 1 == 1) == ((y >> 6u8) & 1 == 1),
            ((x >> 7u8) & 1 == 1) == ((y >> 7u8) & 1 == 1),
    ;
}

/// Two colours with the same pulses are the same colour: nothing of a colour is lost on the line.
pub proof fn law_pulses_tell_the_colour(r: u8, g: u8, b: u8, r2: u8, g2: u8, b2: u8)
    requires
        pixel_pulses(r, g, b) == pixel_pulses(r2, g2, b2),
    ensures
        r == r2,
        g == g2,
        b == b2,
{
    assert forall|k: int, bit: int| 0 <= k < 3 && 0 <= bit < 8 implies bit_of(
        frame(r, g, b)[k],
        bit,
    ) == bit_of(frame(r2, g2, b2)[k], bit) by {
        let n = 8 * k + 7 - bit;
        assert(n / 8 == k && n % 8 == 7 - bit);
        assert(pixel_pulses(r, g, b)[n] == pulse_of(bit_of(frame(r, g, b)[k], bit)));
        assert(pixel_pulses(r2, g2, b2)[n] == pulse_of(bit_of(frame(r2, g2, b2)[k], bit)));
    }
    assert(frame(r, g, b)[0] == g && frame(r, g, b)[1] == r && frame(r, g, b)[2] == b);
    assert(frame(r2, g2, b2)[0] == g2 && frame(r2, g2, b2)[1] == r2 && frame(r2, g2, b2)[2] == b2);
    lemma_bits_make_the_byte(g, g2);
    lemma_bits_make_the_byte(r, r2);
    lemma_bits_make_the_byte(b, b2);
}

/// What a pulse adds to a number in which a bit at its place counts `weight`: eight ticks high and
/// five low is a one, four high and nine low is a zero.
pub open spec fn worth(pulse: Pulse, weight: int) -> int {
    if pulse.high_ticks == 8 && pulse.low_ticks == 5 {
        weight
    } else {
        0
    }
}

/// The number that eight pulses from `from` on stand for, the first being the highest bit.
pub open spec fn byte_on_line(pulses: Seq<Pulse>, from: int) -> int {
    worth(pulses[from], 128) + worth(pulses[from + 1], 64) + worth(pulses[from + 2], 32) + worth(
        pulses[from + 3],
        16,
    ) + worth(pulses[from + 4], 8) + worth(pulses[from + 5], 4) + worth(pulses[from + 6], 2)
        + worth(pulses[from + 7], 1)
}

spec fn weighed(bit: bool, weight: int) -> int {
    if bit {
        weight
    } else {
        0
    }
}

proof fn lemma_bits_sum_up(x: u8)
    ensures
        x == weighed(bit_of(x, 7), 128) + weighed(bit_of(x, 6), 64) + weighed(bit_of(x, 5), 32)
            + weighed(bit_of(x, 4), 16) + weighed(bit_of(x, 3), 8) + weighed(bit_of(x, 2), 4)
            + weighed(bit_of(x, 1), 2) + weighed(bit_of(x, 0), 1),
{
    assert(x == (if (x >> 7u8) & 1 == 1 { 128u8 } else { 0u8 }) + (if (x >> 6u8) & 1 == 1 {
        64u8
    } else {
        0u8
    }) + (if (x >> 5u8) & 1 == 1 { 32u8 } else { 0u8 }) + (if (x >> 4u8) & 1 == 1 {
        16u8
    } else {
        0u8
    }) + (if (x >> 3u8) & 1 == 1 { 8u8 } else { 0u8 }) + (if (x >> 2u8) & 1 == 1 {
        4u8
    } else {
        0u8
    }) + (if (x >> 1u8) & 1 == 1 { 2u8 } else { 0u8 }) + (if (x >> 0u8) & 1 == 1 {
        1u8
    } else {
        0u8
    })) by (bit_vector);
}

proof fn lemma_pulse_at(r: u8, g: u8, b: u8, k: int, j: int)
    requires
        0 <= k < 3,
        0 <= j < 8,
    ensures
        pixel_pulses(r, g, b)[8 * k + j] == pulse_of(bit_of(frame(r, g, b)[k], 7 - j)),
{
    assert((8 * k + j) / 8 == k && (8 * k + j) % 8 == j);
}

proof fn lemma_byte_on_line(r: u8, g: u8, b: u8, k: int)
    requires
        0 <= k < 3,
    ensures
        byte_on_line(pixel_pulses(r, g, b), 8 * k) == frame(r, g, b)[k],
{
    lemma_pulse_at(r, g, b, k, 0);
    lemma_pulse_at(r, g, b, k, 1);
    lemma_pulse_at(r, g, b, k, 2);
    lemma_pulse_at(r, g, b, k, 3);
    lemma_pulse_at(r, g, b, k, 4);
    lemma_pulse_at(r, g, b, k, 5);
    lemma_pulse_at(r, g, b, k, 6);
    lemma_pulse_at(r, g, b, k, 7);
    lemma_bits_sum_up(frame(r, g, b)[k]);
}

/// The pixel reads the colour off the line: 24 pulses, each a one or a zero, of which the first
/// eight are the number for green, the next eight that for red and the last eight that for blue.
pub proof fn law_pixel_reads_the_colour(r: u8, g: u8, b: u8)
    ensures
        ({
            let pulses = pixel_pulses(r, g, b);
            &&& pulses.len() == 24
            &&& forall|i: int|
                0 <= i < 24 ==> ((#[trigger] pulses[i]) == (Pulse { high_ticks: 8, low_ticks: 5 })
                    || pulses[i] == (Pulse { high_ticks: 4, low_ticks: 9 }))
            &&& byte_on_line(pulses, 0) == g
            &&& byte_on_line(pulses, 8) == r
            &&& byte_on_line(pulses, 16) == b
        }),
{
    lemma_byte_on_line(r, g, b, 0);
    lemma_byte_on_line(r, g, b, 1);
    lemma_byte_on_line(r, g, b, 2);
}

/// Every bit takes 13 ticks on the line, whatever its value.
pub proof fn law_bits_take_equal_time(r: u8, g: u8, b: u8, i: int)
    requires
        0 <= i < 24,
    ensures
        pixel_pulses(r, g, b)[i].high_ticks + pixel_pulses(r, g, b)[i].low_ticks == 13,
{
}

/// Which way the peripheral works.
#[derive(Clone, Copy, Debug, PartialEq, Eq, Structural)]
pub enum RmtMode {
    Transmit,
    Receive,
}

/// Settings of the peripheral. With a clock of 80 MHz a tick takes 100 nanoseconds. There is no
/// carrier and no repetition, and the line is held low between frames.
#[derive(Clone, Copy, Debug, PartialEq, Eq, Structural)]
pub struct RmtConfig {
    pub mode: RmtMode,
    pub gpio: i32,
    pub channel: u32,
    pub clock_divider: u8,
    pub memory_blocks: u8,
    pub flags: u32,
    pub carrier: bool,
    pub carrier_on_high: bool,
    pub carrier_hz: u32,
    pub carrier_duty_percent: u8,
    pub repeat: bool,
    pub repeat_count: u32,
    pub drive_when_idle: bool,
    pub idle_high: bool,
}

/// The settings for a pixel on the given pin.
pub open spec fn rmt_config(gpio: i32) -> RmtConfig {
    RmtConfig {
        mode: RmtMode::Transmit,
        gpio,
        channel: 0,
        clock_divider: 8,
        memory_blocks: 1,
        flags: 0,
        carrier: false,
        carrier_on_high: false,
        carrier_hz: 0,
        carrier_duty_percent: 0,
        repeat: false,
        repeat_count: 0,
        drive_when_idle: true,
        idle_high: false,
    }
}

/// Something that is to be done to write a pixel.
#[derive(Debug, PartialEq, Eq)]
pub enum PixelAction {
    /// Set the peripheral up.
    Configure(RmtConfig),
    /// Connect the peripheral to the pin.
    AttachGpio(i32),
    /// Install the driver.
    Install,
    /// Send the pulses and wait for the end.
    Send(Vec<Pulse>),
    /// Hold the line for so many milliseconds, so that the pixel takes the colour over.
    Latch(u64),
    /// Remove the driver; whether that succeeds does not matter.
    Uninstall,
}

/// The model of a [`PixelAction`].
pub enum PixelActionView {
    Configure(RmtConfig),
    AttachGpio(i32),
    Install,
    Send(Seq<Pulse>),
    Latch(u64),
    Uninstall,
}

impl View for PixelAction {
    type V = PixelActionView;

    open spec fn view(&self) -> PixelActionView {
        match *self {
            PixelAction::Configure(config) => PixelActionView::Configure(config),
            PixelAction::AttachGpio(gpio) => PixelActionView::AttachGpio(gpio),
            PixelAction::Install => PixelActionView::Install,
            PixelAction::Send(pulses) => PixelActionView::Send(pulses@),
            PixelAction::Latch(ms) => PixelActionView::Latch(ms),
            PixelAction::Uninstall => PixelActionView::Uninstall,
        }
    }
}

/// How far the writing has come.
#[derive(Clone, Copy, Debug, PartialEq, Eq, Structural)]
pub enum PixelStage {
    Configure,
    AttachGpio,
    Install,
    Send,
    /// The sending failed with this code; the driver is still to be removed.
    CleanUp(i32),
    Latch,
    Uninstall,
}

/// What went wrong, with the code.
#[derive(Clone, Copy, Debug, PartialEq, Eq, Structural)]
pub enum PixelError {
    Configure(i32),
    AttachGpio(i32),
    Install(i32),
    Send(i32),
}

impl PixelError {
    /// What is said of the error.
    pub open spec fn spec_message(self) -> Seq<char> {
        match self {
            PixelError::Configure(rc) => "rmt_config failed: "@ + signed_decimal(rc as int),
            PixelError::AttachGpio(rc) => "rmt_set_gpio failed: "@ + signed_decimal(rc as int),
            PixelError::Install(rc) => "rmt_driver_install failed: "@ + signed_decimal(rc as int),
            PixelError::Send(rc) => "rmt_write_items failed: "@ + signed_decimal(rc as int),
        }
    }

    /// What is said of the error.
    pub fn message(self) -> (text: String)
        ensures
            text@ == self.spec_message(),
    {
        let (what, rc) = match self {
            PixelError::Configure(rc) => ("rmt_config failed: ", rc),
            PixelError::AttachGpio(rc) => ("rmt_set_gpio failed: ", rc),
            PixelError::Install(rc) => ("rmt_driver_install failed: ", rc),
            PixelError::Send(rc) => ("rmt_write_items failed: ", rc),
        };
        let mut text = what.to_owned();
        text.append(signed_decimal_text(rc).as_str());
        text
    }
}

/// The writing of a colour to a pixel.
#[derive(Clone, Copy, Debug, PartialEq, Eq, Structural)]
pub struct PixelWriter {
    pub stage: PixelStage,
    pub gpio: i32,
    pub r: u8,
    pub g: u8,
    pub b: u8,
}

/// What an action leads to.
#[derive(Clone, Copy, Debug, PartialEq, Eq, Structural)]
pub enum PixelStep {
    /// There is another action.
    More(PixelWriter),
    /// The colour was written.
    Done,
    /// The colour was not written.
    Failed(PixelError),
}

impl PixelWriter {
    /// What is to be done.
    pub open spec fn spec_action(self) -> PixelActionView {
        match self.stage {
            PixelStage::Configure => PixelActionView::Configure(rmt_config(self.gpio)),
            PixelStage::AttachGpio => PixelActionView::AttachGpio(self.gpio),
            PixelStage::Install => PixelActionView::Install,
            PixelStage::Send => PixelActionView::Send(pixel_pulses(self.r, self.g, self.b)),
            PixelStage::CleanUp(_) => PixelActionView::Uninstall,
            PixelStage::Latch => PixelActionView::Latch(1),
            PixelStage::Uninstall => PixelActionView::Uninstall,
        }
    }

    /// What the action leads to; code 0 tells that it succeeded.
    pub open spec fn after(self, code: i32) -> PixelStep {
        let at = |stage: PixelStage| PixelStep::More(PixelWriter { stage, ..self });
        match self.stage {
            PixelStage::Configure => if code != 0 {
                PixelStep::Failed(PixelError::Configure(code))
            } else {
                at(PixelStage::AttachGpio)
            },
            PixelStage::AttachGpio => if code != 0 {
                PixelStep::Failed(PixelError::AttachGpio(code))
            } else {
                at(PixelStage::Install)
            },
            PixelStage::Install => if code != 0 {
                PixelStep::Failed(PixelError::Install(code))
            } else {
                at(PixelStage::Send)
            },
            PixelStage::Send => if code != 0 {
                at(PixelStage::CleanUp(code))
            } else {
                at(PixelStage::Latch)
            },
            PixelStage::CleanUp(rc) => PixelStep::Failed(PixelError::Send(rc)),
            PixelStage::Latch => at(PixelStage::Uninstall),
            PixelStage::Uninstall => PixelStep::Done,
        }
    }

    /// The driver is installed.
    pub open spec fn installed(self) -> bool {
        match self.stage {
            PixelStage::Configure => false,
            PixelStage::AttachGpio => false,
            PixelStage::Install => false,
            _ => true,
        }
    }

    /// How many actions are left at most.
    pub open spec fn actions_left(self) -> nat {
        match self.stage {
            PixelStage::Configure => 6,
            PixelStage::AttachGpio => 5,
            PixelStage::Install => 4,
            PixelStage::Send => 3,
            PixelStage::Latch => 2,
            PixelStage::CleanUp(_) => 1,
            PixelStage::Uninstall => 1,
        }
    }

    /// What is to be done.
    pub fn action(&self) -> (action: PixelAction)
        ensures
            action@ == self.spec_action(),
    {
        match self.stage {
            PixelStage::Configure => PixelAction::Configure(
                RmtConfig {
                    mode: RmtMode::Transmit,
                    gpio: self.gpio,
                    channel: 0,
                    clock_divider: 8,
                    memory_blocks: 1,
                    flags: 0,
                    carrier: false,
                    carrier_on_high: false,
                    carrier_hz: 0,
                    carrier_duty_percent: 0,
                    repeat: false,
                    repeat_count: 0,
                    drive_when_idle: true,
                    idle_high: false,
                },
            ),
            PixelStage::AttachGpio => PixelAction::AttachGpio(self.gpio),
            PixelStage::Install => PixelAction::Install,
            PixelStage::Send => PixelAction::Send(encode_pixel(self.r, self.g, self.b)),
            PixelStage::CleanUp(_) => PixelAction::Uninstall,
            PixelStage::Latch => PixelAction::Latch(1),
            PixelStage::Uninstall => PixelAction::Uninstall,
        }
    }

    /// Takes the code with which the action ended; 0 tells that it succeeded.
    pub fn report(self, code: i32) -> (step: PixelStep)
        ensures
            step == self.after(code),
    {
        let next = match self.stage {
            PixelStage::Configure => if code != 0 {
                return PixelStep::Failed(PixelError::Configure(code));
            } else {
                PixelStage::AttachGpio
            },
            PixelStage::AttachGpio => if code != 0 {
                return PixelStep::Failed(PixelError::AttachGpio(code));
            } else {
                PixelStage::Install
            },
            PixelStage::Install => if code != 0 {
                return PixelStep::Failed(PixelError::Install(code));
            } else {
                PixelStage::Send
            },
            PixelStage::Send => if code != 0 {
                PixelStage::CleanUp(code)
            } else {
                PixelStage::Latch
            },
            PixelStage::CleanUp(rc) => {
                return PixelStep::Failed(PixelError::Send(rc));
            },
            PixelStage::Latch => PixelStage::Uninstall,
            PixelStage::Uninstall => {
                return PixelStep::Done;
            },
        };
        PixelStep::More(PixelWriter { stage: next, ..self })
    }
}

/// Begins to write a colour to the pixel on a pin.
pub fn write_pixel(gpio_num: i32, r: u8, g: u8, b: u8) -> (writer: PixelWriter)
    ensures
        writer == (PixelWriter { stage: PixelStage::Configure, gpio: gpio_num, r, g, b }),
{
    PixelWriter { stage: PixelStage::Configure, gpio: gpio_num, r, g, b }
}

/// Whatever goes wrong, a driver that was installed is removed: once it is, the writing does not
/// end but with its removal, and pulses are sent only while it is there. And the writing ends.
pub proof fn law_driver_is_removed(writer: PixelWriter, code: i32)
    ensures
        writer.spec_action() is Send ==> writer.installed(),
        writer.spec_action() is Uninstall ==> writer.installed(),
        match writer.after(code) {
            PixelStep::More(next) => {
                &&& next.installed() == (writer.installed() || (writer.spec_action() is Install
                    && code == 0))
                &&& next.actions_left() < writer.actions_left()
            },
            PixelStep::Done => writer.spec_action() is Uninstall,
            PixelStep::Failed(_) => writer.installed() ==> writer.spec_action() is Uninstall,
        },
{
}

/// A colour counts as written only where all went well up to the end of the pulses: any other
/// code leads to a failure that tells it.
pub proof fn law_failure_is_told(writer: PixelWriter, code: i32)
    requires
        code != 0,
        writer.stage is Configure || writer.stage is AttachGpio || writer.stage is Install
            || writer.stage is Send,
    ensures
        match writer.after(code) {
            PixelStep::Failed(e) => e == match writer.stage {
                PixelStage::Configure => PixelError::Configure(code),
                PixelStage::AttachGpio => PixelError::AttachGpio(code),
                _ => PixelError::Install(code),
            },
            PixelStep::More(next) => forall|rc: i32| #[trigger]
                next.after(rc) == PixelStep::Failed(PixelError::Send(code)),
            PixelStep::Done => false,
        },
{
}

/// The actions of a writing that comes to these codes, and how it ends.
pub open spec fn pixel_run(
    writer: PixelWriter,
    codes: Seq<i32>,
) -> (Seq<PixelActionView>, PixelStep)
    decreases codes.len(),
{
    if codes.len() == 0 {
        (seq![], PixelStep::More(writer))
    } else {
        match writer.after(codes[0]) {
            PixelStep::More(next) => {
                let (rest, end) = pixel_run(next, codes.drop_first());
                (seq![writer.spec_action()] + rest, end)
            },
            end => (seq![writer.spec_action()], end),
        }
    }
}

/// A colour is written by six actions in a row, and what the waiting and the removal of the driver
/// come to does not matter. The peripheral is set up to transmit on the pin, at 100 nanoseconds to
/// the tick, once and without a carrier, with the line held low in between.
pub proof fn law_a_good_writing_is_done(gpio: i32, r: u8, g: u8, b: u8, codes: Seq<i32>)
    requires
        codes.len() == 6,
        codes[0] == 0 && codes[1] == 0 && codes[2] == 0 && codes[3] == 0,
    ensures
        ({
            let writer = PixelWriter { stage: PixelStage::Configure, gpio, r, g, b };
            let (actions, end) = pixel_run(writer, codes);
            &&& end == PixelStep::Done
            &&& actions.len() == 6
            &&& actions[0] == PixelActionView::Configure(
                RmtConfig {
                    mode: RmtMode::Transmit,
                    gpio,
                    channel: 0,
                    clock_divider: 8,
                    memory_blocks: 1,
                    flags: 0,
                    carrier: false,
                    carrier_on_high: false,
                    carrier_hz: 0,
                    carrier_duty_percent: 0,
                    repeat: false,
                    repeat_count: 0,
                    drive_when_idle: true,
                    idle_high: false,
                },
            )
            &&& actions[1] == PixelActionView::AttachGpio(gpio)
            &&& actions[2] == PixelActionView::Install
            &&& actions[3] == PixelActionView::Send(pixel_pulses(r, g, b))
            &&& actions[4] == PixelActionView::Latch(1)
            &&& actions[5] == PixelActionView::Uninstall
        }),
{
    reveal_with_fuel(pixel_run, 7);
    let c1 = codes.drop_first();
    let c2 = c1.drop_first();
    let c3 = c2.drop_first();
    let c4 = c3.drop_first();
    let c5 = c4.drop_first();
    let c6 = c5.drop_first();
    assert(c1[0] == codes[1] && c2[0] == codes[2] && c3[0] == codes[3]);
    assert(c6.len() == 0);
}

/// The writing stops where an action fails, and says which one and with what code. The code of a
/// failed sending is told once the driver is removed.
pub proof fn law_a_failed_writing_is_told(writer: PixelWriter, code: i32, later: i32)
    requires
        code != 0,
    ensures
        writer.stage is Configure ==> writer.after(code) == PixelStep::Failed(
            PixelError::Configure(code),
        ),
        writer.stage is AttachGpio ==> writer.after(code) == PixelStep::Failed(
            PixelError::AttachGpio(code),
        ),
        writer.stage is Install ==> writer.after(code) == PixelStep::Failed(
            PixelError::Install(code),
        ),
        writer.stage is Send ==> (writer.after(code) matches PixelStep::More(next)
            && next.spec_action() is Uninstall && next.after(later) == PixelStep::Failed(
            PixelError::Send(code),
        )),
{
}

/// What is said of a failed writing: the name of the call and its code.
pub proof fn law_pixel_errors_are_named(code: i32)
    ensures
        PixelError::Configure(code).spec_message() == "rmt_config failed: "@ + signed_decimal(
            code as int,
        ),
        PixelError::AttachGpio(code).spec_message() == "rmt_set_gpio failed: "@ + signed_decimal(
            code as int,
        ),
        PixelError::Install(code).spec_message() == "rmt_driver_install failed: "@
            + signed_decimal(code as int),
        PixelError::Send(code).spec_message() == "rmt_write_items failed: "@ + signed_decimal(
            code as int,
        ),
{
}

} // verus!
