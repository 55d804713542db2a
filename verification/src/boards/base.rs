//! The base board: its sound input, the bus to its display and the start of the display.
use crate::script::{
    law_all_actions_are_done, law_first_failure_ends_it, Script, ScriptView, StepView,
};
use vstd::prelude::*;

verus! {

/// Bytes of stack of the thread that handles sound.
pub const AUDIO_STACK_SIZE: usize = 15_360;

/// Where the reference signal of the echo canceller begins.
pub const AFE_AEC_OFFSET: usize = 256;

/// Pixels in a row of the display.
pub const DISPLAY_WIDTH: usize = 240;

/// Rows of the display.
pub const DISPLAY_HEIGHT: usize = 240;

/// How the level of the sound input is held.
#[derive(Clone, Copy, Debug, PartialEq, Eq, Structural)]
pub enum AgcMode {
    /// By the control of WebRTC.
    Webrtc,
    /// In some other way.
    Other,
}

/// The part of the sound input's settings that the board sets.
#[derive(Clone, Copy, Debug, PartialEq, Eq, Structural)]
pub struct AfeConfig {
    pub agc_init: bool,
    pub agc_mode: AgcMode,
}

/// Sets up the sound input.
pub fn afe_config(config: &mut AfeConfig)
    ensures
        *final(config) == (AfeConfig { agc_init: true, agc_mode: AgcMode::Webrtc }),
{
    config.agc_init = true;
    config.agc_mode = AgcMode::Webrtc;
}

/// Settings of an SPI bus.
#[derive(Clone, Copy, Debug, PartialEq, Eq, Structural)]
pub struct SpiBusConfig {
    pub mosi: i32,
    pub miso: i32,
    pub sclk: i32,
    pub quadwp: i32,
    pub quadhd: i32,
    /// Bytes that can be sent in one go.
    pub max_transfer_size: i32,
}

/// A line that is not connected.
pub const NOT_CONNECTED: i32 = -1;

/// One of the SPI peripherals that are free for use.
#[derive(Clone, Copy, Debug, PartialEq, Eq, Structural)]
pub enum SpiHost {
    Spi2,
    Spi3,
}

/// How a bus gets its data from memory.
#[derive(Clone, Copy, Debug, PartialEq, Eq, Structural)]
pub enum DmaChannel {
    /// Byte by byte.
    Off,
    /// Over a channel that the platform picks.
    Auto,
}

/// Something that is to be done to start a bus.
#[derive(Clone, Copy, Debug, PartialEq, Eq, Structural)]
pub enum SpiAction {
    /// Start the bus of a peripheral.
    StartBus { host: SpiHost, dma: DmaChannel, config: SpiBusConfig },
}

/// The settings of the bus to the display, which is only written to. A whole picture, two bytes
/// to the pixel, can be sent in one go.
pub open spec fn bus_config(mosi: i32, clk: i32) -> SpiBusConfig {
    SpiBusConfig {
        mosi,
        miso: NOT_CONNECTED,
        sclk: clk,
        quadwp: NOT_CONNECTED,
        quadhd: NOT_CONNECTED,
        max_transfer_size: (DISPLAY_WIDTH * DISPLAY_HEIGHT * 2) as i32,
    }
}

/// What starts the bus to the display.
pub open spec fn bus_actions(mosi: i32, clk: i32) -> Seq<SpiAction> {
    seq![
        SpiAction::StartBus {
            host: SpiHost::Spi3,
            dma: DmaChannel::Auto,
            config: bus_config(mosi, clk),
        },
    ]
}

/// Tells what starts the bus to the display, whose data and clock lines are given.
pub fn init_spi(mosi: i32, clk: i32) -> (script: Script<SpiAction>)
    ensures
        script@ == (ScriptView { actions: bus_actions(mosi, clk), done: 0 }),
        script@.wf(),
{
    let config = SpiBusConfig {
        mosi,
        miso: NOT_CONNECTED,
        sclk: clk,
        quadwp: NOT_CONNECTED,
        quadhd: NOT_CONNECTED,
        max_transfer_size: (DISPLAY_WIDTH * DISPLAY_HEIGHT * 2) as i32,
    };
    let mut actions: Vec<SpiAction> = Vec::new();
    actions.push(SpiAction::StartBus { host: SpiHost::Spi3, dma: DmaChannel::Auto, config });
    assert(actions@ =~= bus_actions(mosi, clk));
    Script::new(actions)
}

/// The bus to the display is started once, and how that ends is how it all ends: well with code 0,
/// and otherwise with that very code. A whole picture of 115200 bytes fits it.
pub proof fn law_bus_is_started_once(mosi: i32, clk: i32, code: i32)
    ensures
        bus_actions(mosi, clk).len() == 1,
        (ScriptView { actions: bus_actions(mosi, clk), done: 0 }).after(code) == if code == 0 {
            StepView::<SpiAction>::Done
        } else {
            StepView::<SpiAction>::Failed(code)
        },
        bus_config(mosi, clk).max_transfer_size == 115_200,
{
}

/// Settings of the connection to the display.
#[derive(Clone, Copy, Debug, PartialEq, Eq, Structural)]
pub struct PanelIoConfig {
    pub host: SpiHost,
    pub cs: i32,
    pub dc: i32,
    pub spi_mode: i32,
    pub pixel_clock_hz: u32,
    pub queue_depth: usize,
    pub command_bits: i32,
    pub param_bits: i32,
}

/// The chip that drives a display.
#[derive(Clone, Copy, Debug, PartialEq, Eq, Structural)]
pub enum Controller {
    St7789,
    Nt35510,
}

/// Settings of the display.
#[derive(Clone, Copy, Debug, PartialEq, Eq, Structural)]
pub struct PanelConfig {
    pub controller: Controller,
    pub reset_gpio: i32,
    pub little_endian: bool,
    pub rgb_order: bool,
    pub bits_per_pixel: u32,
}

/// Something that is to be done to start the display.
#[derive(Clone, Copy, Debug, PartialEq, Eq, Structural)]
pub enum LcdAction {
    /// Make a pin an output.
    MakeOutput(i32),
    /// Set the level of a pin.
    SetLevel(i32, u32),
    /// Wait for so many milliseconds.
    Wait(u64),
    /// Make the connection to the display.
    ConnectPanel(PanelIoConfig),
    /// Make the driver of the display, on the connection that was made.
    CreatePanel(PanelConfig),
    /// Keep the driver for whoever draws.
    KeepPanel,
    /// Reset the display.
    Reset,
    /// Let the driver set the display up.
    Init,
    /// Set where the picture begins.
    SetGap(i32, i32),
    /// Send a command with one byte over the connection that was made.
    SendParam(i32, u8),
    /// Invert the colours.
    InvertColor(bool),
    /// Swap the axes.
    SwapXy(bool),
    /// Mirror the picture along the axes.
    Mirror(bool, bool),
    /// Switch the display on or off.
    Switch(bool),
}

/// The command that sets how pixels are coded.
pub const COLMOD: i32 = 0x3A;

/// The command that sets how the display reads its memory.
pub const MADCTL: i32 = 0x36;

/// The code of 16-bit pixels.
pub const RGB565: u8 = 0x05;

/// A reset by hand: 50 milliseconds low, then 120 milliseconds high.
pub open spec fn reset_pulse(rst: i32) -> Seq<LcdAction> {
    seq![
        LcdAction::MakeOutput(rst),
        LcdAction::SetLevel(rst, 0),
        LcdAction::Wait(50),
        LcdAction::SetLevel(rst, 1),
        LcdAction::Wait(120),
    ]
}

/// The connection to the display.
pub open spec fn panel_io_config(cs: i32, dc: i32) -> PanelIoConfig {
    PanelIoConfig {
        host: SpiHost::Spi3,
        cs,
        dc,
        spi_mode: 3,
        pixel_clock_hz: 10_000_000,
        queue_depth: 20,
        command_bits: 8,
        param_bits: 8,
    }
}

/// The display.
pub open spec fn panel_config(rst: i32) -> PanelConfig {
    PanelConfig {
        controller: Controller::St7789,
        reset_gpio: rst,
        little_endian: true,
        rgb_order: true,
        bits_per_pixel: 16,
    }
}

/// What makes the display known to the device.
pub open spec fn panel_creation(cs: i32, dc: i32, rst: i32) -> Seq<LcdAction> {
    seq![
        LcdAction::ConnectPanel(panel_io_config(cs, dc)),
        LcdAction::CreatePanel(panel_config(rst)),
        LcdAction::KeepPanel,
    ]
}

/// What sets the display up and switches it on.
pub open spec fn panel_set_up() -> Seq<LcdAction> {
    seq![
        LcdAction::Reset,
        LcdAction::Init,
        LcdAction::SetGap(0, 0),
        LcdAction::SendParam(COLMOD, RGB565),
        LcdAction::SendParam(MADCTL, 0),
        LcdAction::InvertColor(true),
        LcdAction::SwapXy(false),
        LcdAction::Mirror(false, false),
        LcdAction::Switch(true),
    ]
}

/// What starts the display: a reset by hand before the display is made known and another one
/// after it, then its set-up.
pub open spec fn lcd_actions(cs: i32, dc: i32, rst: i32) -> Seq<LcdAction> {
    reset_pulse(rst) + panel_creation(cs, dc, rst) + reset_pulse(rst) + panel_set_up()
}

fn push_reset_pulse(actions: &mut Vec<LcdAction>, rst: i32)
    ensures
        final(actions)@ == old(actions)@ + reset_pulse(rst),
{
    actions.push(LcdAction::MakeOutput(rst));
    actions.push(LcdAction::SetLevel(rst, 0));
    actions.push(LcdAction::Wait(50));
    actions.push(LcdAction::SetLevel(rst, 1));
    actions.push(LcdAction::Wait(120));
    assert(actions@ =~= old(actions)@ + reset_pulse(rst));
}

/// Tells what starts the display whose select, data and reset lines are given.
pub fn init_lcd(cs: i32, dc: i32, rst: i32) -> (script: Script<LcdAction>)
    ensures
        script@ == (ScriptView { actions: lcd_actions(cs, dc, rst), done: 0 }),
        script@.wf(),
{
    let mut actions: Vec<LcdAction> = Vec::new();
    push_reset_pulse(&mut actions, rst);
    let ghost first = actions@;
    actions.push(
        LcdAction::ConnectPanel(
            PanelIoConfig {
                host: SpiHost::Spi3,
                cs,
                dc,
                spi_mode: 3,
                pixel_clock_hz: 10_000_000,
                queue_depth: 20,
                command_bits: 8,
                param_bits: 8,
            },
        ),
    );
    actions.push(
        LcdAction::CreatePanel(
            PanelConfig {
                controller: Controller::St7789,
                reset_gpio: rst,
                little_endian: true,
                rgb_order: true,
                bits_per_pixel: 16,
            },
        ),
    );
    actions.push(LcdAction::KeepPanel);
    assert(actions@ =~= first + panel_creation(cs, dc, rst));
    push_reset_pulse(&mut actions, rst);
    let ghost third = actions@;
    actions.push(LcdAction::Reset);
    actions.push(LcdAction::Init);
    actions.push(LcdAction::SetGap(0, 0));
    actions.push(LcdAction::SendParam(COLMOD, RGB565));
    actions.push(LcdAction::SendParam(MADCTL, 0));
    actions.push(LcdAction::InvertColor(true));
    actions.push(LcdAction::SwapXy(false));
    actions.push(LcdAction::Mirror(false, false));
    actions.push(LcdAction::Switch(true));
    assert(actions@ =~= third + panel_set_up());
    assert(first =~= reset_pulse(rst));
    assert(actions@ =~= lcd_actions(cs, dc, rst));
    Script::new(actions)
}

/// An action works on the driver of the display.
pub open spec fn uses_panel(action: LcdAction) -> bool {
    match action {
        LcdAction::KeepPanel => true,
        LcdAction::Reset => true,
        LcdAction::Init => true,
        LcdAction::SetGap(..) => true,
        LcdAction::SendParam(..) => true,
        LcdAction::InvertColor(_) => true,
        LcdAction::SwapXy(_) => true,
        LcdAction::Mirror(..) => true,
        LcdAction::Switch(_) => true,
        _ => false,
    }
}

/// An action works over the connection to the display.
pub open spec fn uses_connection(action: LcdAction) -> bool {
    action is CreatePanel || action is SendParam
}

/// Nothing works over the connection to the display or on its driver before it is made, whoever
/// draws has the driver before the display is switched on, and the display is switched on last.
pub proof fn law_panel_is_made_before_it_is_used(cs: i32, dc: i32, rst: i32, i: int)
    requires
        0 <= i < lcd_actions(cs, dc, rst).len(),
    ensures
        ({
            let actions = lcd_actions(cs, dc, rst);
            &&& uses_connection(actions[i]) ==> exists|j: int|
                0 <= j < i && #[trigger] actions[j] == LcdAction::ConnectPanel(
                    panel_io_config(cs, dc),
                )
            &&& uses_panel(actions[i]) ==> exists|j: int|
                0 <= j < i && #[trigger] actions[j] == LcdAction::CreatePanel(panel_config(rst))
            &&& actions[i] == LcdAction::Switch(true) ==> i == actions.len() - 1 && exists|j: int|
                0 <= j < i && #[trigger] actions[j] == LcdAction::KeepPanel
            &&& actions.last() == LcdAction::Switch(true)
        }),
{
    let actions = lcd_actions(cs, dc, rst);
    assert(actions.len() == 22);
    assert(actions[5] == LcdAction::ConnectPanel(panel_io_config(cs, dc)));
    assert(actions[6] == LcdAction::CreatePanel(panel_config(rst)));
    assert(actions[7] == LcdAction::KeepPanel);
    assert(actions[21] == LcdAction::Switch(true));
    if i < 5 {
        assert(actions[i] == reset_pulse(rst)[i]);
    } else if 5 <= i < 8 {
        assert(actions[i] == panel_creation(cs, dc, rst)[i - 5]);
    } else if 8 <= i < 13 {
        assert(actions[i] == reset_pulse(rst)[i - 8]);
    } else {
        assert(actions[i] == panel_set_up()[i - 13]);
    }
}

/// A connection to the display; it is told apart from others by a number.
pub struct Connection {
    pub number: int,
    /// The peripheral on which it was made.
    pub host: SpiHost,
}

/// A driver of the display; it is told apart from others by a number.
pub struct Driver {
    pub number: int,
    /// The chip that it drives.
    pub controller: Controller,
    /// The number of the connection over which it works.
    pub connection: int,
}

/// What there is of the display.
pub struct Panels {
    /// The connection that was made last.
    pub connected: Option<Connection>,
    /// The driver that was made last.
    pub made: Option<Driver>,
    /// The driver that was kept: whoever draws, draws on it.
    pub kept: Option<Driver>,
    /// The commands that were sent, each behind the number of the connection over which it went.
    pub sent: Seq<(int, i32, u8)>,
}

impl Panels {
    /// What there is after an action that succeeded. `connection` and `panel` are what the making
    /// of a connection and of a driver gives.
    pub open spec fn and(self, action: LcdAction, connection: int, panel: int) -> Panels {
        match action {
            LcdAction::ConnectPanel(config) => Panels {
                connected: Some(Connection { number: connection, host: config.host }),
                ..self
            },
            LcdAction::CreatePanel(config) => Panels {
                made: Some(
                    Driver {
                        number: panel,
                        controller: config.controller,
                        connection: self.connected->0.number,
                    },
                ),
                ..self
            },
            LcdAction::KeepPanel => Panels { kept: self.made, ..self },
            LcdAction::SendParam(command, value) => Panels {
                sent: self.sent.push((self.connected->0.number, command, value)),
                ..self
            },
            _ => self,
        }
    }

    /// What there is after several actions that succeeded, in order.
    pub open spec fn and_all(self, actions: Seq<LcdAction>, connection: int, panel: int) -> Panels
        decreases actions.len(),
    {
        if actions.len() == 0 {
            self
        } else {
            self.and_all(actions.drop_last(), connection, panel).and(
                actions.last(),
                connection,
                panel,
            )
        }
    }
}

/// The driver that a start makes on the given connection.
pub open spec fn started_driver(connection: int, panel: int) -> Driver {
    Driver { number: panel, controller: Controller::St7789, connection }
}

proof fn lemma_panels(
    before: Panels,
    cs: i32,
    dc: i32,
    rst: i32,
    connection: int,
    panel: int,
    k: int,
)
    requires
        0 <= k <= 22,
    ensures
        ({
            let after = before.and_all(lcd_actions(cs, dc, rst).take(k), connection, panel);
            &&& after.connected == if k > 5 {
                Some(Connection { number: connection, host: SpiHost::Spi3 })
            } else {
                before.connected
            }
            &&& after.made == if k > 6 {
                Some(started_driver(connection, panel))
            } else {
                before.made
            }
            &&& after.kept == if k > 7 {
                Some(started_driver(connection, panel))
            } else {
                before.kept
            }
            &&& after.sent == if k > 17 {
                before.sent.push((connection, COLMOD, RGB565)).push((connection, MADCTL, 0))
            } else if k > 16 {
                before.sent.push((connection, COLMOD, RGB565))
            } else {
                before.sent
            }
        }),
    decreases k,
{
    let actions = lcd_actions(cs, dc, rst);
    assert(actions.len() == 22);
    if k > 0 {
        lemma_panels(before, cs, dc, rst, connection, panel, k - 1);
        assert(actions.take(k).drop_last() =~= actions.take(k - 1));
        assert(actions.take(k).last() == actions[k - 1]);
        let i = k - 1;
        if i < 5 {
            assert(actions[i] == reset_pulse(rst)[i]);
        } else if 5 <= i < 8 {
            assert(actions[i] == panel_creation(cs, dc, rst)[i - 5]);
        } else if 8 <= i < 13 {
            assert(actions[i] == reset_pulse(rst)[i - 8]);
        } else {
            assert(actions[i] == panel_set_up()[i - 13]);
        }
    }
}

/// A display that was started well is drawn on by the driver that was made for it. Where every
/// action succeeds, the start is done; the connection was made on the bus of the display, the
/// driver for its chip was made on that connection and is the one that is kept, whichever was kept
/// before, and the two commands went over that connection.
pub proof fn law_started_panel_is_drawn_on(
    before: Panels,
    cs: i32,
    dc: i32,
    rst: i32,
    connection: int,
    panel: int,
    codes: Seq<i32>,
)
    requires
        codes.len() == lcd_actions(cs, dc, rst).len(),
        forall|i: int| 0 <= i < codes.len() ==> codes[i] == 0,
    ensures
        ({
            let actions = lcd_actions(cs, dc, rst);
            let after = before.and_all(actions, connection, panel);
            &&& (ScriptView { actions, done: 0 }).after_all(codes) == StepView::<LcdAction>::Done
            &&& after.connected == Some(Connection { number: connection, host: SpiHost::Spi3 })
            &&& after.made == Some(
                Driver { number: panel, controller: Controller::St7789, connection },
            )
            &&& after.kept == after.made
            &&& after.sent == before.sent + seq![
                (connection, COLMOD, RGB565),
                (connection, MADCTL, 0u8),
            ]
        }),
{
    let actions = lcd_actions(cs, dc, rst);
    assert(actions.len() == 22);
    law_all_actions_are_done(ScriptView { actions, done: 0 }, codes);
    lemma_panels(before, cs, dc, rst, connection, panel, 22);
    assert(actions.take(22) =~= actions);
    assert(before.and_all(actions, connection, panel).sent =~= before.sent + seq![
        (connection, COLMOD, RGB565),
        (connection, MADCTL, 0u8),
    ]);
}

/// A start that fails ends with the code of the first action that failed, and leaves the driver
/// that was kept before, unless a new one was made and kept by then: it is never left without one
/// that it had.
pub proof fn law_failed_start_keeps_a_panel(
    before: Panels,
    cs: i32,
    dc: i32,
    rst: i32,
    connection: int,
    panel: int,
    codes: Seq<i32>,
    k: int,
)
    requires
        0 <= k < codes.len() <= lcd_actions(cs, dc, rst).len(),
        forall|i: int| 0 <= i < k ==> codes[i] == 0,
        codes[k] != 0,
    ensures
        ({
            let actions = lcd_actions(cs, dc, rst);
            let after = before.and_all(actions.take(k), connection, panel);
            &&& (ScriptView { actions, done: 0 }).after_all(codes) == StepView::<LcdAction>::Failed(
                codes[k],
            )
            &&& after.kept == if actions.take(k).contains(LcdAction::KeepPanel) {
                Some(started_driver(connection, panel))
            } else {
                before.kept
            }
        }),
{
    let actions = lcd_actions(cs, dc, rst);
    assert(actions.len() == 22);
    law_first_failure_ends_it(ScriptView { actions, done: 0 }, codes, k);
    lemma_panels(before, cs, dc, rst, connection, panel, k);
    let done = actions.take(k);
    assert(actions[7] == LcdAction::KeepPanel);
    if k > 7 {
        assert(done[7] == LcdAction::KeepPanel);
    } else {
        assert forall|i: int| 0 <= i < k implies done[i] != LcdAction::KeepPanel by {
            assert(done[i] == actions[i]);
            if i < 5 {
                assert(actions[i] == reset_pulse(rst)[i]);
            } else {
                assert(actions[i] == panel_creation(cs, dc, rst)[i - 5]);
            }
        }
    }
}

/// What starts the display, action by action, on whatever lines it has: the reset line is held low
/// for 50 milliseconds and high for 120, before the display is made known and again after it.
pub proof fn law_display_is_started_action_by_action(cs: i32, dc: i32, rst: i32)
    ensures
        lcd_actions(cs, dc, rst) == seq![
            LcdAction::MakeOutput(rst),
            LcdAction::SetLevel(rst, 0),
            LcdAction::Wait(50),
            LcdAction::SetLevel(rst, 1),
            LcdAction::Wait(120),
            LcdAction::ConnectPanel(
                PanelIoConfig {
                    host: SpiHost::Spi3,
                    cs,
                    dc,
                    spi_mode: 3,
                    pixel_clock_hz: 10_000_000,
                    queue_depth: 20,
                    command_bits: 8,
                    param_bits: 8,
                },
            ),
            LcdAction::CreatePanel(
                PanelConfig {
                    controller: Controller::St7789,
                    reset_gpio: rst,
                    little_endian: true,
                    rgb_order: true,
                    bits_per_pixel: 16,
                },
            ),
            LcdAction::KeepPanel,
            LcdAction::MakeOutput(rst),
            LcdAction::SetLevel(rst, 0),
            LcdAction::Wait(50),
            LcdAction::SetLevel(rst, 1),
            LcdAction::Wait(120),
            LcdAction::Reset,
            LcdAction::Init,
            LcdAction::SetGap(0, 0),
            LcdAction::SendParam(0x3A, 0x05),
            LcdAction::SendParam(0x36, 0x00),
            LcdAction::InvertColor(true),
            LcdAction::SwapXy(false),
            LcdAction::Mirror(false, false),
            LcdAction::Switch(true),
        ],
{
}

/// The bus to the display has the lines that were given and no others, and takes a whole picture,
/// two bytes for each pixel, in one go.
pub proof fn law_bus_has_the_given_lines(mosi: i32, clk: i32)
    ensures
        bus_actions(mosi, clk) == seq![
            SpiAction::StartBus {
                host: SpiHost::Spi3,
                dma: DmaChannel::Auto,
                config: SpiBusConfig {
                    mosi,
                    miso: (-1) as i32,
                    sclk: clk,
                    quadwp: (-1) as i32,
                    quadhd: (-1) as i32,
                    max_transfer_size: 115_200,
                },
            },
        ],
{
}

} // verus!
