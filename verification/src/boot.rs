//! How the device starts.
use crate::text::{append_hex_byte, decimal, decimal_text, digit_char, digit_value};
use vstd::prelude::*;

verus! {

/// The name of a device: its hardware address in hexadecimal digits.
pub open spec fn device_name(mac: Seq<u8>) -> Seq<char> {
    Seq::new(
        2 * mac.len(),
        |i: int| digit_char(
            if i % 2 == 0 {
                mac[i / 2] as int / 16
            } else {
                mac[i / 2] as int % 16
            },
            false,
        ),
    )
}

/// Names a device after its hardware address.
pub fn device_id(mac: &[u8; 6]) -> (id: String)
    ensures
        id@ == device_name(mac@),
        id@.len() == 12,
{
    let mut id = String::new();
    let mut i: usize = 0;
    while i < 6
        invariant
            i <= 6,
            mac@.len() == 6,
            id@ == device_name(mac@).take(2 * i),
        decreases 6 - i,
    {
        append_hex_byte(&mut id, mac[i], false);
        proof {
            let k = 2 * i;
            assert(k / 2 == i && (k + 1) / 2 == i && k % 2 == 0 && (k + 1) % 2 == 1);
            assert(id@ =~= device_name(mac@).take(2 * i + 2));
        }
        i = i + 1;
    }
    assert(id@ =~= device_name(mac@));
    id
}

/// Devices with different hardware addresses have different names.
pub proof fn law_device_names_differ(a: Seq<u8>, b: Seq<u8>)
    requires
        device_name(a) == device_name(b),
    ensures
        a == b,
{
    assert(device_name(a).len() == 2 * a.len());
    assert(device_name(b).len() == 2 * b.len());
    assert forall|i: int| 0 <= i < a.len() implies a[i] == b[i] by {
        assert((2 * i) / 2 == i && (2 * i + 1) / 2 == i && (2 * i) % 2 == 0 && (2 * i + 1) % 2
            == 1);
        assert(device_name(a)[2 * i] == digit_char(a[i] as int / 16, false));
        assert(device_name(b)[2 * i] == digit_char(b[i] as int / 16, false));
        assert(device_name(a)[2 * i + 1] == digit_char(a[i] as int % 16, false));
        assert(device_name(b)[2 * i + 1] == digit_char(b[i] as int % 16, false));
        lemma_digits_differ(a[i] as int / 16, b[i] as int / 16);
        lemma_digits_differ(a[i] as int % 16, b[i] as int % 16);
    }
    assert(a =~= b);
}

proof fn lemma_digits_differ(x: int, y: int)
    requires
        0 <= x < 16,
        0 <= y < 16,
        digit_char(x, false) == digit_char(y, false),
    ensures
        x == y,
{
}

/// A line of the log on free memory, given in bytes and told in whole kibibytes.
pub open spec fn heap_line(what: Seq<char>, bytes: usize) -> Seq<char> {
    what + decimal((bytes / 1024) as nat) + "KB"@
}

fn heap_line_text(what: &str, bytes: usize) -> (line: String)
    ensures
        line@ == heap_line(what@, bytes),
{
    let mut line = what.to_owned();
    line.append(decimal_text((bytes / 1024) as u64).as_str());
    line.append("KB");
    line
}

/// The two lines that are logged on free memory, outside and inside the chip, in this order.
pub fn log_heap(spiram: usize, internal: usize) -> (lines: (String, String))
    ensures
        lines.0@ == heap_line("Free SPIRAM heap size: "@, spiram),
        lines.1@ == heap_line("Free INTERNAL heap size: "@, internal),
{
    (
        heap_line_text("Free SPIRAM heap size: ", spiram),
        heap_line_text("Free INTERNAL heap size: ", internal),
    )
}

/// What the screen says while the device starts.
#[derive(Debug, PartialEq, Eq)]
pub struct Screen {
    pub state: String,
    pub text: String,
}

/// The screen of a device that cannot join its Wi-Fi.
pub fn wifi_failure_screen() -> (screen: Screen)
    ensures
        screen.state@ == "Failed to connect to wifi"@,
        screen.text@ == "Press K0 to open settings"@,
{
    Screen {
        state: "Failed to connect to wifi".to_owned(),
        text: "Press K0 to open settings".to_owned(),
    }
}

/// The screen of a device that looks for its server.
pub fn connecting_screen() -> (screen: Screen)
    ensures
        screen.state@ == "Connecting to server..."@,
        screen.text@ == Seq::<char>::empty(),
{
    Screen { state: "Connecting to server...".to_owned(), text: String::new() }
}

/// The screen of a device that cannot reach its server.
pub fn server_failure_screen(server_url: &str) -> (screen: Screen)
    ensures
        screen.state@ == "Failed to connect to server"@,
        screen.text@ == "Please check your server URL: "@ + server_url@
            + "\nPress K0 to open settings"@,
{
    let mut text = "Please check your server URL: ".to_owned();
    text.append(server_url);
    text.append("\nPress K0 to open settings");
    Screen { state: "Failed to connect to server".to_owned(), text }
}

/// How far the device has come: what is to be done.
#[derive(Clone, Copy, Debug, PartialEq, Eq, Structural)]
pub enum Boot {
    /// Load the settings.
    LoadSettings,
    /// Store that set-up mode is not asked for.
    ClearState,
    /// Start the bus to the display.
    StartBus,
    /// Start the display, whether its bus could be started or not.
    StartDisplay,
    /// Make the screen.
    MakeScreen,
    /// Bring the display back to how it was set.
    RestoreDisplay,
    /// Take the key of the board.
    TakeKey,
    /// Show the screen for the first time.
    FirstPicture,
    /// Join the Wi-Fi.
    JoinWifi,
    /// Let the device be set up over Bluetooth.
    StartBluetooth,
    /// Let the device be set up over HTTP.
    StartHttp,
    /// Show that the server is looked for.
    ShowConnecting,
    /// Connect to the server.
    ConnectServer,
    /// Start the sound.
    StartAudio,
    /// Watch the keys.
    StartKeys,
    /// Talk to the server until that ends.
    RunSession,
    /// Show that the Wi-Fi cannot be joined.
    ShowWifiFailure,
    /// Show that the server cannot be reached.
    ShowServerFailure,
    /// Wait for the key.
    AwaitKey,
    /// Store that set-up mode is asked for.
    AskForSetUp,
    /// Start anew.
    Restart,
}

/// What a step leads to.
#[derive(Clone, Copy, Debug, PartialEq, Eq, Structural)]
pub enum BootStep {
    More(Boot),
    /// The device gives up: this failed.
    GiveUp(Boot),
}

impl Boot {
    /// A step can come to this: storing the state and waiting for the key do not fail, and nothing
    /// comes after a restart.
    pub open spec fn expects(self, succeeded: bool) -> bool {
        match self {
            Boot::ClearState => succeeded,
            Boot::AwaitKey => succeeded,
            Boot::AskForSetUp => succeeded,
            Boot::Restart => false,
            _ => true,
        }
    }

    /// The step that follows one that succeeded, or whose failure does not matter.
    pub open spec fn next(self, has_key: bool) -> Boot {
        match self {
            Boot::LoadSettings => Boot::ClearState,
            Boot::ClearState => Boot::StartBus,
            Boot::StartBus => Boot::StartDisplay,
            Boot::StartDisplay => Boot::MakeScreen,
            Boot::MakeScreen => Boot::RestoreDisplay,
            Boot::RestoreDisplay => if has_key {
                Boot::TakeKey
            } else {
                Boot::FirstPicture
            },
            Boot::TakeKey => Boot::FirstPicture,
            Boot::FirstPicture => Boot::JoinWifi,
            Boot::JoinWifi => Boot::StartBluetooth,
            Boot::StartBluetooth => Boot::StartHttp,
            Boot::StartHttp => Boot::ShowConnecting,
            Boot::ShowConnecting => Boot::ConnectServer,
            Boot::ConnectServer => Boot::StartAudio,
            Boot::StartAudio => Boot::StartKeys,
            Boot::StartKeys => Boot::RunSession,
            Boot::RunSession => Boot::Restart,
            Boot::ShowWifiFailure => if has_key {
                Boot::AwaitKey
            } else {
                Boot::AskForSetUp
            },
            Boot::ShowServerFailure => if has_key {
                Boot::AwaitKey
            } else {
                Boot::AskForSetUp
            },
            Boot::AwaitKey => Boot::AskForSetUp,
            Boot::AskForSetUp => Boot::Restart,
            Boot::Restart => Boot::Restart,
        }
    }

    /// The failure of a step is logged and passed over.
    pub open spec fn may_fail(self) -> bool {
        match self {
            Boot::StartBus => true,
            Boot::StartDisplay => true,
            Boot::RestoreDisplay => true,
            Boot::StartBluetooth => true,
            Boot::StartHttp => true,
            Boot::RunSession => true,
            _ => false,
        }
    }

    /// What a step leads to on a board with a key of its own, or without one.
    pub open spec fn after(self, succeeded: bool, has_key: bool) -> BootStep {
        if succeeded || self.may_fail() {
            BootStep::More(self.next(has_key))
        } else if self is JoinWifi {
            BootStep::More(Boot::ShowWifiFailure)
        } else if self is ConnectServer {
            BootStep::More(Boot::ShowServerFailure)
        } else {
            BootStep::GiveUp(self)
        }
    }

    /// How many steps are left at most.
    pub open spec fn steps_left(self) -> nat {
        match self {
            Boot::LoadSettings => 20,
            Boot::ClearState => 19,
            Boot::StartBus => 18,
            Boot::StartDisplay => 17,
            Boot::MakeScreen => 16,
            Boot::RestoreDisplay => 15,
            Boot::TakeKey => 14,
            Boot::FirstPicture => 13,
            Boot::JoinWifi => 12,
            Boot::StartBluetooth => 11,
            Boot::StartHttp => 10,
            Boot::ShowConnecting => 9,
            Boot::ConnectServer => 8,
            Boot::StartAudio => 7,
            Boot::StartKeys => 6,
            Boot::RunSession => 5,
            Boot::ShowWifiFailure => 4,
            Boot::ShowServerFailure => 4,
            Boot::AwaitKey => 3,
            Boot::AskForSetUp => 2,
            Boot::Restart => 1,
        }
    }

    /// Takes what came of the step in turn.
    pub fn report(self, succeeded: bool, has_key: bool) -> (step: BootStep)
        requires
            self.expects(succeeded),
        ensures
            step == self.after(succeeded, has_key),
    {
        let next = match self {
            Boot::LoadSettings => Boot::ClearState,
            Boot::ClearState => Boot::StartBus,
            Boot::StartBus => {
                return BootStep::More(Boot::StartDisplay);
            },
            Boot::StartDisplay => {
                return BootStep::More(Boot::MakeScreen);
            },
            Boot::MakeScreen => Boot::RestoreDisplay,
            Boot::RestoreDisplay => {
                return BootStep::More(if has_key { Boot::TakeKey } else { Boot::FirstPicture });
            },
            Boot::TakeKey => Boot::FirstPicture,
            Boot::FirstPicture => Boot::JoinWifi,
            Boot::JoinWifi => if succeeded {
                Boot::StartBluetooth
            } else {
                return BootStep::More(Boot::ShowWifiFailure);
            },
            Boot::StartBluetooth => {
                return BootStep::More(Boot::StartHttp);
            },
            Boot::StartHttp => {
                return BootStep::More(Boot::ShowConnecting);
            },
            Boot::ShowConnecting => Boot::ConnectServer,
            Boot::ConnectServer => if succeeded {
                Boot::StartAudio
            } else {
                return BootStep::More(Boot::ShowServerFailure);
            },
            Boot::StartAudio => Boot::StartKeys,
            Boot::StartKeys => Boot::RunSession,
            Boot::RunSession => {
                return BootStep::More(Boot::Restart);
            },
            Boot::ShowWifiFailure => if has_key {
                Boot::AwaitKey
            } else {
                Boot::AskForSetUp
            },
            Boot::ShowServerFailure => if has_key {
                Boot::AwaitKey
            } else {
                Boot::AskForSetUp
            },
            Boot::AwaitKey => Boot::AskForSetUp,
            Boot::AskForSetUp => Boot::Restart,
            Boot::Restart => Boot::Restart,
        };
        if succeeded {
            BootStep::More(next)
        } else {
            BootStep::GiveUp(self)
        }
    }
}

/// The start comes to an end: every step leads nearer to a restart or gives up.
pub proof fn law_boot_comes_to_an_end(boot: Boot, succeeded: bool, has_key: bool)
    requires
        boot.expects(succeeded),
    ensures
        boot.after(succeeded, has_key) matches BootStep::More(next) ==> next.steps_left()
            < boot.steps_left(),
{
}

/// A device asks for set-up mode after it could not join its Wi-Fi or reach its server, and after
/// nothing else; on a board with a key only once the key was pressed.
pub proof fn law_set_up_is_asked_for_after_a_failure(boot: Boot, succeeded: bool, has_key: bool)
    requires
        boot.expects(succeeded),
    ensures
        boot.after(succeeded, has_key) == BootStep::More(Boot::AskForSetUp) ==> succeeded && (boot
            is AwaitKey || (!has_key && (boot is ShowWifiFailure || boot is ShowServerFailure))),
        boot.after(succeeded, has_key) == BootStep::More(Boot::AwaitKey) ==> succeeded && has_key
            && (boot is ShowWifiFailure || boot is ShowServerFailure),
        boot.after(succeeded, has_key) == BootStep::More(Boot::ShowWifiFailure) <==> boot
            is JoinWifi && !succeeded,
        boot.after(succeeded, has_key) == BootStep::More(Boot::ShowServerFailure) <==> boot
            is ConnectServer && !succeeded,
        boot.after(succeeded, has_key) == BootStep::More(Boot::Restart) ==> boot is AskForSetUp
            || boot is RunSession,
{
}

/// The server is connected to only by a device that has joined its Wi-Fi and has tried to let
/// itself be set up over Bluetooth and over HTTP.
pub proof fn law_set_up_is_offered_before_the_server(boot: Boot, succeeded: bool, has_key: bool)
    requires
        boot.expects(succeeded),
    ensures
        boot.after(succeeded, has_key) == BootStep::More(Boot::ConnectServer) ==> boot
            is ShowConnecting && succeeded,
        boot.after(succeeded, has_key) == BootStep::More(Boot::ShowConnecting) ==> boot
            is StartHttp,
        boot.after(succeeded, has_key) == BootStep::More(Boot::StartHttp) ==> boot
            is StartBluetooth,
        boot.after(succeeded, has_key) == BootStep::More(Boot::StartBluetooth) ==> boot
            is JoinWifi && succeeded,
{
}

/// The name of a device tells its hardware address: of each byte two digits, small ones, in order.
pub proof fn law_device_name_tells_the_address(mac: Seq<u8>, i: int)
    requires
        0 <= i < mac.len(),
    ensures
        device_name(mac).len() == 2 * mac.len(),
        16 * digit_value(device_name(mac)[2 * i]) + digit_value(device_name(mac)[2 * i + 1])
            == mac[i],
        forall|k: int|
            2 * i <= k < 2 * i + 2 ==> ('0' <= #[trigger] device_name(mac)[k] <= '9' || 'a'
                <= device_name(mac)[k] <= 'f'),
{
    assert((2 * i) / 2 == i && (2 * i + 1) / 2 == i && (2 * i) % 2 == 0 && (2 * i + 1) % 2 == 1);
    assert(device_name(mac)[2 * i] == digit_char(mac[i] as int / 16, false));
    assert(device_name(mac)[2 * i + 1] == digit_char(mac[i] as int % 16, false));
}

/// Free memory is told in whole kibibytes: the number in the line is the largest that the bytes
/// reach.
pub proof fn law_heap_is_told_in_whole_kibibytes(what: Seq<char>, bytes: usize, kib: nat)
    requires
        1024 * kib <= bytes < 1024 * (kib + 1),
    ensures
        heap_line(what, bytes) == what + decimal(kib) + seq!['K', 'B'],
{
    reveal_strlit("KB");
    assert("KB"@ =~= seq!['K', 'B']);
    assert((bytes / 1024) as nat == kib);
}

/// The steps of a start in which everything succeeds, on a board with a key of its own and on one
/// without.
pub proof fn law_a_good_start_goes_through(has_key: bool)
    ensures
        Boot::LoadSettings.after(true, has_key) == BootStep::More(Boot::ClearState),
        Boot::ClearState.after(true, has_key) == BootStep::More(Boot::StartBus),
        Boot::StartBus.after(true, has_key) == BootStep::More(Boot::StartDisplay),
        Boot::StartDisplay.after(true, has_key) == BootStep::More(Boot::MakeScreen),
        Boot::MakeScreen.after(true, has_key) == BootStep::More(Boot::RestoreDisplay),
        Boot::RestoreDisplay.after(true, true) == BootStep::More(Boot::TakeKey),
        Boot::RestoreDisplay.after(true, false) == BootStep::More(Boot::FirstPicture),
        Boot::TakeKey.after(true, has_key) == BootStep::More(Boot::FirstPicture),
        Boot::FirstPicture.after(true, has_key) == BootStep::More(Boot::JoinWifi),
        Boot::JoinWifi.after(true, has_key) == BootStep::More(Boot::StartBluetooth),
        Boot::StartBluetooth.after(true, has_key) == BootStep::More(Boot::StartHttp),
        Boot::StartHttp.after(true, has_key) == BootStep::More(Boot::ShowConnecting),
        Boot::ShowConnecting.after(true, has_key) == BootStep::More(Boot::ConnectServer),
        Boot::ConnectServer.after(true, has_key) == BootStep::More(Boot::StartAudio),
        Boot::StartAudio.after(true, has_key) == BootStep::More(Boot::StartKeys),
        Boot::StartKeys.after(true, has_key) == BootStep::More(Boot::RunSession),
        Boot::RunSession.after(true, has_key) == BootStep::More(Boot::Restart),
        Boot::ShowWifiFailure.after(true, true) == BootStep::More(Boot::AwaitKey),
        Boot::ShowWifiFailure.after(true, false) == BootStep::More(Boot::AskForSetUp),
        Boot::ShowServerFailure.after(true, true) == BootStep::More(Boot::AwaitKey),
        Boot::ShowServerFailure.after(true, false) == BootStep::More(Boot::AskForSetUp),
        Boot::AwaitKey.after(true, has_key) == BootStep::More(Boot::AskForSetUp),
        Boot::AskForSetUp.after(true, has_key) == BootStep::More(Boot::Restart),
{
}

/// Some failures are passed over as if the step had succeeded, a Wi-Fi that cannot be joined and a
/// server that cannot be reached are shown, and after any other failure the device gives up.
pub proof fn law_failures_of_the_start(boot: Boot, has_key: bool)
    ensures
        boot is StartBus || boot is StartDisplay || boot is RestoreDisplay || boot is StartBluetooth
            || boot is StartHttp || boot is RunSession ==> boot.after(false, has_key) == boot.after(
            true,
            has_key,
        ),
        boot is JoinWifi ==> boot.after(false, has_key) == BootStep::More(Boot::ShowWifiFailure),
        boot is ConnectServer ==> boot.after(false, has_key) == BootStep::More(
            Boot::ShowServerFailure,
        ),
        boot is LoadSettings || boot is MakeScreen || boot is TakeKey || boot is FirstPicture
            || boot is ShowConnecting || boot is StartAudio || boot is StartKeys
            || boot is ShowWifiFailure || boot is ShowServerFailure ==> boot.after(false, has_key)
            == BootStep::GiveUp(boot),
{
}

} // verus!
