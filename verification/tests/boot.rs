use echokit::boot::{
    connecting_screen, device_id, log_heap, server_failure_screen, wifi_failure_screen, Boot,
    BootStep,
};
use echokit::keys::{
    start_btn_worker, take_key, Edge, KeyAction, KeyEvent, KeyOutcome, KeyWatch, VolumeKey,
    VolumeOutcome, VolumeWatch, HOLD_MS,
};
use echokit::script::{Script, Step};

#[test]
fn a_device_is_named_after_its_address() {
    assert_eq!(device_id(&[0, 1, 0xab, 0xcd, 0xef, 0xff]), "0001abcdefff");
    assert_ne!(device_id(&[0, 1, 2, 3, 4, 5]), device_id(&[0, 1, 2, 3, 4, 6]));
}

#[test]
fn memory_is_told_in_kibibytes() {
    assert_eq!(
        log_heap(2047, 3072),
        ("Free SPIRAM heap size: 1KB".to_string(), "Free INTERNAL heap size: 3KB".to_string())
    );
    assert_eq!(log_heap(8 * 1024 * 1024, 1023).0, "Free SPIRAM heap size: 8192KB");
    assert_eq!(log_heap(0, 1023).1, "Free INTERNAL heap size: 0KB");
}

#[test]
fn the_screen_tells_what_is_the_matter() {
    let screen = wifi_failure_screen();
    assert_eq!(screen.state, "Failed to connect to wifi");
    assert_eq!(screen.text, "Press K0 to open settings");
    let screen = connecting_screen();
    assert_eq!((screen.state.as_str(), screen.text.as_str()), ("Connecting to server...", ""));
    let screen = server_failure_screen("ws://h");
    assert_eq!(screen.state, "Failed to connect to server");
    assert_eq!(screen.text, "Please check your server URL: ws://h\nPress K0 to open settings");
}

fn boot(has_key: bool, fails: &dyn Fn(Boot) -> bool) -> (Vec<Boot>, Option<Boot>) {
    let mut now = Boot::LoadSettings;
    let mut steps = vec![now];
    while now != Boot::Restart {
        match now.report(!fails(now), has_key) {
            BootStep::More(next) => {
                now = next;
                steps.push(now);
            }
            BootStep::GiveUp(at) => return (steps, Some(at)),
        }
    }
    (steps, None)
}

#[test]
fn a_device_starts_and_restarts_after_its_session() {
    let (steps, gave_up) = boot(true, &|_| false);
    assert_eq!(gave_up, None);
    assert_eq!(
        steps,
        vec![
            Boot::LoadSettings,
            Boot::ClearState,
            Boot::StartBus,
            Boot::StartDisplay,
            Boot::MakeScreen,
            Boot::RestoreDisplay,
            Boot::TakeKey,
            Boot::FirstPicture,
            Boot::JoinWifi,
            Boot::StartBluetooth,
            Boot::StartHttp,
            Boot::ShowConnecting,
            Boot::ConnectServer,
            Boot::StartAudio,
            Boot::StartKeys,
            Boot::RunSession,
            Boot::Restart,
        ]
    );
}

#[test]
fn a_device_without_its_wifi_asks_to_be_set_up() {
    let (steps, _) = boot(true, &|b| b == Boot::JoinWifi);
    assert_eq!(
        steps[8..],
        [
            Boot::JoinWifi,
            Boot::ShowWifiFailure,
            Boot::AwaitKey,
            Boot::AskForSetUp,
            Boot::Restart,
        ]
    );
    let (steps, _) = boot(false, &|b| b == Boot::ConnectServer);
    assert_eq!(
        steps[11..],
        [Boot::ConnectServer, Boot::ShowServerFailure, Boot::AskForSetUp, Boot::Restart]
    );
}

#[test]
fn some_failures_are_passed_over_and_others_are_not() {
    for step in [
        Boot::StartBus,
        Boot::StartDisplay,
        Boot::RestoreDisplay,
        Boot::StartBluetooth,
        Boot::StartHttp,
        Boot::RunSession,
    ] {
        assert_eq!(boot(false, &|b| b == step).1, None);
    }
    for step in [
        Boot::LoadSettings,
        Boot::MakeScreen,
        Boot::TakeKey,
        Boot::FirstPicture,
        Boot::ShowConnecting,
        Boot::StartAudio,
        Boot::StartKeys,
    ] {
        assert_eq!(boot(true, &|b| b == step).1, Some(step));
    }
}

#[test]
fn a_press_is_told_from_holding_down() {
    let down = KeyWatch::AwaitPress.report(KeyOutcome::Happened).unwrap();
    assert_eq!(down, KeyWatch::AwaitRelease);
    assert_eq!(down.report(KeyOutcome::Happened), Some(KeyWatch::Tell(KeyEvent::K0)));
    assert_eq!(down.report(KeyOutcome::Lapsed), Some(KeyWatch::Tell(KeyEvent::K0Held)));
    let tell = KeyWatch::Tell(KeyEvent::K0);
    assert_eq!(tell.report(KeyOutcome::Happened), Some(KeyWatch::AwaitPress));
    assert_eq!(tell.report(KeyOutcome::Lapsed), None);
    assert_eq!(HOLD_MS, 1000);
}

#[test]
fn the_keys_for_the_volume_are_told() {
    let (_, mut watch) = start_btn_worker(9, 3);
    for (key, event) in
        [(VolumeKey::Up, KeyEvent::VolumeUp), (VolumeKey::Down, KeyEvent::VolumeDown)]
    {
        for outcome in [VolumeOutcome::Told, VolumeOutcome::NotTold] {
            assert_eq!(watch, VolumeWatch::AwaitKey);
            watch = watch.report(VolumeOutcome::Pressed(key));
            assert_eq!(watch, VolumeWatch::Tell(event));
            watch = watch.report(outcome);
        }
    }
}

fn carry_out(mut script: Script<KeyAction>, codes: &[i32]) -> (Vec<KeyAction>, Result<(), i32>) {
    let mut done = Vec::new();
    for code in codes {
        done.push(*script.action());
        match script.report(*code) {
            Step::More(next) => script = next,
            Step::Done => return (done, Ok(())),
            Step::Failed(code) => return (done, Err(code)),
        }
    }
    panic!("not at its end: {:?}", script)
}

#[test]
fn the_keys_are_watched_once_their_pins_are_ready() {
    let (done, end) = carry_out(start_btn_worker(9, 3).0, &[0; 7]);
    assert_eq!(end, Ok(()));
    assert_eq!(
        done,
        vec![
            KeyAction::MakeInput(9),
            KeyAction::PullUp(9),
            KeyAction::InterruptAt(9, Edge::Rising),
            KeyAction::MakeInput(3),
            KeyAction::PullUp(3),
            KeyAction::InterruptAt(3, Edge::Rising),
            KeyAction::Watch,
        ]
    );
    for k in 0..6 {
        let mut codes = [0; 7];
        codes[k] = 100 + k as i32;
        let (done, end) = carry_out(start_btn_worker(9, 3).0, &codes);
        assert_eq!(end, Err(100 + k as i32));
        assert_eq!(done.len(), k + 1);
        assert!(!done.contains(&KeyAction::Watch));
    }
    let (done, end) = carry_out(take_key(0), &[0; 3]);
    assert_eq!(end, Ok(()));
    assert_eq!(done[2], KeyAction::InterruptAt(0, Edge::Falling));
}
