use echokit::network::{
    http_get, http_post, ota_update_from_url, wifi, AuthMethod, GetAction, HttpMethod, Opened,
    PostEvent, PostStage, PostStep, RequestHead, Update, UpdateError, UpdateEvent, UpdateStep,
    WifiAction, WifiError, NAME_CAPACITY, PASSWORD_CAPACITY,
};
use echokit::script::{Script, Step};

fn actions_of(ssid: &str, pass: &str) -> Vec<String> {
    let mut script = wifi(ssid, pass).unwrap();
    let mut actions = Vec::new();
    loop {
        actions.push(format!("{:?}", script.action()));
        match script.report(0) {
            Step::More(next) => script = next,
            _ => return actions,
        }
    }
}

#[test]
fn a_wifi_with_a_password_is_joined() {
    let configure = WifiAction::Configure {
        ssid: "net".to_string(),
        password: "word".to_string(),
        auth_method: AuthMethod::Wpa2Personal,
    };
    assert_eq!(
        actions_of("net", "word"),
        vec![
            "Create".to_string(),
            "Wrap".to_string(),
            format!("{:?}", configure),
            "Start".to_string(),
            "Connect".to_string(),
            "WaitForAddress".to_string(),
            "ReadAddress".to_string(),
        ]
    );
}

#[test]
fn a_wifi_without_a_password_is_open() {
    assert!(actions_of("net", "")[2].contains("Open"));
}

#[test]
fn a_wifi_without_a_name_is_not_tried() {
    assert_eq!(wifi("", "word").err(), Some(WifiError::MissingName));
    assert_eq!(WifiError::MissingName.message(), "Missing WiFi name");
}

fn get_actions(mut script: Script<GetAction>) -> Vec<String> {
    let mut actions = Vec::new();
    loop {
        actions.push(format!("{:?}", script.action()));
        match script.report(0) {
            Step::More(next) => script = next,
            _ => return actions,
        }
    }
}

#[test]
fn something_is_fetched() {
    let head = RequestHead {
        method: HttpMethod::Get,
        url: "http://h/fw".to_string(),
        headers: vec![],
    };
    let expected = vec![
        "Open".to_string(),
        format!("{:?}", GetAction::Request(head)),
        "AwaitResponse".to_string(),
    ];
    assert_eq!(get_actions(http_get("http://h/fw")), expected);
    let (fetch, update) = ota_update_from_url("http://h/fw");
    assert_eq!(get_actions(fetch), expected);
    assert_eq!(update, Update::Fetch);
}

#[test]
fn data_is_posted_piece_by_piece() {
    let data: Vec<u8> = (0..10).collect();
    let mut post = http_post("http://h", &data);
    assert_eq!(
        post.head(),
        RequestHead {
            method: HttpMethod::Post,
            url: "http://h".to_string(),
            headers: vec![("Content-Length".to_string(), "10".to_string())],
        }
    );
    let mut sent = Vec::new();
    let mut pieces = vec![4usize, 0, 1, 5].into_iter();
    loop {
        let event = match post.stage {
            PostStage::Write(_) => {
                let n = pieces.next().unwrap();
                sent.extend_from_slice(&post.rest()[..n]);
                PostEvent::Wrote(n)
            }
            _ => PostEvent::Succeeded,
        };
        match post.report(event) {
            PostStep::More(next) => post = next,
            end => {
                assert_eq!(end, PostStep::Done);
                break;
            }
        }
    }
    assert_eq!(sent, data);
}

#[test]
fn empty_data_is_posted_without_writing() {
    let post = http_post("http://h", &[]);
    let post = match post.report(PostEvent::Succeeded) {
        PostStep::More(next) => next,
        other => panic!("{:?}", other),
    };
    match post.report(PostEvent::Succeeded) {
        PostStep::More(next) => assert_eq!(next.stage, PostStage::AwaitResponse),
        other => panic!("{:?}", other),
    }
    assert_eq!(post.report(PostEvent::Failed(-3)), PostStep::Failed(-3));
}

#[test]
fn a_write_that_answers_too_much_ends_the_writing() {
    let post = http_post("http://h", b"abc");
    let post = match post.report(PostEvent::Succeeded) {
        PostStep::More(next) => next,
        other => panic!("{:?}", other),
    };
    let post = match post.report(PostEvent::Succeeded) {
        PostStep::More(next) => next,
        other => panic!("{:?}", other),
    };
    assert_eq!(post.rest(), b"abc");
    match post.report(PostEvent::Wrote(7)) {
        PostStep::More(next) => assert_eq!(next.stage, PostStage::AwaitResponse),
        other => panic!("{:?}", other),
    }
}

#[test]
fn names_and_passwords_go_up_to_what_the_modem_takes() {
    let (name, word) = ("n".repeat(32), "w".repeat(64));
    assert!(actions_of(&name, &word)[2].contains(&word));
    assert_eq!((NAME_CAPACITY, PASSWORD_CAPACITY), (32, 64));
    assert_eq!(wifi("", &"w".repeat(65)).err(), Some(WifiError::MissingName));
}

/// Runs an update; the platform says what comes of each step. What was written is returned too.
fn update(
    events: Vec<UpdateEvent>,
) -> (Vec<String>, Vec<(u32, Vec<u8>)>, Result<(), UpdateError>) {
    let mut now = Update::Fetch;
    let mut steps = Vec::new();
    let mut written = Vec::new();
    for event in events {
        steps.push(format!("{:?}", now));
        if let (Update::Write(opened, bytes), UpdateEvent::Ended(0)) = (&now, &event) {
            written.push((opened.handle, bytes.clone()));
        }
        match now.report(event) {
            UpdateStep::More(next) => now = next,
            UpdateStep::Done => return (steps, written, Ok(())),
            UpdateStep::Failed(e) => return (steps, written, Err(e)),
        }
    }
    panic!("not at its end: {:?}", now)
}

fn ok() -> UpdateEvent {
    UpdateEvent::Ended(0)
}

fn found() -> UpdateEvent {
    UpdateEvent::Partition(Some(0x1000))
}

fn begun() -> UpdateEvent {
    UpdateEvent::Begun(0, 42)
}

fn read(bytes: &[u8]) -> UpdateEvent {
    UpdateEvent::ReadBytes(bytes.to_vec())
}

#[test]
fn an_update_is_written_and_run_at_the_next_start() {
    let first = vec![7u8; 4096];
    let (steps, written, end) = update(vec![
        ok(),
        found(),
        begun(),
        read(&first),
        ok(),
        read(b"tail"),
        ok(),
        read(b""),
        ok(),
        ok(),
    ]);
    assert_eq!(end, Ok(()));
    assert_eq!(written, vec![(42, first), (42, b"tail".to_vec())]);
    let opened = Opened { partition: 0x1000, handle: 42 };
    assert_eq!(steps[2], format!("{:?}", Update::Begin(0x1000)));
    assert_eq!(steps[3], format!("{:?}", Update::Read(opened)));
    assert_eq!(steps[8], format!("{:?}", Update::End(opened)));
    assert_eq!(steps[9], format!("{:?}", Update::SetBoot(0x1000)));
}

#[test]
fn an_update_that_fails_is_given_up() {
    let failed = |events: Vec<UpdateEvent>| {
        let (steps, _, end) = update(events);
        let e = end.unwrap_err();
        (e, steps.iter().any(|s| s.starts_with("Abort")), e.message("NAME"))
    };
    let bad = || UpdateEvent::Ended(-7);
    assert_eq!(failed(vec![bad()]), (UpdateError::Fetch(-7), false, "NAME".to_string()));
    assert_eq!(
        failed(vec![ok(), UpdateEvent::Partition(None)]),
        (UpdateError::NoPartition, false, "No OTA partition available".to_string())
    );
    assert_eq!(
        failed(vec![ok(), found(), UpdateEvent::Begun(-7, 42)]),
        (UpdateError::Begin(-7), false, "esp_ota_begin failed: -7 (NAME)".to_string())
    );
    assert_eq!(
        failed(vec![ok(), found(), begun(), read(b"x"), UpdateEvent::Ended(5), bad()]),
        (UpdateError::Write(5), true, "esp_ota_write failed: 5 (NAME)".to_string())
    );
    assert_eq!(
        failed(vec![ok(), found(), begun(), UpdateEvent::ReadFailed(-6), ok()]),
        (
            UpdateError::Read(-6),
            true,
            "HTTP read error during OTA: NAME (error code -6)".to_string()
        )
    );
    assert_eq!(
        failed(vec![ok(), found(), begun(), read(b""), UpdateEvent::Ended(8)]),
        (UpdateError::End(8), false, "esp_ota_end failed: 8 (NAME)".to_string())
    );
    assert_eq!(
        failed(vec![ok(), found(), begun(), read(b""), ok(), UpdateEvent::Ended(9)]),
        (UpdateError::SetBoot(9), false, "esp_ota_set_boot_partition failed: 9 (NAME)".to_string())
    );
}
