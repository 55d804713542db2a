use echokit::setting::{Defaults, Progress, Reply, Request, Setting};
use echokit::store::Key;

fn defaults() -> Defaults {
    Defaults {
        server_url: Some("ws://default".to_string()),
        background_gif: vec![1, 2, 3],
        afe_linear_gain: 0x3f80_0000,
        agc_target_level_dbfs: 3,
        agc_compression_gain_db: 9,
    }
}

fn absent(request: Request) -> Reply {
    match request {
        Request::Text(..) => Reply::Text(Ok(None)),
        Request::Contains(_) => Reply::Contains(Ok(false)),
        Request::BlobLen(_) => Reply::BlobLen(Ok(None)),
        Request::Blob(..) => Reply::Blob(Ok(None)),
        Request::Byte(_) => Reply::Byte(Ok(None)),
        Request::Integer(_) => Reply::Integer(Ok(None)),
    }
}

fn load(answer: &dyn Fn(Request) -> Reply) -> (Vec<Request>, Result<Setting, i32>) {
    let mut asked = Vec::new();
    let mut loader = Setting::load_from_nvs(defaults());
    loop {
        let request = loader.request();
        asked.push(request);
        match loader.reply(answer(request)) {
            Progress::More(next) => loader = next,
            Progress::Done(setting) => return (asked, Ok(setting)),
            Progress::Failed(code) => return (asked, Err(code)),
        }
    }
}

#[test]
fn an_empty_store_gives_the_defaults() {
    let (asked, setting) = load(&absent);
    assert_eq!(
        asked,
        vec![
            Request::Text(Key::Ssid, 128),
            Request::Text(Key::Pass, 128),
            Request::Text(Key::ServerUrl, 128),
            Request::Contains(Key::BackgroundGif),
            Request::Contains(Key::AvatarGif),
            Request::Byte(Key::State),
            Request::Blob(Key::AfeLinearGain, 4),
            Request::Integer(Key::AgcTargetLevel),
            Request::Integer(Key::AgcCompressionGain),
        ]
    );
    let setting = setting.unwrap();
    assert_eq!(
        setting,
        Setting {
            ssid: "".to_string(),
            pass: "".to_string(),
            server_url: "ws://default".to_string(),
            background_gif: (vec![1, 2, 3], false),
            avatar_gif: (vec![], false),
            state: 0,
            afe_linear_gain: 0x3f80_0000,
            agc_target_level_dbfs: 3,
            agc_compression_gain_db: 9,
        }
    );
    assert!(setting.need_init());
}

fn full(request: Request) -> Reply {
    match request {
        Request::Text(Key::Ssid, _) => Reply::Text(Ok(Some("net".to_string()))),
        Request::Text(Key::Pass, _) => Reply::Text(Ok(Some("word".to_string()))),
        Request::Text(..) => Reply::Text(Ok(Some("ws://h".to_string()))),
        Request::Contains(_) => Reply::Contains(Ok(true)),
        Request::BlobLen(_) => Reply::BlobLen(Ok(Some(2))),
        Request::Blob(Key::AfeLinearGain, _) => Reply::Blob(Ok(Some(vec![0, 0, 0x20, 0x40]))),
        Request::Blob(..) => Reply::Blob(Ok(Some(vec![7, 8]))),
        Request::Byte(_) => Reply::Byte(Ok(Some(1))),
        Request::Integer(Key::AgcTargetLevel) => Reply::Integer(Ok(Some(-5))),
        Request::Integer(_) => Reply::Integer(Ok(Some(20))),
    }
}

#[test]
fn a_full_store_gives_what_it_holds() {
    let (asked, setting) = load(&full);
    assert_eq!(asked.len(), 13);
    assert!(asked.contains(&Request::Blob(Key::BackgroundGif, 2)));
    assert!(asked.contains(&Request::Blob(Key::AvatarGif, 2)));
    let setting = setting.unwrap();
    assert_eq!(setting.ssid, "net");
    assert_eq!(setting.server_url, "ws://h");
    assert_eq!(setting.background_gif, (vec![7, 8], false));
    assert_eq!(setting.avatar_gif, (vec![7, 8], false));
    assert_eq!(f32::from_bits(setting.afe_linear_gain), 2.5);
    assert_eq!(setting.agc_target_level_dbfs, -5);
    assert_eq!(setting.agc_compression_gain_db, 20);
    assert!(setting.need_init());
    let ready = Setting { state: 0, ..setting.clone() };
    assert_eq!(ready.pass, "word");
    assert!(!ready.need_init());
    assert!(Setting { pass: String::new(), ..ready }.need_init());
}

#[test]
fn a_picture_of_unknown_size_gets_a_fixed_room() {
    let (asked, _) = load(&|request| match request {
        Request::BlobLen(Key::BackgroundGif) => Reply::BlobLen(Err(-1)),
        Request::BlobLen(_) => Reply::BlobLen(Ok(None)),
        other => full(other),
    });
    assert!(asked.contains(&Request::Blob(Key::BackgroundGif, 1024 * 1024)));
    assert!(asked.contains(&Request::Blob(Key::AvatarGif, 128 * 1024)));
}

#[test]
fn a_picture_that_is_gone_is_replaced() {
    let gone = |size: usize| {
        load(&move |request| match request {
            Request::BlobLen(_) => Reply::BlobLen(Ok(Some(size))),
            Request::Blob(..) => Reply::Blob(Ok(None)),
            other => full(other),
        })
        .1
        .unwrap()
    };
    assert_eq!(gone(9).background_gif.0, vec![1, 2, 3]);
    assert_eq!(gone(3).background_gif.0, vec![0, 0, 0]);
    assert!(gone(9).avatar_gif.0.is_empty());
    assert_eq!(gone(9).afe_linear_gain, 0x3f80_0000);
}

#[test]
fn failures_to_read_a_picture_or_the_state_end_the_loading() {
    let failing = |which: Request| {
        load(&move |request| {
            if request != which {
                return full(request);
            }
            match request {
                Request::Contains(_) => Reply::Contains(Err(-11)),
                Request::Blob(..) => Reply::Blob(Err(-12)),
                _ => Reply::Byte(Err(-13)),
            }
        })
        .1
    };
    assert_eq!(failing(Request::Contains(Key::BackgroundGif)), Err(-11));
    assert_eq!(failing(Request::Contains(Key::AvatarGif)), Err(-11));
    assert_eq!(failing(Request::Blob(Key::BackgroundGif, 2)), Err(-12));
    assert_eq!(failing(Request::Blob(Key::AvatarGif, 2)), Err(-12));
    assert_eq!(failing(Request::Byte(Key::State)), Err(-13));
}

#[test]
fn other_failures_count_as_absence() {
    let (_, setting) = load(&|request| match request {
        Request::Text(..) => Reply::Text(Err(-1)),
        Request::Blob(Key::AfeLinearGain, _) => Reply::Blob(Err(-2)),
        Request::Integer(_) => Reply::Integer(Err(-3)),
        other => full(other),
    });
    let setting = setting.unwrap();
    assert_eq!(setting.ssid, "");
    assert_eq!(setting.server_url, "ws://default");
    assert_eq!(setting.afe_linear_gain, 0x3f80_0000);
    assert_eq!(setting.agc_target_level_dbfs, 3);
    assert_eq!(setting.agc_compression_gain_db, 9);
}

#[test]
fn a_network_is_taken_over() {
    let (_, setting) = load(&full);
    let mut setting = setting.unwrap();
    setting.remember("a".to_string(), "b".to_string(), "c".to_string());
    assert_eq!((setting.ssid.as_str(), setting.pass.as_str(), setting.server_url.as_str()), ("a", "b", "c"));
    assert_eq!(setting.state, 1);
}

#[test]
fn every_value_has_a_key_of_its_own() {
    let keys = [
        (Key::Ssid, "ssid"),
        (Key::Pass, "pass"),
        (Key::ServerUrl, "server_url"),
        (Key::BackgroundGif, "background_gif"),
        (Key::AvatarGif, "avatar_gif"),
        (Key::State, "state"),
        (Key::AfeLinearGain, "afe_linear_gain"),
        (Key::AgcTargetLevel, "agc_tl_dbfs"),
        (Key::AgcCompressionGain, "agc_cg_db"),
        (Key::Madctl, "madctl"),
        (Key::GapX, "gap_x"),
        (Key::GapY, "gap_y"),
        (Key::DispRot, "disp_rot"),
    ];
    for (key, name) in keys {
        assert_eq!(key.name(), name);
        assert!(name.len() <= 15);
    }
}
