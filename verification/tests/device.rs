use echokit::api::{
    change_from, effects, parse_madctl, read_payload, settings_document, Effect, Status,
};
use echokit::device::restore_display;
use echokit::http::Target;
use echokit::setting::{Defaults, Progress, Reply, Request, Setting};
use echokit::store::Key;
use std::collections::HashMap;

/// A device in memory.
#[derive(Clone, Debug, Default, PartialEq)]
struct Device {
    network: (String, String, String),
    texts: HashMap<&'static str, String>,
    bytes: HashMap<&'static str, u8>,
    integers: HashMap<&'static str, i32>,
    madctl: Option<u8>,
    gap: Option<(i32, i32)>,
    rotation: u8,
    redraws: u32,
}

impl Device {
    fn perform(&mut self, all: Vec<Effect>) {
        for effect in all {
            match effect {
                Effect::SetMadctl(value) => self.madctl = Some(value),
                Effect::SetGap(x, y) => self.gap = Some((x, y)),
                Effect::SetRotation(n) => self.rotation = n,
                Effect::StoreByte(key, value) => {
                    self.bytes.insert(key.name(), value);
                }
                Effect::StoreInteger(key, value) => {
                    self.integers.insert(key.name(), value);
                }
                Effect::StoreText(key, value) => {
                    self.texts.insert(key.name(), value);
                }
                Effect::Remember { ssid, pass, server_url } => {
                    self.network = (ssid, pass, server_url);
                }
                Effect::Redraw => self.redraws += 1,
            }
        }
    }

    fn integer(&self, key: Key) -> Option<i32> {
        self.integers.get(key.name()).copied()
    }

    fn byte(&self, key: Key) -> Option<u8> {
        self.bytes.get(key.name()).copied()
    }

    fn change(&mut self, target: Target, body: &str) {
        let change = change_from(target, read_payload(body.as_bytes()));
        let (x, y) = (self.integer(Key::GapX), self.integer(Key::GapY));
        self.perform(effects(change, x, y));
    }

    fn restart(&mut self) {
        (self.madctl, self.gap, self.rotation, self.redraws) = (None, None, 0, 0);
        self.perform(restore_display(
            self.byte(Key::Madctl),
            self.integer(Key::GapX),
            self.integer(Key::GapY),
            self.byte(Key::DispRot),
        ));
    }

    fn document(&self) -> String {
        settings_document(&Status {
            ssid: self.network.0.clone(),
            pass: self.network.1.clone(),
            server_url: self.network.2.clone(),
            madctl: self.byte(Key::Madctl),
            gap_x: self.integer(Key::GapX),
            gap_y: self.integer(Key::GapY),
            disp_rot: self.rotation,
        })
    }

    fn load(&self) -> Setting {
        let defaults = Defaults {
            server_url: None,
            background_gif: vec![],
            afe_linear_gain: 0,
            agc_target_level_dbfs: 0,
            agc_compression_gain_db: 0,
        };
        let mut loader = Setting::load_from_nvs(defaults);
        loop {
            let reply = match loader.request() {
                Request::Text(key, capacity) => match self.texts.get(key.name()) {
                    Some(text) if text.len() >= capacity => Reply::Text(Err(-1)),
                    found => Reply::Text(Ok(found.cloned())),
                },
                Request::Contains(_) => Reply::Contains(Ok(false)),
                Request::BlobLen(_) => Reply::BlobLen(Ok(None)),
                Request::Blob(..) => Reply::Blob(Ok(None)),
                Request::Byte(key) => Reply::Byte(Ok(self.byte(key))),
                Request::Integer(key) => Reply::Integer(Ok(self.integer(key))),
            };
            match loader.reply(reply) {
                Progress::More(next) => loader = next,
                Progress::Done(setting) => return setting,
                Progress::Failed(code) => panic!("{}", code),
            }
        }
    }
}

#[test]
fn what_was_saved_is_told() {
    let mut device = Device::default();
    device.change(Target::Settings, "{\"ssid\":\"a\",\"pass\":\"b\",\"server_url\":\"ws://c\"}");
    device.change(Target::Gap, "{\"x\":-1,\"y\":4294967298}");
    device.change(Target::Rotate, "{\"rot\":6}");
    device.change(Target::Madctl, "{\"madctl\":\"0xa0\"}");
    let document = device.document();
    assert_eq!(
        document,
        "{\"disp_rot\":2,\"gap_x\":-1,\"gap_y\":2,\"madctl\":160,\"madctl_hex\":\"0xA0\",\
         \"pass\":\"b\",\"server_url\":\"ws://c\",\"ssid\":\"a\"}"
    );
    assert_eq!(parse_madctl("0xA0"), Some(160));
    let payload = read_payload(document.as_bytes()).unwrap();
    assert_eq!(payload.ssid.as_deref(), Some("a"));
}

#[test]
fn a_change_can_be_repeated_and_outlasts_a_restart() {
    for (target, body) in [
        (Target::Gap, "{\"x\":3,\"y\":4}"),
        (Target::Rotate, "{\"rot\":3}"),
        (Target::Madctl, "{\"madctl\":\"36\"}"),
    ] {
        let mut device = Device::default();
        device.change(target, body);
        let mut twice = device.clone();
        twice.change(target, body);
        twice.redraws = device.redraws;
        assert_eq!(twice, device);
        let mut after = device.clone();
        after.restart();
        after.redraws = device.redraws;
        assert_eq!(after, device);
    }
}

#[test]
fn a_first_turn_is_shown_with_another_gap_than_is_stored() {
    let mut device = Device::default();
    device.change(Target::Rotate, "{\"rot\":1}");
    assert_eq!(device.gap, Some((80, 0)));
    device.restart();
    assert_eq!(device.gap, Some((80, 5)));
    device.change(Target::Gap, "{\"x\":1,\"y\":2}");
    device.change(Target::Rotate, "{\"rot\":1}");
    assert_eq!(device.gap, Some((1, 2)));
}

#[test]
fn an_unknown_change_leaves_the_device_as_it_is() {
    let mut device = Device::default();
    device.change(Target::Unknown, "{\"x\":1}");
    device.change(Target::Gap, "no json");
    assert_eq!(device, Device::default());
}

#[test]
fn a_saved_network_is_loaded() {
    let mut device = Device::default();
    device.change(Target::Settings, "{\"ssid\":\"a\",\"pass\":\"b\",\"server_url\":\"ws://c\"}");
    let setting = device.load();
    assert_eq!((setting.ssid.as_str(), setting.pass.as_str()), ("a", "b"));
    assert_eq!(setting.server_url, "ws://c");
    assert!(!setting.need_init());
    device.perform(vec![Effect::StoreByte(Key::State, 1)]);
    assert!(device.load().need_init());
    let long = "x".repeat(128);
    device.change(Target::Settings, &format!("{{\"ssid\":\"{}\",\"pass\":\"b\"}}", long));
    assert_eq!(device.load().ssid, "");
}
