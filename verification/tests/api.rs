use echokit::api::{
    change_from, changed_response, dispatch, document_or_empty, effects, madctl_hex, parse_madctl,
    read_payload, settings_document, settings_response, wrap_to_i32, wrap_to_rotation, Change,
    Dispatch, Effect, Payload, Status,
};
use echokit::device::restore_display;
use echokit::http::{Head, HttpRequest, Target};
use echokit::page::SETUP_PAGE;
use echokit::store::Key;

fn request(method: &str, path: &str, body: &str) -> HttpRequest {
    HttpRequest {
        head: Head {
            method: method.to_string(),
            path: path.to_string(),
            content_length: body.len(),
            header_end: 0,
        },
        body: body.as_bytes().to_vec(),
    }
}

fn status() -> Status {
    Status {
        ssid: "home \"net\"".to_string(),
        pass: "p\u{e4}ss\n".to_string(),
        server_url: "ws://h/ws".to_string(),
        madctl: Some(0x60),
        gap_x: Some(-3),
        gap_y: None,
        disp_rot: 2,
    }
}

#[test]
fn numbers_are_cut_to_their_lowest_bits() {
    for n in [0i64, 1, -1, i32::MAX as i64 + 1, i64::MIN, i64::MAX, 0x1_0000_0005, -0x1_8000_0001] {
        assert_eq!(wrap_to_i32(n), n as i32);
        assert_eq!(wrap_to_rotation(n), (n as u8) % 4);
    }
    assert_eq!(wrap_to_rotation(-1), 3);
}

#[test]
fn the_madctl_byte_is_read_in_all_its_forms() {
    assert_eq!(parse_madctl(" 0x36 "), Some(0x36));
    assert_eq!(parse_madctl("36"), Some(0x36));
    assert_eq!(parse_madctl("aF"), Some(0xaf));
    assert_eq!(parse_madctl("0x+5"), Some(5));
    assert_eq!(parse_madctl("0X36"), None);
    assert_eq!(parse_madctl("100"), None);
    assert_eq!(parse_madctl("0x"), None);
    assert_eq!(parse_madctl(""), None);
    for value in 0..=255u8 {
        assert_eq!(madctl_hex(value), format!("0x{:02X}", value));
        assert_eq!(parse_madctl(&madctl_hex(value)), Some(value));
    }
}

#[test]
fn a_body_is_read_member_by_member() {
    let body = "{\"madctl\":\"0x36\",\"x\":5,\"y\":-6,\"rot\":7,\"ssid\":\"s\",\"pass\":\"\\u0041\",\"server_url\":\"u\"}";
    assert_eq!(
        read_payload(body.as_bytes()),
        Some(Payload {
            madctl: Some("0x36".to_string()),
            x: Some(5),
            y: Some(-6),
            rot: Some(7),
            ssid: Some("s".to_string()),
            pass: Some("A".to_string()),
            server_url: Some("u".to_string()),
        })
    );
    let nothing = Payload {
        madctl: None,
        x: None,
        y: None,
        rot: None,
        ssid: None,
        pass: None,
        server_url: None,
    };
    let other = "{\"madctl\":54,\"x\":1.5,\"y\":\"6\",\"rot\":null,\"ssid\":[],\"pass\":{},\"server_url\":true}";
    assert_eq!(read_payload(other.as_bytes()), Some(nothing));
    assert!(read_payload(b"[1,2]").is_some());
    assert_eq!(read_payload(b"{\"x\":-0}").unwrap().x, None);
    assert_eq!(read_payload(b"{\"x\":-9223372036854775808}").unwrap().x, Some(i64::MIN));
    assert_eq!(read_payload(b""), None);
    assert_eq!(read_payload(b"{\"x\":1"), None);
    assert_eq!(read_payload(b"{\"x\":1} y"), None);
}

#[test]
fn a_change_of_the_madctl_byte_is_applied_and_stored() {
    let found = dispatch(&request("POST", "/api/set/madctl", "{\"madctl\":\" 0xC8\"}"));
    assert_eq!(found, Dispatch::Apply(Change::Madctl(0xc8)));
    assert_eq!(
        effects(Change::Madctl(0xc8), None, None),
        vec![Effect::SetMadctl(0xc8), Effect::StoreByte(Key::Madctl, 0xc8)]
    );
    for body in ["{\"madctl\":\"zz\"}", "{\"madctl\":36}", "{}", "no json"] {
        let found = dispatch(&request("POST", "/api/set/madctl", body));
        assert_eq!(found, Dispatch::Apply(Change::Nothing));
    }
}

#[test]
fn a_change_of_the_gap_takes_zero_for_what_is_missing() {
    let found = dispatch(&request("POST", "/api/set/gap", "{\"x\":4294967300}"));
    assert_eq!(found, Dispatch::Apply(Change::Gap(4, 0)));
    assert_eq!(
        effects(Change::Gap(4, 0), Some(1), None),
        vec![
            Effect::SetGap(4, 0),
            Effect::StoreInteger(Key::GapX, 4),
            Effect::StoreInteger(Key::GapY, 0),
        ]
    );
    let found = dispatch(&request("POST", "/api/set/gap", "5"));
    assert_eq!(found, Dispatch::Apply(Change::Gap(0, 0)));
}

#[test]
fn a_rotation_is_one_of_four() {
    let found = dispatch(&request("POST", "/api/set/rotate", "{\"rot\":-1}"));
    assert_eq!(found, Dispatch::Apply(Change::Rotation(3)));
    let found = dispatch(&request("POST", "/api/set/rotate", "{\"rot\":\"1\"}"));
    assert_eq!(found, Dispatch::Apply(Change::Nothing));
    assert_eq!(
        effects(Change::Rotation(3), None, None),
        vec![Effect::SetRotation(3), Effect::StoreByte(Key::DispRot, 3), Effect::Redraw]
    );
}

#[test]
fn a_first_turn_moves_the_picture_unless_a_gap_is_stored() {
    assert_eq!(
        effects(Change::Rotation(1), None, None),
        vec![
            Effect::SetRotation(1),
            Effect::StoreByte(Key::DispRot, 1),
            Effect::StoreInteger(Key::GapX, 80),
            Effect::StoreInteger(Key::GapY, 5),
            Effect::SetGap(80, 0),
            Effect::Redraw,
        ]
    );
    assert_eq!(
        effects(Change::Rotation(1), None, Some(0)),
        vec![Effect::SetRotation(1), Effect::StoreByte(Key::DispRot, 1), Effect::Redraw]
    );
}

#[test]
fn a_change_of_the_network_is_stored_and_remembered() {
    let found = dispatch(&request("POST", "/api/set/settings", "{\"ssid\":\"s\",\"pass\":\"p\"}"));
    let change = match found {
        Dispatch::Apply(change) => change,
        other => panic!("{:?}", other),
    };
    assert_eq!(
        effects(change, None, None),
        vec![
            Effect::StoreText(Key::Ssid, "s".to_string()),
            Effect::StoreText(Key::Pass, "p".to_string()),
            Effect::StoreText(Key::ServerUrl, "".to_string()),
            Effect::Remember {
                ssid: "s".to_string(),
                pass: "p".to_string(),
                server_url: "".to_string(),
            },
        ]
    );
}

#[test]
fn an_unknown_change_changes_nothing() {
    let found = dispatch(&request("POST", "/api/set/volume", "{\"x\":1}"));
    assert_eq!(found, Dispatch::Apply(Change::Nothing));
    assert_eq!(effects(Change::Nothing, None, None), vec![]);
    assert_eq!(change_from(Target::Gap, None), Change::Nothing);
}

#[test]
fn other_requests_are_answered_at_once() {
    match dispatch(&request("GET", "/setup", "")) {
        Dispatch::Respond(text) => assert!(text.ends_with(SETUP_PAGE)),
        other => panic!("{:?}", other),
    }
    assert_eq!(dispatch(&request("GET", "/api/settings", "")), Dispatch::TellSettings);
    assert_eq!(
        dispatch(&request("GET", "/favicon.ico", "")),
        Dispatch::Respond("HTTP/1.1 404 Not Found\r\nContent-Length: 0\r\n\r\n".to_string())
    );
}

#[test]
fn the_settings_are_told_as_a_document() {
    assert_eq!(
        settings_document(&status()),
        "{\"disp_rot\":2,\"gap_x\":-3,\"gap_y\":0,\"madctl\":96,\"madctl_hex\":\"0x60\",\"pass\":\"p\u{e4}ss\\n\",\"server_url\":\"ws://h/ws\",\"ssid\":\"home \\\"net\\\"\"}"
    );
    let bare = Status { madctl: None, ..status() };
    assert!(settings_document(&bare).contains("\"madctl\":null,\"madctl_hex\":null"));
    let response = settings_response(&status());
    assert!(response.starts_with("HTTP/1.1 200 OK\r\nContent-Type: application/json\r\n"));
    assert!(response.ends_with(&settings_document(&status())));
    assert_eq!(document_or_empty(None), "{}");
    assert!(changed_response().ends_with("\r\n\r\n{\"ok\":true}"));
}

#[test]
fn the_document_is_read_back() {
    let payload = read_payload(settings_document(&status()).as_bytes()).unwrap();
    assert_eq!(payload.ssid, Some(status().ssid));
    assert_eq!(payload.pass, Some(status().pass));
    assert_eq!(payload.server_url, Some(status().server_url));
    assert_eq!(payload.x, None);
}

#[test]
fn the_display_is_brought_back_to_how_it_was_set() {
    assert_eq!(
        restore_display(Some(0x36), Some(1), Some(2), Some(3)),
        vec![Effect::SetMadctl(0x36), Effect::SetGap(1, 2), Effect::SetRotation(3)]
    );
    assert_eq!(restore_display(None, Some(7), None, None), vec![Effect::SetGap(7, 0)]);
    assert_eq!(restore_display(None, None, Some(7), None), vec![Effect::SetGap(0, 7)]);
    assert_eq!(
        restore_display(None, None, None, Some(1)),
        vec![Effect::SetGap(80, 0), Effect::SetRotation(1)]
    );
    assert_eq!(restore_display(None, None, None, Some(2)), vec![Effect::SetRotation(2)]);
    assert_eq!(restore_display(None, None, None, None), vec![]);
}
