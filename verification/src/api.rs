//! What the set-up server does: the changes that a request brings, what they do to the device, and
//! the document that tells its settings.
use crate::http::{route, route_of, HttpRequest, Route, Target};
use crate::json::{
    empty_object, insert_member, integer_at, integer_member, no_members, object_members,
    object_text, only_scalars, read_document, read_members, text_at, text_member, write_object,
    Member, Scalar,
};
use crate::page::SETUP_PAGE;
use crate::response::{not_found_response, ok_response, response, CHANGED, HTML, JSON};
use crate::store::Key;
use crate::text::{
    all_white, append_hex_byte, chars_of, digit_char, hex_byte, is_white,
    law_prefix_can_be_completed, law_trim_takes_the_white_ends, occurs_at, parse, parse_unsigned,
    prefix_at, trim, trim_chars,
};
use vstd::prelude::*;
use vstd::utf8::encode_utf8;

verus! {

/// The 32-bit number that a number becomes when only its lowest 32 bits are kept.
pub open spec fn wrapped(n: int) -> int {
    (n + 0x8000_0000) % 0x1_0000_0000 - 0x8000_0000
}

/// Keeps the lowest 32 bits of a number.
pub fn wrap_to_i32(n: i64) -> (low: i32)
    ensures
        low == wrapped(n as int),
{
    let low: i32 = #[verifier::truncate] (n as i32);
    proof {
        let high = (n - low) / 0x1_0000_0000;
        assert((n as i32) as i64 == n - ((n - (n as i32) as i64) / 0x1_0000_0000)
            * 0x1_0000_0000) by (bit_vector);
        assert(n == low + high * 0x1_0000_0000);
        assert((n + 0x8000_0000) % 0x1_0000_0000 == low + 0x8000_0000) by (nonlinear_arith)
            requires
                n == low + high * 0x1_0000_0000,
                -0x8000_0000 <= low < 0x8000_0000,
        ;
    }
    low
}

/// One of the four ways in which the picture can be turned.
pub fn wrap_to_rotation(n: i64) -> (rotation: u8)
    ensures
        rotation == n as int % 4,
{
    let low: u8 = #[verifier::truncate] (n as u8);
    assert(((n as u8) as i64 % 4) == n % 4) by (bit_vector);
    low % 4
}

/// The byte that a text gives for the display's memory access control: a hexadecimal number of at
/// most 255, with `0x` before it or not, and white space around it all or not.
pub open spec fn madctl_in(text: Seq<char>) -> Option<int> {
    let trimmed = trim(text);
    parse(
        if occurs_at(trimmed, "0x"@, 0) {
            trimmed.skip(2)
        } else {
            trimmed
        },
        16,
        255,
    )
}

/// Reads the byte for the display's memory access control.
pub fn parse_madctl(text: &str) -> (parsed: Option<u8>)
    ensures
        match parsed {
            Some(value) => madctl_in(text@) == Some(value as int),
            None => madctl_in(text@) is None,
        },
{
    let chars = chars_of(text);
    let trimmed = trim_chars(chars.as_slice());
    let prefix = chars_of("0x");
    proof {
        reveal_strlit("0x");
    }
    let digits = if prefix_at(trimmed, prefix.as_slice(), 0) {
        assert(trimmed@.skip(2) =~= trimmed@.subrange(2, trimmed@.len() as int));
        vstd::slice::slice_subrange(trimmed, 2, trimmed.len())
    } else {
        trimmed
    };
    match parse_unsigned(digits, 16, 255) {
        Some(value) => Some(value as u8),
        None => None,
    }
}

/// The text that is shown for the byte.
pub open spec fn madctl_shown(value: u8) -> Seq<char> {
    "0x"@ + hex_byte(value, true)
}

/// Writes the byte as it is shown.
pub fn madctl_hex(value: u8) -> (text: String)
    ensures
        text@ == madctl_shown(value),
{
    let mut text = "0x".to_owned();
    append_hex_byte(&mut text, value, true);
    text
}

/// What the body of a request for a change says, of all that such a request can say.
#[derive(Debug, PartialEq, Eq)]
pub struct Payload {
    pub madctl: Option<String>,
    pub x: Option<i64>,
    pub y: Option<i64>,
    pub rot: Option<i64>,
    pub ssid: Option<String>,
    pub pass: Option<String>,
    pub server_url: Option<String>,
}

/// The model of a [`Payload`].
pub struct PayloadView {
    pub madctl: Option<Seq<char>>,
    pub x: Option<i64>,
    pub y: Option<i64>,
    pub rot: Option<i64>,
    pub ssid: Option<Seq<char>>,
    pub pass: Option<Seq<char>>,
    pub server_url: Option<Seq<char>>,
}

/// The characters of a text that may be absent.
pub open spec fn text_view(text: Option<String>) -> Option<Seq<char>> {
    match text {
        Some(t) => Some(t@),
        None => None,
    }
}

impl View for Payload {
    type V = PayloadView;

    open spec fn view(&self) -> PayloadView {
        PayloadView {
            madctl: text_view(self.madctl),
            x: self.x,
            y: self.y,
            rot: self.rot,
            ssid: text_view(self.ssid),
            pass: text_view(self.pass),
            server_url: text_view(self.server_url),
        }
    }
}

/// What a document with these members says.
pub open spec fn payload_of(members: Map<Seq<char>, Member>) -> PayloadView {
    PayloadView {
        madctl: text_at(members, "madctl"@),
        x: integer_at(members, "x"@),
        y: integer_at(members, "y"@),
        rot: integer_at(members, "rot"@),
        ssid: text_at(members, "ssid"@),
        pass: text_at(members, "pass"@),
        server_url: text_at(members, "server_url"@),
    }
}

/// What a body says, if it is a JSON text.
pub open spec fn payload_in(body: Seq<u8>) -> Option<PayloadView> {
    match read_members(body) {
        Some(members) => Some(payload_of(members)),
        None => None,
    }
}

/// Reads the body of a request for a change.
pub fn read_payload(body: &[u8]) -> (payload: Option<Payload>)
    ensures
        match payload {
            Some(p) => payload_in(body@) == Some(p@),
            None => payload_in(body@) is None,
        },
{
    match read_document(body) {
        Ok(document) => Some(
            Payload {
                madctl: text_member(&document, "madctl"),
                x: integer_member(&document, "x"),
                y: integer_member(&document, "y"),
                rot: integer_member(&document, "rot"),
                ssid: text_member(&document, "ssid"),
                pass: text_member(&document, "pass"),
                server_url: text_member(&document, "server_url"),
            },
        ),
        Err(_) => None,
    }
}

/// A change of the settings.
#[derive(Debug, PartialEq, Eq)]
pub enum Change {
    /// Nothing is changed.
    Nothing,
    /// The display's memory access control.
    Madctl(u8),
    /// How far the picture stands from the corner of the display.
    Gap(i32, i32),
    /// How the picture is turned.
    Rotation(u8),
    /// How the server is reached.
    Network {
        ssid: String,
        pass: String,
        server_url: String,
    },
}

/// The model of a [`Change`].
pub enum ChangeView {
    Nothing,
    Madctl(u8),
    Gap(i32, i32),
    Rotation(u8),
    Network { ssid: Seq<char>, pass: Seq<char>, server_url: Seq<char> },
}

impl View for Change {
    type V = ChangeView;

    open spec fn view(&self) -> ChangeView {
        match *self {
            Change::Nothing => ChangeView::Nothing,
            Change::Madctl(value) => ChangeView::Madctl(value),
            Change::Gap(x, y) => ChangeView::Gap(x, y),
            Change::Rotation(n) => ChangeView::Rotation(n),
            Change::Network { ssid, pass, server_url } => ChangeView::Network {
                ssid: ssid@,
                pass: pass@,
                server_url: server_url@,
            },
        }
    }
}

/// An absent text counts as empty.
pub open spec fn text_or_empty(text: Option<Seq<char>>) -> Seq<char> {
    match text {
        Some(t) => t,
        None => Seq::empty(),
    }
}

/// An absent number counts as zero.
pub open spec fn integer_or_zero(integer: Option<i64>) -> int {
    match integer {
        Some(n) => n as int,
        None => 0,
    }
}

/// The change that a request for a change brings. One for settings that the device does not know,
/// or with a body that is no JSON text or lacks what it takes, changes nothing.
pub open spec fn change_of(target: Target, payload: Option<PayloadView>) -> ChangeView {
    match (target, payload) {
        (Target::Madctl, Some(p)) => match p.madctl {
            Some(text) => match madctl_in(text) {
                Some(value) => ChangeView::Madctl(value as u8),
                None => ChangeView::Nothing,
            },
            None => ChangeView::Nothing,
        },
        (Target::Gap, Some(p)) => ChangeView::Gap(
            wrapped(integer_or_zero(p.x)) as i32,
            wrapped(integer_or_zero(p.y)) as i32,
        ),
        (Target::Rotate, Some(p)) => match p.rot {
            Some(n) => ChangeView::Rotation((n as int % 4) as u8),
            None => ChangeView::Nothing,
        },
        (Target::Settings, Some(p)) => ChangeView::Network {
            ssid: text_or_empty(p.ssid),
            pass: text_or_empty(p.pass),
            server_url: text_or_empty(p.server_url),
        },
        _ => ChangeView::Nothing,
    }
}

fn or_empty(text: Option<String>) -> (value: String)
    ensures
        value@ == text_or_empty(text_view(text)),
{
    match text {
        Some(t) => t,
        None => String::new(),
    }
}

fn or_zero(integer: Option<i64>) -> (value: i64)
    ensures
        value == integer_or_zero(integer),
{
    match integer {
        Some(n) => n,
        None => 0,
    }
}

/// Tells which change a request brings whose body says this.
pub fn change_from(target: Target, payload: Option<Payload>) -> (change: Change)
    ensures
        change@ == change_of(
            target,
            match payload {
                Some(p) => Some(p@),
                None => None,
            },
        ),
{
    match (target, payload) {
        (Target::Madctl, Some(p)) => match p.madctl {
            Some(text) => match parse_madctl(text.as_str()) {
                Some(value) => Change::Madctl(value),
                None => Change::Nothing,
            },
            None => Change::Nothing,
        },
        (Target::Gap, Some(p)) => Change::Gap(
            wrap_to_i32(or_zero(p.x)),
            wrap_to_i32(or_zero(p.y)),
        ),
        (Target::Rotate, Some(p)) => match p.rot {
            Some(n) => Change::Rotation(wrap_to_rotation(n)),
            None => Change::Nothing,
        },
        (Target::Settings, Some(p)) => Change::Network {
            ssid: or_empty(p.ssid),
            pass: or_empty(p.pass),
            server_url: or_empty(p.server_url),
        },
        _ => Change::Nothing,
    }
}

/// Something that is to be done to the device.
#[derive(Debug, PartialEq, Eq)]
pub enum Effect {
    /// Send the display its memory access control.
    SetMadctl(u8),
    /// Move the picture on the display.
    SetGap(i32, i32),
    /// Turn the picture on the display.
    SetRotation(u8),
    /// Keep a byte.
    StoreByte(Key, u8),
    /// Keep an integer.
    StoreInteger(Key, i32),
    /// Keep a text.
    StoreText(Key, String),
    /// Take over into the settings in memory how the server is reached.
    Remember {
        ssid: String,
        pass: String,
        server_url: String,
    },
    /// Draw the picture anew.
    Redraw,
}

/// The model of an [`Effect`].
pub enum EffectView {
    SetMadctl(u8),
    SetGap(i32, i32),
    SetRotation(u8),
    StoreByte(Key, u8),
    StoreInteger(Key, i32),
    StoreText(Key, Seq<char>),
    Remember { ssid: Seq<char>, pass: Seq<char>, server_url: Seq<char> },
    Redraw,
}

impl View for Effect {
    type V = EffectView;

    open spec fn view(&self) -> EffectView {
        match *self {
            Effect::SetMadctl(value) => EffectView::SetMadctl(value),
            Effect::SetGap(x, y) => EffectView::SetGap(x, y),
            Effect::SetRotation(n) => EffectView::SetRotation(n),
            Effect::StoreByte(key, value) => EffectView::StoreByte(key, value),
            Effect::StoreInteger(key, value) => EffectView::StoreInteger(key, value),
            Effect::StoreText(key, value) => EffectView::StoreText(key, value@),
            Effect::Remember { ssid, pass, server_url } => EffectView::Remember {
                ssid: ssid@,
                pass: pass@,
                server_url: server_url@,
            },
            Effect::Redraw => EffectView::Redraw,
        }
    }
}

/// The models of effects in a row.
pub open spec fn effect_views(effects: Seq<Effect>) -> Seq<EffectView> {
    effects.map_values(|e: Effect| e@)
}

/// What a change does, one thing after the other. A picture that is turned by one step, while no
/// gap is stored, is also moved, so that it can be seen.
pub open spec fn effects_of(
    change: ChangeView,
    gap_x: Option<i32>,
    gap_y: Option<i32>,
) -> Seq<EffectView> {
    match change {
        ChangeView::Nothing => seq![],
        ChangeView::Madctl(value) => seq![
            EffectView::SetMadctl(value),
            EffectView::StoreByte(Key::Madctl, value),
        ],
        ChangeView::Gap(x, y) => seq![
            EffectView::SetGap(x, y),
            EffectView::StoreInteger(Key::GapX, x),
            EffectView::StoreInteger(Key::GapY, y),
        ],
        ChangeView::Rotation(n) => if n == 1 && gap_x is None && gap_y is None {
            seq![
                EffectView::SetRotation(n),
                EffectView::StoreByte(Key::DispRot, n),
                EffectView::StoreInteger(Key::GapX, 80),
                EffectView::StoreInteger(Key::GapY, 5),
                EffectView::SetGap(80, 0),
                EffectView::Redraw,
            ]
        } else {
            seq![
                EffectView::SetRotation(n),
                EffectView::StoreByte(Key::DispRot, n),
                EffectView::Redraw,
            ]
        },
        ChangeView::Network { ssid, pass, server_url } => seq![
            EffectView::StoreText(Key::Ssid, ssid),
            EffectView::StoreText(Key::Pass, pass),
            EffectView::StoreText(Key::ServerUrl, server_url),
            EffectView::Remember { ssid, pass, server_url },
        ],
    }
}

/// Tells what a change does. The two gaps are those that are stored.
pub fn effects(change: Change, gap_x: Option<i32>, gap_y: Option<i32>) -> (effects: Vec<Effect>)
    ensures
        effect_views(effects@) == effects_of(change@, gap_x, gap_y),
{
    let mut effects: Vec<Effect> = Vec::new();
    match change {
        Change::Nothing => {},
        Change::Madctl(value) => {
            effects.push(Effect::SetMadctl(value));
            effects.push(Effect::StoreByte(Key::Madctl, value));
        },
        Change::Gap(x, y) => {
            effects.push(Effect::SetGap(x, y));
            effects.push(Effect::StoreInteger(Key::GapX, x));
            effects.push(Effect::StoreInteger(Key::GapY, y));
        },
        Change::Rotation(n) => {
            effects.push(Effect::SetRotation(n));
            effects.push(Effect::StoreByte(Key::DispRot, n));
            if gap_x.is_none() && gap_y.is_none() && n == 1 {
                effects.push(Effect::StoreInteger(Key::GapX, 80));
                effects.push(Effect::StoreInteger(Key::GapY, 5));
                effects.push(Effect::SetGap(80, 0));
            }
            effects.push(Effect::Redraw);
        },
        Change::Network { ssid, pass, server_url } => {
            effects.push(Effect::StoreText(Key::Ssid, ssid.clone()));
            effects.push(Effect::StoreText(Key::Pass, pass.clone()));
            effects.push(Effect::StoreText(Key::ServerUrl, server_url.clone()));
            effects.push(Effect::Remember { ssid, pass, server_url });
        },
    }
    assert(effect_views(effects@) =~= effects_of(change@, gap_x, gap_y));
    effects
}

/// What the device tells of itself.
#[derive(Debug, PartialEq, Eq)]
pub struct Status {
    pub ssid: String,
    pub pass: String,
    pub server_url: String,
    pub madctl: Option<u8>,
    pub gap_x: Option<i32>,
    pub gap_y: Option<i32>,
    pub disp_rot: u8,
}

/// The model of a [`Status`].
pub struct StatusView {
    pub ssid: Seq<char>,
    pub pass: Seq<char>,
    pub server_url: Seq<char>,
    pub madctl: Option<u8>,
    pub gap_x: Option<i32>,
    pub gap_y: Option<i32>,
    pub disp_rot: u8,
}

impl View for Status {
    type V = StatusView;

    open spec fn view(&self) -> StatusView {
        StatusView {
            ssid: self.ssid@,
            pass: self.pass@,
            server_url: self.server_url@,
            madctl: self.madctl,
            gap_x: self.gap_x,
            gap_y: self.gap_y,
            disp_rot: self.disp_rot,
        }
    }
}

/// A gap that is not stored is told as zero.
pub open spec fn gap_shown(gap: Option<i32>) -> i64 {
    match gap {
        Some(n) => n as i64,
        None => 0,
    }
}

/// The members of the document that tells the settings.
pub open spec fn status_members(status: StatusView) -> Map<Seq<char>, Member> {
    no_members().insert("ssid"@, Member::Text(status.ssid)).insert(
        "pass"@,
        Member::Text(status.pass),
    ).insert("server_url"@, Member::Text(status.server_url)).insert(
        "madctl"@,
        match status.madctl {
            Some(value) => Member::Integer(value as i64),
            None => Member::Null,
        },
    ).insert(
        "madctl_hex"@,
        match status.madctl {
            Some(value) => Member::Text(madctl_shown(value)),
            None => Member::Null,
        },
    ).insert("gap_x"@, Member::Integer(gap_shown(status.gap_x))).insert(
        "gap_y"@,
        Member::Integer(gap_shown(status.gap_y)),
    ).insert("disp_rot"@, Member::Integer(status.disp_rot as i64))
}

/// The text of the document that tells the settings.
pub open spec fn status_text(status: StatusView) -> Seq<char> {
    object_text(status_members(status))
}

/// A document as it was written, or an empty one where that failed.
pub fn document_or_empty(written: Option<String>) -> (text: String)
    ensures
        text@ == match written {
            Some(t) => t@,
            None => "{}"@,
        },
{
    match written {
        Some(text) => text,
        None => "{}".to_owned(),
    }
}

fn gap_or_zero(gap: Option<i32>) -> (value: i64)
    ensures
        value == gap_shown(gap),
{
    match gap {
        Some(n) => n as i64,
        None => 0,
    }
}

/// Writes the document that tells the settings.
pub fn settings_document(status: &Status) -> (text: String)
    ensures
        text@ == status_text(status@),
        // Whoever reads the document finds the settings in it.
        read_members(encode_utf8(text@)) == Some(status_members(status@)),
{
    let mut object = empty_object();
    insert_member(&mut object, "ssid", Scalar::Text(status.ssid.clone()));
    insert_member(&mut object, "pass", Scalar::Text(status.pass.clone()));
    insert_member(&mut object, "server_url", Scalar::Text(status.server_url.clone()));
    let (madctl, shown) = match status.madctl {
        Some(value) => (Scalar::Integer(value as i64), Scalar::Text(madctl_hex(value))),
        None => (Scalar::Null, Scalar::Null),
    };
    insert_member(&mut object, "madctl", madctl);
    insert_member(&mut object, "madctl_hex", shown);
    insert_member(&mut object, "gap_x", Scalar::Integer(gap_or_zero(status.gap_x)));
    insert_member(&mut object, "gap_y", Scalar::Integer(gap_or_zero(status.gap_y)));
    insert_member(&mut object, "disp_rot", Scalar::Integer(status.disp_rot as i64));
    assert(object_members(object) == status_members(status@));
    assert(only_scalars(object_members(object)));
    document_or_empty(write_object(&object).ok())
}

/// What the server does with a request.
#[derive(Debug, PartialEq, Eq)]
pub enum Dispatch {
    /// Send this.
    Respond(String),
    /// Send the document that tells the settings.
    TellSettings,
    /// Make a change, then send [`changed_response`].
    Apply(Change),
}

/// The model of a [`Dispatch`].
pub enum DispatchView {
    Respond(Seq<char>),
    TellSettings,
    Apply(ChangeView),
}

impl View for Dispatch {
    type V = DispatchView;

    open spec fn view(&self) -> DispatchView {
        match *self {
            Dispatch::Respond(text) => DispatchView::Respond(text@),
            Dispatch::TellSettings => DispatchView::TellSettings,
            Dispatch::Apply(change) => DispatchView::Apply(change@),
        }
    }
}

/// What the server does with a request for `route` whose body says `payload`.
pub open spec fn dispatch_of(route: Route, payload: Option<PayloadView>) -> DispatchView {
    match route {
        Route::SetupPage => DispatchView::Respond(response(HTML@, SETUP_PAGE@)),
        Route::ReadSettings => DispatchView::TellSettings,
        Route::Change(target) => DispatchView::Apply(change_of(target, payload)),
        Route::NotFound => DispatchView::Respond(
            "HTTP/1.1 404 Not Found\r\nContent-Length: 0\r\n\r\n"@,
        ),
    }
}

/// Tells what the server does with a request.
pub fn dispatch(request: &HttpRequest) -> (dispatch: Dispatch)
    ensures
        dispatch@ == dispatch_of(
            route_of(request.head.method@, request.head.path@),
            payload_in(request.body@),
        ),
{
    match route(request.head.method.as_str(), request.head.path.as_str()) {
        Route::SetupPage => Dispatch::Respond(ok_response(HTML, SETUP_PAGE)),
        Route::ReadSettings => Dispatch::TellSettings,
        Route::Change(target) => Dispatch::Apply(
            change_from(target, read_payload(request.body.as_slice())),
        ),
        Route::NotFound => Dispatch::Respond(not_found_response().to_owned()),
    }
}

/// Frames the document that tells the settings.
pub fn settings_response(status: &Status) -> (text: String)
    ensures
        text@ == response(JSON@, status_text(status@)),
{
    let document = settings_document(status);
    ok_response(JSON, document.as_str())
}

/// The response to a change, whatever it was.
pub fn changed_response() -> (text: String)
    ensures
        text@ == response(JSON@, CHANGED@),
{
    ok_response(JSON, CHANGED)
}

/// A number keeps its lowest 32 bits: what it becomes fits 32 bits with a sign and differs from it
/// by a multiple of 2 to the 32nd. A number that fits stays as it is.
pub proof fn law_wrapped_keeps_the_lowest_bits(n: int)
    ensures
        -0x8000_0000 <= wrapped(n) < 0x8000_0000,
        (n - wrapped(n)) % 0x1_0000_0000 == 0,
        -0x8000_0000 <= n < 0x8000_0000 ==> wrapped(n) == n,
{
}

/// The byte for the display's memory access control is the hexadecimal number in the text, with
/// `0x` before it or not and with white space around it or not.
pub proof fn law_madctl_is_the_number_in_the_text(
    before: Seq<char>,
    digits: Seq<char>,
    after: Seq<char>,
)
    requires
        all_white(before),
        all_white(after),
        digits.len() > 0 ==> !is_white(digits.last()),
    ensures
        madctl_in(before + seq!['0', 'x'] + digits + after) == parse(digits, 16, 255),
        (digits.len() > 0 ==> !is_white(digits[0])) && !(digits.len() >= 2 && digits[0] == '0'
            && digits[1] == 'x') ==> madctl_in(before + digits + after) == parse(digits, 16, 255),
{
    reveal_strlit("0x");
    assert("0x"@ =~= seq!['0', 'x']);
    let core = seq!['0', 'x'] + digits;
    assert(before + seq!['0', 'x'] + digits + after =~= before + core + after);
    assert(core[0] == '0');
    assert(core.last() == if digits.len() > 0 {
        digits.last()
    } else {
        'x'
    });
    law_trim_takes_the_white_ends(before, core, after);
    law_prefix_can_be_completed(core, "0x"@);
    assert(occurs_at("0x"@ + digits, "0x"@, 0));
    assert(core.skip(2) =~= digits);
    if digits.len() > 0 ==> !is_white(digits[0]) {
        law_trim_takes_the_white_ends(before, digits, after);
    }
    if occurs_at(digits, "0x"@, 0) {
        assert(digits.subrange(0, 2)[0] == digits[0] && digits.subrange(0, 2)[1] == digits[1]);
    }
}

/// What a body says is what stands under the keys of its document, as text or as integer.
pub proof fn law_payload_is_what_the_document_says(members: Map<Seq<char>, Member>)
    ensures
        ({
            let p = payload_of(members);
            let text = |key: Seq<char>, found: Option<Seq<char>>|
                found == if members.dom().contains(key) && members[key] is Text {
                    Some(members[key]->Text_0)
                } else {
                    None
                };
            let integer = |key: Seq<char>, found: Option<i64>|
                found == if members.dom().contains(key) && members[key] is Integer {
                    Some(members[key]->Integer_0)
                } else {
                    None
                };
            &&& text("madctl"@, p.madctl)
            &&& integer("x"@, p.x)
            &&& integer("y"@, p.y)
            &&& integer("rot"@, p.rot)
            &&& text("ssid"@, p.ssid)
            &&& text("pass"@, p.pass)
            &&& text("server_url"@, p.server_url)
        }),
{
}

/// A body that is a JSON text says what its members say; any other says nothing.
pub proof fn law_only_json_is_read(body: Seq<u8>)
    ensures
        payload_in(body) is Some <==> read_members(body) is Some,
        read_members(body) matches Some(members) ==> payload_in(body) == Some(payload_of(members)),
{
}

/// The texts that are sent for the network are the change, letter for letter and however long, and
/// one that is left out is empty.
pub proof fn law_sent_network_is_the_change(
    p: PayloadView,
    ssid: Seq<char>,
    pass: Seq<char>,
    server_url: Seq<char>,
)
    requires
        p.ssid == Some(ssid) || (p.ssid is None && ssid.len() == 0),
        p.pass == Some(pass) || (p.pass is None && pass.len() == 0),
        p.server_url == Some(server_url) || (p.server_url is None && server_url.len() == 0),
    ensures
        change_of(Target::Settings, Some(p)) == (ChangeView::Network { ssid, pass, server_url }),
{
    assert(text_or_empty(p.ssid) =~= ssid);
    assert(text_or_empty(p.pass) =~= pass);
    assert(text_or_empty(p.server_url) =~= server_url);
}

/// The numbers that are sent for the gap are the change where they fit 32 bits; larger ones lose a
/// multiple of 2 to the 32nd, and one that is left out is zero.
pub proof fn law_sent_gap_is_the_change(p: PayloadView, x: i64, y: i64)
    requires
        p.x == Some(x) || (p.x is None && x == 0),
        p.y == Some(y) || (p.y is None && y == 0),
    ensures
        change_of(Target::Gap, Some(p)) matches ChangeView::Gap(gap_x, gap_y) && {
            &&& (x - gap_x) % 0x1_0000_0000 == 0
            &&& (y - gap_y) % 0x1_0000_0000 == 0
            &&& i32::MIN <= x <= i32::MAX ==> gap_x == x
            &&& i32::MIN <= y <= i32::MAX ==> gap_y == y
        },
{
    law_wrapped_keeps_the_lowest_bits(x as int);
    law_wrapped_keeps_the_lowest_bits(y as int);
}

/// A number that is sent for the rotation is the change, as one of four; without one there is none.
pub proof fn law_sent_rotation_is_the_change(p: PayloadView)
    ensures
        match p.rot {
            Some(r) => change_of(Target::Rotate, Some(p)) matches ChangeView::Rotation(n) && n < 4
                && (r - n) % 4 == 0,
            None => change_of(Target::Rotate, Some(p)) == ChangeView::Nothing,
        },
{
}

/// A text that is sent for the memory access control is the change where it gives a byte, and
/// otherwise there is none.
pub proof fn law_sent_madctl_is_the_change(p: PayloadView, value: u8)
    ensures
        p.madctl matches Some(text) && madctl_in(text) == Some(value as int) ==> change_of(
            Target::Madctl,
            Some(p),
        ) == ChangeView::Madctl(value),
        (p.madctl is None || madctl_in(p.madctl->0) is None) ==> change_of(Target::Madctl, Some(p))
            == ChangeView::Nothing,
        p.madctl matches Some(text) && madctl_in(text) is Some ==> change_of(
            Target::Madctl,
            Some(p),
        ) is Madctl,
{
}

/// Without a body that says anything, and for what the device does not know, there is no change.
pub proof fn law_nothing_else_is_a_change(target: Target, p: Option<PayloadView>)
    ensures
        change_of(target, None) == ChangeView::Nothing,
        change_of(Target::Unknown, p) == ChangeView::Nothing,
{
}

/// What each change does to the device, one thing after the other. The values are those of the
/// change, on the display and in storage alike, whatever they are; the gap that is stored decides
/// nothing but whether a picture that is turned by one step is moved too.
pub proof fn law_effects_carry_the_values(
    value: u8,
    x: i32,
    y: i32,
    n: u8,
    a: Seq<char>,
    b: Seq<char>,
    c: Seq<char>,
    gap_x: Option<i32>,
    gap_y: Option<i32>,
)
    ensures
        effects_of(ChangeView::Nothing, gap_x, gap_y).len() == 0,
        effects_of(ChangeView::Madctl(value), gap_x, gap_y) == seq![
            EffectView::SetMadctl(value),
            EffectView::StoreByte(Key::Madctl, value),
        ],
        effects_of(ChangeView::Gap(x, y), gap_x, gap_y) == seq![
            EffectView::SetGap(x, y),
            EffectView::StoreInteger(Key::GapX, x),
            EffectView::StoreInteger(Key::GapY, y),
        ],
        n != 1 || gap_x is Some || gap_y is Some ==> effects_of(
            ChangeView::Rotation(n),
            gap_x,
            gap_y,
        ) == seq![
            EffectView::SetRotation(n),
            EffectView::StoreByte(Key::DispRot, n),
            EffectView::Redraw,
        ],
        effects_of(ChangeView::Rotation(1), None, None) == seq![
            EffectView::SetRotation(1),
            EffectView::StoreByte(Key::DispRot, 1),
            EffectView::StoreInteger(Key::GapX, 80),
            EffectView::StoreInteger(Key::GapY, 5),
            EffectView::SetGap(80, 0),
            EffectView::Redraw,
        ],
        effects_of(ChangeView::Network { ssid: a, pass: b, server_url: c }, gap_x, gap_y) == seq![
            EffectView::StoreText(Key::Ssid, a),
            EffectView::StoreText(Key::Pass, b),
            EffectView::StoreText(Key::ServerUrl, c),
            EffectView::Remember { ssid: a, pass: b, server_url: c },
        ],
{
}

/// The document that tells the settings has these eight members and no other: the texts as they
/// are, the byte as a number and as two capital hexadecimal digits behind `0x`, and for a gap that
/// is not stored a zero.
pub proof fn law_document_has_eight_members(status: StatusView, key: Seq<char>)
    ensures
        ({
            let m = status_members(status);
            &&& m.dom().contains(key) <==> (key == "ssid"@ || key == "pass"@ || key
                == "server_url"@ || key == "madctl"@ || key == "madctl_hex"@ || key == "gap_x"@
                || key == "gap_y"@ || key == "disp_rot"@)
            &&& m["ssid"@] == Member::Text(status.ssid)
            &&& m["pass"@] == Member::Text(status.pass)
            &&& m["server_url"@] == Member::Text(status.server_url)
            &&& match status.madctl {
                Some(value) => {
                    &&& m["madctl"@] == Member::Integer(value as i64)
                    &&& m["madctl_hex"@] == Member::Text(
                        seq![
                            '0',
                            'x',
                            digit_char(value as int / 16, true),
                            digit_char(value as int % 16, true),
                        ],
                    )
                },
                None => m["madctl"@] == Member::Null && m["madctl_hex"@] == Member::Null,
            }
            &&& m["gap_x"@] == Member::Integer(
                match status.gap_x {
                    Some(x) => x as i64,
                    None => 0,
                },
            )
            &&& m["gap_y"@] == Member::Integer(
                match status.gap_y {
                    Some(y) => y as i64,
                    None => 0,
                },
            )
            &&& m["disp_rot"@] == Member::Integer(status.disp_rot as i64)
        }),
{
    reveal_strlit("ssid");
    reveal_strlit("pass");
    reveal_strlit("server_url");
    reveal_strlit("madctl");
    reveal_strlit("madctl_hex");
    reveal_strlit("gap_x");
    reveal_strlit("gap_y");
    reveal_strlit("disp_rot");
    reveal_strlit("0x");
    assert("ssid"@.len() == 4 && "pass"@.len() == 4 && "ssid"@[0] != "pass"@[0]);
    assert("server_url"@.len() == 10 && "madctl_hex"@.len() == 10 && "server_url"@[0]
        != "madctl_hex"@[0]);
    assert("madctl"@.len() == 6 && "disp_rot"@.len() == 8);
    assert("gap_x"@.len() == 5 && "gap_y"@.len() == 5 && "gap_x"@[4] != "gap_y"@[4]);
    if let Some(value) = status.madctl {
        assert(madctl_shown(value) =~= seq![
            '0',
            'x',
            digit_char(value as int / 16, true),
            digit_char(value as int % 16, true),
        ]);
    }
}

/// The text of the document that tells the settings is what is written for these members.
pub proof fn law_document_is_written_from_its_members(status: StatusView)
    ensures
        status_text(status) == object_text(status_members(status)),
{
}

/// The server answers a request for its page with the page, one for the settings with the settings,
/// one for a change by making it, and any other with a refusal.
pub proof fn law_requests_are_answered(payload: Option<PayloadView>, target: Target)
    ensures
        dispatch_of(Route::SetupPage, payload) == DispatchView::Respond(
            response("text/html; charset=utf-8"@, SETUP_PAGE@),
        ),
        dispatch_of(Route::ReadSettings, payload) == DispatchView::TellSettings,
        dispatch_of(Route::Change(target), payload) == DispatchView::Apply(
            change_of(target, payload),
        ),
        dispatch_of(Route::NotFound, payload) == DispatchView::Respond(
            "HTTP/1.1 404 Not Found\r\nContent-Length: 0\r\n\r\n"@,
        ),
{
}

} // verus!
