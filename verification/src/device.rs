//! The device as the set-up server changes it: what is stored, what the display shows, and what a
//! restart brings back.
use crate::api::{
    change_of, effect_views, effects_of, gap_shown, integer_or_zero, law_sent_gap_is_the_change,
    law_sent_madctl_is_the_change, law_sent_network_is_the_change, law_sent_rotation_is_the_change,
    madctl_in, madctl_shown, status_members, text_or_empty, wrapped, ChangeView, Effect,
    EffectView, PayloadView, StatusView,
};
use crate::http::Target;
use crate::json::{integer_at, text_at};
use crate::setting::{
    needs_set_up, stored_setting, DefaultsView, ReplyView, Request, TEXT_CAPACITY,
};
use crate::store::Key;
use crate::text::{hex_byte, is_white, law_hex_byte_reads_back, trim, white_end, white_start};
use vstd::prelude::*;
use vstd::utf8::encode_utf8;

verus! {

/// The state of the device that the set-up server reads and changes.
pub struct Device {
    /// How the server is reached, as held in memory.
    pub ssid: Seq<char>,
    pub pass: Seq<char>,
    pub server_url: Seq<char>,
    /// What is stored.
    pub texts: Map<Key, Seq<char>>,
    pub bytes: Map<Key, u8>,
    pub integers: Map<Key, i32>,
    /// What the display was last told; nothing where it was told nothing since it was switched on.
    pub madctl: Option<u8>,
    pub gap: Option<(i32, i32)>,
    pub rotation: u8,
    /// How often a new picture was asked for.
    pub redraws: nat,
}

/// The value under a key, if there is one.
pub open spec fn stored<T>(values: Map<Key, T>, key: Key) -> Option<T> {
    if values.dom().contains(key) {
        Some(values[key])
    } else {
        None
    }
}

impl Device {
    /// The device after something was done to it.
    pub open spec fn perform(self, effect: EffectView) -> Device {
        match effect {
            EffectView::SetMadctl(value) => Device { madctl: Some(value), ..self },
            EffectView::SetGap(x, y) => Device { gap: Some((x, y)), ..self },
            EffectView::SetRotation(n) => Device { rotation: n, ..self },
            EffectView::StoreByte(key, value) => Device {
                bytes: self.bytes.insert(key, value),
                ..self
            },
            EffectView::StoreInteger(key, value) => Device {
                integers: self.integers.insert(key, value),
                ..self
            },
            EffectView::StoreText(key, value) => Device {
                texts: self.texts.insert(key, value),
                ..self
            },
            EffectView::Remember { ssid, pass, server_url } => Device {
                ssid,
                pass,
                server_url,
                ..self
            },
            EffectView::Redraw => Device { redraws: self.redraws + 1, ..self },
        }
    }

    /// The device after several things were done to it, in order.
    pub open spec fn perform_all(self, effects: Seq<EffectView>) -> Device
        decreases effects.len(),
    {
        if effects.len() == 0 {
            self
        } else {
            self.perform(effects[0]).perform_all(effects.drop_first())
        }
    }

    /// The device after a change.
    pub open spec fn changed(self, change: ChangeView) -> Device {
        self.perform_all(
            effects_of(
                change,
                stored(self.integers, Key::GapX),
                stored(self.integers, Key::GapY),
            ),
        )
    }

    /// What the device tells of itself.
    pub open spec fn status(self) -> StatusView {
        StatusView {
            ssid: self.ssid,
            pass: self.pass,
            server_url: self.server_url,
            madctl: stored(self.bytes, Key::Madctl),
            gap_x: stored(self.integers, Key::GapX),
            gap_y: stored(self.integers, Key::GapY),
            disp_rot: self.rotation,
        }
    }

    /// The device after it was switched off and on, and the display was restored.
    pub open spec fn restarted(self) -> Device {
        let off = Device { madctl: None, gap: None, rotation: 0, redraws: 0, ..self };
        off.perform_all(
            restore_effects(
                stored(self.bytes, Key::Madctl),
                stored(self.integers, Key::GapX),
                stored(self.integers, Key::GapY),
                stored(self.bytes, Key::DispRot),
            ),
        )
    }
}

/// What brings the display back to how it was set: what is stored is sent to it; where no gap is
/// stored but the picture is turned by one step, a gap with which it can be seen.
pub open spec fn restore_effects(
    madctl: Option<u8>,
    gap_x: Option<i32>,
    gap_y: Option<i32>,
    rotation: Option<u8>,
) -> Seq<EffectView> {
    let first = match madctl {
        Some(value) => seq![EffectView::SetMadctl(value)],
        None => seq![],
    };
    let second = if gap_x is Some || gap_y is Some {
        seq![EffectView::SetGap(gap_shown(gap_x) as i32, gap_shown(gap_y) as i32)]
    } else if rotation == Some(1u8) {
        seq![EffectView::SetGap(80, 0)]
    } else {
        seq![]
    };
    let third = match rotation {
        Some(n) => seq![EffectView::SetRotation(n)],
        None => seq![],
    };
    first + second + third
}

/// Tells what brings the display back to how it was set, from what is stored.
pub fn restore_display(
    madctl: Option<u8>,
    gap_x: Option<i32>,
    gap_y: Option<i32>,
    rotation: Option<u8>,
) -> (effects: Vec<Effect>)
    ensures
        effect_views(effects@) == restore_effects(madctl, gap_x, gap_y, rotation),
{
    let mut effects: Vec<Effect> = Vec::new();
    if let Some(value) = madctl {
        effects.push(Effect::SetMadctl(value));
    }
    match (gap_x, gap_y) {
        (None, None) => {
            if let Some(n) = rotation {
                if n == 1 {
                    effects.push(Effect::SetGap(80, 0));
                }
            }
        },
        (Some(x), None) => effects.push(Effect::SetGap(x, 0)),
        (None, Some(y)) => effects.push(Effect::SetGap(0, y)),
        (Some(x), Some(y)) => effects.push(Effect::SetGap(x, y)),
    }
    if let Some(n) = rotation {
        effects.push(Effect::SetRotation(n));
    }
    assert(effect_views(effects@) =~= restore_effects(madctl, gap_x, gap_y, rotation));
    effects
}

proof fn lemma_perform_some(device: Device, effects: Seq<EffectView>)
    ensures
        effects.len() == 0 ==> device.perform_all(effects) == device,
        effects.len() == 1 ==> device.perform_all(effects) == device.perform(effects[0]),
        effects.len() == 2 ==> device.perform_all(effects) == device.perform(effects[0]).perform(
            effects[1],
        ),
        effects.len() == 3 ==> device.perform_all(effects) == device.perform(effects[0]).perform(
            effects[1],
        ).perform(effects[2]),
        effects.len() == 4 ==> device.perform_all(effects) == device.perform(effects[0]).perform(
            effects[1],
        ).perform(effects[2]).perform(effects[3]),
        effects.len() == 6 ==> device.perform_all(effects) == device.perform(effects[0]).perform(
            effects[1],
        ).perform(effects[2]).perform(effects[3]).perform(effects[4]).perform(effects[5]),
{
    reveal_with_fuel(Device::perform_all, 7);
}

/// What a change leaves behind.
pub open spec fn outcome(device: Device, change: ChangeView) -> Device {
    match change {
        ChangeView::Nothing => device,
        ChangeView::Madctl(value) => Device {
            madctl: Some(value),
            bytes: device.bytes.insert(Key::Madctl, value),
            ..device
        },
        ChangeView::Gap(x, y) => Device {
            gap: Some((x, y)),
            integers: device.integers.insert(Key::GapX, x).insert(Key::GapY, y),
            ..device
        },
        ChangeView::Rotation(n) => {
            let turned = Device {
                rotation: n,
                bytes: device.bytes.insert(Key::DispRot, n),
                redraws: device.redraws + 1,
                ..device
            };
            if n == 1 && stored(device.integers, Key::GapX) is None && stored(
                device.integers,
                Key::GapY,
            ) is None {
                Device {
                    gap: Some((80, 0)),
                    integers: device.integers.insert(Key::GapX, 80).insert(Key::GapY, 5),
                    ..turned
                }
            } else {
                turned
            }
        },
        ChangeView::Network { ssid, pass, server_url } => Device {
            ssid,
            pass,
            server_url,
            texts: device.texts.insert(Key::Ssid, ssid).insert(Key::Pass, pass).insert(
                Key::ServerUrl,
                server_url,
            ),
            ..device
        },
    }
}

/// A change leaves behind what it sets, in memory, in storage and on the display, and touches
/// nothing else. In particular, a picture that is turned keeps the gap that was stored.
pub proof fn law_change_outcome(device: Device, change: ChangeView)
    ensures
        device.changed(change) == outcome(device, change),
{
    lemma_perform_some(
        device,
        effects_of(
            change,
            stored(device.integers, Key::GapX),
            stored(device.integers, Key::GapY),
        ),
    );
}

/// A request for a change that the device does not know, or whose body is no JSON text, leaves
/// the device as it is.
pub proof fn law_unknown_change_changes_nothing(
    device: Device,
    target: Target,
    payload: Option<PayloadView>,
)
    requires
        target == Target::Unknown || payload is None,
    ensures
        device.changed(change_of(target, payload)) == device,
{
    law_change_outcome(device, change_of(target, payload));
}

proof fn lemma_distinct_members()
    ensures
        "ssid"@ != "pass"@,
        "ssid"@.len() == 4,
        "pass"@.len() == 4,
        "server_url"@.len() == 10,
        "madctl"@.len() == 6,
        "madctl_hex"@.len() == 10,
        "server_url"@ != "madctl_hex"@,
        "gap_x"@.len() == 5,
        "gap_y"@.len() == 5,
        "gap_x"@ != "gap_y"@,
        "disp_rot"@.len() == 8,
{
    reveal_strlit("ssid");
    reveal_strlit("pass");
    reveal_strlit("server_url");
    reveal_strlit("madctl");
    reveal_strlit("madctl_hex");
    reveal_strlit("gap_x");
    reveal_strlit("gap_y");
    reveal_strlit("disp_rot");
    assert("ssid"@[0] != "pass"@[0]);
    assert("server_url"@[0] != "madctl_hex"@[0]);
    assert("gap_x"@[4] != "gap_y"@[4]);
}

/// The document that tells the settings has each of them under its own key.
pub proof fn law_document_tells_the_status(status: StatusView)
    ensures
        ({
            let m = status_members(status);
            &&& text_at(m, "ssid"@) == Some(status.ssid)
            &&& text_at(m, "pass"@) == Some(status.pass)
            &&& text_at(m, "server_url"@) == Some(status.server_url)
            &&& integer_at(m, "madctl"@) == match status.madctl {
                Some(value) => Some(value as i64),
                None => None,
            }
            &&& text_at(m, "madctl_hex"@) == match status.madctl {
                Some(value) => Some(madctl_shown(value)),
                None => None,
            }
            &&& integer_at(m, "gap_x"@) == Some(gap_shown(status.gap_x))
            &&& integer_at(m, "gap_y"@) == Some(gap_shown(status.gap_y))
            &&& integer_at(m, "disp_rot"@) == Some(status.disp_rot as i64)
        }),
{
    lemma_distinct_members();
}

/// A network that was saved over the set-up server is what it tells afterwards.
pub proof fn law_saved_network_is_told(device: Device, payload: PayloadView)
    ensures
        ({
            let m = status_members(
                device.changed(change_of(Target::Settings, Some(payload))).status(),
            );
            &&& text_at(m, "ssid"@) == Some(text_or_empty(payload.ssid))
            &&& text_at(m, "pass"@) == Some(text_or_empty(payload.pass))
            &&& text_at(m, "server_url"@) == Some(text_or_empty(payload.server_url))
        }),
{
    let change = change_of(Target::Settings, Some(payload));
    law_change_outcome(device, change);
    law_document_tells_the_status(device.changed(change).status());
}

/// A gap that was saved over the set-up server is what it tells afterwards: of each number the
/// lowest 32 bits, and zero for one that was left out.
pub proof fn law_saved_gap_is_told(device: Device, payload: PayloadView)
    ensures
        ({
            let m = status_members(device.changed(change_of(Target::Gap, Some(payload))).status());
            &&& integer_at(m, "gap_x"@) == Some(wrapped(integer_or_zero(payload.x)) as i64)
            &&& integer_at(m, "gap_y"@) == Some(wrapped(integer_or_zero(payload.y)) as i64)
        }),
{
    let change = change_of(Target::Gap, Some(payload));
    law_change_outcome(device, change);
    law_document_tells_the_status(device.changed(change).status());
}

/// A rotation that was saved over the set-up server is what it tells afterwards, as one of four.
pub proof fn law_saved_rotation_is_told(device: Device, payload: PayloadView)
    requires
        payload.rot is Some,
    ensures
        ({
            let status = device.changed(change_of(Target::Rotate, Some(payload))).status();
            &&& status.disp_rot < 4
            &&& (payload.rot->0 - status.disp_rot) % 4 == 0
            &&& integer_at(status_members(status), "disp_rot"@) == Some(status.disp_rot as i64)
        }),
{
    let change = change_of(Target::Rotate, Some(payload));
    law_change_outcome(device, change);
    law_document_tells_the_status(device.changed(change).status());
}

proof fn lemma_madctl_reads_back(value: u8)
    ensures
        madctl_in(madctl_shown(value)) == Some(value as int),
{
    reveal_strlit("0x");
    let text = madctl_shown(value);
    let digits = hex_byte(value, true);
    assert(text.len() == 4);
    assert(text[0] == '0' && text[1] == 'x' && text[2] == digits[0] && text[3] == digits[1]);
    assert(!is_white(text[0]));
    assert(!is_white(text[3]));
    assert(white_end(text, 0) == 0);
    assert(white_start(text, 4) == 4);
    assert(text.subrange(0, 4) =~= text);
    assert(trim(text) == text);
    assert(text.subrange(0, 2) =~= "0x"@);
    assert(text.skip(2) =~= digits);
    law_hex_byte_reads_back(value, true);
}

/// A byte for the display's memory access control that was saved over the set-up server is what it
/// tells afterwards, and in a form that gives the same byte when it is sent back.
pub proof fn law_saved_madctl_is_told(device: Device, payload: PayloadView, value: u8)
    requires
        payload.madctl is Some,
        madctl_in(payload.madctl->0) == Some(value as int),
    ensures
        ({
            let m = status_members(
                device.changed(change_of(Target::Madctl, Some(payload))).status(),
            );
            &&& integer_at(m, "madctl"@) == Some(value as i64)
            &&& text_at(m, "madctl_hex"@) == Some(madctl_shown(value))
            &&& madctl_in(text_at(m, "madctl_hex"@)->0) == Some(value as int)
        }),
{
    let change = change_of(Target::Madctl, Some(payload));
    law_change_outcome(device, change);
    law_document_tells_the_status(device.changed(change).status());
    lemma_madctl_reads_back(value);
}

/// A change that comes a second time brings nothing new: the device tells the same, and stores and
/// shows the same.
pub proof fn law_change_can_be_repeated(device: Device, change: ChangeView)
    ensures
        ({
            let once = device.changed(change);
            let twice = once.changed(change);
            twice == (Device { redraws: twice.redraws, ..once })
        }),
{
    law_change_outcome(device, change);
    law_change_outcome(device.changed(change), change);
    let once = device.changed(change);
    let twice = once.changed(change);
    assert(twice.texts =~= once.texts);
    assert(twice.bytes =~= once.bytes);
    assert(twice.integers =~= once.integers);
}

/// A restart keeps what is stored and sends the display what was stored for it.
pub proof fn law_restart_restores_what_is_stored(device: Device)
    ensures
        ({
            let after = device.restarted();
            let x = stored(device.integers, Key::GapX);
            let y = stored(device.integers, Key::GapY);
            &&& after.texts == device.texts
            &&& after.bytes == device.bytes
            &&& after.integers == device.integers
            &&& after.madctl == stored(device.bytes, Key::Madctl)
            &&& after.rotation == match stored(device.bytes, Key::DispRot) {
                Some(n) => n,
                None => 0,
            }
            &&& x is Some && y is Some ==> after.gap == Some((x->0, y->0))
        }),
{
    let off = Device { madctl: None, gap: None, rotation: 0, redraws: 0, ..device };
    lemma_perform_some(
        off,
        restore_effects(
            stored(device.bytes, Key::Madctl),
            stored(device.integers, Key::GapX),
            stored(device.integers, Key::GapY),
            stored(device.bytes, Key::DispRot),
        ),
    );
}

/// The display shows after a restart what a change has set on it.
pub proof fn law_change_outlasts_a_restart(device: Device, change: ChangeView)
    ensures
        ({
            let changed = device.changed(change);
            let after = changed.restarted();
            match change {
                ChangeView::Madctl(value) => changed.madctl == Some(value) && after.madctl
                    == changed.madctl,
                ChangeView::Gap(x, y) => changed.gap == Some((x, y)) && after.gap == changed.gap,
                ChangeView::Rotation(n) => changed.rotation == n && after.rotation
                    == changed.rotation,
                _ => true,
            }
        }),
{
    law_change_outcome(device, change);
    law_restart_restores_what_is_stored(device.changed(change));
}

/// The display was told what is stored for it.
pub open spec fn shows_what_is_stored(device: Device) -> bool {
    let madctl = stored(device.bytes, Key::Madctl);
    let rotation = stored(device.bytes, Key::DispRot);
    let x = stored(device.integers, Key::GapX);
    let y = stored(device.integers, Key::GapY);
    &&& madctl is Some ==> device.madctl == madctl
    &&& rotation is Some ==> device.rotation == rotation->0
    &&& x is Some || y is Some ==> device.gap == Some((gap_shown(x) as i32, gap_shown(y) as i32))
}

/// A restarted display was told what is stored for it, and every change keeps that so, but for
/// one: a picture that is turned by one step while no gap is stored is shown with one gap and
/// stored with another.
pub proof fn law_display_shows_what_is_stored(device: Device, change: ChangeView)
    requires
        !(change == ChangeView::Rotation(1) && stored(device.integers, Key::GapX) is None
            && stored(device.integers, Key::GapY) is None),
    ensures
        shows_what_is_stored(device.restarted()),
        shows_what_is_stored(device) ==> shows_what_is_stored(device.changed(change)),
{
    law_change_outcome(device, change);
    let off = Device { madctl: None, gap: None, rotation: 0, redraws: 0, ..device };
    lemma_perform_some(
        off,
        restore_effects(
            stored(device.bytes, Key::Madctl),
            stored(device.integers, Key::GapX),
            stored(device.integers, Key::GapY),
            stored(device.bytes, Key::DispRot),
        ),
    );
}

/// A store gives back the texts that the device has stored, if each takes fewer bytes than are set
/// aside for it.
pub open spec fn gives_back_texts(
    store: spec_fn(Request) -> ReplyView,
    device: Device,
) -> bool {
    forall|key: Key| #[trigger]
        device.texts.dom().contains(key) && encode_utf8(device.texts[key]).len() < TEXT_CAPACITY
            ==> store(Request::Text(key, TEXT_CAPACITY)) == ReplyView::Text(
            Ok(Some(device.texts[key])),
        )
}

/// What was saved over the set-up server is what the device starts with: the settings that are
/// loaded hold the network that was saved, and with one that lacks nothing the device does not
/// have to be set up again, unless it was asked to.
pub proof fn law_saved_network_is_loaded(
    device: Device,
    ssid: Seq<char>,
    pass: Seq<char>,
    server_url: Seq<char>,
    store: spec_fn(Request) -> ReplyView,
    defaults: DefaultsView,
)
    requires
        gives_back_texts(
            store,
            device.changed(ChangeView::Network { ssid, pass, server_url }),
        ),
        encode_utf8(ssid).len() < TEXT_CAPACITY,
        encode_utf8(pass).len() < TEXT_CAPACITY,
        encode_utf8(server_url).len() < TEXT_CAPACITY,
    ensures
        stored_setting(store, defaults) matches Ok(setting) ==> {
            &&& setting.ssid == ssid
            &&& setting.pass == pass
            &&& setting.server_url == server_url
            &&& setting.state != 1 && ssid.len() > 0 && pass.len() > 0 && server_url.len() > 0
                ==> !needs_set_up(setting)
        },
{
    let change = ChangeView::Network { ssid, pass, server_url };
    law_change_outcome(device, change);
    let changed = device.changed(change);
    assert(changed.texts.dom().contains(Key::Ssid));
    assert(changed.texts.dom().contains(Key::Pass));
    assert(changed.texts.dom().contains(Key::ServerUrl));
}

/// The texts that were sent for the network are, letter for letter and however long, what the
/// device holds, what it stores and what it tells; nothing else of it is touched.
pub proof fn law_sent_network_is_held_stored_and_told(
    device: Device,
    payload: PayloadView,
    a: Seq<char>,
    b: Seq<char>,
    c: Seq<char>,
)
    requires
        payload.ssid == Some(a),
        payload.pass == Some(b),
        payload.server_url == Some(c),
    ensures
        ({
            let after = device.changed(change_of(Target::Settings, Some(payload)));
            let m = status_members(after.status());
            &&& after.ssid == a && after.pass == b && after.server_url == c
            &&& stored(after.texts, Key::Ssid) == Some(a)
            &&& stored(after.texts, Key::Pass) == Some(b)
            &&& stored(after.texts, Key::ServerUrl) == Some(c)
            &&& text_at(m, "ssid"@) == Some(a)
            &&& text_at(m, "pass"@) == Some(b)
            &&& text_at(m, "server_url"@) == Some(c)
            &&& forall|key: Key|
                key != Key::Ssid && key != Key::Pass && key != Key::ServerUrl ==> #[trigger] stored(
                    after.texts,
                    key,
                ) == stored(device.texts, key)
            &&& after.bytes == device.bytes
            &&& after.integers == device.integers
            &&& after.madctl == device.madctl
            &&& after.gap == device.gap
            &&& after.rotation == device.rotation
            &&& after.redraws == device.redraws
        }),
{
    law_sent_network_is_the_change(payload, a, b, c);
    let change = change_of(Target::Settings, Some(payload));
    law_change_outcome(device, change);
    law_document_tells_the_status(device.changed(change).status());
}

/// Numbers that were sent for the gap and fit 32 bits are where the picture stands, what is stored
/// and what is told; nothing else of the device is touched.
pub proof fn law_sent_gap_is_shown_stored_and_told(
    device: Device,
    payload: PayloadView,
    x: i32,
    y: i32,
)
    requires
        payload.x == Some(x as i64),
        payload.y == Some(y as i64),
    ensures
        ({
            let after = device.changed(change_of(Target::Gap, Some(payload)));
            let m = status_members(after.status());
            &&& after.gap == Some((x, y))
            &&& stored(after.integers, Key::GapX) == Some(x)
            &&& stored(after.integers, Key::GapY) == Some(y)
            &&& integer_at(m, "gap_x"@) == Some(x as i64)
            &&& integer_at(m, "gap_y"@) == Some(y as i64)
            &&& after == (Device { gap: after.gap, integers: after.integers, ..device })
            &&& forall|key: Key|
                key != Key::GapX && key != Key::GapY ==> #[trigger] stored(after.integers, key)
                    == stored(device.integers, key)
        }),
{
    law_sent_gap_is_the_change(payload, x as i64, y as i64);
    let change = change_of(Target::Gap, Some(payload));
    law_change_outcome(device, change);
    law_document_tells_the_status(device.changed(change).status());
}

/// A rotation that was sent is how the picture is turned, what is stored and what is told, and a
/// new picture is asked for. The gap that is stored stays as it is; only where none is stored and
/// the picture is turned by one step, it is set too.
pub proof fn law_sent_rotation_is_shown_stored_and_told(device: Device, payload: PayloadView, n: u8)
    requires
        payload.rot is Some,
        n < 4,
        (payload.rot->0 - n) % 4 == 0,
    ensures
        ({
            let after = device.changed(change_of(Target::Rotate, Some(payload)));
            let m = status_members(after.status());
            let no_gap = stored(device.integers, Key::GapX) is None && stored(
                device.integers,
                Key::GapY,
            ) is None;
            &&& after.rotation == n
            &&& stored(after.bytes, Key::DispRot) == Some(n)
            &&& integer_at(m, "disp_rot"@) == Some(n as i64)
            &&& after.redraws == device.redraws + 1
            &&& forall|key: Key|
                key != Key::DispRot ==> #[trigger] stored(after.bytes, key) == stored(
                    device.bytes,
                    key,
                )
            &&& !(n == 1 && no_gap) ==> after.integers == device.integers && after.gap == device.gap
            &&& n == 1 && no_gap ==> {
                &&& after.gap == Some((80i32, 0i32))
                &&& stored(after.integers, Key::GapX) == Some(80i32)
                &&& stored(after.integers, Key::GapY) == Some(5i32)
            }
            &&& after.ssid == device.ssid && after.pass == device.pass && after.server_url
                == device.server_url
            &&& after.texts == device.texts
            &&& after.madctl == device.madctl
        }),
{
    law_sent_rotation_is_the_change(payload);
    let change = change_of(Target::Rotate, Some(payload));
    assert(change == ChangeView::Rotation(n));
    law_change_outcome(device, change);
    law_document_tells_the_status(device.changed(change).status());
}

/// A byte that was sent for the memory access control is what the display is told, what is stored
/// and what is told; nothing else of the device is touched.
pub proof fn law_sent_madctl_is_shown_stored_and_told(
    device: Device,
    payload: PayloadView,
    value: u8,
)
    requires
        payload.madctl is Some,
        madctl_in(payload.madctl->0) == Some(value as int),
    ensures
        ({
            let after = device.changed(change_of(Target::Madctl, Some(payload)));
            let m = status_members(after.status());
            &&& after.madctl == Some(value)
            &&& stored(after.bytes, Key::Madctl) == Some(value)
            &&& integer_at(m, "madctl"@) == Some(value as i64)
            &&& after == (Device { madctl: after.madctl, bytes: after.bytes, ..device })
            &&& forall|key: Key|
                key != Key::Madctl ==> #[trigger] stored(after.bytes, key) == stored(
                    device.bytes,
                    key,
                )
        }),
{
    law_sent_madctl_is_the_change(payload, value);
    let change = change_of(Target::Madctl, Some(payload));
    law_change_outcome(device, change);
    law_document_tells_the_status(device.changed(change).status());
}

/// What is stored for the display is sent to it again, value for value: the byte, then the gap,
/// with zero for a number of it that is not stored, then the rotation. Where no gap is stored, one
/// is sent only for a picture that is turned by one step.
pub proof fn law_display_gets_back_what_is_stored(
    madctl: Option<u8>,
    gap_x: Option<i32>,
    gap_y: Option<i32>,
    rotation: Option<u8>,
)
    ensures
        ({
            let all = restore_effects(madctl, gap_x, gap_y, rotation);
            let gap = match (gap_x, gap_y) {
                (Some(x), Some(y)) => Some((x, y)),
                (Some(x), None) => Some((x, 0i32)),
                (None, Some(y)) => Some((0i32, y)),
                (None, None) => if rotation == Some(1u8) {
                    Some((80i32, 0i32))
                } else {
                    None
                },
            };
            let first: int = if madctl is Some {
                1
            } else {
                0
            };
            let second: int = if gap is Some {
                1
            } else {
                0
            };
            let third: int = if rotation is Some {
                1
            } else {
                0
            };
            &&& all.len() == first + second + third
            &&& madctl matches Some(value) ==> all[0] == EffectView::SetMadctl(value)
            &&& gap matches Some((x, y)) ==> all[first] == EffectView::SetGap(x, y)
            &&& rotation matches Some(n) ==> all[first + second] == EffectView::SetRotation(n)
        }),
{
}

} // verus!
