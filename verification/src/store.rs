//! The keys under which the device keeps its values in non-volatile storage.
use vstd::prelude::*;

verus! {

/// A value that the device keeps.
#[derive(Clone, Copy, Debug, PartialEq, Eq, Structural)]
pub enum Key {
    Ssid,
    Pass,
    ServerUrl,
    BackgroundGif,
    AvatarGif,
    State,
    AfeLinearGain,
    AgcTargetLevel,
    AgcCompressionGain,
    Madctl,
    GapX,
    GapY,
    DispRot,
}

impl Key {
    /// The name under which the value is kept.
    pub open spec fn spec_name(self) -> Seq<char> {
        match self {
            Key::Ssid => "ssid"@,
            Key::Pass => "pass"@,
            Key::ServerUrl => "server_url"@,
            Key::BackgroundGif => "background_gif"@,
            Key::AvatarGif => "avatar_gif"@,
            Key::State => "state"@,
            Key::AfeLinearGain => "afe_linear_gain"@,
            Key::AgcTargetLevel => "agc_tl_dbfs"@,
            Key::AgcCompressionGain => "agc_cg_db"@,
            Key::Madctl => "madctl"@,
            Key::GapX => "gap_x"@,
            Key::GapY => "gap_y"@,
            Key::DispRot => "disp_rot"@,
        }
    }

    /// The name under which the value is kept.
    pub fn name(self) -> (name: &'static str)
        ensures
            name@ == self.spec_name(),
    {
        match self {
            Key::Ssid => "ssid",
            Key::Pass => "pass",
            Key::ServerUrl => "server_url",
            Key::BackgroundGif => "background_gif",
            Key::AvatarGif => "avatar_gif",
            Key::State => "state",
            Key::AfeLinearGain => "afe_linear_gain",
            Key::AgcTargetLevel => "agc_tl_dbfs",
            Key::AgcCompressionGain => "agc_cg_db",
            Key::Madctl => "madctl",
            Key::GapX => "gap_x",
            Key::GapY => "gap_y",
            Key::DispRot => "disp_rot",
        }
    }
}

proof fn reveal_names()
    ensures
        forall|key: Key| 0 < #[trigger] key.spec_name().len() <= 15,
        "ssid"@ == seq!['s', 's', 'i', 'd'],
        "pass"@ == seq!['p', 'a', 's', 's'],
        "state"@ == seq!['s', 't', 'a', 't', 'e'],
        "gap_x"@ == seq!['g', 'a', 'p', '_', 'x'],
        "gap_y"@ == seq!['g', 'a', 'p', '_', 'y'],
        "madctl"@.len() == 6,
        "disp_rot"@.len() == 8,
        "agc_cg_db"@.len() == 9,
        "server_url"@.len() == 10 && "server_url"@[0] == 's',
        "avatar_gif"@.len() == 10 && "avatar_gif"@[0] == 'a',
        "agc_tl_dbfs"@.len() == 11,
        "background_gif"@.len() == 14,
        "afe_linear_gain"@.len() == 15,
{
    reveal_strlit("ssid");
    reveal_strlit("pass");
    reveal_strlit("server_url");
    reveal_strlit("background_gif");
    reveal_strlit("avatar_gif");
    reveal_strlit("state");
    reveal_strlit("afe_linear_gain");
    reveal_strlit("agc_tl_dbfs");
    reveal_strlit("agc_cg_db");
    reveal_strlit("madctl");
    reveal_strlit("gap_x");
    reveal_strlit("gap_y");
    reveal_strlit("disp_rot");
    assert("ssid"@ =~= seq!['s', 's', 'i', 'd']);
    assert("pass"@ =~= seq!['p', 'a', 's', 's']);
    assert("state"@ =~= seq!['s', 't', 'a', 't', 'e']);
    assert("gap_x"@ =~= seq!['g', 'a', 'p', '_', 'x']);
    assert("gap_y"@ =~= seq!['g', 'a', 'p', '_', 'y']);
}

/// No two values are kept under one name, and every name fits the 15 characters that the storage
/// gives to a key.
pub proof fn law_names_are_distinct(a: Key, b: Key)
    ensures
        a != b ==> a.spec_name() != b.spec_name(),
        0 < a.spec_name().len() <= 15,
{
    reveal_names();
    assert(seq!['s', 's', 'i', 'd'][0] != seq!['p', 'a', 's', 's'][0]);
    assert(seq!['g', 'a', 'p', '_', 'x'][4] != seq!['g', 'a', 'p', '_', 'y'][4]);
    assert(seq!['s', 't', 'a', 't', 'e'][0] != seq!['g', 'a', 'p', '_', 'y'][0]);
    assert(seq!['s', 't', 'a', 't', 'e'][0] != seq!['g', 'a', 'p', '_', 'x'][0]);
    let x = a.spec_name();
    let y = b.spec_name();
    if x == y {
        assert(x.len() == y.len());
        assert(x[0] == y[0]);
    }
}

} // verus!
