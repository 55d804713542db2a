//! The settings of the device and the way they are read from storage.
use crate::store::Key;
use vstd::prelude::*;

verus! {

/// What the device keeps over a restart.
#[derive(Debug, PartialEq, Eq)]
pub struct Setting {
    pub ssid: String,
    pub pass: String,
    pub server_url: String,
    /// The data, and whether it has come to its end.
    pub background_gif: (Vec<u8>, bool),
    /// The data, and whether it has come to its end.
    pub avatar_gif: (Vec<u8>, bool),
    /// 1 asks for set-up mode.
    pub state: u8,
    /// The bits of a 32-bit floating-point number.
    pub afe_linear_gain: u32,
    pub agc_target_level_dbfs: i32,
    pub agc_compression_gain_db: i32,
}

/// The model of a [`Setting`].
pub struct SettingView {
    pub ssid: Seq<char>,
    pub pass: Seq<char>,
    pub server_url: Seq<char>,
    pub background_gif: (Seq<u8>, bool),
    pub avatar_gif: (Seq<u8>, bool),
    pub state: u8,
    pub afe_linear_gain: u32,
    pub agc_target_level_dbfs: i32,
    pub agc_compression_gain_db: i32,
}

impl View for Setting {
    type V = SettingView;

    open spec fn view(&self) -> SettingView {
        SettingView {
            ssid: self.ssid@,
            pass: self.pass@,
            server_url: self.server_url@,
            background_gif: (self.background_gif.0@, self.background_gif.1),
            avatar_gif: (self.avatar_gif.0@, self.avatar_gif.1),
            state: self.state,
            afe_linear_gain: self.afe_linear_gain,
            agc_target_level_dbfs: self.agc_target_level_dbfs,
            agc_compression_gain_db: self.agc_compression_gain_db,
        }
    }
}

/// The device has to be set up: it was asked to, or it does not know how to reach its server.
pub open spec fn needs_set_up(setting: SettingView) -> bool {
    setting.state == 1 || setting.ssid.len() == 0 || setting.pass.len() == 0
        || setting.server_url.len() == 0
}

impl Setting {
    /// The device has to be set up: it was asked to, or it does not know how to reach its server.
    pub fn need_init(&self) -> (need: bool)
        ensures
            need == needs_set_up(self@),
    {
        self.state == 1 || self.ssid.as_str().is_empty() || self.pass.as_str().is_empty()
            || self.server_url.as_str().is_empty()
    }

    /// Takes over how the server is reached; everything else stays as it is.
    pub fn remember(&mut self, ssid: String, pass: String, server_url: String)
        ensures
            final(self)@ == (SettingView {
                ssid: ssid@,
                pass: pass@,
                server_url: server_url@,
                ..old(self)@
            }),
    {
        self.ssid = ssid;
        self.pass = pass;
        self.server_url = server_url;
    }
}

impl Clone for Setting {
    fn clone(&self) -> (copy: Self)
        ensures
            copy@ == self@,
    {
        let copy = Setting {
            ssid: self.ssid.clone(),
            pass: self.pass.clone(),
            server_url: self.server_url.clone(),
            background_gif: (self.background_gif.0.clone(), self.background_gif.1),
            avatar_gif: (self.avatar_gif.0.clone(), self.avatar_gif.1),
            state: self.state,
            afe_linear_gain: self.afe_linear_gain,
            agc_target_level_dbfs: self.agc_target_level_dbfs,
            agc_compression_gain_db: self.agc_compression_gain_db,
        };
        assert(copy.background_gif.0@ =~= self.background_gif.0@);
        assert(copy.avatar_gif.0@ =~= self.avatar_gif.0@);
        copy
    }
}

/// What stands in for a value that the storage does not hold.
#[derive(Debug, PartialEq, Eq)]
pub struct Defaults {
    pub server_url: Option<String>,
    pub background_gif: Vec<u8>,
    pub afe_linear_gain: u32,
    pub agc_target_level_dbfs: i32,
    pub agc_compression_gain_db: i32,
}

/// The model of [`Defaults`].
pub struct DefaultsView {
    pub server_url: Option<Seq<char>>,
    pub background_gif: Seq<u8>,
    pub afe_linear_gain: u32,
    pub agc_target_level_dbfs: i32,
    pub agc_compression_gain_db: i32,
}

impl View for Defaults {
    type V = DefaultsView;

    open spec fn view(&self) -> DefaultsView {
        DefaultsView {
            server_url: match self.server_url {
                Some(url) => Some(url@),
                None => None,
            },
            background_gif: self.background_gif@,
            afe_linear_gain: self.afe_linear_gain,
            agc_target_level_dbfs: self.agc_target_level_dbfs,
            agc_compression_gain_db: self.agc_compression_gain_db,
        }
    }
}

/// Bytes that a text may take in storage, its closing zero included.
pub const TEXT_CAPACITY: usize = 128;

/// Bytes set aside for a background picture of unknown size.
pub const BACKGROUND_CAPACITY: usize = 1_048_576;

/// Bytes set aside for an avatar picture of unknown size.
pub const AVATAR_CAPACITY: usize = 131_072;

/// Bytes of a stored floating-point number.
pub const GAIN_CAPACITY: usize = 4;

/// A question to the storage.
#[derive(Clone, Copy, Debug, PartialEq, Eq, Structural)]
pub enum Request {
    /// The text under a key, if it fits the given number of bytes.
    Text(Key, usize),
    /// Whether anything is stored under a key.
    Contains(Key),
    /// The size of the bytes under a key.
    BlobLen(Key),
    /// The bytes under a key, if they fit the given number of bytes.
    Blob(Key, usize),
    /// The byte under a key.
    Byte(Key),
    /// The integer under a key.
    Integer(Key),
}

/// What the storage answers: the value, nothing, or an error code.
#[derive(Debug, PartialEq, Eq)]
pub enum Reply {
    Text(Result<Option<String>, i32>),
    Contains(Result<bool, i32>),
    BlobLen(Result<Option<usize>, i32>),
    Blob(Result<Option<Vec<u8>>, i32>),
    Byte(Result<Option<u8>, i32>),
    Integer(Result<Option<i32>, i32>),
}

/// The model of a [`Reply`].
pub enum ReplyView {
    Text(Result<Option<Seq<char>>, i32>),
    Contains(Result<bool, i32>),
    BlobLen(Result<Option<usize>, i32>),
    Blob(Result<Option<Seq<u8>>, i32>),
    Byte(Result<Option<u8>, i32>),
    Integer(Result<Option<i32>, i32>),
}

impl View for Reply {
    type V = ReplyView;

    open spec fn view(&self) -> ReplyView {
        match *self {
            Reply::Text(Ok(Some(t))) => ReplyView::Text(Ok(Some(t@))),
            Reply::Text(Ok(None)) => ReplyView::Text(Ok(None)),
            Reply::Text(Err(e)) => ReplyView::Text(Err(e)),
            Reply::Contains(c) => ReplyView::Contains(c),
            Reply::BlobLen(n) => ReplyView::BlobLen(n),
            Reply::Blob(Ok(Some(b))) => ReplyView::Blob(Ok(Some(b@))),
            Reply::Blob(Ok(None)) => ReplyView::Blob(Ok(None)),
            Reply::Blob(Err(e)) => ReplyView::Blob(Err(e)),
            Reply::Byte(b) => ReplyView::Byte(b),
            Reply::Integer(n) => ReplyView::Integer(n),
        }
    }
}

/// A reply answers a request: it is of its kind, and bytes that stand for a floating-point number
/// are four or more.
pub open spec fn answers(request: Request, reply: ReplyView) -> bool {
    match request {
        Request::Text(..) => reply is Text,
        Request::Contains(_) => reply is Contains,
        Request::BlobLen(_) => reply is BlobLen,
        Request::Blob(key, _) => {
            &&& reply is Blob
            &&& key == Key::AfeLinearGain ==> (reply matches ReplyView::Blob(Ok(Some(b)))
                ==> b.len() >= 4)
        },
        Request::Byte(_) => reply is Byte,
        Request::Integer(_) => reply is Integer,
    }
}

/// The value of a reply where there is one; errors count as absence.
pub open spec fn value_or<T>(reply: Result<Option<T>, i32>, default: T) -> T {
    match reply {
        Ok(Some(value)) => value,
        _ => default,
    }
}

/// The number whose bytes these are, the lowest byte first.
pub open spec fn little_endian(b: Seq<u8>) -> u32 {
    (b[0] + 256 * b[1] + 65536 * b[2] + 16777216 * b[3]) as u32
}

/// The bytes of a picture. Where the storage holds none, the default stands in, but for a default
/// of just the size that was set aside: then the picture is that many zeros.
pub open spec fn picture(stored: Option<Seq<u8>>, default: Seq<u8>, size: usize) -> Seq<u8> {
    match stored {
        Some(bytes) => bytes,
        None => if default.len() == size {
            Seq::new(size as nat, |i: int| 0u8)
        } else {
            default
        },
    }
}

/// A store that gives every question one answer, of its kind.
pub open spec fn answers_all(store: spec_fn(Request) -> ReplyView) -> bool {
    forall|request: Request| answers(request, #[trigger] store(request))
}

/// The picture under a key, or the error that ends the loading.
pub open spec fn stored_picture(
    store: spec_fn(Request) -> ReplyView,
    key: Key,
    capacity: usize,
    absent: Seq<u8>,
    default: Seq<u8>,
) -> Result<Seq<u8>, i32> {
    match store(Request::Contains(key))->Contains_0 {
        Err(e) => Err(e),
        Ok(false) => Ok(absent),
        Ok(true) => {
            let size = value_or(store(Request::BlobLen(key))->BlobLen_0, capacity);
            match store(Request::Blob(key, size))->Blob_0 {
                Err(e) => Err(e),
                Ok(stored) => Ok(picture(stored, default, size)),
            }
        },
    }
}

/// The settings that a store holds, or the error that ends the loading: a failure to look for or
/// to read a picture or the state. Any other failure counts as absence.
pub open spec fn stored_setting(
    store: spec_fn(Request) -> ReplyView,
    defaults: DefaultsView,
) -> Result<SettingView, i32> {
    let background = stored_picture(
        store,
        Key::BackgroundGif,
        BACKGROUND_CAPACITY,
        defaults.background_gif,
        defaults.background_gif,
    );
    let avatar = stored_picture(
        store,
        Key::AvatarGif,
        AVATAR_CAPACITY,
        Seq::empty(),
        Seq::empty(),
    );
    let state = store(Request::Byte(Key::State))->Byte_0;
    let text = |key: Key| store(Request::Text(key, TEXT_CAPACITY))->Text_0;
    match (background, avatar, state) {
        (Err(e), _, _) => Err(e),
        (_, Err(e), _) => Err(e),
        (_, _, Err(e)) => Err(e),
        (Ok(background), Ok(avatar), Ok(state)) => Ok(
            SettingView {
                ssid: value_or(text(Key::Ssid), Seq::empty()),
                pass: value_or(text(Key::Pass), Seq::empty()),
                server_url: value_or(
                    text(Key::ServerUrl),
                    match defaults.server_url {
                        Some(url) => url,
                        None => Seq::empty(),
                    },
                ),
                background_gif: (background, false),
                avatar_gif: (avatar, false),
                state: match state {
                    Some(byte) => byte,
                    None => 0,
                },
                afe_linear_gain: match store(
                    Request::Blob(Key::AfeLinearGain, GAIN_CAPACITY),
                )->Blob_0 {
                    Ok(Some(bytes)) => little_endian(bytes),
                    _ => defaults.afe_linear_gain,
                },
                agc_target_level_dbfs: value_or(
                    store(Request::Integer(Key::AgcTargetLevel))->Integer_0,
                    defaults.agc_target_level_dbfs,
                ),
                agc_compression_gain_db: value_or(
                    store(Request::Integer(Key::AgcCompressionGain))->Integer_0,
                    defaults.agc_compression_gain_db,
                ),
            },
        ),
    }
}

/// How far the loading has come: the question that is open.
#[derive(Clone, Copy, Debug, PartialEq, Eq, Structural)]
pub enum Stage {
    Ssid,
    Pass,
    ServerUrl,
    HasBackground,
    BackgroundLen,
    Background,
    HasAvatar,
    AvatarLen,
    Avatar,
    State,
    Gain,
    TargetLevel,
    CompressionGain,
}

/// Loads the settings: it asks the storage one question after the other.
#[derive(Debug, PartialEq, Eq)]
pub struct Loader {
    stage: Stage,
    /// The size set aside for the picture that is being read.
    size: usize,
    /// What has been read so far.
    setting: Setting,
    defaults: Defaults,
}

/// The model of a [`Loader`].
pub struct LoaderView {
    pub stage: Stage,
    pub size: usize,
    pub setting: SettingView,
    pub defaults: DefaultsView,
}

impl View for Loader {
    type V = LoaderView;

    closed spec fn view(&self) -> LoaderView {
        LoaderView {
            stage: self.stage,
            size: self.size,
            setting: self.setting@,
            defaults: self.defaults@,
        }
    }
}

/// What a reply leads to.
#[derive(Debug, PartialEq, Eq)]
pub enum Progress {
    /// There is another question to ask.
    More(Loader),
    /// The settings are complete.
    Done(Setting),
    /// The storage failed with this code.
    Failed(i32),
}

/// The model of [`Progress`].
pub enum ProgressView {
    More(LoaderView),
    Done(SettingView),
    Failed(i32),
}

impl View for Progress {
    type V = ProgressView;

    open spec fn view(&self) -> ProgressView {
        match *self {
            Progress::More(loader) => ProgressView::More(loader@),
            Progress::Done(setting) => ProgressView::Done(setting@),
            Progress::Failed(code) => ProgressView::Failed(code),
        }
    }
}

impl LoaderView {
    /// The loader before its first question.
    pub open spec fn start(defaults: DefaultsView) -> LoaderView {
        LoaderView {
            stage: Stage::Ssid,
            size: 0,
            setting: SettingView {
                ssid: Seq::empty(),
                pass: Seq::empty(),
                server_url: Seq::empty(),
                background_gif: (Seq::empty(), false),
                avatar_gif: (Seq::empty(), false),
                state: 0,
                afe_linear_gain: defaults.afe_linear_gain,
                agc_target_level_dbfs: defaults.agc_target_level_dbfs,
                agc_compression_gain_db: defaults.agc_compression_gain_db,
            },
            defaults,
        }
    }

    /// The open question.
    pub open spec fn request(self) -> Request {
        match self.stage {
            Stage::Ssid => Request::Text(Key::Ssid, TEXT_CAPACITY),
            Stage::Pass => Request::Text(Key::Pass, TEXT_CAPACITY),
            Stage::ServerUrl => Request::Text(Key::ServerUrl, TEXT_CAPACITY),
            Stage::HasBackground => Request::Contains(Key::BackgroundGif),
            Stage::BackgroundLen => Request::BlobLen(Key::BackgroundGif),
            Stage::Background => Request::Blob(Key::BackgroundGif, self.size),
            Stage::HasAvatar => Request::Contains(Key::AvatarGif),
            Stage::AvatarLen => Request::BlobLen(Key::AvatarGif),
            Stage::Avatar => Request::Blob(Key::AvatarGif, self.size),
            Stage::State => Request::Byte(Key::State),
            Stage::Gain => Request::Blob(Key::AfeLinearGain, GAIN_CAPACITY),
            Stage::TargetLevel => Request::Integer(Key::AgcTargetLevel),
            Stage::CompressionGain => Request::Integer(Key::AgcCompressionGain),
        }
    }

    /// How many questions are left at most.
    pub open spec fn questions_left(self) -> nat {
        match self.stage {
            Stage::Ssid => 13,
            Stage::Pass => 12,
            Stage::ServerUrl => 11,
            Stage::HasBackground => 10,
            Stage::BackgroundLen => 9,
            Stage::Background => 8,
            Stage::HasAvatar => 7,
            Stage::AvatarLen => 6,
            Stage::Avatar => 5,
            Stage::State => 4,
            Stage::Gain => 3,
            Stage::TargetLevel => 2,
            Stage::CompressionGain => 1,
        }
    }

    /// The loader at another question, with what has been read by then.
    pub open spec fn at(self, stage: Stage, setting: SettingView) -> ProgressView {
        ProgressView::More(LoaderView { stage, setting, ..self })
    }

    /// What the reply to the open question leads to.
    pub open spec fn after(self, reply: ReplyView) -> ProgressView {
        let s = self.setting;
        match (self.stage, reply) {
            (Stage::Ssid, ReplyView::Text(t)) => self.at(
                Stage::Pass,
                SettingView { ssid: value_or(t, Seq::empty()), ..s },
            ),
            (Stage::Pass, ReplyView::Text(t)) => self.at(
                Stage::ServerUrl,
                SettingView { pass: value_or(t, Seq::empty()), ..s },
            ),
            (Stage::ServerUrl, ReplyView::Text(t)) => self.at(
                Stage::HasBackground,
                SettingView {
                    server_url: value_or(
                        t,
                        match self.defaults.server_url {
                            Some(url) => url,
                            None => Seq::empty(),
                        },
                    ),
                    ..s
                },
            ),
            (Stage::HasBackground, ReplyView::Contains(Ok(true))) => self.at(
                Stage::BackgroundLen,
                s,
            ),
            (Stage::HasBackground, ReplyView::Contains(Ok(false))) => self.at(
                Stage::HasAvatar,
                SettingView { background_gif: (self.defaults.background_gif, false), ..s },
            ),
            (Stage::HasBackground, ReplyView::Contains(Err(e))) => ProgressView::Failed(e),
            (Stage::BackgroundLen, ReplyView::BlobLen(n)) => ProgressView::More(
                LoaderView {
                    stage: Stage::Background,
                    size: value_or(n, BACKGROUND_CAPACITY),
                    ..self
                },
            ),
            (Stage::Background, ReplyView::Blob(Ok(stored))) => self.at(
                Stage::HasAvatar,
                SettingView {
                    background_gif: (
                        picture(stored, self.defaults.background_gif, self.size),
                        false,
                    ),
                    ..s
                },
            ),
            (Stage::Background, ReplyView::Blob(Err(e))) => ProgressView::Failed(e),
            (Stage::HasAvatar, ReplyView::Contains(Ok(true))) => self.at(Stage::AvatarLen, s),
            (Stage::HasAvatar, ReplyView::Contains(Ok(false))) => self.at(
                Stage::State,
                SettingView { avatar_gif: (Seq::empty(), false), ..s },
            ),
            (Stage::HasAvatar, ReplyView::Contains(Err(e))) => ProgressView::Failed(e),
            (Stage::AvatarLen, ReplyView::BlobLen(n)) => ProgressView::More(
                LoaderView {
                    stage: Stage::Avatar,
                    size: value_or(n, AVATAR_CAPACITY),
                    ..self
                },
            ),
            (Stage::Avatar, ReplyView::Blob(Ok(stored))) => self.at(
                Stage::State,
                SettingView {
                    avatar_gif: (picture(stored, Seq::empty(), self.size), false),
                    ..s
                },
            ),
            (Stage::Avatar, ReplyView::Blob(Err(e))) => ProgressView::Failed(e),
            (Stage::State, ReplyView::Byte(Ok(byte))) => self.at(
                Stage::Gain,
                SettingView {
                    state: match byte {
                        Some(b) => b,
                        None => 0,
                    },
                    ..s
                },
            ),
            (Stage::State, ReplyView::Byte(Err(e))) => ProgressView::Failed(e),
            (Stage::Gain, ReplyView::Blob(bytes)) => self.at(
                Stage::TargetLevel,
                SettingView {
                    afe_linear_gain: match bytes {
                        Ok(Some(b)) => little_endian(b),
                        _ => self.defaults.afe_linear_gain,
                    },
                    ..s
                },
            ),
            (Stage::TargetLevel, ReplyView::Integer(n)) => self.at(
                Stage::CompressionGain,
                SettingView {
                    agc_target_level_dbfs: value_or(n, self.defaults.agc_target_level_dbfs),
                    ..s
                },
            ),
            (Stage::CompressionGain, ReplyView::Integer(n)) => ProgressView::Done(
                SettingView {
                    agc_compression_gain_db: value_or(n, self.defaults.agc_compression_gain_db),
                    ..s
                },
            ),
            _ => ProgressView::More(self),
        }
    }
}

fn text_or_empty(text: Result<Option<String>, i32>) -> (value: String)
    ensures
        value@ == match text {
            Ok(Some(t)) => t@,
            _ => Seq::empty(),
        },
{
    match text {
        Ok(Some(t)) => t,
        _ => String::new(),
    }
}

fn picture_bytes(stored: Option<Vec<u8>>, default: &Vec<u8>, size: usize) -> (bytes: Vec<u8>)
    ensures
        bytes@ == picture(
            match stored {
                Some(b) => Some(b@),
                None => None,
            },
            default@,
            size,
        ),
{
    match stored {
        Some(bytes) => bytes,
        None => if default.len() == size {
            let bytes: Vec<u8> = vec![0u8; size];
            assert(bytes@ =~= Seq::new(size as nat, |i: int| 0u8));
            bytes
        } else {
            let bytes = default.clone();
            assert(bytes@ =~= default@);
            bytes
        },
    }
}

impl Setting {
    /// Begins to load the settings.
    pub fn load_from_nvs(defaults: Defaults) -> (loader: Loader)
        ensures
            loader@ == LoaderView::start(defaults@),
    {
        let setting = Setting {
            ssid: String::new(),
            pass: String::new(),
            server_url: String::new(),
            background_gif: (Vec::new(), false),
            avatar_gif: (Vec::new(), false),
            state: 0,
            afe_linear_gain: defaults.afe_linear_gain,
            agc_target_level_dbfs: defaults.agc_target_level_dbfs,
            agc_compression_gain_db: defaults.agc_compression_gain_db,
        };
        Loader { stage: Stage::Ssid, size: 0, setting, defaults }
    }
}

impl Loader {
    /// The open question.
    pub fn request(&self) -> (request: Request)
        ensures
            request == self@.request(),
    {
        match self.stage {
            Stage::Ssid => Request::Text(Key::Ssid, TEXT_CAPACITY),
            Stage::Pass => Request::Text(Key::Pass, TEXT_CAPACITY),
            Stage::ServerUrl => Request::Text(Key::ServerUrl, TEXT_CAPACITY),
            Stage::HasBackground => Request::Contains(Key::BackgroundGif),
            Stage::BackgroundLen => Request::BlobLen(Key::BackgroundGif),
            Stage::Background => Request::Blob(Key::BackgroundGif, self.size),
            Stage::HasAvatar => Request::Contains(Key::AvatarGif),
            Stage::AvatarLen => Request::BlobLen(Key::AvatarGif),
            Stage::Avatar => Request::Blob(Key::AvatarGif, self.size),
            Stage::State => Request::Byte(Key::State),
            Stage::Gain => Request::Blob(Key::AfeLinearGain, GAIN_CAPACITY),
            Stage::TargetLevel => Request::Integer(Key::AgcTargetLevel),
            Stage::CompressionGain => Request::Integer(Key::AgcCompressionGain),
        }
    }

    /// Takes the reply to the open question.
    pub fn reply(self, reply: Reply) -> (progress: Progress)
        requires
            answers(self@.request(), reply@),
        ensures
            progress@ == self@.after(reply@),
    {
        let mut loader = self;
        match (loader.stage, reply) {
            (Stage::Ssid, Reply::Text(text)) => {
                loader.setting.ssid = text_or_empty(text);
                loader.stage = Stage::Pass;
            },
            (Stage::Pass, Reply::Text(text)) => {
                loader.setting.pass = text_or_empty(text);
                loader.stage = Stage::ServerUrl;
            },
            (Stage::ServerUrl, Reply::Text(text)) => {
                loader.setting.server_url = match (text, &loader.defaults.server_url) {
                    (Ok(Some(url)), _) => url,
                    (_, Some(url)) => url.clone(),
                    (_, None) => String::new(),
                };
                loader.stage = Stage::HasBackground;
            },
            (Stage::HasBackground, Reply::Contains(found)) => match found {
                Ok(true) => loader.stage = Stage::BackgroundLen,
                Ok(false) => {
                    let bytes = loader.defaults.background_gif.clone();
                    assert(bytes@ =~= loader.defaults.background_gif@);
                    loader.setting.background_gif = (bytes, false);
                    loader.stage = Stage::HasAvatar;
                },
                Err(code) => return Progress::Failed(code),
            },
            (Stage::BackgroundLen, Reply::BlobLen(len)) => {
                loader.size = match len {
                    Ok(Some(n)) => n,
                    _ => BACKGROUND_CAPACITY,
                };
                loader.stage = Stage::Background;
            },
            (Stage::Background, Reply::Blob(stored)) => match stored {
                Ok(bytes) => {
                    let bytes = picture_bytes(bytes, &loader.defaults.background_gif, loader.size);
                    loader.setting.background_gif = (bytes, false);
                    loader.stage = Stage::HasAvatar;
                },
                Err(code) => return Progress::Failed(code),
            },
            (Stage::HasAvatar, Reply::Contains(found)) => match found {
                Ok(true) => loader.stage = Stage::AvatarLen,
                Ok(false) => {
                    loader.setting.avatar_gif = (Vec::new(), false);
                    loader.stage = Stage::State;
                },
                Err(code) => return Progress::Failed(code),
            },
            (Stage::AvatarLen, Reply::BlobLen(len)) => {
                loader.size = match len {
                    Ok(Some(n)) => n,
                    _ => AVATAR_CAPACITY,
                };
                loader.stage = Stage::Avatar;
            },
            (Stage::Avatar, Reply::Blob(stored)) => match stored {
                Ok(bytes) => {
                    let bytes = picture_bytes(bytes, &Vec::new(), loader.size);
                    loader.setting.avatar_gif = (bytes, false);
                    loader.stage = Stage::State;
                },
                Err(code) => return Progress::Failed(code),
            },
            (Stage::State, Reply::Byte(byte)) => match byte {
                Ok(Some(b)) => {
                    loader.setting.state = b;
                    loader.stage = Stage::Gain;
                },
                Ok(None) => {
                    loader.setting.state = 0;
                    loader.stage = Stage::Gain;
                },
                Err(code) => return Progress::Failed(code),
            },
            (Stage::Gain, Reply::Blob(stored)) => {
                loader.setting.afe_linear_gain = match stored {
                    Ok(Some(b)) => b[0] as u32 + 256 * b[1] as u32 + 65536 * b[2] as u32 + 16777216
                        * b[3] as u32,
                    _ => loader.defaults.afe_linear_gain,
                };
                loader.stage = Stage::TargetLevel;
            },
            (Stage::TargetLevel, Reply::Integer(level)) => {
                loader.setting.agc_target_level_dbfs = match level {
                    Ok(Some(n)) => n,
                    _ => loader.defaults.agc_target_level_dbfs,
                };
                loader.stage = Stage::CompressionGain;
            },
            (Stage::CompressionGain, Reply::Integer(gain)) => {
                loader.setting.agc_compression_gain_db = match gain {
                    Ok(Some(n)) => n,
                    _ => loader.defaults.agc_compression_gain_db,
                };
                return Progress::Done(loader.setting);
            },
            _ => {},
        }
        Progress::More(loader)
    }
}

/// What the loading comes to when a store answers every question of the loader.
pub open spec fn run(
    loader: LoaderView,
    store: spec_fn(Request) -> ReplyView,
    questions: nat,
) -> Option<Result<SettingView, i32>>
    decreases questions,
{
    if questions == 0 {
        None
    } else {
        match loader.after(store(loader.request())) {
            ProgressView::More(next) => run(next, store, (questions - 1) as nat),
            ProgressView::Done(setting) => Some(Ok(setting)),
            ProgressView::Failed(code) => Some(Err(code)),
        }
    }
}

/// Every reply brings the loader nearer to its end.
pub proof fn law_every_reply_leads_on(loader: LoaderView, reply: ReplyView)
    requires
        answers(loader.request(), reply),
    ensures
        loader.after(reply) matches ProgressView::More(next) ==> next.questions_left()
            < loader.questions_left(),
{
}

/// The loading ends after thirteen questions at most, with the settings that the store holds or
/// with the first failure that is not passed over.
pub proof fn law_loading_gives_the_stored_setting(
    store: spec_fn(Request) -> ReplyView,
    defaults: DefaultsView,
)
    requires
        answers_all(store),
    ensures
        run(LoaderView::start(defaults), store, 13) == Some(stored_setting(store, defaults)),
{
    let l1 = LoaderView::start(defaults);
    assert(answers(l1.request(), store(l1.request())));
    let l2 = l1.after(store(l1.request()))->More_0;
    assert(answers(l2.request(), store(l2.request())));
    let l3 = l2.after(store(l2.request()))->More_0;
    assert(answers(l3.request(), store(l3.request())));
    let l4 = l3.after(store(l3.request()))->More_0;
    lemma_run_from_background(l4, store, 10);
    reveal_with_fuel(run, 4);
}

/// A device that was asked to be set up has to be set up, whatever else is stored. One that was not
/// asked has to be only where it lacks a name, a password or a server.
pub proof fn law_set_up_that_is_asked_for_is_needed(
    store: spec_fn(Request) -> ReplyView,
    defaults: DefaultsView,
    state: u8,
)
    requires
        store(Request::Byte(Key::State)) == ReplyView::Byte(Ok(Some(state))),
    ensures
        stored_setting(store, defaults) matches Ok(setting) ==> needs_set_up(setting) == (state == 1
            || setting.ssid.len() == 0 || setting.pass.len() == 0 || setting.server_url.len() == 0),
{
}

proof fn lemma_run_from_background(
    loader: LoaderView,
    store: spec_fn(Request) -> ReplyView,
    questions: nat,
)
    requires
        loader.stage == Stage::HasBackground,
        answers_all(store),
        questions >= 10,
    ensures
        ({
            let background = stored_picture(
                store,
                Key::BackgroundGif,
                BACKGROUND_CAPACITY,
                loader.defaults.background_gif,
                loader.defaults.background_gif,
            );
            run(loader, store, questions) == match background {
                Err(e) => Some(Err(e)),
                Ok(picture) => run_from_avatar(
                    LoaderView {
                        setting: SettingView {
                            background_gif: (picture, false),
                            ..loader.setting
                        },
                        ..loader
                    },
                    store,
                ),
            }
        }),
{
    reveal_with_fuel(run, 4);
    assert(answers(loader.request(), store(loader.request())));
    match loader.after(store(loader.request())) {
        ProgressView::More(next) => {
            assert(answers(next.request(), store(next.request())));
            if next.stage == Stage::BackgroundLen {
                let third = next.after(store(next.request()))->More_0;
                assert(answers(third.request(), store(third.request())));
                if let ProgressView::More(fourth) = third.after(store(third.request())) {
                    lemma_run_from_avatar(fourth, store, (questions - 3) as nat);
                }
            } else {
                lemma_run_from_avatar(next, store, (questions - 1) as nat);
            }
        },
        _ => {},
    }
}

/// What the loading comes to from the question for an avatar on, but for the loader's stage.
spec fn run_from_avatar(
    loader: LoaderView,
    store: spec_fn(Request) -> ReplyView,
) -> Option<Result<SettingView, i32>> {
    let avatar = stored_picture(
        store,
        Key::AvatarGif,
        AVATAR_CAPACITY,
        Seq::empty(),
        Seq::empty(),
    );
    match (avatar, store(Request::Byte(Key::State))->Byte_0) {
        (Err(e), _) => Some(Err(e)),
        (_, Err(e)) => Some(Err(e)),
        (Ok(picture), Ok(state)) => Some(
            Ok(
                SettingView {
                    avatar_gif: (picture, false),
                    state: match state {
                        Some(byte) => byte,
                        None => 0,
                    },
                    afe_linear_gain: match store(
                        Request::Blob(Key::AfeLinearGain, GAIN_CAPACITY),
                    )->Blob_0 {
                        Ok(Some(bytes)) => little_endian(bytes),
                        _ => loader.defaults.afe_linear_gain,
                    },
                    agc_target_level_dbfs: value_or(
                        store(Request::Integer(Key::AgcTargetLevel))->Integer_0,
                        loader.defaults.agc_target_level_dbfs,
                    ),
                    agc_compression_gain_db: value_or(
                        store(Request::Integer(Key::AgcCompressionGain))->Integer_0,
                        loader.defaults.agc_compression_gain_db,
                    ),
                    ..loader.setting
                },
            ),
        ),
    }
}

proof fn lemma_run_from_avatar(
    loader: LoaderView,
    store: spec_fn(Request) -> ReplyView,
    questions: nat,
)
    requires
        loader.stage == Stage::HasAvatar,
        answers_all(store),
        questions >= 7,
    ensures
        run(loader, store, questions) == run_from_avatar(loader, store),
{
    reveal_with_fuel(run, 4);
    assert(answers(loader.request(), store(loader.request())));
    match loader.after(store(loader.request())) {
        ProgressView::More(next) => {
            assert(answers(next.request(), store(next.request())));
            if next.stage == Stage::AvatarLen {
                let third = next.after(store(next.request()))->More_0;
                assert(answers(third.request(), store(third.request())));
                if let ProgressView::More(fourth) = third.after(store(third.request())) {
                    lemma_run_from_state(fourth, store, (questions - 3) as nat);
                }
            } else {
                lemma_run_from_state(next, store, (questions - 1) as nat);
            }
        },
        _ => {},
    }
}

proof fn lemma_run_from_state(
    loader: LoaderView,
    store: spec_fn(Request) -> ReplyView,
    questions: nat,
)
    requires
        loader.stage == Stage::State,
        answers_all(store),
        questions >= 4,
    ensures
        run(loader, store, questions) == match store(Request::Byte(Key::State))->Byte_0 {
            Err(e) => Some(Err(e)),
            Ok(state) => Some(
                Ok(
                    SettingView {
                        state: match state {
                            Some(byte) => byte,
                            None => 0,
                        },
                        afe_linear_gain: match store(
                            Request::Blob(Key::AfeLinearGain, GAIN_CAPACITY),
                        )->Blob_0 {
                            Ok(Some(bytes)) => little_endian(bytes),
                            _ => loader.defaults.afe_linear_gain,
                        },
                        agc_target_level_dbfs: value_or(
                            store(Request::Integer(Key::AgcTargetLevel))->Integer_0,
                            loader.defaults.agc_target_level_dbfs,
                        ),
                        agc_compression_gain_db: value_or(
                            store(Request::Integer(Key::AgcCompressionGain))->Integer_0,
                            loader.defaults.agc_compression_gain_db,
                        ),
                        ..loader.setting
                    },
                ),
            ),
        },
{
    reveal_with_fuel(run, 5);
    assert(answers(loader.request(), store(loader.request())));
    if let ProgressView::More(second) = loader.after(store(loader.request())) {
        assert(answers(second.request(), store(second.request())));
        let third = second.after(store(second.request()))->More_0;
        assert(answers(third.request(), store(third.request())));
        let fourth = third.after(store(third.request()))->More_0;
        assert(answers(fourth.request(), store(fourth.request())));
    }
}

/// A device has to be set up where it was asked to, or where it lacks the name of its Wi-Fi, the
/// password or its server, and nowhere else.
pub proof fn law_set_up_is_needed_where_something_is_lacking(setting: SettingView)
    ensures
        setting.state == 1 ==> needs_set_up(setting),
        setting.ssid.len() == 0 ==> needs_set_up(setting),
        setting.pass.len() == 0 ==> needs_set_up(setting),
        setting.server_url.len() == 0 ==> needs_set_up(setting),
        setting.state != 1 && setting.ssid.len() > 0 && setting.pass.len() > 0
            && setting.server_url.len() > 0 ==> !needs_set_up(setting),
{
}

/// A stored number is put together from its four bytes, the lowest first, and nothing of it is
/// lost.
pub proof fn law_bytes_make_the_number(b: Seq<u8>)
    ensures
        little_endian(b) as int % 256 == b[0],
        little_endian(b) as int / 256 % 256 == b[1],
        little_endian(b) as int / 65536 % 256 == b[2],
        little_endian(b) as int / 16777216 == b[3],
{
    let v = b[0] + 256 * b[1] + 65536 * b[2] + 16777216 * b[3];
    assert(0 <= v < 0x1_0000_0000);
    assert(little_endian(b) == v);
}

/// A text that is stored, whatever it is, is the text that is loaded. One that is not stored, or
/// that cannot be read, is empty; for the server the default stands in, where there is one.
pub proof fn law_stored_texts_are_loaded(
    store: spec_fn(Request) -> ReplyView,
    defaults: DefaultsView,
    key: Key,
    t: Seq<char>,
)
    requires
        answers_all(store),
        key == Key::Ssid || key == Key::Pass || key == Key::ServerUrl,
    ensures
        run(LoaderView::start(defaults), store, 13) matches Some(Ok(setting)) ==> {
            let loaded = if key == Key::Ssid {
                setting.ssid
            } else if key == Key::Pass {
                setting.pass
            } else {
                setting.server_url
            };
            let reply = store(Request::Text(key, 128));
            &&& reply == ReplyView::Text(Ok(Some(t))) ==> loaded == t
            &&& reply->Text_0 is Err || reply == ReplyView::Text(Ok(None)) ==> loaded == if key
                == Key::ServerUrl && defaults.server_url is Some {
                defaults.server_url->0
            } else {
                seq![]
            }
        },
{
    law_loading_gives_the_stored_setting(store, defaults);
    assert(answers(Request::Text(key, 128), store(Request::Text(key, 128))));
}

/// Numbers that are stored are the numbers that are loaded; for those that are not stored, or that
/// cannot be read, the defaults stand in. The state is zero where none is stored.
pub proof fn law_stored_numbers_are_loaded(
    store: spec_fn(Request) -> ReplyView,
    defaults: DefaultsView,
    n: i32,
    byte: u8,
    bytes: Seq<u8>,
)
    requires
        answers_all(store),
    ensures
        run(LoaderView::start(defaults), store, 13) matches Some(Ok(setting)) ==> {
            let level = store(Request::Integer(Key::AgcTargetLevel));
            let gain = store(Request::Integer(Key::AgcCompressionGain));
            let state = store(Request::Byte(Key::State));
            let linear = store(Request::Blob(Key::AfeLinearGain, 4));
            &&& level == ReplyView::Integer(Ok(Some(n))) ==> setting.agc_target_level_dbfs == n
            &&& level->Integer_0 is Err || level == ReplyView::Integer(Ok(None))
                ==> setting.agc_target_level_dbfs == defaults.agc_target_level_dbfs
            &&& gain == ReplyView::Integer(Ok(Some(n))) ==> setting.agc_compression_gain_db == n
            &&& gain->Integer_0 is Err || gain == ReplyView::Integer(Ok(None))
                ==> setting.agc_compression_gain_db == defaults.agc_compression_gain_db
            &&& state == ReplyView::Byte(Ok(Some(byte))) ==> setting.state == byte
            &&& state == ReplyView::Byte(Ok(None)) ==> setting.state == 0
            &&& linear == ReplyView::Blob(Ok(Some(bytes))) ==> setting.afe_linear_gain == bytes[0]
                + 256 * bytes[1] + 65536 * bytes[2] + 16777216 * bytes[3]
            &&& linear->Blob_0 is Err || linear == ReplyView::Blob(Ok(None))
                ==> setting.afe_linear_gain == defaults.afe_linear_gain
        },
{
    law_loading_gives_the_stored_setting(store, defaults);
    assert(answers(
        Request::Integer(Key::AgcTargetLevel),
        store(Request::Integer(Key::AgcTargetLevel)),
    ));
    assert(answers(
        Request::Integer(Key::AgcCompressionGain),
        store(Request::Integer(Key::AgcCompressionGain)),
    ));
    assert(answers(Request::Byte(Key::State), store(Request::Byte(Key::State))));
    assert(answers(
        Request::Blob(Key::AfeLinearGain, 4),
        store(Request::Blob(Key::AfeLinearGain, 4)),
    ));
}

/// A picture that is stored, whatever it is, is the picture that is loaded: it is read into as many
/// bytes as are announced for it, and into 1048576 for the background or 131072 for the avatar
/// where none are announced. Without one the default stands in for the background, and nothing for
/// the avatar. A picture that has gone between two questions is replaced by the default too, unless
/// that has just the size that was set aside: then it is all zeros.
pub proof fn law_stored_pictures_are_loaded(
    store: spec_fn(Request) -> ReplyView,
    defaults: DefaultsView,
    background: bool,
    bytes: Seq<u8>,
)
    requires
        answers_all(store),
    ensures
        run(LoaderView::start(defaults), store, 13) matches Some(Ok(setting)) ==> {
            let key = if background {
                Key::BackgroundGif
            } else {
                Key::AvatarGif
            };
            let loaded = if background {
                setting.background_gif
            } else {
                setting.avatar_gif
            };
            let default = if background {
                defaults.background_gif
            } else {
                seq![]
            };
            let size = match store(Request::BlobLen(key))->BlobLen_0 {
                Ok(Some(n)) => n,
                _ => if background {
                    1_048_576usize
                } else {
                    131_072usize
                },
            };
            let found = store(Request::Contains(key)) == ReplyView::Contains(Ok(true));
            &&& !loaded.1
            &&& !found ==> loaded.0 == default
            &&& found && store(Request::Blob(key, size)) == ReplyView::Blob(Ok(Some(bytes)))
                ==> loaded.0 == bytes
            &&& found && store(Request::Blob(key, size)) == ReplyView::Blob(Ok(None)) ==> {
                &&& default.len() != size ==> loaded.0 == default
                &&& default.len() == size ==> loaded.0.len() == size && forall|i: int|
                    0 <= i < size ==> #[trigger] loaded.0[i] == 0
            }
        },
{
    law_loading_gives_the_stored_setting(store, defaults);
    let key = if background {
        Key::BackgroundGif
    } else {
        Key::AvatarGif
    };
    let size = match store(Request::BlobLen(key))->BlobLen_0 {
        Ok(Some(n)) => n,
        _ => if background {
            1_048_576usize
        } else {
            131_072usize
        },
    };
    assert(answers(Request::Contains(key), store(Request::Contains(key))));
    assert(answers(Request::BlobLen(key), store(Request::BlobLen(key))));
    assert(answers(Request::Blob(key, size), store(Request::Blob(key, size))));
}

/// The loading always ends. It fails exactly where the storage fails when it is asked whether there
/// is a picture, for a picture, or for the state, with the code of the first such failure; any
/// other failure is passed over.
pub proof fn law_loading_fails_only_for_pictures_and_state(
    store: spec_fn(Request) -> ReplyView,
    defaults: DefaultsView,
)
    requires
        answers_all(store),
    ensures
        ({
            let failure = |key: Key, capacity: usize|
                match store(Request::Contains(key))->Contains_0 {
                    Err(e) => Some(e),
                    Ok(false) => None,
                    Ok(true) => match store(
                        Request::Blob(
                            key,
                            match store(Request::BlobLen(key))->BlobLen_0 {
                                Ok(Some(n)) => n,
                                _ => capacity,
                            },
                        ),
                    )->Blob_0 {
                        Err(e) => Some(e),
                        Ok(_) => None,
                    },
                };
            let first = failure(Key::BackgroundGif, 1_048_576);
            let second = failure(Key::AvatarGif, 131_072);
            let third = match store(Request::Byte(Key::State))->Byte_0 {
                Err(e) => Some(e),
                Ok(_) => None,
            };
            match run(LoaderView::start(defaults), store, 13) {
                Some(Ok(_)) => first is None && second is None && third is None,
                Some(Err(e)) => if first is Some {
                    first == Some(e)
                } else if second is Some {
                    second == Some(e)
                } else {
                    third == Some(e)
                },
                None => false,
            }
        }),
{
    law_loading_gives_the_stored_setting(store, defaults);
}

} // verus!
