//! The network: joining a Wi-Fi, fetching and posting over HTTP, and updates over the air.
use crate::script::Script;
use crate::text::{decimal, decimal_text, signed_decimal, signed_decimal_text};
use vstd::prelude::*;
use vstd::utf8::encode_utf8;

verus! {

/// How a station proves that it may join.
#[derive(Clone, Copy, Debug, PartialEq, Eq, Structural)]
pub enum AuthMethod {
    /// Not at all.
    Open,
    /// By a password, as in WPA2.
    Wpa2Personal,
}

/// Something that is to be done to join a Wi-Fi.
#[derive(Debug, PartialEq, Eq)]
pub enum WifiAction {
    /// Make the driver of the modem.
    Create,
    /// Let the driver wait for what it does.
    Wrap,
    /// Tell the driver what to join and how.
    Configure {
        ssid: String,
        password: String,
        auth_method: AuthMethod,
    },
    /// Start the modem.
    Start,
    /// Join.
    Connect,
    /// Wait for an address.
    WaitForAddress,
    /// Ask for the address.
    ReadAddress,
}

/// The model of a [`WifiAction`].
pub enum WifiActionView {
    Create,
    Wrap,
    Configure { ssid: Seq<char>, password: Seq<char>, auth_method: AuthMethod },
    Start,
    Connect,
    WaitForAddress,
    ReadAddress,
}

impl View for WifiAction {
    type V = WifiActionView;

    open spec fn view(&self) -> WifiActionView {
        match *self {
            WifiAction::Create => WifiActionView::Create,
            WifiAction::Wrap => WifiActionView::Wrap,
            WifiAction::Configure { ssid, password, auth_method } => WifiActionView::Configure {
                ssid: ssid@,
                password: password@,
                auth_method,
            },
            WifiAction::Start => WifiActionView::Start,
            WifiAction::Connect => WifiActionView::Connect,
            WifiAction::WaitForAddress => WifiActionView::WaitForAddress,
            WifiAction::ReadAddress => WifiActionView::ReadAddress,
        }
    }
}

/// Bytes that the name of a Wi-Fi may take.
pub const NAME_CAPACITY: usize = 32;

/// Bytes that the password of a Wi-Fi may take.
pub const PASSWORD_CAPACITY: usize = 64;

/// Why a Wi-Fi is not even tried.
#[derive(Clone, Copy, Debug, PartialEq, Eq, Structural)]
pub enum WifiError {
    /// It has no name.
    MissingName,
}

impl WifiError {
    /// What is said of the error.
    pub fn message(self) -> (text: &'static str)
        ensures
            text@ == "Missing WiFi name"@,
    {
        "Missing WiFi name"
    }
}

/// How a Wi-Fi with this password is joined: without any proof where the password is empty.
pub open spec fn auth_method_for(pass: Seq<char>) -> AuthMethod {
    if pass.len() == 0 {
        AuthMethod::Open
    } else {
        AuthMethod::Wpa2Personal
    }
}

/// What joins a Wi-Fi.
pub open spec fn wifi_actions(ssid: Seq<char>, pass: Seq<char>) -> Seq<WifiActionView> {
    seq![
        WifiActionView::Create,
        WifiActionView::Wrap,
        WifiActionView::Configure { ssid, password: pass, auth_method: auth_method_for(pass) },
        WifiActionView::Start,
        WifiActionView::Connect,
        WifiActionView::WaitForAddress,
        WifiActionView::ReadAddress,
    ]
}

/// The modem can be told of this name and this password.
pub open spec fn fits_modem(ssid: Seq<char>, pass: Seq<char>) -> bool {
    encode_utf8(ssid).len() <= NAME_CAPACITY && encode_utf8(pass).len() <= PASSWORD_CAPACITY
}

/// Tells what joins a Wi-Fi. One without a name is not tried, whatever its password is; of any
/// other the name and the password have to fit the modem.
pub fn wifi(ssid: &str, pass: &str) -> (result: Result<Script<WifiAction>, WifiError>)
    requires
        ssid@.len() > 0 ==> fits_modem(ssid@, pass@),
    ensures
        match result {
            Ok(script) => {
                &&& ssid@.len() > 0
                &&& script@.wf()
                &&& script@.done == 0
                &&& script@.actions.map_values(|a: WifiAction| a@) == wifi_actions(ssid@, pass@)
            },
            Err(e) => e == WifiError::MissingName && ssid@.len() == 0,
        },
{
    if ssid.is_empty() {
        return Err(WifiError::MissingName);
    }
    let auth_method = if pass.is_empty() {
        AuthMethod::Open
    } else {
        AuthMethod::Wpa2Personal
    };
    let mut actions: Vec<WifiAction> = Vec::new();
    actions.push(WifiAction::Create);
    actions.push(WifiAction::Wrap);
    actions.push(
        WifiAction::Configure { ssid: ssid.to_owned(), password: pass.to_owned(), auth_method },
    );
    actions.push(WifiAction::Start);
    actions.push(WifiAction::Connect);
    actions.push(WifiAction::WaitForAddress);
    actions.push(WifiAction::ReadAddress);
    assert(actions@.map_values(|a: WifiAction| a@) =~= wifi_actions(ssid@, pass@));
    Ok(Script::new(actions))
}

/// What a request wants done.
#[derive(Clone, Copy, Debug, PartialEq, Eq, Structural)]
pub enum HttpMethod {
    Get,
    Post,
}

/// How a request begins: its method, its URL and the headers that are put into it.
#[derive(Debug, PartialEq, Eq)]
pub struct RequestHead {
    pub method: HttpMethod,
    pub url: String,
    /// The names and the values of the headers.
    pub headers: Vec<(String, String)>,
}

/// The model of a [`RequestHead`].
pub struct RequestHeadView {
    pub method: HttpMethod,
    pub url: Seq<char>,
    pub headers: Seq<(Seq<char>, Seq<char>)>,
}

impl View for RequestHead {
    type V = RequestHeadView;

    open spec fn view(&self) -> RequestHeadView {
        RequestHeadView {
            method: self.method,
            url: self.url@,
            headers: self.headers@.map_values(|h: (String, String)| (h.0@, h.1@)),
        }
    }
}

/// How a request for what is at a URL begins: it has no headers of its own.
pub open spec fn get_head(url: Seq<char>) -> RequestHeadView {
    RequestHeadView { method: HttpMethod::Get, url, headers: seq![] }
}

/// How a request that brings so many bytes to a URL begins: it tells how many they are.
pub open spec fn post_head(url: Seq<char>, length: nat) -> RequestHeadView {
    RequestHeadView {
        method: HttpMethod::Post,
        url,
        headers: seq![("Content-Length"@, decimal(length))],
    }
}

/// Something that is to be done to fetch something over HTTP.
#[derive(Debug, PartialEq, Eq)]
pub enum GetAction {
    /// Make a connection.
    Open,
    /// Send a request that begins like this.
    Request(RequestHead),
    /// Wait for the response.
    AwaitResponse,
}

/// The model of a [`GetAction`].
pub enum GetActionView {
    Open,
    Request(RequestHeadView),
    AwaitResponse,
}

impl View for GetAction {
    type V = GetActionView;

    open spec fn view(&self) -> GetActionView {
        match *self {
            GetAction::Open => GetActionView::Open,
            GetAction::Request(head) => GetActionView::Request(head@),
            GetAction::AwaitResponse => GetActionView::AwaitResponse,
        }
    }
}

/// What fetches what is at a URL.
pub open spec fn get_actions(url: Seq<char>) -> Seq<GetActionView> {
    seq![
        GetActionView::Open,
        GetActionView::Request(get_head(url)),
        GetActionView::AwaitResponse,
    ]
}

/// Tells what fetches what is at a URL, up to the body of the response.
pub fn http_get(url: &str) -> (script: Script<GetAction>)
    ensures
        script@.wf(),
        script@.done == 0,
        script@.actions.map_values(|a: GetAction| a@) == get_actions(url@),
{
    let head = RequestHead { method: HttpMethod::Get, url: url.to_owned(), headers: Vec::new() };
    assert(head@.headers =~= get_head(url@).headers);
    let mut actions: Vec<GetAction> = Vec::new();
    actions.push(GetAction::Open);
    actions.push(GetAction::Request(head));
    actions.push(GetAction::AwaitResponse);
    assert(actions@.map_values(|a: GetAction| a@) =~= get_actions(url@));
    Script::new(actions)
}

/// How far the posting has come.
#[derive(Clone, Copy, Debug, PartialEq, Eq, Structural)]
pub enum PostStage {
    /// Make a connection.
    Open,
    /// Send the request, which begins as [`Post::head`] tells.
    Request,
    /// Write the data from this place on.
    Write(usize),
    /// Wait for the response.
    AwaitResponse,
}

/// What came of a step of the posting.
#[derive(Clone, Copy, Debug, PartialEq, Eq, Structural)]
pub enum PostEvent {
    /// It succeeded.
    Succeeded,
    /// So many bytes were written.
    Wrote(usize),
    /// It failed with this code.
    Failed(i32),
}

/// The posting of data over HTTP.
#[derive(Clone, Copy, Debug, PartialEq, Eq)]
pub struct Post<'a> {
    pub stage: PostStage,
    pub url: &'a str,
    pub data: &'a [u8],
}

/// What an event leads to.
#[derive(Clone, Copy, Debug, PartialEq, Eq)]
pub enum PostStep<'a> {
    More(Post<'a>),
    /// The response has come, up to its body.
    Done,
    Failed(i32),
}

impl<'a> Post<'a> {
    /// There is something left to write where something is to be written.
    pub open spec fn wf(self) -> bool {
        &&& self.data@.len() <= usize::MAX
        &&& self.stage matches PostStage::Write(offset) ==> offset < self.data@.len()
    }

    /// An event is one that the step in turn can have. The count of what was written stays within
    /// the numbers of the machine.
    pub open spec fn expects(self, event: PostEvent) -> bool {
        match event {
            PostEvent::Succeeded => !(self.stage is Write),
            PostEvent::Wrote(n) => self.stage matches PostStage::Write(offset) && offset + n
                <= usize::MAX,
            PostEvent::Failed(_) => true,
        }
    }

    /// The step at which the data is written from `offset` on, or the one after it.
    pub open spec fn write_from(self, offset: int) -> PostStep<'a> {
        let stage = if offset < self.data@.len() {
            PostStage::Write(offset as usize)
        } else {
            PostStage::AwaitResponse
        };
        PostStep::More(Post { stage, ..self })
    }

    /// What an event leads to.
    pub open spec fn after(self, event: PostEvent) -> PostStep<'a> {
        match (self.stage, event) {
            (_, PostEvent::Failed(code)) => PostStep::Failed(code),
            (PostStage::Open, _) => PostStep::More(Post { stage: PostStage::Request, ..self }),
            (PostStage::Request, _) => self.write_from(0),
            (PostStage::Write(offset), PostEvent::Wrote(n)) => self.write_from(offset + n),
            (PostStage::Write(_), _) => PostStep::More(self),
            (PostStage::AwaitResponse, _) => PostStep::Done,
        }
    }

    /// The bytes that have been written.
    pub open spec fn written(self) -> Seq<u8> {
        match self.stage {
            PostStage::Open => Seq::empty(),
            PostStage::Request => Seq::empty(),
            PostStage::Write(offset) => self.data@.take(offset as int),
            PostStage::AwaitResponse => self.data@,
        }
    }

    /// The bytes that are to be written.
    pub open spec fn spec_rest(self) -> Seq<u8> {
        match self.stage {
            PostStage::Write(offset) => self.data@.skip(offset as int),
            _ => Seq::empty(),
        }
    }

    /// The bytes that were written where `n` were taken: no more than were to be written.
    pub open spec fn taken(self, n: usize) -> Seq<u8> {
        if n <= self.spec_rest().len() {
            self.spec_rest().take(n as int)
        } else {
            self.spec_rest()
        }
    }

    /// How the request begins.
    pub fn head(&self) -> (head: RequestHead)
        ensures
            head@ == post_head(self.url@, self.data@.len()),
    {
        let mut headers: Vec<(String, String)> = Vec::new();
        headers.push(("Content-Length".to_owned(), decimal_text(self.data.len() as u64)));
        let head = RequestHead { method: HttpMethod::Post, url: self.url.to_owned(), headers };
        assert(head@.headers =~= post_head(self.url@, self.data@.len()).headers);
        head
    }

    /// The bytes that are to be written.
    pub fn rest(&self) -> (rest: &'a [u8])
        requires
            self.wf(),
        ensures
            rest@ == self.spec_rest(),
    {
        match self.stage {
            PostStage::Write(offset) => {
                let rest = vstd::slice::slice_subrange(self.data, offset, self.data.len());
                assert(rest@ =~= self.data@.skip(offset as int));
                rest
            },
            _ => {
                let rest = vstd::slice::slice_subrange(self.data, 0, 0);
                assert(rest@ =~= Seq::empty());
                rest
            },
        }
    }

    /// Takes what came of the step in turn.
    pub fn report(self, event: PostEvent) -> (step: PostStep<'a>)
        requires
            self.wf(),
            self.expects(event),
        ensures
            step == self.after(event),
            step matches PostStep::More(next) ==> next.wf(),
    {
        let length: usize = self.data.len();
        let stage = match (self.stage, event) {
            (_, PostEvent::Failed(code)) => {
                return PostStep::Failed(code);
            },
            (PostStage::Open, _) => PostStage::Request,
            (PostStage::Request, _) => if length == 0 {
                PostStage::AwaitResponse
            } else {
                PostStage::Write(0)
            },
            (PostStage::Write(offset), PostEvent::Wrote(n)) => if offset + n < length {
                PostStage::Write(offset + n)
            } else {
                PostStage::AwaitResponse
            },
            (PostStage::Write(offset), _) => PostStage::Write(offset),
            (PostStage::AwaitResponse, _) => {
                return PostStep::Done;
            },
        };
        PostStep::More(Post { stage, ..self })
    }
}

/// Begins to post data to a URL.
pub fn http_post<'a>(url: &'a str, data: &'a [u8]) -> (post: Post<'a>)
    ensures
        post.stage == PostStage::Open,
        post.url == url,
        post.data == data,
        post.wf(),
{
    assert(data@.len() == data.len());
    Post { stage: PostStage::Open, url, data }
}

/// The data is written from its start to its end without a gap: what a step writes is what follows
/// the bytes that were written before, and the response is waited for only when all are written.
pub proof fn law_post_writes_all(post: Post, event: PostEvent)
    requires
        post.wf(),
        post.expects(event),
    ensures
        match post.after(event) {
            PostStep::More(next) => {
                &&& next.url == post.url
                &&& next.data == post.data
                &&& next.written() == post.written() + match event {
                    PostEvent::Wrote(n) => post.taken(n),
                    _ => Seq::empty(),
                }
                &&& next.stage is AwaitResponse ==> next.written() == post.data@
            },
            PostStep::Done => post.written() == post.data@,
            PostStep::Failed(code) => event == PostEvent::Failed(code),
        },
{
    if let PostStep::More(next) = post.after(event) {
        match event {
            PostEvent::Wrote(n) => {
                assert(next.written() =~= post.written() + post.taken(n));
            },
            _ => {
                assert(next.written() =~= post.written() + Seq::<u8>::empty());
            },
        }
    }
}

/// How a posting ends, and the bytes that were written by then, when its steps come to these
/// events.
pub open spec fn post_run<'a>(post: Post<'a>, events: Seq<PostEvent>) -> (PostStep<'a>, Seq<u8>)
    decreases events.len(),
{
    if events.len() == 0 {
        (PostStep::More(post), Seq::empty())
    } else {
        let wrote = match events[0] {
            PostEvent::Wrote(n) => post.taken(n),
            _ => Seq::empty(),
        };
        match post.after(events[0]) {
            PostStep::More(next) => {
                let (end, rest) = post_run(next, events.drop_first());
                (end, wrote + rest)
            },
            end => (end, wrote),
        }
    }
}

/// Every event is one that the step in turn can have.
pub open spec fn all_posted(post: Post, events: Seq<PostEvent>) -> bool
    decreases events.len(),
{
    events.len() > 0 ==> post.expects(events[0]) && match post.after(events[0]) {
        PostStep::More(next) => all_posted(next, events.drop_first()),
        _ => true,
    }
}

/// However the bytes are taken by the connection: a posting that ends well has written the data,
/// all of it, each byte once and in order.
pub proof fn law_posted_data_is_whole(post: Post, events: Seq<PostEvent>)
    requires
        post.wf(),
        all_posted(post, events),
    ensures
        post_run(post, events).0 is Done ==> post.written() + post_run(post, events).1
            == post.data@,
    decreases events.len(),
{
    if events.len() > 0 {
        law_post_writes_all(post, events[0]);
        let wrote = match events[0] {
            PostEvent::Wrote(n) => post.taken(n),
            _ => Seq::<u8>::empty(),
        };
        match post.after(events[0]) {
            PostStep::More(next) => {
                law_posted_data_is_whole(next, events.drop_first());
                let rest = post_run(next, events.drop_first()).1;
                assert(post.written() + wrote + rest =~= post.written() + (wrote + rest));
            },
            _ => {
                assert(post.written() + Seq::<u8>::empty() =~= post.written());
            },
        }
    }
}

/// Bytes of an update that are read at once.
pub const UPDATE_CHUNK: usize = 4096;

/// Why an update was given up, with the code.
#[derive(Clone, Copy, Debug, PartialEq, Eq, Structural)]
pub enum UpdateError {
    /// The update could not be fetched.
    Fetch(i32),
    /// There is no place to put it.
    NoPartition,
    Begin(i32),
    Write(i32),
    Read(i32),
    End(i32),
    SetBoot(i32),
}

/// What is said of a failed call: its name, the code and the name of the code.
pub open spec fn failed_call(call: Seq<char>, code: i32, name: Seq<char>) -> Seq<char> {
    call + " failed: "@ + signed_decimal(code as int) + " ("@ + name + ")"@
}

fn failed_call_text(call: &str, code: i32, name: &str) -> (text: String)
    ensures
        text@ == failed_call(call@, code, name@),
{
    let mut text = call.to_owned();
    text.append(" failed: ");
    text.append(signed_decimal_text(code).as_str());
    text.append(" (");
    text.append(name);
    text.append(")");
    text
}

impl UpdateError {
    /// What is said of the error, whose code has the given name.
    pub open spec fn spec_message(self, name: Seq<char>) -> Seq<char> {
        match self {
            UpdateError::Fetch(_) => name,
            UpdateError::NoPartition => "No OTA partition available"@,
            UpdateError::Begin(code) => failed_call("esp_ota_begin"@, code, name),
            UpdateError::Write(code) => failed_call("esp_ota_write"@, code, name),
            UpdateError::Read(code) => "HTTP read error during OTA: "@ + name + " (error code "@
                + signed_decimal(code as int) + ")"@,
            UpdateError::End(code) => failed_call("esp_ota_end"@, code, name),
            UpdateError::SetBoot(code) => failed_call("esp_ota_set_boot_partition"@, code, name),
        }
    }

    /// What is said of the error, whose code has the given name.
    pub fn message(self, name: &str) -> (text: String)
        ensures
            text@ == self.spec_message(name@),
    {
        match self {
            UpdateError::Fetch(_) => name.to_owned(),
            UpdateError::NoPartition => "No OTA partition available".to_owned(),
            UpdateError::Begin(code) => failed_call_text("esp_ota_begin", code, name),
            UpdateError::Write(code) => failed_call_text("esp_ota_write", code, name),
            UpdateError::Read(code) => {
                let mut text = "HTTP read error during OTA: ".to_owned();
                text.append(name);
                text.append(" (error code ");
                text.append(signed_decimal_text(code).as_str());
                text.append(")");
                text
            },
            UpdateError::End(code) => failed_call_text("esp_ota_end", code, name),
            UpdateError::SetBoot(code) => failed_call_text(
                "esp_ota_set_boot_partition",
                code,
                name,
            ),
        }
    }
}

/// A partition that was made ready for an update.
#[derive(Clone, Copy, Debug, PartialEq, Eq, Structural)]
pub struct Opened {
    /// By what the platform knows the partition.
    pub partition: usize,
    /// The handle that the platform gave for writing to it.
    pub handle: u32,
}

/// How far an update has come: what is to be done.
#[derive(Debug, PartialEq, Eq)]
pub enum Update {
    /// Fetch the update, up to its body.
    Fetch,
    /// Find the partition that is not running.
    FindPartition,
    /// Make this partition ready.
    Begin(usize),
    /// Read the next bytes of the update, [`UPDATE_CHUNK`] at most.
    Read(Opened),
    /// Write these bytes.
    Write(Opened, Vec<u8>),
    /// Give the partition up because of this error; whether that succeeds does not matter.
    Abort(Opened, UpdateError),
    /// Check the partition and close it.
    End(Opened),
    /// Run from this partition at the next start.
    SetBoot(usize),
}

/// The model of an [`Update`].
pub enum UpdateView {
    Fetch,
    FindPartition,
    Begin(usize),
    Read(Opened),
    Write(Opened, Seq<u8>),
    Abort(Opened, UpdateError),
    End(Opened),
    SetBoot(usize),
}

impl View for Update {
    type V = UpdateView;

    open spec fn view(&self) -> UpdateView {
        match *self {
            Update::Fetch => UpdateView::Fetch,
            Update::FindPartition => UpdateView::FindPartition,
            Update::Begin(partition) => UpdateView::Begin(partition),
            Update::Read(opened) => UpdateView::Read(opened),
            Update::Write(opened, bytes) => UpdateView::Write(opened, bytes@),
            Update::Abort(opened, error) => UpdateView::Abort(opened, error),
            Update::End(opened) => UpdateView::End(opened),
            Update::SetBoot(partition) => UpdateView::SetBoot(partition),
        }
    }
}

/// What came of a step of an update.
#[derive(Debug, PartialEq, Eq)]
pub enum UpdateEvent {
    /// It ended with this code; 0 tells that it succeeded.
    Ended(i32),
    /// This partition was found, or none.
    Partition(Option<usize>),
    /// Making the partition ready ended with this code and gave this handle.
    Begun(i32, u32),
    /// These bytes were read; none tells that the update is at its end.
    ReadBytes(Vec<u8>),
    /// The reading failed with this code.
    ReadFailed(i32),
}

/// The model of an [`UpdateEvent`].
pub enum UpdateEventView {
    Ended(i32),
    Partition(Option<usize>),
    Begun(i32, u32),
    ReadBytes(Seq<u8>),
    ReadFailed(i32),
}

impl View for UpdateEvent {
    type V = UpdateEventView;

    open spec fn view(&self) -> UpdateEventView {
        match *self {
            UpdateEvent::Ended(code) => UpdateEventView::Ended(code),
            UpdateEvent::Partition(found) => UpdateEventView::Partition(found),
            UpdateEvent::Begun(code, handle) => UpdateEventView::Begun(code, handle),
            UpdateEvent::ReadBytes(bytes) => UpdateEventView::ReadBytes(bytes@),
            UpdateEvent::ReadFailed(code) => UpdateEventView::ReadFailed(code),
        }
    }
}

/// What an event leads to.
#[derive(Debug, PartialEq, Eq)]
pub enum UpdateStep {
    More(Update),
    /// The update will run at the next start.
    Done,
    Failed(UpdateError),
}

/// The model of an [`UpdateStep`].
pub enum UpdateStepView {
    More(UpdateView),
    Done,
    Failed(UpdateError),
}

impl View for UpdateStep {
    type V = UpdateStepView;

    open spec fn view(&self) -> UpdateStepView {
        match *self {
            UpdateStep::More(next) => UpdateStepView::More(next@),
            UpdateStep::Done => UpdateStepView::Done,
            UpdateStep::Failed(error) => UpdateStepView::Failed(error),
        }
    }
}

impl UpdateView {
    /// An event is one that the step in turn can have.
    pub open spec fn expects(self, event: UpdateEventView) -> bool {
        match self {
            UpdateView::FindPartition => event is Partition,
            UpdateView::Begin(_) => event is Begun,
            UpdateView::Read(_) => match event {
                UpdateEventView::ReadBytes(bytes) => bytes.len() <= UPDATE_CHUNK,
                UpdateEventView::ReadFailed(_) => true,
                _ => false,
            },
            _ => event is Ended,
        }
    }

    /// What an event leads to.
    pub open spec fn after(self, event: UpdateEventView) -> UpdateStepView {
        match (self, event) {
            (UpdateView::Fetch, UpdateEventView::Ended(code)) => if code != 0 {
                UpdateStepView::Failed(UpdateError::Fetch(code))
            } else {
                UpdateStepView::More(UpdateView::FindPartition)
            },
            (UpdateView::FindPartition, UpdateEventView::Partition(found)) => match found {
                Some(partition) => UpdateStepView::More(UpdateView::Begin(partition)),
                None => UpdateStepView::Failed(UpdateError::NoPartition),
            },
            (UpdateView::Begin(partition), UpdateEventView::Begun(code, handle)) => if code != 0 {
                UpdateStepView::Failed(UpdateError::Begin(code))
            } else {
                UpdateStepView::More(UpdateView::Read(Opened { partition, handle }))
            },
            (UpdateView::Read(opened), UpdateEventView::ReadBytes(bytes)) => if bytes.len() == 0 {
                UpdateStepView::More(UpdateView::End(opened))
            } else {
                UpdateStepView::More(UpdateView::Write(opened, bytes))
            },
            (UpdateView::Read(opened), UpdateEventView::ReadFailed(code)) => UpdateStepView::More(
                UpdateView::Abort(opened, UpdateError::Read(code)),
            ),
            (UpdateView::Write(opened, _), UpdateEventView::Ended(code)) => if code != 0 {
                UpdateStepView::More(UpdateView::Abort(opened, UpdateError::Write(code)))
            } else {
                UpdateStepView::More(UpdateView::Read(opened))
            },
            (UpdateView::Abort(_, error), UpdateEventView::Ended(_)) => UpdateStepView::Failed(
                error,
            ),
            (UpdateView::End(opened), UpdateEventView::Ended(code)) => if code != 0 {
                UpdateStepView::Failed(UpdateError::End(code))
            } else {
                UpdateStepView::More(UpdateView::SetBoot(opened.partition))
            },
            (UpdateView::SetBoot(_), UpdateEventView::Ended(code)) => if code != 0 {
                UpdateStepView::Failed(UpdateError::SetBoot(code))
            } else {
                UpdateStepView::Done
            },
            _ => UpdateStepView::More(self),
        }
    }
}

impl Update {
    /// Takes what came of the step in turn.
    pub fn report(self, event: UpdateEvent) -> (step: UpdateStep)
        requires
            self@.expects(event@),
        ensures
            step@ == self@.after(event@),
    {
        match (self, event) {
            (Update::Fetch, UpdateEvent::Ended(code)) => if code != 0 {
                UpdateStep::Failed(UpdateError::Fetch(code))
            } else {
                UpdateStep::More(Update::FindPartition)
            },
            (Update::FindPartition, UpdateEvent::Partition(found)) => match found {
                Some(partition) => UpdateStep::More(Update::Begin(partition)),
                None => UpdateStep::Failed(UpdateError::NoPartition),
            },
            (Update::Begin(partition), UpdateEvent::Begun(code, handle)) => if code != 0 {
                UpdateStep::Failed(UpdateError::Begin(code))
            } else {
                UpdateStep::More(Update::Read(Opened { partition, handle }))
            },
            (Update::Read(opened), UpdateEvent::ReadBytes(bytes)) => if bytes.len() == 0 {
                UpdateStep::More(Update::End(opened))
            } else {
                UpdateStep::More(Update::Write(opened, bytes))
            },
            (Update::Read(opened), UpdateEvent::ReadFailed(code)) => UpdateStep::More(
                Update::Abort(opened, UpdateError::Read(code)),
            ),
            (Update::Write(opened, _), UpdateEvent::Ended(code)) => if code != 0 {
                UpdateStep::More(Update::Abort(opened, UpdateError::Write(code)))
            } else {
                UpdateStep::More(Update::Read(opened))
            },
            (Update::Abort(_, error), UpdateEvent::Ended(_)) => UpdateStep::Failed(error),
            (Update::End(opened), UpdateEvent::Ended(code)) => if code != 0 {
                UpdateStep::Failed(UpdateError::End(code))
            } else {
                UpdateStep::More(Update::SetBoot(opened.partition))
            },
            (Update::SetBoot(_), UpdateEvent::Ended(code)) => if code != 0 {
                UpdateStep::Failed(UpdateError::SetBoot(code))
            } else {
                UpdateStep::Done
            },
            (other, _) => UpdateStep::More(other),
        }
    }
}

/// Begins an update over the air: what fetches it, and the update itself.
pub fn ota_update_from_url(url: &str) -> (begun: (Script<GetAction>, Update))
    ensures
        begun.0@.wf(),
        begun.0@.done == 0,
        begun.0@.actions.map_values(|a: GetAction| a@) == get_actions(url@),
        begun.1@ == UpdateView::Fetch,
{
    (http_get(url), Update::Fetch)
}

/// What an update has done so far.
pub struct UpdateLog {
    /// The partition that was made ready.
    pub begun: Option<Opened>,
    /// The chunks that were read.
    pub read: Seq<Seq<u8>>,
    /// What was written, each time with the handle to which it was written.
    pub written: Seq<(u32, Seq<u8>)>,
    /// The handles that were given up, and those that were closed.
    pub aborted: Seq<u32>,
    pub ended: Seq<u32>,
    /// The partition that runs at the next start, where that was changed.
    pub boot: Option<usize>,
}

impl UpdateLog {
    /// Nothing was done.
    pub open spec fn empty() -> UpdateLog {
        UpdateLog {
            begun: None,
            read: seq![],
            written: seq![],
            aborted: seq![],
            ended: seq![],
            boot: None,
        }
    }

    /// What was done after another step, which came to `event`.
    pub open spec fn and(self, update: UpdateView, event: UpdateEventView) -> UpdateLog {
        match (update, event) {
            (UpdateView::Begin(partition), UpdateEventView::Begun(code, handle)) => if code == 0 {
                UpdateLog { begun: Some(Opened { partition, handle }), ..self }
            } else {
                self
            },
            (UpdateView::Read(_), UpdateEventView::ReadBytes(bytes)) => if bytes.len() > 0 {
                UpdateLog { read: self.read.push(bytes), ..self }
            } else {
                self
            },
            (UpdateView::Write(opened, bytes), UpdateEventView::Ended(code)) => if code == 0 {
                UpdateLog { written: self.written.push((opened.handle, bytes)), ..self }
            } else {
                self
            },
            (UpdateView::Abort(opened, _), _) => UpdateLog {
                aborted: self.aborted.push(opened.handle),
                ..self
            },
            (UpdateView::End(opened), _) => UpdateLog {
                ended: self.ended.push(opened.handle),
                ..self
            },
            (UpdateView::SetBoot(partition), UpdateEventView::Ended(code)) => if code == 0 {
                UpdateLog { boot: Some(partition), ..self }
            } else {
                self
            },
            _ => self,
        }
    }
}

/// One write to the handle for each chunk, in order.
pub open spec fn writes(handle: u32, chunks: Seq<Seq<u8>>) -> Seq<(u32, Seq<u8>)> {
    chunks.map_values(|chunk: Seq<u8>| (handle, chunk))
}

/// All bytes that were written, in order.
pub open spec fn bytes_written(written: Seq<(u32, Seq<u8>)>) -> Seq<u8> {
    written.map_values(|write: (u32, Seq<u8>)| write.1).flatten()
}

/// What an update has done when it comes to a step.
pub open spec fn log_fits(update: UpdateView, log: UpdateLog) -> bool {
    let in_turn = |opened: Opened, chunks: Seq<Seq<u8>>|
        {
            &&& log.begun == Some(opened)
            &&& log.written == writes(opened.handle, chunks)
            &&& log.aborted.len() == 0
            &&& log.boot is None
        };
    match update {
        UpdateView::Read(opened) => in_turn(opened, log.read) && log.ended.len() == 0,
        UpdateView::Write(opened, bytes) => {
            &&& log.read.len() > 0 && log.read.last() == bytes
            &&& in_turn(opened, log.read.drop_last())
            &&& log.ended.len() == 0
        },
        UpdateView::Abort(opened, _) => {
            &&& log.begun == Some(opened)
            &&& log.aborted.len() == 0
            &&& log.ended.len() == 0
            &&& log.boot is None
        },
        UpdateView::End(opened) => in_turn(opened, log.read) && log.ended.len() == 0,
        UpdateView::SetBoot(partition) => {
            &&& log.begun is Some
            &&& log.begun->0.partition == partition
            &&& in_turn(log.begun->0, log.read)
            &&& log.ended == seq![log.begun->0.handle]
        },
        _ => log == UpdateLog::empty(),
    }
}

/// The update ended well: each chunk that was read was written, in order and in one write, to the
/// handle of the partition that was made ready; that partition was closed once, was not given up,
/// and runs at the next start.
pub open spec fn whole(log: UpdateLog) -> bool {
    &&& log.begun is Some
    &&& log.written == writes(log.begun->0.handle, log.read)
    &&& log.ended == seq![log.begun->0.handle]
    &&& log.aborted.len() == 0
    &&& log.boot == Some(log.begun->0.partition)
}

/// The update failed: the device runs what it ran before, and a partition that was made ready was
/// either given up or closed, once.
pub open spec fn given_up(log: UpdateLog) -> bool {
    &&& log.boot is None
    &&& match log.begun {
        Some(opened) => log.aborted + log.ended == seq![opened.handle],
        None => log.aborted.len() == 0 && log.ended.len() == 0,
    }
}

/// Every step of an update keeps its log in order: an update that ends well is whole, and one that
/// fails is given up.
pub proof fn law_update_runs_whole_or_not_at_all(
    update: UpdateView,
    log: UpdateLog,
    event: UpdateEventView,
)
    requires
        log_fits(update, log),
        update.expects(event),
    ensures
        log_fits(UpdateView::Fetch, UpdateLog::empty()),
        match update.after(event) {
            UpdateStepView::More(next) => log_fits(next, log.and(update, event)),
            UpdateStepView::Done => whole(log.and(update, event)),
            UpdateStepView::Failed(_) => given_up(log.and(update, event)),
        },
{
    let after = log.and(update, event);
    match update {
        UpdateView::Begin(_) => {
            if let Some(opened) = after.begun {
                assert(after.written =~= writes(opened.handle, after.read));
            }
        },
        UpdateView::Read(_) => {
            if after.read.len() > log.read.len() {
                assert(after.read.drop_last() =~= log.read);
            }
        },
        UpdateView::Write(opened, bytes) => {
            if after.written.len() > log.written.len() {
                assert(after.written =~= writes(opened.handle, after.read));
            }
        },
        UpdateView::Abort(opened, _) => {
            assert(after.aborted + after.ended =~= seq![opened.handle]);
        },
        UpdateView::End(opened) => {
            assert(after.ended =~= seq![opened.handle]);
            assert(after.aborted + after.ended =~= seq![opened.handle]);
        },
        UpdateView::SetBoot(_) => {
            assert(after.aborted + after.ended =~= seq![log.begun->0.handle]);
        },
        _ => {},
    }
}

/// How an update ends and what it has done by then, when its steps come to these events.
pub open spec fn update_run(
    update: UpdateView,
    log: UpdateLog,
    events: Seq<UpdateEventView>,
) -> (UpdateStepView, UpdateLog)
    decreases events.len(),
{
    if events.len() == 0 {
        (UpdateStepView::More(update), log)
    } else {
        let after = log.and(update, events[0]);
        match update.after(events[0]) {
            UpdateStepView::More(next) => update_run(next, after, events.drop_first()),
            end => (end, after),
        }
    }
}

/// Every event is one that the step in turn can have, and none comes after the end.
pub open spec fn all_expected(update: UpdateView, events: Seq<UpdateEventView>) -> bool
    decreases events.len(),
{
    events.len() > 0 ==> update.expects(events[0]) && match update.after(events[0]) {
        UpdateStepView::More(next) => all_expected(next, events.drop_first()),
        _ => events.len() == 1,
    }
}

/// The chunks that came with these events.
pub open spec fn chunks_read(events: Seq<UpdateEventView>) -> Seq<Seq<u8>>
    decreases events.len(),
{
    if events.len() == 0 {
        seq![]
    } else {
        let rest = chunks_read(events.drop_first());
        match events[0] {
            UpdateEventView::ReadBytes(bytes) => if bytes.len() > 0 {
                seq![bytes] + rest
            } else {
                rest
            },
            _ => rest,
        }
    }
}

proof fn lemma_update_run(update: UpdateView, log: UpdateLog, events: Seq<UpdateEventView>)
    requires
        log_fits(update, log),
        all_expected(update, events),
    ensures
        ({
            let (end, done) = update_run(update, log, events);
            &&& done.read == log.read + chunks_read(events)
            &&& match end {
                UpdateStepView::More(next) => done.boot is None,
                UpdateStepView::Done => whole(done),
                UpdateStepView::Failed(_) => given_up(done),
            }
        }),
    decreases events.len(),
{
    if events.len() > 0 {
        let after = log.and(update, events[0]);
        law_update_runs_whole_or_not_at_all(update, log, events[0]);
        match update.after(events[0]) {
            UpdateStepView::More(next) => {
                lemma_update_run(next, after, events.drop_first());
                assert(after.read + chunks_read(events.drop_first()) =~= log.read + chunks_read(
                    events,
                ));
            },
            _ => {
                assert(events.drop_first().len() == 0);
                assert(chunks_read(events.drop_first()) =~= seq![]);
                assert(log.read + chunks_read(events) =~= after.read);
            },
        }
    } else {
        assert(log.read + chunks_read(events) =~= log.read);
    }
}

/// However an update goes, from its first step on: the device runs from another partition at the
/// next start if and only if the update ended well. Then the bytes that were written to that
/// partition are the bytes that were read, in order, one write for each chunk and all of them to
/// the handle that was given for the partition. A partition that was made ready for an update that
/// failed was given up or closed, once.
pub proof fn law_only_a_whole_update_is_run(events: Seq<UpdateEventView>)
    requires
        all_expected(UpdateView::Fetch, events),
    ensures
        ({
            let (end, done) = update_run(UpdateView::Fetch, UpdateLog::empty(), events);
            &&& done.boot is Some <==> end is Done
            &&& end is Done ==> {
                &&& whole(done)
                &&& done.written == writes(done.begun->0.handle, chunks_read(events))
                &&& bytes_written(done.written) == chunks_read(events).flatten()
            }
            &&& end is Failed ==> given_up(done)
        }),
{
    law_update_runs_whole_or_not_at_all(
        UpdateView::Fetch,
        UpdateLog::empty(),
        UpdateEventView::Ended(1),
    );
    lemma_update_run(UpdateView::Fetch, UpdateLog::empty(), events);
    let (end, done) = update_run(UpdateView::Fetch, UpdateLog::empty(), events);
    assert(done.read =~= chunks_read(events));
    if end is Done {
        assert(done.written.map_values(|write: (u32, Seq<u8>)| write.1) =~= chunks_read(events));
    }
}

/// A step of an update fails only where it is told of a failure, and then with that very code. A
/// step that succeeds never gives the update up: bytes that were read, however many, are written as
/// they are, and only no bytes at all end the reading.
pub proof fn law_update_fails_only_where_a_step_failed(
    opened: Opened,
    partition: usize,
    handle: u32,
    bytes: Seq<u8>,
    code: i32,
    error: UpdateError,
)
    requires
        code != 0,
    ensures
        UpdateView::Fetch.after(UpdateEventView::Ended(0)) == UpdateStepView::More(
            UpdateView::FindPartition,
        ),
        UpdateView::FindPartition.after(UpdateEventView::Partition(Some(partition)))
            == UpdateStepView::More(UpdateView::Begin(partition)),
        UpdateView::Begin(partition).after(UpdateEventView::Begun(0, handle))
            == UpdateStepView::More(UpdateView::Read(Opened { partition, handle })),
        bytes.len() > 0 ==> UpdateView::Read(opened).after(UpdateEventView::ReadBytes(bytes))
            == UpdateStepView::More(UpdateView::Write(opened, bytes)),
        bytes.len() == 0 ==> UpdateView::Read(opened).after(UpdateEventView::ReadBytes(bytes))
            == UpdateStepView::More(UpdateView::End(opened)),
        UpdateView::Write(opened, bytes).after(UpdateEventView::Ended(0)) == UpdateStepView::More(
            UpdateView::Read(opened),
        ),
        UpdateView::End(opened).after(UpdateEventView::Ended(0)) == UpdateStepView::More(
            UpdateView::SetBoot(opened.partition),
        ),
        UpdateView::SetBoot(partition).after(UpdateEventView::Ended(0)) == UpdateStepView::Done,
        UpdateView::Fetch.after(UpdateEventView::Ended(code)) == UpdateStepView::Failed(
            UpdateError::Fetch(code),
        ),
        UpdateView::FindPartition.after(UpdateEventView::Partition(None))
            == UpdateStepView::Failed(UpdateError::NoPartition),
        UpdateView::Begin(partition).after(UpdateEventView::Begun(code, handle))
            == UpdateStepView::Failed(UpdateError::Begin(code)),
        UpdateView::Read(opened).after(UpdateEventView::ReadFailed(code)) == UpdateStepView::More(
            UpdateView::Abort(opened, UpdateError::Read(code)),
        ),
        UpdateView::Write(opened, bytes).after(UpdateEventView::Ended(code))
            == UpdateStepView::More(UpdateView::Abort(opened, UpdateError::Write(code))),
        UpdateView::End(opened).after(UpdateEventView::Ended(code)) == UpdateStepView::Failed(
            UpdateError::End(code),
        ),
        UpdateView::SetBoot(partition).after(UpdateEventView::Ended(code))
            == UpdateStepView::Failed(UpdateError::SetBoot(code)),
        forall|c: i32| #[trigger]
            UpdateView::Abort(opened, error).after(UpdateEventView::Ended(c))
                == UpdateStepView::Failed(error),
{
}

/// The events of chunks that are read and written well.
pub open spec fn good_chunks(chunks: Seq<Seq<u8>>) -> Seq<UpdateEventView>
    decreases chunks.len(),
{
    if chunks.len() == 0 {
        seq![]
    } else {
        seq![UpdateEventView::ReadBytes(chunks[0]), UpdateEventView::Ended(0)] + good_chunks(
            chunks.drop_first(),
        )
    }
}

proof fn lemma_good_chunks(
    opened: Opened,
    log: UpdateLog,
    chunks: Seq<Seq<u8>>,
    events: Seq<UpdateEventView>,
)
    requires
        forall|i: int| 0 <= i < chunks.len() ==> 0 < (#[trigger] chunks[i]).len(),
    ensures
        update_run(UpdateView::Read(opened), log, good_chunks(chunks) + events) == update_run(
            UpdateView::Read(opened),
            UpdateLog {
                read: log.read + chunks,
                written: log.written + writes(opened.handle, chunks),
                ..log
            },
            events,
        ),
    decreases chunks.len(),
{
    if chunks.len() == 0 {
        assert(good_chunks(chunks) + events =~= events);
        assert(log.read + chunks =~= log.read);
        assert(log.written + writes(opened.handle, chunks) =~= log.written);
    } else {
        let all = good_chunks(chunks) + events;
        let rest = chunks.drop_first();
        let tail = good_chunks(rest) + events;
        assert(all[0] == UpdateEventView::ReadBytes(chunks[0]));
        assert(all.drop_first()[0] == UpdateEventView::Ended(0));
        assert(all.drop_first().drop_first() =~= tail);
        let read = UpdateLog { read: log.read.push(chunks[0]), ..log };
        let written = UpdateLog { written: log.written.push((opened.handle, chunks[0])), ..read };
        assert(update_run(UpdateView::Read(opened), log, all) == update_run(
            UpdateView::Write(opened, chunks[0]),
            read,
            all.drop_first(),
        ));
        assert(update_run(UpdateView::Write(opened, chunks[0]), read, all.drop_first())
            == update_run(UpdateView::Read(opened), written, tail));
        assert forall|i: int| 0 <= i < rest.len() implies 0 < (#[trigger] rest[i]).len() by {
            assert(rest[i] == chunks[i + 1]);
        }
        lemma_good_chunks(opened, written, rest, events);
        assert(written.read + rest =~= log.read + chunks);
        assert(written.written + writes(opened.handle, rest) =~= log.written + writes(
            opened.handle,
            chunks,
        ));
    }
}

/// An update of which every step succeeds is installed, whatever it is made of and however the
/// network cuts it: each chunk is written, in order and as it is, to the partition that was found,
/// and the device runs from that partition at the next start.
pub proof fn law_a_good_update_is_installed(partition: usize, handle: u32, chunks: Seq<Seq<u8>>)
    requires
        forall|i: int| 0 <= i < chunks.len() ==> 0 < (#[trigger] chunks[i]).len() <= 4096,
    ensures
        ({
            let events = seq![
                UpdateEventView::Ended(0),
                UpdateEventView::Partition(Some(partition)),
                UpdateEventView::Begun(0, handle),
            ] + (good_chunks(chunks) + seq![
                UpdateEventView::ReadBytes(seq![]),
                UpdateEventView::Ended(0),
                UpdateEventView::Ended(0),
            ]);
            let (end, done) = update_run(UpdateView::Fetch, UpdateLog::empty(), events);
            &&& end == UpdateStepView::Done
            &&& done.begun == Some(Opened { partition, handle })
            &&& done.boot == Some(partition)
            &&& done.written.len() == chunks.len()
            &&& forall|i: int|
                0 <= i < chunks.len() ==> #[trigger] done.written[i] == (handle, chunks[i])
            &&& done.ended == seq![handle]
            &&& done.aborted.len() == 0
        }),
{
    let opened = Opened { partition, handle };
    let last = seq![
        UpdateEventView::ReadBytes(seq![]),
        UpdateEventView::Ended(0),
        UpdateEventView::Ended(0),
    ];
    let middle = good_chunks(chunks) + last;
    let events = seq![
        UpdateEventView::Ended(0),
        UpdateEventView::Partition(Some(partition)),
        UpdateEventView::Begun(0, handle),
    ] + middle;
    let begun = UpdateLog { begun: Some(opened), ..UpdateLog::empty() };
    let e1 = events.drop_first();
    let e2 = e1.drop_first();
    assert(events[0] == UpdateEventView::Ended(0));
    assert(e1[0] == UpdateEventView::Partition(Some(partition)));
    assert(e2[0] == UpdateEventView::Begun(0, handle));
    assert(e2.drop_first() =~= middle);
    reveal_with_fuel(update_run, 4);
    assert(update_run(UpdateView::Fetch, UpdateLog::empty(), events) == update_run(
        UpdateView::Read(opened),
        begun,
        middle,
    ));
    lemma_good_chunks(opened, begun, chunks, last);
    let full = UpdateLog {
        read: begun.read + chunks,
        written: begun.written + writes(handle, chunks),
        ..begun
    };
    let l1 = last.drop_first();
    let l2 = l1.drop_first();
    assert(last[0] == UpdateEventView::ReadBytes(seq![]));
    assert(l1[0] == UpdateEventView::Ended(0));
    assert(l2[0] == UpdateEventView::Ended(0));
    let closed = UpdateLog { ended: full.ended.push(handle), ..full };
    assert(update_run(UpdateView::Read(opened), full, last) == update_run(
        UpdateView::End(opened),
        full,
        l1,
    ));
    assert(update_run(UpdateView::End(opened), full, l1) == update_run(
        UpdateView::SetBoot(partition),
        closed,
        l2,
    ));
    assert(closed.ended =~= seq![handle]);
    assert(full.written =~= writes(handle, chunks));
}

/// What is said of a failed update: the name of the call, the code and its name.
pub proof fn law_update_errors_are_named(code: i32, name: Seq<char>)
    ensures
        UpdateError::Fetch(code).spec_message(name) == name,
        UpdateError::NoPartition.spec_message(name) == "No OTA partition available"@,
        UpdateError::Begin(code).spec_message(name) == "esp_ota_begin"@ + " failed: "@
            + signed_decimal(code as int) + " ("@ + name + ")"@,
        UpdateError::Write(code).spec_message(name) == "esp_ota_write"@ + " failed: "@
            + signed_decimal(code as int) + " ("@ + name + ")"@,
        UpdateError::Read(code).spec_message(name) == "HTTP read error during OTA: "@ + name
            + " (error code "@ + signed_decimal(code as int) + ")"@,
        UpdateError::End(code).spec_message(name) == "esp_ota_end"@ + " failed: "@
            + signed_decimal(code as int) + " ("@ + name + ")"@,
        UpdateError::SetBoot(code).spec_message(name) == "esp_ota_set_boot_partition"@
            + " failed: "@ + signed_decimal(code as int) + " ("@ + name + ")"@,
{
}

/// A Wi-Fi is joined by seven actions in a row. The modem is told the name and the password as they
/// are, and to join without any proof exactly where the password is empty.
pub proof fn law_wifi_is_joined_as_it_was_given(ssid: Seq<char>, pass: Seq<char>)
    ensures
        wifi_actions(ssid, pass) == seq![
            WifiActionView::Create,
            WifiActionView::Wrap,
            WifiActionView::Configure {
                ssid,
                password: pass,
                auth_method: if pass.len() == 0 {
                    AuthMethod::Open
                } else {
                    AuthMethod::Wpa2Personal
                },
            },
            WifiActionView::Start,
            WifiActionView::Connect,
            WifiActionView::WaitForAddress,
            WifiActionView::ReadAddress,
        ],
        fits_modem(ssid, pass) <==> encode_utf8(ssid).len() <= 32 && encode_utf8(pass).len() <= 64,
{
}

/// What is at a URL is asked for at that URL, with nothing put into the request, and data is posted
/// to the URL with its length in bytes as the one header.
pub proof fn law_requests_name_their_url(url: Seq<char>, length: nat)
    ensures
        get_actions(url) == seq![
            GetActionView::Open,
            GetActionView::Request(
                RequestHeadView { method: HttpMethod::Get, url, headers: seq![] },
            ),
            GetActionView::AwaitResponse,
        ],
        post_head(url, length) == (RequestHeadView {
            method: HttpMethod::Post,
            url,
            headers: seq![("Content-Length"@, decimal(length))],
        }),
{
}

/// The events of writes that took so many bytes each.
pub open spec fn good_writes(counts: Seq<usize>) -> Seq<PostEvent> {
    counts.map_values(|n: usize| PostEvent::Wrote(n))
}

/// How many bytes these writes took.
pub open spec fn taken_in_all(counts: Seq<usize>) -> int
    decreases counts.len(),
{
    if counts.len() == 0 {
        0
    } else {
        counts[0] + taken_in_all(counts.drop_first())
    }
}

proof fn lemma_good_writes(post: Post, offset: int, counts: Seq<usize>)
    requires
        post.wf(),
        0 <= offset,
        forall|i: int| 0 <= i < counts.len() ==> 0 < #[trigger] counts[i],
        offset + taken_in_all(counts) == post.data@.len(),
    ensures
        ({
            let start = Post {
                stage: if offset < post.data@.len() {
                    PostStage::Write(offset as usize)
                } else {
                    PostStage::AwaitResponse
                },
                ..post
            };
            post_run(start, good_writes(counts).push(PostEvent::Succeeded)).0 is Done
        }),
    decreases counts.len(),
{
    let events = good_writes(counts).push(PostEvent::Succeeded);
    let start = Post {
        stage: if offset < post.data@.len() {
            PostStage::Write(offset as usize)
        } else {
            PostStage::AwaitResponse
        },
        ..post
    };
    if counts.len() == 0 {
        assert(events[0] == PostEvent::Succeeded);
    } else {
        let rest = counts.drop_first();
        lemma_taken_is_positive(rest);
        assert(events[0] == PostEvent::Wrote(counts[0]));
        assert(events.drop_first() =~= good_writes(rest).push(PostEvent::Succeeded));
        assert forall|i: int| 0 <= i < rest.len() implies 0 < #[trigger] rest[i] by {
            assert(rest[i] == counts[i + 1]);
        }
        lemma_good_writes(post, offset + counts[0], rest);
        assert(start.stage == PostStage::Write(offset as usize));
        let next = Post {
            stage: if offset + counts[0] < post.data@.len() {
                PostStage::Write((offset + counts[0]) as usize)
            } else {
                PostStage::AwaitResponse
            },
            ..post
        };
        assert(start.after(events[0]) == PostStep::More(next));
    }
}

proof fn lemma_taken_is_positive(counts: Seq<usize>)
    ensures
        taken_in_all(counts) >= 0,
    decreases counts.len(),
{
    if counts.len() > 0 {
        lemma_taken_is_positive(counts.drop_first());
    }
}

/// A posting of which every step succeeds ends well, however few bytes each write takes, as soon as
/// the data is written and the response has come. It fails only where a step fails, with that very
/// code.
pub proof fn law_a_good_posting_is_done(post: Post, counts: Seq<usize>, code: i32)
    requires
        post.wf(),
        post.stage == PostStage::Open,
        forall|i: int| 0 <= i < counts.len() ==> 0 < #[trigger] counts[i],
        taken_in_all(counts) == post.data@.len(),
    ensures
        post_run(
            post,
            seq![PostEvent::Succeeded, PostEvent::Succeeded] + good_writes(counts).push(
                PostEvent::Succeeded,
            ),
        ).0 is Done,
        forall|other: Post| #[trigger]
            other.after(PostEvent::Failed(code)) == PostStep::Failed(code),
        forall|other: Post, event: PostEvent| #[trigger]
            other.after(event) is Failed ==> event is Failed,
{
    let tail = good_writes(counts).push(PostEvent::Succeeded);
    let events = seq![PostEvent::Succeeded, PostEvent::Succeeded] + tail;
    assert(events[0] == PostEvent::Succeeded);
    assert(events.drop_first()[0] == PostEvent::Succeeded);
    assert(events.drop_first().drop_first() =~= tail);
    reveal_with_fuel(post_run, 3);
    lemma_good_writes(post, 0, counts);
}

/// A posting sends its request first and then the data from its start. A write that took `n` bytes
/// is followed by one of what is left, and by the wait for the response once nothing is left, also
/// where more was taken than was offered. The bytes that a whole run has written are the data.
pub proof fn law_posting_goes_on_where_it_stopped(
    post: Post,
    offset: usize,
    n: usize,
    events: Seq<PostEvent>,
)
    requires
        post.wf(),
        post.stage == PostStage::Open,
        offset < post.data@.len(),
    ensures
        post.after(PostEvent::Succeeded) == PostStep::More(
            Post { stage: PostStage::Request, ..post },
        ),
        (Post { stage: PostStage::Request, ..post }).after(PostEvent::Succeeded) == PostStep::More(
            Post { stage: PostStage::Write(0), ..post },
        ),
        (Post { stage: PostStage::Write(offset), ..post }).spec_rest() == post.data@.subrange(
            offset as int,
            post.data@.len() as int,
        ),
        offset + n < post.data@.len() ==> (Post {
            stage: PostStage::Write(offset),
            ..post
        }).after(PostEvent::Wrote(n)) == PostStep::More(
            Post { stage: PostStage::Write((offset + n) as usize), ..post },
        ),
        offset + n >= post.data@.len() ==> (Post {
            stage: PostStage::Write(offset),
            ..post
        }).after(PostEvent::Wrote(n)) == PostStep::More(
            Post { stage: PostStage::AwaitResponse, ..post },
        ),
        (Post { stage: PostStage::AwaitResponse, ..post }).after(PostEvent::Succeeded)
            == PostStep::<'_>::Done,
        all_posted(post, events) && post_run(post, events).0 is Done ==> post_run(post, events).1
            == post.data@,
{
    if all_posted(post, events) {
        law_posted_data_is_whole(post, events);
        assert(post.written() + post_run(post, events).1 =~= post_run(post, events).1);
    }
    assert((Post { stage: PostStage::Write(offset), ..post }).spec_rest()
        =~= post.data@.subrange(offset as int, post.data@.len() as int));
}

} // verus!
