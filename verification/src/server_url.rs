//! The address of the voice server: `ws://host:port/path` or `wss://host:port/path`.
use crate::text::{
    chars_of, decimal, decimal_text, digit_value, find, find_chars, first_at,
    law_decimal_reads_back, lemma_decimal, lemma_find, lemma_find_some, occurs_at, parse,
    parse_unsigned, prefix_at,
};
use vstd::prelude::*;

verus! {

/// How the connection to the server is made.
#[derive(Clone, Copy, Debug, PartialEq, Eq, Structural)]
pub enum Scheme {
    /// A plain WebSocket.
    Ws,
    /// A WebSocket over TLS.
    Wss,
}

impl Scheme {
    /// The name of the scheme in a URL.
    pub open spec fn spec_name(self) -> Seq<char> {
        match self {
            Scheme::Ws => "ws"@,
            Scheme::Wss => "wss"@,
        }
    }

    /// What a URL of this scheme begins with.
    pub open spec fn prefix(self) -> Seq<char> {
        match self {
            Scheme::Ws => "ws://"@,
            Scheme::Wss => "wss://"@,
        }
    }

    /// The port of a URL that names none.
    pub open spec fn default_port(self) -> u16 {
        match self {
            Scheme::Ws => 80,
            Scheme::Wss => 443,
        }
    }

    /// The name of the scheme in a URL.
    pub fn name(self) -> (name: &'static str)
        ensures
            name@ == self.spec_name(),
    {
        match self {
            Scheme::Ws => "ws",
            Scheme::Wss => "wss",
        }
    }
}

/// What a server URL names.
#[derive(Debug, PartialEq, Eq)]
pub struct Endpoint {
    pub scheme: Scheme,
    pub host: String,
    pub port: u16,
    /// All that follows the host and the port, its `/` included.
    pub path: String,
}

/// The model of an [`Endpoint`].
pub struct EndpointView {
    pub scheme: Scheme,
    pub host: Seq<char>,
    pub port: int,
    pub path: Seq<char>,
}

impl View for Endpoint {
    type V = EndpointView;

    open spec fn view(&self) -> EndpointView {
        EndpointView {
            scheme: self.scheme,
            host: self.host@,
            port: self.port as int,
            path: self.path@,
        }
    }
}

/// Where the path begins in what follows the scheme: at the first `/`, or at the end.
pub open spec fn path_start(rest: Seq<char>) -> int {
    match find(rest, seq!['/']) {
        Some(i) => i,
        None => rest.len() as int,
    }
}

/// The host and the port: split at the last `:` where a port number follows it; otherwise all of
/// it is the host and the port is the default.
pub open spec fn host_and_port(host_port: Seq<char>, default_port: int) -> (Seq<char>, int) {
    match host_port.index_of_last(':') {
        Some(colon) => match parse(host_port.skip(colon + 1), 10, 65535) {
            Some(port) => (host_port.take(colon), port),
            None => (host_port, default_port),
        },
        None => (host_port, default_port),
    }
}

/// What a URL of the given scheme names, from what follows the scheme.
pub open spec fn endpoint_of(scheme: Scheme, rest: Seq<char>) -> EndpointView {
    let slash = path_start(rest);
    let (host, port) = host_and_port(rest.take(slash), scheme.default_port() as int);
    EndpointView { scheme, host, port, path: rest.skip(slash) }
}

/// What a server URL names: nothing where it is neither a `ws://` nor a `wss://` URL.
pub open spec fn endpoint(url: Seq<char>) -> Option<EndpointView> {
    if occurs_at(url, Scheme::Ws.prefix(), 0) {
        Some(endpoint_of(Scheme::Ws, url.skip(5)))
    } else if occurs_at(url, Scheme::Wss.prefix(), 0) {
        Some(endpoint_of(Scheme::Wss, url.skip(6)))
    } else {
        None
    }
}

fn last_colon(s: &[char]) -> (found: Option<usize>)
    ensures
        match found {
            Some(i) => s@.index_of_last(':') == Some(i as int) && i < s@.len(),
            None => s@.index_of_last(':') is None,
        },
{
    proof {
        s@.index_of_last_ensures(':');
    }
    let mut i: usize = s.len();
    while i > 0
        invariant
            i <= s@.len(),
            forall|j: int| i <= j < s@.len() ==> s@[j] != ':',
        decreases i,
    {
        i = i - 1;
        if s[i] == ':' {
            proof {
                s@.index_of_last_ensures(':');
                assert(s@.contains(':'));
            }
            return Some(i);
        }
    }
    proof {
        s@.index_of_last_ensures(':');
    }
    None
}

/// Takes a URL apart, the scheme of which is known and `skip` characters long.
fn split_endpoint(url: &str, scheme: Scheme, skip: usize) -> (e: Endpoint)
    requires
        skip <= url@.len(),
    ensures
        e@ == endpoint_of(scheme, url@.skip(skip as int)),
{
    let chars = chars_of(url);
    let rest = vstd::slice::slice_subrange(chars.as_slice(), skip, chars.len());
    let slash_pattern: [char; 1] = ['/'];
    assert(slash_pattern@ =~= seq!['/']);
    assert(rest@ =~= url@.skip(skip as int));
    proof {
        lemma_find(rest@, seq!['/']);
    }
    let slash: usize = match find_chars(rest, slash_pattern.as_slice()) {
        Some(i) => i,
        None => rest.len(),
    };
    let host_port = vstd::slice::slice_subrange(rest, 0, slash);
    assert(host_port@ =~= rest@.take(slash as int));
    let path = url.substring_char(skip + slash, chars.len()).to_owned();
    assert(path@ =~= rest@.skip(slash as int));
    let default_port: u16 = match scheme {
        Scheme::Ws => 80,
        Scheme::Wss => 443,
    };
    if let Some(colon) = last_colon(host_port) {
        let digits = vstd::slice::slice_subrange(host_port, colon + 1, slash);
        assert(digits@ =~= host_port@.skip(colon + 1));
        if let Some(port) = parse_unsigned(digits, 10, 65535) {
            let host = url.substring_char(skip, skip + colon).to_owned();
            assert(host@ =~= host_port@.take(colon as int));
            return Endpoint { scheme, host, port: port as u16, path };
        }
    }
    let host = url.substring_char(skip, skip + slash).to_owned();
    assert(host@ =~= host_port@);
    Endpoint { scheme, host, port: default_port, path }
}

/// Takes a server URL apart.
pub fn parse_server_url(url: &str) -> (parsed: Option<Endpoint>)
    ensures
        match parsed {
            Some(e) => endpoint(url@) == Some(e@),
            None => endpoint(url@) is None,
        },
{
    let chars = chars_of(url);
    let ws = chars_of("ws://");
    let wss = chars_of("wss://");
    proof {
        reveal_strlit("ws://");
        reveal_strlit("wss://");
    }
    if prefix_at(chars.as_slice(), ws.as_slice(), 0) {
        Some(split_endpoint(url, Scheme::Ws, 5))
    } else if prefix_at(chars.as_slice(), wss.as_slice(), 0) {
        Some(split_endpoint(url, Scheme::Wss, 6))
    } else {
        None
    }
}

/// The URL to connect to once the host has been looked up: the address that was found takes the
/// place of the host; where the URL names no host or none was found, the URL stays as it is.
pub open spec fn resolved(url: Seq<char>, address: Option<(Seq<char>, u16)>) -> Seq<char> {
    match (endpoint(url), address) {
        (Some(e), Some((ip, port))) => e.scheme.spec_name() + "://"@ + ip + ":"@ + decimal(
            port as nat,
        ) + e.path,
        _ => url,
    }
}

/// Puts the address that a lookup found into a server URL.
pub fn resolved_server_url(url: &str, address: Option<(String, u16)>) -> (result: String)
    ensures
        result@ == resolved(
            url@,
            match address {
                Some((ip, port)) => Some((ip@, port)),
                None => None,
            },
        ),
{
    match (parse_server_url(url), address) {
        (Some(e), Some((ip, port))) => {
            let mut text = e.scheme.name().to_owned();
            text.append("://");
            text.append(ip.as_str());
            text.append(":");
            text.append(decimal_text(port as u64).as_str());
            text.append(e.path.as_str());
            text
        },
        _ => url.to_owned(),
    }
}

proof fn lemma_path_begins_with_slash(rest: Seq<char>)
    ensures
        0 <= path_start(rest) <= rest.len(),
        rest.skip(path_start(rest)).len() > 0 ==> rest.skip(path_start(rest))[0] == '/',
{
    lemma_find(rest, seq!['/']);
    if let Some(i) = find(rest, seq!['/']) {
        assert(rest.subrange(i, i + 1)[0] == '/');
    }
}

proof fn lemma_endpoint_of_parts(scheme: Scheme, ip: Seq<char>, port: u16, path: Seq<char>)
    requires
        !ip.contains('/'),
        path.len() > 0 ==> path[0] == '/',
    ensures
        endpoint_of(scheme, ip + seq![':'] + decimal(port as nat) + path) == (EndpointView {
            scheme,
            host: ip,
            port: port as int,
            path,
        }),
{
    let digits = decimal(port as nat);
    lemma_decimal(port as nat);
    assert forall|j: int| 0 <= j < digits.len() implies digits[j] != '/' && digits[j] != ':' by {
        assert(digit_value(digits[j]) < 10);
    }
    lemma_no_slash(ip, digits);
    lemma_path_start(ip + seq![':'] + digits, path);
    lemma_last_colon_splits(ip, digits, scheme.default_port() as int);
    law_decimal_reads_back(port as nat, 65535);
}

/// Putting an address into a server URL changes its host and its port and nothing else: the result
/// names the same scheme and path, and the address that was put in.
pub proof fn law_resolved_url_keeps_scheme_and_path(url: Seq<char>, ip: Seq<char>, port: u16)
    requires
        endpoint(url) is Some,
        !ip.contains('/'),
    ensures
        endpoint(resolved(url, Some((ip, port)))) == Some(
            EndpointView {
                scheme: endpoint(url)->0.scheme,
                host: ip,
                port: port as int,
                path: endpoint(url)->0.path,
            },
        ),
{
    reveal_strlit("ws");
    reveal_strlit("wss");
    reveal_strlit("ws://");
    reveal_strlit("wss://");
    reveal_strlit("://");
    reveal_strlit(":");
    let e = endpoint(url)->0;
    let result = resolved(url, Some((ip, port)));
    let tail = ip + seq![':'] + decimal(port as nat) + e.path;
    if e.scheme == Scheme::Ws {
        lemma_path_begins_with_slash(url.skip(5));
        assert(result =~= "ws://"@ + tail);
        assert(result.subrange(0, 5) =~= "ws://"@);
        assert(result.skip(5) =~= tail);
    } else {
        lemma_path_begins_with_slash(url.skip(6));
        assert(result =~= "wss://"@ + tail);
        assert(result.subrange(0, 6) =~= "wss://"@);
        assert(result.skip(6) =~= tail);
        assert(result.subrange(0, 5)[2] == 's');
    }
    lemma_endpoint_of_parts(e.scheme, ip, port, e.path);
}

/// What a URL begins with where it is of the scheme.
spec fn start_of(scheme: Scheme) -> Seq<char> {
    match scheme {
        Scheme::Ws => seq!['w', 's', ':', '/', '/'],
        Scheme::Wss => seq!['w', 's', 's', ':', '/', '/'],
    }
}

proof fn lemma_endpoint_of_scheme(scheme: Scheme, rest: Seq<char>)
    ensures
        start_of(scheme) == scheme.prefix(),
        endpoint(start_of(scheme) + rest) == Some(endpoint_of(scheme, rest)),
{
    reveal_strlit("ws://");
    reveal_strlit("wss://");
    assert(start_of(scheme) =~= scheme.prefix());
    let url = start_of(scheme) + rest;
    if scheme == Scheme::Ws {
        assert(url.subrange(0, 5) =~= "ws://"@);
        assert(url.skip(5) =~= rest);
    } else {
        assert(url.subrange(0, 6) =~= "wss://"@);
        assert(url.skip(6) =~= rest);
        assert(url.subrange(0, 5)[2] == 's');
        assert("ws://"@[2] == ':');
    }
}

/// The path of a URL begins behind all that has no `/`.
proof fn lemma_path_start(host_port: Seq<char>, path: Seq<char>)
    requires
        !host_port.contains('/'),
        path.len() > 0 ==> path[0] == '/',
    ensures
        path_start(host_port + path) == host_port.len(),
        (host_port + path).take(host_port.len() as int) == host_port,
        (host_port + path).skip(host_port.len() as int) == path,
{
    let rest = host_port + path;
    let cut = host_port.len() as int;
    assert(rest.take(cut) =~= host_port);
    assert(rest.skip(cut) =~= path);
    assert forall|j: int| 0 <= j < cut implies !#[trigger] occurs_at(rest, seq!['/'], j) by {
        if occurs_at(rest, seq!['/'], j) {
            assert(rest.subrange(j, j + 1)[0] == rest[j]);
            assert(rest[j] == host_port[j]);
        }
    }
    lemma_find(rest, seq!['/']);
    if path.len() > 0 {
        assert(rest[cut] == path[0]);
        assert(rest.subrange(cut, cut + 1) =~= seq!['/']);
        assert(first_at(rest, seq!['/'], cut));
        lemma_find_some(rest, seq!['/'], cut);
    } else {
        assert(rest.len() == cut);
        assert(find(rest, seq!['/']) is None);
    }
}

/// A URL that names no port names the port of its scheme: for every host and every path it names
/// exactly these, with port 80 for `ws` and port 443 for `wss`.
pub proof fn law_url_without_a_port(scheme: Scheme, host: Seq<char>, path: Seq<char>)
    requires
        !host.contains('/'),
        !host.contains(':'),
        path.len() > 0 ==> path[0] == '/',
    ensures
        scheme == Scheme::Ws ==> endpoint("ws://"@ + host + path) == Some(
            EndpointView { scheme, host, port: 80, path },
        ),
        scheme == Scheme::Wss ==> endpoint("wss://"@ + host + path) == Some(
            EndpointView { scheme, host, port: 443, path },
        ),
{
    lemma_endpoint_of_scheme(scheme, host + path);
    lemma_path_start(host, path);
    host.index_of_last_ensures(':');
    assert(scheme.prefix() + host + path =~= start_of(scheme) + (host + path));
}

proof fn lemma_last_colon_splits(host: Seq<char>, digits: Seq<char>, default_port: int)
    requires
        !digits.contains(':'),
    ensures
        host_and_port(host + seq![':'] + digits, default_port) == match parse(digits, 10, 65535) {
            Some(port) => (host, port),
            None => (host + seq![':'] + digits, default_port),
        },
{
    let host_port = host + seq![':'] + digits;
    let n = host.len() as int;
    host_port.index_of_last_ensures(':');
    assert(host_port[n] == ':');
    assert(host_port.contains(':'));
    assert forall|j: int| n < j < host_port.len() implies host_port[j] != ':' by {
        assert(host_port[j] == digits[j - n - 1]);
    }
    assert(host_port.index_of_last(':') == Some(n));
    assert(host_port.skip(n + 1) =~= digits);
    assert(host_port.take(n) =~= host);
}

proof fn lemma_no_slash(host: Seq<char>, digits: Seq<char>)
    requires
        !host.contains('/'),
        !digits.contains('/'),
    ensures
        !(host + seq![':'] + digits).contains('/'),
{
    let host_port = host + seq![':'] + digits;
    let n = host.len() as int;
    assert forall|j: int| 0 <= j < host_port.len() implies host_port[j] != '/' by {
        if j < n {
            assert(host_port[j] == host[j]);
        } else if j > n {
            assert(host_port[j] == digits[j - n - 1]);
        }
    }
}

/// What follows the last `:` of a URL before its path is its port where it is a number of at most
/// 65535: the URL names exactly the host, that port and the path. Where it is no such number it
/// belongs to the host, and the port is that of the scheme. The host may hold a `:` itself.
pub proof fn law_url_with_a_port(
    scheme: Scheme,
    host: Seq<char>,
    digits: Seq<char>,
    path: Seq<char>,
)
    requires
        !host.contains('/'),
        !digits.contains('/'),
        !digits.contains(':'),
        path.len() > 0 ==> path[0] == '/',
    ensures
        ({
            let start = if scheme == Scheme::Ws {
                "ws://"@
            } else {
                "wss://"@
            };
            endpoint(start + host + seq![':'] + digits + path) == match parse(digits, 10, 65535) {
                Some(port) => Some(EndpointView { scheme, host, port, path }),
                None => Some(
                    EndpointView {
                        scheme,
                        host: host + seq![':'] + digits,
                        port: if scheme == Scheme::Ws {
                            80
                        } else {
                            443
                        },
                        path,
                    },
                ),
            }
        }),
{
    let host_port = host + seq![':'] + digits;
    lemma_no_slash(host, digits);
    lemma_endpoint_of_scheme(scheme, host_port + path);
    lemma_path_start(host_port, path);
    lemma_last_colon_splits(host, digits, scheme.default_port() as int);
    assert(scheme.prefix() + host + seq![':'] + digits + path =~= start_of(scheme) + (host_port
        + path));
}

/// Only a text that begins with `ws://` or `wss://` names a server, and every such text does.
pub proof fn law_other_urls_name_nothing(url: Seq<char>, rest: Seq<char>)
    ensures
        endpoint("ws://"@ + rest) is Some,
        endpoint("wss://"@ + rest) is Some,
        endpoint(url) is Some ==> url == "ws://"@ + url.skip(5) || url == "wss://"@ + url.skip(6),
{
    lemma_endpoint_of_scheme(Scheme::Ws, rest);
    lemma_endpoint_of_scheme(Scheme::Wss, rest);
    reveal_strlit("ws://");
    reveal_strlit("wss://");
    if occurs_at(url, "ws://"@, 0) {
        assert(url =~= url.subrange(0, 5) + url.skip(5));
    } else if occurs_at(url, "wss://"@, 0) {
        assert(url =~= url.subrange(0, 6) + url.skip(6));
    }
}

/// The URL to connect to is the URL with the address that was found in the place of the host and
/// the port, letter for letter; where no address was found, or the URL names no server, it is the
/// URL as it was given.
pub proof fn law_resolved_url_is_written_out(url: Seq<char>, ip: Seq<char>, port: u16)
    ensures
        resolved(url, None) == url,
        endpoint(url) is None ==> resolved(url, Some((ip, port))) == url,
        endpoint(url) matches Some(e) ==> resolved(url, Some((ip, port))) == (if e.scheme
            == Scheme::Ws {
            "ws://"@
        } else {
            "wss://"@
        }) + ip + seq![':'] + decimal(port as nat) + e.path,
{
    reveal_strlit("ws");
    reveal_strlit("wss");
    reveal_strlit("ws://");
    reveal_strlit("wss://");
    reveal_strlit("://");
    reveal_strlit(":");
    if let Some(e) = endpoint(url) {
        assert(":"@ =~= seq![':']);
        assert(e.scheme.spec_name() + "://"@ =~= e.scheme.prefix());
    }
}

} // verus!
