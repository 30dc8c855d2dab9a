//! Where the server is, how it is spoken to and how often.

use crate::json::{json_quoted, quote_json};
use crate::text::{
    after_prefix, chars, decimal, decimal_text, find_in, find_spec, index_of, lines, lines_from,
    lines_of, lower, marks_are_found, parse_whole, patterns_are_found, position, same,
    split_at_mark, split_once, strip_marks, strip_prefix, stripped, text, to_lower, trim, trimmed,
    views, whole_number, words, words_of, written_numbers_read_back,
};
use crate::thresholds::Config;
use vstd::prelude::*;

verus! {

pub const DEFAULT_OMLX_PORT: u16 = 8080;

/// A longer answer is not read.
pub const MAX_HTTP_RESPONSE_BYTES: usize = 4 * 1024 * 1024;

/// Where a server's own settings say that it listens. What they do not say is
/// told apart from what they set to the default.
#[derive(Clone, Debug, Default, PartialEq, Eq)]
pub struct DiscoveredEndpoint {
    pub host: Option<String>,
    pub port: Option<u16>,
}

/// A host and a port, where they are known.
pub struct Endpoint {
    pub host: Option<Seq<char>>,
    pub port: Option<u16>,
}

impl View for DiscoveredEndpoint {
    type V = Endpoint;

    open spec fn view(&self) -> Endpoint {
        Endpoint {
            host: match self.host {
                Some(host) => Some(host@),
                None => None,
            },
            port: self.port,
        }
    }
}

/// What is known after a line of a server's settings. A host that stands for
/// every address names none.
pub open spec fn with_setting(known: Endpoint, line: Seq<char>) -> Endpoint {
    match split_at_mark(line, '=') {
        Some((name, setting)) => {
            let key = trimmed(name);
            let value = stripped(trimmed(setting), '"', '"');
            if key == "HOST"@ || key == "OMLX_HOST"@ {
                if value.len() > 0 && value != "0.0.0.0"@ {
                    Endpoint { host: Some(value), ..known }
                } else {
                    known
                }
            } else if key == "PORT"@ || key == "OMLX_PORT"@ {
                match whole_number(value, u16::MAX as nat) {
                    Some(port) => Endpoint { port: Some(port as u16), ..known },
                    None => known,
                }
            } else {
                known
            }
        },
        None => known,
    }
}

pub open spec fn settings_of(list: Seq<Seq<char>>) -> Endpoint
    decreases list.len(),
{
    if list.len() == 0 {
        Endpoint { host: None, port: None }
    } else {
        with_setting(settings_of(list.drop_last()), list.last())
    }
}

pub open spec fn parse_omlx_server_env_spec(s: Seq<char>) -> Endpoint {
    settings_of(lines_of(s))
}

fn read_setting(known: &mut DiscoveredEndpoint, line: &str)
    ensures
        final(known)@ == with_setting(old(known)@, line@),
{
    if let Some((name, setting)) = split_once(line, '=') {
        let key = trim(name.as_str());
        let value = strip_marks(trim(setting.as_str()).as_str(), '"', '"');
        if same(key.as_str(), "HOST") || same(key.as_str(), "OMLX_HOST") {
            if !value.as_str().is_empty() && !same(value.as_str(), "0.0.0.0") {
                known.host = Some(value);
            }
        } else if same(key.as_str(), "PORT") || same(key.as_str(), "OMLX_PORT") {
            if let Some(port) = parse_whole(value.as_str(), u16::MAX as u64) {
                known.port = Some(port as u16);
            }
        }
    }
}

/// Reads where a server's own settings say that it listens; a later line goes
/// before an earlier one.
pub fn parse_omlx_server_env(text: &str) -> (result: DiscoveredEndpoint)
    ensures
        result@ == parse_omlx_server_env_spec(text@),
{
    let list = lines(text);
    let ghost all = lines_of(text@);
    let mut known = DiscoveredEndpoint { host: None, port: None };
    for i in 0..list.len()
        invariant
            views(list@) == all,
            known@ == settings_of(all.take(i as int)),
    {
        assert(all.take(i + 1).drop_last() =~= all.take(i as int));
        assert(all.take(i + 1).last() == list@[i as int]@);
        read_setting(&mut known, list[i].as_str());
    }
    assert(all.take(all.len() as int) =~= all);
    known
}

/// The host that the settings name, where they name one.
pub open spec fn configured_host(config: Config) -> Option<Seq<char>> {
    match config.omx {
        Some(omx) => match omx.host {
            Some(host) => if trimmed(host@).len() > 0 {
                Some(host@)
            } else {
                None
            },
            None => None,
        },
        None => None,
    }
}

pub open spec fn configured_port(config: Config) -> Option<u16> {
    match config.omx {
        Some(omx) => omx.port,
        None => None,
    }
}

/// The host to ask: the one in the settings, or else the one that was found, or
/// else this machine.
pub open spec fn endpoint_host(discovered: Endpoint, config: Config) -> Seq<char> {
    match (configured_host(config), discovered.host) {
        (Some(host), _) => host,
        (None, Some(host)) => host,
        (None, None) => "127.0.0.1"@,
    }
}

/// The port to ask, by the same rule.
pub open spec fn endpoint_port(discovered: Endpoint, config: Config) -> u16 {
    match (configured_port(config), discovered.port) {
        (Some(port), _) => port,
        (None, Some(port)) => port,
        (None, None) => DEFAULT_OMLX_PORT,
    }
}

/// Where the server is asked. What is configured goes before what was found,
/// and that before the default, for the host and the port each on its own.
pub fn resolve_omlx_endpoint(discovered: &DiscoveredEndpoint, config: &Config) -> (result: (
    String,
    u16,
))
    ensures
        result.0@ == endpoint_host(discovered@, *config),
        result.1 == endpoint_port(discovered@, *config),
{
    let mut host: Option<String> = None;
    let mut port: Option<u16> = None;
    if let Some(omx) = &config.omx {
        port = omx.port;
        if let Some(name) = &omx.host {
            if !trim(name.as_str()).as_str().is_empty() {
                host = Some(name.clone());
            }
        }
    }
    let host = match host {
        Some(host) => host,
        None => match &discovered.host {
            Some(host) => host.clone(),
            None => "127.0.0.1".to_string(),
        },
    };
    let port: u16 = match port {
        Some(port) => port,
        None => match discovered.port {
            Some(port) => port,
            None => DEFAULT_OMLX_PORT,
        },
    };
    (host, port)
}

/// The host and the port are settled each on its own: what one is has no bearing
/// on the other, and what is configured always wins.
pub proof fn endpoint_fields_are_independent(
    discovered: Endpoint,
    other_host: Option<Seq<char>>,
    other_port: Option<u16>,
    config: Config,
)
    ensures
        endpoint_host(Endpoint { port: other_port, ..discovered }, config) == endpoint_host(
            discovered,
            config,
        ),
        endpoint_port(Endpoint { host: other_host, ..discovered }, config) == endpoint_port(
            discovered,
            config,
        ),
        configured_port(config) is Some ==> Some(endpoint_port(discovered, config))
            == configured_port(config),
        configured_host(config) is Some ==> Some(endpoint_host(discovered, config))
            == configured_host(config),
{
}

pub open spec fn is_loopback_host_spec(host: Seq<char>) -> bool {
    let name = stripped(host, '[', ']');
    name == "127.0.0.1"@ || name == "localhost"@ || name == "::1"@
}

/// Whether a host is this machine.
pub fn is_loopback_host(host: &str) -> (result: bool)
    ensures
        result == is_loopback_host_spec(host@),
{
    let name = strip_marks(host, '[', ']');
    same(name.as_str(), "127.0.0.1") || same(name.as_str(), "localhost") || same(
        name.as_str(),
        "::1",
    )
}

/// Whether a key may be sent to a host: to this machine, and elsewhere only
/// where that was allowed.
pub fn may_authenticate(host: &str, remote_allowed: bool) -> (result: bool)
    ensures
        result == (is_loopback_host_spec(host@) || remote_allowed),
{
    is_loopback_host(host) || remote_allowed
}

/// The key that a line sets, where it sets one.
pub open spec fn key_line(line: Seq<char>) -> Option<Seq<char>> {
    let t = trimmed(line);
    let setting = match after_prefix(t, "export "@) {
        Some(rest) => rest,
        None => t,
    };
    match split_at_mark(setting, '=') {
        Some((name, value)) => if trimmed(name) == "API_KEY"@ {
            Some(stripped(trimmed(value), '"', '"'))
        } else {
            None
        },
        None => None,
    }
}

pub open spec fn first_key(list: Seq<Seq<char>>) -> Option<Seq<char>>
    decreases list.len(),
{
    if list.len() == 0 {
        None
    } else {
        match key_line(list[0]) {
            Some(key) => Some(key),
            None => first_key(list.drop_first()),
        }
    }
}

pub open spec fn parse_api_key_spec(s: Seq<char>) -> Option<Seq<char>> {
    match first_key(lines_of(s)) {
        Some(key) => if key.len() > 0 {
            Some(key)
        } else {
            None
        },
        None => None,
    }
}

fn read_key_line(line: &str) -> (result: Option<String>)
    ensures
        match result {
            Some(key) => key_line(line@) == Some(key@),
            None => key_line(line@) is None,
        },
{
    let t = trim(line);
    let setting = match strip_prefix(t.as_str(), "export ") {
        Some(rest) => rest,
        None => t,
    };
    match split_once(setting.as_str(), '=') {
        Some((name, value)) => if same(trim(name.as_str()).as_str(), "API_KEY") {
            Some(strip_marks(trim(value.as_str()).as_str(), '"', '"'))
        } else {
            None
        },
        None => None,
    }
}

/// The key in a server's own settings. The first line that sets it decides, and
/// an empty key is none.
pub fn parse_api_key(text: &str) -> (result: Option<String>)
    ensures
        match result {
            Some(key) => parse_api_key_spec(text@) == Some(key@),
            None => parse_api_key_spec(text@) is None,
        },
{
    let list = lines(text);
    let ghost all = lines_of(text@);
    let mut i: usize = 0;
    assert(all.skip(0) =~= all);
    while i < list.len()
        invariant
            i <= list@.len(),
            all == lines_of(text@),
            views(list@) == all,
            first_key(all) == first_key(all.skip(i as int)),
        decreases list@.len() - i,
    {
        assert(all[i as int] == list@[i as int]@);
        if let Some(key) = read_key_line(list[i].as_str()) {
            return if key.as_str().is_empty() {
                None
            } else {
                Some(key)
            };
        }
        assert(all.skip(i as int).drop_first() =~= all.skip(i + 1));
        i = i + 1;
    }
    None
}

/// The body of a request to log in with a key.
pub fn login_body(api_key: &str) -> (out: String)
    ensures
        out@ == "{\"api_key\":"@ + json_quoted(api_key@) + ",\"remember\":true}"@,
{
    login_body_of(quote_json(api_key).as_str())
}

/// The body of a request to log in with a key that is already in JSON.
pub fn login_body_of(quoted_key: &str) -> (out: String)
    ensures
        out@ == "{\"api_key\":"@ + quoted_key@ + ",\"remember\":true}"@,
{
    "{\"api_key\":".to_string().concat(quoted_key).concat(",\"remember\":true}")
}

/// One header line.
pub open spec fn header_line(header: (String, String)) -> Seq<char> {
    header.0@ + ": "@ + header.1@ + "\r\n"@
}

pub open spec fn header_lines(headers: Seq<(String, String)>) -> Seq<char>
    decreases headers.len(),
{
    if headers.len() == 0 {
        Seq::empty()
    } else {
        header_lines(headers.drop_last()) + header_line(headers.last())
    }
}

/// A request as it is sent: a request line, the headers, the length of the body
/// in bytes where there is one, and the body.
pub open spec fn request_text(
    host: Seq<char>,
    port: u16,
    method: Seq<char>,
    path: Seq<char>,
    headers: Seq<(String, String)>,
    body: Seq<char>,
) -> Seq<char> {
    let length = if body.len() == 0 {
        Seq::empty()
    } else {
        "Content-Length: "@ + decimal(vstd::utf8::encode_utf8(body).len() as usize as nat) + "\r\n"@
    };
    method + " "@ + path + " HTTP/1.1\r\nHost: "@ + host + ":"@ + decimal(port as nat)
        + "\r\nConnection: close\r\n"@ + header_lines(headers) + length + "\r\n"@ + body
}

/// Writes a request that closes the connection.
pub fn http_request_text(
    host: &str,
    port: u16,
    method: &str,
    path: &str,
    headers: &Vec<(String, String)>,
    body: &str,
) -> (out: String)
    ensures
        out@ == request_text(host@, port, method@, path@, headers@, body@),
{
    let mut fields = String::new();
    for i in 0..headers.len()
        invariant
            fields@ == header_lines(headers@.take(i as int)),
    {
        assert(headers@.take(i + 1).drop_last() =~= headers@.take(i as int));
        let line = headers[i].0.clone().concat(": ").concat(headers[i].1.as_str()).concat("\r\n");
        fields.append(line.as_str());
    }
    assert(headers@.take(headers@.len() as int) =~= headers@);
    let length = if body.is_empty() {
        String::new()
    } else {
        "Content-Length: ".to_string().concat(decimal_text(body.len() as u64).as_str()).concat(
            "\r\n",
        )
    };
    method.to_string().concat(" ").concat(path).concat(" HTTP/1.1\r\nHost: ").concat(host).concat(
        ":",
    ).concat(decimal_text(port as u64).as_str()).concat("\r\nConnection: close\r\n").concat(
        fields.as_str(),
    ).concat(length.as_str()).concat("\r\n").concat(body)
}

/// An answer.
#[derive(Debug)]
pub struct HttpResponse {
    pub status: u16,
    pub headers: Vec<(String, String)>,
    pub body: String,
}

/// The contents of a header.
pub open spec fn header_view(header: (String, String)) -> (Seq<char>, Seq<char>) {
    (header.0@, header.1@)
}

pub open spec fn header_views(headers: Seq<(String, String)>) -> Seq<(Seq<char>, Seq<char>)> {
    headers.map_values(|h: (String, String)| header_view(h))
}

/// The value of the first header with a name, whatever its case.
pub open spec fn header_spec(headers: Seq<(Seq<char>, Seq<char>)>, name: Seq<char>) -> Option<
    Seq<char>,
>
    decreases headers.len(),
{
    if headers.len() == 0 {
        None
    } else if lower(headers[0].0) == lower(name) {
        Some(headers[0].1)
    } else {
        header_spec(headers.drop_first(), name)
    }
}

/// The headers in some lines: a name and a value with a colon between them.
pub open spec fn headers_of(list: Seq<Seq<char>>) -> Seq<(Seq<char>, Seq<char>)>
    decreases list.len(),
{
    if list.len() == 0 {
        Seq::empty()
    } else {
        let rest = headers_of(list.drop_last());
        match split_at_mark(list.last(), ':') {
            Some((name, value)) => rest.push((trimmed(name), trimmed(value))),
            None => rest,
        }
    }
}

/// The status in a status line: the number in its second word.
pub open spec fn status_in(line: Seq<char>) -> Option<u16> {
    if words_of(line).len() < 2 {
        None
    } else {
        match whole_number(words_of(line)[1], u16::MAX as nat) {
            Some(status) => Some(status as u16),
            None => None,
        }
    }
}

/// Whether an answer is what a text says; there is none where the text has no
/// empty line behind its head, or no status.
pub open spec fn answers(result: Option<HttpResponse>, s: Seq<char>) -> bool {
    let mark = "\r\n\r\n"@;
    match find_spec(s, mark) {
        Some(i) => {
            let head = lines_of(s.take(i as int));
            let body = s.skip((i + mark.len()) as int);
            if head.len() == 0 || status_in(head[0]) is None {
                result is None
            } else {
                &&& result is Some
                &&& Some(result.unwrap().status) == status_in(head[0])
                &&& header_views(result.unwrap().headers@) == headers_of(head.drop_first())
                &&& result.unwrap().body@ == body
            }
        },
        None => result is None,
    }
}

fn read_headers(list: &Vec<String>) -> (headers: Vec<(String, String)>)
    requires
        list@.len() > 0,
    ensures
        header_views(headers@) == headers_of(views(list@).drop_first()),
{
    let ghost all = views(list@).drop_first();
    let mut headers: Vec<(String, String)> = Vec::new();
    assert(header_views(headers@) =~= headers_of(all.take(0)));
    for i in 1..list.len()
        invariant
            1 <= i <= list@.len(),
            all == views(list@).drop_first(),
            header_views(headers@) == headers_of(all.take(i - 1)),
    {
        let ghost before = headers@;
        proof {
            assert(all.take(i as int).drop_last() =~= all.take(i - 1));
            assert(all.take(i as int).last() == list@[i as int]@);
        }
        if let Some((name, value)) = split_once(list[i].as_str(), ':') {
            let header = (trim(name.as_str()), trim(value.as_str()));
            headers.push(header);
            assert(header_views(headers@) =~= header_views(before).push(header_view(header)));
        }
    }
    assert(all.take(list@.len() - 1) =~= all);
    headers
}

/// Reads an answer out of a text.
pub fn parse_http_response(raw: &str) -> (result: Option<HttpResponse>)
    ensures
        answers(result, raw@),
{
    let list = chars(raw);
    let mark = chars("\r\n\r\n");
    let total_chars: usize = list.len();
    let i: usize = match find_in(&list, &mark) {
        Some(i) => i,
        None => {
            return None;
        },
    };
    let head_text = text(&list, 0, i);
    let body = text(&list, i + mark.len(), total_chars);
    proof {
        assert(head_text@ =~= raw@.take(i as int));
        assert(body@ =~= raw@.skip(i + mark@.len()));
    }
    let head = lines(head_text.as_str());
    assert(lines_of(head_text@).len() == head@.len());
    if head.len() == 0 {
        return None;
    }
    assert(lines_of(head_text@)[0] == head@[0]@);
    let w = words(head[0].as_str());
    assert(words_of(head@[0]@).len() == w@.len());
    if w.len() < 2 {
        return None;
    }
    assert(words_of(head@[0]@)[1] == w@[1]@);
    match parse_whole(w[1].as_str(), u16::MAX as u64) {
        Some(status) => Some(
            HttpResponse { status: status as u16, headers: read_headers(&head), body },
        ),
        None => None,
    }
}

impl HttpResponse {
    /// The value of the first header with a name, whatever its case.
    pub fn header(&self, name: &str) -> (result: Option<&str>)
        ensures
            match result {
                Some(value) => header_spec(header_views(self.headers@), name@) == Some(value@),
                None => header_spec(header_views(self.headers@), name@) is None,
            },
    {
        let ghost all = header_views(self.headers@);
        let folded = to_lower(name);
        let mut i: usize = 0;
        assert(all.skip(0) =~= all);
        while i < self.headers.len()
            invariant
                i <= self.headers@.len(),
                all == header_views(self.headers@),
                folded@ == lower(name@),
                header_spec(all, name@) == header_spec(all.skip(i as int), name@),
            decreases self.headers@.len() - i,
        {
            assert(all[i as int] == header_view(self.headers@[i as int]));
            if same(to_lower(self.headers[i].0.as_str()).as_str(), folded.as_str()) {
                return Some(self.headers[i].1.as_str());
            }
            assert(all.skip(i as int).drop_first() =~= all.skip(i + 1));
            i = i + 1;
        }
        None
    }

    /// The session that an answer to a login grants: what its cookie says up to
    /// the first semicolon.
    pub fn session_cookie(&self) -> (result: Option<String>)
        ensures
            match result {
                Some(cookie) => self.status == 200 && match header_spec(
                    header_views(self.headers@),
                    "set-cookie"@,
                ) {
                    Some(value) => cookie@ == value.take(position(value, ';') as int),
                    None => false,
                },
                None => self.status != 200 || header_spec(
                    header_views(self.headers@),
                    "set-cookie"@,
                ) is None,
            },
    {
        if self.status != 200 {
            return None;
        }
        match self.header("set-cookie") {
            Some(value) => {
                let list = chars(value);
                let end: usize = index_of(&list, ';');
                let cookie = text(&list, 0, end);
                assert(cookie@ =~= value@.take(end as int));
                Some(cookie)
            },
            None => None,
        }
    }
}

/// The text that `String::from_utf8_lossy` makes of some bytes.
pub uninterp spec fn lossy_text(bytes: Seq<u8>) -> Seq<char>;

/// Decodes bytes with `String::from_utf8_lossy`: as UTF-8, with a replacement
/// character where they are none. What comes of some bytes is a function of
/// them alone; nothing more is claimed of it.
#[verifier::external_body]
fn decode_lossy(bytes: &Vec<u8>) -> (out: String)
    ensures
        out@ == lossy_text(bytes@),
{
    String::from_utf8_lossy(bytes.as_slice()).into_owned()
}

/// Reads an answer out of the bytes that were received. More than
/// `MAX_HTTP_RESPONSE_BYTES` are no answer.
pub fn read_http_response(raw: &Vec<u8>) -> (result: Option<HttpResponse>)
    ensures
        if raw@.len() > MAX_HTTP_RESPONSE_BYTES {
            result is None
        } else {
            answers(result, lossy_text(raw@))
        },
{
    if raw.len() > MAX_HTTP_RESPONSE_BYTES {
        return None;
    }
    parse_http_response(decode_lossy(raw).as_str())
}

proof fn lemma_setting(name: Seq<char>, setting: Seq<char>, mark: char)
    requires
        forall|i: int| 0 <= i < name.len() ==> name[i] != mark,
    ensures
        split_at_mark(name.push(mark) + setting, mark) == Some((name, setting)),
{
    let line = name.push(mark) + setting;
    marks_are_found(name, mark, setting);
    assert(line.take(name.len() as int) =~= name);
    assert(line.skip(name.len() as int + 1) =~= setting);
}

/// A server's settings say where it listens: its host under its names for a host,
/// its port under its names for a port. A host that stands for every address is
/// none, and neither setting touches the other.
pub proof fn settings_say_where_the_server_is(
    s: Seq<char>,
    name: Seq<char>,
    setting: Seq<char>,
    port: u16,
)
    requires
        lines_of(s).len() > 0,
        lines_of(s).last() == name.push('=') + setting,
        forall|i: int| 0 <= i < name.len() ==> name[i] != '=',
    ensures
        ({
            let found = parse_omlx_server_env_spec(s);
            let before = settings_of(lines_of(s).drop_last());
            let key = trimmed(name);
            let value = stripped(trimmed(setting), '"', '"');
            let of_host = key == "HOST"@ || key == "OMLX_HOST"@;
            let of_port = key == "PORT"@ || key == "OMLX_PORT"@;
            &&& of_host && value.len() > 0 && value != "0.0.0.0"@ ==> found.host == Some(value)
                && found.port == before.port
            &&& of_host && value == "0.0.0.0"@ ==> found == before
            &&& of_port && value == decimal(port as nat) ==> found.port == Some(port) && found.host
                == before.host
            &&& !of_host && !of_port ==> found == before
        }),
{
    lemma_setting(name, setting, '=');
    written_numbers_read_back(port as nat, u16::MAX as nat);
    reveal_strlit("HOST");
    reveal_strlit("OMLX_HOST");
    reveal_strlit("PORT");
    reveal_strlit("OMLX_PORT");
    assert("HOST"@[0] != "PORT"@[0]);
    assert("OMLX_HOST"@[5] != "OMLX_PORT"@[5]);
    assert("HOST"@.len() == 4 && "OMLX_PORT"@.len() == 9 && "OMLX_HOST"@.len() == 9);
}

/// The settings of the monitor go before what was found, each by itself; without
/// either the server is on this machine, at its usual port.
pub proof fn settings_go_before_what_was_found(discovered: Endpoint, config: Config)
    ensures
        config.omx is Some && config.omx.unwrap().host is Some && trimmed(
            config.omx.unwrap().host.unwrap()@,
        ).len() > 0 ==> endpoint_host(discovered, config) == config.omx.unwrap().host.unwrap()@,
        config.omx is Some && config.omx.unwrap().port is Some ==> Some(
            endpoint_port(discovered, config),
        ) == config.omx.unwrap().port,
        config.omx is None && discovered.host is Some ==> Some(endpoint_host(discovered, config))
            == discovered.host,
        config.omx is None && discovered.port is Some ==> Some(endpoint_port(discovered, config))
            == discovered.port,
        config.omx is None && discovered.host is None ==> endpoint_host(discovered, config)
            == "127.0.0.1"@,
        config.omx is None && discovered.port is None ==> endpoint_port(discovered, config) == 8080,
{
}

/// Only this machine's own names make a host this machine.
pub proof fn only_this_machine_is_this_machine(host: Seq<char>)
    ensures
        is_loopback_host_spec(host) <==> (stripped(host, '[', ']') == "127.0.0.1"@ || stripped(
            host,
            '[',
            ']',
        ) == "localhost"@ || stripped(host, '[', ']') == "::1"@),
{
}

proof fn lemma_one_line(s: Seq<char>, line: Seq<char>)
    requires
        forall|i: int| 0 <= i < s.len() ==> s[i] != '\n',
    ensures
        (line + s).len() > 0 ==> lines_from(s, line) == seq![line + s],
    decreases s.len(),
{
    if s.len() == 0 {
        assert(line + s =~= line);
    } else {
        assert(s[0] != '\n');
        let rest = s.drop_first();
        assert forall|i: int| 0 <= i < rest.len() implies rest[i] != '\n' by {
            assert(rest[i] == s[i + 1]);
        }
        lemma_one_line(rest, line.push(s[0]));
        assert(line.push(s[0]) + rest =~= line + s);
    }
}

/// An answer reads back: the status is the second word of its first line, and the
/// body is what follows the empty line, as it stands.
pub proof fn answers_read_back(
    result: Option<HttpResponse>,
    head: Seq<char>,
    body: Seq<char>,
    status: u16,
)
    requires
        answers(result, head + "\r\n\r\n"@ + body),
        forall|i: int| 0 <= i < head.len() ==> head[i] != '\r' && head[i] != '\n',
        words_of(head).len() >= 2,
        words_of(head)[1] == decimal(status as nat),
    ensures
        result is Some,
        result.unwrap().status == status,
        result.unwrap().body@ == body,
        result.unwrap().headers@.len() == 0,
{
    reveal_strlit("\r\n\r\n");
    patterns_are_found(head, "\r\n\r\n"@, body);
    written_numbers_read_back(status as nat, u16::MAX as nat);
    assert(head.len() > 0);
    lemma_one_line(head, Seq::empty());
    assert(Seq::<char>::empty() + head =~= head);
    let list = lines_of(head);
    assert(list =~= seq![head]);
    assert(list.drop_first() =~= Seq::<Seq<char>>::empty());
    assert(header_views(result.unwrap().headers@).len() == result.unwrap().headers@.len());
}

/// A header line says its name and its value, and is found by its name whatever
/// the case.
pub proof fn headers_say_their_values(list: Seq<Seq<char>>, name: Seq<char>, value: Seq<char>)
    requires
        forall|i: int| 0 <= i < name.len() ==> name[i] != ':',
    ensures
        headers_of(list.push(name.push(':') + value)) == headers_of(list).push(
            (trimmed(name), trimmed(value)),
        ),
        headers_of(list).len() == 0 ==> header_spec(
            headers_of(list.push(name.push(':') + value)),
            trimmed(name),
        ) == Some(trimmed(value)),
{
    lemma_setting(name, value, ':');
    let all = list.push(name.push(':') + value);
    assert(all.drop_last() =~= list);
}

/// A request names its method, its path, and the host and port it goes to, and
/// ends with its body behind an empty line.
pub proof fn requests_say_what_they_ask(
    host: Seq<char>,
    port: u16,
    method: Seq<char>,
    path: Seq<char>,
    headers: Seq<(String, String)>,
    body: Seq<char>,
)
    ensures
        ({
            let text = request_text(host, port, method, path, headers, body);
            let start = method + " "@ + path + " HTTP/1.1\r\nHost: "@ + host + ":"@ + decimal(
                port as nat,
            ) + "\r\nConnection: close\r\n"@;
            let end = "\r\n"@ + body;
            &&& text.len() >= start.len() + end.len()
            &&& text.take(start.len() as int) == start
            &&& text.skip(text.len() - end.len()) == end
            &&& body.len() == 0 && headers.len() == 0 ==> text == start + end
        }),
{
    let text = request_text(host, port, method, path, headers, body);
    let start = method + " "@ + path + " HTTP/1.1\r\nHost: "@ + host + ":"@ + decimal(port as nat)
        + "\r\nConnection: close\r\n"@;
    let end = "\r\n"@ + body;
    assert(text.take(start.len() as int) =~= start);
    assert(text.skip(text.len() - end.len()) =~= end);
    if body.len() == 0 && headers.len() == 0 {
        assert(text =~= start + end);
    }
}


/// The key of a server is what is assigned to its name, with or without a word
/// before it that exports it, in the first line that does so. An empty key is
/// none.
pub proof fn keys_are_read_from_their_line(s: Seq<char>, at: int, key: Seq<char>)
    requires
        0 <= at < lines_of(s).len(),
        forall|i: int| 0 <= i < at ==> key_line(#[trigger] lines_of(s)[i]) is None,
        trimmed(lines_of(s)[at]) == "API_KEY="@ + key || trimmed(lines_of(s)[at])
            == "export API_KEY="@ + key,
    ensures
        ({
            let value = stripped(trimmed(key), '"', '"');
            parse_api_key_spec(s) == if value.len() > 0 {
                Some(value)
            } else {
                None
            }
        }),
{
    let line = lines_of(s)[at];
    let t = trimmed(line);
    reveal_strlit("API_KEY=");
    reveal_strlit("export API_KEY=");
    reveal_strlit("export ");
    reveal_strlit("API_KEY");
    let name = "API_KEY"@;
    assert(name.push('=') =~= "API_KEY="@);
    lemma_setting(name, key, '=');
    let setting = "API_KEY="@ + key;
    if t == "export API_KEY="@ + key {
        assert(t.subrange(0, 7) =~= "export "@);
        assert("export "@.is_prefix_of(t));
        assert(t.skip(7) =~= setting);
    } else {
        assert(t[0] == 'A' && "export "@[0] == 'e');
        if "export "@.is_prefix_of(t) {
            assert(t.subrange(0, 7)[0] == "export "@[0]);
        }
    }
    assert(trimmed(name) =~= name);
    lemma_first_key(lines_of(s), at);
}

proof fn lemma_first_key(list: Seq<Seq<char>>, at: int)
    requires
        0 <= at < list.len(),
        forall|i: int| 0 <= i < at ==> key_line(#[trigger] list[i]) is None,
        key_line(list[at]) is Some,
    ensures
        first_key(list) == key_line(list[at]),
    decreases at,
{
    if at > 0 {
        assert(key_line(list[0]) is None);
        let fewer = list.drop_first();
        assert forall|i: int| 0 <= i < at - 1 implies key_line(#[trigger] fewer[i]) is None by {
            assert(fewer[i] == list[i + 1]);
        }
        lemma_first_key(fewer, at - 1);
    }
}
} // verus!
