//! The launcher's configuration, the proxy's choice of which requests to redirect
//! and where, and the platform facts it needs.
use crate::text::{
    ascii_chars, ascii_string, lemma_nat_digits, nat_digits, push_digits, str_eq,
    string_from_utf8,
};
use vstd::prelude::*;
use vstd::string::StringExecFns;
use vstd::utf8::{
    decode_utf8, decode_utf8_encode_utf8, encode_utf8, encode_utf8_valid_utf8,
    is_char_boundary_iff_not_is_continuation_byte, pop_first_scalar, valid_utf8,
    valid_utf8_split,
};

verus! {

pub struct Server {
    pub host: String,
    pub port: u16,
    pub encrypted: bool,
}

/// `<scheme>://<host>:<port>`, the scheme being https for an encrypted server.
pub open spec fn address_text(host: Seq<char>, port: u16, encrypted: bool) -> Seq<char> {
    (if encrypted {
        "https"@
    } else {
        "http"@
    }) + "://"@ + host + ":"@ + ascii_chars(nat_digits(port as nat))
}

/// The decimal digits of `n` as a string.
fn digits_string(n: u16) -> (s: String)
    ensures
        s@ == ascii_chars(nat_digits(n as nat)),
{
    let mut bytes: Vec<u8> = Vec::new();
    push_digits(&mut bytes, n as u64);
    proof {
        lemma_nat_digits(n as nat);
        assert(bytes@ =~= nat_digits(n as nat));
    }
    ascii_string(bytes)
}

impl Server {
    /// Parses the server's address into a string.
    pub fn address(&self) -> (r: String)
        ensures
            r@ == address_text(self.host@, self.port, self.encrypted),
    {
        let mut r = String::new();
        if self.encrypted {
            r.append("https");
        } else {
            r.append("http");
        }
        r.append("://");
        r.append(self.host.as_str());
        r.append(":");
        let port = digits_string(self.port);
        r.append(port.as_str());
        assert(r@ =~= address_text(self.host@, self.port, self.encrypted));
        r
    }

    pub fn clone(&self) -> (r: Server)
        ensures
            r.host@ == self.host@,
            r.port == self.port,
            r.encrypted == self.encrypted,
    {
        Server { host: self.host.clone(), port: self.port, encrypted: self.encrypted }
    }
}

pub struct Proxy {
    pub host: String,
    pub port: u16,
    pub cert_path: String,
    pub urls: Vec<String>,
}

pub struct Game {
    pub path: String,
    pub proxy: Server,
}

impl Game {
    pub fn clone(&self) -> (r: Game)
        ensures
            r.path@ == self.path@,
            r.proxy.host@ == self.proxy.host@,
            r.proxy.port == self.proxy.port,
            r.proxy.encrypted == self.proxy.encrypted,
    {
        Game { path: self.path.clone(), proxy: self.proxy.clone() }
    }
}

pub struct Options {
    pub genshin: Game,
    pub starrail: Game,
    pub proxy: Proxy,
}

/// Two game configurations hold the same values.
pub open spec fn same_game(a: Game, b: Game) -> bool {
    &&& a.path@ == b.path@
    &&& a.proxy.host@ == b.proxy.host@
    &&& a.proxy.port == b.proxy.port
    &&& a.proxy.encrypted == b.proxy.encrypted
}

/// Two proxy configurations hold the same values.
pub open spec fn same_proxy(a: Proxy, b: Proxy) -> bool {
    &&& a.host@ == b.host@
    &&& a.port == b.port
    &&& a.cert_path@ == b.cert_path@
    &&& a.urls@.len() == b.urls@.len()
    &&& forall|i: int| 0 <= i < a.urls@.len() ==> #[trigger] a.urls@[i]@ == b.urls@[i]@
}

impl Proxy {
    pub fn clone(&self) -> (r: Proxy)
        ensures
            same_proxy(r, *self),
    {
        let mut urls: Vec<String> = Vec::new();
        let mut i: usize = 0;
        while i < self.urls.len()
            invariant
                i <= self.urls@.len(),
                urls@.len() == i,
                forall|j: int| 0 <= j < i ==> #[trigger] urls@[j]@ == self.urls@[j]@,
            decreases self.urls@.len() - i,
        {
            urls.push(self.urls[i].clone());
            i = i + 1;
        }
        Proxy {
            host: self.host.clone(),
            port: self.port,
            cert_path: self.cert_path.clone(),
            urls,
        }
    }
}

/// Two servers hold the same values.
pub open spec fn same_server(a: Server, b: Server) -> bool {
    &&& a.host@ == b.host@
    &&& a.port == b.port
    &&& a.encrypted == b.encrypted
}

/// The configuration of the game called `name`: "genshin" or "starrail".
pub open spec fn game_of(o: Options, name: Seq<char>) -> Option<Game> {
    if name == "genshin"@ {
        Some(o.genshin)
    } else if name == "starrail"@ {
        Some(o.starrail)
    } else {
        None
    }
}

/// `next` is `o` with the path of the game called `name` (one of the two) set to `path`.
pub open spec fn path_set(o: Options, name: Seq<char>, path: Seq<char>, next: Options) -> bool {
    &&& same_proxy(next.proxy, o.proxy)
    &&& if name == "genshin"@ {
        &&& next.genshin.path@ == path
        &&& same_server(next.genshin.proxy, o.genshin.proxy)
        &&& same_game(next.starrail, o.starrail)
    } else {
        &&& next.starrail.path@ == path
        &&& same_server(next.starrail.proxy, o.starrail.proxy)
        &&& same_game(next.genshin, o.genshin)
    }
}

/// `next` is `o` with the server of the game called `name` (one of the two) set to
/// `host`, `port` and `encrypted`.
pub open spec fn server_set(
    o: Options,
    name: Seq<char>,
    host: Seq<char>,
    port: u16,
    encrypted: bool,
    next: Options,
) -> bool {
    &&& same_proxy(next.proxy, o.proxy)
    &&& if name == "genshin"@ {
        &&& next.genshin.proxy.host@ == host
        &&& next.genshin.proxy.port == port
        &&& next.genshin.proxy.encrypted == encrypted
        &&& next.genshin.path@ == o.genshin.path@
        &&& same_game(next.starrail, o.starrail)
    } else {
        &&& next.starrail.proxy.host@ == host
        &&& next.starrail.proxy.port == port
        &&& next.starrail.proxy.encrypted == encrypted
        &&& next.starrail.path@ == o.starrail.path@
        &&& same_game(next.genshin, o.genshin)
    }
}

impl Options {
    /// Fetches the game configuration options by name.
    /// game: The name of the game. `None` unless it is "genshin" or "starrail": an
    /// unknown game is reported to the caller, in place of a panic.
    pub fn game_from_name(&self, game: &str) -> (r: Option<Game>)
        ensures
            match game_of(*self, game@) {
                None => r is None,
                Some(g0) => r matches Some(g) && same_game(g, g0),
            },
    {
        proof {
            reveal_strlit("genshin");
            reveal_strlit("starrail");
            assert("genshin"@.len() != "starrail"@.len());
        }
        if str_eq(game, "genshin") {
            Some(self.genshin.clone())
        } else if str_eq(game, "starrail") {
            Some(self.starrail.clone())
        } else {
            None
        }
    }

    /// The options to store after the game path for a game is set.
    /// game: The name of the game. `None` unless it is "genshin" or "starrail": an
    /// unknown game is reported to the caller, in place of a panic.
    /// path: The path to the game's executable.
    pub fn set_game_path(&self, game: &str, path: String) -> (r: Option<Options>)
        ensures
            game_of(*self, game@) is None ==> r is None,
            game_of(*self, game@) is Some ==> (r matches Some(o) && path_set(*self, game@, path@, o)),
    {
        proof {
            reveal_strlit("genshin");
            reveal_strlit("starrail");
            assert("genshin"@.len() != "starrail"@.len());
        }
        let mut options = self.clone();
        if str_eq(game, "genshin") {
            options.genshin.path = path;
        } else if str_eq(game, "starrail") {
            options.starrail.path = path;
        } else {
            return None;
        }
        Some(options)
    }

    /// The options to store after the server for a game is set.
    /// game: The name of the game. `None` unless it is "genshin" or "starrail": an
    /// unknown game is reported to the caller, in place of a panic.
    /// host: The server's address.
    /// port: The server's port.
    /// encrypted: Whether the server uses HTTPS.
    pub fn set_server(&self, game: &str, host: String, port: u16, encrypted: bool) -> (r: Option<
        Options,
    >)
        ensures
            game_of(*self, game@) is None ==> r is None,
            game_of(*self, game@) is Some ==> (r matches Some(o) && server_set(
                *self,
                game@,
                host@,
                port,
                encrypted,
                o,
            )),
    {
        proof {
            reveal_strlit("genshin");
            reveal_strlit("starrail");
            assert("genshin"@.len() != "starrail"@.len());
        }
        let mut options = self.clone();
        if str_eq(game, "genshin") {
            options.genshin.proxy.host = host;
            options.genshin.proxy.port = port;
            options.genshin.proxy.encrypted = encrypted;
        } else if str_eq(game, "starrail") {
            options.starrail.proxy.host = host;
            options.starrail.proxy.port = port;
            options.starrail.proxy.encrypted = encrypted;
        } else {
            return None;
        }
        Some(options)
    }

    pub fn clone(&self) -> (r: Options)
        ensures
            same_game(r.genshin, self.genshin),
            same_game(r.starrail, self.starrail),
            same_proxy(r.proxy, self.proxy),
    {
        Options {
            genshin: self.genshin.clone(),
            starrail: self.starrail.clone(),
            proxy: self.proxy.clone(),
        }
    }
}

/// What the launcher reads for a game after its path was set is that path, with the
/// server the game had; after its server was set, that server, with the path the
/// game had.
pub proof fn lemma_settings_read_back(
    o: Options,
    name: Seq<char>,
    path: Seq<char>,
    host: Seq<char>,
    port: u16,
    encrypted: bool,
    with_path: Options,
    with_server: Options,
)
    requires
        game_of(o, name) is Some,
        path_set(o, name, path, with_path),
        server_set(o, name, host, port, encrypted, with_server),
    ensures
        game_of(with_path, name) matches Some(g) && g.path@ == path && same_server(
            g.proxy,
            game_of(o, name)->0.proxy,
        ),
        game_of(with_server, name) matches Some(g) && g.proxy.host@ == host && g.proxy.port == port
            && g.proxy.encrypted == encrypted && g.path@ == game_of(o, name)->0.path@,
{
}

/// The game servers and the proxy as a fresh configuration has them: both games at
/// their default install paths with the server `127.0.0.1:8080` over http, the proxy on
/// `127.0.0.1:8365` with certificates in `certs`, intercepting the game domains.
pub open spec fn default_options(o: Options) -> bool {
    &&& o.genshin.path@ == "C:\\Program Files\\Genshin Impact\\Genshin Impact game\\GenshinImpact.exe"@
    &&& o.genshin.proxy.host@ == "127.0.0.1"@
    &&& o.genshin.proxy.port == 8080
    &&& !o.genshin.proxy.encrypted
    &&& o.starrail.path@ == "C:\\Program Files\\Honkai Star Rail\\Star Rail game\\GenshinImpact.exe"@
    &&& o.starrail.proxy.host@ == "127.0.0.1"@
    &&& o.starrail.proxy.port == 8080
    &&& !o.starrail.proxy.encrypted
    &&& o.proxy.host@ == "127.0.0.1"@
    &&& o.proxy.port == 8365
    &&& o.proxy.cert_path@ == "certs"@
    &&& o.proxy.urls@.len() == 8
    &&& o.proxy.urls@[0]@ == "hoyoverse.com"@
    &&& o.proxy.urls@[1]@ == "mihoyo.com"@
    &&& o.proxy.urls@[2]@ == "yuanshen.com"@
    &&& o.proxy.urls@[3]@ == "starrails.com"@
    &&& o.proxy.urls@[4]@ == "bhsr.com"@
    &&& o.proxy.urls@[5]@ == "bh3.com"@
    &&& o.proxy.urls@[6]@ == "honkaiimpact3.com"@
    &&& o.proxy.urls@[7]@ == "zenlesszonezero.com"@
}

impl Default for Options {
    fn default() -> (r: Self)
        ensures
            default_options(r),
    {
        Options {
            genshin: Game {
                path: "C:\\Program Files\\Genshin Impact\\Genshin Impact game\\GenshinImpact.exe".to_owned(),
                proxy: Server { host: "127.0.0.1".to_owned(), port: 8080, encrypted: false },
            },
            starrail: Game {
                path: "C:\\Program Files\\Honkai Star Rail\\Star Rail game\\GenshinImpact.exe".to_owned(),
                proxy: Server { host: "127.0.0.1".to_owned(), port: 8080, encrypted: false },
            },
            proxy: Proxy {
                host: "127.0.0.1".to_owned(),
                port: 8365,
                cert_path: "certs".to_owned(),
                urls: vec![
                    "hoyoverse.com".to_owned(),
                    "mihoyo.com".to_owned(),
                    "yuanshen.com".to_owned(),
                    "starrails.com".to_owned(),
                    "bhsr.com".to_owned(),
                    "bh3.com".to_owned(),
                    "honkaiimpact3.com".to_owned(),
                    "zenlesszonezero.com".to_owned(),
                ],
            },
        }
    }
}

pub struct State {
    pub options: Options,
    pub selected_game: String,
    pub require_admin: bool,
}

impl Default for State {
    fn default() -> (r: Self)
        ensures
            default_options(r.options),
            r.selected_game@ == "genshin"@,
            !r.require_admin,
    {
        State {
            options: Options::default(),
            selected_game: "genshin".to_owned(),
            require_admin: false,
        }
    }
}

/// `needle` occurs in `hay` at index `i`.
pub open spec fn occurs_at(hay: Seq<u8>, needle: Seq<u8>, i: int) -> bool {
    0 <= i && i + needle.len() <= hay.len() && hay.subrange(i, i + needle.len()) == needle
}

/// `needle` occurs somewhere in `hay`, as `str::contains` finds it.
pub open spec fn has_substring(hay: Seq<u8>, needle: Seq<u8>) -> bool {
    exists|i: int| occurs_at(hay, needle, i)
}

fn bytes_contain(hay: &[u8], needle: &[u8]) -> (r: bool)
    ensures
        r == has_substring(hay@, needle@),
{
    if needle.len() > hay.len() {
        assert forall|i: int| !occurs_at(hay@, needle@, i) by {}
        return false;
    }
    let hlen = hay.len();
    let last = hlen - needle.len();
    let mut i: usize = 0;
    loop
        invariant
            hlen == hay@.len(),
            last == hay@.len() - needle@.len(),
            i <= last,
            forall|k: int| 0 <= k < i ==> !occurs_at(hay@, needle@, k),
        decreases last - i,
    {
        let mut j: usize = 0;
        let mut same = true;
        while j < needle.len()
            invariant
                hlen == hay@.len(),
                i <= last,
                last == hay@.len() - needle@.len(),
                hay@.len() >= needle@.len(),
                i + needle@.len() <= hay@.len(),
                j <= needle@.len(),
                same == forall|m: int| 0 <= m < j ==> hay@[i + m] == needle@[m],
            decreases needle@.len() - j,
        {
            assert(i + j < hlen);
            if hay[i + j] != needle[j] {
                same = false;
            }
            j = j + 1;
        }
        if same {
            assert(hay@.subrange(i as int, i + needle@.len()) =~= needle@);
            assert(occurs_at(hay@, needle@, i as int));
            return true;
        }
        assert(!occurs_at(hay@, needle@, i as int)) by {
            if occurs_at(hay@, needle@, i as int) {
                assert forall|m: int| 0 <= m < needle@.len() implies hay@[i + m] == needle@[m] by {
                    assert(hay@.subrange(i as int, i + needle@.len())[m] == hay@[i + m]);
                }
            }
        }
        if i == last {
            assert forall|k: int| !occurs_at(hay@, needle@, k) by {
                if 0 <= k < i {
                } else if k == i {
                } else {
                }
            }
            return false;
        }
        i = i + 1;
    }
}

/// Checks if the request URI contains a URL that should be intercepted.
/// uri: The request's URI.
/// urls: The intercepted domains.
pub fn contains(uri: &str, urls: &Vec<String>) -> (r: bool)
    ensures
        r == exists|i: int|
            0 <= i < urls@.len() && has_substring(encode_utf8(uri@), encode_utf8(#[trigger] urls@[i]@)),
{
    let hay = uri.as_bytes();
    let mut i: usize = 0;
    while i < urls.len()
        invariant
            i <= urls@.len(),
            hay@ == encode_utf8(uri@),
            forall|k: int|
                0 <= k < i ==> !has_substring(encode_utf8(uri@), encode_utf8(#[trigger] urls@[k]@)),
        decreases urls@.len() - i,
    {
        if bytes_contain(hay, urls[i].as_str().as_bytes()) {
            return true;
        }
        i = i + 1;
    }
    false
}

/// The URI that an intercepted request is sent to: the game server's address
/// followed by the request's path and query.
pub fn redirect_uri(server: &Server, path_and_query: &str) -> (r: String)
    ensures
        r@ == address_text(server.host@, server.port, server.encrypted) + path_and_query@,
{
    let mut r = server.address();
    r.append(path_and_query);
    r
}

/// What the proxy does with a request: `None` to send it on unchanged, or the URI
/// to send it to instead.
/// method: The request's method.
/// uri: The request's URI.
/// urls: The intercepted domains.
/// server: The game server of the selected game.
/// path_and_query: The request's path and query.
/// A request whose URI contains an intercepted domain goes to the game server's
/// address followed by its path and query, unless it is a CONNECT request, which,
/// like every other request, goes on unchanged.
pub fn handle_request(
    method: &str,
    uri: &str,
    urls: &Vec<String>,
    server: &Server,
    path_and_query: &str,
) -> (r: Option<String>)
    ensures
        ({
            let intercepted = exists|i: int|
                0 <= i < urls@.len() && has_substring(
                    encode_utf8(uri@),
                    encode_utf8(#[trigger] urls@[i]@),
                );
            if intercepted && method@ != "CONNECT"@ {
                r matches Some(u) && u@ == address_text(server.host@, server.port, server.encrypted)
                    + path_and_query@
            } else {
                r is None
            }
        }),
{
    // Check if we should intercept the request.
    if !contains(uri, urls) {
        return None;
    }
    if str_eq(method, "CONNECT") {
        return None;
    }
    Some(redirect_uri(server, path_and_query))
}

/// The system proxy setting that sends http and https traffic to the local proxy
/// on `port`: `http=127.0.0.1:<port>;https=127.0.0.1:<port>`.
pub fn proxy_setting(port: u16) -> (r: String)
    ensures
        r@ == "http=127.0.0.1:"@ + ascii_chars(nat_digits(port as nat)) + ";https=127.0.0.1:"@
            + ascii_chars(nat_digits(port as nat)),
{
    let digits = digits_string(port);
    let mut r = String::new();
    r.append("http=127.0.0.1:");
    r.append(digits.as_str());
    r.append(";https=127.0.0.1:");
    r.append(digits.as_str());
    assert(r@ =~= "http=127.0.0.1:"@ + ascii_chars(nat_digits(port as nat)) + ";https=127.0.0.1:"@
        + ascii_chars(nat_digits(port as nat)));
    r
}

/// Whether the launcher runs with administrator rights: never on this platform.
pub fn is_elevated() -> (r: bool)
    ensures
        !r,
{
    false
}

/// Where the snowflake library is installed: nowhere on this platform.
pub fn snowflake_path() -> (r: String)
    ensures
        r@ == Seq::<char>::empty(),
{
    String::new()
}

/// A path separator byte: `/` or `\`.
pub open spec fn is_separator(b: u8) -> bool {
    b == 0x2F || b == 0x5C
}

/// The index just past the last separator among the first `n` bytes of `b`, or 0
/// where there is none.
pub open spec fn segment_start(b: Seq<u8>, n: int) -> int
    decreases n,
{
    if n <= 0 {
        0
    } else if is_separator(b[n - 1]) {
        n
    } else {
        segment_start(b, n - 1)
    }
}

/// The name of the game's process, which the launcher waits on: the part of the
/// game's path after its last `/` or `\` (all of it where there is none).
pub fn process_name(path: &str) -> (r: String)
    ensures
        encode_utf8(r@) == encode_utf8(path@).skip(
            segment_start(encode_utf8(path@), encode_utf8(path@).len() as int),
        ),
{
    let bytes = path.as_bytes();
    let ghost b = bytes@;
    let mut i: usize = bytes.len();
    while i > 0 && !(bytes[i - 1] == 0x2F || bytes[i - 1] == 0x5C)
        invariant
            i <= b.len(),
            bytes@ == b,
            segment_start(b, b.len() as int) == segment_start(b, i as int),
        decreases i,
    {
        i = i - 1;
    }
    let suffix = vstd::slice::slice_to_vec(vstd::slice::slice_subrange(bytes, i, bytes.len()));
    proof {
        encode_utf8_valid_utf8(path@);
        if i > 0 {
            is_char_boundary_iff_not_is_continuation_byte(b, i - 1);
            valid_utf8_split(b, i - 1);
            let t = b.subrange(i - 1, b.len() as int);
            assert(valid_utf8(t));
            assert(pop_first_scalar(t) =~= b.subrange(i as int, b.len() as int));
        } else {
            assert(b.subrange(0, b.len() as int) =~= b);
        }
        assert(suffix@ =~= b.skip(i as int));
    }
    match string_from_utf8(suffix) {
        Some(name) => {
            proof {
                decode_utf8_encode_utf8(b.skip(i as int));
            }
            name
        },
        None => String::new(),
    }
}

/// What the launcher does about administrator rights before it starts.
#[derive(PartialEq, Eq, Structural)]
pub enum Elevation {
    /// Rights are not needed, or already held.
    NotNeeded,
    /// Rights are needed on a platform where the launcher cannot ask for them: the
    /// user must start it with sudo.
    NeedsSudo,
    /// Rights are needed: the launcher starts itself again as administrator.
    Relaunch,
}

/// Check if we are running as administrator.
/// If we specify that we don't require admin, we can skip this check.
/// We can also skip if we are already running as admin.
/// Only on Windows can the launcher relaunch itself with the rights.
pub fn elevation(elevated: bool, require_admin: bool, on_windows: bool) -> (r: Elevation)
    ensures
        r == (if elevated || !require_admin {
            Elevation::NotNeeded
        } else if !on_windows {
            Elevation::NeedsSudo
        } else {
            Elevation::Relaunch
        }),
{
    if elevated || !require_admin {
        Elevation::NotNeeded
    } else if !on_windows {
        Elevation::NeedsSudo
    } else {
        Elevation::Relaunch
    }
}

/// The words of `parts`, joined by single spaces.
pub open spec fn joined(parts: Seq<Seq<char>>) -> Seq<char>
    decreases parts.len(),
{
    if parts.len() == 0 {
        seq![]
    } else if parts.len() == 1 {
        parts[0]
    } else {
        joined(parts.drop_last()) + " "@ + parts.last()
    }
}

/// The arguments after the first (the path of the program), as text.
pub open spec fn program_arguments(args: Seq<String>) -> Seq<Seq<char>> {
    if args.len() == 0 {
        seq![]
    } else {
        args.skip(1).map_values(|a: String| a@)
    }
}

/// The parameters that the launcher passes to itself when it starts again as
/// administrator: its arguments without the first (the path of the program),
/// joined by spaces.
pub fn relaunch_parameters(args: &Vec<String>) -> (r: String)
    ensures
        r@ == joined(program_arguments(args@)),
{
    let ghost words = program_arguments(args@);
    let mut r = String::new();
    if args.len() <= 1 {
        assert(words.len() == 0);
        return r;
    }
    r.append(args[1].as_str());
    let mut i: usize = 2;
    assert(words.take(1) =~= seq![words[0]]);
    while i < args.len()
        invariant
            2 <= i <= args@.len(),
            words == program_arguments(args@),
            r@ == joined(words.take(i - 1)),
        decreases args@.len() - i,
    {
        r.append(" ");
        r.append(args[i].as_str());
        proof {
            let w = words.take(i as int);
            assert(w.drop_last() =~= words.take(i - 1));
            assert(w.last() == args@[i as int]@);
        }
        i = i + 1;
    }
    assert(words.take(i - 1) =~= words);
    r
}

} // verus!
