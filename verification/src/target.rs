//! What a served name forwards to, and the `name=target` grammar an operator spells it in.

use vstd::prelude::*;
use vstd::string::*;

use crate::bridge::{marker_ceiling, what_each_marker_answers, BoundHandler, ErasedHandler};
use crate::builtins::{Echo, Forward};
use crate::contract::Metering;
use crate::open_policy::OptIn;
use crate::text::{
    after_prefix, before_suffix, chars_of, digits_value, is_digit, is_letter, is_port,
    lemma_joined_splits_first, lemma_joined_splits_last, lemma_split_first, lemma_split_first_parts,
    lemma_split_last_parts, lemma_splits_where_held, reads_as_port, same, split_at_first, split_at_last, split_first,
    split_last, unsigned,
};

verus! {

/// A raw byte source: bytes with no auth of their own, spliced toward the peer.
#[derive(Debug, Clone, PartialEq, Eq)]
pub enum RawStream<Text> {
    /// An existing file, opened again for every stream.
    File {
        /// The path the operator named.
        path: Text,
    },
    /// A named pipe.
    Fifo {
        /// The path the operator named.
        path: Text,
        /// Whether many consumers may attach, dropping what they cannot keep up with.
        lossy: bool,
    },
    /// This process's own standard input.
    Stdin {
        /// Whether many consumers may attach, dropping what they cannot keep up with.
        lossy: bool,
    },
}

impl View for RawStream<String> {
    type V = RawStream<Seq<char>>;

    open spec fn view(&self) -> RawStream<Seq<char>> {
        match self {
            RawStream::File { path } => RawStream::File { path: path@ },
            RawStream::Fifo { path, lossy } => RawStream::Fifo { path: path@, lossy: *lossy },
            RawStream::Stdin { lossy } => RawStream::Stdin { lossy: *lossy },
        }
    }
}

/// The resolved source of a raw-stream service, as a banner names it in its unsafe warning.
#[derive(Debug, Clone, PartialEq, Eq)]
pub enum RawSource {
    /// A `file:`/`fifo:` source, by its path.
    Path(String),
    /// A `stdin:` source: no path, so what is at risk is this process's own piped input.
    Stdin,
}

/// The path a raw stream reads, if it reads one.
pub open spec fn source_path(stream: RawStream<Seq<char>>) -> Option<Seq<char>> {
    match stream {
        RawStream::File { path } => Some(path),
        RawStream::Fifo { path, .. } => Some(path),
        RawStream::Stdin { .. } => None,
    }
}

impl RawStream<String> {
    /// A `file:` source. A source with no path is a typo, refused here.
    pub fn file(path: &str, entry: &str) -> (source: Result<Self, RouteError<String>>)
        ensures
            match source {
                Ok(stream) => path@.len() > 0 && stream@ == (RawStream::File { path: path@ }),
                Err(error) => path@.len() == 0 && error@ == (RouteError::NoPath {
                    scheme: "file:"@,
                    entry: entry@,
                }),
            },
    {
        if path.is_empty() {
            return Err(
                RouteError::NoPath { scheme: "file:".to_owned(), entry: entry.to_owned() },
            );
        }
        Ok(RawStream::File { path: path.to_owned() })
    }

    /// A `fifo:` source. A source with no path is a typo, refused here.
    pub fn fifo(path: &str, entry: &str, lossy: bool) -> (source: Result<Self, RouteError<String>>)
        ensures
            match source {
                Ok(stream) => path@.len() > 0 && stream@ == (RawStream::Fifo {
                    path: path@,
                    lossy,
                }),
                Err(error) => path@.len() == 0 && error@ == (RouteError::NoPath {
                    scheme: "fifo:"@,
                    entry: entry@,
                }),
            },
    {
        if path.is_empty() {
            return Err(
                RouteError::NoPath { scheme: "fifo:".to_owned(), entry: entry.to_owned() },
            );
        }
        Ok(RawStream::Fifo { path: path.to_owned(), lossy })
    }

    /// A `stdin:` source, refused where standard input is a terminal: there is no stream to serve,
    /// only the operator's keyboard.
    pub fn stdin(lossy: bool, terminal: bool) -> (source: Result<Self, RouteError<String>>)
        ensures
            match source {
                Ok(stream) => !terminal && stream@ == (RawStream::<Seq<char>>::Stdin { lossy }),
                Err(error) => terminal && error@ == RouteError::<Seq<char>>::TerminalStdin,
            },
    {
        if terminal {
            return Err(RouteError::TerminalStdin);
        }
        Ok(RawStream::Stdin { lossy })
    }

    /// The source a banner names, with its path as the operator typed it.
    pub fn raw_source(&self) -> (source: RawSource)
        ensures
            match source {
                RawSource::Path(path) => source_path(self@) == Some(path@),
                RawSource::Stdin => source_path(self@) is None,
            },
    {
        match self {
            RawStream::File { path } => RawSource::Path(path.clone()),
            RawStream::Fifo { path, .. } => RawSource::Path(path.clone()),
            RawStream::Stdin { .. } => RawSource::Stdin,
        }
    }
}

/// Which handler a handler route runs.
#[derive(Debug, Clone, PartialEq, Eq)]
pub enum Serves<Text> {
    /// The value its author bound under this name.
    Bound,
    /// The built-in loopback reflector.
    Echo,
    /// The built-in local forward.
    Forward {
        /// The address it connects.
        addr: Text,
    },
}

impl View for Serves<String> {
    type V = Serves<Seq<char>>;

    open spec fn view(&self) -> Serves<Seq<char>> {
        match self {
            Serves::Bound => Serves::Bound,
            Serves::Echo => Serves::Echo,
            Serves::Forward { addr } => Serves::Forward { addr: addr@ },
        }
    }
}

/// A forwarding target for one exposed service: a handler, or a raw byte source. A raw stream stays
/// an arm of its own because it opens only through its own, louder overlay.
#[derive(Debug, Clone, PartialEq, Eq)]
pub enum Target<Text> {
    /// A service handler: what it answers, and which handler it is.
    Handler(BoundHandler, Serves<Text>),
    /// A raw byte source.
    RawStream(RawStream<Text>),
}

impl View for Target<String> {
    type V = Target<Seq<char>>;

    open spec fn view(&self) -> Target<Seq<char>> {
        match self {
            Target::Handler(bound, serves) => Target::Handler(*bound, serves@),
            Target::RawStream(stream) => Target::RawStream(stream@),
        }
    }
}

/// What kind of thing a served service forwards to.
#[derive(Debug, Clone, Copy, PartialEq, Eq, Structural)]
pub enum TargetKind {
    /// A bound handler: a service the caller wrote, or a built-in.
    Handler,
    /// A raw-stream source, so an open one is the loudest reach posture a banner can show.
    RawStream,
}

impl<Text> Target<Text> {
    /// Whether this target may be opened to strangers through the safe overlay: a handler as its
    /// marker says, a raw stream never.
    pub open spec fn openable(self) -> bool {
        match self {
            Target::Handler(bound, _) => bound.ceiling.open_safe,
            Target::RawStream(_) => false,
        }
    }

    /// Whether this target may be opened to strangers through the safe overlay.
    pub fn open_safe(&self) -> (safe: bool)
        ensures
            safe == self.openable(),
    {
        match self {
            Target::Handler(bound, _) => bound.ceiling.open_safe,
            Target::RawStream(_) => false,
        }
    }

    /// Which kind of target this is.
    pub fn kind(&self) -> (kind: TargetKind)
        ensures
            kind == if self is Handler {
                TargetKind::Handler
            } else {
                TargetKind::RawStream
            },
    {
        match self {
            Target::Handler(..) => TargetKind::Handler,
            Target::RawStream(_) => TargetKind::RawStream,
        }
    }
}

/// The target of the built-in reflector.
pub open spec fn echo_target() -> Target<Seq<char>> {
    Target::Handler(
        BoundHandler { ceiling: marker_ceiling::<OptIn>(), metering: Metering::Metered },
        Serves::Echo,
    )
}

/// The target of the built-in forward to `addr`.
pub open spec fn forward_target(addr: Seq<char>) -> Target<Seq<char>> {
    Target::Handler(
        BoundHandler { ceiling: marker_ceiling::<OptIn>(), metering: Metering::Unmetered },
        Serves::Forward { addr },
    )
}

/// Make the target of the built-in reflector.
pub(crate) fn make_echo() -> (target: Target<String>)
    ensures
        target@ == echo_target(),
{
    Target::Handler(Echo.freeze(), Serves::Echo)
}

/// Make the target of the built-in forward to `addr`.
pub(crate) fn make_forward(addr: &str) -> (target: Target<String>)
    ensures
        target@ == forward_target(addr@),
{
    let forward = Forward { addr: addr.to_owned() };
    Target::Handler(forward.freeze(), Serves::Forward { addr: forward.addr })
}

/// Why a route was not bound.
#[derive(Debug, Clone, PartialEq, Eq)]
pub enum RouteError<Text> {
    /// A serve entry is not `name=target`.
    NoName {
        /// The entry.
        entry: Text,
    },
    /// A serve entry's name is not a service name.
    BadName {
        /// The name.
        name: Text,
    },
    /// The name is already bound.
    Duplicate {
        /// The name.
        name: Text,
    },
    /// `+lossy` on something that is not a live single-writer source.
    NotLossy {
        /// What it was put on.
        scheme: Text,
        /// The entry.
        entry: Text,
    },
    /// A bare handler scheme: handlers are bound by value.
    HandlerScheme {
        /// The entry.
        entry: Text,
        /// The address, colon included.
        addr: Text,
        /// The scheme, without the colon.
        scheme: Text,
    },
    /// A scheme outside the closed set.
    UnknownScheme {
        /// The entry.
        entry: Text,
        /// The scheme, without the colon.
        scheme: Text,
    },
    /// Not a forwarding address.
    BadForward {
        /// The address.
        addr: Text,
    },
    /// A path source with no path.
    NoPath {
        /// The scheme.
        scheme: Text,
        /// The entry.
        entry: Text,
    },
    /// A `stdin:` source where standard input is a terminal.
    TerminalStdin,
    /// A handler that accepts no rooted witness, bound on a route that mints no other.
    ProvenOnlyHandler {
        /// The name.
        name: Text,
    },
    /// A handler that accepts no proven witness, bound on a proven-only route.
    NotProvenHandler {
        /// The name.
        name: Text,
    },
    /// A floor declared for a name the node does not serve.
    NotServed {
        /// The name.
        name: Text,
        /// What the node serves, in name order.
        served: Text,
    },
}

impl View for RouteError<String> {
    type V = RouteError<Seq<char>>;

    open spec fn view(&self) -> RouteError<Seq<char>> {
        match self {
            RouteError::NoName { entry } => RouteError::NoName { entry: entry@ },
            RouteError::BadName { name } => RouteError::BadName { name: name@ },
            RouteError::Duplicate { name } => RouteError::Duplicate { name: name@ },
            RouteError::NotLossy { scheme, entry } => RouteError::NotLossy {
                scheme: scheme@,
                entry: entry@,
            },
            RouteError::HandlerScheme { entry, addr, scheme } => RouteError::HandlerScheme {
                entry: entry@,
                addr: addr@,
                scheme: scheme@,
            },
            RouteError::UnknownScheme { entry, scheme } => RouteError::UnknownScheme {
                entry: entry@,
                scheme: scheme@,
            },
            RouteError::BadForward { addr } => RouteError::BadForward { addr: addr@ },
            RouteError::NoPath { scheme, entry } => RouteError::NoPath {
                scheme: scheme@,
                entry: entry@,
            },
            RouteError::TerminalStdin => RouteError::TerminalStdin,
            RouteError::ProvenOnlyHandler { name } => RouteError::ProvenOnlyHandler {
                name: name@,
            },
            RouteError::NotProvenHandler { name } => RouteError::NotProvenHandler { name: name@ },
            RouteError::NotServed { name, served } => RouteError::NotServed {
                name: name@,
                served: served@,
            },
        }
    }
}

impl RouteError<Seq<char>> {
    /// The sentence an operator reads.
    pub open spec fn text(self) -> Seq<char> {
        match self {
            RouteError::NoName { entry } => {
                "`"@ + entry
                    + "` names no service. Every serve entry must be `name=target`, e.g. `web=127.0.0.1:8080`, `logs=file:/var/log/app.log`"@
            },
            RouteError::BadName { name } => "`"@ + name + "` is not a service name"@,
            RouteError::Duplicate { name } => {
                "service `"@ + name + "` is already defined; a name may map to only one target"@
            },
            RouteError::NotLossy { scheme, entry } => {
                "`+lossy` (raw-stream fan-out) is only valid on a `stdin:`/`fifo:` source, not `"@
                    + scheme + "` (`"@ + entry
                    + "`); drop it, or point the service at a live single-writer source"@
            },
            RouteError::HandlerScheme { entry, addr, scheme } => {
                "`"@ + entry + "` names a handler scheme (`"@ + addr
                    + "`), which is no longer spellable: handlers are bound by value, e.g. `.service(\""@
                    + scheme
                    + "\".parse()?, MyHandler)`. use `--` or a bound service; the schemes are `tcp:`, `unix:`, `file:`, `fifo:`, `stdin:` and `echo:`"@
            },
            RouteError::UnknownScheme { entry, scheme } => {
                "`"@ + entry + "` names an unknown scheme `"@ + scheme
                    + ":`; the schemes are `tcp:`, `unix:`, `file:`, `fifo:`, `stdin:` and `echo:`"@
            },
            RouteError::BadForward { addr } => {
                "`"@ + addr
                    + "` is not a valid forwarding address (host:port, unix:<path>, file:<path>, fifo:<path>, or the built-in `echo:`)"@
            },
            RouteError::NoPath { scheme, entry } => {
                "`"@ + entry + "` gives `"@ + scheme + "` no path"@
            },
            RouteError::TerminalStdin => {
                "`stdin:` would serve a terminal; pipe the bytes to serve into this process"@
            },
            RouteError::ProvenOnlyHandler { name } => {
                "`"@ + name
                    + "` is a proven-only handler, so a gated route could never serve it: bind it as a proven-only route"@
            },
            RouteError::NotProvenHandler { name } => {
                "`"@ + name
                    + "` is not a proven-only handler, so a proven-only route could never serve it: bind it as a service"@
            },
            RouteError::NotServed { name, served } => {
                "no service named `"@ + name + "` to mark member-only; this node serves: "@ + served
            },
        }
    }
}

impl RouteError<String> {
    /// The sentence an operator reads.
    pub fn message(&self) -> (message: String)
        ensures
            message@ == self@.text(),
    {
        match self {
            RouteError::NoName { entry } => {
                String::from_str("`").concat(entry.as_str()).concat(
                    "` names no service. Every serve entry must be `name=target`, e.g. `web=127.0.0.1:8080`, `logs=file:/var/log/app.log`",
                )
            },
            RouteError::BadName { name } => {
                String::from_str("`").concat(name.as_str()).concat("` is not a service name")
            },
            RouteError::Duplicate { name } => {
                String::from_str("service `").concat(name.as_str()).concat(
                    "` is already defined; a name may map to only one target",
                )
            },
            RouteError::NotLossy { scheme, entry } => {
                String::from_str(
                    "`+lossy` (raw-stream fan-out) is only valid on a `stdin:`/`fifo:` source, not `",
                ).concat(scheme.as_str()).concat("` (`").concat(entry.as_str()).concat(
                    "`); drop it, or point the service at a live single-writer source",
                )
            },
            RouteError::HandlerScheme { entry, addr, scheme } => {
                String::from_str("`").concat(entry.as_str()).concat(
                    "` names a handler scheme (`",
                ).concat(addr.as_str()).concat(
                    "`), which is no longer spellable: handlers are bound by value, e.g. `.service(\"",
                ).concat(scheme.as_str()).concat(
                    "\".parse()?, MyHandler)`. use `--` or a bound service; the schemes are `tcp:`, `unix:`, `file:`, `fifo:`, `stdin:` and `echo:`",
                )
            },
            RouteError::UnknownScheme { entry, scheme } => {
                String::from_str("`").concat(entry.as_str()).concat(
                    "` names an unknown scheme `",
                ).concat(scheme.as_str()).concat(
                    ":`; the schemes are `tcp:`, `unix:`, `file:`, `fifo:`, `stdin:` and `echo:`",
                )
            },
            RouteError::BadForward { addr } => {
                String::from_str("`").concat(addr.as_str()).concat(
                    "` is not a valid forwarding address (host:port, unix:<path>, file:<path>, fifo:<path>, or the built-in `echo:`)",
                )
            },
            RouteError::NoPath { scheme, entry } => {
                String::from_str("`").concat(entry.as_str()).concat("` gives `").concat(
                    scheme.as_str(),
                ).concat("` no path")
            },
            RouteError::TerminalStdin => {
                String::from_str(
                    "`stdin:` would serve a terminal; pipe the bytes to serve into this process",
                )
            },
            RouteError::ProvenOnlyHandler { name } => {
                String::from_str("`").concat(name.as_str()).concat(
                    "` is a proven-only handler, so a gated route could never serve it: bind it as a proven-only route",
                )
            },
            RouteError::NotProvenHandler { name } => {
                String::from_str("`").concat(name.as_str()).concat(
                    "` is not a proven-only handler, so a proven-only route could never serve it: bind it as a service",
                )
            },
            RouteError::NotServed { name, served } => {
                String::from_str("no service named `").concat(name.as_str()).concat(
                    "` to mark member-only; this node serves: ",
                ).concat(served.as_str())
            },
        }
    }
}

/// Whether a text is a `host:port`: a non-empty host, then after the last colon a port.
pub open spec fn is_host_port(addr: Seq<char>) -> bool {
    split_last(addr, ':') matches Some((host, port)) && host.len() > 0 && is_port(port)
}

/// Whether a text is an address the built-in forward takes.
pub open spec fn is_forward(addr: Seq<char>) -> bool {
    "unix:"@.is_prefix_of(addr) || is_host_port(addr)
}

/// Reject a forward address that is not a real target, so a typo fails at the bind with a teaching
/// message rather than at dial time.
pub fn validate_forward(addr: &str) -> (valid: Result<(), RouteError<String>>)
    ensures
        match valid {
            Ok(()) => is_forward(addr@),
            Err(error) => !is_forward(addr@) && error@ == (RouteError::BadForward {
                addr: addr@,
            }),
        },
{
    let is_host_port: bool = match split_at_last(addr, ':') {
        Some((host, port)) => !host.is_empty() && reads_as_port(port),
        None => false,
    };
    if after_prefix(addr, "unix:").is_some() || is_host_port {
        return Ok(());
    }
    Err(RouteError::BadForward { addr: addr.to_owned() })
}

/// A character a handler scheme is written in.
pub open spec fn is_scheme_char(c: char) -> bool {
    is_letter(c) || is_digit(c) || c == '-' || c == '.'
}

/// Whether a text is written as a scheme is.
pub open spec fn is_scheme_word(word: Seq<char>) -> bool {
    &&& word.len() > 0
    &&& forall|i: int| 0 <= i < word.len() ==> is_scheme_char(#[trigger] word[i])
}

/// Whether a text is a bare `<scheme>:`.
pub open spec fn is_bare_scheme(addr: Seq<char>) -> bool {
    addr.len() > 0 && addr.last() == ':' && is_scheme_word(addr.drop_last())
}

/// The closed set of schemes.
pub open spec fn is_legal_scheme(word: Seq<char>) -> bool {
    ||| word == "tcp"@
    ||| word == "unix"@
    ||| word == "file"@
    ||| word == "fifo"@
    ||| word == "stdin"@
    ||| word == "echo"@
}

/// The scheme of an address that carries one outside the closed set: `<word>:<rest>`, where what
/// follows the word holds a colon of its own and so is no port. A `host:port` carries no scheme,
/// nor does a bracketed host.
pub open spec fn unknown_scheme(addr: Seq<char>) -> Option<Seq<char>> {
    match split_first(addr, ':') {
        Some((word, rest)) => if is_scheme_word(word) && rest.contains(':') && !is_legal_scheme(
            word,
        ) {
            Some(word)
        } else {
            None
        },
        None => None,
    }
}

/// Whether a text is written as a scheme is.
fn reads_as_scheme_word(word: &str) -> (reads: bool)
    ensures
        reads == is_scheme_word(word@),
{
    let chars: Vec<char> = chars_of(word);
    if chars.len() == 0 {
        return false;
    }
    let mut i: usize = 0;
    while i < chars.len()
        invariant
            i <= chars.len(),
            chars@ == word@,
            forall|j: int| 0 <= j < i ==> is_scheme_char(#[trigger] word@[j]),
        decreases chars.len() - i,
    {
        let c: char = chars[i];
        let code: u32 = c as u32;
        proof {
            vstd::utf8::char_u32_cast(c, code);
        }
        let letter: bool = (code >= 97 && code <= 122) || (code >= 65 && code <= 90);
        let digit: bool = code >= 48 && code <= 57;
        if !letter && !digit && c != '-' && c != '.' {
            assert(!is_scheme_char(word@[i as int]));
            return false;
        }
        i = i + 1;
    }
    true
}

/// The scheme of a bare `<scheme>:`, without its colon.
fn bare_scheme(addr: &str) -> (scheme: Option<&str>)
    ensures
        match scheme {
            Some(scheme) => is_bare_scheme(addr@) && scheme@ == addr@.drop_last(),
            None => !is_bare_scheme(addr@),
        },
{
    let len: usize = addr.unicode_len();
    if len == 0 || addr.get_char(len - 1) != ':' {
        return None;
    }
    let scheme: &str = addr.substring_char(0, len - 1);
    assert(scheme@ =~= addr@.drop_last());
    if reads_as_scheme_word(scheme) {
        Some(scheme)
    } else {
        None
    }
}

/// Whether a scheme is in the closed set.
fn reads_as_legal_scheme(word: &str) -> (legal: bool)
    ensures
        legal == is_legal_scheme(word@),
{
    same(word, "tcp") || same(word, "unix") || same(word, "file") || same(word, "fifo") || same(
        word,
        "stdin",
    ) || same(word, "echo")
}

/// The scheme of an address that carries one outside the closed set.
fn find_unknown_scheme(addr: &str) -> (scheme: Option<&str>)
    ensures
        match scheme {
            Some(scheme) => unknown_scheme(addr@) == Some(scheme@),
            None => unknown_scheme(addr@) is None,
        },
{
    match split_at_first(addr, ':') {
        None => None,
        Some((word, rest)) => {
            let more: bool = split_at_first(rest, ':').is_some();
            proof {
                lemma_splits_where_held(rest@, ':');
            }
            if reads_as_scheme_word(word) && more && !reads_as_legal_scheme(word) {
                Some(word)
            } else {
                None
            }
        },
    }
}

/// The address without its `+lossy` marker, if it carries one.
pub open spec fn lossless(addr: Seq<char>) -> Seq<char> {
    if "+lossy"@.is_suffix_of(addr) {
        addr.take(addr.len() - "+lossy"@.len())
    } else {
        addr
    }
}

/// What an exposed service's address resolves to. `terminal` says whether this process's standard
/// input is a terminal.
pub open spec fn target_of(addr: Seq<char>, entry: Seq<char>, terminal: bool) -> Result<
    Target<Seq<char>>,
    RouteError<Seq<char>>,
> {
    let lossy = "+lossy"@.is_suffix_of(addr);
    let base = lossless(addr);
    if base == "stdin:"@ {
        if terminal {
            Err(RouteError::TerminalStdin)
        } else {
            Ok(Target::RawStream(RawStream::Stdin { lossy }))
        }
    } else if base == "echo:"@ {
        if lossy {
            Err(RouteError::NotLossy { scheme: "echo:"@, entry })
        } else {
            Ok(echo_target())
        }
    } else if "file:"@.is_prefix_of(base) {
        let path = base.skip("file:"@.len() as int);
        if lossy {
            Err(RouteError::NotLossy { scheme: "file:"@, entry })
        } else if path.len() == 0 {
            Err(RouteError::NoPath { scheme: "file:"@, entry })
        } else {
            Ok(Target::RawStream(RawStream::File { path }))
        }
    } else if "fifo:"@.is_prefix_of(base) {
        let path = base.skip("fifo:"@.len() as int);
        if path.len() == 0 {
            Err(RouteError::NoPath { scheme: "fifo:"@, entry })
        } else {
            Ok(Target::RawStream(RawStream::Fifo { path, lossy }))
        }
    } else if lossy {
        Err(RouteError::NotLossy { scheme: base, entry })
    } else if is_bare_scheme(base) {
        Err(RouteError::HandlerScheme { entry, addr: base, scheme: base.drop_last() })
    } else if unknown_scheme(base) is Some {
        Err(RouteError::UnknownScheme { entry, scheme: unknown_scheme(base)->0 })
    } else if is_forward(base) {
        Ok(forward_target(base))
    } else {
        Err(RouteError::BadForward { addr: base })
    }
}

/// Resolve an exposed service's address to a target: `file:<path>`, `fifo:<path>` and `stdin:` are
/// raw streams, `echo:` the built-in reflector, a bare scheme a teaching error, a scheme outside the
/// closed set an error that names the set, and anything else must be a socket forward.
pub fn parse_target(addr: &str, entry: &str, terminal: bool) -> (target: Result<
    Target<String>,
    RouteError<String>,
>)
    ensures
        match target {
            Ok(target) => target_of(addr@, entry@, terminal) == Ok::<_, RouteError<Seq<char>>>(
                target@,
            ),
            Err(error) => target_of(addr@, entry@, terminal) == Err::<Target<Seq<char>>, _>(error@),
        },
{
    let (base, lossy): (&str, bool) = match before_suffix(addr, "+lossy") {
        Some(base) => (base, true),
        None => (addr, false),
    };
    assert(base@ == lossless(addr@));
    if same(base, "stdin:") {
        return match RawStream::stdin(lossy, terminal) {
            Ok(stream) => Ok(Target::RawStream(stream)),
            Err(error) => Err(error),
        };
    }
    if same(base, "echo:") {
        if lossy {
            return Err(
                RouteError::NotLossy { scheme: "echo:".to_owned(), entry: entry.to_owned() },
            );
        }
        return Ok(make_echo());
    }
    if let Some(path) = after_prefix(base, "file:") {
        if lossy {
            return Err(
                RouteError::NotLossy { scheme: "file:".to_owned(), entry: entry.to_owned() },
            );
        }
        return match RawStream::file(path, entry) {
            Ok(stream) => Ok(Target::RawStream(stream)),
            Err(error) => Err(error),
        };
    }
    if let Some(path) = after_prefix(base, "fifo:") {
        return match RawStream::fifo(path, entry, lossy) {
            Ok(stream) => Ok(Target::RawStream(stream)),
            Err(error) => Err(error),
        };
    }
    if lossy {
        return Err(RouteError::NotLossy { scheme: base.to_owned(), entry: entry.to_owned() });
    }
    if let Some(scheme) = bare_scheme(base) {
        return Err(
            RouteError::HandlerScheme {
                entry: entry.to_owned(),
                addr: base.to_owned(),
                scheme: scheme.to_owned(),
            },
        );
    }
    if let Some(scheme) = find_unknown_scheme(base) {
        return Err(
            RouteError::UnknownScheme { entry: entry.to_owned(), scheme: scheme.to_owned() },
        );
    }
    match validate_forward(base) {
        Ok(()) => Ok(make_forward(base)),
        Err(error) => Err(error),
    }
}

/// An address whose first colon ends a scheme word starts with no other scheme.
proof fn lemma_scheme_starts(word: Seq<char>, rest: Seq<char>, scheme: Seq<char>)
    requires
        is_scheme_word(word),
        is_scheme_word(scheme),
        scheme.push(':').is_prefix_of(word + seq![':'] + rest),
    ensures
        word == scheme,
{
    let addr = word + seq![':'] + rest;
    let n = word.len() as int;
    let m = scheme.len() as int;
    assert(addr[n] == ':');
    assert(addr[m] == scheme.push(':')[m]);
    if m < n {
        assert(is_scheme_char(word[m]));
    } else if n < m {
        assert(is_scheme_char(scheme[n]));
        assert(addr[n] == scheme.push(':')[n]);
    } else {
        assert forall|i: int| 0 <= i < n implies word[i] == scheme[i] by {
            assert(addr[i] == scheme.push(':')[i]);
        }
        assert(word =~= scheme);
    }
}

/// The set of schemes is closed: an address that carries any other scheme binds nothing, whatever
/// follows it, and the error names the set. What follows must hold a colon of its own: `<word>:<n>`
/// is a host and its port.
pub proof fn the_set_of_schemes_is_closed(
    word: Seq<char>,
    rest: Seq<char>,
    entry: Seq<char>,
    terminal: bool,
)
    requires
        is_scheme_word(word),
        !is_legal_scheme(word),
        rest.contains(':'),
    ensures
        ({
            let addr = word + seq![':'] + rest;
            let bound = target_of(addr, entry, terminal);
            &&& bound is Err
            &&& !"+lossy"@.is_suffix_of(addr) ==> bound == Err::<Target<Seq<char>>, _>(
                RouteError::UnknownScheme { entry, scheme: word },
            )
        }),
{
    let addr = word + seq![':'] + rest;
    let base = lossless(addr);
    reveal_strlit("stdin:");
    reveal_strlit("echo:");
    reveal_strlit("file:");
    reveal_strlit("fifo:");
    reveal_strlit("stdin");
    reveal_strlit("echo");
    reveal_strlit("file");
    reveal_strlit("fifo");
    assert("stdin:"@ =~= "stdin"@.push(':'));
    assert("echo:"@ =~= "echo"@.push(':'));
    assert("file:"@ =~= "file"@.push(':'));
    assert("fifo:"@ =~= "fifo"@.push(':'));
    assert(base.is_prefix_of(addr));
    if base == "stdin:"@ {
        lemma_scheme_starts(word, rest, "stdin"@);
    }
    if base == "echo:"@ {
        lemma_scheme_starts(word, rest, "echo"@);
    }
    if "file:"@.is_prefix_of(base) {
        assert("file:"@.is_prefix_of(addr));
        lemma_scheme_starts(word, rest, "file"@);
    }
    if "fifo:"@.is_prefix_of(base) {
        assert("fifo:"@.is_prefix_of(addr));
        lemma_scheme_starts(word, rest, "fifo"@);
    }
    assert forall|j: int| 0 <= j < word.len() implies addr[j] != ':' by {
        assert(is_scheme_char(word[j]));
    }
    lemma_split_first(addr, ':', word.len() as int);
    assert(addr.take(word.len() as int) =~= word);
    assert(addr.skip(word.len() as int + 1) =~= rest);
    if is_bare_scheme(addr) {
        let i = choose|i: int| 0 <= i < rest.len() && rest[i] == ':';
        assert(addr.drop_last()[word.len() as int] == ':');
    }
}

/// Whether a target is a handler that any dialer may be let in to: strangers where an operator opens
/// it, token holders where none does, and never a key that presents no token.
pub open spec fn serves_strangers_and_holders(target: Target<Seq<char>>) -> bool {
    target matches Target::Handler(bound, _) && {
        &&& bound.ceiling.open_safe
        &&& bound.ceiling.accepts_rooted
        &&& bound.ceiling.accepts_open
        &&& !bound.ceiling.accepts_proven
    }
}

/// An address that starts with none of the schemes that name no forward, and carries no marker.
proof fn lemma_forward(addr: Seq<char>, entry: Seq<char>, terminal: bool)
    requires
        !"+lossy"@.is_suffix_of(addr),
        addr != "stdin:"@ && addr != "echo:"@,
        !"file:"@.is_prefix_of(addr) && !"fifo:"@.is_prefix_of(addr),
        !is_bare_scheme(addr),
        unknown_scheme(addr) is None,
        is_forward(addr),
    ensures
        target_of(addr, entry, terminal) == Ok::<_, RouteError<Seq<char>>>(
            Target::Handler(
                BoundHandler { ceiling: marker_ceiling::<OptIn>(), metering: Metering::Unmetered },
                Serves::Forward { addr },
            ),
        ),
{
}

/// A `unix:` path is a forward to that path, whatever the path is.
pub proof fn lemma_unix(path: Seq<char>, entry: Seq<char>, terminal: bool)
    requires
        path.len() > 0,
        !"+lossy"@.is_suffix_of("unix:"@ + path),
    ensures
        target_of("unix:"@ + path, entry, terminal) == Ok::<_, RouteError<Seq<char>>>(
            Target::Handler(
                BoundHandler { ceiling: marker_ceiling::<OptIn>(), metering: Metering::Unmetered },
                Serves::Forward { addr: "unix:"@ + path },
            ),
        ),
{
    let addr = "unix:"@ + path;
    reveal_strlit("unix:");
    reveal_strlit("unix");
    reveal_strlit("stdin:");
    reveal_strlit("echo:");
    reveal_strlit("file:");
    reveal_strlit("fifo:");
    assert(addr[0] == 'u');
    assert("stdin:"@[0] == 's' && "echo:"@[0] == 'e');
    assert("file:"@[0] == 'f' && "fifo:"@[0] == 'f');
    assert(addr[4] == ':');
    if is_bare_scheme(addr) {
        assert(is_scheme_char(addr.drop_last()[4]));
    }
    assert("unix:"@.is_prefix_of(addr));
    let word = addr.take(4);
    assert(word =~= "unix"@);
    lemma_split_first(addr, ':', 4);
}

/// Whether a text is written in decimal digits alone.
pub open spec fn all_digits(text: Seq<char>) -> bool {
    forall|i: int| 0 <= i < text.len() ==> '0' <= #[trigger] text[i] <= '9'
}

/// Whether a host holds, before any colon, a character no scheme is written in, as a bracketed one
/// does.
pub open spec fn no_scheme_starts(host: Seq<char>) -> bool {
    exists|k: int|
        {
            &&& 0 <= k < host.len()
            &&& !('a' <= #[trigger] host[k] <= 'z' || 'A' <= host[k] <= 'Z' || '0' <= host[k]
                <= '9' || host[k] == '-' || host[k] == '.' || host[k] == ':')
            &&& forall|j: int| 0 <= j < k ==> host[j] != ':'
        }
}

/// A host and its port are a forward to them. The host is a plain one, one that starts with no
/// scheme, or one behind `tcp:`.
pub proof fn lemma_host_port(host: Seq<char>, port: Seq<char>, entry: Seq<char>, terminal: bool)
    requires
        host.len() > 0,
        port.len() > 0,
        all_digits(port),
        digits_value(port) < 65536,
        host != "file"@ && host != "fifo"@,
        !host.contains(':') || no_scheme_starts(host) || "tcp:"@.is_prefix_of(host),
    ensures
        target_of(host + seq![':'] + port, entry, terminal) == Ok::<_, RouteError<Seq<char>>>(
            Target::Handler(
                BoundHandler { ceiling: marker_ceiling::<OptIn>(), metering: Metering::Unmetered },
                Serves::Forward { addr: host + seq![':'] + port },
            ),
        ),
{
    let addr = host + seq![':'] + port;
    let n = host.len() as int;
    reveal_strlit("tcp:");
    reveal_strlit("tcp");
    reveal_strlit("stdin:");
    reveal_strlit("echo:");
    reveal_strlit("file:");
    reveal_strlit("fifo:");
    reveal_strlit("file");
    reveal_strlit("fifo");
    reveal_strlit("+lossy");
    assert(addr.last() == port.last());
    assert('0' <= port[port.len() - 1] <= '9');
    assert("+lossy"@.last() == 'y' && "stdin:"@.last() == ':' && "echo:"@.last() == ':');
    if "+lossy"@.is_suffix_of(addr) {
        assert(addr.last() == "+lossy"@.last());
    }
    if port.contains(':') {
        let i = choose|i: int| 0 <= i < port.len() && port[i] == ':';
        assert('0' <= port[i] <= '9');
    }
    lemma_joined_splits_last(host, ':', port);
    assert(unsigned(port) == port) by {
        assert('0' <= port[0] <= '9');
    }
    assert forall|i: int| 0 <= i < port.len() implies is_digit(#[trigger] port[i]) by {
        assert('0' <= port[i] <= '9');
    }
    assert(is_port(port));
    assert(is_forward(addr));
    if host.contains(':') && no_scheme_starts(host) {
        let k = choose|k: int|
            {
                &&& 0 <= k < host.len()
                &&& !('a' <= #[trigger] host[k] <= 'z' || 'A' <= host[k] <= 'Z' || '0' <= host[k]
                    <= '9' || host[k] == '-' || host[k] == '.' || host[k] == ':')
                &&& forall|j: int| 0 <= j < k ==> host[j] != ':'
            };
        assert(!is_scheme_char(host[k]));
        assert(addr[k] == host[k]);
        assert forall|j: int| 0 <= j <= k implies addr[j] != ':' by {
            assert(addr[j] == host[j]);
        }
        lemma_split_first_parts(addr, ':');
        if let Some((word, rest)) = split_first(addr, ':') {
            assert(addr[word.len() as int] == ':');
            assert(word.len() > k);
            assert(word[k] == addr[k]);
        }
        lemma_no_scheme_prefix(addr, k, "file"@);
        lemma_no_scheme_prefix(addr, k, "fifo"@);
        assert("file:"@ =~= "file"@.push(':'));
        assert("fifo:"@ =~= "fifo"@.push(':'));
    } else if host.contains(':') {
        lemma_starts_alike("tcp:"@, host, 0);
        lemma_starts_alike("tcp:"@, host, 1);
        lemma_starts_alike("tcp:"@, host, 2);
        lemma_starts_alike("tcp:"@, host, 3);
        assert(addr[0] == 't' && addr[1] == 'c' && addr[2] == 'p' && addr[3] == ':');
        assert("file:"@[0] == 'f' && "fifo:"@[0] == 'f');
        lemma_split_first(addr, ':', 3);
        assert(addr.take(3) =~= "tcp"@);
    } else {
        lemma_joined_splits_first(host, ':', port);
        if "file:"@.is_prefix_of(addr) {
            lemma_file_host(host, port, "file"@);
        }
        if "fifo:"@.is_prefix_of(addr) {
            lemma_file_host(host, port, "fifo"@);
        }
    }
    lemma_forward(addr, entry, terminal);
}

proof fn lemma_no_scheme_prefix(addr: Seq<char>, k: int, scheme: Seq<char>)
    requires
        0 <= k < addr.len(),
        !is_scheme_char(addr[k]),
        forall|j: int| 0 <= j <= k ==> addr[j] != ':',
        is_scheme_word(scheme),
    ensures
        !scheme.push(':').is_prefix_of(addr),
{
    if scheme.push(':').is_prefix_of(addr) {
        let n = scheme.len() as int;
        lemma_starts_alike(scheme.push(':'), addr, n);
        assert(n > k);
        lemma_starts_alike(scheme.push(':'), addr, k);
        assert(is_scheme_char(scheme[k]));
    }
}

proof fn lemma_starts_alike(prefix: Seq<char>, text: Seq<char>, i: int)
    requires
        prefix.is_prefix_of(text),
        0 <= i < prefix.len(),
    ensures
        prefix[i] == text[i],
{
    assert(prefix[i] == text.subrange(0, prefix.len() as int)[i]);
}

proof fn lemma_file_host(host: Seq<char>, port: Seq<char>, scheme: Seq<char>)
    requires
        !host.contains(':'),
        !scheme.contains(':'),
        scheme.push(':').is_prefix_of(host + seq![':'] + port),
    ensures
        host == scheme,
{
    let addr = host + seq![':'] + port;
    let rest = addr.skip(scheme.len() as int + 1);
    assert forall|i: int| 0 <= i < addr.len() implies addr[i] == (scheme + seq![':'] + rest)[i] by {
        if i <= scheme.len() {
            lemma_starts_alike(scheme.push(':'), addr, i);
        }
    }
    assert(addr =~= scheme + seq![':'] + rest);
    lemma_joined_splits_first(host, ':', port);
    lemma_joined_splits_first(scheme, ':', rest);
}

/// A forward goes exactly where its address says, and nowhere else: the address is kept letter for
/// letter, whatever entry it stands in. A `unix:` path, a host with a port, a bracketed host with a
/// port, as any host no scheme starts, and either of those behind `tcp:` are such addresses.
pub proof fn a_forward_goes_where_its_address_says(
    addr: &str,
    entry: &str,
    terminal: bool,
    bound: Result<Target<String>, RouteError<String>>,
    host: Seq<char>,
    port: Seq<char>,
    path: Seq<char>,
)
    requires
        call_ensures(parse_target, (addr, entry, terminal), bound),
        ({
            ||| {
                &&& addr@ == "unix:"@ + path
                &&& path.len() > 0
                &&& !"+lossy"@.is_suffix_of(addr@)
            }
            ||| {
                &&& addr@ == host + seq![':'] + port
                &&& host.len() > 0 && host != "file"@ && host != "fifo"@
                &&& !host.contains(':') || no_scheme_starts(host) || "tcp:"@.is_prefix_of(host)
                &&& port.len() > 0 && digits_value(port) < 65536
                &&& forall|i: int| 0 <= i < port.len() ==> '0' <= #[trigger] port[i] <= '9'
            }
        }),
    ensures
        bound matches Ok(Target::Handler(handler, Serves::Forward { addr: kept })) && {
            &&& kept@ == addr@
            &&& handler.metering == Metering::Unmetered
        },
        serves_strangers_and_holders(bound->Ok_0@),
{
    if addr@ == "unix:"@ + path && path.len() > 0 && !"+lossy"@.is_suffix_of(addr@) {
        lemma_unix(path, entry@, terminal);
    } else {
        lemma_host_port(host, port, entry@, terminal);
    }
    what_each_marker_answers();
}

/// Whatever is bound as a forward is an address it can connect: it is the address that was given,
/// and that is a `unix:` path or ends in a port behind a host.
pub proof fn a_forward_has_somewhere_to_go(
    addr: &str,
    entry: &str,
    terminal: bool,
    bound: Result<Target<String>, RouteError<String>>,
)
    requires
        call_ensures(parse_target, (addr, entry, terminal), bound),
        bound matches Ok(Target::Handler(_, Serves::Forward { .. })),
    ensures
        bound matches Ok(Target::Handler(_, Serves::Forward { addr: kept })) && kept@ == addr@,
        "unix:"@.is_prefix_of(addr@) || exists|host: Seq<char>, port: Seq<char>|
            {
                &&& addr@ == #[trigger] (host + seq![':'] + port)
                &&& host.len() > 0
                &&& port.len() > 0
                &&& forall|i: int| 0 < i < port.len() ==> '0' <= #[trigger] port[i] <= '9'
                &&& port[0] == '+' || '0' <= port[0] <= '9'
            },
{
    if !"unix:"@.is_prefix_of(addr@) {
        lemma_split_last_parts(addr@, ':');
        let (host, port) = split_last(addr@, ':')->0;
        let digits = unsigned(port);
        assert(is_digit(digits[0]));
        assert forall|i: int| 0 < i < port.len() implies '0' <= #[trigger] port[i] <= '9' by {
            if port[0] == '+' {
                assert(is_digit(digits[i - 1]));
            } else {
                assert(is_digit(digits[i]));
            }
        }
        assert(addr@ == host + seq![':'] + port);
    }
}

/// A `file:` entry serves exactly the file it names: what follows the scheme is the path. A live
/// source's marker is refused on it, and so is a missing path.
pub proof fn a_file_is_served_by_its_path(
    path: Seq<char>,
    addr: &str,
    entry: &str,
    terminal: bool,
    bound: Result<Target<String>, RouteError<String>>,
)
    requires
        call_ensures(parse_target, (addr, entry, terminal), bound),
        addr@ == "file:"@ + path,
    ensures
        path.len() == 0 ==> bound is Err,
        "+lossy"@.is_suffix_of(path) ==> bound is Err,
        path.len() > 0 && !"+lossy"@.is_suffix_of(path) ==> (bound matches Ok(target)
            && target@ == Target::RawStream(RawStream::File { path })),
{
    reveal_strlit("file:");
    reveal_strlit("stdin:");
    reveal_strlit("echo:");
    reveal_strlit("+lossy");
    lemma_marked("file:"@, path);
    assert(addr@[0] == 'f');
    assert("stdin:"@[0] == 's' && "echo:"@[0] == 'e');
    let base = lossless(addr@);
    assert(base[0] == 'f');
    assert("file:"@.is_prefix_of(base));
    assert(base.skip(5) =~= lossless(path));
}

/// A `fifo:` entry serves exactly the pipe it names, to one consumer at a time, and to many where
/// the marker follows the path. The marker is no part of the path.
pub proof fn a_fifo_is_served_by_its_path(
    path: Seq<char>,
    addr: &str,
    marked: &str,
    entry: &str,
    terminal: bool,
    bound: Result<Target<String>, RouteError<String>>,
    lossy: Result<Target<String>, RouteError<String>>,
)
    requires
        call_ensures(parse_target, (addr, entry, terminal), bound),
        call_ensures(parse_target, (marked, entry, terminal), lossy),
        addr@ == "fifo:"@ + path,
        marked@ == "fifo:"@ + path + "+lossy"@,
    ensures
        path.len() == 0 ==> bound is Err && lossy is Err,
        path.len() > 0 ==> (lossy matches Ok(target) && target@ == Target::RawStream(
            RawStream::Fifo { path, lossy: true },
        )),
        path.len() > 0 && !"+lossy"@.is_suffix_of(path) ==> (bound matches Ok(target)
            && target@ == Target::RawStream(RawStream::Fifo { path, lossy: false })),
{
    reveal_strlit("fifo:");
    reveal_strlit("file:");
    reveal_strlit("stdin:");
    reveal_strlit("echo:");
    reveal_strlit("+lossy");
    lemma_marked("fifo:"@, path);
    lemma_marked("fifo:"@, path + "+lossy"@);
    assert("stdin:"@[0] == 's' && "echo:"@[0] == 'e');
    assert(marked@ =~= "fifo:"@ + (path + "+lossy"@));
    let base = lossless(addr@);
    assert("fifo:"@.is_prefix_of(base));
    assert(base[0] == 'f' && base[2] == 'f' && "file:"@[2] == 'l');
    assert(base.skip(5) =~= lossless(path));
    if "file:"@.is_prefix_of(base) {
        lemma_starts_alike("file:"@, base, 2);
    }
    let shared = path + "+lossy"@;
    assert("+lossy"@.is_suffix_of(shared)) by {
        assert(shared.subrange(shared.len() - 6, shared.len() as int) =~= "+lossy"@);
    }
    let whole = lossless(marked@);
    assert(whole =~= "fifo:"@ + path);
    assert("fifo:"@.is_prefix_of(whole));
    assert(whole.skip(5) =~= path);
    assert(whole[0] == 'f' && whole[2] == 'f');
    if "file:"@.is_prefix_of(whole) {
        lemma_starts_alike("file:"@, whole, 2);
    }
    if path.len() == 0 {
        assert(path =~= Seq::empty());
    }
}

/// A marker ends an address exactly where it ends what follows the address's scheme.
proof fn lemma_marked(scheme: Seq<char>, path: Seq<char>)
    requires
        scheme.len() == 5,
        scheme[4] == ':',
    ensures
        "+lossy"@.is_suffix_of(scheme + path) <==> "+lossy"@.is_suffix_of(path),
        lossless(scheme + path) == scheme + lossless(path),
{
    reveal_strlit("+lossy");
    let marker = "+lossy"@;
    let addr = scheme + path;
    if marker.is_suffix_of(path) {
        assert(addr.subrange(addr.len() - 6, addr.len() as int) =~= path.subrange(
            path.len() - 6,
            path.len() as int,
        ));
    }
    if marker.is_suffix_of(addr) {
        if path.len() >= 6 {
            assert(addr.subrange(addr.len() - 6, addr.len() as int) =~= path.subrange(
                path.len() - 6,
                path.len() as int,
            ));
        } else {
            let k = 4 - (addr.len() - 6);
            assert(addr.subrange(addr.len() - 6, addr.len() as int)[k] == addr[4]);
            assert(marker[k] == ':');
            assert(false);
        }
        assert(lossless(addr) =~= scheme + lossless(path));
    }
}

/// Standard input is served where it is a stream: to one consumer, or to many where the marker
/// follows. A terminal is never served.
pub proof fn standard_input_is_served_unless_a_terminal(
    addr: &str,
    marked: &str,
    entry: &str,
    terminal: bool,
    bound: Result<Target<String>, RouteError<String>>,
    lossy: Result<Target<String>, RouteError<String>>,
)
    requires
        call_ensures(parse_target, (addr, entry, terminal), bound),
        call_ensures(parse_target, (marked, entry, terminal), lossy),
        addr@ == "stdin:"@,
        marked@ == "stdin:+lossy"@,
    ensures
        terminal ==> bound matches Err(RouteError::TerminalStdin),
        terminal ==> lossy matches Err(RouteError::TerminalStdin),
        !terminal ==> (bound matches Ok(target) && target@ == Target::<Seq<char>>::RawStream(
            RawStream::Stdin { lossy: false },
        )),
        !terminal ==> (lossy matches Ok(target) && target@ == Target::<Seq<char>>::RawStream(
            RawStream::Stdin { lossy: true },
        )),
{
    reveal_strlit("stdin:");
    reveal_strlit("stdin:+lossy");
    reveal_strlit("+lossy");
    assert(!"+lossy"@.is_suffix_of("stdin:"@)) by {
        assert("stdin:"@.subrange(0, 6)[5] == ':');
    }
    assert("stdin:+lossy"@.subrange(6, 12) =~= "+lossy"@);
    assert("stdin:+lossy"@.take(6) =~= "stdin:"@);
}

/// `echo:` is the built-in reflector, which answers with no more than it gets. It is no live source,
/// so it takes no marker.
pub proof fn the_reflector_is_spelled_echo(
    addr: &str,
    marked: &str,
    entry: &str,
    terminal: bool,
    bound: Result<Target<String>, RouteError<String>>,
    lossy: Result<Target<String>, RouteError<String>>,
)
    requires
        call_ensures(parse_target, (addr, entry, terminal), bound),
        call_ensures(parse_target, (marked, entry, terminal), lossy),
        addr@ == "echo:"@,
        marked@ == "echo:+lossy"@,
    ensures
        bound matches Ok(Target::Handler(handler, Serves::Echo)) && handler.metering
            == Metering::Metered,
        serves_strangers_and_holders(bound->Ok_0@),
        lossy matches Err(RouteError::NotLossy { .. }),
{
    reveal_strlit("echo:");
    reveal_strlit("stdin:");
    reveal_strlit("echo:+lossy");
    reveal_strlit("+lossy");
    assert("echo:+lossy"@.subrange(5, 11) =~= "+lossy"@);
    assert("echo:+lossy"@.take(5) =~= "echo:"@);
    assert("echo:"@[0] == 'e' && "stdin:"@[0] == 's');
    what_each_marker_answers();
}

/// Only a live single-writer source may be shared: the marker is refused on anything that is neither
/// a pipe nor standard input.
pub proof fn only_a_live_source_is_shared(
    addr: &str,
    entry: &str,
    terminal: bool,
    bound: Result<Target<String>, RouteError<String>>,
)
    requires
        call_ensures(parse_target, (addr, entry, terminal), bound),
        "+lossy"@.is_suffix_of(addr@),
    ensures
        bound matches Ok(target) ==> target matches Target::RawStream(stream) && {
            ||| stream is Fifo && "fifo:"@.is_prefix_of(addr@)
            ||| stream is Stdin && "stdin:"@.is_prefix_of(addr@)
        },
        !"fifo:"@.is_prefix_of(addr@) && !"stdin:"@.is_prefix_of(addr@) ==> bound matches Err(
            RouteError::NotLossy { .. },
        ),
{
    reveal_strlit("+lossy");
    reveal_strlit("stdin:");
    reveal_strlit("fifo:");
    let base = lossless(addr@);
    if base == "stdin:"@ {
        assert("stdin:"@ =~= addr@.subrange(0, 6));
    }
    if "fifo:"@.is_prefix_of(base) {
        assert("fifo:"@ =~= addr@.subrange(0, 5)) by {
            assert(base.subrange(0, 5) =~= addr@.subrange(0, 5));
        }
    }
}

/// A bare scheme binds no handler: handlers are bound by value. The error names what was written.
pub proof fn a_bare_scheme_binds_nothing(
    scheme: Seq<char>,
    addr: &str,
    entry: &str,
    terminal: bool,
    bound: Result<Target<String>, RouteError<String>>,
)
    requires
        call_ensures(parse_target, (addr, entry, terminal), bound),
        addr@ == scheme.push(':'),
        scheme.len() > 0,
        forall|i: int|
            0 <= i < scheme.len() ==> ('a' <= #[trigger] scheme[i] <= 'z' || 'A' <= scheme[i]
                <= 'Z' || '0' <= scheme[i] <= '9' || scheme[i] == '-' || scheme[i] == '.'),
        scheme != "stdin"@ && scheme != "echo"@ && scheme != "file"@ && scheme != "fifo"@,
    ensures
        bound matches Err(RouteError::HandlerScheme { entry: told, addr: written, scheme: word }) && {
            &&& told@ == entry@
            &&& written@ == addr@
            &&& word@ == scheme
        },
{
    reveal_strlit("+lossy");
    reveal_strlit("stdin:");
    reveal_strlit("echo:");
    reveal_strlit("file:");
    reveal_strlit("fifo:");
    reveal_strlit("stdin");
    reveal_strlit("echo");
    reveal_strlit("file");
    reveal_strlit("fifo");
    assert("stdin:"@ =~= "stdin"@.push(':'));
    assert("echo:"@ =~= "echo"@.push(':'));
    assert("file:"@ =~= "file"@.push(':'));
    assert("fifo:"@ =~= "fifo"@.push(':'));
    assert(addr@.drop_last() =~= scheme);
    if "+lossy"@.is_suffix_of(addr@) {
        assert(addr@.subrange(addr@.len() - 6, addr@.len() as int)[5] == ':');
    }
    assert forall|i: int| 0 <= i < scheme.len() implies is_scheme_char(#[trigger] scheme[i]) by {}
    assert(addr@ =~= scheme + seq![':'] + Seq::<char>::empty());
    if addr@ == "stdin:"@ {
        assert("stdin:"@.drop_last() =~= "stdin"@);
    }
    if addr@ == "echo:"@ {
        assert("echo:"@.drop_last() =~= "echo"@);
    }
    if "file:"@.is_prefix_of(addr@) {
        lemma_scheme_starts(scheme, Seq::empty(), "file"@);
    }
    if "fifo:"@.is_prefix_of(addr@) {
        lemma_scheme_starts(scheme, Seq::empty(), "fifo"@);
    }
}

/// No scheme but `tcp:`, `unix:`, `file:`, `fifo:`, `stdin:` and `echo:` binds anything: an address
/// with another word before its first colon, and a second colon behind it, is refused, and the error
/// names the word.
pub proof fn no_other_scheme_binds(
    word: Seq<char>,
    rest: Seq<char>,
    addr: &str,
    entry: &str,
    terminal: bool,
    bound: Result<Target<String>, RouteError<String>>,
)
    requires
        call_ensures(parse_target, (addr, entry, terminal), bound),
        addr@ == word + seq![':'] + rest,
        rest.contains(':'),
        word.len() > 0,
        forall|i: int|
            0 <= i < word.len() ==> ('a' <= #[trigger] word[i] <= 'z' || 'A' <= word[i] <= 'Z'
                || '0' <= word[i] <= '9' || word[i] == '-' || word[i] == '.'),
        word != "tcp"@ && word != "unix"@ && word != "file"@ && word != "fifo"@ && word != "stdin"@
            && word != "echo"@,
    ensures
        bound is Err,
        !"+lossy"@.is_suffix_of(addr@) ==> (bound matches Err(error) && error@ == (
        RouteError::UnknownScheme { entry: entry@, scheme: word })),
{
    assert forall|i: int| 0 <= i < word.len() implies is_scheme_char(#[trigger] word[i]) by {}
    the_set_of_schemes_is_closed(word, rest, entry@, terminal);
}

/// A forward's address is checked at the bind: a `unix:` address, or a host with a port, passes, and
/// nothing else does.
pub proof fn a_forward_address_is_checked_at_the_bind(
    addr: &str,
    valid: Result<(), RouteError<String>>,
    host: Seq<char>,
    port: Seq<char>,
    digits: Seq<char>,
)
    requires
        call_ensures(validate_forward, (addr,), valid),
    ensures
        "unix:"@.is_prefix_of(addr@) ==> valid is Ok,
        !"unix:"@.is_prefix_of(addr@) && !addr@.contains(':') ==> valid is Err,
        valid matches Err(error) ==> error@ == (RouteError::BadForward { addr: addr@ }),
        ({
            &&& !"unix:"@.is_prefix_of(addr@)
            &&& addr@ == host + seq![':'] + port
            &&& !port.contains(':')
            &&& port == seq!['+'] + digits || (port == digits && (digits.len() == 0 || digits[0]
                != '+'))
        }) ==> (valid is Ok <==> {
            &&& host.len() > 0
            &&& digits.len() > 0
            &&& forall|i: int| 0 <= i < digits.len() ==> '0' <= #[trigger] digits[i] <= '9'
            &&& digits_value(digits) < 65536
        }),
{
    lemma_split_last_parts(addr@, ':');
    if addr@ == host + seq![':'] + port && !port.contains(':') && (port == seq!['+'] + digits || (
    port == digits && (digits.len() == 0 || digits[0] != '+'))) {
        lemma_joined_splits_last(host, ':', port);
        assert(unsigned(port) =~= digits);
        if is_port(port) {
            assert forall|i: int| 0 <= i < digits.len() implies '0' <= #[trigger] digits[i]
                <= '9' by {
                assert(is_digit(digits[i]));
            }
        }
        if forall|i: int| 0 <= i < digits.len() ==> '0' <= #[trigger] digits[i] <= '9' {
            assert forall|i: int| 0 <= i < digits.len() implies is_digit(
                #[trigger] digits[i],
            ) by {
                assert('0' <= digits[i] <= '9');
            }
        }
    }
    if !addr@.contains(':') {
        if let Some((before, after)) = split_last(addr@, ':') {
            assert(addr@[before.len() as int] == ':');
        }
    }
}

/// What is bound tells how it was spelled: each kind of target comes from its own scheme, and a path
/// is what follows it. No entry binds a handler of the author's own.
pub proof fn a_target_tells_its_scheme(
    addr: &str,
    entry: &str,
    terminal: bool,
    bound: Result<Target<String>, RouteError<String>>,
)
    requires
        call_ensures(parse_target, (addr, entry, terminal), bound),
        bound is Ok,
    ensures
        match bound->Ok_0@ {
            Target::RawStream(RawStream::File { path }) => addr@ == "file:"@ + path && path.len()
                > 0,
            Target::RawStream(RawStream::Fifo { path, lossy }) => path.len() > 0 && (if lossy {
                addr@ == "fifo:"@ + path + "+lossy"@
            } else {
                addr@ == "fifo:"@ + path
            }),
            Target::RawStream(RawStream::Stdin { lossy }) => !terminal && (if lossy {
                addr@ == "stdin:"@ + "+lossy"@
            } else {
                addr@ == "stdin:"@
            }),
            Target::Handler(_, Serves::Echo) => addr@ == "echo:"@,
            Target::Handler(_, Serves::Forward { addr: kept }) => kept == addr@,
            Target::Handler(_, Serves::Bound) => false,
        },
{
    let base = lossless(addr@);
    let marker = "+lossy"@;
    if marker.is_suffix_of(addr@) {
        assert(addr@ =~= base + marker) by {
            assert(addr@.subrange(addr@.len() - marker.len(), addr@.len() as int) =~= marker);
        }
    }
    if "file:"@.is_prefix_of(base) {
        assert(base =~= "file:"@ + base.skip("file:"@.len() as int)) by {
            assert(base.subrange(0, "file:"@.len() as int) =~= "file:"@);
        }
    }
    if "fifo:"@.is_prefix_of(base) {
        assert(base =~= "fifo:"@ + base.skip("fifo:"@.len() as int)) by {
            assert(base.subrange(0, "fifo:"@.len() as int) =~= "fifo:"@);
        }
    }
}

/// What is neither spelled with a scheme nor ends in a port is no address, and the error says so.
pub proof fn a_word_alone_is_no_address(
    addr: &str,
    entry: &str,
    terminal: bool,
    bound: Result<Target<String>, RouteError<String>>,
)
    requires
        call_ensures(parse_target, (addr, entry, terminal), bound),
        !addr@.contains(':'),
        !"+lossy"@.is_suffix_of(addr@),
    ensures
        bound matches Err(error) && error@ == (RouteError::BadForward { addr: addr@ }),
{
    reveal_strlit("stdin:");
    reveal_strlit("echo:");
    reveal_strlit("file:");
    reveal_strlit("fifo:");
    reveal_strlit("unix:");
    assert("stdin:"@[5] == ':' && "echo:"@[4] == ':');
    if "file:"@.is_prefix_of(addr@) {
        lemma_starts_alike("file:"@, addr@, 4);
    }
    if "fifo:"@.is_prefix_of(addr@) {
        lemma_starts_alike("fifo:"@, addr@, 4);
    }
    if "unix:"@.is_prefix_of(addr@) {
        lemma_starts_alike("unix:"@, addr@, 4);
    }
    if is_bare_scheme(addr@) {
        assert(addr@[addr@.len() - 1] == ':');
    }
    lemma_splits_where_held(addr@, ':');
    lemma_split_last_parts(addr@, ':');
    if let Some((before, after)) = split_last(addr@, ':') {
        assert(addr@[before.len() as int] == ':');
    }
}

/// A refusal names what it is about: its sentence holds the entry, the address or the name.
pub proof fn a_refused_route_is_named(
    error: RouteError<String>,
    message: String,
    told: Seq<char>,
)
    requires
        call_ensures(RouteError::<String>::message, (&error,), message),
        match error@ {
            RouteError::NoName { entry } => entry == told,
            RouteError::BadName { name } => name == told,
            RouteError::Duplicate { name } => name == told,
            RouteError::HandlerScheme { entry, .. } => entry == told,
            RouteError::UnknownScheme { entry, .. } => entry == told,
            RouteError::BadForward { addr } => addr == told,
            RouteError::NoPath { entry, .. } => entry == told,
            RouteError::ProvenOnlyHandler { name } => name == told,
            RouteError::NotProvenHandler { name } => name == told,
            RouteError::NotServed { name, .. } => name == told,
            RouteError::NotLossy { .. } | RouteError::TerminalStdin => false,
        },
    ensures
        exists|before: Seq<char>, after: Seq<char>| message@ == #[trigger] (before + told + after),
{
    let text = message@;
    let before = match error@ {
        RouteError::Duplicate { .. } => "service `"@,
        RouteError::NotServed { .. } => "no service named `"@,
        _ => "`"@,
    };
    let after = text.skip((before.len() + told.len()) as int);
    assert(text =~= before + told + after);
}

} // verus!
