//! Remote addresses (`tcp://` or `unix://`)

use crate::error::{Error, ErrorKind};
use crate::text::{char_digit, spec_decimal, u64_to_string};
use vstd::prelude::*;

verus! {

/// URI prefix for TCP connections
pub const TCP_PREFIX: &'static str = "tcp://";

/// URI prefix for Unix socket connections
pub const UNIX_PREFIX: &'static str = "unix://";

/// View of a remote address.
pub enum AddressView {
    /// TCP connection
    Tcp {
        /// Remote peer ID
        peer_id: Option<Seq<char>>,
        /// Hostname or IP address
        host: Seq<char>,
        /// Port
        port: u16,
    },
    /// UNIX domain socket
    Unix {
        /// Path to the socket
        path: Seq<char>,
    },
}

/// Remote address (TCP or UNIX socket)
///
/// For TCP-based addresses, this supports both IPv4 and IPv6 addresses and
/// hostnames.
///
/// If the scheme is not supplied (i.e. `tcp://` or `unix://`) when parsing
/// from a string, it is assumed to be a TCP address.
#[derive(Debug)]
pub enum Address {
    /// TCP connection
    Tcp {
        /// Remote peer ID, a 40-digit hex node ID, stored lowercase
        peer_id: Option<String>,
        /// Hostname or IP address
        host: String,
        /// Port
        port: u16,
    },
    /// UNIX domain socket
    Unix {
        /// Path to a UNIX domain socket
        path: String,
    },
}

impl View for Address {
    type V = AddressView;

    open spec fn view(&self) -> AddressView {
        match self {
            Address::Tcp { peer_id, host, port } => AddressView::Tcp {
                peer_id: match peer_id {
                    Some(id) => Some(id@),
                    None => None,
                },
                host: host@,
                port: *port,
            },
            Address::Unix { path } => AddressView::Unix { path: path@ },
        }
    }
}

impl DeepView for Address {
    type V = AddressView;

    open spec fn deep_view(&self) -> AddressView {
        self.view()
    }
}

/// The components url's parser extracts from an absolute URL string.
pub struct UrlParts {
    /// URL scheme, lowercase
    pub scheme: String,

    /// Username, possibly empty
    pub username: String,

    /// Host, if the URL has one; IP hosts come back normalized
    pub host: Option<String>,

    /// Explicit port, if any
    pub port: Option<u16>,

    /// Path, possibly `/`
    pub path: String,
}

/// View of [`UrlParts`].
pub struct UrlPartsView {
    /// URL scheme
    pub scheme: Seq<char>,

    /// Username
    pub username: Seq<char>,

    /// Host, if any
    pub host: Option<Seq<char>>,

    /// Explicit port, if any
    pub port: Option<u16>,

    /// Path
    pub path: Seq<char>,
}

impl View for UrlParts {
    type V = UrlPartsView;

    open spec fn view(&self) -> UrlPartsView {
        UrlPartsView {
            scheme: self.scheme@,
            username: self.username@,
            host: match self.host {
                Some(h) => Some(h@),
                None => None,
            },
            port: self.port,
            path: self.path@,
        }
    }
}

/// What url's parser makes of a string: `None` when the string is no
/// absolute URL, otherwise the extracted components. The outcome depends on
/// the string alone.
pub uninterp spec fn url_parse_of(s: Seq<char>) -> Option<UrlPartsView>;

/// Relies on url::Url::parse and the accessors Url::scheme, Url::username,
/// Url::host_str, Url::port and Url::path: whether a string parses as an
/// absolute URL, and which components it carries, depend on the string alone.
#[verifier::external_body]
fn parse_url(s: &str) -> (r: Option<UrlParts>)
    ensures
        r matches Some(p) ==> url_parse_of(s@) == Some(p@),
        r is None ==> url_parse_of(s@) is None,
{
    match url::Url::parse(s) {
        Ok(u) => Some(UrlParts {
            scheme: u.scheme().to_string(),
            username: u.username().to_string(),
            host: u.host_str().map(|h| h.to_string()),
            port: u.port(),
            path: u.path().to_string(),
        }),
        Err(_) => None,
    }
}

/// True when `s` contains the `://` scheme separator.
pub open spec fn has_scheme_sep(s: Seq<char>) -> bool {
    exists|i: int|
        0 <= i && i + 2 < s.len() && #[trigger] s[i] == ':' && s[i + 1] == '/' && s[i + 2] == '/'
}

/// Scan for the `://` scheme separator.
fn contains_scheme_sep(s: &str) -> (r: bool)
    ensures
        r == has_scheme_sep(s@),
{
    let n = s.unicode_len();
    if n < 3 {
        return false;
    }
    let mut i: usize = 0;
    while i + 2 < n
        invariant
            i + 2 <= n,
            n == s@.len(),
            forall|j: int|
                0 <= j < i && j + 2 < n ==> !(#[trigger] s@[j] == ':' && s@[j + 1] == '/' && s@[j
                    + 2] == '/'),
        decreases n - i,
    {
        if s.get_char(i) == ':' && s.get_char(i + 1) == '/' && s.get_char(i + 2) == '/' {
            return true;
        }
        i = i + 1;
    }
    false
}

/// True when `c` is a hexadecimal digit.
pub open spec fn is_hex_digit(c: char) -> bool {
    char_digit(c) >= 0 || c == 'a' || c == 'b' || c == 'c' || c == 'd' || c == 'e' || c == 'f'
        || c == 'A' || c == 'B' || c == 'C' || c == 'D' || c == 'E' || c == 'F'
}

/// The lowercase form of a hexadecimal digit.
pub open spec fn hex_lower(c: char) -> char {
    if c == 'A' {
        'a'
    } else if c == 'B' {
        'b'
    } else if c == 'C' {
        'c'
    } else if c == 'D' {
        'd'
    } else if c == 'E' {
        'e'
    } else if c == 'F' {
        'f'
    } else {
        c
    }
}

/// A valid node ID is exactly 40 hexadecimal digits; its canonical form is
/// lowercase.
pub open spec fn spec_node_id(s: Seq<char>) -> Option<Seq<char>> {
    if s.len() == 40 && (forall|i: int| 0 <= i < s.len() ==> is_hex_digit(#[trigger] s[i])) {
        Some(Seq::new(s.len(), |i: int| hex_lower(s[i])))
    } else {
        None
    }
}

/// The lowercase text of one hexadecimal digit, or `None` for any other
/// character.
fn hex_char_str(c: char) -> (r: Option<&'static str>)
    ensures
        match r {
            Some(t) => is_hex_digit(c) && t@ =~= seq![hex_lower(c)],
            None => !is_hex_digit(c),
        },
{
    proof {
        reveal_strlit("0");
        reveal_strlit("1");
        reveal_strlit("2");
        reveal_strlit("3");
        reveal_strlit("4");
        reveal_strlit("5");
        reveal_strlit("6");
        reveal_strlit("7");
        reveal_strlit("8");
        reveal_strlit("9");
        reveal_strlit("a");
        reveal_strlit("b");
        reveal_strlit("c");
        reveal_strlit("d");
        reveal_strlit("e");
        reveal_strlit("f");
    }
    match c {
        '0' => Some("0"),
        '1' => Some("1"),
        '2' => Some("2"),
        '3' => Some("3"),
        '4' => Some("4"),
        '5' => Some("5"),
        '6' => Some("6"),
        '7' => Some("7"),
        '8' => Some("8"),
        '9' => Some("9"),
        'a' | 'A' => Some("a"),
        'b' | 'B' => Some("b"),
        'c' | 'C' => Some("c"),
        'd' | 'D' => Some("d"),
        'e' | 'E' => Some("e"),
        'f' | 'F' => Some("f"),
        _ => None,
    }
}

/// Parse and normalize a node ID: 40 hexadecimal digits, lowercased.
pub fn parse_node_id(s: &str) -> (r: Option<String>)
    ensures
        match r {
            Some(id) => spec_node_id(s@) == Some(id@),
            None => spec_node_id(s@) is None,
        },
{
    let n = s.unicode_len();
    if n != 40 {
        return None;
    }
    let mut out = String::new();
    let mut i: usize = 0;
    while i < n
        invariant
            i <= n,
            n == s@.len(),
            forall|j: int| 0 <= j < i ==> is_hex_digit(#[trigger] s@[j]),
            out@ =~= Seq::new(i as nat, |j: int| hex_lower(s@[j])),
        decreases n - i,
    {
        match hex_char_str(s.get_char(i)) {
            Some(t) => {
                out.append(t);
            },
            None => {
                proof {
                    assert(!is_hex_digit(s@[i as int]));
                }
                return None;
            },
        }
        i = i + 1;
    }
    proof {
        assert(spec_node_id(s@) matches Some(v) && v =~= out@);
    }
    Some(out)
}

/// The string the address parser works on: the input itself when it already
/// carries a scheme, else the input behind `tcp://`.
pub open spec fn spec_prefixed(s: Seq<char>) -> Seq<char> {
    if has_scheme_sep(s) {
        s
    } else {
        "tcp://"@ + s
    }
}

/// The address a string denotes, if any: the prefixed string must parse as
/// a URL with scheme `tcp` (with host, port, and a valid or absent peer ID
/// in the username slot) or scheme `unix`.
pub open spec fn spec_parse_address(s: Seq<char>) -> Option<AddressView> {
    match url_parse_of(spec_prefixed(s)) {
        None => None,
        Some(p) => if p.scheme == "tcp"@ {
            match (p.host, p.port) {
                (Some(h), Some(po)) => if p.username.len() == 0 {
                    Some(AddressView::Tcp { peer_id: None, host: h, port: po })
                } else {
                    match spec_node_id(p.username) {
                        Some(id) => Some(AddressView::Tcp { peer_id: Some(id), host: h, port: po }),
                        None => None,
                    }
                },
                _ => None,
            }
        } else if p.scheme == "unix"@ {
            Some(AddressView::Unix { path: p.path })
        } else {
            None
        },
    }
}

impl Address {
    /// Parse an address from a string; a string without a scheme is taken
    /// as TCP. Every failure is a `ConfigError`.
    pub fn parse(s: &str) -> (r: Result<Address, Error>)
        ensures
            r matches Ok(a) ==> spec_parse_address(s@) == Some(a@),
            r is Err <==> spec_parse_address(s@) is None,
            r matches Err(e) ==> e.kind == ErrorKind::ConfigError,
    {
        let prefixed: String = if contains_scheme_sep(s) {
            s.to_owned()
        } else {
            TCP_PREFIX.to_owned().concat(s)
        };
        let parts = match parse_url(prefixed.as_str()) {
            Some(p) => p,
            None => {
                return Err(
                    Error::new(ErrorKind::ConfigError, "invalid address".to_owned()),
                );
            },
        };
        if crate::text::str_eq(parts.scheme.as_str(), "tcp") {
            let host = match parts.host {
                Some(h) => h,
                None => {
                    return Err(
                        Error::new(
                            ErrorKind::ConfigError,
                            "invalid TCP address (missing host)".to_owned(),
                        ),
                    );
                },
            };
            let port = match parts.port {
                Some(p) => p,
                None => {
                    return Err(
                        Error::new(
                            ErrorKind::ConfigError,
                            "invalid TCP address (missing port)".to_owned(),
                        ),
                    );
                },
            };
            if parts.username.unicode_len() == 0 {
                Ok(Address::Tcp { peer_id: None, host, port })
            } else {
                match parse_node_id(parts.username.as_str()) {
                    Some(id) => Ok(Address::Tcp { peer_id: Some(id), host, port }),
                    None => Err(
                        Error::new(ErrorKind::ConfigError, "invalid peer ID".to_owned()),
                    ),
                }
            }
        } else if crate::text::str_eq(parts.scheme.as_str(), "unix") {
            Ok(Address::Unix { path: parts.path })
        } else {
            Err(Error::new(ErrorKind::ConfigError, "invalid address scheme".to_owned()))
        }
    }

    /// The text of this address: `tcp://[id@]host:port` or `unix://path`.
    pub fn to_text(&self) -> (r: String)
        ensures
            r@ == spec_address_text(self@),
    {
        match self {
            Address::Tcp { peer_id: None, host, port } => {
                TCP_PREFIX.to_owned().concat(host.as_str()).concat(":").concat(
                    u64_to_string(*port as u64).as_str(),
                )
            },
            Address::Tcp { peer_id: Some(id), host, port } => {
                TCP_PREFIX.to_owned().concat(id.as_str()).concat("@").concat(
                    host.as_str(),
                ).concat(":").concat(u64_to_string(*port as u64).as_str())
            },
            Address::Unix { path } => UNIX_PREFIX.to_owned().concat(path.as_str()),
        }
    }
}

/// The canonical text of an address.
pub open spec fn spec_address_text(a: AddressView) -> Seq<char> {
    match a {
        AddressView::Tcp { peer_id: None, host, port } => "tcp://"@ + host + ":"@ + spec_decimal(
            port as int,
        ),
        AddressView::Tcp { peer_id: Some(id), host, port } => "tcp://"@ + id + "@"@ + host + ":"@
            + spec_decimal(port as int),
        AddressView::Unix { path } => "unix://"@ + path,
    }
}

impl core::str::FromStr for Address {
    type Err = Error;

    /// Parse an address, as [`Address::parse`] does.
    fn from_str(s: &str) -> (r: Result<Address, Error>) {
        Address::parse(s)
    }
}

} // verus!
