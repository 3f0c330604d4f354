//! The address a connection is made on.

use vstd::prelude::*;
use vstd::string::*;

verus! {

/// A character of the Unicode `White_Space` property, which is what
/// `char::is_whitespace` and `str::trim_end` go by.
pub open spec fn is_white_space(c: char) -> bool {
    let u: u32 = c as u32;
    ||| 0x9 <= u <= 0xD
    ||| u == 0x20
    ||| u == 0x85
    ||| u == 0xA0
    ||| u == 0x1680
    ||| 0x2000 <= u <= 0x200A
    ||| u == 0x2028
    ||| u == 0x2029
    ||| u == 0x202F
    ||| u == 0x205F
    ||| u == 0x3000
}

/// `s` without its trailing white space.
pub open spec fn trimmed_end(s: Seq<char>) -> Seq<char>
    decreases s.len(),
{
    if s.len() > 0 && is_white_space(s.last()) {
        trimmed_end(s.drop_last())
    } else {
        s
    }
}

/// Whether `c` is white space.
pub fn white_space(c: char) -> (w: bool)
    ensures
        w == is_white_space(c),
{
    let u: u32 = c as u32;
    (0x9u32 <= u && u <= 0xDu32) || u == 0x20u32 || u == 0x85u32 || u == 0xA0u32 || u == 0x1680u32
        || (0x2000u32 <= u && u <= 0x200Au32) || u == 0x2028u32 || u == 0x2029u32 || u == 0x202Fu32
        || u == 0x205Fu32 || u == 0x3000u32
}

/// `s` without its trailing white space.
pub fn trim_end(s: &str) -> (t: String)
    ensures
        t@ == trimmed_end(s@),
{
    let mut k: usize = s.unicode_len();
    assert(s@.take(k as int) =~= s@);
    while k > 0 && white_space(s.get_char(k - 1))
        invariant
            k <= s@.len(),
            trimmed_end(s@) == trimmed_end(s@.take(k as int)),
        decreases k,
    {
        assert(s@.take(k as int).drop_last() =~= s@.take(k - 1));
        k = k - 1;
    }
    proof {
        if k > 0 {
            assert(s@.take(k as int).last() == s@[k - 1]);
        }
        assert(s@.take(s@.len() as int) =~= s@);
    }
    String::from_str(s.substring_char(0, k))
}

/// The `ip:port` text a connection is made on, each part without trailing
/// white space.
pub open spec fn address_of(ip: Seq<char>, port: Seq<char>) -> Seq<char> {
    trimmed_end(ip) + seq![':'] + trimmed_end(port)
}

/// Builds the `ip:port` text.
pub fn address_text(ip: &str, port: &str) -> (address: String)
    ensures
        address@ == address_of(ip@, port@),
        address@ == trimmed_end(ip@) + seq![':'] + trimmed_end(port@),
{
    let ip_part = trim_end(ip);
    let port_part = trim_end(port);
    let with_colon = ip_part.concat(":");
    proof {
        reveal_strlit(":");
    }
    let address = with_colon.concat(port_part.as_str());
    assert(address@ =~= address_of(ip@, port@));
    address
}

/// A connection to make: listen as a server, or connect as a client, on an
/// IP address and a port, both as text.
pub enum Connection {
    Server(String, String),
    Client(String, String),
}

impl Connection {
    /// The address to listen on; `None` when this is a client connection.
    pub fn server_address(self) -> (address: Option<String>)
        ensures
            match self {
                Connection::Server(ip, port) => address matches Some(a) && a@ == address_of(ip@, port@),
                Connection::Client(..) => address is None,
            },
    {
        match self {
            Connection::Server(ip, port) => Some(address_text(ip.as_str(), port.as_str())),
            Connection::Client(..) => None,
        }
    }

    /// The address to connect to; `None` when this is a server connection.
    pub fn client_address(self) -> (address: Option<String>)
        ensures
            match self {
                Connection::Client(ip, port) => address matches Some(a) && a@ == address_of(ip@, port@),
                Connection::Server(..) => address is None,
            },
    {
        match self {
            Connection::Client(ip, port) => Some(address_text(ip.as_str(), port.as_str())),
            Connection::Server(..) => None,
        }
    }
}


/// What trimming keeps: a prefix of the text, ending in no white space, and
/// what it drops is all white space.
pub proof fn lemma_trimmed_end(s: Seq<char>)
    ensures
        trimmed_end(s).len() <= s.len(),
        trimmed_end(s) == s.take(trimmed_end(s).len() as int),
        forall|j: int| trimmed_end(s).len() <= j < s.len() ==> #[trigger] is_white_space(s[j]),
        trimmed_end(s).len() > 0 ==> !is_white_space(trimmed_end(s).last()),
        (s.len() == 0 || !is_white_space(s.last())) ==> trimmed_end(s) == s,
    decreases s.len(),
{
    if s.len() > 0 && is_white_space(s.last()) {
        lemma_trimmed_end(s.drop_last());
        let t = trimmed_end(s.drop_last());
        assert(s.drop_last().take(t.len() as int) =~= s.take(t.len() as int));
        assert forall|j: int| t.len() <= j < s.len() implies #[trigger] is_white_space(s[j]) by {
            if j < s.len() - 1 {
                assert(s[j] == s.drop_last()[j]);
            }
        }
    } else {
        assert(s.take(s.len() as int) =~= s);
    }
}

/// The address is the address text, a colon and the whole port text, each
/// without trailing white space; parts without trailing white space are
/// kept exactly.
pub proof fn lemma_address_parts(ip: Seq<char>, port: Seq<char>)
    ensures
        address_of(ip, port) == trimmed_end(ip) + seq![':'] + trimmed_end(port),
        address_of(ip, port).len() == trimmed_end(ip).len() + 1 + trimmed_end(port).len(),
        (ip.len() == 0 || !is_white_space(ip.last())) && (port.len() == 0 || !is_white_space(
            port.last(),
        )) ==> address_of(ip, port) == ip + seq![':'] + port,
{
    lemma_trimmed_end(ip);
    lemma_trimmed_end(port);
}

} // verus!
