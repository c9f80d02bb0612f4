use crate::text::white_space;
use vstd::prelude::*;
use vstd::string::StringExecFns;

verus! {

/// The port the control plane listens on when nothing else is configured.
pub const DEFAULT_LISTEN_PORT: u16 = 8000;

/// How the node is configured.
#[derive(Clone, Debug)]
pub struct Config {
    pub listen_port: u16,
    pub data_dir: String,
    /// The path of the node identity file.
    pub node_id: String,
}

/// The value of a non-empty run of ASCII digits.
pub open spec fn digits_value(s: Seq<char>) -> int
    decreases s.len(),
{
    if s.len() == 0 {
        0
    } else {
        digits_value(s.drop_last()) * 10 + (s.last() as int - '0' as int)
    }
}

/// A non-empty run of ASCII digits.
pub open spec fn all_digits(s: Seq<char>) -> bool {
    s.len() > 0 && forall|i: int| 0 <= i < s.len() ==> '0' <= #[trigger] s[i] <= '9'
}

/// A `u16` written in decimal with an optional leading `+`.
pub open spec fn parsed_u16(s: Seq<char>) -> Option<u16> {
    let body = if s.len() > 0 && s[0] == '+' { s.drop_first() } else { s };
    if all_digits(body) && digits_value(body) <= u16::MAX {
        Some(digits_value(body) as u16)
    } else {
        None
    }
}

/// Relies on `u16`'s `FromStr`: an optional `+` and decimal digits whose
/// value fits, and nothing else, parse.
#[verifier::external_body]
fn parse_u16(s: &str) -> (r: Option<u16>)
    ensures
        r == parsed_u16(s@),
{
    s.parse::<u16>().ok()
}

/// The configuration used when no configuration file exists: the identity
/// file `./node_id`, the data directory from `data_path` or `./dle_data`, and
/// the listen port parsed from `port_text`, or 8000.
pub fn default_config(data_path: Option<String>, port_text: Option<String>) -> (r: Config)
    ensures
        r.node_id@ == "./node_id"@,
        data_path is Some ==> r.data_dir == data_path.unwrap(),
        data_path is None ==> r.data_dir@ == "./dle_data"@,
        r.listen_port == match port_text {
            Some(t) => match parsed_u16(t@) {
                Some(p) => p,
                None => DEFAULT_LISTEN_PORT,
            },
            None => DEFAULT_LISTEN_PORT,
        },
{
    let data_dir = match data_path {
        Some(d) => d,
        None => String::from_str("./dle_data"),
    };
    let listen_port = match port_text {
        Some(t) => match parse_u16(t.as_str()) {
            Some(p) => p,
            None => DEFAULT_LISTEN_PORT,
        },
        None => DEFAULT_LISTEN_PORT,
    };
    Config { listen_port, data_dir, node_id: String::from_str("./node_id") }
}

/// `t` is `s` without leading and trailing white space.
pub open spec fn trimmed(s: Seq<char>, t: Seq<char>) -> bool {
    exists|a: int, b: int|
        0 <= a <= b <= s.len() && t == s.subrange(a, b) && (forall|i: int|
            0 <= i < a ==> white_space(#[trigger] s[i])) && (forall|i: int|
            b <= i < s.len() ==> white_space(#[trigger] s[i])) && (t.len() > 0 ==> !white_space(
            t[0],
        ) && !white_space(t.last()))
}

/// The canonical (lowercase, hyphenated) text of the UUID that a text spells, if any.
pub uninterp spec fn uuid_canonical_of(s: Seq<char>) -> Option<Seq<char>>;

/// Relies on `str::trim`: leading and trailing `White_Space` characters removed.
#[verifier::external_body]
fn trim_text(s: &str) -> (r: &str)
    ensures
        trimmed(s@, r@),
{
    s.trim()
}

/// Relies on uuid's `Uuid::parse_str`, and its `Display` for the canonical text.
#[verifier::external_body]
fn canonical_uuid(s: &str) -> (r: Option<String>)
    ensures
        match r {
            Some(t) => uuid_canonical_of(s@) == Some(t@),
            None => uuid_canonical_of(s@) is None,
        },
{
    match uuid::Uuid::parse_str(s) {
        Ok(u) => Some(u.to_string()),
        Err(_) => None,
    }
}

/// A lowercase hexadecimal digit.
pub open spec fn lower_hex(c: char) -> bool {
    ('0' <= c <= '9') || ('a' <= c <= 'f')
}

/// The hyphenated lowercase text of a version 4, RFC 4122 variant UUID.
pub open spec fn uuid_v4_text(s: Seq<char>) -> bool {
    &&& s.len() == 36
    &&& forall|i: int|
        0 <= i < 36 ==> if i == 8 || i == 13 || i == 18 || i == 23 {
            #[trigger] s[i] == '-'
        } else {
            lower_hex(s[i])
        }
    &&& s[14] == '4'
    &&& (s[19] == '8' || s[19] == '9' || s[19] == 'a' || s[19] == 'b')
}

/// Relies on uuid's `Uuid::new_v4`, which sets the version and variant bits,
/// and its `Display`, which writes lowercase hyphenated text. The value is
/// random; it panics only when the operating system yields no random bytes.
#[verifier::external_body]
fn fresh_uuid() -> (r: String)
    ensures
        uuid_v4_text(r@),
{
    uuid::Uuid::new_v4().to_string()
}

/// Why an identity file could not be used.
#[derive(Clone, Copy, Debug, PartialEq, Eq, Structural)]
pub enum IdentityError {
    /// The file does not hold a UUID.
    Corrupted,
}

/// The node identity held in an identity file: its trimmed contents must
/// spell a UUID, which is returned in canonical form.
pub fn identity_from_contents(content: &String) -> (r: Result<String, IdentityError>)
    ensures
        exists|t: Seq<char>|
            trimmed(content@, t) && match uuid_canonical_of(t) {
                Some(c) => r is Ok && r.unwrap()@ == c,
                None => r == Err::<String, IdentityError>(IdentityError::Corrupted),
            },
{
    let t = trim_text(content.as_str());
    match canonical_uuid(t) {
        Some(c) => Ok(c),
        None => Err(IdentityError::Corrupted),
    }
}

/// A fresh node identity: a random version 4 UUID in canonical form.
pub fn new_identity() -> (r: String)
    ensures
        uuid_v4_text(r@),
{
    fresh_uuid()
}

} // verus!
