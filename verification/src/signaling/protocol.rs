//! Protocol versioning and handling.
use vstd::prelude::*;
use vstd::string::*;

use crate::signaling::error::{Error, ErrorView};
use crate::signaling::messages::{Message, message_problem, message_version};
use crate::text::{
    append_decimal, chars_of, concat, decimal, lemma_decimal_value, lemma_split_char_to_end,
    lemma_split_char_to_sep, parse_u16, parse_u16_range, split_char, split_char_bounds,
};

verus! {

broadcast use vstd::string::group_string_axioms;

/// Protocol version.
#[derive(Debug, Clone, PartialEq, Eq, Ord)]
pub struct ProtocolVersion {
    /// Major version
    pub major: u16,
    /// Minor version
    pub minor: u16,
}

/// A version `(major, minor)` is compatible with `other` when the major versions
/// match and its minor version is not older.
pub open spec fn compatible(v: (u16, u16), other: (u16, u16)) -> bool {
    v.0 == other.0 && v.1 >= other.1
}

/// The text of the version `major.minor`.
pub open spec fn version_text(major: u16, minor: u16) -> Seq<char> {
    decimal(major as nat) + seq!['.'] + decimal(minor as nat)
}

/// What parsing `t` as a version gives: two dot-separated numbers, each as
/// `u16::from_str` reads it.
pub open spec fn parse_version(t: Seq<char>) -> Result<(u16, u16), ErrorView> {
    let parts = split_char(t, '.');
    if parts.len() != 2 {
        Err(ErrorView::UnsupportedVersion("Invalid version format: "@ + t))
    } else {
        match parse_u16(parts[0]) {
            None => Err(ErrorView::UnsupportedVersion("Invalid major version: "@ + t)),
            Some(a) => match parse_u16(parts[1]) {
                None => Err(ErrorView::UnsupportedVersion("Invalid minor version: "@ + t)),
                Some(b) => Ok((a, b)),
            },
        }
    }
}

/// The text of the error for a message of version `m` under a protocol of version `p`.
pub open spec fn incompatible_text(m: (u16, u16), p: (u16, u16)) -> Seq<char> {
    "Message version "@ + version_text(m.0, m.1) + " is not compatible with protocol version "@
        + version_text(p.0, p.1)
}

/// The first problem that a protocol of version `p` finds in the message `m`.
pub open spec fn protocol_problem(p: (u16, u16), m: Message) -> Option<ErrorView> {
    match parse_version(m.version@) {
        Err(e) => Some(e),
        Ok(v) => if !compatible(p, v) {
            Some(ErrorView::UnsupportedVersion(incompatible_text(v, p)))
        } else {
            message_problem(m)
        },
    }
}

impl ProtocolVersion {
    pub open spec fn pair(&self) -> (u16, u16) {
        (self.major, self.minor)
    }

    /// Create a new protocol version.
    pub fn new(major: u16, minor: u16) -> (v: Self)
        ensures
            v.major == major,
            v.minor == minor,
    {
        Self { major, minor }
    }

    /// Current protocol version (1.0).
    pub fn current() -> (v: Self)
        ensures
            v.major == 1,
            v.minor == 0,
    {
        Self::new(1, 0)
    }

    /// Check if this version is compatible with another version.
    /// Compatible if major versions match and minor version is >= other.
    pub fn is_compatible_with(&self, other: &Self) -> (b: bool)
        ensures
            b == compatible(self.pair(), other.pair()),
    {
        self.major == other.major && self.minor >= other.minor
    }

    /// The version as `major.minor`.
    pub fn to_string(&self) -> (s: String)
        ensures
            s@ == version_text(self.major, self.minor),
    {
        let mut s = String::new();
        append_decimal(&mut s, self.major as u64);
        s.append(".");
        append_decimal(&mut s, self.minor as u64);
        proof {
            reveal_strlit(".");
            assert(s@ =~= version_text(self.major, self.minor));
        }
        s
    }

    /// Parses a version written as `major.minor`.
    pub fn parse(s: &str) -> (r: Result<Self, Error>)
        ensures
            match r {
                Ok(v) => parse_version(s@) == Ok::<(u16, u16), ErrorView>(v.pair()),
                Err(e) => parse_version(s@) == Err::<(u16, u16), ErrorView>(e@),
            },
    {
        let v = chars_of(s);
        let parts = split_char_bounds(&v, '.');
        if parts.len() != 2 {
            return Err(Error::UnsupportedVersion(concat("Invalid version format: ", s)));
        }
        let (a0, a1) = parts[0];
        let (b0, b1) = parts[1];
        let major = match parse_u16_range(&v, a0, a1) {
            Some(x) => x,
            None => {
                return Err(Error::UnsupportedVersion(concat("Invalid major version: ", s)));
            },
        };
        let minor = match parse_u16_range(&v, b0, b1) {
            Some(x) => x,
            None => {
                return Err(Error::UnsupportedVersion(concat("Invalid minor version: ", s)));
            },
        };
        Ok(Self::new(major, minor))
    }
}

impl std::str::FromStr for ProtocolVersion {
    type Err = Error;

    fn from_str(s: &str) -> (r: Result<Self, Error>)
        ensures
            match r {
                Ok(v) => parse_version(s@) == Ok::<(u16, u16), ErrorView>(v.pair()),
                Err(e) => parse_version(s@) == Err::<(u16, u16), ErrorView>(e@),
            },
    {
        Self::parse(s)
    }
}

/// Protocol handler for managing signaling messages.
#[derive(Debug)]
pub struct Protocol {
    /// Current protocol version
    version: ProtocolVersion,
}

impl Protocol {
    /// The version of the protocol.
    pub closed spec fn spec_version(&self) -> ProtocolVersion {
        self.version
    }

    /// Create a new protocol handler.
    pub fn new() -> (p: Self)
        ensures
            p.spec_version().pair() == (1u16, 0u16),
    {
        Self { version: ProtocolVersion::current() }
    }

    /// Get the current protocol version.
    pub fn version(&self) -> (v: &ProtocolVersion)
        ensures
            *v == self.spec_version(),
    {
        &self.version
    }

    /// Validate a message against the protocol.
    pub fn validate_message(&self, message: &Message) -> (r: Result<(), Error>)
        ensures
            match r {
                Ok(()) => protocol_problem(self.spec_version().pair(), *message) is None,
                Err(e) => protocol_problem(self.spec_version().pair(), *message) == Some(e@),
            },
    {
        let msg_version = ProtocolVersion::parse(message.version.as_str())?;
        if !self.version.is_compatible_with(&msg_version) {
            let mut text = concat("Message version ", msg_version.to_string().as_str());
            text.append(" is not compatible with protocol version ");
            text.append(self.version.to_string().as_str());
            return Err(Error::UnsupportedVersion(text));
        }
        message.validate()
    }

    /// Accept a message that was read from JSON: an error from reading it
    /// stands; a message that was read is validated against the protocol and
    /// handed back when it passes.
    pub fn parse_message(&self, parsed: Result<Message, Error>) -> (r: Result<Message, Error>)
        ensures
            match parsed {
                Err(e) => r == Err::<Message, Error>(e),
                Ok(m) => match protocol_problem(self.spec_version().pair(), m) {
                    None => r == Ok::<Message, Error>(m),
                    Some(p) => r matches Err(e) && e@ == p,
                },
            },
    {
        let message = parsed?;
        self.validate_message(&message)?;
        Ok(message)
    }
}

impl Default for Protocol {
    fn default() -> (p: Self)
        ensures
            p.spec_version().pair() == (1u16, 0u16),
    {
        Self::new()
    }
}

/// The text of a version parses back to that version.
pub proof fn lemma_version_text_parses(major: u16, minor: u16)
    ensures
        parse_version(version_text(major, minor)) == Ok::<(u16, u16), ErrorView>((major, minor)),
{
    let da = decimal(major as nat);
    let db = decimal(minor as nat);
    lemma_decimal_value(major as nat);
    lemma_decimal_value(minor as nat);
    let t = version_text(major, minor);
    let k = da.len() as int;
    assert(t[k] == '.');
    assert forall|j: int| 0 <= j < k implies #[trigger] t[j] != '.' by {
        assert(t[j] == da[j]);
    }
    lemma_split_char_to_sep(t, '.', 0, 0, k);
    assert forall|j: int| k + 1 <= j < t.len() implies #[trigger] t[j] != '.' by {
        assert(t[j] == db[j - k - 1]);
    }
    lemma_split_char_to_end(t, '.', k + 1, k + 1);
    assert(t.subrange(0, k) =~= da);
    assert(t.subrange(k + 1, t.len() as int) =~= db);
    let parts = split_char(t, '.');
    assert(parts =~= seq![da, db]);
}

/// Every version is compatible with itself.
pub proof fn lemma_compatible_reflexive(v: (u16, u16))
    ensures
        compatible(v, v),
{
}

/// A version compatible with a second that is compatible with a third is
/// compatible with the third.
pub proof fn lemma_compatible_transitive(a: (u16, u16), b: (u16, u16), c: (u16, u16))
    requires
        compatible(a, b),
        compatible(b, c),
    ensures
        compatible(a, c),
{
}

/// The version that new messages carry is the one the protocol starts with.
pub proof fn lemma_message_version_parses()
    ensures
        parse_version(message_version()) == Ok::<(u16, u16), ErrorView>((1u16, 0u16)),
{
    reveal_strlit("1.0");
    assert(decimal(1) == seq!['1']);
    assert(decimal(0) == seq!['0']);
    assert(message_version() =~= version_text(1, 0));
    lemma_version_text_parses(1, 0);
}

/// A protocol of the current version judges a message of the current version by
/// its content alone.
pub proof fn lemma_current_messages_checked_by_content(m: Message)
    requires
        m.version@ == message_version(),
    ensures
        protocol_problem((1u16, 0u16), m) == message_problem(m),
{
    lemma_message_version_parses();
}

} // verus!
