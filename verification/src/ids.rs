//! Identifiers: 128-bit UUIDs of version 7, made locally and roughly ordered by time.
use vstd::prelude::*;

verus! {

/// Whether a 128-bit value has the version and variant fields of a version 7 UUID.
pub open spec fn is_v7(value: u128) -> bool {
    &&& (value as int / 0x1000_0000_0000_0000_0000) % 16 == 7
    &&& (value as int / 0x4000_0000_0000_0000) % 4 == 2
}

/// `uuid::Uuid::now_v7` gives a version 7 UUID. Its other bits depend on the time and on
/// chance, so nothing is said of them.
#[verifier::external_body]
fn now_v7() -> (r: u128)
    ensures
        is_v7(r),
{
    uuid::Uuid::now_v7().as_u128()
}

/// The hexadecimal digit of value `d`.
pub open spec fn hex_digit(d: int) -> char {
    if d < 10 {
        (48 + d) as char
    } else {
        (87 + d) as char
    }
}

/// 16 to the power of `n`.
pub open spec fn pow16(n: nat) -> nat
    decreases n,
{
    if n == 0 {
        1
    } else {
        16 * pow16((n - 1) as nat)
    }
}

/// How many of the first `i` characters of a hyphenated UUID are hyphens.
pub open spec fn hyphens_before(i: int) -> int {
    (if i > 8 { 1int } else { 0 }) + (if i > 13 { 1int } else { 0 }) + (if i > 18 {
        1int
    } else {
        0
    }) + (if i > 23 { 1int } else { 0 })
}

/// A UUID in its usual notation: 32 lower-case hexadecimal digits, the most significant
/// first, with hyphens after the eighth, twelfth, sixteenth and twentieth.
pub open spec fn hyphenated(value: u128) -> Seq<char> {
    Seq::new(
        36,
        |i: int|
            if i == 8 || i == 13 || i == 18 || i == 23 {
                '-'
            } else {
                hex_digit(
                    (value as int / pow16((31 - (i - hyphens_before(i))) as nat) as int) % 16,
                )
            },
    )
}

/// `uuid::Uuid::to_string` writes the hyphenated notation in lower case.
#[verifier::external_body]
fn uuid_to_text(value: u128) -> (r: String)
    ensures
        r@ == hyphenated(value),
{
    uuid::Uuid::from_u128(value).to_string()
}

/// A text to mark something with: the 32 digits of a new identifier.
pub fn fresh_nonce() -> (r: String)
    ensures
        exists|value: u128|
            #[trigger] is_v7(value) && r@ == crate::text::replace_of(
                hyphenated(value),
                "-"@,
                ""@,
            ),
{
    let value: u128 = now_v7();
    let text = uuid_to_text(value);
    proof {
        reveal_strlit("-");
    }
    let digits = crate::text::replace(text.as_str(), "-", "");
    assert(is_v7(value));
    digits
}

/// The value that a text stands for as a UUID, if it does.
pub uninterp spec fn uuid_parse(text: Seq<char>) -> Option<u128>;

/// `uuid::Uuid::parse_str` reads a UUID in one of its notations, the hyphenated one
/// among them, and fails on any other text.
#[verifier::external_body]
pub(crate) fn uuid_from_text(text: &str) -> (r: Option<u128>)
    ensures
        r == uuid_parse(text@),
        forall|value: u128| text@ == #[trigger] hyphenated(value) ==> r == Some(value),
{
    uuid::Uuid::parse_str(text).ok().map(|id| id.as_u128())
}

/// One model turn of a run.
#[derive(Debug, Clone, Copy, PartialEq, Eq, Hash, PartialOrd, Ord, Structural)]
pub struct RequestId(pub u128);

impl RequestId {
    /// A new identifier.
    pub fn new_v7() -> (r: Self)
        ensures
            is_v7(r.0),
    {
        RequestId(now_v7())
    }

    /// The identifier of the given value.
    pub fn from_u128(value: u128) -> (r: Self)
        ensures
            r == RequestId(value),
    {
        RequestId(value)
    }

    /// The identifier in the hyphenated notation of a UUID.
    pub fn to_text(&self) -> (r: String)
        ensures
            r@ == hyphenated(self.0),
    {
        uuid_to_text(self.0)
    }

    /// The identifier that `text` stands for, if it is a UUID.
    pub fn parse(text: &str) -> (r: Option<Self>)
        ensures
            match r {
                Some(id) => uuid_parse(text@) == Some(id.0),
                None => uuid_parse(text@) is None,
            },
            forall|value: u128| text@ == #[trigger] hyphenated(value) ==> r == Some(RequestId(value)),
    {
        match uuid_from_text(text) {
            Some(value) => Some(RequestId(value)),
            None => None,
        }
    }
}

/// One call of a tool.
#[derive(Debug, Clone, Copy, PartialEq, Eq, Hash, PartialOrd, Ord, Structural)]
pub struct ToolCallId(pub u128);

impl ToolCallId {
    /// A new identifier.
    pub fn new_v7() -> (r: Self)
        ensures
            is_v7(r.0),
    {
        ToolCallId(now_v7())
    }

    /// The identifier of the given value.
    pub fn from_u128(value: u128) -> (r: Self)
        ensures
            r == ToolCallId(value),
    {
        ToolCallId(value)
    }

    /// The identifier in the hyphenated notation of a UUID.
    pub fn to_text(&self) -> (r: String)
        ensures
            r@ == hyphenated(self.0),
    {
        uuid_to_text(self.0)
    }

    /// The identifier that `text` stands for, if it is a UUID.
    pub fn parse(text: &str) -> (r: Option<Self>)
        ensures
            match r {
                Some(id) => uuid_parse(text@) == Some(id.0),
                None => uuid_parse(text@) is None,
            },
            forall|value: u128| text@ == #[trigger] hyphenated(value) ==> r == Some(ToolCallId(value)),
    {
        match uuid_from_text(text) {
            Some(value) => Some(ToolCallId(value)),
            None => None,
        }
    }
}

/// One event of a session.
#[derive(Debug, Clone, Copy, PartialEq, Eq, Hash, PartialOrd, Ord, Structural)]
pub struct EventId(pub u128);

impl EventId {
    /// A new identifier.
    pub fn new_v7() -> (r: Self)
        ensures
            is_v7(r.0),
    {
        EventId(now_v7())
    }

    /// The identifier of the given value.
    pub fn from_u128(value: u128) -> (r: Self)
        ensures
            r == EventId(value),
    {
        EventId(value)
    }

    /// The identifier in the hyphenated notation of a UUID.
    pub fn to_text(&self) -> (r: String)
        ensures
            r@ == hyphenated(self.0),
    {
        uuid_to_text(self.0)
    }

    /// The identifier that `text` stands for, if it is a UUID.
    pub fn parse(text: &str) -> (r: Option<Self>)
        ensures
            match r {
                Some(id) => uuid_parse(text@) == Some(id.0),
                None => uuid_parse(text@) is None,
            },
            forall|value: u128| text@ == #[trigger] hyphenated(value) ==> r == Some(EventId(value)),
    {
        match uuid_from_text(text) {
            Some(value) => Some(EventId(value)),
            None => None,
        }
    }
}

/// One session.
#[derive(Debug, Clone, Copy, PartialEq, Eq, Hash, PartialOrd, Ord, Structural)]
pub struct SessionId(pub u128);

impl SessionId {
    /// A new identifier.
    pub fn new_v7() -> (r: Self)
        ensures
            is_v7(r.0),
    {
        SessionId(now_v7())
    }

    /// The identifier of the given value.
    pub fn from_u128(value: u128) -> (r: Self)
        ensures
            r == SessionId(value),
    {
        SessionId(value)
    }

    /// The identifier in the hyphenated notation of a UUID.
    pub fn to_text(&self) -> (r: String)
        ensures
            r@ == hyphenated(self.0),
    {
        uuid_to_text(self.0)
    }

    /// The identifier that `text` stands for, if it is a UUID.
    pub fn parse(text: &str) -> (r: Option<Self>)
        ensures
            match r {
                Some(id) => uuid_parse(text@) == Some(id.0),
                None => uuid_parse(text@) is None,
            },
            forall|value: u128| text@ == #[trigger] hyphenated(value) ==> r == Some(SessionId(value)),
    {
        match uuid_from_text(text) {
            Some(value) => Some(SessionId(value)),
            None => None,
        }
    }
}

/// One run of the agent.
#[derive(Debug, Clone, Copy, PartialEq, Eq, Hash, PartialOrd, Ord, Structural)]
pub struct RunId(pub u128);

impl RunId {
    /// A new identifier.
    pub fn new_v7() -> (r: Self)
        ensures
            is_v7(r.0),
    {
        RunId(now_v7())
    }

    /// The identifier of the given value.
    pub fn from_u128(value: u128) -> (r: Self)
        ensures
            r == RunId(value),
    {
        RunId(value)
    }

    /// The identifier in the hyphenated notation of a UUID.
    pub fn to_text(&self) -> (r: String)
        ensures
            r@ == hyphenated(self.0),
    {
        uuid_to_text(self.0)
    }

    /// The identifier that `text` stands for, if it is a UUID.
    pub fn parse(text: &str) -> (r: Option<Self>)
        ensures
            match r {
                Some(id) => uuid_parse(text@) == Some(id.0),
                None => uuid_parse(text@) is None,
            },
            forall|value: u128| text@ == #[trigger] hyphenated(value) ==> r == Some(RunId(value)),
    {
        match uuid_from_text(text) {
            Some(value) => Some(RunId(value)),
            None => None,
        }
    }
}

} // verus!
