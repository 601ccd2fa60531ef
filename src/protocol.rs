use vstd::prelude::*;

verus! {

/// Lowest negotiated server version that accepts position requests and cancellations.
pub const ACCOUNT_SUMMARY: i32 = 67;

/// Lowest negotiated server version that accepts family-code requests.
pub const REQ_FAMILY_CODES: i32 = 112;

/// Errors that reach the caller of this library.
#[derive(Debug)]
pub enum Error {
    /// The negotiated server version is below what the request needs.
    ServerVersion { required: i32, actual: i32, feature: String },
    /// A request could not be submitted to the session.
    Transport(String),
    /// A message field could not be read as the decoder expected.
    Decode { field: usize, reason: DecodeFault },
}

/// Why one field of a message could not be read.
#[derive(PartialEq, Eq, Structural, Clone, Copy, Debug)]
pub enum DecodeFault {
    /// The message holds fewer fields than the decoder needs.
    EndOfMessage,
    /// The field is not a decimal integer that fits in an `i32`.
    NotAnInteger,
    /// The field is not a decimal number.
    NotANumber,
}

/// The error for a request that needs `required` on a server that negotiated `actual`.
pub open spec fn is_version_error(e: Error, required: i32, actual: i32) -> bool {
    e matches Error::ServerVersion { required: q, actual: a, .. } && q == required && a == actual
}

/// Fails, before anything is encoded or sent, when `server_version` is below `required`.
pub fn check_server_version(server_version: i32, required: i32, feature: &str) -> (r: Result<(), Error>)
    ensures
        r is Ok <==> server_version >= required,
        r is Err ==> is_version_error(r->Err_0, required, server_version),
        r matches Err(Error::ServerVersion { feature: f, .. }) ==> f@ == feature@,
{
    if server_version < required {
        Err(Error::ServerVersion { required, actual: server_version, feature: feature.to_owned() })
    } else {
        Ok(())
    }
}

} // verus!

verus! {

/// A message as it travels on the wire: a sequence of text fields.
#[derive(Debug)]
pub struct RequestMessage {
    pub fields: Vec<String>,
}

/// An inbound message: a sequence of text fields, the first of which names its kind.
#[derive(Debug)]
pub struct ResponseMessage {
    pub fields: Vec<String>,
}

pub open spec fn fields_view(v: Seq<String>) -> Seq<Seq<char>> {
    v.map_values(|f: String| f@)
}

impl View for RequestMessage {
    type V = Seq<Seq<char>>;

    open spec fn view(&self) -> Seq<Seq<char>> {
        fields_view(self.fields@)
    }
}

impl View for ResponseMessage {
    type V = Seq<Seq<char>>;

    open spec fn view(&self) -> Seq<Seq<char>> {
        fields_view(self.fields@)
    }
}

/// Tags of inbound messages that the account operations read.
pub const POSITION_DATA: i32 = 61;
pub const POSITION_END: i32 = 62;
pub const FAMILY_CODES: i32 = 78;

/// The kind of an inbound message, read from its first field.
#[derive(PartialEq, Eq, Structural, Clone, Copy, Debug)]
pub enum Incoming {
    Position,
    PositionEnd,
    FamilyCodes,
    /// Any other tag: traffic that the account operations do not read.
    Other(i32),
    /// The message has no first field, or that field is not an integer.
    NotValid,
}

pub open spec fn is_digit(c: char) -> bool {
    '0' <= c && c <= '9'
}

pub open spec fn all_digits(s: Seq<char>) -> bool {
    s.len() > 0 && forall|i: int| 0 <= i < s.len() ==> is_digit(#[trigger] s[i])
}

/// The value of a string of decimal digits.
pub open spec fn digits_value(s: Seq<char>) -> int
    decreases s.len(),
{
    if s.len() == 0 {
        0
    } else {
        digits_value(s.drop_last()) * 10 + (s.last() as int - '0' as int)
    }
}

/// The integer that a field spells: digits, with an optional leading sign.
pub open spec fn integer_value(s: Seq<char>) -> Option<int> {
    if s.len() > 0 && (s[0] == '-' || s[0] == '+') && all_digits(s.drop_first()) {
        if s[0] == '-' {
            Some(-digits_value(s.drop_first()))
        } else {
            Some(digits_value(s.drop_first()))
        }
    } else if all_digits(s) {
        Some(digits_value(s))
    } else {
        None
    }
}

/// The `i32` that a field holds, if it spells one in range.
pub open spec fn field_i32(s: Seq<char>) -> Option<i32> {
    match integer_value(s) {
        Some(v) => if i32::MIN <= v <= i32::MAX {
            Some(v as i32)
        } else {
            None
        },
        None => None,
    }
}

pub open spec fn incoming_of(m: Seq<Seq<char>>) -> Incoming {
    if m.len() == 0 {
        Incoming::NotValid
    } else {
        match field_i32(m[0]) {
            None => Incoming::NotValid,
            Some(t) => if t == POSITION_DATA {
                Incoming::Position
            } else if t == POSITION_END {
                Incoming::PositionEnd
            } else if t == FAMILY_CODES {
                Incoming::FamilyCodes
            } else {
                Incoming::Other(t)
            },
        }
    }
}

proof fn lemma_digits_nonneg(s: Seq<char>)
    requires
        forall|i: int| 0 <= i < s.len() ==> is_digit(#[trigger] s[i]),
    ensures
        digits_value(s) >= 0,
    decreases s.len(),
{
    if s.len() > 0 {
        lemma_digits_nonneg(s.drop_last());
    }
}

proof fn lemma_digits_prefix(s: Seq<char>, k: int)
    requires
        forall|i: int| 0 <= i < s.len() ==> is_digit(#[trigger] s[i]),
        0 <= k <= s.len(),
    ensures
        digits_value(s.subrange(0, k)) <= digits_value(s),
    decreases s.len(),
{
    if k < s.len() {
        let p = s.drop_last();
        lemma_digits_prefix(p, k);
        lemma_digits_nonneg(p);
        assert(p.subrange(0, k) =~= s.subrange(0, k));
    } else {
        assert(s.subrange(0, k) =~= s);
    }
}

/// Reads the field as a decimal `i32`, as `str::parse::<i32>` does.
pub fn parse_i32(s: &str) -> (r: Option<i32>)
    ensures
        r == field_i32(s@),
{
    let n = s.unicode_len();
    if n == 0 {
        return None;
    }
    let first = s.get_char(0);
    let start: usize = if first == '-' || first == '+' { 1 } else { 0 };
    if start == n {
        return None;
    }
    let ghost body = s@.subrange(start as int, n as int);
    let mut acc: i64 = 0;
    let mut i: usize = start;
    while i < n
        invariant
            start <= i <= n,
            n == s@.len(),
            body == s@.subrange(start as int, n as int),
            forall|j: int| 0 <= j < i - start ==> is_digit(#[trigger] body[j]),
            acc == digits_value(body.subrange(0, i - start)),
            0 <= acc <= 2147483648,
            s@.len() > 0,
            first == s@[0],
            start == 1 <==> (first == '-' || first == '+'),
            start <= 1,
        decreases n - i,
    {
        let c = s.get_char(i);
        if !('0' <= c && c <= '9') {
            proof {
                assert(!is_digit(body[i - start]));
                assert(!all_digits(body));
                if start == 0 {
                    assert(body =~= s@);
                } else {
                    assert(!is_digit(s@[0]));
                    assert(s@.drop_first() =~= body);
                }
            }
            return None;
        }
        let d = (c as u32 - '0' as u32) as i64;
        proof {
            let pre = body.subrange(0, i - start);
            let post = body.subrange(0, i + 1 - start);
            assert(post.drop_last() =~= pre);
        }
        acc = acc * 10 + d;
        i = i + 1;
        if acc > 2147483648 {
            proof {
                if all_digits(body) {
                    lemma_digits_prefix(body, i - start);
                }
                if start == 0 {
                    assert(body =~= s@);
                } else {
                    assert(!is_digit(s@[0]));
                    assert(s@.drop_first() =~= body);
                }
            }
            return None;
        }
    }
    proof {
        assert(body.subrange(0, n - start) =~= body);
        assert(all_digits(body));
        if start == 1 {
            assert(s@.drop_first() =~= body);
        } else {
            assert(body =~= s@);
        }
    }
    if first == '-' {
        Some((-acc) as i32)
    } else if acc <= 2147483647 {
        Some(acc as i32)
    } else {
        None
    }
}

} // verus!

verus! {

impl ResponseMessage {
    /// Classifies the message by the tag in its first field.
    pub fn message_type(&self) -> (r: Incoming)
        ensures
            r == incoming_of(self@),
    {
        if self.fields.len() == 0 {
            return Incoming::NotValid;
        }
        match parse_i32(self.fields[0].as_str()) {
            None => Incoming::NotValid,
            Some(t) => if t == POSITION_DATA {
                Incoming::Position
            } else if t == POSITION_END {
                Incoming::PositionEnd
            } else if t == FAMILY_CODES {
                Incoming::FamilyCodes
            } else {
                Incoming::Other(t)
            },
        }
    }
}

} // verus!
