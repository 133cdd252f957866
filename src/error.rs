use vstd::prelude::*;
use vstd::string::StringExecFns;

verus! {

/// Why a step of the engine could not be carried out.
#[derive(Debug)]
pub enum FFError {
    /// An operation could not be applied.
    Op(String),
    /// A node id or a name that a step reads is absent.
    Store(String),
    /// Text could not be read as a number.
    Parse(String),
}

/// The decimal digits of `n`, most significant first, without leading zeros.
pub open spec fn decimal_text(n: nat) -> Seq<char>
    decreases n,
{
    if n < 10 {
        seq![digit_char(n)]
    } else {
        decimal_text(n / 10) + seq![digit_char(n % 10)]
    }
}

pub open spec fn digit_char(d: nat) -> char {
    if d < 10 {
        (('0' as u8) + d) as char
    } else {
        '?'
    }
}

/// The message of a lookup of node `id` that found nothing.
pub open spec fn missing_id_text(id: usize) -> Seq<char> {
    "not find id: "@ + decimal_text(id as nat)
}

/// The message of a lookup of the value named `name` that found nothing.
pub open spec fn missing_key_text(name: Seq<char>) -> Seq<char> {
    "not find key: "@ + name
}

/// `e` is the error of a lookup of node `id` that found nothing.
pub open spec fn is_missing_id(e: FFError, id: usize) -> bool {
    match e {
        FFError::Store(m) => m@ == missing_id_text(id),
        _ => false,
    }
}

/// `e` is the error of a lookup of the value named `name` that found nothing.
pub open spec fn is_missing_key(e: FFError, name: Seq<char>) -> bool {
    match e {
        FFError::Store(m) => m@ == missing_key_text(name),
        _ => false,
    }
}

/// Relies on `usize::to_string` (std's `Display` for integers): the decimal
/// digits of `n`, with no sign, padding or leading zeros.
#[verifier::external_body]
fn decimal(n: usize) -> (r: String)
    ensures
        r@ == decimal_text(n as nat),
{
    n.to_string()
}

/// The error for a lookup of node `id` that found nothing.
pub fn missing_id(id: usize) -> (e: FFError)
    ensures
        is_missing_id(e, id),
{
    let mut m = String::from_str("not find id: ");
    let digits = decimal(id);
    m.append(digits.as_str());
    proof {
        reveal_strlit("not find id: ");
    }
    FFError::Store(m)
}

/// The error for a lookup of the value named `name` that found nothing.
pub fn missing_key(name: &str) -> (e: FFError)
    ensures
        is_missing_key(e, name@),
{
    let mut m = String::from_str("not find key: ");
    m.append(name);
    proof {
        reveal_strlit("not find key: ");
    }
    FFError::Store(m)
}

impl FFError {
    /// The text that describes the error, prefixed by its kind.
    pub fn message(&self) -> (r: String)
        ensures
            r@ == match self {
                FFError::Op(m) => "op error: "@ + m@,
                FFError::Store(m) => "store error: "@ + m@,
                FFError::Parse(m) => "parse store: "@ + m@,
            },
    {
        match self {
            FFError::Op(m) => {
                let mut r = String::from_str("op error: ");
                r.append(m.as_str());
                r
            },
            FFError::Store(m) => {
                let mut r = String::from_str("store error: ");
                r.append(m.as_str());
                r
            },
            FFError::Parse(m) => {
                let mut r = String::from_str("parse store: ");
                r.append(m.as_str());
                r
            },
        }
    }
}

} // verus!
