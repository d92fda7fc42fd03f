//! The library's error type.
use vstd::prelude::*;
use vstd::string::*;

verus! {

#[verifier::external_type_specification]
#[verifier::external_body]
pub struct ExArrowError(arrow_schema::ArrowError);

#[verifier::external_type_specification]
#[verifier::external_body]
pub struct ExJsonError(serde_json::Error);

#[verifier::external_type_specification]
#[verifier::external_body]
pub struct ExIoError(std::io::Error);

#[derive(Debug)]
pub enum MembridError {
    Storage(String),
    Embedding(String),
    Arrow(arrow_schema::ArrowError),
    Serde(serde_json::Error),
    TokenBudgetExceeded { used: usize, budget: usize },
    Io(std::io::Error),
    Other(String),
}

impl MembridError {
    pub fn storage(msg: &str) -> (e: Self)
        ensures
            e matches MembridError::Storage(s) && s@ == msg@,
    {
        MembridError::Storage(String::from_str(msg))
    }

    pub fn embedding(msg: &str) -> (e: Self)
        ensures
            e matches MembridError::Embedding(s) && s@ == msg@,
    {
        MembridError::Embedding(String::from_str(msg))
    }

    pub fn other(msg: &str) -> (e: Self)
        ensures
            e matches MembridError::Other(s) && s@ == msg@,
    {
        MembridError::Other(String::from_str(msg))
    }

    /// The human-readable message of the error.
    pub fn message(&self) -> (m: String)
        ensures
            self matches MembridError::Storage(s) ==> m@ == "storage error: "@ + s@,
            self matches MembridError::Embedding(s) ==> m@ == "embedding error: "@ + s@,
            self matches MembridError::Other(s) ==> m@ == s@,
            self matches MembridError::TokenBudgetExceeded { used, budget } ==> m@
                == "token budget exceeded: used "@ + decimal(used as nat) + ", budget "@
                + decimal(budget as nat),
            self is Arrow ==> starts_with(m@, "Arrow error: "@),
            self is Serde ==> starts_with(m@, "serialization error: "@),
            self is Io ==> starts_with(m@, "io error: "@),
    {
        match self {
            MembridError::Storage(s) => String::from_str("storage error: ").concat(s.as_str()),
            MembridError::Embedding(s) => String::from_str("embedding error: ").concat(s.as_str()),
            MembridError::Other(s) => s.clone(),
            MembridError::TokenBudgetExceeded { used, budget } => {
                let mut m = String::from_str("token budget exceeded: used ");
                m.append(usize_to_decimal(*used).as_str());
                m.append(", budget ");
                m.append(usize_to_decimal(*budget).as_str());
                m
            },
            MembridError::Arrow(e) => prefixed("Arrow error: ", arrow_error_to_text(e)),
            MembridError::Serde(e) => prefixed("serialization error: ", json_error_to_text(e)),
            MembridError::Io(e) => prefixed("io error: ", io_error_to_text(e)),
        }
    }
}

/// `p` is a prefix of `m`.
pub open spec fn starts_with(m: Seq<char>, p: Seq<char>) -> bool {
    p.len() <= m.len() && m.take(p.len() as int) == p
}

/// `prefix` followed by `rest`.
fn prefixed(prefix: &str, rest: String) -> (m: String)
    ensures
        m@ == prefix@ + rest@,
        starts_with(m@, prefix@),
{
    let m = String::from_str(prefix).concat(rest.as_str());
    assert(m@.take(prefix@.len() as int) =~= prefix@);
    m
}

/// The decimal digit of `n` (for `n < 10`).
pub open spec fn decimal_digit(n: nat) -> char {
    (n + 48) as char
}

/// Decimal text of `n`, without leading zeros ("0" for zero).
pub open spec fn decimal(n: nat) -> Seq<char>
    decreases n,
{
    if n < 10 {
        seq![decimal_digit(n)]
    } else {
        decimal(n / 10) + seq![decimal_digit(n % 10)]
    }
}

/// The one-character text of the decimal digit `d`.
fn digit_text(d: usize) -> (s: &'static str)
    requires
        d < 10,
    ensures
        s@ == seq![decimal_digit(d as nat)],
{
    proof {
        reveal_strlit("0");
        reveal_strlit("1");
        reveal_strlit("2");
        reveal_strlit("3");
        reveal_strlit("4");
        reveal_strlit("5");
        reveal_strlit("6");
        reveal_strlit("7");
        reveal_strlit("8");
        reveal_strlit("9");
    }
    let s = if d == 0 {
        "0"
    } else if d == 1 {
        "1"
    } else if d == 2 {
        "2"
    } else if d == 3 {
        "3"
    } else if d == 4 {
        "4"
    } else if d == 5 {
        "5"
    } else if d == 6 {
        "6"
    } else if d == 7 {
        "7"
    } else if d == 8 {
        "8"
    } else {
        "9"
    };
    assert(s@ =~= seq![decimal_digit(d as nat)]);
    s
}

/// Decimal text of `n`.
pub fn usize_to_decimal(n: usize) -> (s: String)
    ensures
        s@ == decimal(n as nat),
    decreases n,
{
    if n < 10 {
        let s = String::from_str(digit_text(n));
        assert(s@ =~= decimal(n as nat));
        s
    } else {
        let mut s = usize_to_decimal(n / 10);
        s.append(digit_text(n % 10));
        assert(s@ =~= decimal(n as nat));
        s
    }
}

/// `ArrowError`'s `Display`, written out.
#[verifier::external_body]
fn arrow_error_to_text(e: &arrow_schema::ArrowError) -> (s: String) {
    format!("{}", e)
}

/// `serde_json::Error`'s `Display`, written out.
#[verifier::external_body]
fn json_error_to_text(e: &serde_json::Error) -> (s: String) {
    format!("{}", e)
}

/// `std::io::Error`'s `Display`, written out.
#[verifier::external_body]
fn io_error_to_text(e: &std::io::Error) -> (s: String) {
    format!("{}", e)
}

} // verus!
