use vstd::prelude::*;
use rand::Rng;
use vstd::string::StringExecFns;

verus! {

/// Longest custom identifier, in characters, that the messaging service accepts.
pub const MAX_CUSTOM_ID_LEN: usize = 100;

/// Length of the identifiers generated for controls that were given none.
pub const GENERATED_ID_LEN: usize = 7;

pub open spec fn digit_char(d: nat) -> char {
    seq!['0', '1', '2', '3', '4', '5', '6', '7', '8', '9'][d as int]
}

/// Decimal notation of `n`, without leading zeros.
pub open spec fn decimal(n: nat) -> Seq<char>
    decreases n,
{
    if n < 10 {
        seq![digit_char(n)]
    } else {
        decimal(n / 10).push(digit_char(n % 10))
    }
}

/// The scope of the child at `index` inside `parent`: `parent:index`.
pub open spec fn sub_scope(parent: Seq<char>, index: nat) -> Seq<char> {
    parent + seq![':'] + decimal(index)
}

/// The fully-qualified identifier of a control `id` in `scope`: `scope.id`.
pub open spec fn qualify(scope: Seq<char>, id: Seq<char>) -> Seq<char> {
    scope + seq!['.'] + id
}

pub open spec fn is_alphanumeric(c: char) -> bool {
    ('a' <= c && c <= 'z') || ('A' <= c && c <= 'Z') || ('0' <= c && c <= '9')
}

/// Relies on `String::push`: appends one character.
#[verifier::external_body]
fn push_char(s: &mut String, c: char)
    ensures
        final(s)@ == old(s)@.push(c),
{
    s.push(c);
}

/// Relies on rand's `Alphanumeric` distribution: a uniformly drawn ASCII
/// letter or digit.
#[verifier::external_body]
fn random_alphanumeric() -> (c: char)
    ensures
        is_alphanumeric(c),
{
    char::from(rand::thread_rng().sample(rand::distributions::Alphanumeric))
}

fn digit(d: usize) -> (c: char)
    requires
        d < 10,
    ensures
        c == digit_char(d as nat),
{
    if d == 0 {
        '0'
    } else if d == 1 {
        '1'
    } else if d == 2 {
        '2'
    } else if d == 3 {
        '3'
    } else if d == 4 {
        '4'
    } else if d == 5 {
        '5'
    } else if d == 6 {
        '6'
    } else if d == 7 {
        '7'
    } else if d == 8 {
        '8'
    } else {
        '9'
    }
}

/// Decimal notation of `n`.
pub fn decimal_string(n: usize) -> (s: String)
    ensures
        s@ == decimal(n as nat),
    decreases n,
{
    if n < 10 {
        let mut s = String::new();
        push_char(&mut s, digit(n));
        s
    } else {
        let mut s = decimal_string(n / 10);
        push_char(&mut s, digit(n % 10));
        s
    }
}

/// A fresh random identifier of `GENERATED_ID_LEN` ASCII letters and digits.
pub fn random_id() -> (s: String)
    ensures
        s@.len() == GENERATED_ID_LEN,
        forall|i: int| 0 <= i < s@.len() ==> is_alphanumeric(#[trigger] s@[i]),
{
    let mut s = String::new();
    let mut n: usize = 0;
    while n < GENERATED_ID_LEN
        invariant
            n <= GENERATED_ID_LEN,
            s@.len() == n,
            forall|i: int| 0 <= i < s@.len() ==> is_alphanumeric(#[trigger] s@[i]),
        decreases GENERATED_ID_LEN - n,
    {
        let c = random_alphanumeric();
        push_char(&mut s, c);
        n = n + 1;
    }
    s
}

/// The scope that a control is lowered in, written as a path of indices.
pub struct BuildContextPrefix {
    pub prefix: String,
}

impl BuildContextPrefix {
    /// The scope of the top-level container at `index`.
    pub fn root(index: usize) -> (r: Self)
        ensures
            r.prefix@ == decimal(index as nat),
    {
        BuildContextPrefix { prefix: decimal_string(index) }
    }

    /// The scope of the child at `index` of this scope.
    pub fn sub(&self, index: usize) -> (r: Self)
        ensures
            r.prefix@ == sub_scope(self.prefix@, index as nat),
    {
        let mut p = self.prefix.clone();
        push_char(&mut p, ':');
        let d = decimal_string(index);
        p.append(d.as_str());
        BuildContextPrefix { prefix: p }
    }

    /// The fully-qualified identifier of the control `id` in this scope.
    pub fn qualify(&self, id: &String) -> (r: String)
        ensures
            r@ == qualify(self.prefix@, id@),
    {
        let mut p = self.prefix.clone();
        push_char(&mut p, '.');
        p.append(id.as_str());
        p
    }
}

} // verus!
