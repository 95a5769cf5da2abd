use vstd::prelude::*;
use vstd::string::StringExecFns;

verus! {

/// The decimal digit for `d < 10`.
pub open spec fn digit_char(d: nat) -> char {
    if d == 0 { '0' }
    else if d == 1 { '1' }
    else if d == 2 { '2' }
    else if d == 3 { '3' }
    else if d == 4 { '4' }
    else if d == 5 { '5' }
    else if d == 6 { '6' }
    else if d == 7 { '7' }
    else if d == 8 { '8' }
    else { '9' }
}

/// The decimal notation of `n`, most significant digit first, no leading zeros.
pub open spec fn decimal_digits(n: nat) -> Seq<char>
    decreases n,
{
    if n < 10 {
        seq![digit_char(n)]
    } else {
        decimal_digits(n / 10) + seq![digit_char(n % 10)]
    }
}

/// The digit for `d < 10`, as a one-character string.
fn digit(d: u64) -> (r: &'static str)
    requires
        d < 10,
    ensures
        r@ == seq![digit_char(d as nat)],
{
    proof {
        reveal_strlit("0");
        reveal_strlit("1");
        reveal_strlit("2");
        reveal_strlit("3");
        reveal_strlit("4");
        reveal_strlit("5");
        reveal_strlit("6");
        reveal_strlit("7");
        reveal_strlit("8");
        reveal_strlit("9");
    }
    if d == 0 {
        "0"
    } else if d == 1 {
        "1"
    } else if d == 2 {
        "2"
    } else if d == 3 {
        "3"
    } else if d == 4 {
        "4"
    } else if d == 5 {
        "5"
    } else if d == 6 {
        "6"
    } else if d == 7 {
        "7"
    } else if d == 8 {
        "8"
    } else {
        "9"
    }
}

/// The decimal digits of `n`, most significant first.
pub fn decimal(n: u64) -> (r: String)
    ensures
        r@ == decimal_digits(n as nat),
    decreases n,
{
    if n < 10 {
        String::from_str(digit(n))
    } else {
        let head = decimal(n / 10);
        head.concat(digit(n % 10))
    }
}

/// How a dialect writes statement parameters.
#[derive(Clone, Copy, Debug, PartialEq, Eq, Structural)]
pub enum PlaceholderStyle {
    /// The same token `?` for every parameter.
    Positional,
    /// `$1`, `$2`, ...: each parameter's position, counted from one.
    Numbered,
}

/// The token for the parameter at position `index` (counted from one).
pub open spec fn placeholder_token(style: PlaceholderStyle, index: nat) -> Seq<char> {
    match style {
        PlaceholderStyle::Positional => "?"@,
        PlaceholderStyle::Numbered => "$"@ + decimal_digits(index),
    }
}

/// The tokens for `n` parameters whose positions start at `start`.
pub open spec fn placeholder_run(style: PlaceholderStyle, start: nat, n: nat) -> Seq<Seq<char>> {
    Seq::new(n, |i: int| placeholder_token(style, (start + i) as nat))
}

/// Hands out parameter tokens; `next` is the position of the next parameter.
#[derive(Clone, Copy, Debug, PartialEq, Eq, Structural)]
pub struct PlaceholderCounter {
    pub style: PlaceholderStyle,
    pub next: u64,
}

pub open spec fn strings_model(v: Seq<String>) -> Seq<Seq<char>> {
    v.map_values(|s: String| s@)
}

pub fn token(style: PlaceholderStyle, index: u64) -> (r: String)
    ensures
        r@ == placeholder_token(style, index as nat),
{
    match style {
        PlaceholderStyle::Positional => {
            proof {
                reveal_strlit("?");
            }
            String::from_str("?")
        },
        PlaceholderStyle::Numbered => {
            proof {
                reveal_strlit("$");
            }
            let digits = decimal(index);
            String::from_str("$").concat(digits.as_str())
        },
    }
}

impl PlaceholderCounter {
    /// A counter whose first parameter has position one.
    pub fn new(style: PlaceholderStyle) -> (r: PlaceholderCounter)
        ensures
            r.style == style,
            r.next == 1,
    {
        PlaceholderCounter { style, next: 1 }
    }

    /// The tokens for the next `n` parameters; the counter moves on by `n`.
    pub fn take(&mut self, n: usize) -> (r: Vec<String>)
        requires
            old(self).next + n <= u64::MAX,
        ensures
            r@.len() == n,
            strings_model(r@) == placeholder_run(old(self).style, old(self).next as nat, n as nat),
            final(self).style == old(self).style,
            final(self).next == old(self).next + n,
    {
        let mut out: Vec<String> = Vec::new();
        let mut i: usize = 0;
        while i < n
            invariant
                i <= n,
                self.next + n <= u64::MAX,
                out@.len() == i,
                forall|j: int|
                    0 <= j < i ==> #[trigger] out@[j]@ == placeholder_token(
                        self.style,
                        (self.next + j) as nat,
                    ),
            decreases n - i,
        {
            out.push(token(self.style, self.next + i as u64));
            i = i + 1;
        }
        assert(strings_model(out@) =~= placeholder_run(self.style, self.next as nat, n as nat));
        self.next = self.next + n as u64;
        out
    }
}

/// One token for each key, numbered from one: what a database handle hands out
/// for a statement whose parameters are `keys`.
pub fn placeholders(style: PlaceholderStyle, keys: &Vec<String>) -> (r: Vec<String>)
    requires
        keys@.len() < u64::MAX,
    ensures
        strings_model(r@) == placeholder_run(style, 1, keys@.len()),
{
    let mut counter = PlaceholderCounter::new(style);
    counter.take(keys.len())
}

/// Counting on: the tokens for `a + b` parameters from `start` are the tokens
/// for the first `a`, then those for `b` more from `start + a`.
pub proof fn lemma_placeholder_run_concat(style: PlaceholderStyle, start: nat, a: nat, b: nat)
    ensures
        placeholder_run(style, start, a + b) == placeholder_run(style, start, a) + placeholder_run(
            style,
            start + a,
            b,
        ),
{
    assert(placeholder_run(style, start, a + b) =~= placeholder_run(style, start, a) + placeholder_run(
        style,
        start + a,
        b,
    ));
}

/// The positional style writes `?` for every parameter; the numbered style
/// writes `$1` ... `$N` for a statement's own parameters.
pub proof fn lemma_placeholder_tokens(n: nat)
    ensures
        forall|i: int| 0 <= i < n ==> #[trigger] placeholder_run(PlaceholderStyle::Positional, 1, n)[i] == "?"@,
        forall|i: int|
            0 <= i < n ==> #[trigger] placeholder_run(PlaceholderStyle::Numbered, 1, n)[i] == "$"@ + decimal_digits(
                (i + 1) as nat,
            ),
        placeholder_run(PlaceholderStyle::Positional, 1, n).len() == n,
        placeholder_run(PlaceholderStyle::Numbered, 1, n).len() == n,
{
}

} // verus!
