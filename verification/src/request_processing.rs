//! The user's side of the framework: a `RequestProcessor` turns each request
//! into its response. The example processor describes a number in words.
use std::sync::Arc;
use vstd::arithmetic::power::{lemma_pow_positive, pow};
use vstd::prelude::*;
use vstd::string::StringExecFns;

verus! {

/// Computes the response to a request. Users of the framework implement it.
pub trait RequestProcessor<Req, Resp> {
    /// Whether `response` is an answer that this processor gives to `request`.
    /// A processor that does not say admits any response.
    open spec fn responds(&self, request: Req, response: Resp) -> bool {
        true
    }

    fn process(&self, request: &Req) -> (response: Resp)
        ensures
            self.responds(*request, response),
    ;
}

/// A reference answers as the processor it refers to.
impl<'a, Req, Resp, P: RequestProcessor<Req, Resp>> RequestProcessor<Req, Resp> for &'a P {
    open spec fn responds(&self, request: Req, response: Resp) -> bool {
        (**self).responds(request, response)
    }

    fn process(&self, request: &Req) -> Resp {
        (**self).process(request)
    }
}

/// A box answers as the processor it holds.
impl<Req, Resp, P: RequestProcessor<Req, Resp>> RequestProcessor<Req, Resp> for Box<P> {
    open spec fn responds(&self, request: Req, response: Resp) -> bool {
        (**self).responds(request, response)
    }

    fn process(&self, request: &Req) -> Resp {
        (**self).process(request)
    }
}

/// A shared pointer answers as the processor it shares.
impl<Req, Resp, P: RequestProcessor<Req, Resp>> RequestProcessor<Req, Resp> for Arc<P> {
    open spec fn responds(&self, request: Req, response: Resp) -> bool {
        (**self).responds(request, response)
    }

    fn process(&self, request: &Req) -> Resp {
        (**self).process(request)
    }
}

/// The decimal digit `d` as a character.
pub open spec fn digit_char(d: nat) -> char {
    if d == 0 {
        '0'
    } else if d == 1 {
        '1'
    } else if d == 2 {
        '2'
    } else if d == 3 {
        '3'
    } else if d == 4 {
        '4'
    } else if d == 5 {
        '5'
    } else if d == 6 {
        '6'
    } else if d == 7 {
        '7'
    } else if d == 8 {
        '8'
    } else {
        '9'
    }
}

/// `n` written in decimal, without leading zeros.
pub open spec fn decimal(n: nat) -> Seq<char>
    decreases n,
{
    if n < 10 {
        seq![digit_char(n)]
    } else {
        decimal(n / 10).push(digit_char(n % 10))
    }
}

/// The digit character of `d` is the character `'0' + d`.
pub proof fn lemma_digit_char_code(d: nat)
    requires
        d < 10,
    ensures
        digit_char(d) as int == '0' as int + d,
{
}

/// `decimal(n)` is `n` in base 10: every character is an ASCII digit, the
/// character `i` places from the end is `'0' + (n / 10^i) % 10`, and there
/// are no leading zeros (`n < 10^len`, and `10^(len-1) <= n` unless `n` is a
/// single digit).
pub proof fn lemma_decimal_denotes(n: nat)
    ensures
        decimal(n).len() >= 1,
        n < pow(10, decimal(n).len()),
        decimal(n).len() > 1 ==> pow(10, (decimal(n).len() - 1) as nat) <= n,
        forall|i: int|
            0 <= i < decimal(n).len() ==> #[trigger] decimal(n)[decimal(n).len() - 1 - i] as int
                == '0' as int + (n as int / pow(10, i as nat)) % 10,
    decreases n,
{
    reveal(pow);
    let s = decimal(n);
    if n < 10 {
        lemma_digit_char_code(n);
        assert(pow(10, 1) == 10 * pow(10, 0));
        assert forall|i: int| 0 <= i < s.len() implies #[trigger] s[s.len() - 1 - i] as int == '0' as int
            + (n as int / pow(10, i as nat)) % 10 by {
            assert(i == 0);
            assert(pow(10, 0) == 1);
        }
    } else {
        let q = n / 10;
        let t = decimal(q);
        lemma_decimal_denotes(q);
        lemma_digit_char_code(n % 10);
        assert(s == t.push(digit_char(n % 10)));
        let k = t.len();
        lemma_pow_positive(10, k);
        assert(pow(10, k + 1) == 10 * pow(10, k));
        assert(n < pow(10, k + 1)) by (nonlinear_arith)
            requires
                q < pow(10, k),
                q == n / 10,
                pow(10, k + 1) == 10 * pow(10, k),
        ;
        if k > 1 {
            assert(pow(10, k) == 10 * pow(10, (k - 1) as nat));
            assert(pow(10, k) <= n) by (nonlinear_arith)
                requires
                    pow(10, (k - 1) as nat) <= q,
                    q == n / 10,
                    pow(10, k) == 10 * pow(10, (k - 1) as nat),
            ;
        } else {
            assert(pow(10, 1) == 10 * pow(10, 0));
        }
        assert forall|i: int| 0 <= i < s.len() implies #[trigger] s[s.len() - 1 - i] as int == '0' as int
            + (n as int / pow(10, i as nat)) % 10 by {
            if i == 0 {
                assert(pow(10, 0) == 1);
            } else {
                assert(s[s.len() - 1 - i] == t[k - 1 - (i - 1)]);
                let p = pow(10, (i - 1) as nat);
                lemma_pow_positive(10, (i - 1) as nat);
                assert(pow(10, i as nat) == 10 * p);
                vstd::arithmetic::div_mod::lemma_div_denominator(n as int, 10, p);
            }
        }
    }
}

/// The sentence that describes `n`.
pub open spec fn number_description(n: nat) -> Seq<char> {
    "The number is: "@ + decimal(n)
}

/// The one-character string of digit `d`.
fn digit_str(d: u32) -> (s: &'static str)
    requires
        d < 10,
    ensures
        s@ == seq![digit_char(d as nat)],
{
    if d == 0 {
        proof { reveal_strlit("0"); }
        "0"
    } else if d == 1 {
        proof { reveal_strlit("1"); }
        "1"
    } else if d == 2 {
        proof { reveal_strlit("2"); }
        "2"
    } else if d == 3 {
        proof { reveal_strlit("3"); }
        "3"
    } else if d == 4 {
        proof { reveal_strlit("4"); }
        "4"
    } else if d == 5 {
        proof { reveal_strlit("5"); }
        "5"
    } else if d == 6 {
        proof { reveal_strlit("6"); }
        "6"
    } else if d == 7 {
        proof { reveal_strlit("7"); }
        "7"
    } else if d == 8 {
        proof { reveal_strlit("8"); }
        "8"
    } else {
        proof { reveal_strlit("9"); }
        "9"
    }
}

/// Appends `n` in decimal to `text`.
pub fn push_decimal(text: &mut String, n: u32)
    ensures
        final(text)@ == old(text)@ + decimal(n as nat),
    decreases n,
{
    if n >= 10 {
        push_decimal(text, n / 10);
    }
    text.append(digit_str(n % 10));
    proof {
        if n >= 10 {
            assert(old(text)@ + decimal(n as nat) =~= old(text)@ + decimal((n / 10) as nat) + seq![
                digit_char((n % 10) as nat),
            ]);
        } else {
            assert(n % 10 == n);
        }
    }
}

/// The sentence that describes `i`: "The number is: " and `i` in decimal.
pub fn convert_int_to_string(i: &u32) -> (text: String)
    ensures
        text@ == number_description(*i as nat),
{
    let mut text = String::new();
    text.append("The number is: ");
    push_decimal(&mut text, *i);
    text
}

/// The example processor: answers a number with a sentence about it.
pub struct IntToStringConverter {}

impl IntToStringConverter {
    pub fn new() -> (converter: Self)
        ensures
            converter == (IntToStringConverter {}),
    {
        IntToStringConverter {  }
    }
}

impl RequestProcessor<u32, String> for IntToStringConverter {
    open spec fn responds(&self, request: u32, response: String) -> bool {
        response@ == number_description(request as nat)
    }

    fn process(&self, request: &u32) -> (response: String)
        ensures
            response@ == number_description(*request as nat),
    {
        convert_int_to_string(request)
    }
}

} // verus!
