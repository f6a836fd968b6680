//! An exact decimal number: sign, integer mantissa and scale, standing for
//! `(-1)^negative * mantissa / 10^scale`. It carries the price-impact
//! percentage and the elapsed-time field without any floating-point rounding,
//! and has an exact string codec: digits, an optional leading minus, and a
//! point when the scale is positive.

use crate::digits::all_digits;
use crate::digits::dec_of;
use crate::digits::dec_val;
use crate::digits::is_digit;
use crate::digits::lemma_dec_of_val;
use crate::digits::lemma_dec_val_pad;
use crate::digits::parse_u128_digits;
use crate::digits::u128_to_dec;
use vstd::prelude::*;

verus! {

/// The largest mantissa the type admits: ninety-six bits, all ones.
pub const MAX_MANTISSA: u128 = 79228162514264337593543950335;

/// The largest scale the type admits.
pub const MAX_SCALE: u32 = 28;

/// An exact decimal value.
#[derive(Clone, Copy, PartialEq, Eq, Structural, Debug)]
pub struct Decimal {
    /// True for a value rendered with a leading minus.
    pub negative: bool,
    /// The digits of the value, as one integer.
    pub mantissa: u128,
    /// How many of the mantissa's digits fall behind the point.
    pub scale: u32,
}

impl Decimal {
    /// The bounds every value of this type keeps.
    pub open spec fn wf(&self) -> bool {
        self.mantissa <= MAX_MANTISSA && self.scale <= MAX_SCALE
    }

    /// The decimal zero, rendered as a bare `0`.
    pub fn zero() -> (r: Decimal)
        ensures
            r == (Decimal { negative: false, mantissa: 0, scale: 0 }),
            r.wf(),
    {
        Decimal { negative: false, mantissa: 0, scale: 0 }
    }

    /// Builds a value when the parts lie within bounds.
    pub fn new(negative: bool, mantissa: u128, scale: u32) -> (r: Option<Decimal>)
        ensures
            match r {
                Some(d) => d == (Decimal { negative, mantissa, scale }) && d.wf(),
                None => mantissa > MAX_MANTISSA || scale > MAX_SCALE,
            },
    {
        if mantissa <= MAX_MANTISSA && scale <= MAX_SCALE {
            Some(Decimal { negative, mantissa, scale })
        } else {
            None
        }
    }
}

/// A run of zero characters.
pub open spec fn zeros(k: nat) -> Seq<char> {
    Seq::new(k, |i: int| '0')
}

/// The digit-and-point rendering of a mantissa at a scale: the mantissa's
/// digits, left-padded with zeros until a digit stands before the point,
/// with the point inserted when the scale is positive.
pub open spec fn spec_digits_with_point(m: nat, scale: nat) -> Seq<char> {
    let ds = dec_of(m);
    let padded = if ds.len() >= scale + 1 {
        ds
    } else {
        zeros((scale + 1 - ds.len()) as nat) + ds
    };
    if scale == 0 {
        padded
    } else {
        padded.take(padded.len() - scale) + seq!['.'] + padded.skip(padded.len() - scale)
    }
}

/// The full rendering of a decimal value, sign included.
pub open spec fn spec_decimal_str(d: Decimal) -> Seq<char> {
    if d.negative {
        seq!['-'] + spec_digits_with_point(d.mantissa as nat, d.scale as nat)
    } else {
        spec_digits_with_point(d.mantissa as nat, d.scale as nat)
    }
}

/// The position of the first point character at or after `i`, or minus one.
pub open spec fn find_dot(s: Seq<char>, i: int) -> int
    decreases s.len() - i,
{
    if i < 0 || i >= s.len() {
        -1
    } else if s[i] == '.' {
        i
    } else {
        find_dot(s, i + 1)
    }
}

/// What a wire string means as a decimal value: an optional leading minus,
/// then either bare digits, or digits, a point and more digits, with the
/// scale read off the digits behind the point. Anything else means nothing.
pub open spec fn spec_parse_decimal(s: Seq<char>) -> Option<Decimal> {
    let neg = s.len() > 0 && s[0] == '-';
    let body = if neg {
        s.skip(1)
    } else {
        s
    };
    let p = find_dot(body, 0);
    if p == -1 {
        if body.len() > 0 && all_digits(body) && dec_val(body) <= MAX_MANTISSA {
            Some(Decimal { negative: neg, mantissa: dec_val(body) as u128, scale: 0 })
        } else {
            None
        }
    } else {
        let ip = body.take(p);
        let fp = body.skip(p + 1);
        if ip.len() > 0 && fp.len() > 0 && all_digits(ip) && all_digits(fp) && fp.len()
            <= MAX_SCALE as nat && dec_val(ip + fp) <= MAX_MANTISSA {
            Some(
                Decimal {
                    negative: neg,
                    mantissa: dec_val(ip + fp) as u128,
                    scale: fp.len() as u32,
                },
            )
        } else {
            None
        }
    }
}

/// Where no point stands at or after `i`, the search reports minus one.
proof fn lemma_find_dot_none(s: Seq<char>, i: int)
    requires
        forall|j: int| i <= j < s.len() ==> s[j] != '.',
    ensures
        find_dot(s, i) == -1,
    decreases s.len() - i,
{
    if 0 <= i < s.len() {
        lemma_find_dot_none(s, i + 1);
    }
}

/// Where the first point at or after `i` stands at `k`, the search reports `k`.
proof fn lemma_find_dot_found(s: Seq<char>, i: int, k: int)
    requires
        0 <= i <= k < s.len(),
        s[k] == '.',
        forall|j: int| i <= j < k ==> s[j] != '.',
    ensures
        find_dot(s, i) == k,
    decreases k - i,
{
    if i < k {
        lemma_find_dot_found(s, i + 1, k);
    }
}

impl Decimal {
    /// Renders the value for the wire.
    pub fn to_wire(&self) -> (r: String)
        requires
            self.wf(),
        ensures
            r@ =~= spec_decimal_str(*self),
    {
        proof {
            reveal_strlit("-");
            reveal_strlit(".");
            reveal_strlit("0");
            reveal_strlit("0.");
            lemma_dec_of_val(self.mantissa as nat);
        }
        let ds = u128_to_dec(self.mantissa);
        let len = ds.as_str().unicode_len();
        let mut out = String::new();
        if self.negative {
            out.append("-");
        }
        let scale = self.scale as usize;
        if scale == 0 {
            out.append(ds.as_str());
        } else if len > scale {
            out.append(ds.as_str().substring_char(0, len - scale));
            out.append(".");
            out.append(ds.as_str().substring_char(len - scale, len));
            proof {
                let padded = dec_of(self.mantissa as nat);
                assert(padded.take(padded.len() - self.scale) =~= ds@.subrange(
                    0,
                    len - scale,
                ));
                assert(padded.skip(padded.len() - self.scale) =~= ds@.subrange(
                    len - scale as int,
                    len as int,
                ));
            }
        } else {
            out.append("0.");
            let mut k: usize = 0;
            while k < scale - len
                invariant
                    0 <= k <= scale - len,
                    len == ds@.len(),
                    len <= scale,
                    out@ =~= (if self.negative {
                        seq!['-']
                    } else {
                        Seq::<char>::empty()
                    }) + seq!['0', '.'] + zeros(k as nat),
                decreases scale - len - k,
            {
                proof {
                    reveal_strlit("0");
                }
                out.append("0");
                proof {
                    assert(zeros((k + 1) as nat) =~= zeros(k as nat) + seq!['0']);
                }
                k = k + 1;
            }
            out.append(ds.as_str());
            proof {
                let ds_s = dec_of(self.mantissa as nat);
                let padded = zeros((self.scale + 1 - ds_s.len()) as nat) + ds_s;
                assert(padded.len() == self.scale + 1);
                assert(padded.take(padded.len() - self.scale) =~= seq!['0']);
                assert(padded.skip(padded.len() - self.scale) =~= zeros(
                    (self.scale - ds_s.len()) as nat,
                ) + ds_s);
            }
        }
        out
    }

    /// Reads a wire string as a decimal value; `None` exactly where the
    /// string means nothing as one.
    pub fn from_wire(s: &str) -> (r: Option<Decimal>)
        ensures
            match r {
                Some(d) => spec_parse_decimal(s@) == Some(d) && d.wf(),
                None => spec_parse_decimal(s@) is None,
            },
    {
        let n = s.unicode_len();
        let neg = n > 0 && s.get_char(0) == '-';
        let start: usize = if neg {
            1
        } else {
            0
        };
        let ghost body = if neg {
            s@.skip(1)
        } else {
            s@
        };
        assert(body =~= s@.subrange(start as int, n as int));
        let mut i: usize = start;
        let mut dot: usize = n;
        while i < n && dot == n
            invariant
                start <= i <= n,
                n == s@.len(),
                dot <= n,
                dot == n ==> forall|j: int| start <= j < i ==> s@[j] != '.',
                dot < n ==> start <= dot && s@[dot as int] == '.' && forall|j: int|
                    start <= j < dot ==> s@[j] != '.',
            decreases n - i, (if dot == n { 1int } else { 0int }),
        {
            if s.get_char(i) == '.' {
                dot = i;
            } else {
                i = i + 1;
            }
        }
        if dot == n {
            proof {
                lemma_find_dot_none(body, 0);
            }
            if n == start {
                return None;
            }
            let bstr = s.substring_char(start, n);
            assert(bstr@ =~= body);
            match parse_u128_digits(bstr) {
                Some(v) => {
                    if v <= MAX_MANTISSA {
                        Some(Decimal { negative: neg, mantissa: v, scale: 0 })
                    } else {
                        None
                    }
                },
                None => None,
            }
        } else {
            proof {
                lemma_find_dot_found(body, 0, dot - start);
            }
            let p = dot - start;
            if p == 0 || dot + 1 == n {
                return None;
            }
            let ip = s.substring_char(start, dot);
            let fp = s.substring_char(dot + 1, n);
            assert(ip@ =~= body.take(p as int));
            assert(fp@ =~= body.skip(p + 1));
            let mut comb = ip.to_owned();
            comb.append(fp);
            assert(comb@ =~= body.take(p as int) + body.skip(p + 1));
            let fplen = n - (dot + 1);
            match parse_u128_digits(comb.as_str()) {
                Some(v) => {
                    proof {
                        assert forall|j: int| 0 <= j < ip@.len() implies is_digit(
                            #[trigger] ip@[j],
                        ) by {
                            assert(comb@[j] == ip@[j]);
                        }
                        assert forall|j: int| 0 <= j < fp@.len() implies is_digit(
                            #[trigger] fp@[j],
                        ) by {
                            assert(comb@[ip@.len() + j] == fp@[j]);
                        }
                    }
                    if v <= MAX_MANTISSA && fplen <= MAX_SCALE as usize {
                        Some(Decimal { negative: neg, mantissa: v, scale: fplen as u32 })
                    } else {
                        None
                    }
                },
                None => {
                    proof {
                        if all_digits(body.take(p as int)) && all_digits(body.skip(p + 1)) {
                            assert(all_digits(comb@));
                        }
                        assert(comb@.len() > 0);
                    }
                    None
                },
            }
        }
    }
}

/// Rendering a well-formed decimal and parsing the text back gives the same
/// value, sign, mantissa and scale alike.
#[verifier::rlimit(80)]
pub proof fn lemma_decimal_round_trip(d: Decimal)
    requires
        d.wf(),
    ensures
        spec_parse_decimal(spec_decimal_str(d)) == Some(d),
{
    lemma_dec_of_val(d.mantissa as nat);
    let ds = dec_of(d.mantissa as nat);
    let sc = d.scale as nat;
    let s = spec_decimal_str(d);
    let body = if d.negative {
        s.skip(1)
    } else {
        s
    };
    assert(body =~= spec_digits_with_point(d.mantissa as nat, sc));
    if sc == 0 {
        assert(body =~= ds);
        assert(s[0] == '-' <==> d.negative) by {
            if !d.negative {
                assert(is_digit(body[0]));
            }
        }
        lemma_find_dot_none(body, 0);
    } else {
        let padded = if ds.len() >= sc + 1 {
            ds
        } else {
            zeros((sc + 1 - ds.len()) as nat) + ds
        };
        let cut = padded.len() - sc;
        assert(all_digits(padded)) by {
            assert forall|i: int| 0 <= i < padded.len() implies is_digit(#[trigger] padded[i]) by {
                if ds.len() < sc + 1 && i < padded.len() - ds.len() {
                    assert(padded[i] == '0');
                } else {
                    assert(padded[i] == ds[i - (padded.len() - ds.len())]);
                }
            }
        }
        assert(body =~= padded.take(cut) + seq!['.'] + padded.skip(cut));
        assert(cut >= 1);
        assert(s[0] == '-' <==> d.negative) by {
            if !d.negative {
                assert(body[0] == padded[0]);
                assert(is_digit(body[0]));
            }
        }
        assert(body[cut] == '.');
        assert forall|j: int| 0 <= j < cut implies body[j] != '.' by {
            assert(body[j] == padded[j]);
            assert(is_digit(padded[j]));
        }
        lemma_find_dot_found(body, 0, cut);
        let ip = body.take(cut);
        let fp = body.skip(cut + 1);
        assert(ip =~= padded.take(cut));
        assert(fp =~= padded.skip(cut));
        assert(ip + fp =~= padded);
        assert(dec_val(padded) == d.mantissa) by {
            if ds.len() < sc + 1 {
                lemma_dec_val_pad(zeros((sc + 1 - ds.len()) as nat), ds);
            }
        }
        assert(all_digits(ip)) by {
            assert(forall|j: int| 0 <= j < ip.len() ==> #[trigger] ip[j] == padded[j]);
        }
        assert(all_digits(fp)) by {
            assert(forall|j: int| 0 <= j < fp.len() ==> #[trigger] fp[j] == padded[cut + j]);
        }
        assert(fp.len() == sc);
        assert(spec_parse_decimal(s) == Some(d));
    }
}

} // verus!
