//! Prices, and the reading of a price out of the token that stands for it in
//! a message.
//!
//! A price is a decimal amount, counted in millionths of a unit. A token is a
//! run of digits with at most one decimal point; a currency symbol `$` and
//! thousands separators `,` in it are dropped, and a trailing `k` multiplies
//! the amount by a thousand. What a token holds beyond the millionth is
//! rounded to the nearest millionth, a half to the even one.

use crate::chars::chars_of;
use crate::rates::nearest;
use vstd::arithmetic::div_mod::lemma_fundamental_div_mod_converse;
use vstd::prelude::*;

verus! {

/// The number of millionths in one unit.
pub const MICROS_PER_UNIT: u128 = 1_000_000;

/// The largest amount, in millionths, that a price can hold. Twice this
/// amount still fits in 128 bits, so the sum of two prices never overflows.
pub const MAX_MICROS: u128 = 0x7fff_ffff_ffff_ffff_ffff_ffff_ffff_ffff;

/// The number of fractional digits of a plain token that are kept.
pub const PLAIN_DECIMALS: usize = 6;

/// The number of fractional digits of a token with a `k` suffix that are
/// kept: three more, since the suffix moves the point three places.
pub const KILO_DECIMALS: usize = 9;

/// A non-negative amount of at most `MAX_MICROS` millionths.
#[derive(Clone, Copy, Debug, PartialEq, Eq, Structural)]
pub struct Price {
    micros: u128,
}

impl Price {
    #[verifier::type_invariant]
    spec fn in_range(self) -> bool {
        self.micros <= MAX_MICROS
    }

    /// The amount in millionths.
    pub closed spec fn amount(self) -> nat {
        self.micros as nat
    }

    /// The price of `micros` millionths, if that is within range.
    pub fn from_micros(micros: u128) -> (price: Option<Price>)
        ensures
            price is Some <==> micros <= MAX_MICROS,
            price matches Some(p) ==> p.amount() == micros,
    {
        if micros <= MAX_MICROS {
            Some(Price { micros })
        } else {
            None
        }
    }

    /// The amount in millionths.
    pub fn micros(&self) -> (micros: u128)
        ensures
            micros == self.amount(),
            micros <= MAX_MICROS,
    {
        proof {
            use_type_invariant(self);
        }
        self.micros
    }
}

/// The price of `amount` millionths, for an amount of at most `MAX_MICROS`.
pub closed spec fn price_of_amount(amount: nat) -> Price {
    Price { micros: amount as u128 }
}

/// Two prices with the same amount are the same price.
pub proof fn price_is_its_amount(a: Price, b: Price)
    requires
        a.amount() == b.amount(),
    ensures
        a == b,
{
}

/// A price is the price of its amount, and the price of an amount in range
/// has that amount.
pub proof fn price_of_amount_is_inverse(p: Price, amount: nat)
    ensures
        price_of_amount(p.amount()) == p,
        amount <= MAX_MICROS ==> price_of_amount(amount).amount() == amount,
{
}

/// Whether `c` is one of the ten decimal digits of ASCII.
pub open spec fn is_digit(c: char) -> bool {
    '0' <= c && c <= '9'
}

/// The number that the digit `c` stands for.
pub open spec fn digit_value(c: char) -> nat {
    (c as nat - '0' as nat) as nat
}

/// Whether `s` holds digits alone.
pub open spec fn all_digits(s: Seq<char>) -> bool {
    forall|i: int| 0 <= i < s.len() ==> is_digit(#[trigger] s[i])
}

/// The number that the decimal digits `s` write; the empty sequence writes 0.
pub open spec fn digits_value(s: Seq<char>) -> nat
    decreases s.len(),
{
    if s.len() == 0 {
        0
    } else {
        digits_value(s.drop_last()) * 10 + digit_value(s.last())
    }
}

/// Whether `c` is one of the symbols that a token may carry without meaning.
pub open spec fn is_symbol(c: char) -> bool {
    c == '$' || c == ','
}

/// `token` without its `$` and `,` characters.
pub open spec fn without_symbols(token: Seq<char>) -> Seq<char> {
    token.filter(|c: char| !is_symbol(c))
}

/// Whether `s` ends in the thousands suffix, in either case.
pub open spec fn has_kilo_suffix(s: Seq<char>) -> bool {
    s.len() > 0 && (s.last() == 'k' || s.last() == 'K')
}

/// Whether `body` has its only decimal point at `p`, with digits alone on
/// both sides.
pub open spec fn splits_at(body: Seq<char>, p: int) -> bool {
    &&& 0 <= p < body.len()
    &&& body[p] == '.'
    &&& all_digits(body.take(p))
    &&& all_digits(body.skip(p + 1))
}

/// The digits before and after the decimal point of `body`, where `body` is a
/// decimal literal: at least one digit, and at most one point.
pub open spec fn decimal_parts(body: Seq<char>) -> Option<(Seq<char>, Seq<char>)> {
    if body.len() > 0 && all_digits(body) {
        Some((body, Seq::empty()))
    } else if body.len() > 1 && exists|p: int| splits_at(body, p) {
        let p = choose|p: int| splits_at(body, p);
        Some((body.take(p), body.skip(p + 1)))
    } else {
        None
    }
}

/// The first `decimals` digits of `frac`, filled up with zeros.
pub open spec fn padded(frac: Seq<char>, decimals: nat) -> Seq<char> {
    Seq::new(
        decimals,
        |i: int|
            if i < frac.len() {
                frac[i]
            } else {
                '0'
            },
    )
}

/// Ten to the power of `n`.
pub open spec fn pow10(n: nat) -> nat
    decreases n,
{
    if n == 0 {
        1
    } else {
        10 * pow10((n - 1) as nat)
    }
}

/// The number that the digits `whole`, a point and the digits `frac` write,
/// with the point moved `decimals` places to the right, as a whole number:
/// exact where `frac` has no more than `decimals` digits, else rounded to the
/// nearest whole number, a half to the even one.
pub open spec fn rounded_digits(whole: Seq<char>, frac: Seq<char>, decimals: nat) -> nat {
    if frac.len() <= decimals {
        digits_value(whole + padded(frac, decimals))
    } else {
        nearest(digits_value(whole + frac), pow10((frac.len() - decimals) as nat))
    }
}

/// The amount that the decimal literal `body` stands for, with its point
/// moved `decimals` places to the right and rounded to a whole number: none
/// if `body` is no decimal literal, or if the amount is above `MAX_MICROS`.
pub open spec fn scaled_amount(body: Seq<char>, decimals: nat) -> Option<nat> {
    match decimal_parts(body) {
        None => None,
        Some((whole, frac)) => {
            let n = rounded_digits(whole, frac, decimals);
            if n <= MAX_MICROS {
                Some(n)
            } else {
                None
            }
        },
    }
}

/// The amount in millionths that `token` stands for, if it stands for one.
pub open spec fn token_amount(token: Seq<char>) -> Option<nat> {
    let stripped = without_symbols(token);
    if has_kilo_suffix(stripped) {
        scaled_amount(stripped.drop_last(), KILO_DECIMALS as nat)
    } else {
        scaled_amount(stripped, PLAIN_DECIMALS as nat)
    }
}

proof fn lemma_digits_value_push(s: Seq<char>, c: char)
    ensures
        digits_value(s.push(c)) == digits_value(s) * 10 + digit_value(c),
{
    assert(s.push(c).drop_last() == s);
}

proof fn lemma_pow10_is_positive(n: nat)
    ensures
        pow10(n) > 0,
    decreases n,
{
    if n > 0 {
        lemma_pow10_is_positive((n - 1) as nat);
    }
}

/// The digits `a` followed by the digits `b` write the number of `a`, moved
/// left by the length of `b`, plus the number of `b`.
proof fn lemma_digits_value_concat(a: Seq<char>, b: Seq<char>)
    ensures
        digits_value(a + b) == digits_value(a) * pow10(b.len()) + digits_value(b),
    decreases b.len(),
{
    if b.len() == 0 {
        assert(a + b == a);
        assert(pow10(0) == 1);
        assert(digits_value(a) * 1 == digits_value(a)) by (nonlinear_arith);
    } else {
        let front = b.drop_last();
        lemma_digits_value_concat(a, front);
        assert((a + b).drop_last() == a + front);
        assert((a + b).last() == b.last());
        let x = digits_value(a);
        let y = pow10(front.len());
        let f = digits_value(front);
        let d = digit_value(b.last());
        assert(digits_value(a + b) == (x * y + f) * 10 + d);
        assert(digits_value(b) == f * 10 + d);
        assert(pow10(b.len()) == 10 * y);
        assert((x * y + f) * 10 == x * (10 * y) + f * 10) by (nonlinear_arith);
        assert(digits_value(a + b) == x * pow10(b.len()) + digits_value(b));
    }
}

/// As many digits write a number below ten to that many.
proof fn lemma_digits_value_bound(s: Seq<char>)
    requires
        all_digits(s),
    ensures
        digits_value(s) < pow10(s.len()),
    decreases s.len(),
{
    if s.len() > 0 {
        lemma_digits_value_bound(s.drop_last());
        assert(is_digit(s[s.len() - 1]));
    }
}

/// Digits write zero exactly if they are all zeros.
proof fn lemma_digits_value_zero(s: Seq<char>)
    requires
        all_digits(s),
    ensures
        digits_value(s) == 0 <==> forall|i: int| 0 <= i < s.len() ==> s[i] == '0',
    decreases s.len(),
{
    if s.len() > 0 {
        let front = s.drop_last();
        lemma_digits_value_zero(front);
        assert(is_digit(s[s.len() - 1]));
        if digits_value(s) == 0 {
            assert forall|i: int| 0 <= i < s.len() implies s[i] == '0' by {
                if i < s.len() - 1 {
                    assert(front[i] == s[i]);
                }
            }
        } else {
            if forall|i: int| 0 <= i < s.len() ==> s[i] == '0' {
                assert forall|i: int| 0 <= i < front.len() implies front[i] == '0' by {
                    assert(front[i] == s[i]);
                }
            }
        }
    }
}

/// Whether digits are cut off to the next higher number: where the first
/// digit cut off is above five, or is five and either something other than
/// zero follows it or the number kept is odd.
spec fn rounds_up(kept: nat, tail: Seq<char>) -> bool {
    tail[0] > '5' || (tail[0] == '5' && ((exists|j: int| 1 <= j < tail.len() && tail[j] != '0')
        || kept % 2 == 1))
}

/// Rounding by the digits cut off is rounding to the nearest number.
proof fn lemma_rounding_by_digits(kept: Seq<char>, tail: Seq<char>)
    requires
        all_digits(tail),
        tail.len() >= 1,
    ensures
        nearest(digits_value(kept + tail), pow10(tail.len())) == if rounds_up(
            digits_value(kept),
            tail,
        ) {
            digits_value(kept) + 1
        } else {
            digits_value(kept)
        },
{
    let k = digits_value(kept);
    let t = digits_value(tail);
    let big = pow10(tail.len());
    let rest = tail.skip(1);
    let small = pow10(rest.len());
    let lead = digit_value(tail[0]);
    let r = digits_value(rest);
    lemma_digits_value_concat(kept, tail);
    lemma_digits_value_bound(tail);
    lemma_pow10_is_positive(tail.len());
    lemma_fundamental_div_mod_converse((k * big + t) as int, big as int, k as int, t as int);
    assert(tail == seq![tail[0]] + rest);
    lemma_digits_value_concat(seq![tail[0]], rest);
    assert(digits_value(seq![tail[0]]) == lead) by {
        reveal_with_fuel(digits_value, 2);
        assert(seq![tail[0]].drop_last().len() == 0);
    }
    assert(t == lead * small + r);
    assert(big == 10 * small);
    assert(all_digits(rest)) by {
        assert forall|i: int| 0 <= i < rest.len() implies is_digit(#[trigger] rest[i]) by {
            assert(rest[i] == tail[i + 1]);
        }
    }
    lemma_digits_value_bound(rest);
    lemma_digits_value_zero(rest);
    assert(is_digit(tail[0]));
    assert((r == 0) <==> !(exists|j: int| 1 <= j < tail.len() && tail[j] != '0')) by {
        if r == 0 {
            assert forall|j: int| 1 <= j < tail.len() implies tail[j] == '0' by {
                assert(rest[j - 1] == tail[j]);
            }
        } else {
            let i = choose|i: int| 0 <= i < rest.len() && rest[i] != '0';
            assert(tail[i + 1] != '0');
        }
    }
    if lead <= 4 {
        assert(2 * (lead * small + r) < 10 * small) by (nonlinear_arith)
            requires
                lead <= 4,
                r < small,
        ;
    } else if lead >= 6 {
        assert(2 * (lead * small + r) > 10 * small) by (nonlinear_arith)
            requires
                lead >= 6,
                small > 0,
                r >= 0,
        ;
    } else {
        assert(2 * (lead * small + r) == 10 * small + 2 * r) by (nonlinear_arith)
            requires
                lead == 5,
        ;
    }
}

fn is_digit_char(c: char) -> (b: bool)
    ensures
        b == is_digit(c),
{
    '0' <= c && c <= '9'
}

fn value_of_digit(c: char) -> (v: u128)
    requires
        is_digit(c),
    ensures
        v == digit_value(c),
        v <= 9,
{
    (c as u32 - '0' as u32) as u128
}

/// The decimal parts of a literal, from what a scan of it found: the digits
/// stop at `p`, and, where a point stands there, the digits after it stop at
/// `stop`.
proof fn lemma_decimal_parts(body: Seq<char>, p: int, stop: int)
    requires
        0 <= p <= body.len(),
        forall|i: int| 0 <= i < p ==> is_digit(#[trigger] body[i]),
        p < body.len() ==> !is_digit(body[p]),
        p < body.len() && body[p] == '.' ==> {
            &&& p < stop <= body.len()
            &&& forall|i: int| p < i < stop ==> is_digit(#[trigger] body[i])
            &&& stop < body.len() ==> !is_digit(body[stop])
        },
    ensures
        decimal_parts(body) == if p == body.len() {
            if p > 0 {
                Some((body, Seq::<char>::empty()))
            } else {
                None
            }
        } else if body[p] != '.' || stop < body.len() || body.len() == 1 {
            None
        } else {
            Some((body.take(p), body.skip(p + 1)))
        },
{
    if p == body.len() {
    } else {
        assert(!all_digits(body));
        let well_split = body[p] == '.' && stop == body.len();
        assert forall|q: int| splits_at(body, q) implies q == p && well_split by {
            if q < p {
                assert(is_digit(body[q]));
            } else if q > p {
                assert(body.take(q)[p] == body[p]);
            } else if stop < body.len() {
                assert(body.skip(q + 1)[stop - q - 1] == body[stop]);
            }
        }
        if well_split && body.len() > 1 {
            assert(all_digits(body.take(p)));
            assert(all_digits(body.skip(p + 1))) by {
                assert forall|i: int| 0 <= i < body.skip(p + 1).len() implies is_digit(
                    #[trigger] body.skip(p + 1)[i],
                ) by {
                    assert(is_digit(body[p + 1 + i]));
                }
            }
            assert(splits_at(body, p));
        }
    }
}

/// The first position from `from` on, below `end`, that holds no digit.
fn scan_digits(chars: &Vec<char>, from: usize, end: usize) -> (stop: usize)
    requires
        from <= end <= chars.len(),
    ensures
        from <= stop <= end,
        forall|i: int| from <= i < stop ==> is_digit(#[trigger] chars@[i]),
        stop < end ==> !is_digit(chars@[stop as int]),
{
    let mut stop: usize = from;
    while stop < end && is_digit_char(chars[stop])
        invariant
            from <= stop <= end <= chars.len(),
            forall|i: int| from <= i < stop ==> is_digit(#[trigger] chars@[i]),
        decreases end - stop,
    {
        stop += 1;
    }
    stop
}

/// So many zeros.
spec fn zeros(n: nat) -> Seq<char> {
    Seq::new(n, |i: int| '0')
}

/// Writes the digit `c` after the digits `sofar`, whose number is `acc`
/// unless `over` says that it is above `MAX_MICROS` already.
fn write_digit(acc: u128, over: bool, c: char, Ghost(sofar): Ghost<Seq<char>>) -> (r: (u128, bool))
    requires
        is_digit(c),
        over ==> digits_value(sofar) > MAX_MICROS,
        !over ==> acc == digits_value(sofar) && acc <= MAX_MICROS,
    ensures
        r.1 ==> digits_value(sofar.push(c)) > MAX_MICROS,
        !r.1 ==> r.0 == digits_value(sofar.push(c)) && r.0 <= MAX_MICROS,
{
    proof {
        lemma_digits_value_push(sofar, c);
    }
    let d = value_of_digit(c);
    if !over && acc <= (MAX_MICROS - d) / 10 {
        (acc * 10 + d, false)
    } else {
        (acc, true)
    }
}

/// Writes the digits of `chars` from `from` up to `to` after the digits
/// `sofar`.
fn write_digits(
    acc: u128,
    over: bool,
    chars: &Vec<char>,
    from: usize,
    to: usize,
    Ghost(sofar): Ghost<Seq<char>>,
) -> (r: (u128, bool))
    requires
        from <= to <= chars.len(),
        forall|i: int| from <= i < to ==> is_digit(#[trigger] chars@[i]),
        over ==> digits_value(sofar) > MAX_MICROS,
        !over ==> acc == digits_value(sofar) && acc <= MAX_MICROS,
    ensures
        r.1 ==> digits_value(sofar + chars@.subrange(from as int, to as int)) > MAX_MICROS,
        !r.1 ==> r.0 == digits_value(sofar + chars@.subrange(from as int, to as int)) && r.0
            <= MAX_MICROS,
{
    let mut acc = acc;
    let mut over = over;
    let mut k: usize = from;
    assert(sofar + chars@.subrange(from as int, from as int) == sofar);
    while k < to
        invariant
            from <= k <= to <= chars.len(),
            forall|i: int| from <= i < to ==> is_digit(#[trigger] chars@[i]),
            over ==> digits_value(sofar + chars@.subrange(from as int, k as int)) > MAX_MICROS,
            !over ==> acc == digits_value(sofar + chars@.subrange(from as int, k as int)) && acc
                <= MAX_MICROS,
        decreases to - k,
    {
        let c = chars[k];
        assert(sofar + chars@.subrange(from as int, k + 1) == (sofar + chars@.subrange(
            from as int,
            k as int,
        )).push(c));
        let next = write_digit(acc, over, c, Ghost(sofar + chars@.subrange(from as int, k as int)));
        acc = next.0;
        over = next.1;
        k += 1;
    }
    (acc, over)
}

/// Writes `count` zeros after the digits `sofar`.
fn write_zeros(acc: u128, over: bool, count: usize, Ghost(sofar): Ghost<Seq<char>>) -> (r: (
    u128,
    bool,
))
    requires
        over ==> digits_value(sofar) > MAX_MICROS,
        !over ==> acc == digits_value(sofar) && acc <= MAX_MICROS,
    ensures
        r.1 ==> digits_value(sofar + zeros(count as nat)) > MAX_MICROS,
        !r.1 ==> r.0 == digits_value(sofar + zeros(count as nat)) && r.0 <= MAX_MICROS,
{
    let mut acc = acc;
    let mut over = over;
    let mut k: usize = 0;
    assert(sofar + zeros(0) == sofar);
    while k < count
        invariant
            k <= count,
            over ==> digits_value(sofar + zeros(k as nat)) > MAX_MICROS,
            !over ==> acc == digits_value(sofar + zeros(k as nat)) && acc <= MAX_MICROS,
        decreases count - k,
    {
        assert(sofar + zeros((k + 1) as nat) == (sofar + zeros(k as nat)).push('0'));
        let next = write_digit(acc, over, '0', Ghost(sofar + zeros(k as nat)));
        acc = next.0;
        over = next.1;
        k += 1;
    }
    (acc, over)
}

/// Rounds the number `acc` of the digits `kept` by the digits of `chars`
/// from `from` up to `to`, which are cut off.
fn round_by_tail(
    acc: u128,
    over: bool,
    chars: &Vec<char>,
    from: usize,
    to: usize,
    Ghost(kept): Ghost<Seq<char>>,
) -> (r: Option<u128>)
    requires
        from < to <= chars.len(),
        forall|i: int| from <= i < to ==> is_digit(#[trigger] chars@[i]),
        over ==> digits_value(kept) > MAX_MICROS,
        !over ==> acc == digits_value(kept) && acc <= MAX_MICROS,
    ensures
        ({
            let tail = chars@.subrange(from as int, to as int);
            let n = nearest(digits_value(kept + tail), pow10(tail.len()));
            match r {
                Some(rounded) => rounded == n && n <= MAX_MICROS,
                None => n > MAX_MICROS,
            }
        }),
{
    let ghost tail = chars@.subrange(from as int, to as int);
    proof {
        lemma_rounding_by_digits(kept, tail);
    }
    let first = chars[from];
    assert(first == tail[0]);
    let mut rest_is_zero = true;
    let mut x: usize = from + 1;
    while x < to
        invariant
            from < x,
            to <= chars.len(),
            tail == chars@.subrange(from as int, to as int),
            rest_is_zero <==> forall|j: int| 1 <= j < x - from && j < tail.len() ==> tail[j] == '0',
        decreases to - x,
    {
        if chars[x] != '0' {
            assert(tail[x - from] != '0');
            rest_is_zero = false;
        }
        x += 1;
    }
    if over {
        return None;
    }
    let up = first > '5' || (first == '5' && (!rest_is_zero || acc % 2 == 1));
    assert(up == rounds_up(acc as nat, tail));
    if !up {
        Some(acc)
    } else if acc < MAX_MICROS {
        Some(acc + 1)
    } else {
        None
    }
}

/// Where the first `end` characters of `chars` are a decimal literal: the
/// end of the digits before the point, and the start of those after it.
fn split_decimal(chars: &Vec<char>, end: usize) -> (r: Option<(usize, usize)>)
    requires
        end <= chars.len(),
    ensures
        match r {
            Some((p, frac_start)) => {
                &&& p <= frac_start <= end
                &&& decimal_parts(chars@.take(end as int)) == Some(
                    (
                        chars@.subrange(0, p as int),
                        chars@.subrange(frac_start as int, end as int),
                    ),
                )
                &&& forall|i: int|
                    0 <= i < end && !(p <= i < frac_start) ==> is_digit(#[trigger] chars@[i])
            },
            None => decimal_parts(chars@.take(end as int)) is None,
        },
{
    let ghost body = chars@.take(end as int);
    let p = scan_digits(chars, 0, end);
    let point = p < end && chars[p] == '.';
    let stop = if point {
        scan_digits(chars, p + 1, end)
    } else {
        p
    };
    proof {
        lemma_decimal_parts(body, p as int, stop as int);
    }
    if p == end {
        if end == 0 {
            None
        } else {
            assert(chars@.subrange(0, p as int) == body);
            assert(chars@.subrange(end as int, end as int) == Seq::<char>::empty());
            Some((p, end))
        }
    } else if !point || stop < end || end == 1 {
        None
    } else {
        assert(chars@.subrange(0, p as int) == body.take(p as int));
        assert(chars@.subrange(p + 1, end as int) == body.skip(p + 1));
        Some((p, p + 1))
    }
}

/// The amount that the first `end` characters of `chars` stand for as a
/// decimal literal, with the point moved `decimals` places to the right.
fn scale_decimal(chars: &Vec<char>, end: usize, decimals: usize) -> (r: Option<u128>)
    requires
        end <= chars.len(),
    ensures
        r is Some <==> scaled_amount(chars@.take(end as int), decimals as nat) is Some,
        r matches Some(n) ==> scaled_amount(chars@.take(end as int), decimals as nat) == Some(
            n as nat,
        ),
{
    let (p, frac_start) = match split_decimal(chars, end) {
        Some(parts) => parts,
        None => {
            return None;
        },
    };
    let ghost whole = chars@.subrange(0, p as int);
    let ghost frac = chars@.subrange(frac_start as int, end as int);
    let frac_len = end - frac_start;
    let (acc, over) = write_digits(0, false, chars, 0, p, Ghost(Seq::empty()));
    assert(Seq::<char>::empty() + whole == whole);
    if frac_len <= decimals {
        let (acc, over) = write_digits(acc, over, chars, frac_start, end, Ghost(whole));
        let (acc, over) = write_zeros(acc, over, decimals - frac_len, Ghost(whole + frac));
        assert(whole + frac + zeros((decimals - frac_len) as nat) == whole + padded(
            frac,
            decimals as nat,
        ));
        if over {
            None
        } else {
            Some(acc)
        }
    } else {
        let cut = frac_start + decimals;
        let (acc, over) = write_digits(acc, over, chars, frac_start, cut, Ghost(whole));
        let ghost kept = whole + chars@.subrange(frac_start as int, cut as int);
        let ghost tail = chars@.subrange(cut as int, end as int);
        assert(kept + tail == whole + frac);
        round_by_tail(acc, over, chars, cut, end, Ghost(kept))
    }
}

/// Reads the price that `token` stands for: `$` and `,` are dropped, a
/// trailing `k` in either case multiplies by a thousand, and what is left
/// has to be a decimal literal, of at least one digit and at most one point,
/// whose amount, rounded to the millionth, is not above `MAX_MICROS`.
pub fn price_of_token(token: &str) -> (price: Option<Price>)
    ensures
        price is Some <==> token_amount(token@) is Some,
        price matches Some(p) ==> token_amount(token@) == Some(p.amount()),
{
    let chars = chars_of(token);
    let mut stripped: Vec<char> = Vec::new();
    let mut i: usize = 0;
    while i < chars.len()
        invariant
            i <= chars.len(),
            chars@ == token@,
            stripped@ == without_symbols(chars@.take(i as int)),
        decreases chars.len() - i,
    {
        let c = chars[i];
        proof {
            let keep = |c: char| !is_symbol(c);
            assert(chars@.take(i + 1) == chars@.take(i as int) + seq![c]);
            Seq::filter_distributes_over_add(chars@.take(i as int), seq![c], keep);
            reveal(Seq::filter);
            assert(seq![c].drop_last() == Seq::<char>::empty());
            assert(Seq::<char>::empty().filter(keep) == Seq::<char>::empty());
            assert(seq![c].filter(keep) == if keep(c) {
                seq![c]
            } else {
                Seq::<char>::empty()
            });
        }
        if c != '$' && c != ',' {
            stripped.push(c);
        }
        i += 1;
    }
    assert(chars@.take(chars.len() as int) == chars@);
    let n = stripped.len();
    let kilo = n > 0 && (stripped[n - 1] == 'k' || stripped[n - 1] == 'K');
    let scaled = if kilo {
        assert(stripped@.take(n - 1) == stripped@.drop_last());
        scale_decimal(&stripped, n - 1, KILO_DECIMALS)
    } else {
        assert(stripped@.take(n as int) == stripped@);
        scale_decimal(&stripped, n, PLAIN_DECIMALS)
    };
    match scaled {
        Some(micros) => Price::from_micros(micros),
        None => None,
    }
}

} // verus!
