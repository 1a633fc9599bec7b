//! Text: equality, the byte order of strings, and decimal numerals.

use vstd::prelude::*;
use vstd::string::*;
use vstd::utf8::*;

verus! {

/// Two texts with the same UTF-8 encoding are the same text.
pub proof fn lemma_encoding_is_injective(a: Seq<char>, b: Seq<char>)
    requires
        encode_utf8(a) == encode_utf8(b),
    ensures
        a == b,
{
    encode_utf8_decode_utf8(a);
    encode_utf8_decode_utf8(b);
}

/// Whether two string slices hold the same characters.
pub fn same_text(a: &str, b: &str) -> (same: bool)
    ensures
        same == (a@ == b@),
{
    let x: &[u8] = a.as_bytes();
    let y: &[u8] = b.as_bytes();
    if x.len() != y.len() {
        return false;
    }
    let mut i: usize = 0;
    while i < x.len()
        invariant
            i <= x@.len(),
            x@.len() == y@.len(),
            x@ == encode_utf8(a@),
            y@ == encode_utf8(b@),
            forall|k: int| 0 <= k < i ==> x@[k] == y@[k],
        decreases x@.len() - i,
    {
        if x[i] != y[i] {
            return false;
        }
        i = i + 1;
    }
    proof {
        assert(x@ =~= y@);
        lemma_encoding_is_injective(a@, b@);
    }
    true
}

/// Lexicographic order of byte sequences: the first byte that differs decides, and a proper
/// prefix comes first.
pub open spec fn bytes_before(x: Seq<u8>, y: Seq<u8>) -> bool
    decreases x.len(),
{
    if y.len() == 0 {
        false
    } else if x.len() == 0 {
        true
    } else if x[0] != y[0] {
        x[0] < y[0]
    } else {
        bytes_before(x.drop_first(), y.drop_first())
    }
}

/// The order of strings: lexicographic by the bytes of their UTF-8 encodings.
pub open spec fn text_before(a: Seq<char>, b: Seq<char>) -> bool {
    bytes_before(encode_utf8(a), encode_utf8(b))
}

pub proof fn lemma_bytes_before_asymmetric(x: Seq<u8>, y: Seq<u8>)
    requires
        bytes_before(x, y),
    ensures
        !bytes_before(y, x),
        x != y,
    decreases x.len(),
{
    if x.len() > 0 && x[0] == y[0] {
        lemma_bytes_before_asymmetric(x.drop_first(), y.drop_first());
    }
}

pub proof fn lemma_bytes_before_transitive(x: Seq<u8>, y: Seq<u8>, z: Seq<u8>)
    requires
        bytes_before(x, y),
        bytes_before(y, z),
    ensures
        bytes_before(x, z),
    decreases x.len(),
{
    if x.len() > 0 && x[0] == y[0] && y[0] == z[0] {
        lemma_bytes_before_transitive(x.drop_first(), y.drop_first(), z.drop_first());
    }
}

pub proof fn lemma_bytes_before_total(x: Seq<u8>, y: Seq<u8>)
    ensures
        x == y || bytes_before(x, y) || bytes_before(y, x),
    decreases x.len(),
{
    if x.len() > 0 && y.len() > 0 && x[0] == y[0] {
        lemma_bytes_before_total(x.drop_first(), y.drop_first());
        if x.drop_first() == y.drop_first() {
            assert(x =~= seq![x[0]] + x.drop_first());
            assert(y =~= seq![y[0]] + y.drop_first());
        }
    } else if x.len() == 0 && y.len() == 0 {
        assert(x =~= y);
    }
}

/// The order of strings is irreflexive and asymmetric.
pub proof fn lemma_text_before_asymmetric(a: Seq<char>, b: Seq<char>)
    requires
        text_before(a, b),
    ensures
        !text_before(b, a),
        a != b,
{
    lemma_bytes_before_asymmetric(encode_utf8(a), encode_utf8(b));
}

/// The order of strings is transitive.
pub proof fn lemma_text_before_transitive(a: Seq<char>, b: Seq<char>, c: Seq<char>)
    requires
        text_before(a, b),
        text_before(b, c),
    ensures
        text_before(a, c),
{
    lemma_bytes_before_transitive(encode_utf8(a), encode_utf8(b), encode_utf8(c));
}

/// Of two different strings one comes before the other.
pub proof fn lemma_text_before_total(a: Seq<char>, b: Seq<char>)
    ensures
        a == b || text_before(a, b) || text_before(b, a),
{
    lemma_bytes_before_total(encode_utf8(a), encode_utf8(b));
    if encode_utf8(a) == encode_utf8(b) {
        lemma_encoding_is_injective(a, b);
    }
}

/// Whether `a` comes before `b` in the order of strings.
pub fn precedes(a: &str, b: &str) -> (before: bool)
    ensures
        before == text_before(a@, b@),
{
    let x: &[u8] = a.as_bytes();
    let y: &[u8] = b.as_bytes();
    let mut i: usize = 0;
    proof {
        assert(x@.skip(0) =~= x@);
        assert(y@.skip(0) =~= y@);
    }
    while i < x.len() && i < y.len()
        invariant
            i <= x@.len(),
            i <= y@.len(),
            x@ == encode_utf8(a@),
            y@ == encode_utf8(b@),
            bytes_before(x@, y@) == bytes_before(x@.skip(i as int), y@.skip(i as int)),
        decreases x@.len() - i,
    {
        if x[i] != y[i] {
            return x[i] < y[i];
        }
        proof {
            assert(x@.skip(i as int).drop_first() =~= x@.skip(i + 1));
            assert(y@.skip(i as int).drop_first() =~= y@.skip(i + 1));
        }
        i = i + 1;
    }
    i < y.len()
}

/// The decimal numeral of a natural number, without leading zeros.
pub open spec fn digits(n: nat) -> Seq<char>
    decreases n,
{
    if n < 10 {
        seq![(48 + n) as char]
    } else {
        digits(n / 10).push((48 + n % 10) as char)
    }
}

/// The decimal numeral of an integer: its digits, after a minus sign where it is negative.
pub open spec fn decimal(n: int) -> Seq<char> {
    if n < 0 {
        seq!['-'] + digits((-n) as nat)
    } else {
        digits(n as nat)
    }
}

/// `s` filled up with zeros on the left to at least `width` characters.
pub open spec fn zero_filled(s: Seq<char>, width: nat) -> Seq<char> {
    if s.len() < width {
        Seq::new((width - s.len()) as nat, |i: int| '0') + s
    } else {
        s
    }
}

fn digit_text(d: u64) -> (s: &'static str)
    requires
        d < 10,
    ensures
        s@ == seq![(48 + d) as char],
{
    proof {
        reveal_strlit("0");
        reveal_strlit("1");
        reveal_strlit("2");
        reveal_strlit("3");
        reveal_strlit("4");
        reveal_strlit("5");
        reveal_strlit("6");
        reveal_strlit("7");
        reveal_strlit("8");
        reveal_strlit("9");
    }
    if d == 0 {
        "0"
    } else if d == 1 {
        "1"
    } else if d == 2 {
        "2"
    } else if d == 3 {
        "3"
    } else if d == 4 {
        "4"
    } else if d == 5 {
        "5"
    } else if d == 6 {
        "6"
    } else if d == 7 {
        "7"
    } else if d == 8 {
        "8"
    } else {
        "9"
    }
}

fn digits_text(n: u64) -> (s: String)
    ensures
        s@ == digits(n as nat),
    decreases n,
{
    if n < 10 {
        digit_text(n).to_owned()
    } else {
        let mut s: String = digits_text(n / 10);
        s.append(digit_text(n % 10));
        s
    }
}

/// The decimal numeral of `n`.
pub fn decimal_text(n: i64) -> (s: String)
    ensures
        s@ == decimal(n as int),
{
    if n < 0 {
        proof {
            reveal_strlit("-");
        }
        let magnitude: u64 = (-(n + 1)) as u64 + 1;
        let mut s: String = "-".to_owned();
        s.append(digits_text(magnitude).as_str());
        s
    } else {
        digits_text(n as u64)
    }
}

/// `s` filled up with zeros on the left to at least `width` characters.
pub fn zero_filled_text(s: &str, width: usize) -> (r: String)
    ensures
        r@ == zero_filled(s@, width as nat),
{
    let len: usize = s.unicode_len();
    let mut r: String = String::new();
    let mut i: usize = len;
    while i < width
        invariant
            len == s@.len(),
            len <= i,
            i <= width || i == len,
            r@ == Seq::new((i - len) as nat, |k: int| '0'),
        decreases width - i,
    {
        proof {
            reveal_strlit("0");
        }
        r.append("0");
        i = i + 1;
        assert(r@ =~= Seq::new((i - len) as nat, |k: int| '0'));
    }
    r.append(s);
    assert(r@ =~= zero_filled(s@, width as nat));
    r
}

/// The number that a row of digits stands for.
pub open spec fn value_of(s: Seq<char>) -> int
    decreases s.len(),
{
    if s.len() == 0 {
        0
    } else {
        10 * value_of(s.drop_last()) + (s.last() as int - 48)
    }
}

proof fn lemma_digits(n: nat)
    ensures
        value_of(digits(n)) == n,
        digits(n).len() > 0,
        forall|i: int| 0 <= i < digits(n).len() ==> #[trigger] digits(n)[i] != '-',
    decreases n,
{
    if n < 10 {
        let s = digits(n);
        assert(s.drop_last() =~= Seq::empty());
        assert(value_of(s.drop_last()) == 0);
    } else {
        lemma_digits(n / 10);
        let s = digits(n);
        assert(s.drop_last() =~= digits(n / 10));
        assert forall|i: int| 0 <= i < s.len() implies #[trigger] s[i] != '-' by {
            if i < digits(n / 10).len() {
                assert(s[i] == digits(n / 10)[i]);
            }
        }
    }
}

proof fn lemma_leading_zeros(s: Seq<char>, zeros: nat)
    ensures
        value_of(Seq::new(zeros, |i: int| '0') + s) == value_of(s),
    decreases s.len(), zeros,
{
    let fill = Seq::new(zeros, |i: int| '0');
    if s.len() > 0 {
        lemma_leading_zeros(s.drop_last(), zeros);
        assert((fill + s).drop_last() =~= fill + s.drop_last());
    } else if zeros > 0 {
        let fewer = (zeros - 1) as nat;
        lemma_leading_zeros(s, fewer);
        assert((fill + s).drop_last() =~= Seq::new(fewer, |i: int| '0') + s);
        assert((fill + s).last() == '0');
    } else {
        assert(fill + s =~= s);
    }
}

/// A numeral filled up with zeros starts with zeros, and a minus sign stands where the numeral does.
proof fn lemma_zero_filled(n: int, width: nat)
    ensures
        ({
            let s = zero_filled(decimal(n), width);
            let d = digits((if n < 0 { -n } else { n }) as nat);
            &&& s.len() >= d.len()
            &&& n >= 0 ==> value_of(s) == n && forall|i: int|
                0 <= i < s.len() ==> #[trigger] s[i] != '-'
            &&& n < 0 ==> {
                &&& s.len() > d.len()
                &&& s[s.len() - d.len() - 1] == '-'
                &&& s.skip(s.len() - d.len()) == d
                &&& forall|i: int|
                    0 <= i < s.len() && i != s.len() - d.len() - 1 ==> #[trigger] s[i] != '-'
            }
        }),
{
    let s = zero_filled(decimal(n), width);
    let d = digits((if n < 0 { -n } else { n }) as nat);
    let zeros = (s.len() - decimal(n).len()) as nat;
    let fill = Seq::new(zeros, |i: int| '0');
    lemma_digits((if n < 0 { -n } else { n }) as nat);
    assert(s =~= fill + decimal(n));
    if n >= 0 {
        lemma_leading_zeros(d, zeros);
    } else {
        assert(s.skip(s.len() - d.len()) =~= d);
    }
}

/// Different numbers have different numerals, also when they are filled up with zeros to the same
/// width.
pub proof fn lemma_zero_filled_is_injective(a: int, b: int, width: nat)
    requires
        zero_filled(decimal(a), width) == zero_filled(decimal(b), width),
    ensures
        a == b,
{
    let s = zero_filled(decimal(a), width);
    lemma_zero_filled(a, width);
    lemma_zero_filled(b, width);
    if a < 0 && b < 0 {
        let (c, d) = (digits((-a) as nat), digits((-b) as nat));
        assert(s[s.len() - c.len() - 1] == '-');
        assert(s[s.len() - d.len() - 1] == '-');
        assert(c.len() == d.len());
        lemma_digits((-a) as nat);
        lemma_digits((-b) as nat);
    } else if a < 0 {
        assert(s[s.len() - digits((-a) as nat).len() - 1] == '-');
    } else if b < 0 {
        assert(s[s.len() - digits((-b) as nat).len() - 1] == '-');
    }
}

proof fn lemma_digits_length(n: nat, places: nat)
    requires
        n < vstd::arithmetic::power::pow(10, places),
        places > 0,
    ensures
        digits(n).len() <= places,
    decreases places,
{
    vstd::arithmetic::power::lemma_pow1(10);
    if n >= 10 {
        if places == 1 {
            assert(false);
        }
        let fewer = (places - 1) as nat;
        vstd::arithmetic::power::lemma_pow_adds(10, fewer, 1);
        assert(n / 10 < vstd::arithmetic::power::pow(10, fewer));
        lemma_digits_length(n / 10, fewer);
    }
}

/// The numeral of a 64-bit integer takes no more than twenty places.
pub proof fn lemma_decimal_length(n: i64)
    ensures
        decimal(n as int).len() <= 20,
{
    let magnitude = (if n < 0 { -n } else { n as int }) as nat;
    assert(magnitude < vstd::arithmetic::power::pow(10, 19)) by {
        reveal_with_fuel(vstd::arithmetic::power::pow, 20);
    }
    lemma_digits_length(magnitude, 19);
}

/// Whether `a` stands before `b` in a dictionary of byte strings in UTF-8: the two agree up to some
/// place, where `a` ends and `b` goes on, or where the byte of `a` is the smaller one.
pub open spec fn spelled_before(a: Seq<char>, b: Seq<char>) -> bool {
    let (x, y) = (encode_utf8(a), encode_utf8(b));
    exists|k: int|
        0 <= k < y.len() && k <= x.len() && #[trigger] x.take(k) == y.take(k) && (k < x.len()
            ==> x[k] < y[k])
}

proof fn lemma_bytes_differ_first(x: Seq<u8>, y: Seq<u8>)
    requires
        bytes_before(x, y),
    ensures
        exists|k: int|
            0 <= k < y.len() && k <= x.len() && #[trigger] x.take(k) == y.take(k) && (k < x.len()
                ==> x[k] < y[k]),
    decreases x.len(),
{
    if x.len() == 0 || x[0] != y[0] {
        assert(x.take(0) =~= y.take(0));
    } else {
        let (v, w) = (x.drop_first(), y.drop_first());
        lemma_bytes_differ_first(v, w);
        let k = choose|k: int|
            0 <= k < w.len() && k <= v.len() && #[trigger] v.take(k) == w.take(k) && (k < v.len()
                ==> v[k] < w[k]);
        assert forall|i: int| 0 <= i < k + 1 implies x[i] == y[i] by {
            if i > 0 {
                assert(v.take(k)[i - 1] == w.take(k)[i - 1]);
            }
        }
        assert(x.take(k + 1) =~= y.take(k + 1));
    }
}

proof fn lemma_first_difference_decides(x: Seq<u8>, y: Seq<u8>, k: int)
    requires
        0 <= k < y.len(),
        k <= x.len(),
        x.take(k) == y.take(k),
        k < x.len() ==> x[k] < y[k],
    ensures
        bytes_before(x, y),
    decreases k,
{
    if k > 0 {
        assert(x.take(k)[0] == x[0] && y.take(k)[0] == y[0]);
        let (v, w) = (x.drop_first(), y.drop_first());
        assert forall|i: int| 0 <= i < k - 1 implies v[i] == w[i] by {
            assert(x.take(k)[i + 1] == x[i + 1] && y.take(k)[i + 1] == y[i + 1]);
        }
        assert(v.take(k - 1) =~= w.take(k - 1));
        lemma_first_difference_decides(v, w, k - 1);
    }
}

/// The order of strings is that of a dictionary of their bytes.
pub proof fn law_text_order_is_by_bytes(a: Seq<char>, b: Seq<char>)
    ensures
        text_before(a, b) <==> spelled_before(a, b),
{
    let (x, y) = (encode_utf8(a), encode_utf8(b));
    if text_before(a, b) {
        lemma_bytes_differ_first(x, y);
    }
    if spelled_before(a, b) {
        let k = choose|k: int|
            0 <= k < y.len() && k <= x.len() && #[trigger] x.take(k) == y.take(k) && (k < x.len()
                ==> x[k] < y[k]);
        lemma_first_difference_decides(x, y, k);
    }
}

/// [`precedes`] puts strings in the order of a dictionary of their bytes.
pub proof fn law_precedes_is_by_bytes(a: &str, b: &str, before: bool)
    requires
        call_ensures(precedes, (a, b), before),
    ensures
        before <==> spelled_before(a@, b@),
{
    law_text_order_is_by_bytes(a@, b@);
}

/// Whether the character is a decimal digit.
pub open spec fn is_digit(c: char) -> bool {
    '0' <= c <= '9'
}

/// Whether `s` is a row of decimal digits that stands for `n`, without a leading zero but for the
/// zero itself.
pub open spec fn is_numeral_of(s: Seq<char>, n: int) -> bool {
    &&& s.len() > 0
    &&& forall|i: int| 0 <= i < s.len() ==> is_digit(#[trigger] s[i])
    &&& s[0] == '0' ==> s.len() == 1
    &&& value_of(s) == n
}

proof fn lemma_digits_are_a_numeral(n: nat)
    ensures
        is_numeral_of(digits(n), n as int),
        n > 0 ==> digits(n)[0] != '0',
    decreases n,
{
    lemma_digits(n);
    if n >= 10 {
        lemma_digits_are_a_numeral(n / 10);
        let (s, t) = (digits(n), digits(n / 10));
        assert forall|i: int| 0 <= i < s.len() implies is_digit(#[trigger] s[i]) by {
            if i < t.len() {
                assert(s[i] == t[i]);
            }
        }
        assert(s[0] == t[0]);
    }
}

/// The numeral of a number reads back as the number: behind a minus sign, where the number is
/// negative, stand its digits, none too many.
pub proof fn law_decimal_reads_back(n: int)
    ensures
        n >= 0 ==> is_numeral_of(decimal(n), n),
        n < 0 ==> decimal(n).len() > 0 && decimal(n)[0] == '-' && is_numeral_of(
            decimal(n).drop_first(),
            -n,
        ),
{
    if n < 0 {
        lemma_digits_are_a_numeral((-n) as nat);
        assert(decimal(n).drop_first() =~= digits((-n) as nat));
    } else {
        lemma_digits_are_a_numeral(n as nat);
    }
}

/// [`decimal_text`] gives the numeral that reads back as the number.
pub proof fn law_decimal_text_reads_back(n: i64, s: String)
    requires
        call_ensures(decimal_text, (n,), s),
    ensures
        n >= 0 ==> is_numeral_of(s@, n as int),
        n < 0 ==> s@.len() > 0 && s@[0] == '-' && is_numeral_of(s@.drop_first(), -n),
{
    law_decimal_reads_back(n as int);
}

/// A text that is filled up with zeros ends in the text, is as long as asked for or as the text, and
/// has nothing but zeros in front.
pub proof fn law_zeros_fill_up(s: Seq<char>, width: nat)
    ensures
        ({
            let filled = zero_filled(s, width);
            &&& filled.len() == (if s.len() < width { width } else { s.len() })
            &&& filled.skip(filled.len() - s.len()) == s
            &&& forall|i: int|
                0 <= i < filled.len() - s.len() ==> #[trigger] filled[i] == '0'
        }),
{
    let filled = zero_filled(s, width);
    assert(filled.skip(filled.len() - s.len()) =~= s);
}

/// A natural number keeps its value and is all digits when it is filled up with zeros.
pub proof fn law_filled_numeral_reads_back(n: nat, width: nat)
    ensures
        ({
            let filled = zero_filled(decimal(n as int), width);
            &&& value_of(filled) == n
            &&& forall|i: int| 0 <= i < filled.len() ==> is_digit(#[trigger] filled[i])
        }),
{
    lemma_zero_filled(n as int, width);
    law_decimal_reads_back(n as int);
    law_zeros_fill_up(decimal(n as int), width);
    let s = decimal(n as int);
    let filled = zero_filled(s, width);
    assert forall|i: int| 0 <= i < filled.len() implies is_digit(#[trigger] filled[i]) by {
        let zeros = filled.len() - s.len();
        if i >= zeros {
            assert(filled.skip(zeros)[i - zeros] == s[i - zeros]);
            assert(is_digit(s[i - zeros]));
        }
    }
}

/// [`same_text`] tells whether two strings are spelled alike.
pub proof fn law_same_text_is_spelled_alike(a: &str, b: &str, same: bool)
    requires
        call_ensures(same_text, (a, b), same),
    ensures
        same <==> a@ =~= b@,
{
}

/// [`zero_filled_text`] keeps the text at the end, and puts zeros in front up to the width.
pub proof fn law_zero_filled_text_keeps_the_text(s: &str, width: usize, filled: String)
    requires
        call_ensures(zero_filled_text, (s, width), filled),
    ensures
        filled@.len() == (if s@.len() < width { width as nat } else { s@.len() }),
        filled@.skip(filled@.len() - s@.len()) == s@,
        forall|i: int| 0 <= i < filled@.len() - s@.len() ==> #[trigger] filled@[i] == '0',
{
    law_zeros_fill_up(s@, width as nat);
}

} // verus!
