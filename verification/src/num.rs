//! Decimal digit sequences and the `Scalar` type.
//!
//! A `Scalar` carries a decimal number through the token stream and the
//! value grammars as plain data: the whole part as a machine integer and
//! the fraction as its digit characters, so nothing is lost to rounding.

use vstd::prelude::*;

verus! {

/// Whether every character of `s` is a decimal digit.
pub open spec fn all_digits(s: Seq<char>) -> bool {
    forall|i: int| 0 <= i < s.len() ==> '0' <= #[trigger] s[i] <= '9'
}

/// Numeric value of one digit character.
pub open spec fn digit_val(c: char) -> int {
    c as int - '0' as int
}

/// Value of a digit sequence read in base ten, most significant digit first.
pub open spec fn dec_val(s: Seq<char>) -> int
    decreases s.len(),
{
    if s.len() == 0 {
        0
    } else {
        dec_val(s.drop_last()) * 10 + digit_val(s.last())
    }
}

/// `dec_val`, saturated at the largest `i64`.
pub open spec fn dec_val_sat(s: Seq<char>) -> int {
    if dec_val(s) <= i64::MAX {
        dec_val(s)
    } else {
        i64::MAX as int
    }
}

/// The value of a digit sequence is never negative.
pub proof fn lemma_dec_val_nonneg(s: Seq<char>)
    requires
        all_digits(s),
    ensures
        dec_val(s) >= 0,
    decreases s.len(),
{
    if s.len() > 0 {
        lemma_dec_val_nonneg(s.drop_last());
    }
}

/// A decimal number split into its whole part and its fraction digits.
///
/// `frac` holds the digit characters that followed the decimal point, in
/// order, so `whole: 12, frac: "25"` stands for 12.25. An integer literal
/// has an empty `frac`.
#[derive(Debug, Clone)]
pub struct Scalar {
    pub whole: i64,
    pub frac: String,
}

/// The mathematical shape of a [`Scalar`].
pub struct ScalarModel {
    pub whole: int,
    pub frac: Seq<char>,
}

/// The scalar model for a whole number.
pub open spec fn whole_scalar(v: int) -> ScalarModel {
    ScalarModel { whole: v, frac: Seq::empty() }
}

impl View for Scalar {
    type V = ScalarModel;

    open spec fn view(&self) -> ScalarModel {
        ScalarModel { whole: self.whole as int, frac: self.frac@ }
    }
}

impl Scalar {
    /// The scalar for a plain integer.
    pub fn integer(whole: i64) -> (r: Scalar)
        ensures
            r.whole == whole,
            r.frac@ == Seq::<char>::empty(),
    {
        Scalar { whole, frac: String::new() }
    }

    /// Whether the number is at most `bound`: the whole part is below it,
    /// or equal to it with nothing but zeros after the point.
    pub open spec fn spec_at_most(self, bound: i64) -> bool {
        self.whole < bound || (self.whole == bound && forall|i: int|
            0 <= i < self.frac@.len() ==> #[trigger] self.frac@[i] == '0')
    }

    /// Compares the number against `bound` (see [`Scalar::spec_at_most`]).
    pub fn at_most(&self, bound: i64) -> (r: bool)
        ensures
            r == self.spec_at_most(bound),
    {
        if self.whole < bound {
            true
        } else if self.whole > bound {
            false
        } else {
            let n = self.frac.unicode_len();
            let mut i: usize = 0;
            let mut all_zero = true;
            while i < n
                invariant
                    0 <= i <= n,
                    n == self.frac@.len(),
                    all_zero == forall|j: int| 0 <= j < i ==> #[trigger] self.frac@[j] == '0',
                decreases n - i,
            {
                if self.frac.get_char(i) != '0' {
                    all_zero = false;
                }
                i += 1;
            }
            all_zero
        }
    }
}

impl PartialEq for Scalar {
    fn eq(&self, o: &Scalar) -> (r: bool) {
        self.whole == o.whole && self.frac == o.frac
    }
}

impl vstd::std_specs::cmp::PartialEqSpecImpl for Scalar {
    open spec fn obeys_eq_spec() -> bool {
        true
    }

    open spec fn eq_spec(&self, o: &Scalar) -> bool {
        self.whole == o.whole && self.frac@ == o.frac@
    }
}

/// Reads `s[from..to]` as a base-ten number, saturating at `i64::MAX`
/// when the digits are too many to fit.
pub fn parse_digits(s: &Vec<char>, from: usize, to: usize) -> (r: i64)
    requires
        from <= to <= s@.len(),
        all_digits(s@.subrange(from as int, to as int)),
    ensures
        r == dec_val_sat(s@.subrange(from as int, to as int)),
{
    let ghost digits = s@.subrange(from as int, to as int);
    let mut acc: i64 = 0;
    let mut saturated: bool = false;
    let mut i: usize = from;
    while i < to
        invariant
            from <= i <= to <= s@.len(),
            digits == s@.subrange(from as int, to as int),
            all_digits(digits),
            !saturated ==> acc == dec_val(digits.take(i - from)),
            saturated ==> dec_val(digits.take(i - from)) > i64::MAX && acc == i64::MAX,
            acc >= 0,
        decreases to - i,
    {
        let c = s[i];
        proof {
            assert(digits[i - from] == s@[i as int]);
            assert(digits.take(i - from + 1).drop_last() =~= digits.take(i - from));
            assert(digits.take(i - from + 1).last() == digits[i - from]);
            lemma_dec_val_nonneg(digits.take(i - from));
        }
        let d: i64 = (c as u32 as i64) - ('0' as u32 as i64);
        if saturated {
            // the value only grows with further digits, so it stays saturated
        } else if acc > (i64::MAX - d) / 10 {
            saturated = true;
            acc = i64::MAX;
        } else {
            acc = acc * 10 + d;
        }
        i += 1;
    }
    proof {
        assert(digits.take(to - from) =~= digits);
    }
    acc
}


/// The digit character for a value below ten.
pub open spec fn digit_char(d: int) -> char {
    (('0' as int) + d) as char
}

/// The decimal rendering of a natural number, most significant digit
/// first.
pub open spec fn dec_str(n: int) -> Seq<char>
    decreases n,
{
    if n < 10 {
        seq![digit_char(if n < 0 { 0 } else { n })]
    } else {
        dec_str(n / 10).push(digit_char(n % 10))
    }
}

/// The decimal rendering of an integer: a minus sign for negatives.
pub open spec fn int_str(n: int) -> Seq<char> {
    if n < 0 {
        seq!['-'] + dec_str(-n)
    } else {
        dec_str(n)
    }
}

/// The rendering of a scalar: the whole part, and the fraction digits
/// after a dot when there are any.
pub open spec fn scalar_str(sm: ScalarModel) -> Seq<char> {
    if sm.frac.len() == 0 {
        int_str(sm.whole)
    } else {
        int_str(sm.whole) + seq!['.'] + sm.frac
    }
}

/// Appends the decimal rendering of `n`.
pub fn push_u64(out: &mut Vec<char>, n: u64)
    ensures
        final(out)@ == old(out)@ + dec_str(n as int),
    decreases n,
{
    let ghost pre = out@;
    if n < 10 {
        let d: u8 = 48 + (n as u8);
        out.push(d as char);
        proof {
            assert(out@ =~= pre + dec_str(n as int));
        }
    } else {
        push_u64(out, n / 10);
        let d: u8 = 48 + ((n % 10) as u8);
        out.push(d as char);
        proof {
            assert(out@ =~= pre + dec_str(n as int));
        }
    }
}

/// Appends the decimal rendering of `n`, sign included.
pub fn push_i64(out: &mut Vec<char>, n: i64)
    ensures
        final(out)@ == old(out)@ + int_str(n as int),
{
    let ghost pre = out@;
    if n < 0 {
        out.push('-');
        let m: u64 = (-(n as i128)) as u64;
        push_u64(out, m);
        proof {
            assert(out@ =~= pre + int_str(n as int));
        }
    } else {
        push_u64(out, n as u64);
    }
}

impl Scalar {
    /// Appends the scalar's rendering, per [`scalar_str`].
    pub fn push_chars(&self, out: &mut Vec<char>)
        ensures
            final(out)@ == old(out)@ + scalar_str(self@),
    {
        let ghost pre = out@;
        push_i64(out, self.whole);
        if self.frac.unicode_len() > 0 {
            out.push('.');
            crate::text::push_str(out, self.frac.as_str());
            proof {
                assert(out@ =~= pre + scalar_str(self@));
            }
        }
    }

    /// The scalar's decimal text, per [`scalar_str`].
    pub fn to_string(&self) -> (r: String)
        ensures
            r@ == scalar_str(self@),
    {
        let mut out: Vec<char> = Vec::new();
        self.push_chars(&mut out);
        proof {
            assert(Seq::<char>::empty() + scalar_str(self@) =~= scalar_str(self@));
        }
        crate::text::string_of(&out)
    }
}


/// Law: the decimal rendering of a number reads back as that number — it
/// is nonempty, all digits, and its value is the number itself.
pub proof fn lemma_dec_str_round_trip(n: int)
    requires
        0 <= n,
    ensures
        dec_str(n).len() > 0,
        all_digits(dec_str(n)),
        dec_val(dec_str(n)) == n,
    decreases n,
{
    if n < 10 {
        assert(dec_str(n) == seq![digit_char(n)]);
        assert(digit_char(n) as int == '0' as int + n);
        assert(dec_str(n).drop_last() =~= Seq::<char>::empty());
        assert(dec_str(n).last() == digit_char(n));
        assert(dec_val(Seq::<char>::empty()) == 0);
    } else {
        lemma_dec_str_round_trip(n / 10);
        assert(digit_char(n % 10) as int == '0' as int + n % 10);
        assert(dec_str(n).drop_last() =~= dec_str(n / 10));
        assert(dec_str(n).last() == digit_char(n % 10));
        assert forall|i: int| 0 <= i < dec_str(n).len() implies '0' <= #[trigger] dec_str(n)[i]
            <= '9' by {
            if i < dec_str(n / 10).len() {
                assert(dec_str(n)[i] == dec_str(n / 10)[i]);
            }
        }
    }
}

} // verus!
