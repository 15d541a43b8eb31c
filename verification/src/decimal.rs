//! Decimal rendering and reading of the version number.

use vstd::prelude::*;
use crate::trusted::is_digit;

verus! {

/// The numeric value of a decimal digit character.
pub open spec fn digit_val(c: char) -> int {
    c as int - '0' as int
}

/// The numeric value of a sequence of decimal digit characters.
pub open spec fn dec_val(d: Seq<char>) -> int
    decreases d.len(),
{
    if d.len() == 0 {
        0
    } else {
        dec_val(d.drop_last()) * 10 + digit_val(d.last())
    }
}

/// Every character of the sequence is a decimal digit.
pub open spec fn all_digits(d: Seq<char>) -> bool {
    forall|k: int| 0 <= k < d.len() ==> is_digit(d[k])
}

/// The decimal digit character for a value below ten.
pub open spec fn digit_char(d: int) -> char {
    ((d + 48) as u8) as char
}

/// The canonical decimal digit string of a nonnegative number.
pub open spec fn dec_digits(v: int) -> Seq<char>
    decreases v,
{
    if v < 10 {
        seq![digit_char(v)]
    } else {
        dec_digits(v / 10) + seq![digit_char(v % 10)]
    }
}

/// The value of a digit sequence is nonnegative.
pub proof fn lemma_dec_val_nonneg(d: Seq<char>)
    requires
        all_digits(d),
    ensures
        dec_val(d) >= 0,
    decreases d.len(),
{
    if d.len() > 0 {
        assert(all_digits(d.drop_last()));
        lemma_dec_val_nonneg(d.drop_last());
        assert(digit_val(d.last()) >= 0);
    }
}

/// Extending a digit sequence cannot decrease its value.
pub proof fn lemma_dec_val_prefix(d: Seq<char>, k: int)
    requires
        all_digits(d),
        0 <= k <= d.len(),
    ensures
        dec_val(d.subrange(0, k)) <= dec_val(d),
    decreases d.len() - k,
{
    if k < d.len() {
        let dk = d.subrange(0, k);
        let dk1 = d.subrange(0, k + 1);
        assert(dk1.drop_last() =~= dk);
        assert(dk1.last() == d[k]);
        lemma_dec_val_nonneg(dk);
        assert(dec_val(dk1) == dec_val(dk) * 10 + digit_val(d[k]));
        assert(dec_val(dk) * 10 >= dec_val(dk)) by {
            lemma_dec_val_nonneg(dk);
        }
        lemma_dec_val_prefix(d, k + 1);
    } else {
        assert(d.subrange(0, k) =~= d);
    }
}

/// The canonical digit string reads back as the number it renders.
pub proof fn lemma_dec_digits_val(v: int)
    requires
        0 <= v,
    ensures
        all_digits(dec_digits(v)),
        dec_val(dec_digits(v)) == v,
        dec_digits(v).len() >= 1,
    decreases v,
{
    if v < 10 {
        let d = dec_digits(v);
        assert(d == seq![digit_char(v)]);
        assert(is_digit(digit_char(v))) by {
            assert(digit_char(v) as int == v + 48);
        }
        assert(d.len() == 1);
        assert(d.last() == digit_char(v));
        assert(d.drop_last() =~= Seq::<char>::empty());
        assert(dec_val(d.drop_last()) == 0);
        assert(dec_val(d) == digit_val(digit_char(v)));
        assert(digit_val(digit_char(v)) == v) by {
            assert(digit_char(v) as int == v + 48);
        }
    } else {
        lemma_dec_digits_val(v / 10);
        let d = dec_digits(v);
        let head = dec_digits(v / 10);
        assert(d == head + seq![digit_char(v % 10)]);
        assert(d.drop_last() =~= head);
        assert(d.last() == digit_char(v % 10));
        assert(is_digit(digit_char(v % 10))) by {
            assert(digit_char(v % 10) as int == v % 10 + 48);
        }
        assert(all_digits(d)) by {
            assert(forall|k: int| 0 <= k < head.len() ==> d[k] == head[k]);
        }
        assert(digit_val(digit_char(v % 10)) == v % 10) by {
            assert(digit_char(v % 10) as int == v % 10 + 48);
        }
        assert(dec_val(d) == (v / 10) * 10 + v % 10);
        assert((v / 10) * 10 + v % 10 == v) by (nonlinear_arith);
    }
}

/// Appends the decimal digits of `v` to `out`.
pub fn push_decimal(out: &mut Vec<char>, v: u64)
    ensures
        final(out)@ == old(out)@ + dec_digits(v as int),
    decreases v,
{
    if v >= 10 {
        push_decimal(out, v / 10);
    }
    let d: u8 = (v % 10) as u8;
    out.push((d + 48) as char);
    proof {
        assert(((v % 10) + 48) as u8 as char == digit_char(v as int % 10));
        if v < 10 {
            assert(final(out)@ =~= old(out)@ + dec_digits(v as int));
        } else {
            assert(final(out)@ =~= old(out)@ + dec_digits(v as int));
        }
    }
}

} // verus!
