//! Decimal reading and writing of the machine's integer values: the argument
//! words of the tokenizer, the integer-reading builtin, and the textual form
//! the print primitive emits.

use vstd::prelude::*;

verus! {

broadcast use vstd::seq::group_seq_axioms, vstd::seq_lib::group_seq_lib_default;

/// Whether the character is a decimal digit.
pub open spec fn is_digit(c: char) -> bool {
    48 <= c as u32 <= 57
}

/// The numeric value of a decimal digit character.
pub open spec fn digit_val(c: char) -> int {
    c as u32 - 48
}

/// Whether every character of the sequence is a decimal digit.
pub open spec fn all_digits(s: Seq<char>) -> bool {
    forall|i: int| 0 <= i < s.len() ==> is_digit(#[trigger] s[i])
}

/// The value of a sequence of decimal digits, most significant first.
pub open spec fn digits_val(s: Seq<char>) -> int
    decreases s.len(),
{
    if s.len() == 0 {
        0
    } else {
        digits_val(s.drop_last()) * 10 + digit_val(s.last())
    }
}

/// The integer a text denotes: an optional sign, then one or more digits,
/// and nothing else. `None` where the text is malformed.
pub open spec fn parse_int_text(s: Seq<char>) -> Option<int> {
    let neg = s.len() > 0 && s[0] == '-';
    let ds = digit_part(s);
    if ds.len() == 0 || !all_digits(ds) {
        None
    } else if neg {
        Some(-digits_val(ds))
    } else {
        Some(digits_val(ds))
    }
}

/// The 32-bit signed integer a text denotes, `None` where it is malformed or
/// out of range.
pub open spec fn parse_i32_text(s: Seq<char>) -> Option<i32> {
    match parse_int_text(s) {
        Some(v) => if i32::MIN <= v <= i32::MAX {
            Some(v as i32)
        } else {
            None
        },
        None => None,
    }
}

/// The machine-word index a text denotes, `None` where it is malformed,
/// negative, or out of range.
pub open spec fn parse_usize_text(s: Seq<char>) -> Option<usize> {
    if s.len() > 0 && s[0] == '-' {
        None
    } else {
        match parse_int_text(s) {
            Some(v) => if v <= usize::MAX {
                Some(v as usize)
            } else {
                None
            },
            None => None,
        }
    }
}

proof fn lemma_digits_val_nonneg(s: Seq<char>)
    requires
        all_digits(s),
    ensures
        digits_val(s) >= 0,
    decreases s.len(),
{
    if s.len() > 0 {
        assert(all_digits(s.drop_last()));
        lemma_digits_val_nonneg(s.drop_last());
    }
}

/// A digit string is worth at least any of its prefixes.
proof fn lemma_digits_val_prefix(s: Seq<char>, i: int)
    requires
        all_digits(s),
        0 <= i <= s.len(),
    ensures
        digits_val(s.take(i)) <= digits_val(s),
    decreases s.len() - i,
{
    if i < s.len() {
        assert(all_digits(s.take(i + 1)));
        assert(s.take(i + 1).drop_last() =~= s.take(i));
        assert(all_digits(s.take(i)));
        lemma_digits_val_nonneg(s.take(i));
        assert(digits_val(s.take(i + 1)) == digits_val(s.take(i)) * 10 + digit_val(s.take(i + 1).last()));
        lemma_digits_val_prefix(s, i + 1);
    } else {
        assert(s.take(i) =~= s);
    }
}

/// The digit part of a signed decimal text: everything after the optional
/// leading sign.
pub open spec fn digit_part(s: Seq<char>) -> Seq<char> {
    if s.len() > 0 && (s[0] == '-' || s[0] == '+') {
        s.drop_first()
    } else {
        s
    }
}

/// Reads a 32-bit signed integer, as Rust's own decimal grammar does: an
/// optional sign, then digits only, rejected when out of range.
pub fn parse_i32(w: &Vec<char>) -> (r: Option<i32>)
    ensures
        r == parse_i32_text(w@),
{
    let n = w.len();
    let mut i: usize = 0;
    let mut neg = false;
    if n > 0 && (w[0] == '-' || w[0] == '+') {
        neg = w[0] == '-';
        i = 1;
    }
    if i == n {
        return None;
    }
    let ghost start = i as int;
    proof {
        assert(digit_part(w@) =~= w@.subrange(start, n as int));
    }
    let mut acc: u64 = 0;
    while i < n
        invariant
            n == w@.len(),
            start <= i <= n,
            0 <= start <= 1,
            digit_part(w@) == w@.subrange(start, n as int),
            all_digits(w@.subrange(start, i as int)),
            acc == digits_val(w@.subrange(start, i as int)),
            acc <= 0x8000_0000,
        decreases n - i,
    {
        let c = w[i];
        let cu = c as u32;
        if cu < 48 || cu > 57 {
            proof {
                assert(w@.subrange(start, n as int)[i - start] == w@[i as int]);
                assert(!all_digits(digit_part(w@)));
            }
            return None;
        }
        acc = acc * 10 + ((cu - 48) as u64);
        proof {
            lemma_digits_step(w@, start, i as int);
        }
        i += 1;
        if acc > 0x8000_0000 {
            proof {
                if all_digits(digit_part(w@)) {
                    lemma_digits_val_prefix(w@.subrange(start, n as int), i - start);
                    assert(w@.subrange(start, n as int).take(i - start) =~= w@.subrange(
                        start,
                        i as int,
                    ));
                }
            }
            return None;
        }
    }
    if neg {
        if acc == 0x8000_0000 {
            Some(i32::MIN)
        } else {
            Some(-((acc as u32) as i32))
        }
    } else {
        if acc > 0x7FFF_FFFF {
            None
        } else {
            Some(acc as i32)
        }
    }
}

/// One more digit extends the running value by a factor of ten.
proof fn lemma_digits_step(s: Seq<char>, start: int, i: int)
    requires
        0 <= start <= i < s.len(),
        all_digits(s.subrange(start, i)),
        is_digit(s[i]),
    ensures
        all_digits(s.subrange(start, i + 1)),
        digits_val(s.subrange(start, i + 1)) == digits_val(s.subrange(start, i)) * 10 + digit_val(
            s[i],
        ),
{
    assert(s.subrange(start, i + 1).drop_last() =~= s.subrange(start, i));
    assert(s.subrange(start, i + 1).last() == s[i]);
    assert forall|j: int| 0 <= j < i + 1 - start implies is_digit(
        #[trigger] s.subrange(start, i + 1)[j],
    ) by {
        if j < i - start {
            assert(s.subrange(start, i + 1)[j] == s.subrange(start, i)[j]);
        } else {
            assert(s.subrange(start, i + 1)[j] == s[i]);
        }
    }
}

/// Reads an unsigned machine-word index, as Rust's own decimal grammar does:
/// an optional plus sign, then digits only, rejected when out of range.
pub fn parse_usize(w: &Vec<char>) -> (r: Option<usize>)
    ensures
        r == parse_usize_text(w@),
{
    let n = w.len();
    let mut i: usize = 0;
    if n > 0 && w[0] == '-' {
        return None;
    }
    if n > 0 && w[0] == '+' {
        i = 1;
    }
    if i == n {
        return None;
    }
    let ghost start = i as int;
    proof {
        assert(digit_part(w@) =~= w@.subrange(start, n as int));
    }
    let mut acc: u128 = 0;
    while i < n
        invariant
            n == w@.len(),
            start <= i <= n,
            0 <= start <= 1,
            w@.len() > 0 ==> w@[0] != '-',
            digit_part(w@) == w@.subrange(start, n as int),
            all_digits(w@.subrange(start, i as int)),
            acc == digits_val(w@.subrange(start, i as int)),
            acc <= usize::MAX,
        decreases n - i,
    {
        let c = w[i];
        let cu = c as u32;
        if cu < 48 || cu > 57 {
            proof {
                assert(w@.subrange(start, n as int)[i - start] == w@[i as int]);
                assert(!all_digits(digit_part(w@)));
            }
            return None;
        }
        acc = acc * 10 + ((cu - 48) as u128);
        proof {
            lemma_digits_step(w@, start, i as int);
        }
        i += 1;
        if acc > usize::MAX as u128 {
            proof {
                if all_digits(digit_part(w@)) {
                    lemma_digits_val_prefix(w@.subrange(start, n as int), i - start);
                    assert(w@.subrange(start, n as int).take(i - start) =~= w@.subrange(
                        start,
                        i as int,
                    ));
                }
            }
            return None;
        }
    }
    Some(acc as usize)
}

/// The decimal digits of an unsigned value, most significant first.
pub open spec fn dec_digits(n: nat) -> Seq<u8>
    decreases n,
{
    if n < 10 {
        seq![(48 + n) as u8]
    } else {
        dec_digits(n / 10) + seq![(48 + n % 10) as u8]
    }
}

/// The decimal rendering of a signed value: a minus sign where negative,
/// then the digits of its magnitude.
pub open spec fn dec_int(v: int) -> Seq<u8> {
    if v < 0 {
        seq![45u8] + dec_digits((-v) as nat)
    } else {
        dec_digits(v as nat)
    }
}

/// Writes an unsigned value in decimal.
pub fn render_u32(n: u32) -> (r: Vec<u8>)
    ensures
        r@ == dec_digits(n as nat),
    decreases n,
{
    if n < 10 {
        let mut v: Vec<u8> = Vec::new();
        v.push((48 + n) as u8);
        proof {
            assert(v@ =~= dec_digits(n as nat));
        }
        v
    } else {
        let mut v = render_u32(n / 10);
        v.push((48 + n % 10) as u8);
        proof {
            assert(v@ =~= dec_digits(n as nat));
        }
        v
    }
}

/// Writes a signed value in decimal.
pub fn render_i32(v: i32) -> (r: Vec<u8>)
    ensures
        r@ == dec_int(v as int),
{
    if v >= 0 {
        render_u32(v as u32)
    } else {
        let m: u32 = if v == i32::MIN {
            0x8000_0000
        } else {
            (-v) as u32
        };
        let mut out: Vec<u8> = Vec::new();
        out.push(45u8);
        let mut digits = render_u32(m);
        out.append(&mut digits);
        proof {
            assert(out@ =~= dec_int(v as int));
        }
        out
    }
}

} // verus!
