//! Rendering of line numbers: the decimal digits of the counter,
//! right-aligned in a six-character field, followed by one tab.

use vstd::prelude::*;

verus! {

pub open spec fn spec_digit_char(d: int) -> char {
    if d == 0 {
        '0'
    } else if d == 1 {
        '1'
    } else if d == 2 {
        '2'
    } else if d == 3 {
        '3'
    } else if d == 4 {
        '4'
    } else if d == 5 {
        '5'
    } else if d == 6 {
        '6'
    } else if d == 7 {
        '7'
    } else if d == 8 {
        '8'
    } else {
        '9'
    }
}

/// The decimal digits of a number, most significant first.
pub open spec fn spec_digits(n: int) -> Seq<char>
    decreases n,
{
    if n <= 9 {
        seq![spec_digit_char(n)]
    } else {
        spec_digits(n / 10).push(spec_digit_char(n % 10))
    }
}

pub open spec fn spec_pad_spaces(k: int) -> Seq<char> {
    Seq::new(
        if k > 0 {
            k as nat
        } else {
            0
        },
        |i: int| ' ',
    )
}

/// A number right-aligned with spaces in a six-character field, then a tab;
/// a number of more than six digits widens the field instead of being cut.
pub open spec fn spec_number_prefix(n: int) -> Seq<char> {
    spec_pad_spaces(6 - spec_digits(n).len()) + spec_digits(n) + seq!['\t']
}

fn digit_char(d: u64) -> (c: char)
    requires
        d <= 9,
    ensures
        c == spec_digit_char(d as int),
{
    if d == 0 {
        '0'
    } else if d == 1 {
        '1'
    } else if d == 2 {
        '2'
    } else if d == 3 {
        '3'
    } else if d == 4 {
        '4'
    } else if d == 5 {
        '5'
    } else if d == 6 {
        '6'
    } else if d == 7 {
        '7'
    } else if d == 8 {
        '8'
    } else {
        '9'
    }
}

fn push_digits(n: u64, out: &mut Vec<char>)
    ensures
        final(out)@ == old(out)@ + spec_digits(n as int),
    decreases n,
{
    if n > 9 {
        push_digits(n / 10, out);
        out.push(digit_char(n % 10));
        proof {
            assert(out@ =~= old(out)@ + spec_digits(n as int));
        }
    } else {
        out.push(digit_char(n));
        proof {
            assert(out@ =~= old(out)@ + spec_digits(n as int));
        }
    }
}

pub fn number_prefix(n: u64) -> (r: Vec<char>)
    ensures
        r@ == spec_number_prefix(n as int),
{
    let mut ds: Vec<char> = Vec::new();
    push_digits(n, &mut ds);
    proof {
        assert(ds@ =~= spec_digits(n as int));
    }
    let mut r: Vec<char> = Vec::new();
    if ds.len() < 6 {
        let target: usize = 6 - ds.len();
        let mut pad: usize = 0;
        while pad < target
            invariant
                pad <= target,
                r@.len() == pad,
                forall|j: int| 0 <= j < pad ==> r@[j] == ' ',
            decreases target - pad,
        {
            r.push(' ');
            pad += 1;
        }
    }
    proof {
        assert(r@ =~= spec_pad_spaces(6 - ds@.len()));
        assert(r@ =~= spec_pad_spaces(6 - ds@.len()) + ds@.subrange(0, 0));
    }
    let mut i: usize = 0;
    while i < ds.len()
        invariant
            i <= ds@.len(),
            r@ == spec_pad_spaces(6 - ds@.len()) + ds@.subrange(0, i as int),
        decreases ds@.len() - i,
    {
        r.push(ds[i]);
        proof {
            assert(ds@.subrange(0, i + 1 as int) =~= ds@.subrange(0, i as int).push(ds@[i as int]));
            assert(r@ =~= spec_pad_spaces(6 - ds@.len()) + ds@.subrange(0, i + 1 as int));
        }
        i += 1;
    }
    r.push('\t');
    proof {
        assert(ds@.subrange(0, ds@.len() as int) =~= ds@);
        assert(r@ =~= spec_number_prefix(n as int));
    }
    r
}

} // verus!
