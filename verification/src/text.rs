//! Character classification and small string utilities that the line
//! transformation is built on.

use vstd::prelude::*;
use vstd::string::StrSliceExecFns;

verus! {

/// Characters with the Unicode `White_Space` property. A line is blank when
/// it holds nothing but these.
pub open spec fn spec_is_white(c: char) -> bool {
    let v = c as u32;
    ||| (0x09 <= v && v <= 0x0d)
    ||| v == 0x20
    ||| v == 0x85
    ||| v == 0xa0
    ||| v == 0x1680
    ||| (0x2000 <= v && v <= 0x200a)
    ||| v == 0x2028
    ||| v == 0x2029
    ||| v == 0x202f
    ||| v == 0x205f
    ||| v == 0x3000
}

/// A blank line: empty once leading and trailing whitespace is trimmed,
/// that is, made of whitespace only.
pub open spec fn spec_is_blank(line: Seq<char>) -> bool {
    forall|i: int| 0 <= i < line.len() ==> spec_is_white(#[trigger] line[i])
}

/// ASCII graphic characters: `!` through `~`.
pub open spec fn spec_is_ascii_graphic(c: char) -> bool {
    0x21 <= c as u32 && c as u32 <= 0x7e
}

/// ASCII whitespace: space, horizontal tab, line feed, form feed,
/// carriage return.
pub open spec fn spec_is_ascii_white(c: char) -> bool {
    let v = c as u32;
    v == 0x20 || v == 0x09 || v == 0x0a || v == 0x0c || v == 0x0d
}

/// Unicode scalar values: code points below the surrogate range, or between
/// the end of the surrogate range and the greatest code point.
pub open spec fn spec_scalar_value(v: u32) -> bool {
    v < 0xd800 || (0xe000 <= v && v <= 0x10ffff)
}

pub fn is_white(c: char) -> (r: bool)
    ensures
        r == spec_is_white(c),
{
    let v: u32 = c as u32;
    (0x09 <= v && v <= 0x0d) || v == 0x20 || v == 0x85 || v == 0xa0 || v == 0x1680 || (0x2000 <= v
        && v <= 0x200a) || v == 0x2028 || v == 0x2029 || v == 0x202f || v == 0x205f || v == 0x3000
}

pub fn line_is_blank(line: &Vec<char>) -> (r: bool)
    ensures
        r == spec_is_blank(line@),
{
    let mut i: usize = 0;
    while i < line.len()
        invariant
            i <= line@.len(),
            forall|j: int| 0 <= j < i ==> spec_is_white(#[trigger] line@[j]),
        decreases line@.len() - i,
    {
        if !is_white(line[i]) {
            return false;
        }
        i += 1;
    }
    true
}

/// The characters of a string, in order, as a vector.
pub fn str_chars(s: &str) -> (r: Vec<char>)
    ensures
        r@ == s@,
{
    let n: usize = s.unicode_len();
    let mut r: Vec<char> = Vec::new();
    let mut i: usize = 0;
    while i < n
        invariant
            i <= n,
            n == s@.len(),
            r@ == s@.subrange(0, i as int),
        decreases n - i,
    {
        r.push(s.get_char(i));
        proof {
            assert(s@.subrange(0, i + 1 as int) =~= s@.subrange(0, i as int).push(s@[i as int]));
        }
        i += 1;
    }
    proof {
        assert(s@.subrange(0, n as int) =~= s@);
    }
    r
}

/// Whether two string slices hold the same characters.
pub fn str_eq(a: &str, b: &str) -> (r: bool)
    ensures
        r == (a@ == b@),
{
    let n: usize = a.unicode_len();
    if n != b.unicode_len() {
        return false;
    }
    let mut i: usize = 0;
    while i < n
        invariant
            i <= n,
            n == a@.len(),
            n == b@.len(),
            forall|j: int| 0 <= j < i ==> a@[j] == b@[j],
        decreases n - i,
    {
        if a.get_char(i) != b.get_char(i) {
            return false;
        }
        i += 1;
    }
    proof {
        assert(a@ =~= b@);
    }
    true
}

/// Relies on `String::push`: appends exactly the given character.
#[verifier::external_body]
fn push_char(s: &mut String, c: char)
    ensures
        final(s)@ == old(s)@.push(c),
{
    s.push(c);
}

/// Relies on `char::from_u32`: returns `Some` exactly when the value is a
/// Unicode scalar value, holding the character with that code point.
#[verifier::external_body]
fn char_from_u32(v: u32) -> (r: Option<char>)
    ensures
        r == (if spec_scalar_value(v) {
            Some(v as char)
        } else {
            None::<char>
        }),
{
    char::from_u32(v)
}

/// A string holding exactly the given characters.
pub fn chars_to_string(v: &Vec<char>) -> (r: String)
    ensures
        r@ == v@,
{
    let mut r: String = String::new();
    let mut i: usize = 0;
    while i < v.len()
        invariant
            i <= v@.len(),
            r@ == v@.subrange(0, i as int),
        decreases v@.len() - i,
    {
        push_char(&mut r, v[i]);
        proof {
            assert(v@.subrange(0, i + 1 as int) =~= v@.subrange(0, i as int).push(v@[i as int]));
        }
        i += 1;
    }
    proof {
        assert(v@.subrange(0, v@.len() as int) =~= v@);
    }
    r
}

/// The caret form of a character: `^` followed by the character 64 code
/// points up; a character whose shifted code point is no Unicode scalar
/// value stays as it is.
pub open spec fn spec_caret_notation(c: char) -> Seq<char> {
    if spec_scalar_value((c as u32 + 64) as u32) {
        seq!['^', ((c as u32 + 64) as u32) as char]
    } else {
        seq![c]
    }
}

pub fn push_caret_notation(out: &mut Vec<char>, c: char)
    ensures
        final(out)@ == old(out)@ + spec_caret_notation(c),
{
    let v: u32 = c as u32;
    match char_from_u32(v + 64) {
        Some(e) => {
            out.push('^');
            out.push(e);
            proof {
                assert(out@ =~= old(out)@ + spec_caret_notation(c));
            }
        },
        None => {
            out.push(c);
            proof {
                assert(out@ =~= old(out)@ + spec_caret_notation(c));
            }
        },
    }
}

} // verus!
