//! Derivation of a default table name from a host-language identifier:
//! lower snake case, bit-exact.

use vstd::prelude::*;
use vstd::string::*;

use crate::text::push_char;

verus! {

/// An ASCII uppercase letter.
pub open spec fn is_ascii_upper(c: char) -> bool {
    65 <= c as int && c as int <= 90
}

/// An ASCII lowercase letter.
pub open spec fn is_ascii_lower(c: char) -> bool {
    97 <= c as int && c as int <= 122
}

/// An ASCII decimal digit.
pub open spec fn is_ascii_digit(c: char) -> bool {
    48 <= c as int && c as int <= 57
}

/// The lowercase counterpart of an ASCII uppercase letter.
pub open spec fn lower_ascii(c: char) -> char {
    ((c as u8) + 32) as char
}

/// What one character contributes to the snake-case text, given whether
/// the character before it was a lowercase letter or a digit: an
/// underscore is inserted before an uppercase letter that follows a
/// lowercase letter or digit — so runs of uppercase letters get no extra
/// separator — uppercase letters are lowered, and any non-alphanumeric
/// character becomes an underscore.
pub open spec fn snake_emit(c: char, prev_lower_or_digit: bool) -> Seq<char> {
    if is_ascii_upper(c) {
        if prev_lower_or_digit {
            seq!['_', lower_ascii(c)]
        } else {
            seq![lower_ascii(c)]
        }
    } else if is_ascii_lower(c) || is_ascii_digit(c) {
        seq![c]
    } else {
        seq!['_']
    }
}

/// The snake-case text of `s`, carrying whether the character before the
/// first one of `s` was a lowercase letter or a digit.
pub open spec fn snake_from(s: Seq<char>, prev_lower_or_digit: bool) -> Seq<char>
    decreases s.len(),
{
    if s.len() == 0 {
        Seq::empty()
    } else {
        snake_emit(s[0], prev_lower_or_digit) + snake_from(
            s.skip(1),
            is_ascii_lower(s[0]) || is_ascii_digit(s[0]),
        )
    }
}

/// The lower-snake-case form of an identifier.
pub open spec fn snake_case(s: Seq<char>) -> Seq<char> {
    snake_from(s, false)
}

/// Convert an identifier made of letter and digit runs into lower snake
/// case: an underscore is inserted before an uppercase letter that follows
/// a lowercase letter or digit, runs of uppercase letters get no extra
/// separator, and any non-alphanumeric character becomes an underscore.
pub fn to_snake_case(s: &str) -> (r: String)
    ensures
        r@ == snake_case(s@),
{
    let len = s.unicode_len();
    let mut result = String::new();
    let mut last_was_lower_or_digit = false;
    let mut i: usize = 0;
    proof {
        assert(s@.skip(0) =~= s@);
        assert(result@ + snake_from(s@, false) =~= snake_from(s@, false));
    }
    while i < len
        invariant
            len == s@.len(),
            i <= len,
            snake_case(s@) == result@ + snake_from(s@.skip(i as int), last_was_lower_or_digit),
        decreases len - i,
    {
        let ghost before = result@;
        let ghost rest = s@.skip(i as int);
        let ghost prev = last_was_lower_or_digit;
        let c = s.get_char(i);
        if is_upper(c) {
            if last_was_lower_or_digit {
                push_char(&mut result, '_');
            }
            push_char(&mut result, to_lower(c));
        } else if is_lower(c) || is_digit(c) {
            push_char(&mut result, c);
        } else {
            push_char(&mut result, '_');
        }
        last_was_lower_or_digit = is_lower(c) || is_digit(c);
        proof {
            assert(rest[0] == c);
            assert(rest.skip(1) =~= s@.skip(i as int + 1));
            assert(result@ =~= before + snake_emit(c, prev));
        }
        i += 1;
    }
    proof {
        assert(s@.skip(len as int) =~= Seq::<char>::empty());
    }
    result
}

/// The table name a record type gets: the explicit override when one was
/// supplied — left untouched — and the identifier in lower snake case
/// otherwise.
pub fn derive_table_name(explicit: Option<String>, ident: &str) -> (r: String)
    ensures
        match explicit {
            Some(n) => r@ == n@,
            None => r@ == snake_case(ident@),
        },
{
    match explicit {
        Some(n) => n,
        None => to_snake_case(ident),
    }
}

/// Whether `c` is an ASCII uppercase letter.
fn is_upper(c: char) -> (r: bool)
    ensures
        r == is_ascii_upper(c),
{
    let u = c as u32;
    65 <= u && u <= 90
}

/// Whether `c` is an ASCII lowercase letter.
fn is_lower(c: char) -> (r: bool)
    ensures
        r == is_ascii_lower(c),
{
    let u = c as u32;
    97 <= u && u <= 122
}

/// Whether `c` is an ASCII decimal digit.
fn is_digit(c: char) -> (r: bool)
    ensures
        r == is_ascii_digit(c),
{
    let u = c as u32;
    48 <= u && u <= 57
}

/// The lowercase counterpart of an ASCII uppercase letter.
fn to_lower(c: char) -> (r: char)
    requires
        is_ascii_upper(c),
    ensures
        r == lower_ascii(c),
{
    ((c as u8) + 32) as char
}

} // verus!
