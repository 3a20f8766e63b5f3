//! Passwords.
use vstd::prelude::*;
use crate::text::push_char;
use super::rand::random_in;

verus! {

/// The characters a password is made of: letters, digits and `!@#$%^&*-_`.
pub const CHARSET: [u8; 72] = [
    65, 66, 67, 68, 69, 70, 71, 72, 73, 74, 75, 76, 77, 78, 79, 80, 81, 82, 83, 84, 85, 86, 87,
    88, 89, 90, 97, 98, 99, 100, 101, 102, 103, 104, 105, 106, 107, 108, 109, 110, 111, 112, 113,
    114, 115, 116, 117, 118, 119, 120, 121, 122, 48, 49, 50, 51, 52, 53, 54, 55, 56, 57, 33, 64,
    35, 36, 37, 94, 38, 42, 45, 95,
];

/// The character of `CHARSET` at `i`.
pub open spec fn charset_char(i: int) -> char {
    CHARSET@[i] as char
}

/// Whether `c` is one of the characters of `CHARSET`.
pub open spec fn in_charset(c: char) -> bool {
    exists|i: int| 0 <= i < 72 && charset_char(i) == c
}

/// The password that the indices `indices` into `CHARSET` spell.
pub fn password_from_indices(indices: &Vec<usize>) -> (res: String)
    requires
        forall|k: int| 0 <= k < indices@.len() ==> indices@[k] < 72,
    ensures
        res@ == indices@.map_values(|i: usize| charset_char(i as int)),
{
    let mut password = String::new();
    for k in 0..indices.len()
        invariant
            forall|j: int| 0 <= j < indices@.len() ==> indices@[j] < 72,
            password@ == indices@.take(k as int).map_values(|i: usize| charset_char(i as int)),
    {
        let idx = indices[k];
        push_char(&mut password, CHARSET[idx] as char);
        assert(indices@.take(k + 1).map_values(|i: usize| charset_char(i as int))
            == indices@.take(k as int).map_values(|i: usize| charset_char(i as int)).push(
            charset_char(idx as int),
        ));
    }
    assert(indices@.take(indices@.len() as int) == indices@);
    password
}

/// Generates a secure password with the given length: each character is drawn at random
/// from `CHARSET`.
pub fn gen_password(len: usize) -> (res: String)
    ensures
        res@.len() == len,
        forall|k: int| 0 <= k < res@.len() ==> in_charset(#[trigger] res@[k]),
{
    let mut indices: Vec<usize> = Vec::new();
    for k in 0..len
        invariant
            indices@.len() == k,
            forall|j: int| 0 <= j < indices@.len() ==> indices@[j] < 72,
    {
        let r = random_in(0..72);
        indices.push(r as usize);
    }
    let res = password_from_indices(&indices);
    assert forall|k: int| 0 <= k < res@.len() implies in_charset(#[trigger] res@[k]) by {
        let i = indices@[k] as int;
        assert(charset_char(i) == res@[k]);
    }
    res
}

/// The password characters are exactly the ASCII letters, the decimal digits and the ten
/// symbols `!@#$%^&*-_`.
pub proof fn law_password_charset(c: char)
    ensures
        in_charset(c) <==> (('A' <= c && c <= 'Z') || ('a' <= c && c <= 'z') || ('0' <= c && c <= '9') || c == '!'
            || c == '@' || c == '#' || c == '$' || c == '%' || c == '^' || c == '&' || c == '*' || c == '-' || c
            == '_'),
{
    assert(CHARSET@ == seq![65u8, 66u8, 67u8, 68u8, 69u8, 70u8, 71u8, 72u8, 73u8, 74u8, 75u8, 76u8, 77u8, 78u8, 79u8, 80u8, 81u8, 82u8, 83u8, 84u8, 85u8, 86u8, 87u8, 88u8, 89u8, 90u8, 97u8, 98u8, 99u8, 100u8, 101u8, 102u8, 103u8, 104u8, 105u8, 106u8, 107u8, 108u8, 109u8, 110u8, 111u8, 112u8, 113u8, 114u8, 115u8, 116u8, 117u8, 118u8, 119u8, 120u8, 121u8, 122u8, 48u8, 49u8, 50u8, 51u8, 52u8, 53u8, 54u8, 55u8, 56u8, 57u8, 33u8, 64u8, 35u8, 36u8, 37u8, 94u8, 38u8, 42u8, 45u8, 95u8]);
    if in_charset(c) {
        let i = choose|i: int| 0 <= i < 72 && charset_char(i) == c;
        assert(charset_char(i) == CHARSET@[i] as char);
    }
    if 'A' <= c && c <= 'Z' {
        assert(charset_char(c as int - 'A' as int) == c);
    } else if 'a' <= c && c <= 'z' {
        assert(charset_char(26 + c as int - 'a' as int) == c);
    } else if '0' <= c && c <= '9' {
        assert(charset_char(52 + c as int - '0' as int) == c);
    } else if c == '!' {
        assert(charset_char(62) == c);
    } else if c == '@' {
        assert(charset_char(63) == c);
    } else if c == '#' {
        assert(charset_char(64) == c);
    } else if c == '$' {
        assert(charset_char(65) == c);
    } else if c == '%' {
        assert(charset_char(66) == c);
    } else if c == '^' {
        assert(charset_char(67) == c);
    } else if c == '&' {
        assert(charset_char(68) == c);
    } else if c == '*' {
        assert(charset_char(69) == c);
    } else if c == '-' {
        assert(charset_char(70) == c);
    } else if c == '_' {
        assert(charset_char(71) == c);
    }
}

} // verus!
