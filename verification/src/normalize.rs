//! City-name normalization: ASCII title-casing and the derived
//! "City, State" key of the reverse index.

use vstd::prelude::*;

use crate::text::push_char;

verus! {

/// True for an ASCII lower-case letter.
pub open spec fn is_ascii_lower(c: char) -> bool {
    'a' <= c && c <= 'z'
}

/// True for an ASCII upper-case letter.
pub open spec fn is_ascii_upper(c: char) -> bool {
    'A' <= c && c <= 'Z'
}

/// ASCII upper-casing of one character; anything but a lower-case
/// ASCII letter is left unchanged.
pub open spec fn spec_upper(c: char) -> char {
    if is_ascii_lower(c) {
        (c as u32 - 32) as char
    } else {
        c
    }
}

/// ASCII lower-casing of one character; anything but an upper-case
/// ASCII letter is left unchanged.
pub open spec fn spec_lower(c: char) -> char {
    if is_ascii_upper(c) {
        (c as u32 + 32) as char
    } else {
        c
    }
}

/// Title-casing of a string: the first character of each space-separated
/// word is upper-cased, every other character is lower-cased.
pub open spec fn spec_title_case(s: Seq<char>) -> Seq<char> {
    Seq::new(
        s.len(),
        |i: int|
            if i == 0 || s[i - 1] == ' ' {
                spec_upper(s[i])
            } else {
                spec_lower(s[i])
            },
    )
}

/// The reverse-index key of a city and a state: the title-cased city,
/// a comma and a space, then the state code unchanged.
pub open spec fn spec_city_key(city: Seq<char>, state: Seq<char>) -> Seq<char> {
    spec_title_case(city) + ", "@ + state
}

/// Upper-cases one ASCII letter.
pub fn upper_char(c: char) -> (r: char)
    ensures
        r == spec_upper(c),
{
    if 'a' <= c && c <= 'z' {
        ((c as u8) - 32) as char
    } else {
        c
    }
}

/// Lower-cases one ASCII letter.
pub fn lower_char(c: char) -> (r: char)
    ensures
        r == spec_lower(c),
{
    if 'A' <= c && c <= 'Z' {
        ((c as u8) + 32) as char
    } else {
        c
    }
}

/// Title-cases a string: the first character of each space-separated word
/// is upper-cased, every other character lower-cased.
pub fn title_case(s: &str) -> (r: String)
    ensures
        r@ == spec_title_case(s@),
{
    let n = s.unicode_len();
    let mut out = String::new();
    let mut at_word_start = true;
    let mut i: usize = 0;
    while i < n
        invariant
            n == s@.len(),
            i <= n,
            out@ == spec_title_case(s@).subrange(0, i as int),
            at_word_start == (i == 0 || s@[i as int - 1] == ' '),
        decreases n - i,
    {
        let c = s.get_char(i);
        let d = if at_word_start {
            upper_char(c)
        } else {
            lower_char(c)
        };
        push_char(&mut out, d);
        at_word_start = c == ' ';
        i = i + 1;
        proof {
            assert(out@ =~= spec_title_case(s@).subrange(0, i as int));
        }
    }
    proof {
        assert(out@ =~= spec_title_case(s@));
    }
    out
}

/// Builds the reverse-index key of a city and a state.
pub fn city_key(city: &str, state: &str) -> (r: String)
    ensures
        r@ == spec_city_key(city@, state@),
{
    let mut r = title_case(city);
    r.append(", ");
    r.append(state);
    r
}

/// Upper-casing a character leaves it outside the lower-case letters, so
/// doing it twice is the same as doing it once; likewise for lower-casing.
proof fn lemma_case_idempotent(c: char)
    ensures
        spec_upper(spec_upper(c)) == spec_upper(c),
        spec_lower(spec_lower(c)) == spec_lower(c),
        spec_upper(c) == ' ' <==> c == ' ',
        spec_lower(c) == ' ' <==> c == ' ',
{
}

/// Title-casing is idempotent: normalizing an already-normalized string
/// changes nothing, so the key stored with a record and the key a later
/// normalization would derive from it are the same string.
pub proof fn lemma_title_case_idempotent(s: Seq<char>)
    ensures
        spec_title_case(spec_title_case(s)) == spec_title_case(s),
{
    let t = spec_title_case(s);
    assert forall|i: int| 0 <= i < t.len() implies spec_title_case(t)[i] == t[i] by {
        lemma_case_idempotent(s[i]);
        if i > 0 {
            lemma_case_idempotent(s[i - 1]);
        }
    }
    assert(spec_title_case(t) =~= t);
}

/// City-key derivation is consistent with the normalization a record's own
/// city field received: keying by an already title-cased city gives the
/// same key as keying by the raw city.
pub proof fn lemma_city_key_consistent(city: Seq<char>, state: Seq<char>)
    ensures
        spec_city_key(spec_title_case(city), state) == spec_city_key(city, state),
{
    lemma_title_case_idempotent(city);
}

} // verus!
