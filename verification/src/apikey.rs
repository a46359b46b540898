//! Extraction of the weather-provider API key from a credential file's text.

use vstd::prelude::*;

verus! {

/// The exact length of a provider API key, in hexadecimal digits.
pub const API_KEY_LEN: usize = 32;

/// A character of the Unicode white-space set; the credential file may pad
/// the key with these on either side.
pub open spec fn is_space(c: char) -> bool {
    c == ' ' || c == '\t' || c == '\n' || c == '\r' || c == '\u{b}' || c == '\u{c}' || c
        == '\u{85}' || c == '\u{a0}' || c == '\u{1680}' || (0x2000 <= c as int && c as int
        <= 0x200a) || c == '\u{2028}' || c == '\u{2029}' || c == '\u{202f}' || c == '\u{205f}' || c
        == '\u{3000}'
}

/// A lower-case hexadecimal digit.
pub open spec fn is_hex_lower(c: char) -> bool {
    (48 <= c as int && c as int <= 57) || (97 <= c as int && c as int <= 102)
}

/// Whether the text is exactly an API key starting at `a`: whitespace up to
/// `a`, then the key's digits, then whitespace to the end.
pub open spec fn key_at(content: Seq<char>, a: int) -> bool {
    &&& 0 <= a
    &&& a + API_KEY_LEN <= content.len()
    &&& forall|i: int| 0 <= i < a ==> is_space(content[i])
    &&& forall|i: int| a <= i < a + API_KEY_LEN ==> is_hex_lower(content[i])
    &&& forall|i: int| a + API_KEY_LEN <= i < content.len() ==> is_space(content[i])
}

/// Whether the character is Unicode white space.
pub fn is_space_char(c: char) -> (r: bool)
    ensures
        r == is_space(c),
{
    let u: u32 = c as u32;
    c == ' ' || c == '\t' || c == '\n' || c == '\r' || c == '\u{b}' || c == '\u{c}' || c
        == '\u{85}' || c == '\u{a0}' || c == '\u{1680}' || (0x2000 <= u && u <= 0x200a) || c
        == '\u{2028}' || c == '\u{2029}' || c == '\u{202f}' || c == '\u{205f}' || c == '\u{3000}'
}

/// Whether the character is a lower-case hexadecimal digit.
pub fn is_hex_lower_char(c: char) -> (r: bool)
    ensures
        r == is_hex_lower(c),
{
    let u: u32 = c as u32;
    (48 <= u && u <= 57) || (97 <= u && u <= 102)
}

/// A key can only start at the first non-whitespace character of the text.
proof fn lemma_key_start_unique(content: Seq<char>, first_non_space: int)
    requires
        0 <= first_non_space <= content.len(),
        forall|i: int| 0 <= i < first_non_space ==> is_space(content[i]),
        first_non_space < content.len() ==> !is_space(content[first_non_space]),
    ensures
        forall|a: int| key_at(content, a) ==> a == first_non_space,
{
    assert forall|a: int| key_at(content, a) implies a == first_non_space by {
        if a < first_non_space {
            assert(is_space(content[a]));
            assert(is_hex_lower(content[a]));
            assert(false);
        } else if a > first_non_space {
            assert(is_space(content[first_non_space]));
            assert(false);
        }
    }
}

/// Extracts the API key from a credential file's text: `Some` exactly when
/// the text is optional whitespace, the key's lower-case hexadecimal digits,
/// and optional whitespace, in that order; the key comes back without the
/// padding.
pub fn extract_api_key(content: &str) -> (r: Option<String>)
    ensures
        match r {
            Some(k) => exists|a: int|
                #[trigger] key_at(content@, a) && k@ == content@.subrange(
                    a,
                    a + API_KEY_LEN,
                ),
            None => forall|a: int| !key_at(content@, a),
        },
{
    let n: usize = content.unicode_len();
    let mut a: usize = 0;
    while a < n && is_space_char(content.get_char(a))
        invariant
            a <= n,
            n == content@.len(),
            forall|i: int| 0 <= i < a ==> is_space(content@[i]),
        decreases n - a,
    {
        a += 1;
    }
    proof {
        lemma_key_start_unique(content@, a as int);
    }
    if a >= n || n - a < API_KEY_LEN {
        proof {
            assert(!key_at(content@, a as int));
        }
        return None;
    }
    let mut t: usize = 0;
    while t < API_KEY_LEN
        invariant
            t <= API_KEY_LEN,
            a + API_KEY_LEN <= n,
            n == content@.len(),
            forall|i: int| 0 <= i < a ==> is_space(content@[i]),
            !is_space(content@[a as int]),
            forall|i: int| a <= i < a + t ==> is_hex_lower(content@[i]),
        decreases API_KEY_LEN - t,
    {
        if !is_hex_lower_char(content.get_char(a + t)) {
            proof {
                lemma_key_start_unique(content@, a as int);
                assert(!key_at(content@, a as int));
            }
            return None;
        }
        t += 1;
    }
    let mut b: usize = a + API_KEY_LEN;
    while b < n
        invariant
            a + API_KEY_LEN <= b <= n,
            n == content@.len(),
            forall|i: int| 0 <= i < a ==> is_space(content@[i]),
            !is_space(content@[a as int]),
            forall|i: int| a <= i < a + API_KEY_LEN ==> is_hex_lower(content@[i]),
            forall|i: int| a + API_KEY_LEN <= i < b ==> is_space(content@[i]),
        decreases n - b,
    {
        if !is_space_char(content.get_char(b)) {
            proof {
                lemma_key_start_unique(content@, a as int);
                assert(!key_at(content@, a as int));
            }
            return None;
        }
        b += 1;
    }
    let key = content.substring_char(a, a + API_KEY_LEN);
    proof {
        assert(key_at(content@, a as int));
    }
    Some(key.to_owned())
}

} // verus!
