//! Masking of credentials in text that is logged.
//!
//! Request URLs and provider error bodies may embed the API key; they are
//! passed through `mask_secret` before they reach a log line, so the
//! credential cannot leak there.

use crate::text::push_char;
use vstd::prelude::*;

verus! {

/// The character that stands in for each character of a masked credential:
/// the full-block character.
pub const MASK_CHAR: char = '\u{2588}';

/// Whether `sub` occurs in `s` at position `i`.
pub open spec fn occurs_at(s: Seq<char>, sub: Seq<char>, i: int) -> bool {
    0 <= i && i + sub.len() <= s.len() && s.subrange(i, i + sub.len()) == sub
}

/// The text with every occurrence of the secret replaced, scanning left to
/// right, by as many mask characters.
pub open spec fn mask_spec(s: Seq<char>, secret: Seq<char>) -> Seq<char>
    decreases s.len(),
{
    if secret.len() == 0 || s.len() < secret.len() {
        s
    } else if s.take(secret.len() as int) == secret {
        Seq::new(secret.len(), |x: int| MASK_CHAR) + mask_spec(s.skip(secret.len() as int), secret)
    } else {
        seq![s[0]] + mask_spec(s.skip(1), secret)
    }
}

/// Masking keeps the text's length.
pub proof fn lemma_mask_len(s: Seq<char>, secret: Seq<char>)
    ensures
        mask_spec(s, secret).len() == s.len(),
    decreases s.len(),
{
    if secret.len() == 0 || s.len() < secret.len() {
    } else if s.take(secret.len() as int) == secret {
        lemma_mask_len(s.skip(secret.len() as int), secret);
    } else {
        lemma_mask_len(s.skip(1), secret);
    }
}

/// Each position of the masked text carries the mask character or the
/// original character of that position.
pub proof fn lemma_mask_pointwise(s: Seq<char>, secret: Seq<char>, p: int)
    requires
        0 <= p < s.len(),
    ensures
        mask_spec(s, secret)[p] == MASK_CHAR || mask_spec(s, secret)[p] == s[p],
    decreases s.len(),
{
    lemma_mask_len(s, secret);
    let k = secret.len() as int;
    if secret.len() == 0 || s.len() < secret.len() {
    } else if s.take(k) == secret {
        lemma_mask_len(s.skip(k), secret);
        if p >= k {
            lemma_mask_pointwise(s.skip(k), secret, p - k);
            assert(mask_spec(s, secret)[p] == mask_spec(s.skip(k), secret)[p - k]);
            assert(s.skip(k)[p - k] == s[p]);
        }
    } else {
        if p == 0 {
            assert(mask_spec(s, secret)[0] == s[0]);
        } else {
            lemma_mask_len(s.skip(1), secret);
            lemma_mask_pointwise(s.skip(1), secret, p - 1);
            assert(mask_spec(s, secret)[p] == mask_spec(s.skip(1), secret)[p - 1]);
            assert(s.skip(1)[p - 1] == s[p]);
        }
    }
}

/// Where the secret occurs in the source text, the left-to-right scan leaves
/// a mask character somewhere inside that window.
proof fn lemma_mask_covers_occurrence(s: Seq<char>, secret: Seq<char>, i: int)
    requires
        secret.len() > 0,
        occurs_at(s, secret, i),
    ensures
        exists|p: int|
            i <= p < i + secret.len() && 0 <= p < s.len() && #[trigger] mask_spec(s, secret)[p]
                == MASK_CHAR,
    decreases s.len(),
{
    lemma_mask_len(s, secret);
    let k = secret.len() as int;
    if s.take(k) == secret {
        lemma_mask_len(s.skip(k), secret);
        if i < k {
            assert(mask_spec(s, secret)[i] == MASK_CHAR);
        } else {
            assert(s.skip(k).subrange(i - k, i - k + k) =~= s.subrange(i, i + k));
            assert(occurs_at(s.skip(k), secret, i - k));
            lemma_mask_covers_occurrence(s.skip(k), secret, i - k);
            let p0 = choose|p: int|
                i - k <= p < i - k + secret.len() && 0 <= p < s.skip(k).len()
                    && #[trigger] mask_spec(s.skip(k), secret)[p] == MASK_CHAR;
            assert(mask_spec(s, secret)[p0 + k] == mask_spec(s.skip(k), secret)[p0]);
        }
    } else {
        if i == 0 {
            assert(s.take(k) =~= s.subrange(0, k));
            assert(false);
        } else {
            lemma_mask_len(s.skip(1), secret);
            assert(s.skip(1).subrange(i - 1, i - 1 + k) =~= s.subrange(i, i + k));
            assert(occurs_at(s.skip(1), secret, i - 1));
            lemma_mask_covers_occurrence(s.skip(1), secret, i - 1);
            let p0 = choose|p: int|
                i - 1 <= p < i - 1 + secret.len() && 0 <= p < s.skip(1).len()
                    && #[trigger] mask_spec(s.skip(1), secret)[p] == MASK_CHAR;
            assert(mask_spec(s, secret)[p0 + 1] == mask_spec(s.skip(1), secret)[p0]);
        }
    }
}

/// After masking, a secret that is non-empty and free of the mask character
/// occurs nowhere in the text.
pub proof fn lemma_mask_hides_secret(s: Seq<char>, secret: Seq<char>)
    requires
        secret.len() > 0,
        forall|t: int| 0 <= t < secret.len() ==> secret[t] != MASK_CHAR,
    ensures
        forall|i: int| !occurs_at(mask_spec(s, secret), secret, i),
{
    let r = mask_spec(s, secret);
    let k = secret.len() as int;
    lemma_mask_len(s, secret);
    assert forall|i: int| !occurs_at(r, secret, i) by {
        if occurs_at(r, secret, i) {
            assert forall|t: int| 0 <= t < k implies #[trigger] r[i + t] == s[i + t] by {
                assert(r.subrange(i, i + k)[t] == r[i + t]);
                assert(r[i + t] == secret[t]);
                lemma_mask_pointwise(s, secret, i + t);
            }
            assert(s.subrange(i, i + k) =~= secret) by {
                assert forall|t: int| 0 <= t < k implies s.subrange(i, i + k)[t] == secret[t] by {
                    assert(r.subrange(i, i + k)[t] == r[i + t]);
                }
            }
            assert(occurs_at(s, secret, i));
            lemma_mask_covers_occurrence(s, secret, i);
            let p = choose|p: int|
                i <= p < i + secret.len() && 0 <= p < s.len() && #[trigger] mask_spec(s, secret)[p]
                    == MASK_CHAR;
            assert(r[p] == r.subrange(i, i + k)[p - i]);
            assert(r[p] == secret[p - i]);
            assert(false);
        }
    }
}

/// Window equality of a pattern against the text at a position.
fn window_matches(s: &str, at: usize, pat: &str) -> (r: bool)
    requires
        at + pat@.len() <= s@.len(),
    ensures
        r == (s@.subrange(at as int, at as int + pat@.len()) == pat@),
{
    let k: usize = pat.unicode_len();
    let n: usize = s.unicode_len();
    let mut t: usize = 0;
    while t < k
        invariant
            t <= k,
            k == pat@.len(),
            n == s@.len(),
            at + k <= n,
            forall|x: int| 0 <= x < t ==> s@[at + x] == pat@[x],
        decreases k - t,
    {
        if s.get_char(at + t) != pat.get_char(t) {
            proof {
                if s@.subrange(at as int, at as int + pat@.len()) == pat@ {
                    assert(s@.subrange(at as int, at as int + pat@.len())[t as int] == s@[at + t]);
                }
            }
            return false;
        }
        t += 1;
    }
    proof {
        assert(s@.subrange(at as int, at as int + pat@.len()) =~= pat@);
    }
    true
}

/// Replaces every occurrence of the secret in the text, scanning left to
/// right, by as many mask characters.
pub fn mask_secret(s: &str, secret: &str) -> (r: String)
    ensures
        r@ == mask_spec(s@, secret@),
        r@.len() == s@.len(),
{
    proof {
        lemma_mask_len(s@, secret@);
    }
    let k: usize = secret.unicode_len();
    let n: usize = s.unicode_len();
    if k == 0 {
        return s.to_owned();
    }
    let mut out = String::new();
    let mut i: usize = 0;
    proof {
        assert(s@.skip(0) =~= s@);
        assert(out@ + mask_spec(s@.skip(0), secret@) =~= mask_spec(s@, secret@));
    }
    while i < n
        invariant
            i <= n,
            n == s@.len(),
            k == secret@.len(),
            k >= 1,
            out@.len() == i,
            out@ + mask_spec(s@.skip(i as int), secret@) == mask_spec(s@, secret@),
        decreases n - i,
    {
        let ghost rem = s@.skip(i as int);
        if n - i >= k && window_matches(s, i, secret) {
            proof {
                assert(rem.take(k as int) =~= s@.subrange(i as int, i as int + k as int));
                assert(mask_spec(rem, secret@) == Seq::new(k as nat, |x: int| MASK_CHAR)
                    + mask_spec(rem.skip(k as int), secret@));
                assert(rem.skip(k as int) =~= s@.skip(i + k));
            }
            let ghost out_before = out@;
            let mut t: usize = 0;
            while t < k
                invariant
                    t <= k,
                    out@ == out_before + Seq::new(t as nat, |x: int| MASK_CHAR),
                decreases k - t,
            {
                push_char(&mut out, MASK_CHAR);
                proof {
                    assert(out@ =~= out_before + Seq::new((t + 1) as nat, |x: int| MASK_CHAR));
                }
                t += 1;
            }
            proof {
                assert(out@ + mask_spec(s@.skip(i + k), secret@) =~= mask_spec(s@, secret@));
            }
            i += k;
        } else {
            proof {
                if n - i >= k {
                    assert(rem.take(k as int) =~= s@.subrange(i as int, i as int + k as int));
                    assert(mask_spec(rem, secret@) == seq![rem[0]] + mask_spec(
                        rem.skip(1),
                        secret@,
                    ));
                } else {
                    assert(mask_spec(rem, secret@) == rem);
                    assert(mask_spec(rem.skip(1), secret@) == rem.skip(1));
                    assert(rem =~= seq![rem[0]] + rem.skip(1));
                }
                assert(rem[0] == s@[i as int]);
                assert(rem.skip(1) =~= s@.skip(i + 1));
            }
            push_char(&mut out, s.get_char(i));
            proof {
                assert(out@ + mask_spec(s@.skip(i + 1), secret@) =~= mask_spec(s@, secret@));
            }
            i += 1;
        }
    }
    proof {
        assert(s@.skip(n as int) =~= Seq::<char>::empty());
        assert(out@ =~= mask_spec(s@, secret@));
    }
    out
}

} // verus!
