//! Verified text helpers: building strings character by character, decimal
//! formatting, and character-sequence comparisons used across the crate.

use vstd::prelude::*;

verus! {

/// Relies on String::push: appends exactly one character to the string.
#[verifier::external_body]
pub fn push_char(s: &mut String, c: char)
    ensures
        final(s)@ == old(s)@.push(c),
{
    s.push(c)
}

/// A one-character string.
pub fn char_to_string(c: char) -> (r: String)
    ensures
        r@ == seq![c],
{
    let mut s = String::new();
    push_char(&mut s, c);
    proof {
        assert(s@ =~= seq![c]);
    }
    s
}

/// The decimal digit character for a value below ten.
pub open spec fn spec_digit(n: int) -> char {
    if n == 0 {
        '0'
    } else if n == 1 {
        '1'
    } else if n == 2 {
        '2'
    } else if n == 3 {
        '3'
    } else if n == 4 {
        '4'
    } else if n == 5 {
        '5'
    } else if n == 6 {
        '6'
    } else if n == 7 {
        '7'
    } else if n == 8 {
        '8'
    } else {
        '9'
    }
}

/// Decimal rendering of a natural number, most significant digit first.
pub open spec fn spec_dec(n: nat) -> Seq<char>
    decreases n,
{
    if n < 10 {
        seq![spec_digit(n as int)]
    } else {
        spec_dec(n / 10).push(spec_digit((n % 10) as int))
    }
}

fn digit_char(n: u64) -> (c: char)
    requires
        n < 10,
    ensures
        c == spec_digit(n as int),
{
    if n == 0 {
        '0'
    } else if n == 1 {
        '1'
    } else if n == 2 {
        '2'
    } else if n == 3 {
        '3'
    } else if n == 4 {
        '4'
    } else if n == 5 {
        '5'
    } else if n == 6 {
        '6'
    } else if n == 7 {
        '7'
    } else if n == 8 {
        '8'
    } else {
        '9'
    }
}

/// Renders a number in decimal.
pub fn u64_to_string(n: u64) -> (r: String)
    ensures
        r@ == spec_dec(n as nat),
    decreases n,
{
    if n < 10 {
        char_to_string(digit_char(n))
    } else {
        let mut s = u64_to_string(n / 10);
        push_char(&mut s, digit_char(n % 10));
        s
    }
}

/// Renders a number in decimal.
pub fn u32_to_string(n: u32) -> (r: String)
    ensures
        r@ == spec_dec(n as nat),
{
    u64_to_string(n as u64)
}

/// Whether one character sequence begins with another.
pub open spec fn spec_starts_with(s: Seq<char>, p: Seq<char>) -> bool {
    p.len() <= s.len() && s.subrange(0, p.len() as int) == p
}

/// Whether one character sequence ends with another.
pub open spec fn spec_ends_with(s: Seq<char>, p: Seq<char>) -> bool {
    p.len() <= s.len() && s.subrange(s.len() - p.len(), s.len() as int) == p
}

/// Whether a character sequence occurs anywhere inside another.
pub open spec fn spec_contains(s: Seq<char>, p: Seq<char>) -> bool {
    exists|i: int|
        0 <= i <= s.len() - p.len() && #[trigger] s.subrange(i, i + p.len()) == p
}

/// Character-for-character equality of two string slices.
pub fn str_eq(a: &str, b: &str) -> (r: bool)
    ensures
        r == (a@ == b@),
{
    let alen = a.unicode_len();
    let blen = b.unicode_len();
    if alen != blen {
        proof {
            assert(a@ != b@);
        }
        return false;
    }
    let mut i: usize = 0;
    while i < alen
        invariant
            i <= alen,
            alen == a@.len(),
            alen == b@.len(),
            forall|j: int| 0 <= j < i ==> a@[j] == b@[j],
        decreases alen - i,
    {
        if a.get_char(i) != b.get_char(i) {
            return false;
        }
        i += 1;
    }
    proof {
        assert(a@ =~= b@);
    }
    true
}

/// Whether `s` begins with `p`, compared character by character.
pub fn str_starts_with(s: &str, p: &str) -> (r: bool)
    ensures
        r == spec_starts_with(s@, p@),
{
    let slen = s.unicode_len();
    let plen = p.unicode_len();
    if plen > slen {
        return false;
    }
    let mut i: usize = 0;
    while i < plen
        invariant
            i <= plen,
            plen <= slen,
            slen == s@.len(),
            plen == p@.len(),
            forall|j: int| 0 <= j < i ==> s@[j] == p@[j],
        decreases plen - i,
    {
        if s.get_char(i) != p.get_char(i) {
            proof {
                assert(!spec_starts_with(s@, p@)) by {
                    assert(s@.subrange(0, p@.len() as int)[i as int] != p@[i as int]);
                }
            }
            return false;
        }
        i += 1;
    }
    proof {
        assert(s@.subrange(0, p@.len() as int) =~= p@);
    }
    true
}

/// Whether `s` ends with `p`, compared character by character.
pub fn str_ends_with(s: &str, p: &str) -> (r: bool)
    ensures
        r == spec_ends_with(s@, p@),
{
    let slen = s.unicode_len();
    let plen = p.unicode_len();
    if plen > slen {
        return false;
    }
    let off = slen - plen;
    let mut i: usize = 0;
    while i < plen
        invariant
            i <= plen,
            plen <= slen,
            slen == s@.len(),
            plen == p@.len(),
            off == slen - plen,
            forall|j: int| 0 <= j < i ==> s@[off + j] == p@[j],
        decreases plen - i,
    {
        if s.get_char(off + i) != p.get_char(i) {
            proof {
                assert(!spec_ends_with(s@, p@)) by {
                    let k = i as int;
                    assert(s@.subrange(s@.len() - p@.len(), s@.len() as int)[k] != p@[k]);
                }
            }
            return false;
        }
        i += 1;
    }
    proof {
        assert(s@.subrange(s@.len() - p@.len(), s@.len() as int) =~= p@);
    }
    true
}

/// Whether the characters of `p` occur contiguously inside `s`.
pub fn str_contains(s: &str, p: &str) -> (r: bool)
    ensures
        r == spec_contains(s@, p@),
{
    let slen = s.unicode_len();
    let plen = p.unicode_len();
    if plen > slen {
        return false;
    }
    let mut i: usize = 0;
    while i <= slen - plen
        invariant
            plen <= slen,
            slen == s@.len(),
            plen == p@.len(),
            i <= slen - plen + 1,
            forall|k: int| 0 <= k < i ==> #[trigger] s@.subrange(k, k + p@.len()) != p@,
        decreases slen - plen + 1 - i,
    {
        let mut j: usize = 0;
        let mut matched = true;
        while j < plen
            invariant
                i + plen <= slen,
                slen == s@.len(),
                plen == p@.len(),
                j <= plen,
                matched == (forall|t: int| 0 <= t < j ==> s@[i + t] == p@[t]),
            decreases plen - j,
        {
            if s.get_char(i + j) != p.get_char(j) {
                matched = false;
                proof {
                    assert(s@[i + j] != p@[j as int]);
                }
                j = plen;
            } else {
                j += 1;
            }
        }
        if matched {
            proof {
                assert(s@.subrange(i as int, i + p@.len()) =~= p@);
            }
            return true;
        } else {
            proof {
                assert(s@.subrange(i as int, i + p@.len()) != p@) by {
                    let t = choose|t: int| 0 <= t < plen && s@[i + t] != p@[t];
                    assert(s@.subrange(i as int, i + p@.len())[t] != p@[t]);
                }
            }
        }
        i += 1;
    }
    false
}

/// Appends the characters of a string slice.
pub fn append_str(s: &mut String, t: &str)
    ensures
        final(s)@ == old(s)@ + t@,
{
    s.append(t);
}


/// A character with an ASCII uppercase letter lowered; anything else
/// stands as it is.
pub open spec fn spec_lower_char(c: char) -> char {
    if 65 <= c as int <= 90 {
        ((c as u8) + 32) as char
    } else {
        c
    }
}

/// A character sequence with ASCII uppercase letters lowered.
pub open spec fn spec_lower(s: Seq<char>) -> Seq<char> {
    s.map_values(|c: char| spec_lower_char(c))
}

/// Lowers one ASCII uppercase letter.
pub fn lower_char(c: char) -> (r: char)
    ensures
        r == spec_lower_char(c),
{
    let v = c as u32;
    if 65 <= v && v <= 90 {
        ((v + 32) as u8) as char
    } else {
        c
    }
}

/// A string with ASCII uppercase letters lowered.
pub fn ascii_lower(s: &str) -> (r: String)
    ensures
        r@ == spec_lower(s@),
{
    let n = s.unicode_len();
    let mut r = String::new();
    let mut i: usize = 0;
    while i < n
        invariant
            i <= n,
            n == s@.len(),
            r@ == spec_lower(s@).take(i as int),
        decreases n - i,
    {
        let c = lower_char(s.get_char(i));
        push_char(&mut r, c);
        proof {
            assert(r@ =~= spec_lower(s@).take(i + 1));
        }
        i += 1;
    }
    proof {
        assert(spec_lower(s@).take(n as int) =~= spec_lower(s@));
    }
    r
}

/// Equality of two string slices up to ASCII case.
pub fn str_eq_ignore_ascii_case(a: &str, b: &str) -> (r: bool)
    ensures
        r == (spec_lower(a@) == spec_lower(b@)),
{
    let alen = a.unicode_len();
    let blen = b.unicode_len();
    if alen != blen {
        proof {
            assert(spec_lower(a@).len() != spec_lower(b@).len());
        }
        return false;
    }
    let mut i: usize = 0;
    while i < alen
        invariant
            i <= alen,
            alen == a@.len(),
            alen == b@.len(),
            forall|j: int| 0 <= j < i ==> spec_lower(a@)[j] == spec_lower(b@)[j],
        decreases alen - i,
    {
        if lower_char(a.get_char(i)) != lower_char(b.get_char(i)) {
            proof {
                assert(spec_lower(a@)[i as int] != spec_lower(b@)[i as int]);
            }
            return false;
        }
        i += 1;
    }
    proof {
        assert(spec_lower(a@) =~= spec_lower(b@));
    }
    true
}

/// Lexicographic order on character sequences, by code point.
pub open spec fn spec_str_le(a: Seq<char>, b: Seq<char>) -> bool
    decreases a.len(),
{
    if a.len() == 0 {
        true
    } else if b.len() == 0 {
        false
    } else if (a[0] as int) < (b[0] as int) {
        true
    } else if (a[0] as int) > (b[0] as int) {
        false
    } else {
        spec_str_le(a.drop_first(), b.drop_first())
    }
}

/// The lexicographic order is total.
pub proof fn lemma_str_le_total(a: Seq<char>, b: Seq<char>)
    ensures
        spec_str_le(a, b) || spec_str_le(b, a),
    decreases a.len(),
{
    if a.len() > 0 && b.len() > 0 && a[0] == b[0] {
        lemma_str_le_total(a.drop_first(), b.drop_first());
    }
}

/// The lexicographic order is reflexive.
pub proof fn lemma_str_le_refl(a: Seq<char>)
    ensures
        spec_str_le(a, a),
    decreases a.len(),
{
    if a.len() > 0 {
        lemma_str_le_refl(a.drop_first());
    }
}

/// The lexicographic order is transitive.
pub proof fn lemma_str_le_trans(a: Seq<char>, b: Seq<char>, c: Seq<char>)
    requires
        spec_str_le(a, b),
        spec_str_le(b, c),
    ensures
        spec_str_le(a, c),
    decreases a.len(),
{
    if a.len() > 0 && b.len() > 0 && c.len() > 0 && a[0] == b[0] && b[0] == c[0] {
        lemma_str_le_trans(a.drop_first(), b.drop_first(), c.drop_first());
    }
}

/// The lexicographic order is antisymmetric: ordered both ways, two
/// sequences are equal.
pub proof fn lemma_str_le_antisym(a: Seq<char>, b: Seq<char>)
    requires
        spec_str_le(a, b),
        spec_str_le(b, a),
    ensures
        a == b,
    decreases a.len(),
{
    if a.len() == 0 {
        assert(b.len() == 0);
        assert(a =~= b);
    } else {
        assert(a[0] == b[0]);
        lemma_str_le_antisym(a.drop_first(), b.drop_first());
        assert(a.len() == b.len());
        assert forall|i: int| 0 <= i < a.len() implies a[i] == b[i] by {
            if i > 0 {
                assert(a.drop_first()[i - 1] == a[i]);
                assert(b.drop_first()[i - 1] == b[i]);
            }
        }
        assert(a =~= b);
    }
}

/// Compares two string slices in lexicographic code-point order.
pub fn str_le(a: &str, b: &str) -> (r: bool)
    ensures
        r == spec_str_le(a@, b@),
{
    let alen = a.unicode_len();
    let blen = b.unicode_len();
    let lim = if alen < blen {
        alen
    } else {
        blen
    };
    let mut i: usize = 0;
    proof {
        assert(a@.skip(0) =~= a@);
        assert(b@.skip(0) =~= b@);
    }
    while i < lim
        invariant
            i <= lim,
            alen == a@.len(),
            blen == b@.len(),
            lim == (if alen < blen { alen as int } else { blen as int }),
            spec_str_le(a@, b@) == spec_str_le(a@.skip(i as int), b@.skip(i as int)),
            forall|j: int| 0 <= j < i ==> a@[j] == b@[j],
        decreases lim - i,
    {
        let ca = a.get_char(i) as u32;
        let cb = b.get_char(i) as u32;
        proof {
            assert(a@.skip(i as int)[0] == a@[i as int]);
            assert(b@.skip(i as int)[0] == b@[i as int]);
            assert(a@.skip(i as int).drop_first() =~= a@.skip(i + 1));
            assert(b@.skip(i as int).drop_first() =~= b@.skip(i + 1));
        }
        if ca < cb {
            return true;
        }
        if ca > cb {
            return false;
        }
        i += 1;
    }
    proof {
        assert(a@.skip(i as int).len() == alen - i);
        assert(b@.skip(i as int).len() == blen - i);
    }
    alen <= blen
}

/// One character of a JSON string body: quote and backslash are escaped,
/// the named control characters take their short forms, other control
/// characters take the `\u00..` form, and everything else stands as it
/// is.
pub open spec fn spec_json_escaped_char(c: char) -> Seq<char> {
    if c == '"' {
        seq!['\\', '"']
    } else if c == '\\' {
        seq!['\\', '\\']
    } else if c as int == 8 {
        seq!['\\', 'b']
    } else if c as int == 9 {
        seq!['\\', 't']
    } else if c as int == 10 {
        seq!['\\', 'n']
    } else if c as int == 12 {
        seq!['\\', 'f']
    } else if c as int == 13 {
        seq!['\\', 'r']
    } else if (c as int) < 32 {
        seq!['\\', 'u', '0', '0']
            + seq![crate::renderer::spec_hex_digit((c as int) / 16)]
            + seq![crate::renderer::spec_hex_digit((c as int) % 16)]
    } else {
        seq![c]
    }
}

/// The body of a JSON string, escaped character by character.
pub open spec fn spec_json_escaped(s: Seq<char>) -> Seq<char>
    decreases s.len(),
{
    if s.len() == 0 {
        Seq::empty()
    } else {
        spec_json_escaped(s.drop_last()) + spec_json_escaped_char(s.last())
    }
}

/// A JSON string literal carrying the given text.
pub open spec fn spec_json_quoted(s: Seq<char>) -> Seq<char> {
    seq!['"'] + spec_json_escaped(s) + seq!['"']
}

fn push_json_escaped_char(r: &mut String, c: char)
    ensures
        final(r)@ == old(r)@ + spec_json_escaped_char(c),
{
    let v = c as u32;
    if c == '"' {
        push_char(r, '\\');
        push_char(r, '"');
    } else if c == '\\' {
        push_char(r, '\\');
        push_char(r, '\\');
    } else if v == 8 {
        push_char(r, '\\');
        push_char(r, 'b');
    } else if v == 9 {
        push_char(r, '\\');
        push_char(r, 't');
    } else if v == 10 {
        push_char(r, '\\');
        push_char(r, 'n');
    } else if v == 12 {
        push_char(r, '\\');
        push_char(r, 'f');
    } else if v == 13 {
        push_char(r, '\\');
        push_char(r, 'r');
    } else if v < 32 {
        push_char(r, '\\');
        push_char(r, 'u');
        push_char(r, '0');
        push_char(r, '0');
        push_char(r, crate::renderer::hex_digit_char_pub((v / 16) as u8));
        push_char(r, crate::renderer::hex_digit_char_pub((v % 16) as u8));
    } else {
        push_char(r, c);
    }
    proof {
        assert(final(r)@ =~= old(r)@ + spec_json_escaped_char(c));
    }
}

/// Renders a string as a JSON string literal, with the same escaping the
/// host's JSON layer uses.
pub fn json_quote(s: &str) -> (r: String)
    ensures
        r@ == spec_json_quoted(s@),
{
    let n = s.unicode_len();
    let mut r = char_to_string('"');
    let mut i: usize = 0;
    while i < n
        invariant
            i <= n,
            n == s@.len(),
            r@ == seq!['"'] + spec_json_escaped(s@.take(i as int)),
        decreases n - i,
    {
        let c = s.get_char(i);
        proof {
            assert(s@.take(i + 1).drop_last() =~= s@.take(i as int));
            assert(s@.take(i + 1).last() == c);
        }
        push_json_escaped_char(&mut r, c);
        proof {
            assert(r@ =~= seq!['"'] + spec_json_escaped(s@.take(i + 1)));
        }
        i += 1;
    }
    push_char(&mut r, '"');
    proof {
        assert(s@.take(n as int) =~= s@);
        assert(r@ =~= spec_json_quoted(s@));
    }
    r
}

} // verus!
