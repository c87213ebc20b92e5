//! The identifier normalizer: a file stem or a raw SQL table name becomes a
//! canonical table identifier by uppercasing every character and replacing
//! every hyphen with an underscore. Two source strings that normalize
//! identically denote the same table; raw casing and hyphenation are never
//! compared directly.

use vstd::prelude::*;

verus! {

/// The sequence of characters that `char::to_uppercase` yields for `c`: the
/// full Unicode uppercase mapping, a function of the character alone.
pub uninterp spec fn char_upper(c: char) -> Seq<char>;

/// Relies on `char::to_uppercase`: yields the Unicode uppercase mapping of
/// `c`, which depends on the character alone (it may be more than one
/// character, as for the sharp s).
#[verifier::external_body]
fn char_to_uppercase(c: char) -> (r: String)
    ensures
        r@ == char_upper(c),
{
    c.to_uppercase().collect::<String>()
}

/// Relies on `String::push`: appends the given character to the end of the
/// string.
pub assume_specification[ String::push ](s: &mut String, c: char)
    ensures
        final(s)@ == old(s)@.push(c),
;

/// A character below code point 128.
pub open spec fn is_ascii_char(c: char) -> bool {
    (c as u32) < 128
}

/// Every character of the sequence is ASCII.
pub open spec fn is_ascii_seq(s: Seq<char>) -> bool {
    forall|i: int| 0 <= i < s.len() ==> is_ascii_char(#[trigger] s[i])
}

/// The uppercase form of an ASCII letter; any other character is unchanged.
pub open spec fn ascii_upper_char(c: char) -> char {
    if 97 <= c as u32 && c as u32 <= 122 {
        (((c as u8) - 32) as char)
    } else {
        c
    }
}

/// The lowercase form of an ASCII letter; any other character is unchanged.
pub open spec fn ascii_lower_char(c: char) -> char {
    if 65 <= c as u32 && c as u32 <= 90 {
        (((c as u8) + 32) as char)
    } else {
        c
    }
}

/// A hyphen becomes an underscore; any other character is unchanged.
pub open spec fn hyphen_to_underscore(c: char) -> char {
    if c == '-' {
        '_'
    } else {
        c
    }
}

/// What one character of the raw name contributes to the normalized
/// identifier: its uppercase mapping with hyphens replaced by underscores.
pub open spec fn norm_of_char(c: char) -> Seq<char> {
    if is_ascii_char(c) {
        seq![hyphen_to_underscore(ascii_upper_char(c))]
    } else {
        char_upper(c).map_values(|d: char| hyphen_to_underscore(d))
    }
}

/// The canonical table identifier for a raw name: every character
/// uppercased, then every hyphen replaced with an underscore. No other
/// transformation takes place.
pub open spec fn normalized(s: Seq<char>) -> Seq<char>
    decreases s.len(),
{
    if s.len() == 0 {
        Seq::empty()
    } else {
        norm_of_char(s[0]) + normalized(s.drop_first())
    }
}

/// Normalization works character by character, so it distributes over
/// concatenation.
pub proof fn lemma_normalized_concat(a: Seq<char>, b: Seq<char>)
    ensures
        normalized(a + b) == normalized(a) + normalized(b),
    decreases a.len(),
{
    if a.len() == 0 {
        assert(a + b =~= b);
        assert(normalized(a) + normalized(b) =~= normalized(b));
    } else {
        assert((a + b)[0] == a[0]);
        assert((a + b).drop_first() =~= a.drop_first() + b);
        lemma_normalized_concat(a.drop_first(), b);
        assert(norm_of_char(a[0]) + (normalized(a.drop_first()) + normalized(b)) =~= (norm_of_char(
            a[0],
        ) + normalized(a.drop_first())) + normalized(b));
    }
}

/// The normalized form of a one-character string is that character's
/// contribution.
pub proof fn lemma_normalized_single(c: char)
    ensures
        normalized(seq![c]) == norm_of_char(c),
{
    let s = seq![c];
    assert(s.drop_first() =~= Seq::<char>::empty());
    assert(normalized(Seq::<char>::empty()) == Seq::<char>::empty());
    assert(normalized(s) == norm_of_char(c) + normalized(s.drop_first()));
    assert(norm_of_char(c) + Seq::<char>::empty() =~= norm_of_char(c));
}

/// Appending one character to the raw name appends its contribution to the
/// normalized identifier.
pub proof fn lemma_normalized_push(s: Seq<char>, c: char)
    ensures
        normalized(s.push(c)) == normalized(s) + norm_of_char(c),
{
    assert(s.push(c) =~= s + seq![c]);
    lemma_normalized_concat(s, seq![c]);
    lemma_normalized_single(c);
}

/// Turn a raw name (a file stem, or a table name from a SQL FROM clause)
/// into its canonical table identifier: uppercase every character, then
/// replace every hyphen with an underscore.
pub fn sql_table_name(file_name: &str) -> (r: String)
    ensures
        r@ == normalized(file_name@),
{
    let n: usize = file_name.unicode_len();
    let mut out = String::new();
    let mut i: usize = 0;
    while i < n
        invariant
            i <= n,
            n == file_name@.len(),
            out@ == normalized(file_name@.subrange(0, i as int)),
        decreases n - i,
    {
        let c = file_name.get_char(i);
        proof {
            assert(file_name@.subrange(0, i + 1) =~= file_name@.subrange(0, i as int).push(c));
            lemma_normalized_push(file_name@.subrange(0, i as int), c);
        }
        if (c as u32) < 128 {
            let d: char = if c == '-' {
                '_'
            } else if c as u32 >= 97 && c as u32 <= 122 {
                ((c as u8) - 32) as char
            } else {
                c
            };
            out.push(d);
            proof {
                assert(seq![d] =~= norm_of_char(c));
            }
        } else {
            let u = char_to_uppercase(c);
            let ghost pre = out@;
            let m: usize = u.as_str().unicode_len();
            let mut j: usize = 0;
            while j < m
                invariant
                    j <= m,
                    m == u@.len(),
                    u@ == char_upper(c),
                    out@ == pre + u@.subrange(0, j as int).map_values(
                        |d: char| hyphen_to_underscore(d),
                    ),
                decreases m - j,
            {
                let e = u.as_str().get_char(j);
                let e2: char = if e == '-' {
                    '_'
                } else {
                    e
                };
                out.push(e2);
                proof {
                    assert(u@.subrange(0, j + 1).map_values(|d: char| hyphen_to_underscore(d))
                        =~= u@.subrange(0, j as int).map_values(
                        |d: char| hyphen_to_underscore(d),
                    ).push(e2));
                }
                j += 1;
            }
            proof {
                assert(u@.subrange(0, m as int) =~= u@);
                assert(!is_ascii_char(c));
                assert(out@ == pre + norm_of_char(c));
            }
        }
        i += 1;
    }
    proof {
        assert(file_name@.subrange(0, n as int) =~= file_name@);
    }
    out
}

/// An ASCII character's contribution to a normalized identifier is a fixed
/// point of normalization: it is never a lowercase letter and never a
/// hyphen.
proof fn lemma_norm_char_fixed(c: char)
    requires
        is_ascii_char(c),
    ensures
        is_ascii_char(hyphen_to_underscore(ascii_upper_char(c))),
        norm_of_char(hyphen_to_underscore(ascii_upper_char(c))) == seq![
            hyphen_to_underscore(ascii_upper_char(c)),
        ],
{
    let d = hyphen_to_underscore(ascii_upper_char(c));
    assert(!(97 <= d as u32 && d as u32 <= 122));
    assert(d != '-');
    assert(norm_of_char(d) =~= seq![d]);
}

/// Normalization is idempotent on ASCII strings: normalizing a normalized
/// identifier gives it back unchanged.
pub proof fn lemma_normalize_idempotent(s: Seq<char>)
    requires
        is_ascii_seq(s),
    ensures
        normalized(normalized(s)) == normalized(s),
    decreases s.len(),
{
    if s.len() == 0 {
        assert(normalized(normalized(s)) =~= Seq::<char>::empty());
    } else {
        let c = s[0];
        let d = hyphen_to_underscore(ascii_upper_char(c));
        let rest = s.drop_first();
        assert(is_ascii_seq(rest));
        lemma_normalize_idempotent(rest);
        lemma_norm_char_fixed(c);
        assert(normalized(s) == seq![d] + normalized(rest));
        lemma_normalized_concat(seq![d], normalized(rest));
        lemma_normalized_single(d);
        assert(normalized(normalized(s)) =~= normalized(s));
    }
}

/// Normalization is case-insensitive on ASCII strings: lowering the case of
/// any of the characters does not change the normalized identifier.
pub proof fn lemma_normalize_case_insensitive(s: Seq<char>)
    requires
        is_ascii_seq(s),
    ensures
        normalized(s.map_values(|c: char| ascii_lower_char(c))) == normalized(s),
    decreases s.len(),
{
    let low = s.map_values(|c: char| ascii_lower_char(c));
    if s.len() == 0 {
        assert(low =~= Seq::<char>::empty());
    } else {
        let c = s[0];
        lemma_normalize_case_insensitive(s.drop_first());
        assert(low[0] == ascii_lower_char(c));
        assert(low.drop_first() =~= s.drop_first().map_values(|c: char| ascii_lower_char(c)));
        assert(hyphen_to_underscore(ascii_upper_char(ascii_lower_char(c))) == hyphen_to_underscore(
            ascii_upper_char(c),
        ));
        assert(norm_of_char(ascii_lower_char(c)) =~= norm_of_char(c));
    }
}

/// Normalization is hyphen-insensitive on ASCII strings: replacing any of
/// the hyphens with underscores beforehand does not change the normalized
/// identifier.
pub proof fn lemma_normalize_hyphen_insensitive(s: Seq<char>)
    requires
        is_ascii_seq(s),
    ensures
        normalized(s.map_values(|c: char| hyphen_to_underscore(c))) == normalized(s),
    decreases s.len(),
{
    let und = s.map_values(|c: char| hyphen_to_underscore(c));
    if s.len() == 0 {
        assert(und =~= Seq::<char>::empty());
    } else {
        let c = s[0];
        lemma_normalize_hyphen_insensitive(s.drop_first());
        assert(und[0] == hyphen_to_underscore(c));
        assert(und.drop_first() =~= s.drop_first().map_values(|c: char| hyphen_to_underscore(c)));
        assert(ascii_upper_char(hyphen_to_underscore(c)) == if c == '-' {
            '_'
        } else {
            ascii_upper_char(c)
        });
        assert(norm_of_char(hyphen_to_underscore(c)) =~= norm_of_char(c));
    }
}

} // verus!
