//! Small verified text utilities shared across the crate: character-sequence
//! comparison, ASCII case folding, decimal rendering and parsing, and
//! separator splitting.

use vstd::prelude::*;

verus! {

/// Compares two string slices by their character sequences.
pub fn str_eq(a: &str, b: &str) -> (r: bool)
    ensures
        r == (a@ == b@),
{
    let sa = String::from_str(a);
    let sb = String::from_str(b);
    sa == sb
}

/// Relies on String::push: appends one character at the end of the string.
#[verifier::external_body]
pub fn push_char(s: &mut String, c: char)
    ensures
        final(s)@ == old(s)@.push(c),
{
    s.push(c)
}

/// ASCII lowercasing of one character: the letters 'A' through 'Z' map to
/// their lowercase forms, every other character is unchanged.
pub open spec fn lower_char(c: char) -> char {
    if 65 <= c as int && c as int <= 90 {
        ((c as int) + 32) as char
    } else {
        c
    }
}

/// ASCII lowercasing of a character sequence.
pub open spec fn lower(s: Seq<char>) -> Seq<char> {
    s.map_values(|c: char| lower_char(c))
}

/// Lowercases one character, ASCII-only.
pub fn char_to_lower(c: char) -> (r: char)
    ensures
        r == lower_char(c),
{
    let u = c as u32;
    if 65 <= u && u <= 90 {
        ((u + 32) as u8) as char
    } else {
        c
    }
}

/// Lowercases a string, ASCII-only.
pub fn to_lower(s: &str) -> (r: String)
    ensures
        r@ == lower(s@),
{
    let n = s.unicode_len();
    let mut out = String::new();
    let mut i: usize = 0;
    while i < n
        invariant
            i <= n,
            n == s@.len(),
            out@ == lower(s@.take(i as int)),
        decreases n - i,
    {
        let c = char_to_lower(s.get_char(i));
        push_char(&mut out, c);
        proof {
            assert(s@.take(i + 1).map_values(|ch: char| lower_char(ch)) =~= s@.take(
                i as int,
            ).map_values(|ch: char| lower_char(ch)).push(lower_char(s@[i as int])));
        }
        i = i + 1;
    }
    proof {
        assert(s@.take(n as int) =~= s@);
    }
    out
}

/// The decimal digit character for a value below ten.
pub open spec fn digit_char(d: int) -> char {
    (48 + d) as char
}

/// The numeric value of a decimal digit character.
pub open spec fn digit_val(c: char) -> int {
    (c as int) - 48
}

/// True of the decimal digit characters '0' through '9'.
pub open spec fn is_digit_char(c: char) -> bool {
    48 <= c as int && c as int <= 57
}

/// The decimal rendering of a natural number, without sign or padding.
pub open spec fn dec_str(n: nat) -> Seq<char>
    decreases n,
{
    if n < 10 {
        seq![digit_char(n as int)]
    } else {
        dec_str(n / 10).push(digit_char((n % 10) as int))
    }
}

/// The decimal rendering of an integer: a minus sign for negative values,
/// then the digits of the magnitude.
pub open spec fn int_dec_str(n: int) -> Seq<char> {
    if n < 0 {
        seq!['-'] + dec_str((-n) as nat)
    } else {
        dec_str(n as nat)
    }
}

/// The value of a sequence of decimal digit characters.
pub open spec fn dec_val(s: Seq<char>) -> int
    decreases s.len(),
{
    if s.len() == 0 {
        0
    } else {
        dec_val(s.drop_last()) * 10 + digit_val(s.last())
    }
}

/// True when every character of the sequence is a decimal digit.
pub open spec fn all_digits(s: Seq<char>) -> bool {
    forall|i: int| 0 <= i < s.len() ==> is_digit_char(#[trigger] s[i])
}

/// A rendered natural number consists of digits, is never empty, reads back
/// to the same value, and has no leading zero unless it is zero itself.
pub proof fn lemma_dec_str(n: nat)
    ensures
        dec_str(n).len() >= 1,
        all_digits(dec_str(n)),
        dec_val(dec_str(n)) == n,
        n > 0 ==> dec_str(n)[0] != '0',
        n < 10 ==> dec_str(n).len() == 1,
    decreases n,
{
    if n < 10 {
        assert(dec_str(n) =~= seq![digit_char(n as int)]);
        assert(dec_str(n).drop_last() =~= Seq::<char>::empty());
        assert(digit_char(n as int) as int == 48 + n);
        assert(digit_val(digit_char(n as int)) == n);
        assert(dec_val(Seq::<char>::empty()) == 0);
    } else {
        lemma_dec_str(n / 10);
        let prefix = dec_str(n / 10);
        let d = digit_char((n % 10) as int);
        assert(d as int == 48 + n % 10);
        assert(digit_val(d) == n % 10);
        assert(dec_str(n) =~= prefix.push(d));
        assert(dec_str(n).drop_last() =~= prefix);
        assert(dec_str(n).last() == d);
        assert(dec_val(dec_str(n)) == dec_val(prefix) * 10 + digit_val(d));
        assert((n / 10) * 10 + n % 10 == n) by {
            vstd::arithmetic::div_mod::lemma_fundamental_div_mod(n as int, 10);
        }
        assert(dec_str(n)[0] == prefix[0]);
    }
}

/// Renders a natural number in decimal.
pub fn u32_dec(n: u32) -> (r: String)
    ensures
        r@ == dec_str(n as nat),
    decreases n,
{
    if n < 10 {
        digit_string(n)
    } else {
        let q = u32_dec(n / 10);
        let d = digit_string(n % 10);
        proof {
            assert(dec_str((n / 10) as nat).push(digit_char((n % 10) as int)) =~= dec_str(
                (n / 10) as nat,
            ) + seq![digit_char((n % 10) as int)]);
        }
        q.concat(d.as_str())
    }
}

/// Renders an integer in decimal, with a sign when negative.
pub fn i32_dec(n: i32) -> (r: String)
    ensures
        r@ == int_dec_str(n as int),
{
    if n >= 0 {
        u32_dec(n as u32)
    } else {
        let m: u32 = (-(n as i64)) as u32;
        assert(m as nat == (-(n as int)) as nat);
        let mut out = String::from_str("-");
        let digits = u32_dec(m);
        proof {
            reveal_strlit("-");
            assert("-"@ =~= seq!['-']);
        }
        out.concat(digits.as_str())
    }
}

/// The single-character string for a digit value below ten.
fn digit_string(d: u32) -> (r: String)
    requires
        d < 10,
    ensures
        r@ == seq![digit_char(d as int)],
{
    let mut s = String::new();
    let c: char = ((48 + d) as u8) as char;
    push_char(&mut s, c);
    proof {
        assert(s@ =~= seq![digit_char(d as int)]);
    }
    s
}

/// A sequence of digits has a non-negative value.
pub proof fn lemma_dec_val_nonneg(s: Seq<char>)
    requires
        all_digits(s),
    ensures
        dec_val(s) >= 0,
    decreases s.len(),
{
    if s.len() > 0 {
        assert(all_digits(s.drop_last()));
        lemma_dec_val_nonneg(s.drop_last());
    }
}

/// Extending a digit sequence never lowers its value.
pub proof fn lemma_dec_val_prefix(s: Seq<char>, i: int)
    requires
        all_digits(s),
        0 <= i <= s.len(),
    ensures
        dec_val(s.take(i)) <= dec_val(s),
    decreases s.len() - i,
{
    if i < s.len() {
        lemma_dec_val_prefix(s, i + 1);
        assert(all_digits(s.take(i)));
        lemma_dec_val_nonneg(s.take(i));
        assert(s.take(i + 1).drop_last() =~= s.take(i));
        assert(s.take(i + 1).last() == s[i]);
        assert(dec_val(s.take(i + 1)) == dec_val(s.take(i)) * 10 + digit_val(s[i]));
    } else {
        assert(s.take(i) =~= s);
    }
}

/// The signed integer a character sequence denotes: an optional sign, then
/// one or more decimal digits; anything else denotes nothing.
pub open spec fn parse_int_spec(s: Seq<char>) -> Option<int> {
    let signed = s.len() > 0 && (s[0] == '-' || s[0] == '+');
    let mag = if signed {
        s.skip(1)
    } else {
        s
    };
    if mag.len() > 0 && all_digits(mag) {
        if s.len() > 0 && s[0] == '-' {
            Some(-dec_val(mag))
        } else {
            Some(dec_val(mag))
        }
    } else {
        None
    }
}

/// The value a character sequence denotes when it fits a 32-bit signed
/// integer; out-of-range values denote nothing.
pub open spec fn parse_i32_spec(s: Seq<char>) -> Option<i32> {
    match parse_int_spec(s) {
        Some(v) => if i32::MIN <= v <= i32::MAX {
            Some(v as i32)
        } else {
            None
        },
        None => None,
    }
}

/// Parses a 32-bit signed integer from decimal text: an optional sign, then
/// one or more digits, rejecting anything else and out-of-range values.
pub fn parse_i32(s: &str) -> (r: Option<i32>)
    ensures
        r == parse_i32_spec(s@),
{
    let n = s.unicode_len();
    if n == 0 {
        return None;
    }
    let c0 = s.get_char(0);
    let neg = c0 == '-';
    let start: usize = if c0 == '-' || c0 == '+' {
        1
    } else {
        0
    };
    if n == start {
        return None;
    }
    let ghost mag = if start == 1 {
        s@.skip(1)
    } else {
        s@
    };
    proof {
        if start == 0 {
            assert(s@.skip(0) =~= s@);
        }
    }
    let mut acc: u64 = 0;
    let mut i: usize = start;
    while i < n
        invariant
            start <= i <= n,
            n == s@.len(),
            start == 0 || start == 1,
            start == 1 ==> s@.len() > 0 && (s@[0] == '-' || s@[0] == '+'),
            start == 0 ==> !(s@.len() > 0 && (s@[0] == '-' || s@[0] == '+')),
            neg == (s@.len() > 0 && s@[0] == '-'),
            mag == s@.skip(start as int),
            mag.len() == n - start,
            all_digits(mag.take(i - start)),
            acc == dec_val(mag.take(i - start)),
            acc <= 0xFFFF_FFFF,
        decreases n - i,
    {
        let c = s.get_char(i);
        let u = c as u32;
        proof {
            assert(mag[i - start] == s@[i as int]);
        }
        if !(48 <= u && u <= 57) {
            proof {
                assert(!is_digit_char(mag[i - start]));
                assert(!all_digits(mag));
                let smag = if s@.len() > 0 && (s@[0] == '-' || s@[0] == '+') {
                    s@.skip(1)
                } else {
                    s@
                };
                assert(smag == mag);
                assert(parse_int_spec(s@) is None);
                assert(parse_i32_spec(s@) is None);
            }
            return None;
        }
        let d = (u - 48) as u64;
        proof {
            assert(mag.take(i - start + 1).drop_last() =~= mag.take(i - start));
            assert(mag.take(i - start + 1).last() == mag[i - start]);
            assert(all_digits(mag.take(i - start + 1)));
            assert(digit_val(mag[i - start]) == d);
        }
        acc = acc * 10 + d;
        i = i + 1;
        if acc > 0xFFFF_FFFF {
            proof {
                let smag = if s@.len() > 0 && (s@[0] == '-' || s@[0] == '+') {
                    s@.skip(1)
                } else {
                    s@
                };
                assert(smag == mag);
                if all_digits(mag) {
                    lemma_dec_val_prefix(mag, i - start);
                    assert(dec_val(mag) >= acc > i32::MAX);
                    assert(-dec_val(mag) < i32::MIN);
                }
                assert(parse_i32_spec(s@) is None);
            }
            return None;
        }
    }
    proof {
        assert(mag.take(i - start) =~= mag);
    }
    if neg {
        if acc <= 2147483648 {
            let v: i32 = (-(acc as i64)) as i32;
            assert(v as int == -(acc as int));
            Some(v)
        } else {
            None
        }
    } else {
        if acc <= 2147483647 {
            Some(acc as i32)
        } else {
            None
        }
    }
}

/// The index of the first entry of a name-keyed list whose name matches.
pub open spec fn assoc_index<T>(entries: Seq<(String, T)>, name: Seq<char>) -> Option<int>
    decreases entries.len(),
{
    if entries.len() == 0 {
        None
    } else if entries[0].0@ == name {
        Some(0int)
    } else {
        match assoc_index(entries.skip(1), name) {
            Some(i) => Some(i + 1),
            None => None,
        }
    }
}

/// A match at position `i` with no earlier match pins the lookup down.
pub proof fn lemma_assoc_index_found<T>(entries: Seq<(String, T)>, name: Seq<char>, i: int)
    requires
        0 <= i < entries.len(),
        entries[i].0@ == name,
        forall|j: int| 0 <= j < i ==> (#[trigger] entries[j]).0@ != name,
    ensures
        assoc_index(entries, name) == Some(i),
    decreases entries.len(),
{
    if i > 0 {
        assert(entries[0].0@ != name);
        assert(entries.skip(1)[i - 1] == entries[i]);
        assert(forall|j: int|
            0 <= j < i - 1 ==> (#[trigger] entries.skip(1)[j]).0@ == entries[j + 1].0@);
        lemma_assoc_index_found(entries.skip(1), name, i - 1);
    }
}

/// No match anywhere means the lookup yields nothing.
pub proof fn lemma_assoc_index_missing<T>(entries: Seq<(String, T)>, name: Seq<char>)
    requires
        forall|j: int| 0 <= j < entries.len() ==> (#[trigger] entries[j]).0@ != name,
    ensures
        assoc_index(entries, name) is None,
    decreases entries.len(),
{
    if entries.len() > 0 {
        assert(forall|j: int|
            0 <= j < entries.len() - 1 ==> (#[trigger] entries.skip(1)[j]).0@ == entries[j
                + 1].0@);
        lemma_assoc_index_missing(entries.skip(1), name);
    }
}

/// The pieces of a character sequence split at every occurrence of the
/// separator; splitting never yields an empty list, and the separator
/// appears in no piece.
pub open spec fn split_seq(s: Seq<char>, sep: char) -> Seq<Seq<char>>
    decreases s.len(),
{
    if s.len() == 0 {
        seq![Seq::<char>::empty()]
    } else if s[0] == sep {
        seq![Seq::<char>::empty()] + split_seq(s.skip(1), sep)
    } else {
        let rest = split_seq(s.skip(1), sep);
        seq![seq![s[0]] + rest[0]] + rest.skip(1)
    }
}

/// Splitting yields at least one piece.
pub proof fn lemma_split_seq_len(s: Seq<char>, sep: char)
    ensures
        split_seq(s, sep).len() >= 1,
    decreases s.len(),
{
    if s.len() != 0 {
        lemma_split_seq_len(s.skip(1), sep);
    }
}

/// Splits a string at every occurrence of the separator.
pub fn split(s: &str, sep: char) -> (r: Vec<String>)
    ensures
        r@.map_values(|p: String| p@) == split_seq(s@, sep),
{
    let n = s.unicode_len();
    let mut done: Vec<String> = Vec::new();
    let mut cur = String::new();
    let mut i: usize = 0;
    proof {
        lemma_split_seq_len(s@, sep);
        assert(s@.skip(0) =~= s@);
        let sp = split_seq(s@, sep);
        assert(seq![sp[0]] + sp.skip(1) =~= sp);
        assert(cur@ + sp[0] =~= sp[0]);
        assert(done@.map_values(|p: String| p@) =~= Seq::<Seq<char>>::empty());
    }
    while i < n
        invariant
            i <= n,
            n == s@.len(),
            split_seq(s@, sep) =~= done@.map_values(|p: String| p@) + seq![
                cur@ + split_seq(s@.skip(i as int), sep)[0],
            ] + split_seq(s@.skip(i as int), sep).skip(1),
        decreases n - i,
    {
        let c = s.get_char(i);
        proof {
            lemma_split_seq_len(s@.skip(i + 1), sep);
            assert(s@.skip(i as int) =~= seq![s@[i as int]] + s@.skip(i + 1));
            assert(s@.skip(i as int)[0] == s@[i as int]);
            assert(s@.skip(i as int).skip(1) =~= s@.skip(i + 1));
        }
        if c == sep {
            let ghost old_done = done@;
            let ghost old_cur = cur@;
            done.push(cur);
            cur = String::new();
            proof {
                assert(done@.map_values(|p: String| p@) =~= old_done.map_values(|p: String| p@)
                    + seq![old_cur]);
                assert(split_seq(s@.skip(i as int), sep) =~= seq![Seq::<char>::empty()]
                    + split_seq(s@.skip(i + 1), sep));
                assert(old_cur + split_seq(s@.skip(i as int), sep)[0] =~= old_cur);
                assert(split_seq(s@, sep) =~= done@.map_values(|p: String| p@) + seq![
                    cur@ + split_seq(s@.skip(i + 1), sep)[0],
                ] + split_seq(s@.skip(i + 1), sep).skip(1));
            }
        } else {
            let ghost old_cur = cur@;
            push_char(&mut cur, c);
            proof {
                let rest = split_seq(s@.skip(i + 1), sep);
                assert(split_seq(s@.skip(i as int), sep) =~= seq![seq![s@[i as int]] + rest[0]]
                    + rest.skip(1));
                assert(cur@ + rest[0] =~= old_cur + (seq![s@[i as int]] + rest[0]));
                assert(split_seq(s@, sep) =~= done@.map_values(|p: String| p@) + seq![
                    cur@ + rest[0],
                ] + rest.skip(1));
            }
        }
        i = i + 1;
    }
    proof {
        assert(s@.skip(n as int) =~= Seq::<char>::empty());
        assert(split_seq(s@.skip(n as int), sep) =~= seq![Seq::<char>::empty()]);
        assert(cur@ + split_seq(s@.skip(n as int), sep)[0] =~= cur@);
    }
    let ghost final_done = done@;
    let ghost last_piece = cur@;
    done.push(cur);
    proof {
        assert(done@.map_values(|p: String| p@) =~= final_done.map_values(|p: String| p@) + seq![
            last_piece,
        ]);
        assert(done@.map_values(|p: String| p@) =~= split_seq(s@, sep));
    }
    done
}

} // verus!
