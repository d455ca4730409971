//! The transport envelope of a service error: a canonical JSON-shaped
//! text that carries the code, the kind and the unconcealed fields across
//! a process boundary, and the parser that reads the envelope back. The
//! writer and the reader are proved inverse, so a redacted error survives
//! the boundary byte for byte.
//!
//! The envelope is this library's canonical text, not general JSON: the
//! writer emits the fields in one fixed order, without whitespace, and
//! escapes exactly the quote, the backslash and the control characters
//! (the latter as four-digit lowercase hexadecimal escapes); the reader
//! reads exactly that shape. An envelope produced by another JSON writer
//! — reordered fields, extra whitespace, other escape forms — does not
//! parse; interoperation reaches as far as both ends speak this envelope.

use vstd::prelude::*;

use crate::errors::{ServiceError, ServiceErrorView};
use crate::text::{
    all_digits, dec_str, dec_val, digit_val, int_dec_str, is_digit_char, lemma_dec_str, push_char,
};

verus! {

/// The lowercase hexadecimal digit character for a value below sixteen.
pub open spec fn hex_digit_char(d: int) -> char {
    if d < 10 {
        (48 + d) as char
    } else {
        (87 + d) as char
    }
}

/// The numeric value of a lowercase hexadecimal digit character.
pub open spec fn hex_digit_val(c: char) -> int {
    if 48 <= c as int && c as int <= 57 {
        (c as int) - 48
    } else {
        (c as int) - 87
    }
}

/// True of the lowercase hexadecimal digit characters.
pub open spec fn is_hex_digit(c: char) -> bool {
    (48 <= c as int && c as int <= 57) || (97 <= c as int && c as int <= 102)
}

/// A hexadecimal digit reads back to its value and is neither a quote nor
/// a backslash.
pub proof fn lemma_hex_digit(d: int)
    requires
        0 <= d < 16,
    ensures
        is_hex_digit(hex_digit_char(d)),
        hex_digit_val(hex_digit_char(d)) == d,
{
    if d < 10 {
        assert(hex_digit_char(d) as int == 48 + d);
    } else {
        assert(hex_digit_char(d) as int == 87 + d);
    }
}

/// How one character is written inside a quoted string: a quote or a
/// backslash is preceded by a backslash; a control character becomes a
/// four-digit lowercase hexadecimal escape; every other character stands
/// for itself.
pub open spec fn esc_char(c: char) -> Seq<char> {
    if c == '"' || c == '\\' {
        seq!['\\', c]
    } else if (c as u32) < 32 {
        seq![
            '\\',
            'u',
            '0',
            '0',
            hex_digit_char(((c as u32) / 16) as int),
            hex_digit_char(((c as u32) % 16) as int),
        ]
    } else {
        seq![c]
    }
}

/// The escaped form of a character sequence.
pub open spec fn esc(s: Seq<char>) -> Seq<char>
    decreases s.len(),
{
    if s.len() == 0 {
        Seq::empty()
    } else {
        esc_char(s[0]) + esc(s.skip(1))
    }
}

/// A quoted string: the escaped content between two quotes.
pub open spec fn jstr(s: Seq<char>) -> Seq<char> {
    seq!['"'] + esc(s) + seq!['"']
}

/// One attribute written as a quoted key, a colon and a quoted value.
pub open spec fn pair_str(p: (Seq<char>, Seq<char>)) -> Seq<char> {
    jstr(p.0) + seq![':'] + jstr(p.1)
}

/// The attributes written as comma-separated pairs.
pub open spec fn attrs_str(ats: Seq<(Seq<char>, Seq<char>)>) -> Seq<char>
    decreases ats.len(),
{
    if ats.len() == 0 {
        Seq::empty()
    } else if ats.len() == 1 {
        pair_str(ats[0])
    } else {
        pair_str(ats[0]) + seq![','] + attrs_str(ats.skip(1))
    }
}

/// An optional field: its label and quoted value when present, nothing
/// when absent — an absent field is distinguishable from an empty one.
pub open spec fn opt_field_str(label: Seq<char>, v: Option<Seq<char>>) -> Seq<char> {
    match v {
        Some(s) => label + jstr(s),
        None => Seq::empty(),
    }
}

/// The whole envelope: code and kind always, then each concealable field
/// only when present, in a fixed order.
pub open spec fn wire_str(e: ServiceErrorView) -> Seq<char> {
    "{\"code\":"@ + int_dec_str(e.code) + ",\"kind\":"@ + jstr(e.kind) + opt_field_str(
        ",\"message\":"@,
        e.message,
    ) + opt_field_str(",\"service_name\":"@, e.service_name) + (match e.attributes {
        Some(a) => ",\"attributes\":{"@ + attrs_str(a) + "}"@,
        None => Seq::empty(),
    }) + opt_field_str(",\"destination\":"@, e.destination) + "}"@
}

/// Escaping distributes over concatenation.
pub proof fn lemma_esc_append(a: Seq<char>, b: Seq<char>)
    ensures
        esc(a + b) == esc(a) + esc(b),
    decreases a.len(),
{
    if a.len() == 0 {
        assert(a + b =~= b);
        assert(esc(a) + esc(b) =~= esc(b));
    } else {
        lemma_esc_append(a.skip(1), b);
        assert((a + b).skip(1) =~= a.skip(1) + b);
        assert((a + b)[0] == a[0]);
        assert(esc(a + b) =~= esc_char(a[0]) + (esc(a.skip(1)) + esc(b)));
        assert(esc_char(a[0]) + (esc(a.skip(1)) + esc(b)) =~= (esc_char(a[0]) + esc(a.skip(1)))
            + esc(b));
    }
}

/// The lowercase hexadecimal digit for a value below sixteen.
fn hex_digit(d: u32) -> (r: char)
    requires
        d < 16,
    ensures
        r == hex_digit_char(d as int),
{
    if d < 10 {
        (((48 + d) as u8) as char)
    } else {
        (((87 + d) as u8) as char)
    }
}

/// True of the lowercase hexadecimal digit characters.
fn is_hex_digit_x(c: char) -> (r: bool)
    ensures
        r == is_hex_digit(c),
{
    let u = c as u32;
    (48 <= u && u <= 57) || (97 <= u && u <= 102)
}

/// The value of a lowercase hexadecimal digit character.
fn hex_val_x(c: char) -> (r: u32)
    requires
        is_hex_digit(c),
    ensures
        r as int == hex_digit_val(c),
        r < 16,
{
    let u = c as u32;
    if u <= 57 {
        u - 48
    } else {
        u - 87
    }
}

/// Appends the escaped form of a string to the output.
fn append_escaped(out: &mut String, s: &str)
    ensures
        final(out)@ == old(out)@ + esc(s@),
{
    let n = s.unicode_len();
    let mut i: usize = 0;
    proof {
        assert(s@.take(0) =~= Seq::<char>::empty());
        assert(old(out)@ + esc(s@.take(0)) =~= old(out)@);
    }
    while i < n
        invariant
            i <= n,
            n == s@.len(),
            out@ == old(out)@ + esc(s@.take(i as int)),
        decreases n - i,
    {
        let c = s.get_char(i);
        let ghost before = out@;
        if c == '"' || c == '\\' {
            push_char(out, '\\');
            push_char(out, c);
            proof {
                assert(out@ =~= before + seq!['\\', c]);
            }
        } else if (c as u32) < 32 {
            let u = c as u32;
            let h1 = hex_digit(u / 16);
            let h2 = hex_digit(u % 16);
            push_char(out, '\\');
            push_char(out, 'u');
            push_char(out, '0');
            push_char(out, '0');
            push_char(out, h1);
            push_char(out, h2);
            proof {
                assert(h1 == hex_digit_char(((c as u32) / 16) as int));
                assert(h2 == hex_digit_char(((c as u32) % 16) as int));
                assert(out@ =~= before + seq!['\\', 'u', '0', '0', h1, h2]);
                assert(out@ =~= before + esc_char(c));
            }
        } else {
            push_char(out, c);
            proof {
                assert(out@ =~= before + seq![c]);
            }
        }
        proof {
            assert(s@.take(i + 1) =~= s@.take(i as int) + seq![s@[i as int]]);
            lemma_esc_append(s@.take(i as int), seq![s@[i as int]]);
            assert(seq![s@[i as int]].skip(1) =~= Seq::<char>::empty());
            assert(esc(seq![s@[i as int]]) =~= esc_char(s@[i as int]) + esc(
                Seq::<char>::empty(),
            ));
            assert(esc(seq![s@[i as int]]) =~= esc_char(s@[i as int]));
            assert(out@ =~= old(out)@ + esc(s@.take(i + 1)));
        }
        i = i + 1;
    }
    proof {
        assert(s@.take(n as int) =~= s@);
    }
}

/// Appends a quoted string to the output.
fn append_jstr(out: &mut String, s: &str)
    ensures
        final(out)@ == old(out)@ + jstr(s@),
{
    push_char(out, '"');
    append_escaped(out, s);
    push_char(out, '"');
    proof {
        assert(old(out)@ + jstr(s@) =~= ((old(out)@ + seq!['"']) + esc(s@)) + seq!['"']);
    }
}

/// Writes the transport envelope of a service error: the canonical text
/// that [`from_wire`] reads back.
pub fn to_wire(e: &ServiceError) -> (r: String)
    ensures
        r@ == wire_str(e@),
{
    let ghost w1 = "{\"code\":"@ + int_dec_str(e@.code) + ",\"kind\":"@ + jstr(e@.kind);
    let ghost w2 = w1 + opt_field_str(",\"message\":"@, e@.message);
    let ghost w3 = w2 + opt_field_str(",\"service_name\":"@, e@.service_name);
    let ghost w4 = w3 + (match e@.attributes {
        Some(a) => ",\"attributes\":{"@ + attrs_str(a) + "}"@,
        None => Seq::<char>::empty(),
    });
    let ghost w5 = w4 + opt_field_str(",\"destination\":"@, e@.destination);
    let mut out = String::from_str("{\"code\":");
    let code = crate::text::i32_dec(e.code);
    out.append(code.as_str());
    out.append(",\"kind\":");
    append_jstr(&mut out, e.kind.as_str());
    proof {
        assert(out@ == w1);
    }
    match &e.message {
        Some(m) => {
            out.append(",\"message\":");
            append_jstr(&mut out, m.as_str());
            proof {
                assert(e@.message == Some(m@));
                assert(out@ =~= w2);
            }
        },
        None => {
            proof {
                assert(out@ =~= w2);
            }
        },
    }
    match &e.service_name {
        Some(m) => {
            out.append(",\"service_name\":");
            append_jstr(&mut out, m.as_str());
            proof {
                assert(e@.service_name == Some(m@));
                assert(out@ =~= w3);
            }
        },
        None => {
            proof {
                assert(out@ =~= w3);
            }
        },
    }
    match &e.attributes {
        Some(ats) => {
            out.append(",\"attributes\":{");
            let ghost avs = ats@.map_values(|p: (String, String)| (p.0@, p.1@));
            let n = ats.len();
            let ghost base = out@;
            let mut i: usize = 0;
            while i < n
                invariant
                    i <= n,
                    n == avs.len(),
                    avs == ats@.map_values(|p: (String, String)| (p.0@, p.1@)),
                    out@ == base + attrs_prefix(avs, i as int),
                decreases n - i,
            {
                let ghost before = out@;
                if i > 0 {
                    push_char(&mut out, ',');
                }
                append_jstr(&mut out, ats[i].0.as_str());
                push_char(&mut out, ':');
                append_jstr(&mut out, ats[i].1.as_str());
                proof {
                    assert(avs[i as int] == (ats@[i as int].0@, ats@[i as int].1@));
                    if i > 0 {
                        assert(out@ =~= before + (seq![','] + pair_str(avs[i as int])));
                    } else {
                        assert(out@ =~= before + pair_str(avs[i as int]));
                    }
                    lemma_attrs_prefix_step(avs, i as int);
                    assert(out@ =~= base + attrs_prefix(avs, i + 1));
                }
                i = i + 1;
            }
            out.append("}");
            proof {
                lemma_attrs_prefix_full(avs);
                assert(e@.attributes == Some(avs));
                assert(out@ =~= w4);
            }
        },
        None => {
            proof {
                assert(out@ =~= w4);
            }
        },
    }
    match &e.destination {
        Some(m) => {
            out.append(",\"destination\":");
            append_jstr(&mut out, m.as_str());
            proof {
                assert(e@.destination == Some(m@));
                assert(out@ =~= w5);
            }
        },
        None => {
            proof {
                assert(out@ =~= w5);
            }
        },
    }
    out.append("}");
    proof {
        assert(out@ == w5 + "}"@);
        assert(wire_str(e@) == w5 + "}"@);
    }
    out
}

/// The first `n` attributes as written, with their separating commas.
pub open spec fn attrs_prefix(ats: Seq<(Seq<char>, Seq<char>)>, n: int) -> Seq<char>
    decreases n,
{
    if n <= 0 {
        Seq::empty()
    } else if n == 1 {
        pair_str(ats[0])
    } else {
        attrs_prefix(ats, n - 1) + seq![','] + pair_str(ats[n - 1])
    }
}

/// Extending the written prefix by one attribute appends one comma and
/// one pair.
pub proof fn lemma_attrs_prefix_step(ats: Seq<(Seq<char>, Seq<char>)>, i: int)
    requires
        0 <= i,
    ensures
        i == 0 ==> attrs_prefix(ats, 1) == pair_str(ats[0]),
        i > 0 ==> attrs_prefix(ats, i + 1) == attrs_prefix(ats, i) + (seq![','] + pair_str(
            ats[i],
        )),
{
    if i > 0 {
        assert(attrs_prefix(ats, i + 1) =~= (attrs_prefix(ats, i) + seq![',']) + pair_str(
            ats[i],
        ));
        assert((attrs_prefix(ats, i) + seq![',']) + pair_str(ats[i]) =~= attrs_prefix(ats, i) + (
        seq![','] + pair_str(ats[i])));
    }
}

/// The full written prefix is the attributes text.
pub proof fn lemma_attrs_prefix_full(ats: Seq<(Seq<char>, Seq<char>)>)
    ensures
        attrs_prefix(ats, ats.len() as int) == attrs_str(ats),
    decreases ats.len(),
{
    if ats.len() > 1 {
        lemma_attrs_prefix_full(ats.skip(1));
        lemma_attrs_shift(ats, ats.len() as int);
    }
}

/// Writing the tail of the attributes from either end agrees: the prefix
/// form and the recursive form name the same text.
pub proof fn lemma_attrs_shift(ats: Seq<(Seq<char>, Seq<char>)>, n: int)
    requires
        2 <= n <= ats.len(),
    ensures
        attrs_prefix(ats, n) == pair_str(ats[0]) + seq![','] + attrs_prefix(ats.skip(1), n - 1),
    decreases n,
{
    if n == 2 {
        assert(ats.skip(1)[0] == ats[1]);
        assert(attrs_prefix(ats.skip(1), 1) == pair_str(ats[1]));
        assert(attrs_prefix(ats, 1) == pair_str(ats[0]));
        assert(attrs_prefix(ats, 2) =~= pair_str(ats[0]) + seq![','] + pair_str(ats[1]));
    } else {
        lemma_attrs_shift(ats, n - 1);
        assert(ats.skip(1)[n - 2] == ats[n - 1]);
        assert(attrs_prefix(ats.skip(1), n - 1) =~= attrs_prefix(ats.skip(1), n - 2) + seq![',']
            + pair_str(ats.skip(1)[n - 2]));
        assert(attrs_prefix(ats, n) =~= attrs_prefix(ats, n - 1) + seq![','] + pair_str(
            ats[n - 1],
        ));
        assert(pair_str(ats[0]) + seq![','] + (attrs_prefix(ats.skip(1), n - 2) + seq![',']
            + pair_str(ats[n - 1])) =~= (pair_str(ats[0]) + seq![','] + attrs_prefix(
            ats.skip(1),
            n - 2,
        )) + seq![','] + pair_str(ats[n - 1]));
    }
}

/// Reading a literal off the front of the text: the number of characters
/// consumed when the text starts with the literal.
pub open spec fn scan_lit(s: Seq<char>, lit: Seq<char>) -> Option<int> {
    if lit.len() <= s.len() && s.take(lit.len() as int) == lit {
        Some(lit.len() as int)
    } else {
        None
    }
}

/// Reading a quoted string after its opening quote: the content with its
/// escapes undone — a hexadecimal escape as the writer emits it, or a
/// backslash standing before the escaped character — and the count
/// consumed including the closing quote.
pub open spec fn scan_jstr_body(s: Seq<char>) -> Option<(Seq<char>, int)>
    decreases s.len(),
{
    if s.len() == 0 {
        None
    } else if s[0] == '"' {
        Some((Seq::empty(), 1int))
    } else if s[0] == '\\' {
        if s.len() >= 2 && s[1] == 'u' {
            if s.len() >= 6 && s[2] == '0' && s[3] == '0' && is_hex_digit(s[4]) && is_hex_digit(
                s[5],
            ) {
                match scan_jstr_body(s.skip(6)) {
                    Some(p) => Some(
                        (
                            seq![(16 * hex_digit_val(s[4]) + hex_digit_val(s[5])) as char] + p.0,
                            6 + p.1,
                        ),
                    ),
                    None => None,
                }
            } else {
                None
            }
        } else if s.len() >= 2 {
            match scan_jstr_body(s.skip(2)) {
                Some(p) => Some((seq![s[1]] + p.0, 2 + p.1)),
                None => None,
            }
        } else {
            None
        }
    } else {
        match scan_jstr_body(s.skip(1)) {
            Some(p) => Some((seq![s[0]] + p.0, 1 + p.1)),
            None => None,
        }
    }
}

/// Reading a quoted string, opening quote included.
pub open spec fn scan_jstr(s: Seq<char>) -> Option<(Seq<char>, int)> {
    if s.len() > 0 && s[0] == '"' {
        match scan_jstr_body(s.skip(1)) {
            Some(p) => Some((p.0, 1 + p.1)),
            None => None,
        }
    } else {
        None
    }
}

/// A read string costs at least its two quotes and at most the whole text.
pub proof fn lemma_scan_jstr_body_bounds(s: Seq<char>)
    ensures
        scan_jstr_body(s) matches Some(p) ==> 1 <= p.1 <= s.len(),
    decreases s.len(),
{
    if s.len() > 0 && s[0] != '"' {
        if s[0] == '\\' {
            if s.len() >= 2 && s[1] == 'u' {
                if s.len() >= 6 {
                    lemma_scan_jstr_body_bounds(s.skip(6));
                }
            } else if s.len() >= 2 {
                lemma_scan_jstr_body_bounds(s.skip(2));
            }
        } else {
            lemma_scan_jstr_body_bounds(s.skip(1));
        }
    }
}

/// Bounds for a whole quoted string.
pub proof fn lemma_scan_jstr_bounds(s: Seq<char>)
    ensures
        scan_jstr(s) matches Some(p) ==> 2 <= p.1 <= s.len(),
{
    if s.len() > 0 && s[0] == '"' {
        lemma_scan_jstr_body_bounds(s.skip(1));
    }
}

/// The length of the maximal digit run at the front of the text.
pub open spec fn scan_digits(s: Seq<char>) -> int
    decreases s.len(),
{
    if s.len() > 0 && is_digit_char(s[0]) {
        1 + scan_digits(s.skip(1))
    } else {
        0
    }
}

/// Reading a signed integer: an optional minus sign, then the digit run,
/// valued as a decimal number.
pub open spec fn scan_int(s: Seq<char>) -> Option<(int, int)> {
    let neg = s.len() > 0 && s[0] == '-';
    let body = if neg {
        s.skip(1)
    } else {
        s
    };
    let d = scan_digits(body);
    if d > 0 {
        Some(
            (
                if neg {
                    -dec_val(body.take(d))
                } else {
                    dec_val(body.take(d))
                },
                if neg {
                    d + 1
                } else {
                    d
                },
            ),
        )
    } else {
        None
    }
}

/// Reading the attribute pairs after the opening brace, up to and
/// including the closing brace.
pub open spec fn scan_attrs(s: Seq<char>) -> Option<(Seq<(Seq<char>, Seq<char>)>, int)>
    decreases s.len(),
    via scan_attrs_dec
{
    if s.len() == 0 {
        None
    } else if s[0] == '}' {
        Some((Seq::empty(), 1int))
    } else {
        match scan_jstr(s) {
            None => None,
            Some(k) => {
                let s1 = s.skip(k.1);
                if s1.len() > 0 && s1[0] == ':' {
                    match scan_jstr(s1.skip(1)) {
                        None => None,
                        Some(v) => {
                            let off = k.1 + 1 + v.1;
                            let s2 = s.skip(off);
                            if s2.len() > 0 && s2[0] == ',' {
                                match scan_attrs(s.skip(off + 1)) {
                                    None => None,
                                    Some(rest) => Some(
                                        (seq![(k.0, v.0)] + rest.0, off + 1 + rest.1),
                                    ),
                                }
                            } else if s2.len() > 0 && s2[0] == '}' {
                                Some((seq![(k.0, v.0)], off + 1))
                            } else {
                                None
                            }
                        },
                    }
                } else {
                    None
                }
            },
        }
    }
}

#[via_fn]
proof fn scan_attrs_dec(s: Seq<char>) {
    if s.len() > 0 && s[0] != '}' {
        lemma_scan_jstr_bounds(s);
        if let Some(k) = scan_jstr(s) {
            let s1 = s.skip(k.1);
            if s1.len() > 0 && s1[0] == ':' {
                lemma_scan_jstr_bounds(s1.skip(1));
            }
        }
    }
}

/// Reading one optional field: when the text starts with the label, the
/// quoted value must follow; otherwise nothing is consumed and the field
/// is absent.
pub open spec fn scan_opt_field(s: Seq<char>, label: Seq<char>) -> Option<
    (Option<Seq<char>>, int),
> {
    match scan_lit(s, label) {
        Some(n) => match scan_jstr(s.skip(n)) {
            Some(v) => Some((Some(v.0), n + v.1)),
            None => None,
        },
        None => Some((None, 0int)),
    }
}

/// Reading the optional attributes object.
pub open spec fn scan_opt_attrs(s: Seq<char>) -> Option<
    (Option<Seq<(Seq<char>, Seq<char>)>>, int),
> {
    match scan_lit(s, ",\"attributes\":{"@) {
        Some(n) => match scan_attrs(s.skip(n)) {
            Some(a) => Some((Some(a.0), n + a.1)),
            None => None,
        },
        None => Some((None, 0int)),
    }
}

/// What a transport envelope denotes: the structure the canonical writer
/// would have produced it from, with the policy fields at their neutral
/// values — a receiver holds no policy of the producer's. A field absent
/// from the text is absent from the structure, never defaulted, so "no
/// message" and "message withheld" stay distinguishable.
pub open spec fn parse_wire(s: Seq<char>) -> Option<ServiceErrorView> {
    match scan_lit(s, "{\"code\":"@) {
        None => None,
        Some(n0) => match scan_int(s.skip(n0)) {
            None => None,
            Some((code, n1)) => if !(i32::MIN <= code <= i32::MAX) {
                None
            } else {
                let s2 = s.skip(n0 + n1);
                match scan_lit(s2, ",\"kind\":"@) {
                    None => None,
                    Some(n2) => match scan_jstr(s2.skip(n2)) {
                        None => None,
                        Some((kind, n3)) => {
                            let s4 = s2.skip(n2 + n3);
                            match parse_fields(s4) {
                                None => None,
                                Some((message, service_name, attributes, destination)) => Some(
                                    ServiceErrorView {
                                        code,
                                        kind,
                                        message,
                                        service_name,
                                        attributes,
                                        destination,
                                        display_errors: false,
                                        concealable: None,
                                    },
                                ),
                            }
                        },
                    },
                }
            },
        },
    }
}

/// Reading the four optional fields and the closing brace after the kind.
pub open spec fn parse_fields(s4: Seq<char>) -> Option<
    (Option<Seq<char>>, Option<Seq<char>>, Option<Seq<(Seq<char>, Seq<char>)>>, Option<Seq<char>>),
> {
    match scan_opt_field(s4, ",\"message\":"@) {
        None => None,
        Some((message, n4)) => {
            let s5 = s4.skip(n4);
            match parse_fields_mid(s5) {
                None => None,
                Some((service_name, attributes, destination)) => Some(
                    (message, service_name, attributes, destination),
                ),
            }
        },
    }
}

/// Reading the optional service name and what follows it.
pub open spec fn parse_fields_mid(s5: Seq<char>) -> Option<
    (Option<Seq<char>>, Option<Seq<(Seq<char>, Seq<char>)>>, Option<Seq<char>>),
> {
    match scan_opt_field(s5, ",\"service_name\":"@) {
        None => None,
        Some((service_name, n5)) => {
            let s6 = s5.skip(n5);
            match parse_fields_tail(s6) {
                None => None,
                Some((attributes, destination)) => Some((service_name, attributes, destination)),
            }
        },
    }
}

/// Reading the optional attributes, the optional destination and the
/// closing brace.
pub open spec fn parse_fields_tail(s6: Seq<char>) -> Option<
    (Option<Seq<(Seq<char>, Seq<char>)>>, Option<Seq<char>>),
> {
    match scan_opt_attrs(s6) {
        None => None,
        Some((attributes, n6)) => {
            let s7 = s6.skip(n6);
            match scan_opt_field(s7, ",\"destination\":"@) {
                None => None,
                Some((destination, n7)) => {
                    let s8 = s7.skip(n7);
                    if s8.len() == 1 && s8[0] == '}' {
                        Some((attributes, destination))
                    } else {
                        None
                    }
                },
            }
        },
    }
}

/// What survives the boundary: the same structure with the policy fields
/// at their neutral values.
pub open spec fn wire_norm(e: ServiceErrorView) -> ServiceErrorView {
    ServiceErrorView { display_errors: false, concealable: None, ..e }
}

/// Reading a literal off a text that starts with it consumes exactly the
/// literal.
pub proof fn lemma_scan_lit_hit(lit: Seq<char>, rest: Seq<char>)
    ensures
        scan_lit(lit + rest, lit) == Some(lit.len() as int),
        (lit + rest).skip(lit.len() as int) == rest,
{
    assert((lit + rest).take(lit.len() as int) =~= lit);
    assert((lit + rest).skip(lit.len() as int) =~= rest);
}

/// A text that differs from the literal at some position does not start
/// with it.
pub proof fn lemma_scan_lit_miss(s: Seq<char>, lit: Seq<char>, j: int)
    requires
        0 <= j < lit.len(),
        s.len() <= j || s[j] != lit[j],
    ensures
        scan_lit(s, lit) is None,
{
    if lit.len() <= s.len() && s.take(lit.len() as int) == lit {
        assert(s.take(lit.len() as int)[j] == s[j]);
    }
}

/// Reading a quoted body off the escaped form of a string recovers the
/// string and consumes exactly the escaped form and its closing quote.
pub proof fn lemma_scan_jstr_body_rt(x: Seq<char>, t: Seq<char>)
    ensures
        scan_jstr_body(esc(x) + seq!['"'] + t) == Some((x, esc(x).len() + 1int)),
    decreases x.len(),
{
    let s = esc(x) + seq!['"'] + t;
    if x.len() == 0 {
        assert(esc(x) =~= Seq::<char>::empty());
        assert(s =~= seq!['"'] + t);
        assert(s[0] == '"');
        assert(s.len() > 0);
        assert(scan_jstr_body(s) == Some((Seq::<char>::empty(), 1int)));
        assert(Seq::<char>::empty() =~= x);
    } else {
        let c = x[0];
        let x1 = x.skip(1);
        lemma_scan_jstr_body_rt(x1, t);
        assert(esc(x) == esc_char(c) + esc(x1));
        if c == '"' || c == '\\' {
            assert(s =~= seq!['\\', c] + (esc(x1) + seq!['"'] + t));
            assert(s[0] == '\\');
            assert(s[1] == c);
            assert(s[1] != 'u');
            assert(s.len() >= 2);
            assert(s.skip(2) =~= esc(x1) + seq!['"'] + t);
            assert(seq![s[1]] + x1 =~= x);
            assert(esc(x).len() == 2 + esc(x1).len());
        } else if (c as u32) < 32 {
            let cu = (c as u32) as int;
            let hi = ((c as u32) / 16) as int;
            let lo = ((c as u32) % 16) as int;
            vstd::utf8::char_u32_cast(c, c as u32);
            assert(0 <= cu && cu < 32);
            lemma_hex_digit(hi);
            lemma_hex_digit(lo);
            assert(s =~= seq!['\\', 'u', '0', '0', hex_digit_char(hi), hex_digit_char(lo)] + (esc(
                x1,
            ) + seq!['"'] + t));
            assert(s[0] == '\\');
            assert(s[1] == 'u');
            assert(s[2] == '0');
            assert(s[3] == '0');
            assert(s[4] == hex_digit_char(hi));
            assert(s[5] == hex_digit_char(lo));
            assert(s.len() >= 6);
            assert(16 * hex_digit_val(s[4]) + hex_digit_val(s[5]) == cu) by {
                vstd::arithmetic::div_mod::lemma_fundamental_div_mod(cu, 16);
            }
            assert(cu as char == c);
            assert(s.skip(6) =~= esc(x1) + seq!['"'] + t);
            assert(seq![(16 * hex_digit_val(s[4]) + hex_digit_val(s[5])) as char] + x1 =~= x);
            assert(esc(x).len() == 6 + esc(x1).len());
        } else {
            assert(s =~= seq![c] + (esc(x1) + seq!['"'] + t));
            assert(s[0] == c);
            assert(s.skip(1) =~= esc(x1) + seq!['"'] + t);
            assert(seq![s[0]] + x1 =~= x);
            assert(esc(x).len() == 1 + esc(x1).len());
        }
    }
}

/// Reading a quoted string off its written form recovers the string.
pub proof fn lemma_scan_jstr_rt(x: Seq<char>, t: Seq<char>)
    ensures
        scan_jstr(jstr(x) + t) == Some((x, jstr(x).len() as int)),
        jstr(x).len() == esc(x).len() + 2,
        (jstr(x) + t).skip(jstr(x).len() as int) == t,
{
    let s = jstr(x) + t;
    assert(s[0] == '"');
    assert(s.skip(1) =~= esc(x) + seq!['"'] + t);
    lemma_scan_jstr_body_rt(x, t);
    assert((jstr(x) + t).skip(jstr(x).len() as int) =~= t);
}

/// Reading digits off a digit run followed by a non-digit consumes
/// exactly the run.
pub proof fn lemma_scan_digits_rt(d: Seq<char>, t: Seq<char>)
    requires
        all_digits(d),
        t.len() == 0 || !is_digit_char(t[0]),
    ensures
        scan_digits(d + t) == d.len(),
        (d + t).take(d.len() as int) == d,
    decreases d.len(),
{
    let s = d + t;
    assert(s.take(d.len() as int) =~= d);
    if d.len() == 0 {
        assert(s =~= t);
    } else {
        assert(s[0] == d[0]);
        assert(is_digit_char(s[0]));
        assert(s.skip(1) =~= d.skip(1) + t);
        assert(all_digits(d.skip(1)));
        lemma_scan_digits_rt(d.skip(1), t);
    }
}

/// Reading an integer off its decimal rendering recovers the value.
pub proof fn lemma_scan_int_rt(v: int, t: Seq<char>)
    requires
        t.len() == 0 || !is_digit_char(t[0]),
    ensures
        scan_int(int_dec_str(v) + t) == Some((v, int_dec_str(v).len() as int)),
        (int_dec_str(v) + t).skip(int_dec_str(v).len() as int) == t,
{
    let s = int_dec_str(v) + t;
    assert(s.skip(int_dec_str(v).len() as int) =~= t);
    if v >= 0 {
        lemma_dec_str(v as nat);
        let d = dec_str(v as nat);
        assert(s =~= d + t);
        assert(is_digit_char(d[0]));
        assert(s[0] != '-');
        lemma_scan_digits_rt(d, t);
        assert(s.take(d.len() as int) == d);
        assert(dec_val(d) == v);
    } else {
        lemma_dec_str((-v) as nat);
        let d = dec_str((-v) as nat);
        assert(int_dec_str(v) =~= seq!['-'] + d);
        assert(s =~= seq!['-'] + (d + t));
        assert(s[0] == '-');
        assert(s.skip(1) =~= d + t);
        lemma_scan_digits_rt(d, t);
        assert(s.skip(1).take(d.len() as int) == d);
        assert(dec_val(d) == -v);
        assert(int_dec_str(v).len() == d.len() + 1);
    }
}

/// Reading the attribute pairs off their written form recovers the pairs
/// and consumes up to and including the closing brace.
#[verifier::rlimit(100)]
#[verifier::spinoff_prover]
pub proof fn lemma_scan_attrs_rt(a: Seq<(Seq<char>, Seq<char>)>, t: Seq<char>)
    ensures
        scan_attrs(attrs_str(a) + seq!['}'] + t) == Some((a, attrs_str(a).len() + 1int)),
    decreases a.len(),
{
    let s = attrs_str(a) + seq!['}'] + t;
    if a.len() == 0 {
        assert(attrs_str(a) =~= Seq::<char>::empty());
        assert(s =~= seq!['}'] + t);
        assert(s[0] == '}');
        assert(scan_attrs(s) == Some((Seq::<(Seq<char>, Seq<char>)>::empty(), 1int)));
        assert(Seq::<(Seq<char>, Seq<char>)>::empty() =~= a);
    } else {
        let k = a[0].0;
        let v = a[0].1;
        if a.len() == 1 {
            let tail0 = seq![':'] + jstr(v) + seq!['}'] + t;
            assert(s =~= jstr(k) + tail0);
            lemma_scan_jstr_rt(k, tail0);
            assert(s[0] == '"');
            assert(s[0] != '}');
            let nk = jstr(k).len() as int;
            let s1 = s.skip(nk);
            assert(s1 =~= tail0);
            assert(s1[0] == ':');
            assert(s1.skip(1) =~= jstr(v) + (seq!['}'] + t));
            lemma_scan_jstr_rt(v, seq!['}'] + t);
            let nv = jstr(v).len() as int;
            let off = nk + 1 + nv;
            assert(s.skip(off) =~= s1.skip(1).skip(nv));
            assert(s1.skip(1).skip(nv) =~= seq!['}'] + t);
            assert(s.skip(off)[0] == '}');
            assert(s.skip(off)[0] != ',');
            assert(scan_attrs(s) == Some((seq![(k, v)], off + 1)));
            assert(seq![(k, v)] =~= a);
            assert(attrs_str(a) == pair_str(a[0]));
            assert(attrs_str(a).len() == nk + 1 + nv);
        } else {
            let rest = a.skip(1);
            lemma_scan_attrs_rt(rest, t);
            let tail0 = seq![':'] + jstr(v) + seq![','] + (attrs_str(rest) + seq!['}'] + t);
            assert(attrs_str(a) == pair_str(a[0]) + seq![','] + attrs_str(rest));
            assert(s =~= jstr(k) + tail0);
            lemma_scan_jstr_rt(k, tail0);
            assert(s[0] == '"');
            assert(s[0] != '}');
            let nk = jstr(k).len() as int;
            let s1 = s.skip(nk);
            assert(s1 =~= tail0);
            assert(s1[0] == ':');
            assert(s1.skip(1) =~= jstr(v) + (seq![','] + (attrs_str(rest) + seq!['}'] + t)));
            lemma_scan_jstr_rt(v, seq![','] + (attrs_str(rest) + seq!['}'] + t));
            let nv = jstr(v).len() as int;
            let off = nk + 1 + nv;
            assert(s.skip(off) =~= s1.skip(1).skip(nv));
            assert(s1.skip(1).skip(nv) =~= seq![','] + (attrs_str(rest) + seq!['}'] + t));
            assert(s.skip(off)[0] == ',');
            assert(s.skip(off + 1) =~= attrs_str(rest) + seq!['}'] + t);
            assert(scan_attrs(s) == Some((seq![(k, v)] + rest, off + 1 + attrs_str(rest).len() + 1)));
            assert(seq![(k, v)] + rest =~= a);
            assert(attrs_str(a).len() == nk + 1 + nv + 1 + attrs_str(rest).len());
        }
    }
}

/// The writer and the reader are inverse: parsing the written envelope of
/// any error yields exactly the error's boundary-visible structure. With
/// the writer's determinism this gives the byte-for-byte law: re-writing
/// what was parsed reproduces the payload.
#[verifier::rlimit(100)]
#[verifier::spinoff_prover]
pub proof fn lemma_parse_wire_round_trip(e: ServiceErrorView)
    requires
        i32::MIN <= e.code <= i32::MAX,
    ensures
        parse_wire(wire_str(e)) == Some(wire_norm(e)),
{
    reveal_strlit("{\"code\":");
    reveal_strlit(",\"kind\":");
    reveal_strlit(",\"message\":");
    reveal_strlit(",\"service_name\":");
    reveal_strlit(",\"attributes\":{");
    reveal_strlit(",\"destination\":");
    reveal_strlit("}");
    let lit0 = "{\"code\":"@;
    let k_lab = ",\"kind\":"@;
    let m_lab = ",\"message\":"@;
    let s_lab = ",\"service_name\":"@;
    let a_lab = ",\"attributes\":{"@;
    let d_lab = ",\"destination\":"@;
    let fm = opt_field_str(m_lab, e.message);
    let fs = opt_field_str(s_lab, e.service_name);
    let fa = match e.attributes {
        Some(a) => a_lab + attrs_str(a) + "}"@,
        None => Seq::<char>::empty(),
    };
    let fd = opt_field_str(d_lab, e.destination);
    let s = wire_str(e);
    let tail_kind = fm + fs + fa + fd + "}"@;
    let rest0 = int_dec_str(e.code) + (k_lab + (jstr(e.kind) + tail_kind));
    assert(s =~= lit0 + rest0);
    lemma_scan_lit_hit(lit0, rest0);
    let n0 = lit0.len() as int;
    assert(s.skip(n0) == rest0);
    let t1 = k_lab + (jstr(e.kind) + tail_kind);
    assert(t1[0] == ',');
    assert(!is_digit_char(','));
    lemma_scan_int_rt(e.code, t1);
    let n1 = int_dec_str(e.code).len() as int;
    assert(scan_int(rest0) == Some((e.code, n1)));
    let s2 = s.skip(n0 + n1);
    assert(s2 =~= rest0.skip(n1));
    assert(s2 == t1);
    lemma_scan_lit_hit(k_lab, jstr(e.kind) + tail_kind);
    let n2 = k_lab.len() as int;
    assert(s2.skip(n2) == jstr(e.kind) + tail_kind);
    lemma_scan_jstr_rt(e.kind, tail_kind);
    let n3 = jstr(e.kind).len() as int;
    let s4 = s2.skip(n2 + n3);
    assert(s4 =~= s2.skip(n2).skip(n3));
    assert(s4 == tail_kind);
    lemma_parse_fields_rt(e);
    assert(parse_wire(s) == Some(wire_norm(e)));
}

/// Reading the optional fields off their written forms recovers exactly
/// the present fields.
#[verifier::rlimit(100)]
#[verifier::spinoff_prover]
pub proof fn lemma_parse_fields_rt(e: ServiceErrorView)
    ensures
        parse_fields(
            opt_field_str(",\"message\":"@, e.message) + opt_field_str(
                ",\"service_name\":"@,
                e.service_name,
            ) + (match e.attributes {
                Some(a) => ",\"attributes\":{"@ + attrs_str(a) + "}"@,
                None => Seq::<char>::empty(),
            }) + opt_field_str(",\"destination\":"@, e.destination) + "}"@,
        ) == Some((e.message, e.service_name, e.attributes, e.destination)),
{
    let m_lab = ",\"message\":"@;
    let s_lab = ",\"service_name\":"@;
    let a_lab = ",\"attributes\":{"@;
    let d_lab = ",\"destination\":"@;
    let fm = opt_field_str(m_lab, e.message);
    let fs = opt_field_str(s_lab, e.service_name);
    let fa = match e.attributes {
        Some(a) => a_lab + attrs_str(a) + "}"@,
        None => Seq::<char>::empty(),
    };
    let fd = opt_field_str(d_lab, e.destination);
    let s4 = fm + fs + fa + fd + "}"@;
    let rest_m = fs + fa + fd + "}"@;
    assert(s4 =~= fm + rest_m);
    lemma_parse_fields_mid_rt(e);
    let s5: Seq<char>;
    match e.message {
        Some(m) => {
            assert(fm == m_lab + jstr(m));
            assert(s4 =~= m_lab + (jstr(m) + rest_m));
            lemma_scan_lit_hit(m_lab, jstr(m) + rest_m);
            assert(s4.skip(m_lab.len() as int) == jstr(m) + rest_m);
            lemma_scan_jstr_rt(m, rest_m);
            let n4 = m_lab.len() as int + jstr(m).len() as int;
            assert(scan_opt_field(s4, m_lab) == Some((Some(m), n4)));
            s5 = s4.skip(n4);
            assert(s5 =~= rest_m);
        },
        None => {
            assert(s4 =~= rest_m);
            lemma_after_message_miss(e, s4, m_lab);
            assert(scan_opt_field(s4, m_lab) == Some((None::<Seq<char>>, 0int)));
            s5 = s4.skip(0);
            assert(s5 =~= rest_m);
        },
    }
    assert(parse_fields(s4) == Some((e.message, e.service_name, e.attributes, e.destination)));
}

/// Reading the service name and what follows it off their written forms
/// recovers exactly the present fields.
#[verifier::rlimit(100)]
#[verifier::spinoff_prover]
pub proof fn lemma_parse_fields_mid_rt(e: ServiceErrorView)
    ensures
        parse_fields_mid(
            opt_field_str(",\"service_name\":"@, e.service_name) + (match e.attributes {
                Some(a) => ",\"attributes\":{"@ + attrs_str(a) + "}"@,
                None => Seq::<char>::empty(),
            }) + opt_field_str(",\"destination\":"@, e.destination) + "}"@,
        ) == Some((e.service_name, e.attributes, e.destination)),
{
    let s_lab = ",\"service_name\":"@;
    let a_lab = ",\"attributes\":{"@;
    let d_lab = ",\"destination\":"@;
    let fs = opt_field_str(s_lab, e.service_name);
    let fa = match e.attributes {
        Some(a) => a_lab + attrs_str(a) + "}"@,
        None => Seq::<char>::empty(),
    };
    let fd = opt_field_str(d_lab, e.destination);
    let s5 = fs + fa + fd + "}"@;
    let rest_s = fa + fd + "}"@;
    assert(s5 =~= fs + rest_s);
    lemma_parse_fields_tail_rt(e);
    let s6: Seq<char>;
    match e.service_name {
        Some(m) => {
            assert(fs == s_lab + jstr(m));
            assert(s5 =~= s_lab + (jstr(m) + rest_s));
            lemma_scan_lit_hit(s_lab, jstr(m) + rest_s);
            assert(s5.skip(s_lab.len() as int) == jstr(m) + rest_s);
            lemma_scan_jstr_rt(m, rest_s);
            let n5 = s_lab.len() as int + jstr(m).len() as int;
            assert(scan_opt_field(s5, s_lab) == Some((Some(m), n5)));
            s6 = s5.skip(n5);
            assert(s6 =~= rest_s);
        },
        None => {
            assert(s5 =~= rest_s);
            lemma_after_service_name_miss(e, s5, s_lab);
            assert(scan_opt_field(s5, s_lab) == Some((None::<Seq<char>>, 0int)));
            s6 = s5.skip(0);
            assert(s6 =~= rest_s);
        },
    }
    assert(parse_fields_mid(s5) == Some((e.service_name, e.attributes, e.destination)));
}

/// Reading the attributes, the destination and the closing brace off
/// their written forms recovers exactly the present fields.
#[verifier::rlimit(100)]
#[verifier::spinoff_prover]
pub proof fn lemma_parse_fields_tail_rt(e: ServiceErrorView)
    ensures
        parse_fields_tail(
            (match e.attributes {
                Some(a) => ",\"attributes\":{"@ + attrs_str(a) + "}"@,
                None => Seq::<char>::empty(),
            }) + opt_field_str(",\"destination\":"@, e.destination) + "}"@,
        ) == Some((e.attributes, e.destination)),
{
    reveal_strlit(",\"attributes\":{");
    reveal_strlit(",\"destination\":");
    reveal_strlit("}");
    let a_lab = ",\"attributes\":{"@;
    let d_lab = ",\"destination\":"@;
    let fa = match e.attributes {
        Some(a) => a_lab + attrs_str(a) + "}"@,
        None => Seq::<char>::empty(),
    };
    let fd = opt_field_str(d_lab, e.destination);
    let s6 = fa + fd + "}"@;
    let rest_a = fd + "}"@;
    assert(s6 =~= fa + rest_a);
    let s7: Seq<char>;
    match e.attributes {
        Some(a) => {
            assert(fa == a_lab + attrs_str(a) + "}"@);
            assert("}"@ =~= seq!['}']);
            assert(s6 =~= a_lab + (attrs_str(a) + seq!['}'] + rest_a));
            lemma_scan_lit_hit(a_lab, attrs_str(a) + seq!['}'] + rest_a);
            assert(s6.skip(a_lab.len() as int) == attrs_str(a) + seq!['}'] + rest_a);
            lemma_scan_attrs_rt(a, rest_a);
            let n6 = a_lab.len() as int + attrs_str(a).len() + 1;
            assert(scan_opt_attrs(s6) == Some((Some(a), n6)));
            s7 = s6.skip(n6);
            assert(s7 =~= rest_a);
        },
        None => {
            assert(s6 =~= rest_a);
            lemma_after_attributes_miss(e, s6, a_lab);
            assert(scan_opt_attrs(s6) == Some((None::<Seq<(Seq<char>, Seq<char>)>>, 0int)));
            s7 = s6.skip(0);
            assert(s7 =~= rest_a);
        },
    }
    assert(s7 =~= fd + "}"@);
    let s8: Seq<char>;
    match e.destination {
        Some(m) => {
            assert(fd == d_lab + jstr(m));
            assert(s7 =~= d_lab + (jstr(m) + "}"@));
            lemma_scan_lit_hit(d_lab, jstr(m) + "}"@);
            assert(s7.skip(d_lab.len() as int) == jstr(m) + "}"@);
            lemma_scan_jstr_rt(m, "}"@);
            let n7 = d_lab.len() as int + jstr(m).len() as int;
            assert(scan_opt_field(s7, d_lab) == Some((Some(m), n7)));
            s8 = s7.skip(n7);
            assert(s8 =~= "}"@);
        },
        None => {
            assert(s7 =~= "}"@);
            assert(s7[0] == '}');
            assert(s7[0] != d_lab[0]);
            lemma_scan_lit_miss(s7, d_lab, 0);
            assert(scan_opt_field(s7, d_lab) == Some((None::<Seq<char>>, 0int)));
            s8 = s7.skip(0);
            assert(s8 =~= "}"@);
        },
    }
    assert(s8.len() == 1 && s8[0] == '}');
    assert(parse_fields_tail(s6) == Some((e.attributes, e.destination)));
}

/// Reads a literal at a position of the text.
fn scan_lit_at(s: &str, i: usize, lit: &str) -> (r: Option<usize>)
    requires
        i <= s@.len(),
    ensures
        match r {
            Some(j) => scan_lit(s@.skip(i as int), lit@) == Some(lit@.len() as int) && j == i
                + lit@.len() && j <= s@.len(),
            None => scan_lit(s@.skip(i as int), lit@) is None,
        },
{
    let n = s.unicode_len();
    let m = lit.unicode_len();
    if n - i < m {
        proof {
            assert(s@.skip(i as int).len() < lit@.len());
        }
        return None;
    }
    let mut k: usize = 0;
    while k < m
        invariant
            k <= m,
            m == lit@.len(),
            n == s@.len(),
            i + m <= n,
            forall|q: int| 0 <= q < k ==> s@.skip(i as int)[q] == lit@[q],
        decreases m - k,
    {
        let a = s.get_char(i + k);
        let b = lit.get_char(k);
        proof {
            assert(s@.skip(i as int)[k as int] == s@[i + k]);
        }
        if a != b {
            proof {
                lemma_scan_lit_miss(s@.skip(i as int), lit@, k as int);
            }
            return None;
        }
        k = k + 1;
    }
    proof {
        assert(s@.skip(i as int).take(m as int) =~= lit@);
    }
    Some(i + m)
}

/// Reads a quoted string at a position of the text, undoing the escapes.
fn scan_jstr_at(s: &str, i: usize) -> (r: Option<(String, usize)>)
    requires
        i <= s@.len(),
    ensures
        match r {
            Some(p) => scan_jstr(s@.skip(i as int)) == Some((p.0@, p.1 - i as int)) && i < p.1
                <= s@.len(),
            None => scan_jstr(s@.skip(i as int)) is None,
        },
{
    let n = s.unicode_len();
    if i >= n {
        return None;
    }
    if s.get_char(i) != '"' {
        proof {
            assert(s@.skip(i as int)[0] == s@[i as int]);
        }
        return None;
    }
    proof {
        assert(s@.skip(i as int)[0] == s@[i as int]);
        assert(s@.skip(i as int).skip(1) =~= s@.skip(i + 1));
    }
    let mut acc = String::new();
    let mut cur: usize = i + 1;
    loop
        invariant
            i + 1 <= cur <= n,
            i < n,
            n == s@.len(),
            s@[i as int] == '"',
            match scan_jstr_body(s@.skip(cur as int)) {
                Some(p) => scan_jstr_body(s@.skip(i + 1)) == Some(
                    (acc@ + p.0, (cur - i - 1) + p.1),
                ),
                None => scan_jstr_body(s@.skip(i + 1)) is None,
            },
        decreases n - cur,
    {
        proof {
            assert(s@.skip(i as int)[0] == s@[i as int]);
            assert(s@.skip(i as int).skip(1) =~= s@.skip(i + 1));
        }
        if cur >= n {
            proof {
                assert(s@.skip(cur as int).len() == 0);
            }
            return None;
        }
        let c = s.get_char(cur);
        proof {
            assert(s@.skip(cur as int)[0] == s@[cur as int]);
            assert(s@.skip(cur as int).skip(1) =~= s@.skip(cur + 1));
        }
        if c == '"' {
            proof {
                assert(scan_jstr_body(s@.skip(cur as int)) == Some(
                    (Seq::<char>::empty(), 1int),
                ));
                assert(acc@ + Seq::<char>::empty() =~= acc@);
            }
            return Some((acc, cur + 1));
        } else if c == '\\' {
            if cur + 1 >= n {
                proof {
                    assert(s@.skip(cur as int).len() == 1);
                }
                return None;
            }
            let c2 = s.get_char(cur + 1);
            proof {
                assert(s@.skip(cur as int).len() >= 2);
                assert(s@.skip(cur as int)[1] == s@[cur + 1]);
            }
            if c2 == 'u' {
                if n - cur < 6 {
                    proof {
                        assert(s@.skip(cur as int).len() < 6);
                    }
                    return None;
                }
                let d2 = s.get_char(cur + 2);
                let d3 = s.get_char(cur + 3);
                let h1 = s.get_char(cur + 4);
                let h2 = s.get_char(cur + 5);
                proof {
                    assert(s@.skip(cur as int).len() >= 6);
                    assert(s@.skip(cur as int)[2] == s@[cur + 2]);
                    assert(s@.skip(cur as int)[3] == s@[cur + 3]);
                    assert(s@.skip(cur as int)[4] == s@[cur + 4]);
                    assert(s@.skip(cur as int)[5] == s@[cur + 5]);
                }
                if d2 != '0' || d3 != '0' || !is_hex_digit_x(h1) || !is_hex_digit_x(h2) {
                    return None;
                }
                let v = 16 * hex_val_x(h1) + hex_val_x(h2);
                let ch = ((v as u8) as char);
                let ghost before = acc@;
                push_char(&mut acc, ch);
                proof {
                    let sv = s@.skip(cur as int);
                    assert(v as int == 16 * hex_digit_val(sv[4]) + hex_digit_val(sv[5]));
                    assert(v < 256);
                    assert((v as u8) as int == v as int);
                    assert(ch == (16 * hex_digit_val(sv[4]) + hex_digit_val(sv[5])) as char);
                    assert(sv.skip(6) =~= s@.skip(cur + 6));
                    assert(acc@ =~= before + seq![ch]);
                    if let Some(p) = scan_jstr_body(s@.skip(cur + 6)) {
                        assert(scan_jstr_body(sv) == Some((seq![ch] + p.0, 6 + p.1)));
                        assert(before + (seq![ch] + p.0) =~= acc@ + p.0);
                    }
                }
                cur = cur + 6;
            } else {
                let ghost before = acc@;
                push_char(&mut acc, c2);
                proof {
                    assert(s@.skip(cur as int).skip(2) =~= s@.skip(cur + 2));
                    assert(acc@ =~= before + seq![c2]);
                    if let Some(p) = scan_jstr_body(s@.skip(cur + 2)) {
                        assert(scan_jstr_body(s@.skip(cur as int)) == Some(
                            (seq![s@[cur + 1]] + p.0, 2 + p.1),
                        ));
                        assert(before + (seq![c2] + p.0) =~= acc@ + p.0);
                    }
                }
                cur = cur + 2;
            }
        } else {
            let ghost before = acc@;
            push_char(&mut acc, c);
            proof {
                assert(acc@ =~= before + seq![c]);
                if let Some(p) = scan_jstr_body(s@.skip(cur + 1)) {
                    assert(scan_jstr_body(s@.skip(cur as int)) == Some(
                        (seq![s@[cur as int]] + p.0, 1 + p.1),
                    ));
                    assert(before + (seq![c] + p.0) =~= acc@ + p.0);
                }
            }
            cur = cur + 1;
        }
    }
}

/// The first position at or after `start` holding no decimal digit.
fn digit_run_end(s: &str, start: usize) -> (r: usize)
    requires
        start <= s@.len(),
    ensures
        start <= r <= s@.len(),
        r - start == scan_digits(s@.skip(start as int)),
        all_digits(s@.skip(start as int).take(r - start)),
{
    let n = s.unicode_len();
    let mut j = start;
    while j < n
        invariant
            start <= j <= n,
            n == s@.len(),
            scan_digits(s@.skip(start as int)) == (j - start) + scan_digits(s@.skip(j as int)),
            all_digits(s@.skip(start as int).take(j - start)),
        decreases n - j,
    {
        let c = s.get_char(j);
        let u = c as u32;
        proof {
            assert(s@.skip(j as int)[0] == s@[j as int]);
        }
        if !(48 <= u && u <= 57) {
            proof {
                assert(scan_digits(s@.skip(j as int)) == 0);
            }
            return j;
        }
        proof {
            assert(s@.skip(j as int).skip(1) =~= s@.skip(j + 1));
            assert(scan_digits(s@.skip(j as int)) == 1 + scan_digits(s@.skip(j + 1)));
            assert(s@.skip(start as int).take(j + 1 - start) =~= s@.skip(start as int).take(
                j - start,
            ).push(s@[j as int]));
        }
        j = j + 1;
    }
    proof {
        assert(s@.skip(j as int).len() == 0);
        assert(scan_digits(s@.skip(j as int)) == 0);
    }
    j
}

/// Reads a signed integer at a position of the text, rejecting values
/// outside the 32-bit range.
fn scan_int_at(s: &str, i: usize) -> (r: Option<(i32, usize)>)
    requires
        i <= s@.len(),
    ensures
        match r {
            Some(p) => scan_int(s@.skip(i as int)) == Some((p.0 as int, p.1 - i as int)) && i < p.1
                <= s@.len(),
            None => match scan_int(s@.skip(i as int)) {
                Some(q) => !(i32::MIN <= q.0 <= i32::MAX),
                None => true,
            },
        },
{
    let n = s.unicode_len();
    let neg = i < n && s.get_char(i) == '-';
    let start = if neg {
        i + 1
    } else {
        i
    };
    proof {
        if i < n {
            assert(s@.skip(i as int)[0] == s@[i as int]);
        }
        if neg {
            assert(s@.skip(i as int).skip(1) =~= s@.skip(i + 1));
        }
    }
    let ghost body = s@.skip(start as int);
    let end = digit_run_end(s, start);
    let d = end - start;
    if d == 0 {
        return None;
    }
    let mut acc: u64 = 0;
    let mut k = start;
    while k < end
        invariant
            i <= start <= k <= end <= n,
            n == s@.len(),
            start == if neg {
                i + 1
            } else {
                i as int
            },
            neg == (i < n && s@[i as int] == '-'),
            body == s@.skip(start as int),
            end - start == scan_digits(body),
            all_digits(body.take(end - start)),
            acc == dec_val(body.take(k - start)),
            acc <= 0xFFFF_FFFF,
        decreases end - k,
    {
        proof {
            lemma_scan_int_at_link(s@, i as int, start as int, neg);
        }
        let c = s.get_char(k);
        proof {
            assert(body[k - start] == s@[k as int]);
            assert(body.take(end - start)[k - start] == body[k - start]);
            assert(is_digit_char(body[k - start]));
        }
        let u = c as u32;
        let dv = (u - 48) as u64;
        proof {
            assert(body.take(k - start + 1).drop_last() =~= body.take(k - start));
            assert(body.take(k - start + 1).last() == body[k - start]);
            assert(digit_val(body[k - start]) == dv);
        }
        acc = acc * 10 + dv;
        k = k + 1;
        if acc > 0xFFFF_FFFF {
            proof {
                assert(all_digits(body.take(scan_digits(body))));
                crate::text::lemma_dec_val_prefix(body.take(scan_digits(body)), k - start);
                assert(body.take(scan_digits(body)).take(k - start) =~= body.take(k - start));
                assert(dec_val(body.take(scan_digits(body))) >= acc > i32::MAX);
                assert(-dec_val(body.take(scan_digits(body))) < i32::MIN);
            }
            return None;
        }
    }
    proof {
        lemma_scan_int_at_link(s@, i as int, start as int, neg);
        assert(body.take(k - start) =~= body.take(scan_digits(body)));
    }
    if neg {
        if acc <= 2147483648 {
            let v: i32 = (-(acc as i64)) as i32;
            assert(v as int == -(acc as int));
            Some((v, end))
        } else {
            None
        }
    } else {
        if acc <= 2147483647 {
            Some((acc as i32, end))
        } else {
            None
        }
    }
}

/// Connects a scanning position after an optional minus sign with the
/// integer reader's own view of the text.
proof fn lemma_scan_int_at_link(sv: Seq<char>, i: int, start: int, neg: bool)
    requires
        0 <= i <= sv.len(),
        start == if neg {
            i + 1
        } else {
            i
        },
        neg == (i < sv.len() && sv[i] == '-'),
    ensures
        (sv.skip(i).len() > 0 && sv.skip(i)[0] == '-') == neg,
        (if neg {
            sv.skip(i).skip(1)
        } else {
            sv.skip(i)
        }) == sv.skip(start),
{
    if i < sv.len() {
        assert(sv.skip(i)[0] == sv[i]);
    }
    if neg {
        assert(sv.skip(i).skip(1) =~= sv.skip(i + 1));
    }
}

/// Reads the attribute pairs at a position just after the opening brace,
/// up to and including the closing brace.
fn scan_attrs_at(s: &str, i: usize) -> (r: Option<(Vec<(String, String)>, usize)>)
    requires
        i <= s@.len(),
    ensures
        match r {
            Some(p) => scan_attrs(s@.skip(i as int)) == Some(
                (p.0@.map_values(|q: (String, String)| (q.0@, q.1@)), p.1 - i as int),
            ) && i < p.1 <= s@.len(),
            None => scan_attrs(s@.skip(i as int)) is None,
        },
{
    let n = s.unicode_len();
    let mut pairs: Vec<(String, String)> = Vec::new();
    let mut cur = i;
    loop
        invariant
            i <= cur <= n,
            n == s@.len(),
            match scan_attrs(s@.skip(cur as int)) {
                Some(p) => scan_attrs(s@.skip(i as int)) == Some(
                    (
                        pairs@.map_values(|q: (String, String)| (q.0@, q.1@)) + p.0,
                        (cur - i) + p.1,
                    ),
                ),
                None => scan_attrs(s@.skip(i as int)) is None,
            },
        decreases n - cur,
    {
        let ghost pv = pairs@.map_values(|q: (String, String)| (q.0@, q.1@));
        if cur >= n {
            proof {
                assert(s@.skip(cur as int).len() == 0);
            }
            return None;
        }
        let c = s.get_char(cur);
        proof {
            assert(s@.skip(cur as int)[0] == s@[cur as int]);
        }
        if c == '}' {
            proof {
                assert(scan_attrs(s@.skip(cur as int)) == Some(
                    (Seq::<(Seq<char>, Seq<char>)>::empty(), 1int),
                ));
                assert(pv + Seq::<(Seq<char>, Seq<char>)>::empty() =~= pv);
            }
            return Some((pairs, cur + 1));
        }
        let k = match scan_jstr_at(s, cur) {
            Some(p) => p,
            None => {
                return None;
            },
        };
        proof {
            assert(s@.skip(cur as int).skip(k.1 - cur) =~= s@.skip(k.1 as int));
        }
        if k.1 >= n {
            proof {
                assert(s@.skip(k.1 as int).len() == 0);
            }
            return None;
        }
        let colon = s.get_char(k.1);
        proof {
            assert(s@.skip(k.1 as int)[0] == s@[k.1 as int]);
        }
        if colon != ':' {
            return None;
        }
        proof {
            assert(s@.skip(k.1 as int).skip(1) =~= s@.skip(k.1 + 1));
        }
        let v = match scan_jstr_at(s, k.1 + 1) {
            Some(p) => p,
            None => {
                return None;
            },
        };
        let ghost off = (k.1 - cur) + 1 + (v.1 - k.1 - 1);
        proof {
            assert(s@.skip(cur as int).skip(off) =~= s@.skip(v.1 as int));
        }
        if v.1 >= n {
            proof {
                assert(s@.skip(v.1 as int).len() == 0);
            }
            return None;
        }
        let after = s.get_char(v.1);
        proof {
            assert(s@.skip(v.1 as int)[0] == s@[v.1 as int]);
        }
        if after == ',' {
            let ghost before = pairs@;
            let nk = v.1 + 1;
            pairs.push((k.0, v.0));
            proof {
                assert(s@.skip(cur as int).skip(off + 1) =~= s@.skip(nk as int));
                assert(pairs@.map_values(|q: (String, String)| (q.0@, q.1@)) =~= pv.push(
                    (k.0@, v.0@),
                ));
                if let Some(p) = scan_attrs(s@.skip(nk as int)) {
                    assert(scan_attrs(s@.skip(cur as int)) == Some(
                        (seq![(k.0@, v.0@)] + p.0, off + 1 + p.1),
                    ));
                    assert(pv + (seq![(k.0@, v.0@)] + p.0) =~= pv.push((k.0@, v.0@)) + p.0);
                }
            }
            cur = nk;
        } else if after == '}' {
            pairs.push((k.0, v.0));
            proof {
                assert(scan_attrs(s@.skip(cur as int)) == Some((seq![(k.0@, v.0@)], off + 1)));
                assert(pairs@.map_values(|q: (String, String)| (q.0@, q.1@)) =~= pv.push(
                    (k.0@, v.0@),
                ));
                assert(pv + seq![(k.0@, v.0@)] =~= pv.push((k.0@, v.0@)));
            }
            return Some((pairs, v.1 + 1));
        } else {
            return None;
        }
    }
}

/// Reads one optional field at a position: the quoted value when the
/// label is present, nothing otherwise.
fn scan_opt_field_at(s: &str, i: usize, label: &str) -> (r: Option<(Option<String>, usize)>)
    requires
        i <= s@.len(),
    ensures
        match r {
            Some(p) => i <= p.1 <= s@.len() && match (scan_opt_field(s@.skip(i as int), label@), &p.0) {
                (Some(q), Some(v)) => q.0 == Some(v@) && q.1 == p.1 - i,
                (Some(q), None) => q.0 is None && q.1 == p.1 - i,
                _ => false,
            },
            None => scan_opt_field(s@.skip(i as int), label@) is None,
        },
{
    match scan_lit_at(s, i, label) {
        Some(j) => {
            proof {
                assert(s@.skip(i as int).skip(label@.len() as int) =~= s@.skip(j as int));
            }
            match scan_jstr_at(s, j) {
                Some(p) => Some((Some(p.0), p.1)),
                None => None,
            }
        },
        None => Some((None, i)),
    }
}

/// Reads a transport envelope back into an error. What was concealed
/// before sending arrives absent and stays absent — unknown, never
/// defaulted — and the receiver's copy carries no producer policy.
#[verifier::rlimit(100)]
#[verifier::spinoff_prover]
pub fn from_wire(s: &str) -> (r: Option<ServiceError>)
    ensures
        match (r, parse_wire(s@)) {
            (Some(e), Some(v)) => e@ == v,
            (None, None) => true,
            _ => false,
        },
{
    proof {
        assert(s@.skip(0) =~= s@);
    }
    let j0 = match scan_lit_at(s, 0, "{\"code\":") {
        Some(j) => j,
        None => {
            return None;
        },
    };
    proof {
        assert(s@.skip(0).skip("{\"code\":"@.len() as int) =~= s@.skip(j0 as int));
    }
    let (code, j1) = match scan_int_at(s, j0) {
        Some(p) => p,
        None => {
            return None;
        },
    };
    proof {
        assert(s@.skip(0).skip(j1 as int) =~= s@.skip(j1 as int));
    }
    let j2 = match scan_lit_at(s, j1, ",\"kind\":") {
        Some(j) => j,
        None => {
            return None;
        },
    };
    proof {
        assert(s@.skip(j1 as int).skip(",\"kind\":"@.len() as int) =~= s@.skip(j2 as int));
    }
    let (kind, j3) = match scan_jstr_at(s, j2) {
        Some(p) => p,
        None => {
            return None;
        },
    };
    proof {
        assert(s@.skip(j1 as int).skip(j3 - j1) =~= s@.skip(j3 as int));
    }
    let (message, service_name, attributes, destination) = match parse_fields_at(s, j3) {
        Some(t) => t,
        None => {
            return None;
        },
    };
    Some(
        ServiceError {
            code,
            kind,
            message,
            service_name,
            attributes,
            destination,
            display_errors: false,
            concealable_attributes: None,
        },
    )
}

/// Reads the four optional fields and the closing brace.
fn parse_fields_at(s: &str, i: usize) -> (r: Option<
    (Option<String>, Option<String>, Option<Vec<(String, String)>>, Option<String>),
>)
    requires
        i <= s@.len(),
    ensures
        match (r, parse_fields(s@.skip(i as int))) {
            (Some(t), Some(v)) => opt_str_view(&t.0) == v.0 && opt_str_view(&t.1) == v.1
                && opt_attrs_view(&t.2) == v.2 && opt_str_view(&t.3) == v.3,
            (None, None) => true,
            _ => false,
        },
{
    let (message, j4) = match scan_opt_field_at(s, i, ",\"message\":") {
        Some(p) => p,
        None => {
            return None;
        },
    };
    proof {
        assert(s@.skip(i as int).skip(j4 - i) =~= s@.skip(j4 as int));
    }
    match parse_fields_mid_at(s, j4) {
        Some((service_name, attributes, destination)) => Some(
            (message, service_name, attributes, destination),
        ),
        None => None,
    }
}

/// Reads the service name and what follows it.
fn parse_fields_mid_at(s: &str, i: usize) -> (r: Option<
    (Option<String>, Option<Vec<(String, String)>>, Option<String>),
>)
    requires
        i <= s@.len(),
    ensures
        match (r, parse_fields_mid(s@.skip(i as int))) {
            (Some(t), Some(v)) => opt_str_view(&t.0) == v.0 && opt_attrs_view(&t.1) == v.1
                && opt_str_view(&t.2) == v.2,
            (None, None) => true,
            _ => false,
        },
{
    let (service_name, j5) = match scan_opt_field_at(s, i, ",\"service_name\":") {
        Some(p) => p,
        None => {
            return None;
        },
    };
    proof {
        assert(s@.skip(i as int).skip(j5 - i) =~= s@.skip(j5 as int));
    }
    match parse_fields_tail_at(s, j5) {
        Some((attributes, destination)) => Some((service_name, attributes, destination)),
        None => None,
    }
}

/// Reads the attributes, the destination and the closing brace.
fn parse_fields_tail_at(s: &str, i: usize) -> (r: Option<
    (Option<Vec<(String, String)>>, Option<String>),
>)
    requires
        i <= s@.len(),
    ensures
        match (r, parse_fields_tail(s@.skip(i as int))) {
            (Some(t), Some(v)) => opt_attrs_view(&t.0) == v.0 && opt_str_view(&t.1) == v.1,
            (None, None) => true,
            _ => false,
        },
{
    let n = s.unicode_len();
    let (attributes, j6) = match scan_lit_at(s, i, ",\"attributes\":{") {
        Some(j) => {
            proof {
                assert(s@.skip(i as int).skip(",\"attributes\":{"@.len() as int) =~= s@.skip(
                    j as int,
                ));
            }
            match scan_attrs_at(s, j) {
                Some(p) => (Some(p.0), p.1),
                None => {
                    return None;
                },
            }
        },
        None => (None, i),
    };
    proof {
        assert(s@.skip(i as int).skip(j6 - i) =~= s@.skip(j6 as int));
    }
    let (destination, j7) = match scan_opt_field_at(s, j6, ",\"destination\":") {
        Some(p) => p,
        None => {
            return None;
        },
    };
    proof {
        assert(s@.skip(j6 as int).skip(j7 - j6) =~= s@.skip(j7 as int));
    }
    if !(n - j7 == 1) {
        proof {
            assert(s@.skip(j7 as int).len() == n - j7);
        }
        return None;
    }
    let brace = s.get_char(j7);
    proof {
        assert(s@.skip(j7 as int)[0] == s@[j7 as int]);
        assert(s@.skip(j7 as int).len() == 1);
    }
    if brace != '}' {
        return None;
    }
    Some((attributes, destination))
}

/// The character sequence an optional string holds.
pub open spec fn opt_str_view(v: &Option<String>) -> Option<Seq<char>> {
    match v {
        Some(m) => Some(m@),
        None => None,
    }
}

/// The pair sequences an optional attribute list holds.
pub open spec fn opt_attrs_view(v: &Option<Vec<(String, String)>>) -> Option<
    Seq<(Seq<char>, Seq<char>)>,
> {
    match v {
        Some(a) => Some(a@.map_values(|q: (String, String)| (q.0@, q.1@))),
        None => None,
    }
}

/// Redaction is one-way and idempotent across the boundary: a redacted
/// error crosses the wire and parses back with every concealed field
/// absent and the rest unchanged, a second redaction changes nothing, and
/// re-writing the parsed error reproduces the payload byte for byte.
pub proof fn lemma_redaction_round_trip(e: ServiceErrorView)
    requires
        i32::MIN <= e.code <= i32::MAX,
    ensures
        crate::errors::conceal_spec(crate::errors::conceal_spec(e)) == crate::errors::conceal_spec(
            e,
        ),
        parse_wire(wire_str(crate::errors::conceal_spec(e))) == Some(
            wire_norm(crate::errors::conceal_spec(e)),
        ),
        wire_str(wire_norm(crate::errors::conceal_spec(e))) == wire_str(
            crate::errors::conceal_spec(e),
        ),
        wire_norm(crate::errors::conceal_spec(e)).code == e.code,
        wire_norm(crate::errors::conceal_spec(e)).kind == e.kind,
        (e.concealable matches Some(fields) && crate::errors::contains_ci(fields, "message"@))
            ==> wire_norm(crate::errors::conceal_spec(e)).message is None,
        (e.concealable matches Some(fields) && crate::errors::contains_ci(fields, "destination"@))
            ==> wire_norm(crate::errors::conceal_spec(e)).destination is None,
        (e.concealable matches Some(fields) && !crate::errors::contains_ci(
            fields,
            "service_name"@,
        )) ==> wire_norm(crate::errors::conceal_spec(e)).service_name == e.service_name,
{
    crate::errors::lemma_conceal_idempotent(e);
    lemma_parse_wire_round_trip(crate::errors::conceal_spec(e));
}

/// When the message is absent, the text after the kind does not start
/// with the message label: whichever field comes next, its label differs.
proof fn lemma_after_message_miss(e: ServiceErrorView, s4: Seq<char>, m_lab: Seq<char>)
    requires
        m_lab == ",\"message\":"@,
        e.message is None,
        s4 == opt_field_str(",\"service_name\":"@, e.service_name) + (match e.attributes {
            Some(a) => ",\"attributes\":{"@ + attrs_str(a) + "}"@,
            None => Seq::<char>::empty(),
        }) + opt_field_str(",\"destination\":"@, e.destination) + "}"@,
    ensures
        scan_lit(s4, m_lab) is None,
{
    reveal_strlit(",\"message\":");
    reveal_strlit(",\"service_name\":");
    reveal_strlit(",\"attributes\":{");
    reveal_strlit(",\"destination\":");
    reveal_strlit("}");
    if e.service_name is Some {
        assert(s4[2] == ",\"service_name\":"@[2]);
        assert(s4[2] != m_lab[2]);
        lemma_scan_lit_miss(s4, m_lab, 2);
    } else if e.attributes is Some {
        assert(s4[2] == ",\"attributes\":{"@[2]);
        assert(s4[2] != m_lab[2]);
        lemma_scan_lit_miss(s4, m_lab, 2);
    } else if e.destination is Some {
        assert(s4[2] == ",\"destination\":"@[2]);
        assert(s4[2] != m_lab[2]);
        lemma_scan_lit_miss(s4, m_lab, 2);
    } else {
        assert(s4 =~= "}"@);
        assert(s4[0] != m_lab[0]);
        lemma_scan_lit_miss(s4, m_lab, 0);
    }
}

/// When the service name is absent, the remaining text does not start
/// with its label.
proof fn lemma_after_service_name_miss(e: ServiceErrorView, s5: Seq<char>, s_lab: Seq<char>)
    requires
        s_lab == ",\"service_name\":"@,
        e.service_name is None,
        s5 == (match e.attributes {
            Some(a) => ",\"attributes\":{"@ + attrs_str(a) + "}"@,
            None => Seq::<char>::empty(),
        }) + opt_field_str(",\"destination\":"@, e.destination) + "}"@,
    ensures
        scan_lit(s5, s_lab) is None,
{
    reveal_strlit(",\"service_name\":");
    reveal_strlit(",\"attributes\":{");
    reveal_strlit(",\"destination\":");
    reveal_strlit("}");
    if e.attributes is Some {
        assert(s5[2] == ",\"attributes\":{"@[2]);
        assert(s5[2] != s_lab[2]);
        lemma_scan_lit_miss(s5, s_lab, 2);
    } else if e.destination is Some {
        assert(s5[2] == ",\"destination\":"@[2]);
        assert(s5[2] != s_lab[2]);
        lemma_scan_lit_miss(s5, s_lab, 2);
    } else {
        assert(s5 =~= "}"@);
        assert(s5[0] != s_lab[0]);
        lemma_scan_lit_miss(s5, s_lab, 0);
    }
}

/// When the attributes are absent, the remaining text does not start
/// with their label.
proof fn lemma_after_attributes_miss(e: ServiceErrorView, s6: Seq<char>, a_lab: Seq<char>)
    requires
        a_lab == ",\"attributes\":{"@,
        e.attributes is None,
        s6 == opt_field_str(",\"destination\":"@, e.destination) + "}"@,
    ensures
        scan_lit(s6, a_lab) is None,
{
    reveal_strlit(",\"attributes\":{");
    reveal_strlit(",\"destination\":");
    reveal_strlit("}");
    if e.destination is Some {
        assert(s6[2] == ",\"destination\":"@[2]);
        assert(s6[2] != a_lab[2]);
        lemma_scan_lit_miss(s6, a_lab, 2);
    } else {
        assert(s6 =~= "}"@);
        assert(s6[0] != a_lab[0]);
        lemma_scan_lit_miss(s6, a_lab, 0);
    }
}

} // verus!
