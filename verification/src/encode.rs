//! Request-side encodings: percent-encoded query strings for GET requests and
//! JSON object bodies for the other methods. Field name casing is the
//! exchange's own (lower camel case), supplied by each request's pairs.
use vstd::prelude::*;
use vstd::utf8::{encode_utf8, is_ascii_chars, is_ascii_chars_encode_utf8};

verus! {

/// Characters that pass through percent-encoding unchanged.
pub open spec fn is_unreserved(c: char) -> bool {
    ('A' <= c && c <= 'Z') || ('a' <= c && c <= 'z') || ('0' <= c && c <= '9') || c == '-' || c
        == '_' || c == '.' || c == '~'
}

/// Upper-case hexadecimal digit for a value below 16.
pub open spec fn hex_digit(d: u8) -> char {
    if d < 10 {
        ((48 + d) as u8) as char
    } else {
        ((55 + d) as u8) as char
    }
}

/// The three characters `%XY` that encode one byte.
pub open spec fn pct_byte(b: u8) -> Seq<char> {
    seq!['%', hex_digit(b / 16), hex_digit(b % 16)]
}

pub open spec fn pct_bytes(bs: Seq<u8>) -> Seq<char>
    decreases bs.len(),
{
    if bs.len() == 0 {
        Seq::empty()
    } else {
        pct_byte(bs[0]) + pct_bytes(bs.drop_first())
    }
}

/// Percent-encoding of one character: unreserved characters stand for
/// themselves, every other character becomes the `%XY` triples of its UTF-8
/// bytes.
pub open spec fn pct_char(c: char) -> Seq<char> {
    if is_unreserved(c) {
        seq![c]
    } else {
        pct_bytes(encode_utf8(seq![c]))
    }
}

/// Percent-encoding of a whole string.
pub open spec fn pct_encoded(s: Seq<char>) -> Seq<char>
    decreases s.len(),
{
    if s.len() == 0 {
        Seq::empty()
    } else {
        pct_char(s[0]) + pct_encoded(s.drop_first())
    }
}

proof fn lemma_pct_bytes_concat(a: Seq<u8>, b: Seq<u8>)
    ensures
        pct_bytes(a + b) == pct_bytes(a) + pct_bytes(b),
    decreases a.len(),
{
    if a.len() == 0 {
        assert(a + b =~= b);
        assert(pct_bytes(a) + pct_bytes(b) =~= pct_bytes(b));
    } else {
        lemma_pct_bytes_concat(a.drop_first(), b);
        assert((a + b).drop_first() =~= a.drop_first() + b);
        assert((a + b)[0] == a[0]);
        assert(pct_byte(a[0]) + (pct_bytes(a.drop_first()) + pct_bytes(b)) =~= (pct_byte(a[0])
            + pct_bytes(a.drop_first())) + pct_bytes(b));
    }
}

proof fn lemma_pct_encoded_concat(a: Seq<char>, b: Seq<char>)
    ensures
        pct_encoded(a + b) == pct_encoded(a) + pct_encoded(b),
    decreases a.len(),
{
    if a.len() == 0 {
        assert(a + b =~= b);
        assert(pct_encoded(a) + pct_encoded(b) =~= pct_encoded(b));
    } else {
        lemma_pct_encoded_concat(a.drop_first(), b);
        assert((a + b).drop_first() =~= a.drop_first() + b);
        assert((a + b)[0] == a[0]);
        assert(pct_char(a[0]) + (pct_encoded(a.drop_first()) + pct_encoded(b)) =~= (pct_char(a[0])
            + pct_encoded(a.drop_first())) + pct_encoded(b));
    }
}

proof fn lemma_pct_encoded_push(s: Seq<char>, i: int)
    requires
        0 <= i < s.len(),
    ensures
        pct_encoded(s.take(i + 1)) == pct_encoded(s.take(i)) + pct_char(s[i]),
{
    assert(s.take(i + 1) =~= s.take(i) + seq![s[i]]);
    lemma_pct_encoded_concat(s.take(i), seq![s[i]]);
    assert(seq![s[i]].drop_first() =~= Seq::<char>::empty());
    assert(pct_encoded(Seq::<char>::empty()) == Seq::<char>::empty());
    assert(pct_encoded(seq![s[i]]) =~= pct_char(s[i]));
}

/// Relies on `String::push` of std: appends the character to the string.
#[verifier::external_body]
fn push_char(s: &mut String, c: char)
    ensures
        final(s)@ == old(s)@ + seq![c],
{
    s.push(c);
}

/// Relies on `char::encode_utf8` of std: yields the UTF-8 encoding of the
/// character, which `vstd::utf8::encode_utf8` states in specification form.
#[verifier::external_body]
fn char_utf8_bytes(c: char) -> (v: Vec<u8>)
    ensures
        v@ == encode_utf8(seq![c]),
{
    let mut buf = [0u8; 4];
    c.encode_utf8(&mut buf).as_bytes().to_vec()
}

fn is_unreserved_exec(c: char) -> (b: bool)
    ensures
        b == is_unreserved(c),
{
    ('A' <= c && c <= 'Z') || ('a' <= c && c <= 'z') || ('0' <= c && c <= '9') || c == '-' || c
        == '_' || c == '.' || c == '~'
}

fn hex_char(d: u8) -> (c: char)
    requires
        d < 16,
    ensures
        c == hex_digit(d),
{
    if d < 10 {
        (48 + d) as char
    } else {
        (55 + d) as char
    }
}

/// Append the percent-encoding of `s` to `out`.
fn percent_encode_into(out: &mut String, s: &str)
    ensures
        final(out)@ == old(out)@ + pct_encoded(s@),
{
    let n = s.unicode_len();
    let mut i: usize = 0;
    while i < n
        invariant
            n == s@.len(),
            i <= n,
            out@ == old(out)@ + pct_encoded(s@.take(i as int)),
        decreases n - i,
    {
        let c = s.get_char(i);
        if is_unreserved_exec(c) {
            push_char(out, c);
            proof {
                lemma_pct_encoded_push(s@, i as int);
                assert(out@ =~= old(out)@ + pct_encoded(s@.take(i + 1)));
            }
        } else {
            let bs = char_utf8_bytes(c);
            let m = bs.len();
            let mut j: usize = 0;
            while j < m
                invariant
                    m == bs@.len(),
                    j <= m,
                    bs@ == encode_utf8(seq![c]),
                    out@ == old(out)@ + pct_encoded(s@.take(i as int)) + pct_bytes(
                        bs@.take(j as int),
                    ),
                decreases m - j,
            {
                let b = bs[j];
                push_char(out, '%');
                push_char(out, hex_char(b / 16));
                push_char(out, hex_char(b % 16));
                proof {
                    assert(bs@.take(j + 1) =~= bs@.take(j as int) + seq![bs@[j as int]]);
                    lemma_pct_bytes_concat(bs@.take(j as int), seq![bs@[j as int]]);
                    assert(seq![bs@[j as int]].drop_first() =~= Seq::<u8>::empty());
                    assert(pct_bytes(Seq::<u8>::empty()) == Seq::<char>::empty());
                    assert(pct_bytes(seq![bs@[j as int]]) =~= pct_byte(bs@[j as int]));
                    assert(out@ =~= old(out)@ + pct_encoded(s@.take(i as int)) + pct_bytes(
                        bs@.take(j + 1),
                    ));
                }
                j = j + 1;
            }
            proof {
                assert(bs@.take(m as int) =~= bs@);
                lemma_pct_encoded_push(s@, i as int);
                assert(!is_unreserved(s@[i as int]));
                assert(pct_char(s@[i as int]) == pct_bytes(encode_utf8(seq![c])));
                assert(out@ =~= old(out)@ + pct_encoded(s@.take(i + 1)));
            }
        }
        i = i + 1;
    }
    proof {
        assert(s@.take(n as int) =~= s@);
    }
}

/// Whether a character is an upper-case hexadecimal digit.
pub open spec fn is_hex(c: char) -> bool {
    ('0' <= c && c <= '9') || ('A' <= c && c <= 'F')
}

/// The value of an upper-case hexadecimal digit.
pub open spec fn hex_val(c: char) -> u8 {
    if '0' <= c && c <= '9' {
        ((c as u32) - 48) as u8
    } else {
        ((c as u32) - 55) as u8
    }
}

/// The inverse reading of a percent-encoded text: the bytes it denotes, or
/// nothing when it is not a well-formed encoding.
pub open spec fn pct_decode(cs: Seq<char>) -> Option<Seq<u8>>
    decreases cs.len(),
{
    if cs.len() == 0 {
        Some(Seq::empty())
    } else if cs[0] == '%' {
        if cs.len() >= 3 && is_hex(cs[1]) && is_hex(cs[2]) {
            match pct_decode(cs.skip(3)) {
                Some(bs) => Some(
                    seq![(((hex_val(cs[1]) as nat) * 16 + (hex_val(cs[2]) as nat)) as u8)] + bs,
                ),
                None => None,
            }
        } else {
            None
        }
    } else if is_unreserved(cs[0]) {
        match pct_decode(cs.drop_first()) {
            Some(bs) => Some(seq![cs[0] as u8] + bs),
            None => None,
        }
    } else {
        None
    }
}

proof fn lemma_hex_digit_inverse(d: u8)
    requires
        d < 16,
    ensures
        is_hex(hex_digit(d)),
        hex_val(hex_digit(d)) == d,
{
}

proof fn lemma_pct_decode_bytes(bs: Seq<u8>, t: Seq<char>)
    ensures
        pct_decode(pct_bytes(bs) + t) == (match pct_decode(t) {
            Some(r) => Some(bs + r),
            None => None::<Seq<u8>>,
        }),
    decreases bs.len(),
{
    if bs.len() == 0 {
        assert(pct_bytes(bs) + t =~= t);
        match pct_decode(t) {
            Some(r) => {
                assert(bs + r =~= r);
            },
            None => {},
        }
    } else {
        let b = bs[0];
        let enc = pct_bytes(bs) + t;
        lemma_pct_decode_bytes(bs.drop_first(), t);
        lemma_hex_digit_inverse(b / 16);
        lemma_hex_digit_inverse(b % 16);
        assert(enc[0] == '%');
        assert(enc[1] == hex_digit(b / 16));
        assert(enc[2] == hex_digit(b % 16)) by {
            assert(pct_byte(b)[2] == hex_digit(b % 16));
        }
        assert(enc.len() >= 3);
        assert(enc.skip(3) =~= pct_bytes(bs.drop_first()) + t);
        assert((hex_val(enc[1]) as nat) * 16 + (hex_val(enc[2]) as nat) == b);
        match pct_decode(t) {
            Some(r) => {
                assert(seq![b] + (bs.drop_first() + r) =~= bs + r);
            },
            None => {},
        }
    }
}

proof fn lemma_pct_decode_char(c: char, t: Seq<char>)
    ensures
        pct_decode(pct_char(c) + t) == (match pct_decode(t) {
            Some(r) => Some(encode_utf8(seq![c]) + r),
            None => None::<Seq<u8>>,
        }),
{
    if is_unreserved(c) {
        assert(is_ascii_chars(seq![c]));
        is_ascii_chars_encode_utf8(seq![c]);
        assert(encode_utf8(seq![c]).len() == 1);
        assert(encode_utf8(seq![c])[0] == c as u8);
        assert(encode_utf8(seq![c]) =~= seq![c as u8]);
        let enc = pct_char(c) + t;
        assert(enc =~= seq![c] + t);
        assert(enc[0] == c);
        assert(c != '%');
        assert(enc.drop_first() =~= t);
        match pct_decode(t) {
            Some(r) => {
                assert(pct_decode(enc) == Some(seq![c as u8] + r));
            },
            None => {},
        }
    } else {
        lemma_pct_decode_bytes(encode_utf8(seq![c]), t);
        assert(pct_char(c) == pct_bytes(encode_utf8(seq![c])));
    }
}

/// Law: percent-encoding is lossless — decoding the encoded text of any
/// string yields exactly the UTF-8 bytes of that string, so two distinct
/// field values can never encode to the same query component.
pub proof fn lemma_percent_encode_round_trip(s: Seq<char>)
    ensures
        pct_decode(pct_encoded(s)) == Some(encode_utf8(s)),
    decreases s.len(),
{
    if s.len() == 0 {
        assert(pct_encoded(s) =~= Seq::<char>::empty());
        assert(encode_utf8(s) =~= Seq::<u8>::empty());
    } else {
        lemma_percent_encode_round_trip(s.drop_first());
        lemma_pct_decode_char(s[0], pct_encoded(s.drop_first()));
        assert(seq![s[0]].drop_first() =~= Seq::<char>::empty());
        assert(encode_utf8(Seq::<char>::empty()) =~= Seq::<u8>::empty());
        assert(encode_utf8(seq![s[0]]) + encode_utf8(s.drop_first()) =~= encode_utf8(s));
    }
}

/// View of the pair list as character sequences.
pub open spec fn pairs_view(ps: Seq<(String, String)>) -> Seq<(Seq<char>, Seq<char>)> {
    ps.map_values(|p: (String, String)| (p.0@, p.1@))
}

/// One `key=value` query component, both sides percent-encoded.
pub open spec fn pair_enc(p: (Seq<char>, Seq<char>)) -> Seq<char> {
    pct_encoded(p.0) + seq!['='] + pct_encoded(p.1)
}

pub open spec fn rest_of(ps: Seq<(Seq<char>, Seq<char>)>) -> Seq<char>
    decreases ps.len(),
{
    if ps.len() == 0 {
        Seq::empty()
    } else {
        seq!['&'] + pair_enc(ps[0]) + rest_of(ps.drop_first())
    }
}

/// The query string of a pair list: `k=v` components joined with `'&'`.
pub open spec fn query_of(ps: Seq<(Seq<char>, Seq<char>)>) -> Seq<char> {
    if ps.len() == 0 {
        Seq::empty()
    } else {
        pair_enc(ps[0]) + rest_of(ps.drop_first())
    }
}

proof fn lemma_rest_of_push(ps: Seq<(Seq<char>, Seq<char>)>, i: int)
    requires
        0 <= i < ps.len(),
    ensures
        rest_of(ps.take(i + 1)) == rest_of(ps.take(i)) + seq!['&'] + pair_enc(ps[i]),
    decreases i,
{
    if i == 0 {
        assert(ps.take(1) =~= seq![ps[0]]);
        assert(seq![ps[0]].drop_first() =~= Seq::<(Seq<char>, Seq<char>)>::empty());
        assert(rest_of(ps.take(0)) =~= Seq::<char>::empty());
        assert(rest_of(Seq::<(Seq<char>, Seq<char>)>::empty()) == Seq::<char>::empty());
        assert(rest_of(ps.take(1)) =~= seq!['&'] + pair_enc(ps[0]));
        assert(rest_of(ps.take(0)) + seq!['&'] + pair_enc(ps[0]) =~= seq!['&'] + pair_enc(ps[0]));
    } else {
        lemma_rest_of_push(ps.drop_first(), i - 1);
        assert(ps.take(i + 1).drop_first() =~= ps.drop_first().take(i));
        assert(ps.take(i).drop_first() =~= ps.drop_first().take(i - 1));
        assert(ps.take(i + 1)[0] == ps[0]);
        assert(ps.take(i)[0] == ps[0]);
        assert(ps.drop_first()[i - 1] == ps[i]);
        assert(seq!['&'] + pair_enc(ps[0]) + (rest_of(ps.drop_first().take(i - 1)) + seq!['&']
            + pair_enc(ps[i])) =~= (seq!['&'] + pair_enc(ps[0]) + rest_of(
            ps.drop_first().take(i - 1),
        )) + seq!['&'] + pair_enc(ps[i]));
    }
}

proof fn lemma_query_of_push(ps: Seq<(Seq<char>, Seq<char>)>, i: int)
    requires
        0 <= i < ps.len(),
    ensures
        i == 0 ==> query_of(ps.take(1)) == pair_enc(ps[0]),
        i > 0 ==> query_of(ps.take(i + 1)) == query_of(ps.take(i)) + seq!['&'] + pair_enc(ps[i]),
{
    if i == 0 {
        assert(ps.take(1) =~= seq![ps[0]]);
        assert(seq![ps[0]].drop_first() =~= Seq::<(Seq<char>, Seq<char>)>::empty());
        assert(pair_enc(ps[0]) + rest_of(Seq::<(Seq<char>, Seq<char>)>::empty()) =~= pair_enc(
            ps[0],
        ));
    } else {
        lemma_rest_of_push(ps.drop_first(), i - 1);
        assert(ps.take(i + 1).drop_first() =~= ps.drop_first().take(i));
        assert(ps.take(i).drop_first() =~= ps.drop_first().take(i - 1));
        assert(ps.take(i + 1)[0] == ps[0]);
        assert(ps.take(i)[0] == ps[0]);
        assert(ps.drop_first()[i - 1] == ps[i]);
        assert(pair_enc(ps[0]) + (rest_of(ps.drop_first().take(i - 1)) + seq!['&'] + pair_enc(
            ps[i],
        )) =~= (pair_enc(ps[0]) + rest_of(ps.drop_first().take(i - 1))) + seq!['&'] + pair_enc(
            ps[i],
        ));
    }
}

/// Build the query string for a pair list: `k=v` components joined with
/// `'&'`, keys and values percent-encoded, in the given order.
pub fn build_query(pairs: &Vec<(String, String)>) -> (q: String)
    ensures
        q@ == query_of(pairs_view(pairs@)),
{
    let mut q = String::new();
    let mut i: usize = 0;
    while i < pairs.len()
        invariant
            i <= pairs@.len(),
            q@ == query_of(pairs_view(pairs@).take(i as int)),
        decreases pairs@.len() - i,
    {
        if i > 0 {
            push_char(&mut q, '&');
        }
        percent_encode_into(&mut q, pairs[i].0.as_str());
        push_char(&mut q, '=');
        percent_encode_into(&mut q, pairs[i].1.as_str());
        proof {
            lemma_query_of_push(pairs_view(pairs@), i as int);
            assert(pairs_view(pairs@)[i as int] == (pairs@[i as int].0@, pairs@[i as int].1@));
            if i == 0 {
                assert(q@ =~= query_of(pairs_view(pairs@).take(1)));
            } else {
                assert(q@ =~= query_of(pairs_view(pairs@).take(i + 1)));
            }
        }
        i = i + 1;
    }
    proof {
        assert(pairs_view(pairs@).take(pairs@.len() as int) =~= pairs_view(pairs@));
    }
    q
}

/// JSON escape of one character inside a string literal: quote and backslash
/// are escaped, control characters become `\u00XY`, all else stands for
/// itself.
pub open spec fn esc_char(c: char) -> Seq<char> {
    if c == '"' {
        seq!['\\', '"']
    } else if c == '\\' {
        seq!['\\', '\\']
    } else if (c as u32) < 32 {
        seq!['\\', 'u', '0', '0', hex_digit((c as u32 / 16) as u8), hex_digit((c as u32 % 16) as u8)]
    } else {
        seq![c]
    }
}

pub open spec fn esc(s: Seq<char>) -> Seq<char>
    decreases s.len(),
{
    if s.len() == 0 {
        Seq::empty()
    } else {
        esc_char(s[0]) + esc(s.drop_first())
    }
}

/// A JSON string literal: the escaped text between double quotes.
pub open spec fn json_str(s: Seq<char>) -> Seq<char> {
    seq!['"'] + esc(s) + seq!['"']
}

pub open spec fn json_rest_of(ps: Seq<(Seq<char>, Seq<char>)>) -> Seq<char>
    decreases ps.len(),
{
    if ps.len() == 0 {
        Seq::empty()
    } else {
        seq![','] + json_str(ps[0].0) + seq![':'] + json_str(ps[0].1) + json_rest_of(
            ps.drop_first(),
        )
    }
}

/// The JSON object body of a pair list: `{"k":"v",...}` in the given order.
pub open spec fn json_body_of(ps: Seq<(Seq<char>, Seq<char>)>) -> Seq<char> {
    if ps.len() == 0 {
        seq!['{', '}']
    } else {
        seq!['{'] + json_str(ps[0].0) + seq![':'] + json_str(ps[0].1) + json_rest_of(
            ps.drop_first(),
        ) + seq!['}']
    }
}

proof fn lemma_esc_concat(a: Seq<char>, b: Seq<char>)
    ensures
        esc(a + b) == esc(a) + esc(b),
    decreases a.len(),
{
    if a.len() == 0 {
        assert(a + b =~= b);
        assert(esc(a) + esc(b) =~= esc(b));
    } else {
        lemma_esc_concat(a.drop_first(), b);
        assert((a + b).drop_first() =~= a.drop_first() + b);
        assert((a + b)[0] == a[0]);
        assert(esc_char(a[0]) + (esc(a.drop_first()) + esc(b)) =~= (esc_char(a[0]) + esc(
            a.drop_first(),
        )) + esc(b));
    }
}

proof fn lemma_esc_push(s: Seq<char>, i: int)
    requires
        0 <= i < s.len(),
    ensures
        esc(s.take(i + 1)) == esc(s.take(i)) + esc_char(s[i]),
{
    assert(s.take(i + 1) =~= s.take(i) + seq![s[i]]);
    lemma_esc_concat(s.take(i), seq![s[i]]);
    assert(seq![s[i]].drop_first() =~= Seq::<char>::empty());
    assert(esc(Seq::<char>::empty()) == Seq::<char>::empty());
    assert(esc(seq![s[i]]) =~= esc_char(s[i]));
}

/// Append the JSON string literal of `s` to `out`.
fn json_str_into(out: &mut String, s: &str)
    ensures
        final(out)@ == old(out)@ + json_str(s@),
{
    push_char(out, '"');
    let n = s.unicode_len();
    let mut i: usize = 0;
    while i < n
        invariant
            n == s@.len(),
            i <= n,
            out@ == old(out)@ + seq!['"'] + esc(s@.take(i as int)),
        decreases n - i,
    {
        let c = s.get_char(i);
        if c == '"' {
            push_char(out, '\\');
            push_char(out, '"');
        } else if c == '\\' {
            push_char(out, '\\');
            push_char(out, '\\');
        } else if (c as u32) < 32 {
            let v = c as u32;
            push_char(out, '\\');
            push_char(out, 'u');
            push_char(out, '0');
            push_char(out, '0');
            push_char(out, hex_char((v / 16) as u8));
            push_char(out, hex_char((v % 16) as u8));
        } else {
            push_char(out, c);
        }
        proof {
            lemma_esc_push(s@, i as int);
            assert(out@ =~= old(out)@ + seq!['"'] + esc(s@.take(i + 1)));
        }
        i = i + 1;
    }
    push_char(out, '"');
    proof {
        assert(s@.take(n as int) =~= s@);
        assert(out@ =~= old(out)@ + json_str(s@));
    }
}

proof fn lemma_json_rest_push(ps: Seq<(Seq<char>, Seq<char>)>, i: int)
    requires
        0 <= i < ps.len(),
    ensures
        json_rest_of(ps.take(i + 1)) == json_rest_of(ps.take(i)) + seq![','] + json_str(ps[i].0)
            + seq![':'] + json_str(ps[i].1),
    decreases i,
{
    if i == 0 {
        assert(ps.take(1) =~= seq![ps[0]]);
        assert(seq![ps[0]].drop_first() =~= Seq::<(Seq<char>, Seq<char>)>::empty());
        assert(json_rest_of(ps.take(0)) =~= Seq::<char>::empty());
        assert(json_rest_of(Seq::<(Seq<char>, Seq<char>)>::empty()) == Seq::<char>::empty());
        assert(json_rest_of(ps.take(1)) =~= seq![','] + json_str(ps[0].0) + seq![':'] + json_str(
            ps[0].1,
        ));
        assert(json_rest_of(ps.take(0)) + seq![','] + json_str(ps[0].0) + seq![':'] + json_str(
            ps[0].1,
        ) =~= seq![','] + json_str(ps[0].0) + seq![':'] + json_str(ps[0].1));
    } else {
        lemma_json_rest_push(ps.drop_first(), i - 1);
        assert(ps.take(i + 1).drop_first() =~= ps.drop_first().take(i));
        assert(ps.take(i).drop_first() =~= ps.drop_first().take(i - 1));
        assert(ps.take(i + 1)[0] == ps[0]);
        assert(ps.take(i)[0] == ps[0]);
        assert(ps.drop_first()[i - 1] == ps[i]);
        assert(seq![','] + json_str(ps[0].0) + seq![':'] + json_str(ps[0].1) + (json_rest_of(
            ps.drop_first().take(i - 1),
        ) + seq![','] + json_str(ps[i].0) + seq![':'] + json_str(ps[i].1)) =~= (seq![',']
            + json_str(ps[0].0) + seq![':'] + json_str(ps[0].1) + json_rest_of(
            ps.drop_first().take(i - 1),
        )) + seq![','] + json_str(ps[i].0) + seq![':'] + json_str(ps[i].1));
    }
}

/// Build the JSON object body for a pair list, all values as JSON strings,
/// in the given order.
pub fn build_json_body(pairs: &Vec<(String, String)>) -> (b: String)
    ensures
        b@ == json_body_of(pairs_view(pairs@)),
{
    let mut b = String::new();
    push_char(&mut b, '{');
    let ghost pv: Seq<(Seq<char>, Seq<char>)> = pairs_view(pairs@);
    let mut i: usize = 0;
    while i < pairs.len()
        invariant
            pv == pairs_view(pairs@),
            i <= pairs@.len(),
            i == 0 ==> b@ == seq!['{'],
            i > 0 ==> b@ == seq!['{'] + json_str(pv[0].0) + seq![':'] + json_str(pv[0].1)
                + json_rest_of(pv.drop_first().take(i - 1)),
        decreases pairs@.len() - i,
    {
        if i > 0 {
            push_char(&mut b, ',');
        }
        json_str_into(&mut b, pairs[i].0.as_str());
        push_char(&mut b, ':');
        json_str_into(&mut b, pairs[i].1.as_str());
        proof {
            assert(pv[i as int] == (pairs@[i as int].0@, pairs@[i as int].1@));
            if i > 0 {
                lemma_json_rest_push(pv.drop_first(), i - 1);
                assert(pv.drop_first()[i - 1] == pv[i as int]);
                assert(b@ =~= seq!['{'] + json_str(pv[0].0) + seq![':'] + json_str(pv[0].1)
                    + json_rest_of(pv.drop_first().take(i as int)));
            } else {
                assert(b@ =~= seq!['{'] + json_str(pv[0].0) + seq![':'] + json_str(pv[0].1)
                    + json_rest_of(pv.drop_first().take(0)));
            }
        }
        i = i + 1;
    }
    push_char(&mut b, '}');
    proof {
        if pairs@.len() == 0 {
            assert(b@ =~= json_body_of(pv));
        } else {
            assert(pv.drop_first().take(pairs@.len() - 1) =~= pv.drop_first());
            assert(b@ =~= json_body_of(pv));
        }
    }
    b
}

} // verus!
