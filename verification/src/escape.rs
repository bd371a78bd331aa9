//! Escaping utilities.
//!
//! Three pure functions turn raw text into safely embeddable HTML text
//! content (`escape_html_body`), quoted-attribute content (`escape_html`)
//! and URL-reference content (`escape_href`). Each appends to a caller
//! supplied buffer and is specified character by character: the output is
//! exactly the concatenation of the per-character escapes.

use vstd::prelude::*;
use vstd::utf8::encode_scalar;

verus! {

/// The concatenation of `f` applied to every character of `s`, in order.
pub open spec fn escape_seq(f: spec_fn(char) -> Seq<char>, s: Seq<char>) -> Seq<char>
    decreases s.len(),
{
    if s.len() == 0 {
        Seq::empty()
    } else {
        f(s[0]) + escape_seq(f, s.drop_first())
    }
}

pub proof fn lemma_escape_seq_take(f: spec_fn(char) -> Seq<char>, s: Seq<char>, i: int)
    requires
        0 <= i < s.len(),
    ensures
        escape_seq(f, s.take(i + 1)) == escape_seq(f, s.take(i)) + f(s[i]),
    decreases i,
{
    if i == 0 {
        let t1 = s.take(1);
        assert(t1[0] == s[0]);
        assert(t1.drop_first() =~= Seq::<char>::empty());
        assert(escape_seq(f, t1.drop_first()) =~= Seq::<char>::empty());
        assert(escape_seq(f, s.take(0)) =~= Seq::<char>::empty());
        assert(escape_seq(f, t1) == f(s[0]) + escape_seq(f, t1.drop_first()));
        assert(escape_seq(f, t1) =~= escape_seq(f, s.take(0)) + f(s[0]));
    } else {
        let t = s.drop_first();
        lemma_escape_seq_take(f, t, i - 1);
        assert(s.take(i + 1).drop_first() =~= t.take(i));
        assert(s.take(i).drop_first() =~= t.take(i - 1));
        assert(escape_seq(f, s.take(i + 1)) =~= escape_seq(f, s.take(i)) + f(s[i]));
    }
}

/// How one character is escaped in HTML text content.
pub open spec fn text_escape(c: char) -> Seq<char> {
    if c == '&' {
        "&amp;"@
    } else if c == '<' {
        "&lt;"@
    } else if c == '>' {
        "&gt;"@
    } else {
        seq![c]
    }
}

pub open spec fn text_escape_f() -> spec_fn(char) -> Seq<char> {
    |c: char| text_escape(c)
}

/// HTML text-content escaping of a whole string.
pub open spec fn escaped_text(s: Seq<char>) -> Seq<char> {
    escape_seq(text_escape_f(), s)
}

/// How one character is escaped inside a quoted HTML attribute value.
pub open spec fn attr_escape(c: char) -> Seq<char> {
    if c == '&' {
        "&amp;"@
    } else if c == '<' {
        "&lt;"@
    } else if c == '>' {
        "&gt;"@
    } else if c == '"' {
        "&quot;"@
    } else if c == '\'' {
        "&#39;"@
    } else {
        seq![c]
    }
}

pub open spec fn attr_escape_f() -> spec_fn(char) -> Seq<char> {
    |c: char| attr_escape(c)
}

/// HTML attribute-value escaping of a whole string.
pub open spec fn escaped_attr(s: Seq<char>) -> Seq<char> {
    escape_seq(attr_escape_f(), s)
}

/// Characters that pass through a URL reference unchanged: ASCII letters,
/// digits, and the URL punctuation allow-list (without `&` and `'`, which
/// are escaped as character references).
pub open spec fn href_safe(c: char) -> bool {
    ('a' <= c && c <= 'z') || ('A' <= c && c <= 'Z') || ('0' <= c && c <= '9') || c == '-' || c
        == '.' || c == '_' || c == '~' || c == ':' || c == '/' || c == '?' || c == '#' || c == '['
        || c == ']' || c == '@' || c == '!' || c == '$' || c == '(' || c == ')' || c == '*' || c
        == '+' || c == ',' || c == ';' || c == '=' || c == '%'
}

/// Uppercase hexadecimal digit for a value below 16.
pub open spec fn hex_upper(d: int) -> char {
    if d == 0 {
        '0'
    } else if d == 1 {
        '1'
    } else if d == 2 {
        '2'
    } else if d == 3 {
        '3'
    } else if d == 4 {
        '4'
    } else if d == 5 {
        '5'
    } else if d == 6 {
        '6'
    } else if d == 7 {
        '7'
    } else if d == 8 {
        '8'
    } else if d == 9 {
        '9'
    } else if d == 10 {
        'A'
    } else if d == 11 {
        'B'
    } else if d == 12 {
        'C'
    } else if d == 13 {
        'D'
    } else if d == 14 {
        'E'
    } else {
        'F'
    }
}

/// `%XX` percent-encoding of one byte, uppercase.
pub open spec fn pct_byte(b: u8) -> Seq<char> {
    seq!['%', hex_upper(b as int / 16), hex_upper(b as int % 16)]
}

/// Percent-encoding of a byte sequence.
pub open spec fn pct_bytes(bs: Seq<u8>) -> Seq<char>
    decreases bs.len(),
{
    if bs.len() == 0 {
        Seq::empty()
    } else {
        pct_byte(bs[0]) + pct_bytes(bs.drop_first())
    }
}

/// How one character is escaped inside a URL reference: safe characters
/// pass through, `&` and `'` become character references, and every other
/// character has each byte of its UTF-8 encoding percent-encoded.
pub open spec fn href_escape(c: char) -> Seq<char> {
    if c == '&' {
        "&amp;"@
    } else if c == '\'' {
        "&#x27;"@
    } else if href_safe(c) {
        seq![c]
    } else {
        pct_bytes(encode_scalar(c as u32))
    }
}

pub open spec fn href_escape_f() -> spec_fn(char) -> Seq<char> {
    |c: char| href_escape(c)
}

/// URL-reference escaping of a whole string.
pub open spec fn escaped_href(s: Seq<char>) -> Seq<char> {
    escape_seq(href_escape_f(), s)
}

/// Appends `text` to `buf` with HTML text-content escaping:
/// `&`, `<` and `>` become their named entities.
pub fn escape_html_body(buf: &mut String, text: &str)
    ensures
        final(buf)@ == old(buf)@ + escaped_text(text@),
{
    let n = text.unicode_len();
    let mut i: usize = 0;
    while i < n
        invariant
            i <= n,
            n == text@.len(),
            buf@ == old(buf)@ + escaped_text(text@.take(i as int)),
        decreases n - i,
    {
        let c = text.get_char(i);
        if c == '&' {
            buf.append("&amp;");
        } else if c == '<' {
            buf.append("&lt;");
        } else if c == '>' {
            buf.append("&gt;");
        } else {
            let piece = text.substring_char(i, i + 1);
            buf.append(piece);
            proof {
                assert(piece@ =~= seq![text@[i as int]]);
            }
        }
        proof {
            lemma_escape_seq_take(text_escape_f(), text@, i as int);
        }
        i += 1;
    }
    proof {
        assert(text@.take(n as int) =~= text@);
    }
}

/// Appends `text` to `buf` with HTML attribute-value escaping:
/// `&`, `<`, `>`, `"` and `'` become their entities.
pub fn escape_html(buf: &mut String, text: &str)
    ensures
        final(buf)@ == old(buf)@ + escaped_attr(text@),
{
    let n = text.unicode_len();
    let mut i: usize = 0;
    while i < n
        invariant
            i <= n,
            n == text@.len(),
            buf@ == old(buf)@ + escaped_attr(text@.take(i as int)),
        decreases n - i,
    {
        let c = text.get_char(i);
        if c == '&' {
            buf.append("&amp;");
        } else if c == '<' {
            buf.append("&lt;");
        } else if c == '>' {
            buf.append("&gt;");
        } else if c == '"' {
            buf.append("&quot;");
        } else if c == '\'' {
            buf.append("&#39;");
        } else {
            let piece = text.substring_char(i, i + 1);
            buf.append(piece);
            proof {
                assert(piece@ =~= seq![text@[i as int]]);
            }
        }
        proof {
            lemma_escape_seq_take(attr_escape_f(), text@, i as int);
        }
        i += 1;
    }
    proof {
        assert(text@.take(n as int) =~= text@);
    }
}

/// Uppercase hexadecimal digit as a one-character string slice.
fn hex_str(d: u8) -> (r: &'static str)
    requires
        d < 16,
    ensures
        r@ == seq![hex_upper(d as int)],
{
    let r: &'static str = if d == 0 {
        "0"
    } else if d == 1 {
        "1"
    } else if d == 2 {
        "2"
    } else if d == 3 {
        "3"
    } else if d == 4 {
        "4"
    } else if d == 5 {
        "5"
    } else if d == 6 {
        "6"
    } else if d == 7 {
        "7"
    } else if d == 8 {
        "8"
    } else if d == 9 {
        "9"
    } else if d == 10 {
        "A"
    } else if d == 11 {
        "B"
    } else if d == 12 {
        "C"
    } else if d == 13 {
        "D"
    } else if d == 14 {
        "E"
    } else {
        "F"
    };
    proof {
        reveal_strlit("0");
        reveal_strlit("1");
        reveal_strlit("2");
        reveal_strlit("3");
        reveal_strlit("4");
        reveal_strlit("5");
        reveal_strlit("6");
        reveal_strlit("7");
        reveal_strlit("8");
        reveal_strlit("9");
        reveal_strlit("A");
        reveal_strlit("B");
        reveal_strlit("C");
        reveal_strlit("D");
        reveal_strlit("E");
        reveal_strlit("F");
        assert(r@ =~= seq![hex_upper(d as int)]);
    }
    r
}

/// Appends the `%XX` percent-encoding of one byte, uppercase.
fn push_pct(buf: &mut String, b: u8)
    ensures
        final(buf)@ == old(buf)@ + pct_byte(b),
{
    buf.append("%");
    buf.append(hex_str(b / 16));
    buf.append(hex_str(b % 16));
    proof {
        reveal_strlit("%");
        assert(old(buf)@ + "%"@ + seq![hex_upper(b as int / 16)] + seq![hex_upper(b as int % 16)]
            =~= old(buf)@ + pct_byte(b));
    }
}

/// Appends the UTF-8 bytes of `c`, each percent-encoded.
fn push_pct_utf8(buf: &mut String, c: char)
    ensures
        final(buf)@ == old(buf)@ + pct_bytes(encode_scalar(c as u32)),
{
    let u = c as u32;
    if u < 0x80 {
        push_pct(buf, u as u8);
    } else if u < 0x800 {
        push_pct(buf, 0xC0u8 | (((u >> 6u32) & 0x1F) as u8));
        push_pct(buf, 0x80u8 | ((u & 0x3F) as u8));
    } else if u < 0x10000 {
        push_pct(buf, 0xE0u8 | (((u >> 12u32) & 0x0F) as u8));
        push_pct(buf, 0x80u8 | (((u >> 6u32) & 0x3F) as u8));
        push_pct(buf, 0x80u8 | ((u & 0x3F) as u8));
    } else {
        push_pct(buf, 0xF0u8 | (((u >> 18u32) & 0x7) as u8));
        push_pct(buf, 0x80u8 | (((u >> 12u32) & 0x3F) as u8));
        push_pct(buf, 0x80u8 | (((u >> 6u32) & 0x3F) as u8));
        push_pct(buf, 0x80u8 | ((u & 0x3F) as u8));
    }
    proof {
        vstd::utf8::char_is_scalar(c);
        reveal_with_fuel(pct_bytes, 6);
        let bs = encode_scalar(c as u32);
        let b1 = bs.drop_first();
        let b2 = b1.drop_first();
        let b3 = b2.drop_first();
        if u < 0x80 {
            assert(((u & 0x7F) as u8) == u as u8) by (bit_vector)
                requires
                    u < 0x80,
            ;
            assert(b1 =~= Seq::<u8>::empty());
            assert(final(buf)@ =~= old(buf)@ + pct_bytes(bs));
        } else if u < 0x800 {
            assert(b1[0] == bs[1]);
            assert(b2 =~= Seq::<u8>::empty());
            assert(final(buf)@ =~= old(buf)@ + pct_bytes(bs));
        } else if u < 0x10000 {
            assert(b1[0] == bs[1] && b2[0] == bs[2]);
            assert(b3 =~= Seq::<u8>::empty());
            assert(final(buf)@ =~= old(buf)@ + pct_bytes(bs));
        } else {
            assert(b1[0] == bs[1] && b2[0] == bs[2] && b3[0] == bs[3]);
            assert(b3.drop_first() =~= Seq::<u8>::empty());
            assert(final(buf)@ =~= old(buf)@ + pct_bytes(bs));
        }
    }
}

/// Appends `text` to `buf` with URL-reference escaping: safe bytes pass
/// through, `&` and `'` become character references, everything else is
/// percent-encoded byte by byte, uppercase.
pub fn escape_href(buf: &mut String, text: &str)
    ensures
        final(buf)@ == old(buf)@ + escaped_href(text@),
{
    let n = text.unicode_len();
    let mut i: usize = 0;
    while i < n
        invariant
            i <= n,
            n == text@.len(),
            buf@ == old(buf)@ + escaped_href(text@.take(i as int)),
        decreases n - i,
    {
        let c = text.get_char(i);
        if c == '&' {
            buf.append("&amp;");
        } else if c == '\'' {
            buf.append("&#x27;");
        } else if href_safe_exec(c) {
            let piece = text.substring_char(i, i + 1);
            buf.append(piece);
            proof {
                assert(piece@ =~= seq![text@[i as int]]);
            }
        } else {
            push_pct_utf8(buf, c);
        }
        proof {
            lemma_escape_seq_take(href_escape_f(), text@, i as int);
        }
        i += 1;
    }
    proof {
        assert(text@.take(n as int) =~= text@);
    }
}

/// Executable test for [`href_safe`].
fn href_safe_exec(c: char) -> (r: bool)
    ensures
        r == href_safe(c),
{
    ('a' <= c && c <= 'z') || ('A' <= c && c <= 'Z') || ('0' <= c && c <= '9') || c == '-' || c
        == '.' || c == '_' || c == '~' || c == ':' || c == '/' || c == '?' || c == '#' || c == '['
        || c == ']' || c == '@' || c == '!' || c == '$' || c == '(' || c == ')' || c == '*' || c
        == '+' || c == ',' || c == ';' || c == '=' || c == '%'
}

/// Position `i` of `out` starts one of the entity strings `ents`.
pub open spec fn starts_entity(out: Seq<char>, i: int, ents: Seq<Seq<char>>) -> bool {
    exists|k: int|
        0 <= k < ents.len() && i + (#[trigger] ents[k]).len() <= out.len() && out.subrange(
            i,
            i + ents[k].len(),
        ) == ents[k]
}

/// Every character of `out` is harmless (`safe`), or is a `&` that begins
/// one of the entity strings `ents`.
pub open spec fn esc_ok(out: Seq<char>, safe: spec_fn(char) -> bool, ents: Seq<Seq<char>>) -> bool {
    forall|i: int|
        0 <= i < out.len() ==> safe(#[trigger] out[i]) || (out[i] == '&' && starts_entity(
            out,
            i,
            ents,
        ))
}

/// [`esc_ok`] is preserved by concatenation.
pub proof fn lemma_esc_ok_concat(
    a: Seq<char>,
    b: Seq<char>,
    safe: spec_fn(char) -> bool,
    ents: Seq<Seq<char>>,
)
    requires
        esc_ok(a, safe, ents),
        esc_ok(b, safe, ents),
    ensures
        esc_ok(a + b, safe, ents),
{
    let ab = a + b;
    assert forall|i: int| 0 <= i < ab.len() implies safe(#[trigger] ab[i]) || (ab[i] == '&'
        && starts_entity(ab, i, ents)) by {
        if i < a.len() {
            assert(ab[i] == a[i]);
            if !safe(a[i]) {
                let k = choose|k: int|
                    0 <= k < ents.len() && i + (#[trigger] ents[k]).len() <= a.len()
                        && a.subrange(i, i + ents[k].len()) == ents[k];
                assert(ab.subrange(i, i + ents[k].len()) =~= a.subrange(i, i + ents[k].len()));
            }
        } else {
            let j = i - a.len();
            assert(ab[i] == b[j]);
            if !safe(b[j]) {
                let k = choose|k: int|
                    0 <= k < ents.len() && j + (#[trigger] ents[k]).len() <= b.len()
                        && b.subrange(j, j + ents[k].len()) == ents[k];
                assert(ab.subrange(i, i + ents[k].len()) =~= b.subrange(j, j + ents[k].len()));
            }
        }
    }
}

/// Characters that carry no meaning in HTML text content.
pub open spec fn text_safe_f() -> spec_fn(char) -> bool {
    |c: char| c != '<' && c != '>' && c != '&'
}

/// The entities that HTML text-content escaping may produce.
pub open spec fn text_ents() -> Seq<Seq<char>> {
    seq!["&amp;"@, "&lt;"@, "&gt;"@]
}

/// Law: for all input text, HTML text-content escaping yields no literal
/// `<` or `>`, and every `&` of the output begins one of the entities
/// `&amp;`, `&lt;`, `&gt;` — no unescaped `&` remains.
pub proof fn lemma_escaped_text_safe(s: Seq<char>)
    ensures
        esc_ok(escaped_text(s), text_safe_f(), text_ents()),
    decreases s.len(),
{
    reveal_strlit("&amp;");
    reveal_strlit("&lt;");
    reveal_strlit("&gt;");
    if s.len() == 0 {
    } else {
        let c = s[0];
        let chunk = text_escape(c);
        if c == '&' {
            assert(chunk.subrange(0, 5) =~= text_ents()[0]);
            assert(esc_ok(chunk, text_safe_f(), text_ents()));
        } else if c == '<' {
            assert(chunk.subrange(0, 4) =~= text_ents()[1]);
            assert(esc_ok(chunk, text_safe_f(), text_ents()));
        } else if c == '>' {
            assert(chunk.subrange(0, 4) =~= text_ents()[2]);
            assert(esc_ok(chunk, text_safe_f(), text_ents()));
        } else {
            assert(esc_ok(chunk, text_safe_f(), text_ents()));
        }
        lemma_escaped_text_safe(s.drop_first());
        lemma_esc_ok_concat(
            chunk,
            escaped_text(s.drop_first()),
            text_safe_f(),
            text_ents(),
        );
    }
}

/// Characters that carry no meaning in a quoted HTML attribute value.
pub open spec fn attr_safe_f() -> spec_fn(char) -> bool {
    |c: char| c != '<' && c != '>' && c != '&' && c != '"' && c != '\''
}

/// The entities that HTML attribute-value escaping may produce.
pub open spec fn attr_ents() -> Seq<Seq<char>> {
    seq!["&amp;"@, "&lt;"@, "&gt;"@, "&quot;"@, "&#39;"@]
}

/// Law: for all input text, HTML attribute-value escaping additionally
/// yields no literal `"` or `'`: every output character is outside
/// `< > & " '`, or is a `&` that begins one of the five entities.
pub proof fn lemma_escaped_attr_safe(s: Seq<char>)
    ensures
        esc_ok(escaped_attr(s), attr_safe_f(), attr_ents()),
    decreases s.len(),
{
    reveal_strlit("&amp;");
    reveal_strlit("&lt;");
    reveal_strlit("&gt;");
    reveal_strlit("&quot;");
    reveal_strlit("&#39;");
    if s.len() == 0 {
    } else {
        let c = s[0];
        let chunk = attr_escape(c);
        if c == '&' {
            assert(chunk.subrange(0, 5) =~= attr_ents()[0]);
            assert(esc_ok(chunk, attr_safe_f(), attr_ents()));
        } else if c == '<' {
            assert(chunk.subrange(0, 4) =~= attr_ents()[1]);
            assert(esc_ok(chunk, attr_safe_f(), attr_ents()));
        } else if c == '>' {
            assert(chunk.subrange(0, 4) =~= attr_ents()[2]);
            assert(esc_ok(chunk, attr_safe_f(), attr_ents()));
        } else if c == '"' {
            assert(chunk.subrange(0, 6) =~= attr_ents()[3]);
            assert(esc_ok(chunk, attr_safe_f(), attr_ents()));
        } else if c == '\'' {
            assert(chunk.subrange(0, 5) =~= attr_ents()[4]);
            assert(esc_ok(chunk, attr_safe_f(), attr_ents()));
        } else {
            assert(esc_ok(chunk, attr_safe_f(), attr_ents()));
        }
        lemma_escaped_attr_safe(s.drop_first());
        lemma_esc_ok_concat(
            chunk,
            escaped_attr(s.drop_first()),
            attr_safe_f(),
            attr_ents(),
        );
    }
}

pub open spec fn href_safe_f() -> spec_fn(char) -> bool {
    |c: char| href_safe(c)
}

/// The two character references that URL-reference escaping may produce.
pub open spec fn href_ents() -> Seq<Seq<char>> {
    seq!["&amp;"@, "&#x27;"@]
}

/// Every character of a percent-encoded run is in the safe allow-list.
proof fn lemma_pct_bytes_safe(bs: Seq<u8>)
    ensures
        forall|i: int| 0 <= i < pct_bytes(bs).len() ==> href_safe(#[trigger] pct_bytes(bs)[i]),
    decreases bs.len(),
{
    if bs.len() > 0 {
        lemma_pct_bytes_safe(bs.drop_first());
        let out = pct_bytes(bs);
        let rest = pct_bytes(bs.drop_first());
        assert(out == pct_byte(bs[0]) + rest);
        assert forall|i: int| 0 <= i < out.len() implies href_safe(#[trigger] out[i]) by {
            if i < 3 {
                assert(href_safe(hex_upper(bs[0] as int / 16)));
                assert(href_safe(hex_upper(bs[0] as int % 16)));
                assert(out[i] == pct_byte(bs[0])[i]);
            } else {
                assert(out[i] == rest[i - 3]);
            }
        }
    }
}

/// Law: for all input, every byte outside the URL safe allow-list appears
/// in the escaped output only as an uppercase `%XX` triple (whose `%` and
/// hex digits are themselves safe characters) or as one of the two
/// character references for `&` and `'`; in particular no raw unsafe
/// character, and no `'`, survives, and every `&` begins `&amp;` or
/// `&#x27;`.
pub proof fn lemma_escaped_href_safe(s: Seq<char>)
    ensures
        esc_ok(escaped_href(s), href_safe_f(), href_ents()),
    decreases s.len(),
{
    reveal_strlit("&amp;");
    reveal_strlit("&#x27;");
    if s.len() == 0 {
    } else {
        let c = s[0];
        let chunk = href_escape(c);
        if c == '&' {
            assert(chunk.subrange(0, 5) =~= href_ents()[0]);
            assert(esc_ok(chunk, href_safe_f(), href_ents()));
        } else if c == '\'' {
            assert(chunk.subrange(0, 6) =~= href_ents()[1]);
            assert(esc_ok(chunk, href_safe_f(), href_ents()));
        } else if href_safe(c) {
            assert(esc_ok(chunk, href_safe_f(), href_ents()));
        } else {
            lemma_pct_bytes_safe(encode_scalar(c as u32));
            assert(esc_ok(chunk, href_safe_f(), href_ents()));
        }
        lemma_escaped_href_safe(s.drop_first());
        lemma_esc_ok_concat(
            chunk,
            escaped_href(s.drop_first()),
            href_safe_f(),
            href_ents(),
        );
    }
}

/// The escape classification code of one byte value: `1` through `5` index
/// the entities for `&`, `<`, `>`, `"`, `'`; `0` means the byte passes
/// through. With `body` set, the two quote characters also pass through.
pub open spec fn escape_code(b: int, body: bool) -> u8 {
    if b == 38 {
        1u8
    } else if b == 60 {
        2u8
    } else if b == 62 {
        3u8
    } else if b == 34 && !body {
        4u8
    } else if b == 39 && !body {
        5u8
    } else {
        0u8
    }
}

/// The 256-entry classification table behind the two HTML escapers: entry
/// `b` is the escape code of byte value `b`, for text content (`body`) or
/// attribute values (`!body`).
pub fn create_html_escape_table(body: bool) -> (table: Vec<u8>)
    ensures
        table@.len() == 256,
        forall|b: int| 0 <= b < 256 ==> table@[b] == escape_code(b, body),
{
    let mut table: Vec<u8> = Vec::new();
    let mut i: usize = 0;
    while i < 256
        invariant
            i <= 256,
            table@.len() == i,
            forall|b: int| 0 <= b < i ==> table@[b] == escape_code(b, body),
        decreases 256 - i,
    {
        let code: u8 = if i == 38 {
            1
        } else if i == 60 {
            2
        } else if i == 62 {
            3
        } else if i == 34 && !body {
            4
        } else if i == 39 && !body {
            5
        } else {
            0
        };
        table.push(code);
        i += 1;
    }
    table
}

} // verus!
