//! The stored-metadata codec: keyword and topic lists are persisted as JSON
//! arrays of strings in text columns. The encoder emits canonical JSON; the
//! parser reads it back (tolerating whitespace and the common escapes), and
//! parsing an encoded list provably returns the original list.
use vstd::prelude::*;

use crate::text::{push_char, str_to_chars};

verus! {

/// The lower-case hex digit of a value below sixteen.
pub open spec fn hex_char(n: int) -> char {
    if n == 0 {
        '0'
    } else if n == 1 {
        '1'
    } else if n == 2 {
        '2'
    } else if n == 3 {
        '3'
    } else if n == 4 {
        '4'
    } else if n == 5 {
        '5'
    } else if n == 6 {
        '6'
    } else if n == 7 {
        '7'
    } else if n == 8 {
        '8'
    } else if n == 9 {
        '9'
    } else if n == 10 {
        'a'
    } else if n == 11 {
        'b'
    } else if n == 12 {
        'c'
    } else if n == 13 {
        'd'
    } else if n == 14 {
        'e'
    } else {
        'f'
    }
}

/// The value of a hex digit, or -1.
pub open spec fn hex_val(c: char) -> int {
    if c == '0' {
        0
    } else if c == '1' {
        1
    } else if c == '2' {
        2
    } else if c == '3' {
        3
    } else if c == '4' {
        4
    } else if c == '5' {
        5
    } else if c == '6' {
        6
    } else if c == '7' {
        7
    } else if c == '8' {
        8
    } else if c == '9' {
        9
    } else if c == 'a' || c == 'A' {
        10
    } else if c == 'b' || c == 'B' {
        11
    } else if c == 'c' || c == 'C' {
        12
    } else if c == 'd' || c == 'D' {
        13
    } else if c == 'e' || c == 'E' {
        14
    } else if c == 'f' || c == 'F' {
        15
    } else {
        -1
    }
}

/// How one character is written inside a JSON string: quotes and backslashes
/// are escaped, control characters become a `\u00XX` escape, everything else
/// stands as itself.
pub open spec fn esc_char(c: char) -> Seq<char> {
    if c == '"' {
        seq!['\\', '"']
    } else if c == '\\' {
        seq!['\\', '\\']
    } else if (c as u32) < 32 {
        seq!['\\', 'u', '0', '0', hex_char((c as u32) as int / 16), hex_char(
            (c as u32) as int % 16,
        )]
    } else {
        seq![c]
    }
}

/// A string's characters written out, without the surrounding quotes.
pub open spec fn enc_str_body(s: Seq<char>) -> Seq<char>
    decreases s.len(),
{
    if s.len() == 0 {
        Seq::empty()
    } else {
        esc_char(s[0]) + enc_str_body(s.drop_first())
    }
}

/// A JSON string: the quoted, escaped characters.
pub open spec fn enc_string(s: Seq<char>) -> Seq<char> {
    seq!['"'] + enc_str_body(s) + seq!['"']
}

/// The comma-separated items of a JSON array of strings.
pub open spec fn enc_items(l: Seq<Seq<char>>) -> Seq<char>
    decreases l.len(),
{
    if l.len() == 0 {
        Seq::empty()
    } else if l.len() == 1 {
        enc_string(l[0])
    } else {
        enc_string(l[0]) + seq![','] + enc_items(l.drop_first())
    }
}

/// A JSON array of strings, without any whitespace.
pub open spec fn enc_string_list(l: Seq<Seq<char>>) -> Seq<char> {
    seq!['['] + enc_items(l) + seq![']']
}

/// Writing one more character appends its escape.
pub proof fn lemma_enc_body_push(s: Seq<char>, c: char)
    ensures
        enc_str_body(s.push(c)) == enc_str_body(s) + esc_char(c),
    decreases s.len(),
{
    let sp = s.push(c);
    if s.len() == 0 {
        assert(sp.len() == 1);
        assert(sp[0] == c);
        assert(sp.drop_first() =~= Seq::<char>::empty());
        assert(enc_str_body(sp.drop_first()) == Seq::<char>::empty());
        assert(enc_str_body(sp) == esc_char(c) + Seq::<char>::empty());
        assert(esc_char(c) + Seq::<char>::empty() =~= esc_char(c));
        assert(enc_str_body(s) == Seq::<char>::empty());
        assert(enc_str_body(s) + esc_char(c) =~= esc_char(c));
    } else {
        assert(sp.drop_first() =~= s.drop_first().push(c));
        lemma_enc_body_push(s.drop_first(), c);
        assert(esc_char(sp[0]) + (enc_str_body(s.drop_first()) + esc_char(c)) =~= (esc_char(s[0])
            + enc_str_body(s.drop_first())) + esc_char(c));
    }
}

/// Listing one more item appends a comma and its encoding.
pub proof fn lemma_enc_items_push(l: Seq<Seq<char>>, x: Seq<char>)
    ensures
        l.len() == 0 ==> enc_items(l.push(x)) == enc_string(x),
        l.len() > 0 ==> enc_items(l.push(x)) == enc_items(l) + seq![','] + enc_string(x),
    decreases l.len(),
{
    let lp = l.push(x);
    if l.len() == 0 {
        assert(lp.len() == 1 && lp[0] == x);
    } else {
        assert(lp.drop_first() =~= l.drop_first().push(x));
        lemma_enc_items_push(l.drop_first(), x);
        if l.len() == 1 {
            assert(enc_items(lp) == enc_string(l[0]) + seq![','] + enc_items(lp.drop_first()));
            assert(enc_items(lp.drop_first()) == enc_string(x));
            assert(enc_items(l) == enc_string(l[0]));
        } else {
            assert(enc_items(lp) == enc_string(lp[0]) + seq![','] + enc_items(lp.drop_first()));
            assert(enc_string(l[0]) + seq![','] + (enc_items(l.drop_first()) + seq![',']
                + enc_string(x)) =~= (enc_string(l[0]) + seq![','] + enc_items(l.drop_first()))
                + seq![','] + enc_string(x));
        }
    }
}

/// The hex digit of a value below sixteen reads back as that value.
pub proof fn lemma_hex_round_trip(n: int)
    requires
        0 <= n < 16,
    ensures
        hex_val(hex_char(n)) == n,
{
}

/// Writes one character into the output in its JSON form.
fn push_escaped(out: &mut String, c: char)
    ensures
        final(out)@ == old(out)@ + esc_char(c),
{
    if c == '"' {
        push_char(out, '\\');
        push_char(out, '"');
        proof {
            assert(old(out)@.push('\\').push('"') =~= old(out)@ + esc_char(c));
        }
    } else if c == '\\' {
        push_char(out, '\\');
        push_char(out, '\\');
        proof {
            assert(old(out)@.push('\\').push('\\') =~= old(out)@ + esc_char(c));
        }
    } else if (c as u32) < 32 {
        let v = c as u32;
        push_char(out, '\\');
        push_char(out, 'u');
        push_char(out, '0');
        push_char(out, '0');
        push_char(out, hex_char_of((v / 16) as u8));
        push_char(out, hex_char_of((v % 16) as u8));
        proof {
            assert(old(out)@.push('\\').push('u').push('0').push('0').push(
                hex_char((c as u32) as int / 16),
            ).push(hex_char((c as u32) as int % 16)) =~= old(out)@ + esc_char(c));
        }
    } else {
        push_char(out, c);
        proof {
            assert(old(out)@.push(c) =~= old(out)@ + esc_char(c));
        }
    }
}

/// The lower-case hex digit of a value below sixteen.
fn hex_char_of(n: u8) -> (r: char)
    requires
        n < 16,
    ensures
        r == hex_char(n as int),
{
    match n {
        0 => '0',
        1 => '1',
        2 => '2',
        3 => '3',
        4 => '4',
        5 => '5',
        6 => '6',
        7 => '7',
        8 => '8',
        9 => '9',
        10 => 'a',
        11 => 'b',
        12 => 'c',
        13 => 'd',
        14 => 'e',
        _ => 'f',
    }
}

/// Writes a quoted, escaped JSON string into the output.
fn push_json_string(out: &mut String, s: &String)
    ensures
        final(out)@ == old(out)@ + enc_string(s@),
{
    push_char(out, '"');
    let cs = str_to_chars(s.as_str());
    let mut i: usize = 0;
    while i < cs.len()
        invariant
            i <= cs@.len(),
            cs@ == s@,
            out@ == old(out)@ + seq!['"'] + enc_str_body(s@.subrange(0, i as int)),
        decreases cs@.len() - i,
    {
        proof {
            let pre = s@.subrange(0, i as int);
            let cur = s@.subrange(0, i + 1);
            assert(cur =~= pre.push(s@[i as int]));
            lemma_enc_body_push(pre, s@[i as int]);
        }
        push_escaped(out, cs[i]);
        proof {
            assert((old(out)@ + seq!['"'] + enc_str_body(s@.subrange(0, i as int))) + esc_char(
                s@[i as int],
            ) =~= old(out)@ + seq!['"'] + (enc_str_body(s@.subrange(0, i as int)) + esc_char(
                s@[i as int],
            )));
        }
        i += 1;
    }
    proof {
        assert(s@.subrange(0, s@.len() as int) =~= s@);
    }
    push_char(out, '"');
    proof {
        assert((old(out)@ + seq!['"'] + enc_str_body(s@)).push('"') =~= old(out)@ + enc_string(
            s@,
        ));
    }
    proof {
        assert(enc_str_body(s@.subrange(0, 0)) =~= Seq::<char>::empty());
    }
}

/// Encodes a list of strings as a JSON array, the form the store's text
/// columns hold.
pub fn encode_string_list(items: &Vec<String>) -> (r: String)
    ensures
        r@ == enc_string_list(items.deep_view()),
{
    let mut out = String::new();
    push_char(&mut out, '[');
    proof {
        assert(out@ =~= seq!['[']);
    }
    let mut i: usize = 0;
    while i < items.len()
        invariant
            i <= items@.len(),
            out@ == seq!['['] + enc_items(items.deep_view().subrange(0, i as int)),
        decreases items@.len() - i,
    {
        proof {
            let dv = items.deep_view();
            let pre = dv.subrange(0, i as int);
            let cur = dv.subrange(0, i + 1);
            assert(cur =~= pre.push(dv[i as int]));
            lemma_enc_items_push(pre, dv[i as int]);
            assert(dv[i as int] == items@[i as int]@);
        }
        if i > 0 {
            push_char(&mut out, ',');
        }
        push_json_string(&mut out, &items[i]);
        proof {
            let dv = items.deep_view();
            let pre = dv.subrange(0, i as int);
            if i > 0 {
                assert((seq!['['] + enc_items(pre)).push(',') + enc_string(dv[i as int]) =~= seq![
                    '[',
                ] + (enc_items(pre) + seq![','] + enc_string(dv[i as int])));
            } else {
                assert(pre =~= Seq::<Seq<char>>::empty());
                assert((seq!['['] + enc_items(pre)) + enc_string(dv[i as int]) =~= seq!['[']
                    + enc_string(dv[i as int]));
            }
        }
        i += 1;
    }
    proof {
        assert(items.deep_view().subrange(0, items@.len() as int) =~= items.deep_view());
        assert(enc_items(items.deep_view().subrange(0, 0)) =~= Seq::<char>::empty());
    }
    push_char(&mut out, ']');
    proof {
        assert((seq!['['] + enc_items(items.deep_view())).push(']') =~= enc_string_list(
            items.deep_view(),
        ));
    }
    out
}

/// JSON whitespace.
pub open spec fn is_ws(c: char) -> bool {
    c == ' ' || c == '\n' || c == '\t' || c == '\r'
}

/// The first position at or after `i` that does not hold whitespace.
pub open spec fn skip_ws(s: Seq<char>, i: int) -> int
    decreases s.len() - i,
    when 0 <= i
{
    if i < s.len() && is_ws(s[i]) {
        skip_ws(s, i + 1)
    } else {
        i
    }
}

/// Skipping whitespace stays within the string and moves only forward.
pub proof fn lemma_skip_ws_bounds(s: Seq<char>, i: int)
    requires
        0 <= i <= s.len(),
    ensures
        i <= skip_ws(s, i) <= s.len(),
    decreases s.len() - i,
{
    if i < s.len() && is_ws(s[i]) {
        lemma_skip_ws_bounds(s, i + 1);
    }
}

/// The unescaped form of a single-character escape, if it is one.
pub open spec fn unescape(c: char) -> Option<char> {
    if c == '"' {
        Some('"')
    } else if c == '\\' {
        Some('\\')
    } else if c == '/' {
        Some('/')
    } else if c == 'n' {
        Some('\n')
    } else if c == 't' {
        Some('\t')
    } else if c == 'r' {
        Some('\r')
    } else if c == 'b' {
        Some(8u8 as char)
    } else if c == 'f' {
        Some(12u8 as char)
    } else {
        None
    }
}

/// Puts one decoded character in front of a parse result.
pub open spec fn prepend(c: char, r: Option<(Seq<char>, int)>) -> Option<(Seq<char>, int)> {
    match r {
        Some((t, j)) => Some((seq![c] + t, j)),
        None => None,
    }
}

/// Parses a JSON string body starting just after the opening quote: the
/// decoded characters and the position after the closing quote. Escapes
/// understood are the single-character ones and `\u00XX`.
pub open spec fn parse_string_body(s: Seq<char>, i: int) -> Option<(Seq<char>, int)>
    decreases s.len() - i,
    when 0 <= i
{
    if i >= s.len() {
        None
    } else if s[i] == '"' {
        Some((Seq::empty(), i + 1))
    } else if s[i] == '\\' {
        if i + 1 >= s.len() {
            None
        } else if s[i + 1] == 'u' {
            if i + 6 <= s.len() && hex_val(s[i + 2]) >= 0 && hex_val(s[i + 3]) >= 0 && hex_val(
                s[i + 4],
            ) >= 0 && hex_val(s[i + 5]) >= 0 {
                let code = hex_val(s[i + 2]) * 4096 + hex_val(s[i + 3]) * 256 + hex_val(s[i + 4])
                    * 16 + hex_val(s[i + 5]);
                if code < 0xD800 || code > 0xDFFF {
                    prepend((code as u32) as char, parse_string_body(s, i + 6))
                } else if code <= 0xDBFF {
                    if i + 12 <= s.len() && s[i + 6] == '\\' && s[i + 7] == 'u' && hex_val(
                        s[i + 8],
                    ) >= 0 && hex_val(s[i + 9]) >= 0 && hex_val(s[i + 10]) >= 0 && hex_val(
                        s[i + 11],
                    ) >= 0 {
                        let low = hex_val(s[i + 8]) * 4096 + hex_val(s[i + 9]) * 256 + hex_val(
                            s[i + 10],
                        ) * 16 + hex_val(s[i + 11]);
                        if 0xDC00 <= low <= 0xDFFF {
                            prepend(
                                ((0x10000 + (code - 0xD800) * 0x400 + (low - 0xDC00)) as u32) as char,
                                parse_string_body(s, i + 12),
                            )
                        } else {
                            None
                        }
                    } else {
                        None
                    }
                } else {
                    None
                }
            } else {
                None
            }
        } else {
            match unescape(s[i + 1]) {
                Some(c) => prepend(c, parse_string_body(s, i + 2)),
                None => None,
            }
        }
    } else {
        prepend(s[i], parse_string_body(s, i + 1))
    }
}

/// A successful string-body parse ends after its start, within the string.
pub proof fn lemma_parse_string_body_bounds(s: Seq<char>, i: int)
    requires
        0 <= i,
    ensures
        parse_string_body(s, i) matches Some((t, j)) ==> i < j <= s.len(),
    decreases s.len() - i,
{
    if i < s.len() && s[i] != '"' {
        if s[i] == '\\' {
            if i + 1 < s.len() {
                if s[i + 1] == 'u' {
                    if i + 6 <= s.len() {
                        lemma_parse_string_body_bounds(s, i + 6);
                    }
                    if i + 12 <= s.len() {
                        lemma_parse_string_body_bounds(s, i + 12);
                    }
                } else {
                    lemma_parse_string_body_bounds(s, i + 2);
                }
            }
        } else {
            lemma_parse_string_body_bounds(s, i + 1);
        }
    }
}

/// Parses a JSON string starting at its opening quote.
pub open spec fn parse_string(s: Seq<char>, i: int) -> Option<(Seq<char>, int)> {
    if 0 <= i < s.len() && s[i] == '"' {
        parse_string_body(s, i + 1)
    } else {
        None
    }
}

/// A successful string parse ends after its start, within the string.
pub proof fn lemma_parse_string_bounds(s: Seq<char>, i: int)
    ensures
        parse_string(s, i) matches Some((t, j)) ==> 0 <= i < j <= s.len(),
{
    if 0 <= i < s.len() && s[i] == '"' {
        lemma_parse_string_body_bounds(s, i + 1);
    }
}

/// Parses the items of a non-empty JSON array of strings, starting at the
/// first item, through the closing bracket.
pub open spec fn parse_items(s: Seq<char>, i: int) -> Option<(Seq<Seq<char>>, int)>
    decreases s.len() - i,
    when 0 <= i
{
    match parse_string(s, i) {
        None => None,
        Some((v, j)) => {
            if !(i < j <= s.len()) {
                None
            } else {
                let k = skip_ws(s, j);
                if !(j <= k <= s.len()) {
                    None
                } else if k < s.len() && s[k] == ',' {
                    let m = skip_ws(s, k + 1);
                    if !(k + 1 <= m <= s.len()) {
                        None
                    } else {
                        match parse_items(s, m) {
                            None => None,
                            Some((rest, e)) => Some((seq![v] + rest, e)),
                        }
                    }
                } else if k < s.len() && s[k] == ']' {
                    Some((seq![v], k + 1))
                } else {
                    None
                }
            }
        },
    }
}

/// A successful items parse ends after its start, within the string.
pub proof fn lemma_parse_items_bounds(s: Seq<char>, i: int)
    requires
        0 <= i,
    ensures
        parse_items(s, i) matches Some((l, e)) ==> i < e <= s.len(),
    decreases s.len() - i,
{
    lemma_parse_string_bounds(s, i);
    match parse_string(s, i) {
        Some((v, j)) => {
            if i < j <= s.len() {
                let k = skip_ws(s, j);
                if j <= k <= s.len() {
                    if k < s.len() && s[k] == ',' {
                        let m = skip_ws(s, k + 1);
                        if k + 1 <= m <= s.len() {
                            lemma_parse_items_bounds(s, m);
                        }
                    }
                }
            }
        },
        None => {},
    }
}

/// Parses a whole text as a JSON array of strings: optional whitespace, the
/// array, optional whitespace, nothing else.
pub open spec fn parse_string_list(s: Seq<char>) -> Option<Seq<Seq<char>>> {
    let i = skip_ws(s, 0);
    if i < s.len() && s[i] == '[' {
        let j = skip_ws(s, i + 1);
        if j < s.len() && s[j] == ']' {
            if skip_ws(s, j + 1) == s.len() {
                Some(Seq::empty())
            } else {
                None
            }
        } else {
            match parse_items(s, j) {
                None => None,
                Some((l, e)) => {
                    if 0 <= e && skip_ws(s, e) == s.len() {
                        Some(l)
                    } else {
                        None
                    }
                },
            }
        }
    } else {
        None
    }
}

/// Parsing an encoded string body finds exactly the original characters and
/// stops after the closing quote, wherever the encoding stands in the text.
#[verifier::rlimit(60)]
proof fn lemma_parse_body_of_enc(pre: Seq<char>, s: Seq<char>, post: Seq<char>)
    ensures
        parse_string_body(pre + enc_str_body(s) + seq!['"'] + post, pre.len() as int) == Some(
            (s, pre.len() + enc_str_body(s).len() as int + 1),
        ),
    decreases s.len(),
{
    let full = pre + enc_str_body(s) + seq!['"'] + post;
    let i = pre.len() as int;
    if s.len() == 0 {
        assert(enc_str_body(s) == Seq::<char>::empty());
        assert(full[i] == '"');
        assert(parse_string_body(full, i) == Some((Seq::<char>::empty(), i + 1)));
        assert(s =~= Seq::<char>::empty());
    } else {
        let c = s[0];
        let e0 = esc_char(c);
        let rest = s.drop_first();
        assert(enc_str_body(s) == e0 + enc_str_body(rest));
        assert(full =~= (pre + e0) + enc_str_body(rest) + seq!['"'] + post);
        lemma_parse_body_of_enc(pre + e0, rest, post);
        let j = i + e0.len();
        assert(parse_string_body(full, j) == Some(
            (rest, j + enc_str_body(rest).len() + 1),
        ));
        assert(seq![c] + rest =~= s);
        if c == '"' {
            assert(e0 == seq!['\\', '"']);
            assert(full[i] == '\\' && full[i + 1] == '"');
            assert(unescape(full[i + 1]) == Some('"'));
            assert(parse_string_body(full, i) == prepend('"', parse_string_body(full, i + 2)));
        } else if c == '\\' {
            assert(e0 == seq!['\\', '\\']);
            assert(full[i] == '\\' && full[i + 1] == '\\');
            assert(unescape(full[i + 1]) == Some('\\'));
            assert(parse_string_body(full, i) == prepend('\\', parse_string_body(full, i + 2)));
        } else if (c as u32) < 32 {
            let v = (c as u32) as int;
            assert(e0 == seq!['\\', 'u', '0', '0', hex_char(v / 16), hex_char(v % 16)]);
            assert(full[i] == '\\' && full[i + 1] == 'u' && full[i + 2] == '0' && full[i + 3]
                == '0' && full[i + 4] == hex_char(v / 16) && full[i + 5] == hex_char(v % 16));
            lemma_hex_round_trip(v / 16);
            lemma_hex_round_trip(v % 16);
            assert(hex_val(full[i + 4]) == v / 16 && hex_val(full[i + 5]) == v % 16);
            assert(hex_val(full[i + 4]) * 16 + hex_val(full[i + 5]) == v);
            assert(i + 6 <= full.len());
            assert(parse_string_body(full, i) == prepend(
                ((v as u8) as char),
                parse_string_body(full, i + 6),
            ));
            assert(0 <= v < 32);
            assert((v as u8) as u32 == c as u32);
            vstd::utf8::char_u32_cast(c, c as u32);
            assert(((c as u32) as char) == c);
            assert((v as u8) as char == ((c as u32) as char));
            assert((v as u8) as char == c);
        } else {
            assert(e0 == seq![c]);
            assert(full[i] == c);
            assert(parse_string_body(full, i) == prepend(c, parse_string_body(full, i + 1)));
        }
    }
}

/// Parsing an encoded string finds exactly the original string.
proof fn lemma_parse_string_of_enc(pre: Seq<char>, s: Seq<char>, post: Seq<char>)
    ensures
        parse_string(pre + enc_string(s) + post, pre.len() as int) == Some(
            (s, pre.len() as int + enc_string(s).len() as int),
        ),
{
    let full = pre + enc_string(s) + post;
    let i = pre.len() as int;
    assert(full[i] == '"');
    assert(full =~= (pre + seq!['"']) + enc_str_body(s) + seq!['"'] + post);
    lemma_parse_body_of_enc(pre + seq!['"'], s, post);
    assert(parse_string_body(full, i + 1) == Some((s, i + 1 + enc_str_body(s).len() + 1)));
    assert(enc_string(s).len() == enc_str_body(s).len() + 2);
}

/// The written-out items of a non-empty list start with a quote.
proof fn lemma_enc_items_head(l: Seq<Seq<char>>)
    requires
        l.len() > 0,
    ensures
        enc_items(l).len() > 0,
        enc_items(l)[0] == '"',
{
    assert(enc_string(l[0])[0] == '"');
}

/// Parsing encoded items followed by the closing bracket finds exactly the
/// original items, wherever they stand in the text.
proof fn lemma_parse_items_of_enc(pre: Seq<char>, l: Seq<Seq<char>>, post: Seq<char>)
    requires
        l.len() > 0,
    ensures
        parse_items(pre + enc_items(l) + seq![']'] + post, pre.len() as int) == Some(
            (l, pre.len() + enc_items(l).len() as int + 1),
        ),
    decreases l.len(),
{
    let full = pre + enc_items(l) + seq![']'] + post;
    let i = pre.len() as int;
    if l.len() == 1 {
        assert(enc_items(l) == enc_string(l[0]));
        assert(full =~= pre + enc_string(l[0]) + (seq![']'] + post));
        lemma_parse_string_of_enc(pre, l[0], seq![']'] + post);
        let j = i + enc_string(l[0]).len();
        assert(parse_string(full, i) == Some((l[0], j)));
        assert(full[j] == ']');
        assert(!is_ws(full[j]));
        assert(skip_ws(full, j) == j);
        assert(parse_items(full, i) == Some((seq![l[0]], j + 1)));
        assert(seq![l[0]] =~= l);
    } else {
        let rest = l.drop_first();
        assert(enc_items(l) == enc_string(l[0]) + seq![','] + enc_items(rest));
        assert(full =~= pre + enc_string(l[0]) + (seq![','] + enc_items(rest) + seq![']'] + post));
        lemma_parse_string_of_enc(pre, l[0], seq![','] + enc_items(rest) + seq![']'] + post);
        let j = i + enc_string(l[0]).len();
        assert(parse_string(full, i) == Some((l[0], j)));
        assert(full[j] == ',');
        assert(!is_ws(full[j]));
        assert(skip_ws(full, j) == j);
        lemma_enc_items_head(rest);
        assert(full[j + 1] == enc_items(rest)[0]);
        assert(!is_ws(full[j + 1]));
        assert(skip_ws(full, j + 1) == j + 1);
        assert(full =~= (pre + enc_string(l[0]) + seq![',']) + enc_items(rest) + seq![']'] + post);
        lemma_parse_items_of_enc(pre + enc_string(l[0]) + seq![','], rest, post);
        assert(parse_items(full, j + 1) == Some((rest, j + 1 + enc_items(rest).len() + 1)));
        assert(parse_items(full, i) == Some((seq![l[0]] + rest, j + 1 + enc_items(rest).len() + 1)));
        assert(seq![l[0]] + rest =~= l);
    }
}

/// The stored-metadata round trip: a keyword or topic list written by the
/// encoder is read back by the parser as exactly the same list.
pub proof fn lemma_list_round_trip(l: Seq<Seq<char>>)
    ensures
        parse_string_list(enc_string_list(l)) == Some(l),
{
    let full = enc_string_list(l);
    assert(full == seq!['['] + enc_items(l) + seq![']']);
    assert(full[0] == '[');
    assert(!is_ws(full[0]));
    assert(skip_ws(full, 0) == 0);
    if l.len() == 0 {
        assert(enc_items(l) == Seq::<char>::empty());
        assert(full =~= seq!['[', ']']);
        assert(full[1] == ']');
        assert(!is_ws(full[1]));
        assert(skip_ws(full, 1) == 1);
        assert(skip_ws(full, 2) == 2);
        assert(parse_string_list(full) == Some(Seq::<Seq<char>>::empty()));
        assert(Seq::<Seq<char>>::empty() =~= l);
    } else {
        lemma_enc_items_head(l);
        assert(full[1] == enc_items(l)[0]);
        assert(!is_ws(full[1]));
        assert(skip_ws(full, 1) == 1);
        assert(full[1] != ']');
        assert(full =~= seq!['['] + enc_items(l) + seq![']'] + Seq::<char>::empty());
        lemma_parse_items_of_enc(seq!['['], l, Seq::empty());
        let e: int = 1 + enc_items(l).len() as int + 1;
        assert(parse_items(full, 1) == Some((l, e)));
        assert(e == full.len());
        assert(skip_ws(full, e) == e);
    }
}

/// Puts already-decoded characters in front of a parse result.
pub open spec fn prepend_all(p: Seq<char>, r: Option<(Seq<char>, int)>) -> Option<(Seq<char>, int)> {
    match r {
        Some((t, j)) => Some((p + t, j)),
        None => None,
    }
}

/// Puts already-parsed items in front of an items parse result.
pub open spec fn prepend_items(p: Seq<Seq<char>>, r: Option<(Seq<Seq<char>>, int)>) -> Option<
    (Seq<Seq<char>>, int),
> {
    match r {
        Some((rest, e)) => Some((p + rest, e)),
        None => None,
    }
}

/// Whether the character is JSON whitespace.
pub fn is_ws_char(c: char) -> (r: bool)
    ensures
        r == is_ws(c),
{
    c == ' ' || c == '\n' || c == '\t' || c == '\r'
}

/// The first position at or after `i` without whitespace.
fn skip_ws_at(s: &Vec<char>, i: usize) -> (r: usize)
    requires
        i <= s@.len(),
    ensures
        r as int == skip_ws(s@, i as int),
        i <= r <= s@.len(),
{
    let mut cur = i;
    while cur < s.len() && is_ws_char(s[cur])
        invariant
            i <= cur <= s@.len(),
            skip_ws(s@, i as int) == skip_ws(s@, cur as int),
        decreases s@.len() - cur,
    {
        cur += 1;
    }
    cur
}

/// The value of a hex digit character, if it is one.
fn hex_val_of(c: char) -> (r: Option<u8>)
    ensures
        r matches Some(v) ==> hex_val(c) == v as int && v < 16,
        r is None ==> hex_val(c) < 0,
{
    match c {
        '0' => Some(0),
        '1' => Some(1),
        '2' => Some(2),
        '3' => Some(3),
        '4' => Some(4),
        '5' => Some(5),
        '6' => Some(6),
        '7' => Some(7),
        '8' => Some(8),
        '9' => Some(9),
        'a' | 'A' => Some(10),
        'b' | 'B' => Some(11),
        'c' | 'C' => Some(12),
        'd' | 'D' => Some(13),
        'e' | 'E' => Some(14),
        'f' | 'F' => Some(15),
        _ => None,
    }
}

/// Reads four hex digits starting at `i` as one code unit.
fn hex_quad(s: &Vec<char>, i: usize) -> (r: Option<u32>)
    requires
        i + 4 <= s@.len(),
    ensures
        r matches Some(v) ==> v < 0x10000 && hex_val(s@[i as int]) >= 0 && hex_val(
            s@[i + 1],
        ) >= 0 && hex_val(s@[i + 2]) >= 0 && hex_val(s@[i + 3]) >= 0 && v as int == hex_val(
            s@[i as int],
        ) * 4096 + hex_val(s@[i + 1]) * 256 + hex_val(s@[i + 2]) * 16 + hex_val(s@[i + 3]),
        r is None ==> !(hex_val(s@[i as int]) >= 0 && hex_val(s@[i + 1]) >= 0 && hex_val(
            s@[i + 2],
        ) >= 0 && hex_val(s@[i + 3]) >= 0),
{
    let n = s.len();
    let h1 = match hex_val_of(s[i]) {
        Some(v) => v,
        None => {
            return None;
        },
    };
    let h2 = match hex_val_of(s[i + 1]) {
        Some(v) => v,
        None => {
            return None;
        },
    };
    let h3 = match hex_val_of(s[i + 2]) {
        Some(v) => v,
        None => {
            return None;
        },
    };
    let h4 = match hex_val_of(s[i + 3]) {
        Some(v) => v,
        None => {
            return None;
        },
    };
    Some((h1 as u32) * 4096 + (h2 as u32) * 256 + (h3 as u32) * 16 + (h4 as u32))
}

/// The unescaped form of a single-character escape, if it is one.
fn unescape_of(c: char) -> (r: Option<char>)
    ensures
        r == unescape(c),
{
    match c {
        '"' => Some('"'),
        '\\' => Some('\\'),
        '/' => Some('/'),
        'n' => Some('\n'),
        't' => Some('\t'),
        'r' => Some('\r'),
        'b' => Some(8u8 as char),
        'f' => Some(12u8 as char),
        _ => None,
    }
}

/// Parses a JSON string starting at its opening quote, as the parsing
/// function describes.
fn parse_string_exec(s: &Vec<char>, i: usize) -> (r: Option<(String, usize)>)
    requires
        i <= s@.len(),
    ensures
        r matches Some((t, j)) ==> parse_string(s@, i as int) == Some((t@, j as int)) && i < j
            <= s@.len(),
        r is None ==> parse_string(s@, i as int) is None,
{
    if i >= s.len() || s[i] != '"' {
        return None;
    }
    let mut acc = String::new();
    let mut cur: usize = i + 1;
    proof {
        assert(Seq::<char>::empty() + Seq::<char>::empty() =~= Seq::<char>::empty());
    }
    loop
        invariant
            i + 1 <= cur <= s@.len(),
            i < s@.len() && s@[i as int] == '"',
            parse_string_body(s@, i + 1) == prepend_all(acc@, parse_string_body(s@, cur as int)),
        decreases s@.len() - cur,
    {
        if cur >= s.len() {
            return None;
        }
        let c = s[cur];
        if c == '"' {
            proof {
                assert(acc@ + Seq::<char>::empty() =~= acc@);
                lemma_parse_string_body_bounds(s@, i + 1);
            }
            return Some((acc, cur + 1));
        } else if c == '\\' {
            if cur + 1 >= s.len() {
                return None;
            }
            let e = s[cur + 1];
            if e == 'u' {
                if s.len() - cur < 6 {
                    return None;
                }
                let code = match hex_quad(s, cur + 2) {
                    Some(v) => v,
                    None => {
                        return None;
                    },
                };
                if code < 0xD800 || code > 0xDFFF {
                    let ch = match crate::text::char_from_u32(code) {
                        Some(c2) => c2,
                        None => {
                            proof {
                                assert(false);
                            }
                            return None;
                        },
                    };
                    proof {
                        vstd::utf8::char_u32_cast(ch, ch as u32);
                        assert(ch == ((code as int) as u32) as char);
                        let body_next = parse_string_body(s@, cur + 6);
                        assert(parse_string_body(s@, cur as int) == prepend(ch, body_next));
                        match body_next {
                            Some((t, j)) => {
                                assert(acc@ + (seq![ch] + t) =~= acc@.push(ch) + t);
                            },
                            None => {},
                        }
                    }
                    push_char(&mut acc, ch);
                    cur += 6;
                } else if code <= 0xDBFF {
                    if s.len() - cur < 12 || s[cur + 6] != '\\' || s[cur + 7] != 'u' {
                        return None;
                    }
                    let low = match hex_quad(s, cur + 8) {
                        Some(v) => v,
                        None => {
                            return None;
                        },
                    };
                    if !(0xDC00 <= low && low <= 0xDFFF) {
                        return None;
                    }
                    let combined: u32 = 0x10000 + (code - 0xD800) * 0x400 + (low - 0xDC00);
                    let ch = match crate::text::char_from_u32(combined) {
                        Some(c2) => c2,
                        None => {
                            proof {
                                assert(false);
                            }
                            return None;
                        },
                    };
                    proof {
                        vstd::utf8::char_u32_cast(ch, ch as u32);
                        assert(ch == ((combined as int) as u32) as char);
                        let body_next = parse_string_body(s@, cur + 12);
                        assert(parse_string_body(s@, cur as int) == prepend(ch, body_next));
                        match body_next {
                            Some((t, j)) => {
                                assert(acc@ + (seq![ch] + t) =~= acc@.push(ch) + t);
                            },
                            None => {},
                        }
                    }
                    push_char(&mut acc, ch);
                    cur += 12;
                } else {
                    return None;
                }
            } else {
                match unescape_of(e) {
                    Some(c2) => {
                        proof {
                            let body_next = parse_string_body(s@, cur + 2);
                            assert(parse_string_body(s@, cur as int) == prepend(c2, body_next));
                            match body_next {
                                Some((t, j)) => {
                                    assert(acc@ + (seq![c2] + t) =~= acc@.push(c2) + t);
                                },
                                None => {},
                            }
                        }
                        push_char(&mut acc, c2);
                        cur += 2;
                    },
                    None => {
                        return None;
                    },
                }
            }
        } else {
            proof {
                let body_next = parse_string_body(s@, cur + 1);
                assert(parse_string_body(s@, cur as int) == prepend(c, body_next));
                match body_next {
                    Some((t, j)) => {
                        assert(acc@ + (seq![c] + t) =~= acc@.push(c) + t);
                    },
                    None => {},
                }
            }
            push_char(&mut acc, c);
            cur += 1;
        }
    }
}

/// Parses the items of a non-empty array, as the parsing function describes.
fn parse_items_exec(s: &Vec<char>, i: usize) -> (r: Option<(Vec<String>, usize)>)
    requires
        i <= s@.len(),
    ensures
        r matches Some((l, e)) ==> parse_items(s@, i as int) == Some((l.deep_view(), e as int))
            && i < e <= s@.len(),
        r is None ==> parse_items(s@, i as int) is None,
{
    let mut acc: Vec<String> = Vec::new();
    let mut cur: usize = i;
    proof {
        assert(acc.deep_view() =~= Seq::<Seq<char>>::empty());
    }
    loop
        invariant
            i <= cur <= s@.len(),
            parse_items(s@, i as int) == prepend_items(
                acc.deep_view(),
                parse_items(s@, cur as int),
            ),
        decreases s@.len() - cur,
    {
        proof {
            if acc.deep_view().len() == 0 {
                match parse_items(s@, cur as int) {
                    Some((rest, e)) => {
                        assert(acc.deep_view() + rest =~= rest);
                    },
                    None => {},
                }
            }
        }
        let (v, j) = match parse_string_exec(s, cur) {
            Some(p) => p,
            None => {
                return None;
            },
        };
        proof {
            lemma_parse_string_bounds(s@, cur as int);
        }
        let k = skip_ws_at(s, j);
        if k < s.len() && s[k] == ',' {
            let m = skip_ws_at(s, k + 1);
            proof {
                let ghost old_dv = acc.deep_view();
                match parse_items(s@, m as int) {
                    Some((rest, e)) => {
                        assert(old_dv + (seq![v@] + rest) =~= old_dv.push(v@) + rest);
                    },
                    None => {},
                }
            }
            let ghost old_dv = acc.deep_view();
            acc.push(v);
            proof {
                assert(acc.deep_view() =~= old_dv.push(acc@.last()@));
            }
            cur = m;
        } else if k < s.len() && s[k] == ']' {
            let ghost old_dv = acc.deep_view();
            proof {
                assert(parse_items(s@, cur as int) == Some((seq![v@], k + 1)));
            }
            acc.push(v);
            proof {
                assert(acc.deep_view() =~= old_dv + seq![acc@.last()@]);
            }
            return Some((acc, k + 1));
        } else {
            return None;
        }
    }
}

/// Parses a text as a JSON array of strings: the decoded list, or nothing if
/// the text is not such an array.
pub fn decode_string_list(text: &String) -> (r: Option<Vec<String>>)
    ensures
        r matches Some(l) ==> parse_string_list(text@) == Some(l.deep_view()),
        r is None ==> parse_string_list(text@) is None,
{
    let s = str_to_chars(text.as_str());
    let i = skip_ws_at(&s, 0);
    if !(i < s.len() && s[i] == '[') {
        return None;
    }
    let j = skip_ws_at(&s, i + 1);
    if j < s.len() && s[j] == ']' {
        if skip_ws_at(&s, j + 1) == s.len() {
            let l: Vec<String> = Vec::new();
            proof {
                assert(l.deep_view() =~= Seq::<Seq<char>>::empty());
            }
            Some(l)
        } else {
            None
        }
    } else {
        match parse_items_exec(&s, j) {
            Some((l, e)) => {
                if skip_ws_at(&s, e) == s.len() {
                    Some(l)
                } else {
                    None
                }
            },
            None => None,
        }
    }
}


/// Parses one `"key": [ ... ]` member starting at the key's opening quote:
/// the key, the string list, and the position after the list.
pub open spec fn parse_member(s: Seq<char>, i: int) -> Option<(Seq<char>, Seq<Seq<char>>, int)> {
    match parse_string(s, i) {
        None => None,
        Some((k, j)) => {
            if !(0 <= j <= s.len()) {
                None
            } else {
                let c = skip_ws(s, j);
                if !(0 <= c <= s.len()) {
                    None
                } else if c < s.len() && s[c] == ':' {
                    let v = skip_ws(s, c + 1);
                    if !(0 <= v <= s.len()) {
                        None
                    } else if v < s.len() && s[v] == '[' {
                        let w = skip_ws(s, v + 1);
                        if w < s.len() && s[w] == ']' {
                            Some((k, Seq::empty(), w + 1))
                        } else {
                            match parse_items(s, w) {
                                None => None,
                                Some((l, e)) => Some((k, l, e)),
                            }
                        }
                    } else {
                        None
                    }
                } else {
                    None
                }
            }
        },
    }
}

/// Parses the structured extraction reply: an object holding exactly the
/// `keywords` and `topics` members, each a string list, in either order.
/// The result pairs the keywords with the topics.
pub open spec fn parse_metadata_object(s: Seq<char>) -> Option<(Seq<Seq<char>>, Seq<Seq<char>>)> {
    let i0 = skip_ws(s, 0);
    if i0 < s.len() && s[i0] == '{' {
        match parse_member(s, skip_ws(s, i0 + 1)) {
            None => None,
            Some((k1, l1, p1)) => {
                if !(0 <= p1 <= s.len()) {
                    None
                } else {
                    let c1 = skip_ws(s, p1);
                    if c1 < s.len() && s[c1] == ',' {
                        match parse_member(s, skip_ws(s, c1 + 1)) {
                            None => None,
                            Some((k2, l2, p2)) => {
                                if !(0 <= p2 <= s.len()) {
                                    None
                                } else {
                                    let e = skip_ws(s, p2);
                                    if e < s.len() && s[e] == '}' && skip_ws(s, e + 1) == s.len() {
                                        if k1 == "keywords"@ && k2 == "topics"@ {
                                            Some((l1, l2))
                                        } else if k1 == "topics"@ && k2 == "keywords"@ {
                                            Some((l2, l1))
                                        } else {
                                            None
                                        }
                                    } else {
                                        None
                                    }
                                }
                            },
                        }
                    } else {
                        None
                    }
                }
            },
        }
    } else {
        None
    }
}

/// Parses one member, as the parsing function describes.
fn parse_member_exec(s: &Vec<char>, i: usize) -> (r: Option<(String, Vec<String>, usize)>)
    requires
        i <= s@.len(),
    ensures
        r matches Some((k, l, e)) ==> parse_member(s@, i as int) == Some(
            (k@, l.deep_view(), e as int),
        ) && e <= s@.len(),
        r is None ==> parse_member(s@, i as int) is None,
{
    let (k, j) = match parse_string_exec(s, i) {
        Some(p) => p,
        None => {
            return None;
        },
    };
    let c = skip_ws_at(s, j);
    if !(c < s.len() && s[c] == ':') {
        return None;
    }
    let v = skip_ws_at(s, c + 1);
    if !(v < s.len() && s[v] == '[') {
        return None;
    }
    let w = skip_ws_at(s, v + 1);
    if w < s.len() && s[w] == ']' {
        let l: Vec<String> = Vec::new();
        proof {
            assert(l.deep_view() =~= Seq::<Seq<char>>::empty());
        }
        Some((k, l, w + 1))
    } else {
        match parse_items_exec(s, w) {
            Some((l, e)) => Some((k, l, e)),
            None => None,
        }
    }
}

/// Parses the structured extraction reply, as the parsing function
/// describes: the keyword list paired with the topic list.
pub fn decode_metadata_object(text: &String) -> (r: Option<(Vec<String>, Vec<String>)>)
    ensures
        r matches Some((kw, tp)) ==> parse_metadata_object(text@) == Some(
            (kw.deep_view(), tp.deep_view()),
        ),
        r is None ==> parse_metadata_object(text@) is None,
{
    let s = str_to_chars(text.as_str());
    decode_metadata_object_chars(&s)
}

/// Parses the structured extraction reply from characters.
pub fn decode_metadata_object_chars(s: &Vec<char>) -> (r: Option<(Vec<String>, Vec<String>)>)
    ensures
        r matches Some((kw, tp)) ==> parse_metadata_object(s@) == Some(
            (kw.deep_view(), tp.deep_view()),
        ),
        r is None ==> parse_metadata_object(s@) is None,
{
    let i0 = skip_ws_at(s, 0);
    if !(i0 < s.len() && s[i0] == '{') {
        return None;
    }
    let m1 = skip_ws_at(s, i0 + 1);
    let (k1, l1, p1) = match parse_member_exec(s, m1) {
        Some(m) => m,
        None => {
            return None;
        },
    };
    let c1 = skip_ws_at(s, p1);
    if !(c1 < s.len() && s[c1] == ',') {
        return None;
    }
    let m2 = skip_ws_at(s, c1 + 1);
    let (k2, l2, p2) = match parse_member_exec(s, m2) {
        Some(m) => m,
        None => {
            return None;
        },
    };
    let e = skip_ws_at(s, p2);
    if !(e < s.len() && s[e] == '}' && skip_ws_at(s, e + 1) == s.len()) {
        return None;
    }
    let k1_is_keywords = crate::text::string_eq_str(&k1, "keywords");
    let k2_is_topics = crate::text::string_eq_str(&k2, "topics");
    if k1_is_keywords && k2_is_topics {
        Some((l1, l2))
    } else if crate::text::string_eq_str(&k1, "topics") && crate::text::string_eq_str(
        &k2,
        "keywords",
    ) {
        Some((l2, l1))
    } else {
        None
    }
}

} // verus!
