use vstd::prelude::*;
use crate::text::push_str_chars;

verus! {

/// A control character, which JSON never allows raw inside a string.
pub open spec fn is_ctl(c: char) -> bool {
    (c as u32) < 32
}

/// The lower-case hex digit for a nibble.
pub open spec fn hex_digit(n: int) -> char {
    if n == 0 { '0' } else if n == 1 { '1' } else if n == 2 { '2' } else if n == 3 { '3' }
    else if n == 4 { '4' } else if n == 5 { '5' } else if n == 6 { '6' } else if n == 7 { '7' }
    else if n == 8 { '8' } else if n == 9 { '9' } else if n == 10 { 'a' } else if n == 11 { 'b' }
    else if n == 12 { 'c' } else if n == 13 { 'd' } else if n == 14 { 'e' } else { 'f' }
}

pub open spec fn is_hex(c: char) -> bool {
    ('0' <= c && c <= '9') || ('a' <= c && c <= 'f')
}

pub open spec fn hex_val(c: char) -> int {
    if '0' <= c && c <= '9' {
        c as int - '0' as int
    } else {
        c as int - 'a' as int + 10
    }
}

/// How one character is written inside a JSON string.
pub open spec fn escape_char(c: char) -> Seq<char> {
    if c == '"' { seq!['\\', '"'] }
    else if c == '\\' { seq!['\\', '\\'] }
    else if c == '\n' { seq!['\\', 'n'] }
    else if c == '\r' { seq!['\\', 'r'] }
    else if c == '\t' { seq!['\\', 't'] }
    else if is_ctl(c) {
        seq!['\\', 'u', '0', '0', hex_digit(((c as u32) / 16) as int), hex_digit(((c as u32) % 16) as int)]
    } else {
        seq![c]
    }
}

/// The body of the JSON string encoding a character sequence.
pub open spec fn escaped(s: Seq<char>) -> Seq<char>
    decreases s.len(),
{
    if s.len() == 0 {
        Seq::empty()
    } else {
        escape_char(s[0]) + escaped(s.subrange(1, s.len() as int))
    }
}

pub proof fn lemma_escaped_snoc(s: Seq<char>, c: char)
    ensures
        escaped(s.push(c)) == escaped(s) + escape_char(c),
    decreases s.len(),
{
    let sc = s.push(c);
    if s.len() == 0 {
        assert(sc.subrange(1, sc.len() as int) =~= Seq::<char>::empty());
        assert(sc[0] == c);
        assert(escaped(sc) == escape_char(c) + escaped(sc.subrange(1, sc.len() as int)));
        assert(escaped(sc) =~= escaped(s) + escape_char(c));
    } else {
        assert(sc.subrange(1, sc.len() as int) =~= s.subrange(1, s.len() as int).push(c));
        lemma_escaped_snoc(s.subrange(1, s.len() as int), c);
        assert(escaped(sc) =~= escaped(s) + escape_char(c));
    }
}

fn hex_digit_exec(n: u8) -> (r: char)
    requires
        n < 16,
    ensures
        r == hex_digit(n as int),
{
    match n {
        0 => '0', 1 => '1', 2 => '2', 3 => '3',
        4 => '4', 5 => '5', 6 => '6', 7 => '7',
        8 => '8', 9 => '9', 10 => 'a', 11 => 'b',
        12 => 'c', 13 => 'd', 14 => 'e', _ => 'f',
    }
}

/// Appends the escaped form of one character to `out`.
fn push_escaped_char(out: &mut Vec<char>, c: char)
    ensures
        final(out)@ == old(out)@ + escape_char(c),
{
    if c == '"' {
        out.push('\\');
        out.push('"');
    } else if c == '\\' {
        out.push('\\');
        out.push('\\');
    } else if c == '\n' {
        out.push('\\');
        out.push('n');
    } else if c == '\r' {
        out.push('\\');
        out.push('r');
    } else if c == '\t' {
        out.push('\\');
        out.push('t');
    } else if (c as u32) < 32 {
        let v = c as u32;
        out.push('\\');
        out.push('u');
        out.push('0');
        out.push('0');
        out.push(hex_digit_exec((v / 16) as u8));
        out.push(hex_digit_exec((v % 16) as u8));
    } else {
        out.push(c);
    }
    proof {
        assert(final(out)@ =~= old(out)@ + escape_char(c));
    }
}

/// Appends the escaped JSON string body of `s` to `out`.
pub fn push_escaped(out: &mut Vec<char>, s: &str)
    ensures
        final(out)@ == old(out)@ + escaped(s@),
{
    let len = s.unicode_len();
    let mut i: usize = 0;
    while i < len
        invariant
            i <= len,
            len == s@.len(),
            out@ == old(out)@ + escaped(s@.subrange(0, i as int)),
        decreases len - i,
    {
        let c = s.get_char(i);
        push_escaped_char(out, c);
        proof {
            assert(s@.subrange(0, i as int).push(c) =~= s@.subrange(0, i + 1 as int));
            lemma_escaped_snoc(s@.subrange(0, i as int), c);
        }
        i += 1;
    }
    proof {
        assert(s@.subrange(0, len as int) =~= s@);
    }
}

/// The character a short escape sequence stands for.
pub open spec fn short_unescape(e: char) -> char {
    if e == '"' { '"' }
    else if e == '\\' { '\\' }
    else if e == 'n' { '\n' }
    else if e == 'r' { '\r' }
    else { '\t' }
}

pub open spec fn is_short_escape(e: char) -> bool {
    e == '"' || e == '\\' || e == 'n' || e == 'r' || e == 't'
}

/// The control character with code `v`.
pub open spec fn ctl_char(v: int) -> char {
    (v as u32) as char
}

/// Parses the body of a JSON string from position `i`, up to and including
/// the closing quote; yields the decoded characters and the position after
/// the quote.
pub open spec fn parse_jstring_body(s: Seq<char>, i: int) -> Option<(Seq<char>, int)>
    decreases s.len() - i,
        when 0 <= i <= s.len()
{
    if i >= s.len() {
        None
    } else if s[i] == '"' {
        Some((Seq::empty(), i + 1))
    } else if s[i] == '\\' {
        if i + 1 >= s.len() {
            None
        } else {
            let e = s[i + 1];
            if is_short_escape(e) {
                match parse_jstring_body(s, i + 2) {
                    Some(p) => Some((seq![short_unescape(e)] + p.0, p.1)),
                    None => None,
                }
            } else if e == 'u' {
                if i + 6 > s.len() {
                    None
                } else if s[i + 2] == '0' && s[i + 3] == '0' && is_hex(s[i + 4]) && is_hex(
                    s[i + 5],
                ) && hex_val(s[i + 4]) * 16 + hex_val(s[i + 5]) < 32 {
                    match parse_jstring_body(s, i + 6) {
                        Some(p) => Some(
                            (seq![ctl_char(hex_val(s[i + 4]) * 16 + hex_val(s[i + 5]))] + p.0, p.1),
                        ),
                        None => None,
                    }
                } else {
                    None
                }
            } else {
                None
            }
        }
    } else if is_ctl(s[i]) {
        None
    } else {
        match parse_jstring_body(s, i + 1) {
            Some(p) => Some((seq![s[i]] + p.0, p.1)),
            None => None,
        }
    }
}

/// Matches the literal `lit` at position `i`.
pub open spec fn expect(s: Seq<char>, i: int, lit: Seq<char>) -> Option<int> {
    if 0 <= i && i + lit.len() <= s.len() && s.subrange(i, i + lit.len()) == lit {
        Some(i + lit.len())
    } else {
        None
    }
}

pub proof fn lemma_hex_digit_val(n: int)
    requires
        0 <= n < 16,
    ensures
        is_hex(hex_digit(n)),
        hex_val(hex_digit(n)) == n,
{
}

/// Parsing the escaped body of `s` (followed by its closing quote) out of a
/// larger text recovers `s` exactly.
pub proof fn lemma_parse_escaped(t: Seq<char>, i: int, s: Seq<char>)
    requires
        0 <= i,
        i + escaped(s).len() < t.len(),
        t.subrange(i, i + escaped(s).len()) == escaped(s),
        t[i + escaped(s).len()] == '"',
    ensures
        parse_jstring_body(t, i) == Some((s, i + escaped(s).len() + 1)),
    decreases s.len(),
{
    if s.len() == 0 {
        assert(t[i] == '"');
        assert(s =~= Seq::<char>::empty());
    } else {
        let c = s[0];
        let rest = s.subrange(1, s.len() as int);
        let a = escape_char(c);
        let b = escaped(rest);
        assert(escaped(s) == a + b);
        let al = a.len();
        assert forall|k: int| 0 <= k < al implies t[i + k] == a[k] by {
            assert(t.subrange(i, i + escaped(s).len())[k] == t[i + k]);
            assert((a + b)[k] == a[k]);
        }
        assert(t.subrange(i + al, i + al + b.len()) =~= b) by {
            assert forall|k: int| 0 <= k < b.len() implies t.subrange(
                i + al,
                i + al + b.len(),
            )[k] == b[k] by {
                assert(t.subrange(i, i + escaped(s).len())[al + k] == t[i + al + k]);
                assert((a + b)[al + k] == b[k]);
            }
        }
        lemma_parse_escaped(t, i + al, rest);
        if c == '"' || c == '\\' || c == '\n' || c == '\r' || c == '\t' {
            assert(t[i] == '\\');
            assert(is_short_escape(t[i + 1]) && short_unescape(t[i + 1]) == c);
            assert(seq![c] + rest =~= s);
        } else if is_ctl(c) {
            let u = c as u32;
            assert(u < 32);
            lemma_hex_digit_val((u / 16) as int);
            lemma_hex_digit_val((u % 16) as int);
            assert(t[i + 0] == a[0]);
            assert(t[i] == '\\' && t[i + 1] == 'u' && t[i + 2] == '0' && t[i + 3] == '0');
            assert(hex_val(t[i + 4]) * 16 + hex_val(t[i + 5]) == ((u / 16) as int) * 16 + (
            u % 16) as int == u as int);
            vstd::utf8::char_u32_cast(c, u);
            assert(ctl_char(u as int) == c);
            assert(seq![c] + rest =~= s);
        } else {
            assert(t[i + 0] == a[0]);
            assert(t[i] == c);
            assert(seq![c] + rest =~= s);
        }
    }
}

/// The opening of a persisted record, through the quote of the name value.
/// JSON's insignificant whitespace.
pub open spec fn is_ws(c: char) -> bool {
    c == ' ' || c == '\t' || c == '\n' || c == '\r'
}

/// The first position at or after `i` holding no whitespace.
pub open spec fn skip_ws(s: Seq<char>, i: int) -> int
    decreases s.len() - i,
        when 0 <= i <= s.len()
{
    if i < s.len() && is_ws(s[i]) {
        skip_ws(s, i + 1)
    } else {
        i
    }
}

/// The quoted `name` key token.
pub open spec fn name_key() -> Seq<char> {
    "\"name\""@
}

/// The quoted `privateKeyPem` key token.
pub open spec fn pem_key() -> Seq<char> {
    "\"privateKeyPem\""@
}

/// The canonical text of a persisted record with the given name and
/// private-key encoding: the two fields in order, with no whitespace.
pub open spec fn record_json(name: Seq<char>, pem: Seq<char>) -> Seq<char> {
    seq!['{'] + name_key() + seq![':', '"'] + escaped(name) + seq!['"', ','] + pem_key() + seq![
        ':',
        '"',
    ] + escaped(pem) + seq!['"', '}']
}

/// The record a text parses as, if any: a JSON object holding exactly the
/// `name` and `privateKeyPem` fields in that order, both strings, with
/// insignificant whitespace allowed between tokens. Extra members or
/// reordered fields do not parse.
pub open spec fn parse_record(s: Seq<char>) -> Option<(Seq<char>, Seq<char>)> {
    let i0 = skip_ws(s, 0);
    if i0 < s.len() && s[i0] == '{' {
        let i1 = skip_ws(s, i0 + 1);
        match expect(s, i1, name_key()) {
            Some(j1) => {
                let i2 = skip_ws(s, j1);
                if i2 < s.len() && s[i2] == ':' {
                    let i3 = skip_ws(s, i2 + 1);
                    if i3 < s.len() && s[i3] == '"' {
                        match parse_jstring_body(s, i3 + 1) {
                            Some(np) => {
                                let i4 = skip_ws(s, np.1);
                                if i4 < s.len() && s[i4] == ',' {
                                    let i5 = skip_ws(s, i4 + 1);
                                    match expect(s, i5, pem_key()) {
                                        Some(j2) => {
                                            let i6 = skip_ws(s, j2);
                                            if i6 < s.len() && s[i6] == ':' {
                                                let i7 = skip_ws(s, i6 + 1);
                                                if i7 < s.len() && s[i7] == '"' {
                                                    match parse_jstring_body(s, i7 + 1) {
                                                        Some(pp) => {
                                                            let i8 = skip_ws(s, pp.1);
                                                            if i8 < s.len() && s[i8] == '}'
                                                                && skip_ws(s, i8 + 1) == s.len() {
                                                                Some((np.0, pp.0))
                                                            } else {
                                                                None
                                                            }
                                                        },
                                                        None => None,
                                                    }
                                                } else {
                                                    None
                                                }
                                            } else {
                                                None
                                            }
                                        },
                                        None => None,
                                    }
                                } else {
                                    None
                                }
                            },
                            None => None,
                        }
                    } else {
                        None
                    }
                } else {
                    None
                }
            },
            None => None,
        }
    } else {
        None
    }
}

/// A rendered record always parses back to the name and key it was rendered
/// from.
pub proof fn lemma_record_round_trip(name: Seq<char>, pem: Seq<char>)
    ensures
        parse_record(record_json(name, pem)) == Some((name, pem)),
{
    reveal_strlit("\"name\"");
    reveal_strlit("\"privateKeyPem\"");
    let t = record_json(name, pem);
    let nk = name_key();
    let pk = pem_key();
    let en = escaped(name);
    let ep = escaped(pem);
    assert(t.len() == 1 + nk.len() + 2 + en.len() + 2 + pk.len() + 2 + ep.len() + 2);
    assert(t[0] == '{');
    assert(skip_ws(t, 0) == 0);
    let i1 = 1int;
    assert(t[i1] == nk[0]);
    assert(skip_ws(t, i1) == i1);
    assert(t.subrange(i1, i1 + nk.len()) =~= nk);
    assert(expect(t, i1, nk) == Some(i1 + nk.len()));
    let j1 = i1 + nk.len();
    assert(t[j1] == ':');
    assert(skip_ws(t, j1) == j1);
    assert(t[j1 + 1] == '"');
    assert(skip_ws(t, j1 + 1) == j1 + 1);
    let i3 = j1 + 2;
    assert(t.subrange(i3, i3 + en.len()) =~= en);
    assert(t[i3 + en.len()] == '"');
    lemma_parse_escaped(t, i3, name);
    let n1 = i3 + en.len() + 1;
    assert(t[n1] == ',');
    assert(skip_ws(t, n1) == n1);
    let i5 = n1 + 1;
    assert(t[i5] == pk[0]);
    assert(skip_ws(t, i5) == i5);
    assert(t.subrange(i5, i5 + pk.len()) =~= pk);
    assert(expect(t, i5, pk) == Some(i5 + pk.len()));
    let j2 = i5 + pk.len();
    assert(t[j2] == ':');
    assert(skip_ws(t, j2) == j2);
    assert(t[j2 + 1] == '"');
    assert(skip_ws(t, j2 + 1) == j2 + 1);
    let i7 = j2 + 2;
    assert(t.subrange(i7, i7 + ep.len()) =~= ep);
    assert(t[i7 + ep.len()] == '"');
    lemma_parse_escaped(t, i7, pem);
    let p1 = i7 + ep.len() + 1;
    assert(t[p1] == '}');
    assert(skip_ws(t, p1) == p1);
    assert(p1 + 1 == t.len());
    assert(skip_ws(t, p1 + 1) == t.len());
}

fn is_hex_exec(c: char) -> (r: bool)
    ensures
        r == is_hex(c),
{
    ('0' <= c && c <= '9') || ('a' <= c && c <= 'f')
}

fn hex_val_exec(c: char) -> (r: u8)
    requires
        is_hex(c),
    ensures
        r as int == hex_val(c),
        r < 16,
{
    let v = c as u32;
    if '0' <= c && c <= '9' {
        (v - ('0' as u32)) as u8
    } else {
        (v - ('a' as u32) + 10) as u8
    }
}

/// The executable mirror of [`parse_jstring_body`].
fn parse_jstring_exec(s: &Vec<char>, i: usize) -> (r: Option<(Vec<char>, usize)>)
    requires
        i <= s@.len(),
    ensures
        match parse_jstring_body(s@, i as int) {
            Some(p) => r matches Some(q) && q.0@ == p.0 && q.1 as int == p.1 && q.1 <= s@.len(),
            None => r is None,
        },
    decreases s@.len() - i,
{
    if i >= s.len() {
        return None;
    }
    let c = s[i];
    if c == '"' {
        return Some((Vec::new(), i + 1));
    }
    if c == '\\' {
        if i + 1 >= s.len() {
            return None;
        }
        let e = s[i + 1];
        if e == '"' || e == '\\' || e == 'n' || e == 'r' || e == 't' {
            let c0 = if e == '"' { '"' }
            else if e == '\\' { '\\' }
            else if e == 'n' { '\n' }
            else if e == 'r' { '\r' }
            else { '\t' };
            match parse_jstring_exec(s, i + 2) {
                Some((mut v, j)) => {
                    v.insert(0, c0);
                    proof {
                        let p = parse_jstring_body(s@, i + 2).unwrap();
                        assert(v@ =~= seq![short_unescape(e)] + p.0);
                    }
                    Some((v, j))
                },
                None => None,
            }
        } else if e == 'u' {
            if s.len() - (i + 1) < 5 {
                return None;
            }
            let d2 = s[i + 2];
            let d3 = s[i + 3];
            let h1 = s[i + 4];
            let h2 = s[i + 5];
            if d2 == '0' && d3 == '0' && is_hex_exec(h1) && is_hex_exec(h2) {
                let value: u8 = hex_val_exec(h1) * 16 + hex_val_exec(h2);
                if value < 32 {
                    let c0 = value as char;
                    proof {
                        assert(c0 == ctl_char(hex_val(h1) * 16 + hex_val(h2)));
                    }
                    match parse_jstring_exec(s, i + 6) {
                        Some((mut v, j)) => {
                            v.insert(0, c0);
                            proof {
                                let p = parse_jstring_body(s@, i + 6).unwrap();
                                assert(v@ =~= seq![c0] + p.0);
                            }
                            Some((v, j))
                        },
                        None => None,
                    }
                } else {
                    None
                }
            } else {
                None
            }
        } else {
            None
        }
    } else if (c as u32) < 32 {
        None
    } else {
        match parse_jstring_exec(s, i + 1) {
            Some((mut v, j)) => {
                v.insert(0, c);
                proof {
                    let p = parse_jstring_body(s@, i + 1).unwrap();
                    assert(v@ =~= seq![c] + p.0);
                }
                Some((v, j))
            },
            None => None,
        }
    }
}

/// The executable mirror of [`expect`].
fn expect_exec(s: &Vec<char>, i: usize, lit: &str) -> (r: Option<usize>)
    ensures
        match expect(s@, i as int, lit@) {
            Some(j) => r matches Some(k) && k as int == j && k <= s@.len(),
            None => r is None,
        },
{
    let n = lit.unicode_len();
    let slen = s.len();
    if i > slen || slen - i < n {
        return None;
    }
    let mut j: usize = 0;
    while j < n
        invariant
            j <= n,
            i + n <= slen,
            slen == s@.len(),
            n == lit@.len(),
            forall|k: int| 0 <= k < j ==> s@[i + k] == lit@[k],
        decreases n - j,
    {
        if s[i + j] != lit.get_char(j) {
            proof {
                assert(s@.subrange(i as int, i as int + lit@.len())[j as int] != lit@[j as int]);
            }
            return None;
        }
        j += 1;
    }
    proof {
        assert(s@.subrange(i as int, i as int + lit@.len()) =~= lit@);
    }
    Some(i + n)
}

/// The executable mirror of [`skip_ws`].
fn skip_ws_exec(s: &Vec<char>, i: usize) -> (r: usize)
    requires
        i <= s@.len(),
    ensures
        r as int == skip_ws(s@, i as int),
        i <= r <= s@.len(),
    decreases s@.len() - i,
{
    if i < s.len() {
        let c = s[i];
        if c == ' ' || c == '\t' || c == '\n' || c == '\r' {
            return skip_ws_exec(s, i + 1);
        }
    }
    i
}

/// Parses a persisted record's characters into its name and private-key text.
pub fn parse_record_chars(s: &Vec<char>) -> (r: Option<(String, String)>)
    ensures
        match parse_record(s@) {
            Some(p) => r matches Some(q) && q.0@ == p.0 && q.1@ == p.1,
            None => r is None,
        },
{
    let i0 = skip_ws_exec(s, 0);
    if !(i0 < s.len() && s[i0] == '{') {
        return None;
    }
    let j1 = match expect_exec(s, skip_ws_exec(s, i0 + 1), "\"name\"") {
        Some(j) => j,
        None => { return None; },
    };
    let i2 = skip_ws_exec(s, j1);
    if !(i2 < s.len() && s[i2] == ':') {
        return None;
    }
    let i3 = skip_ws_exec(s, i2 + 1);
    if !(i3 < s.len() && s[i3] == '"') {
        return None;
    }
    let (nv, n1) = match parse_jstring_exec(s, i3 + 1) {
        Some(x) => x,
        None => { return None; },
    };
    let i4 = skip_ws_exec(s, n1);
    if !(i4 < s.len() && s[i4] == ',') {
        return None;
    }
    let j2 = match expect_exec(s, skip_ws_exec(s, i4 + 1), "\"privateKeyPem\"") {
        Some(j) => j,
        None => { return None; },
    };
    let i6 = skip_ws_exec(s, j2);
    if !(i6 < s.len() && s[i6] == ':') {
        return None;
    }
    let i7 = skip_ws_exec(s, i6 + 1);
    if !(i7 < s.len() && s[i7] == '"') {
        return None;
    }
    let (pv, p1) = match parse_jstring_exec(s, i7 + 1) {
        Some(x) => x,
        None => { return None; },
    };
    let i8 = skip_ws_exec(s, p1);
    if i8 < s.len() && s[i8] == '}' && skip_ws_exec(s, i8 + 1) == s.len() {
        Some((crate::text::chars_to_string(&nv), crate::text::chars_to_string(&pv)))
    } else {
        None
    }
}

/// Renders the persisted record for a name and private-key text.
pub fn render_record(name: &str, pem: &str) -> (r: String)
    ensures
        r@ == record_json(name@, pem@),
{
    let mut out: Vec<char> = Vec::new();
    out.push('{');
    push_str_chars(&mut out, "\"name\"");
    out.push(':');
    out.push('"');
    push_escaped(&mut out, name);
    out.push('"');
    out.push(',');
    push_str_chars(&mut out, "\"privateKeyPem\"");
    out.push(':');
    out.push('"');
    push_escaped(&mut out, pem);
    out.push('"');
    out.push('}');
    proof {
        assert(out@ =~= record_json(name@, pem@));
    }
    crate::text::chars_to_string(&out)
}

} // verus!
