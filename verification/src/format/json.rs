//! Character-level JSON encoding: string escaping, booleans, and the
//! recursive rich-text chat component.

use vstd::prelude::*;
use vstd::string::StrSliceExecFns;
use crate::adapters::CCheckChat;
use crate::text::{digit_char, push_str_chars};

verus! {

/// The lowercase hex digit for `d` (0 to 15).
pub open spec fn hex_digit(d: nat) -> char {
    if d < 10 {
        digit_char(d)
    } else {
        (((d - 10) + 97) as u8) as char
    }
}

/// How one character is written inside a JSON string literal: quotes and
/// backslashes get a backslash escape, control characters a hex escape, and
/// every other character stands for itself.
pub open spec fn esc_char(c: char) -> Seq<char> {
    if c == '"' {
        seq!['\\', '"']
    } else if c == '\\' {
        seq!['\\', '\\']
    } else if (c as nat) < 32 {
        seq!['\\', 'u', '0', '0', hex_digit((c as nat) / 16), hex_digit((c as nat) % 16)]
    } else {
        seq![c]
    }
}

/// The body of a JSON string literal holding the characters of `s`.
pub open spec fn spec_escape(s: Seq<char>) -> Seq<char>
    decreases s.len(),
{
    if s.len() == 0 {
        Seq::empty()
    } else {
        esc_char(s[0]) + spec_escape(s.drop_first())
    }
}

/// A full JSON string literal holding the characters of `s`.
pub open spec fn spec_json_string(s: Seq<char>) -> Seq<char> {
    seq!['"'] + spec_escape(s) + seq!['"']
}

/// A JSON boolean.
pub open spec fn spec_json_bool(b: bool) -> Seq<char> {
    if b {
        "true"@
    } else {
        "false"@
    }
}

/// Escaping distributes over extending the input by one character.
pub proof fn lemma_escape_snoc(s: Seq<char>, c: char)
    ensures
        spec_escape(s.push(c)) == spec_escape(s) + esc_char(c),
    decreases s.len(),
{
    if s.len() == 0 {
        assert(s.push(c)[0] == c);
        assert(s.push(c).drop_first() =~= Seq::<char>::empty());
        assert(spec_escape(Seq::<char>::empty()) == Seq::<char>::empty());
        assert(spec_escape(s.push(c)) == esc_char(c) + Seq::<char>::empty());
        assert(spec_escape(s.push(c)) =~= spec_escape(s) + esc_char(c));
    } else {
        assert(s.push(c)[0] == s[0]);
        assert(s.push(c).drop_first() =~= s.drop_first().push(c));
        lemma_escape_snoc(s.drop_first(), c);
        assert(spec_escape(s.push(c)) == esc_char(s[0]) + (spec_escape(s.drop_first())
            + esc_char(c)));
        assert(spec_escape(s) == esc_char(s[0]) + spec_escape(s.drop_first()));
        assert(spec_escape(s.push(c)) =~= spec_escape(s) + esc_char(c));
    }
}

/// Appends the lowercase hex digit for `d` to `out`.
fn push_hex_digit(d: u8, out: &mut Vec<char>)
    requires
        d < 16,
    ensures
        final(out)@ == old(out)@ + seq![hex_digit(d as nat)],
{
    if d < 10 {
        out.push((d + 48) as char);
    } else {
        out.push(((d - 10) + 97) as char);
    }
}

/// Appends the escaped form of the characters of `s` to `out`.
pub fn push_escaped(s: &str, out: &mut Vec<char>)
    ensures
        final(out)@ == old(out)@ + spec_escape(s@),
{
    let n: usize = s.unicode_len();
    let mut i: usize = 0;
    while i < n
        invariant
            n == s@.len(),
            i <= n,
            out@ == old(out)@ + spec_escape(s@.take(i as int)),
        decreases n - i,
    {
        let c: char = s.get_char(i);
        if c == '"' {
            out.push('\\');
            out.push('"');
        } else if c == '\\' {
            out.push('\\');
            out.push('\\');
        } else {
            let u: u32 = c as u32;
            if u < 32 {
                out.push('\\');
                out.push('u');
                out.push('0');
                out.push('0');
                push_hex_digit((u / 16) as u8, out);
                push_hex_digit((u % 16) as u8, out);
            } else {
                out.push(c);
            }
        }
        i = i + 1;
        proof {
            lemma_escape_snoc(s@.take(i - 1), s@[i - 1]);
            assert(s@.take(i as int) =~= s@.take(i - 1).push(s@[i - 1]));
            assert(out@ =~= old(out)@ + spec_escape(s@.take(i as int)));
        }
    }
    proof {
        assert(s@.take(n as int) =~= s@);
    }
}

/// Appends a full JSON string literal holding the characters of `s` to
/// `out`.
pub fn push_json_string(s: &str, out: &mut Vec<char>)
    ensures
        final(out)@ == old(out)@ + spec_json_string(s@),
{
    out.push('"');
    push_escaped(s, out);
    out.push('"');
    proof {
        assert(out@ =~= old(out)@ + spec_json_string(s@));
    }
}

/// Appends a JSON boolean to `out`.
pub fn push_json_bool(b: bool, out: &mut Vec<char>)
    ensures
        final(out)@ == old(out)@ + spec_json_bool(b),
{
    if b {
        push_str_chars("true", out);
    } else {
        push_str_chars("false", out);
    }
}

/// The first scalar fields of one chat component: text and the two leading
/// style flags.
pub open spec fn spec_chat_fields_a(c: CCheckChat) -> Seq<char> {
    "{\"text\":"@ + spec_json_string(c.text@) + ",\"bold\":"@ + spec_json_bool(c.bold)
        + ",\"italic\":"@ + spec_json_bool(c.italic)
}

/// The remaining scalar fields of one chat component: the other style flags
/// and the color.
pub open spec fn spec_chat_fields_b(c: CCheckChat) -> Seq<char> {
    ",\"underlined\":"@ + spec_json_bool(c.underlined) + ",\"strikethrough\":"@
        + spec_json_bool(c.strikethrough) + ",\"obfuscated\":"@ + spec_json_bool(c.obfuscated)
        + ",\"color\":"@ + (match c.color {
        Option::Some(col) => spec_json_string(col@),
        Option::None => "null"@,
    })
}

/// The scalar fields of one chat component, in declaration order.
pub open spec fn spec_chat_fields(c: CCheckChat) -> Seq<char> {
    spec_chat_fields_a(c) + spec_chat_fields_b(c)
}

/// The JSON object for one chat component, fields in declaration order,
/// child components as a JSON array.
pub open spec fn spec_json_chat(c: CCheckChat) -> Seq<char>
    decreases c, 0int, 0int,
{
    spec_chat_fields(c) + ",\"extra\":["@ + spec_json_chats(c.extra, 0) + "]}"@
}

/// The comma-separated encodings of the components of `l` from `from` on.
pub open spec fn spec_json_chats(l: Vec<CCheckChat>, from: int) -> Seq<char>
    decreases l, l@.len() - from, 1int,
{
    if from < 0 || from >= l@.len() {
        Seq::empty()
    } else {
        spec_json_chat(l[from]) + spec_json_chats_tail(l, from + 1)
    }
}

/// The encodings of the components of `l` from `from` on, each preceded by
/// the comma that separates it from its predecessor.
pub open spec fn spec_json_chats_tail(l: Vec<CCheckChat>, from: int) -> Seq<char>
    decreases l, l@.len() - from, 0int,
{
    if from < 0 || from >= l@.len() {
        Seq::empty()
    } else {
        seq![','] + spec_json_chat(l[from]) + spec_json_chats_tail(l, from + 1)
    }
}

/// Appends the leading scalar fields of `c` to `out`.
#[verifier::rlimit(30)]
fn push_chat_fields_a(c: &CCheckChat, out: &mut Vec<char>)
    ensures
        final(out)@ == old(out)@ + spec_chat_fields_a(*c),
{
    push_str_chars("{\"text\":", out);
    push_json_string(c.text.as_str(), out);
    push_str_chars(",\"bold\":", out);
    push_json_bool(c.bold, out);
    push_str_chars(",\"italic\":", out);
    push_json_bool(c.italic, out);
    proof {
        assert(out@ =~= old(out)@ + spec_chat_fields_a(*c));
    }
}

/// Appends the remaining scalar fields of `c` to `out`.
#[verifier::rlimit(30)]
fn push_chat_fields_b(c: &CCheckChat, out: &mut Vec<char>)
    ensures
        final(out)@ == old(out)@ + spec_chat_fields_b(*c),
{
    push_str_chars(",\"underlined\":", out);
    push_json_bool(c.underlined, out);
    push_str_chars(",\"strikethrough\":", out);
    push_json_bool(c.strikethrough, out);
    push_str_chars(",\"obfuscated\":", out);
    push_json_bool(c.obfuscated, out);
    push_str_chars(",\"color\":", out);
    match &c.color {
        Some(col) => push_json_string(col.as_str(), out),
        None => push_str_chars("null", out),
    }
    proof {
        assert(out@ =~= old(out)@ + spec_chat_fields_b(*c));
    }
}

/// Appends the scalar fields of `c` to `out`.
fn push_chat_fields(c: &CCheckChat, out: &mut Vec<char>)
    ensures
        final(out)@ == old(out)@ + spec_chat_fields(*c),
{
    push_chat_fields_a(c, out);
    push_chat_fields_b(c, out);
    proof {
        assert(out@ =~= old(out)@ + spec_chat_fields(*c));
    }
}

/// Appends the JSON object for `c` to `out`.
pub fn push_json_chat(c: &CCheckChat, out: &mut Vec<char>)
    ensures
        final(out)@ == old(out)@ + spec_json_chat(*c),
    decreases *c,
{
    push_chat_fields(c, out);
    push_str_chars(",\"extra\":[", out);
    let ghost mid = out@;
    let mut j: usize = 0;
    while j < c.extra.len()
        invariant
            j <= c.extra@.len(),
            j == 0 ==> out@ == mid,
            j > 0 ==> out@ + spec_json_chats_tail(c.extra, j as int) == mid + spec_json_chats(
                c.extra,
                0,
            ),
        decreases c.extra@.len() - j,
    {
        if j > 0 {
            out.push(',');
        }
        push_json_chat(&c.extra[j], out);
        proof {
            if j == 0 {
                assert(out@ + spec_json_chats_tail(c.extra, 1) =~= mid + spec_json_chats(
                    c.extra,
                    0,
                ));
            } else {
                assert(out@ + spec_json_chats_tail(c.extra, j + 1) =~= mid + spec_json_chats(
                    c.extra,
                    0,
                ));
            }
        }
        j = j + 1;
    }
    proof {
        if c.extra@.len() > 0 {
            assert(spec_json_chats_tail(c.extra, c.extra@.len() as int) =~= Seq::<char>::empty());
            assert(out@ =~= mid + spec_json_chats(c.extra, 0));
        }
    }
    push_str_chars("]}", out);
    proof {
        assert(out@ =~= old(out)@ + spec_json_chat(*c));
    }
}


/// What the escaped form of one character opens with: never an unescaped
/// quote; a backslash exactly for the escaped class.
proof fn lemma_esc_char_head(c: char)
    ensures
        esc_char(c).len() >= 1,
        esc_char(c)[0] != '"',
        (c != '"' && c != '\\' && (c as nat) >= 32) ==> esc_char(c) == seq![c],
        (c == '"' || c == '\\' || (c as nat) < 32) ==> esc_char(c)[0] == '\\',
{
}

/// A control character is determined by its two hex digits.
proof fn lemma_ctrl_char_from_hex(c: char, d: char)
    requires
        (c as nat) < 32,
        (d as nat) < 32,
        hex_digit((c as nat) / 16) == hex_digit((d as nat) / 16),
        hex_digit((c as nat) % 16) == hex_digit((d as nat) % 16),
    ensures
        c == d,
{
    lemma_hex_digit_code((c as nat) / 16);
    lemma_hex_digit_code((d as nat) / 16);
    lemma_hex_digit_code((c as nat) % 16);
    lemma_hex_digit_code((d as nat) % 16);
    assert((c as nat) == ((c as nat) / 16) * 16 + (c as nat) % 16) by (nonlinear_arith);
    assert((d as nat) == ((d as nat) / 16) * 16 + (d as nat) % 16) by (nonlinear_arith);
    assert(c as nat == d as nat);
}

/// The lowercase hex digit's code point.
proof fn lemma_hex_digit_code(d: nat)
    requires
        d < 16,
    ensures
        hex_digit(d) as nat == if d < 10 {
            48 + d
        } else {
            87 + d
        },
{
}

/// Two escaped string bodies closed by an unescaped quote are read back
/// unambiguously: escaping never produces a bare quote, and each escape
/// sequence determines the character it stands for.
pub proof fn lemma_escape_quote_delimited(a: Seq<char>, ra: Seq<char>, b: Seq<char>, rb: Seq<char>)
    requires
        spec_escape(a) + seq!['"'] + ra == spec_escape(b) + seq!['"'] + rb,
    ensures
        a == b,
        ra == rb,
    decreases a.len(),
{
    let la = spec_escape(a) + seq!['"'] + ra;
    let lb = spec_escape(b) + seq!['"'] + rb;
    if a.len() == 0 && b.len() == 0 {
        assert(ra =~= la.skip(1));
        assert(rb =~= lb.skip(1));
        assert(a =~= b);
    } else if a.len() == 0 {
        lemma_esc_char_head(b[0]);
        assert(spec_escape(b) == esc_char(b[0]) + spec_escape(b.drop_first()));
        assert(la[0] == '"');
        assert(lb[0] == esc_char(b[0])[0]);
        assert(false);
    } else if b.len() == 0 {
        lemma_esc_char_head(a[0]);
        assert(spec_escape(a) == esc_char(a[0]) + spec_escape(a.drop_first()));
        assert(lb[0] == '"');
        assert(la[0] == esc_char(a[0])[0]);
        assert(false);
    } else {
        let c = a[0];
        let d = b[0];
        lemma_esc_char_head(c);
        lemma_esc_char_head(d);
        assert(spec_escape(a) == esc_char(c) + spec_escape(a.drop_first()));
        assert(spec_escape(b) == esc_char(d) + spec_escape(b.drop_first()));
        let ta = spec_escape(a.drop_first()) + seq!['"'] + ra;
        let tb = spec_escape(b.drop_first()) + seq!['"'] + rb;
        assert(la =~= esc_char(c) + ta);
        assert(lb =~= esc_char(d) + tb);
        assert((esc_char(c) + ta)[0] == esc_char(c)[0]);
        assert((esc_char(d) + tb)[0] == esc_char(d)[0]);
        let litc = c != '"' && c != '\\' && (c as nat) >= 32;
        let litd = d != '"' && d != '\\' && (d as nat) >= 32;
        if litc && litd {
            assert(c == d);
        } else if litc && !litd {
            assert(esc_char(c)[0] == c);
            assert(esc_char(d)[0] == '\\');
            assert(false);
        } else if !litc && litd {
            assert(esc_char(d)[0] == d);
            assert(esc_char(c)[0] == '\\');
            assert(false);
        } else {
            assert(esc_char(c).len() >= 2);
            assert(esc_char(d).len() >= 2);
            assert((esc_char(c) + ta)[1] == esc_char(c)[1]);
            assert((esc_char(d) + tb)[1] == esc_char(d)[1]);
            if c == '"' {
                assert(esc_char(c)[1] == '"');
                assert(d == '"');
            } else if c == '\\' {
                assert(esc_char(c)[1] == '\\');
                assert(d == '\\');
            } else {
                assert(esc_char(c)[1] == 'u');
                assert(d != '"' && d != '\\');
                assert((esc_char(c) + ta)[4] == hex_digit((c as nat) / 16));
                assert((esc_char(d) + tb)[4] == hex_digit((d as nat) / 16));
                assert((esc_char(c) + ta)[5] == hex_digit((c as nat) % 16));
                assert((esc_char(d) + tb)[5] == hex_digit((d as nat) % 16));
                lemma_ctrl_char_from_hex(c, d);
            }
        }
        assert(c == d);
        assert(ta =~= la.skip(esc_char(c).len() as int));
        assert(tb =~= lb.skip(esc_char(d).len() as int));
        lemma_escape_quote_delimited(a.drop_first(), ra, b.drop_first(), rb);
        assert(a.len() == b.len());
        assert forall|i: int| 0 <= i < a.len() implies a[i] == b[i] by {
            if i > 0 {
                assert(a[i] == a.drop_first()[i - 1]);
                assert(b[i] == b.drop_first()[i - 1]);
            }
        }
        assert(a =~= b);
    }
}

/// Two full JSON string literals followed by anything are read back
/// unambiguously.
pub proof fn lemma_json_string_unique(a: Seq<char>, ra: Seq<char>, b: Seq<char>, rb: Seq<char>)
    requires
        spec_json_string(a) + ra == spec_json_string(b) + rb,
    ensures
        a == b,
        ra == rb,
{
    let la = spec_json_string(a) + ra;
    let lb = spec_json_string(b) + rb;
    assert(spec_escape(a) + seq!['"'] + ra =~= la.skip(1));
    assert(spec_escape(b) + seq!['"'] + rb =~= lb.skip(1));
    lemma_escape_quote_delimited(a, ra, b, rb);
}

/// Two JSON booleans followed by anything are read back unambiguously: the
/// two spellings differ in their first character.
pub proof fn lemma_json_bool_unique(b1: bool, r1: Seq<char>, b2: bool, r2: Seq<char>)
    requires
        spec_json_bool(b1) + r1 == spec_json_bool(b2) + r2,
    ensures
        b1 == b2,
        r1 == r2,
{
    reveal_strlit("true");
    reveal_strlit("false");
    if b1 != b2 {
        if b1 {
            assert((spec_json_bool(b1) + r1)[0] == 't');
            assert((spec_json_bool(b2) + r2)[0] == 'f');
        } else {
            assert((spec_json_bool(b1) + r1)[0] == 'f');
            assert((spec_json_bool(b2) + r2)[0] == 't');
        }
        assert(false);
    }
    crate::text::lemma_cancel_prefix(spec_json_bool(b1), r1, r2);
}


/// Two chat components carry the same data: same text, style flags and
/// color, and children that agree pairwise.
pub open spec fn chat_data_eq(a: CCheckChat, b: CCheckChat) -> bool
    decreases a,
{
    &&& a.text@ == b.text@
    &&& a.bold == b.bold
    &&& a.italic == b.italic
    &&& a.underlined == b.underlined
    &&& a.strikethrough == b.strikethrough
    &&& a.obfuscated == b.obfuscated
    &&& match (a.color, b.color) {
        (Option::Some(x), Option::Some(y)) => x@ == y@,
        (Option::None, Option::None) => true,
        _ => false,
    }
    &&& a.extra@.len() == b.extra@.len()
    &&& forall|k: int| 0 <= k < a.extra@.len() ==> chat_data_eq(#[trigger] a.extra[k], b.extra[k])
}

/// The leading chat fields, regrouped around what follows them.
#[verifier::rlimit(100)]
proof fn lemma_chat_fields_a_shape(c: CCheckChat, x: Seq<char>)
    ensures
        spec_chat_fields_a(c) + x == "{\"text\":"@ + (spec_json_string(c.text@) + (",\"bold\":"@
            + (spec_json_bool(c.bold) + (",\"italic\":"@ + (spec_json_bool(c.italic) + x))))),
{
    assert(spec_chat_fields_a(c) + x =~= "{\"text\":"@ + (spec_json_string(c.text@) + (
    ",\"bold\":"@ + (spec_json_bool(c.bold) + (",\"italic\":"@ + (spec_json_bool(c.italic)
        + x))))));
}

/// The leading scalar fields of a chat component are read back
/// unambiguously.
proof fn lemma_chat_fields_a_unique(c1: CCheckChat, x1: Seq<char>, c2: CCheckChat, x2: Seq<char>)
    requires
        spec_chat_fields_a(c1) + x1 == spec_chat_fields_a(c2) + x2,
    ensures
        c1.text@ == c2.text@,
        c1.bold == c2.bold,
        c1.italic == c2.italic,
        x1 == x2,
{
    let y1 = ",\"bold\":"@ + (spec_json_bool(c1.bold) + (",\"italic\":"@ + (spec_json_bool(
        c1.italic,
    ) + x1)));
    let y2 = ",\"bold\":"@ + (spec_json_bool(c2.bold) + (",\"italic\":"@ + (spec_json_bool(
        c2.italic,
    ) + x2)));
    lemma_chat_fields_a_shape(c1, x1);
    lemma_chat_fields_a_shape(c2, x2);
    crate::text::lemma_cancel_prefix(
        "{\"text\":"@,
        spec_json_string(c1.text@) + y1,
        spec_json_string(c2.text@) + y2,
    );
    lemma_json_string_unique(c1.text@, y1, c2.text@, y2);
    crate::text::lemma_cancel_prefix(
        ",\"bold\":"@,
        spec_json_bool(c1.bold) + (",\"italic\":"@ + (spec_json_bool(c1.italic) + x1)),
        spec_json_bool(c2.bold) + (",\"italic\":"@ + (spec_json_bool(c2.italic) + x2)),
    );
    lemma_json_bool_unique(
        c1.bold,
        ",\"italic\":"@ + (spec_json_bool(c1.italic) + x1),
        c2.bold,
        ",\"italic\":"@ + (spec_json_bool(c2.italic) + x2),
    );
    crate::text::lemma_cancel_prefix(
        ",\"italic\":"@,
        spec_json_bool(c1.italic) + x1,
        spec_json_bool(c2.italic) + x2,
    );
    lemma_json_bool_unique(c1.italic, x1, c2.italic, x2);
}

/// The trailing chat fields, regrouped around what follows them.
#[verifier::rlimit(100)]
proof fn lemma_chat_fields_b_shape(c: CCheckChat, x: Seq<char>)
    ensures
        spec_chat_fields_b(c) + x == ",\"underlined\":"@ + (spec_json_bool(c.underlined) + (
        ",\"strikethrough\":"@ + (spec_json_bool(c.strikethrough) + (",\"obfuscated\":"@ + (
        spec_json_bool(c.obfuscated) + (",\"color\":"@ + ((match c.color {
            Option::Some(col) => spec_json_string(col@),
            Option::None => "null"@,
        }) + x))))))),
{
    assert(spec_chat_fields_b(c) + x =~= ",\"underlined\":"@ + (spec_json_bool(c.underlined) + (
    ",\"strikethrough\":"@ + (spec_json_bool(c.strikethrough) + (",\"obfuscated\":"@ + (
    spec_json_bool(c.obfuscated) + (",\"color\":"@ + ((match c.color {
        Option::Some(col) => spec_json_string(col@),
        Option::None => "null"@,
    }) + x))))))));
}

/// The remaining scalar fields of a chat component are read back
/// unambiguously: a color is a string literal, its absence the spelling
/// `null`, and the two cannot be confused.
proof fn lemma_chat_fields_b_unique(c1: CCheckChat, x1: Seq<char>, c2: CCheckChat, x2: Seq<char>)
    requires
        spec_chat_fields_b(c1) + x1 == spec_chat_fields_b(c2) + x2,
    ensures
        c1.underlined == c2.underlined,
        c1.strikethrough == c2.strikethrough,
        c1.obfuscated == c2.obfuscated,
        match (c1.color, c2.color) {
            (Option::Some(x), Option::Some(y)) => x@ == y@,
            (Option::None, Option::None) => true,
            _ => false,
        },
        x1 == x2,
{
    let col1 = match c1.color {
        Option::Some(col) => spec_json_string(col@),
        Option::None => "null"@,
    };
    let col2 = match c2.color {
        Option::Some(col) => spec_json_string(col@),
        Option::None => "null"@,
    };
    let y1 = ",\"strikethrough\":"@ + (spec_json_bool(c1.strikethrough) + (",\"obfuscated\":"@
        + (spec_json_bool(c1.obfuscated) + (",\"color\":"@ + (col1 + x1)))));
    let y2 = ",\"strikethrough\":"@ + (spec_json_bool(c2.strikethrough) + (",\"obfuscated\":"@
        + (spec_json_bool(c2.obfuscated) + (",\"color\":"@ + (col2 + x2)))));
    lemma_chat_fields_b_shape(c1, x1);
    lemma_chat_fields_b_shape(c2, x2);
    crate::text::lemma_cancel_prefix(
        ",\"underlined\":"@,
        spec_json_bool(c1.underlined) + y1,
        spec_json_bool(c2.underlined) + y2,
    );
    lemma_json_bool_unique(c1.underlined, y1, c2.underlined, y2);
    crate::text::lemma_cancel_prefix(
        ",\"strikethrough\":"@,
        spec_json_bool(c1.strikethrough) + (",\"obfuscated\":"@ + (spec_json_bool(c1.obfuscated)
            + (",\"color\":"@ + (col1 + x1)))),
        spec_json_bool(c2.strikethrough) + (",\"obfuscated\":"@ + (spec_json_bool(c2.obfuscated)
            + (",\"color\":"@ + (col2 + x2)))),
    );
    lemma_json_bool_unique(
        c1.strikethrough,
        ",\"obfuscated\":"@ + (spec_json_bool(c1.obfuscated) + (",\"color\":"@ + (col1 + x1))),
        c2.strikethrough,
        ",\"obfuscated\":"@ + (spec_json_bool(c2.obfuscated) + (",\"color\":"@ + (col2 + x2))),
    );
    crate::text::lemma_cancel_prefix(
        ",\"obfuscated\":"@,
        spec_json_bool(c1.obfuscated) + (",\"color\":"@ + (col1 + x1)),
        spec_json_bool(c2.obfuscated) + (",\"color\":"@ + (col2 + x2)),
    );
    lemma_json_bool_unique(
        c1.obfuscated,
        ",\"color\":"@ + (col1 + x1),
        c2.obfuscated,
        ",\"color\":"@ + (col2 + x2),
    );
    crate::text::lemma_cancel_prefix(",\"color\":"@, col1 + x1, col2 + x2);
    reveal_strlit("null");
    match (c1.color, c2.color) {
        (Option::Some(a), Option::Some(b)) => {
            lemma_json_string_unique(a@, x1, b@, x2);
        },
        (Option::None, Option::None) => {
            crate::text::lemma_cancel_prefix("null"@, x1, x2);
        },
        (Option::Some(a), Option::None) => {
            assert((spec_json_string(a@) + x1)[0] == '"');
            assert(("null"@ + x2)[0] == 'n');
            assert(false);
        },
        (Option::None, Option::Some(b)) => {
            assert((spec_json_string(b@) + x2)[0] == '"');
            assert(("null"@ + x1)[0] == 'n');
            assert(false);
        },
    }
}

/// A chat component's encoding opens with a brace.
proof fn lemma_chat_head_char(c: CCheckChat)
    ensures
        spec_json_chat(c).len() >= 1,
        spec_json_chat(c)[0] == '{',
{
    reveal_strlit("{\"text\":");
    assert(spec_chat_fields_a(c)[0] == '{');
    assert(spec_chat_fields(c)[0] == '{');
    assert(spec_json_chat(c)[0] == '{');
}

/// A chat component's encoding, regrouped around what follows it.
#[verifier::rlimit(100)]
proof fn lemma_chat_shape(c: CCheckChat, r: Seq<char>)
    ensures
        spec_json_chat(c) + r == spec_chat_fields_a(c) + (spec_chat_fields_b(c) + (
        ",\"extra\":["@ + (spec_json_chats(c.extra, 0) + seq![']'] + ("}"@ + r)))),
{
    reveal_strlit("]}");
    reveal_strlit("}");
    assert(spec_json_chat(c) + r =~= spec_chat_fields_a(c) + (spec_chat_fields_b(c) + (
    ",\"extra\":["@ + (spec_json_chats(c.extra, 0) + seq![']'] + ("}"@ + r)))));
}

/// A chat component followed by anything is read back unambiguously.
pub proof fn lemma_chat_unique(c1: CCheckChat, r1: Seq<char>, c2: CCheckChat, r2: Seq<char>)
    requires
        spec_json_chat(c1) + r1 == spec_json_chat(c2) + r2,
    ensures
        chat_data_eq(c1, c2),
        r1 == r2,
    decreases c1, 0int, 0int,
{
    reveal_strlit("}");
    let y1 = "}"@ + r1;
    let y2 = "}"@ + r2;
    let z1 = spec_json_chats(c1.extra, 0) + seq![']'] + y1;
    let z2 = spec_json_chats(c2.extra, 0) + seq![']'] + y2;
    let w1 = ",\"extra\":["@ + z1;
    let w2 = ",\"extra\":["@ + z2;
    lemma_chat_shape(c1, r1);
    lemma_chat_shape(c2, r2);
    lemma_chat_fields_a_unique(c1, spec_chat_fields_b(c1) + w1, c2, spec_chat_fields_b(c2) + w2);
    lemma_chat_fields_b_unique(c1, w1, c2, w2);
    crate::text::lemma_cancel_prefix(",\"extra\":["@, z1, z2);
    lemma_chats_region_unique(c1.extra, 0, y1, c2.extra, 0, y2);
    crate::text::lemma_cancel_prefix("}"@, r1, r2);
    assert forall|k: int| 0 <= k < c1.extra@.len() implies chat_data_eq(
        #[trigger] c1.extra[k],
        c2.extra[k],
    ) by {
        assert(chat_data_eq(c1.extra[0 + k], c2.extra[0 + k]));
    }
}

/// A comma-separated chat list closed by an unescaped `]` is read back
/// unambiguously.
proof fn lemma_chats_region_unique(
    l1: Vec<CCheckChat>,
    f1: int,
    r1: Seq<char>,
    l2: Vec<CCheckChat>,
    f2: int,
    r2: Seq<char>,
)
    requires
        0 <= f1 <= l1@.len(),
        0 <= f2 <= l2@.len(),
        spec_json_chats(l1, f1) + seq![']'] + r1 == spec_json_chats(l2, f2) + seq![']'] + r2,
    ensures
        l1@.len() - f1 == l2@.len() - f2,
        forall|k: int| 0 <= k < l1@.len() - f1 ==> chat_data_eq(#[trigger] l1[f1 + k], l2[f2 + k]),
        r1 == r2,
    decreases l1, l1@.len() - f1, 1int,
{
    let la = spec_json_chats(l1, f1) + seq![']'] + r1;
    let lb = spec_json_chats(l2, f2) + seq![']'] + r2;
    if f1 == l1@.len() && f2 == l2@.len() {
        assert(r1 =~= la.skip(1));
        assert(r2 =~= lb.skip(1));
    } else if f1 == l1@.len() {
        lemma_chat_head_char(l2[f2]);
        assert(la[0] == ']');
        assert(lb[0] == '{');
        assert(false);
    } else if f2 == l2@.len() {
        lemma_chat_head_char(l1[f1]);
        assert(lb[0] == ']');
        assert(la[0] == '{');
        assert(false);
    } else {
        let t1 = spec_json_chats_tail(l1, f1 + 1) + (seq![']'] + r1);
        let t2 = spec_json_chats_tail(l2, f2 + 1) + (seq![']'] + r2);
        assert(la =~= spec_json_chat(l1[f1]) + t1);
        assert(lb =~= spec_json_chat(l2[f2]) + t2);
        lemma_chat_unique(l1[f1], t1, l2[f2], t2);
        lemma_chats_tail_unique(l1, f1 + 1, r1, l2, f2 + 1, r2);
        assert forall|k: int| 0 <= k < l1@.len() - f1 implies chat_data_eq(
            #[trigger] l1[f1 + k],
            l2[f2 + k],
        ) by {
            if k > 0 {
                assert(chat_data_eq(l1[(f1 + 1) + (k - 1)], l2[(f2 + 1) + (k - 1)]));
            }
        }
    }
}

/// The comma-led continuation of a chat list closed by an unescaped `]` is
/// read back unambiguously.
proof fn lemma_chats_tail_unique(
    l1: Vec<CCheckChat>,
    f1: int,
    r1: Seq<char>,
    l2: Vec<CCheckChat>,
    f2: int,
    r2: Seq<char>,
)
    requires
        0 <= f1 <= l1@.len(),
        0 <= f2 <= l2@.len(),
        spec_json_chats_tail(l1, f1) + (seq![']'] + r1) == spec_json_chats_tail(l2, f2) + (
        seq![']'] + r2),
    ensures
        l1@.len() - f1 == l2@.len() - f2,
        forall|k: int| 0 <= k < l1@.len() - f1 ==> chat_data_eq(#[trigger] l1[f1 + k], l2[f2 + k]),
        r1 == r2,
    decreases l1, l1@.len() - f1, 2int,
{
    let la = spec_json_chats_tail(l1, f1) + (seq![']'] + r1);
    let lb = spec_json_chats_tail(l2, f2) + (seq![']'] + r2);
    if f1 == l1@.len() && f2 == l2@.len() {
        assert(r1 =~= la.skip(1));
        assert(r2 =~= lb.skip(1));
    } else if f1 == l1@.len() {
        assert(la[0] == ']');
        assert(lb[0] == ',');
        assert(false);
    } else if f2 == l2@.len() {
        assert(lb[0] == ']');
        assert(la[0] == ',');
        assert(false);
    } else {
        assert(la =~= seq![','] + (spec_json_chats(l1, f1) + seq![']'] + r1));
        assert(lb =~= seq![','] + (spec_json_chats(l2, f2) + seq![']'] + r2));
        crate::text::lemma_cancel_prefix(
            seq![','],
            spec_json_chats(l1, f1) + seq![']'] + r1,
            spec_json_chats(l2, f2) + seq![']'] + r2,
        );
        lemma_chats_region_unique(l1, f1, r1, l2, f2, r2);
    }
}

} // verus!
