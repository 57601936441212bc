//! Serialization (CSSOM §3 common serializing idioms, §9 component values):
//! identifiers, strings, URLs, tokens and component values, and the
//! [`ToCss`] trait that every CSSOM object implements.

use vstd::prelude::*;

use crate::syntax::{
    cv_model, cvs_model, lemma_cvs_model_take, BlockKind, ComponentValue, ComponentValueModel,
    HashType, Numeric, NumericValue, Token,
};
use crate::text::{decimal_text, hex_digit, hex_text, int_text, push_char, push_hex, push_int};

verus! {

/// Serialization to CSS text.
pub trait ToCss {
    /// The CSS text of `self`.
    spec fn css_text(&self) -> Seq<char>;

    /// Serializes `self` to a CSS string.
    fn to_css_string(&self) -> (s: String)
        ensures
            s@ == self.css_text(),
    ;
}

// ── §3 common serializing idioms ────────────────────────────────────

/// `c` is an ASCII digit.
pub open spec fn is_ascii_digit(c: char) -> bool {
    '0' <= c && c <= '9'
}

/// `c` is an ASCII letter or digit.
pub open spec fn is_ascii_alphanumeric(c: char) -> bool {
    is_ascii_digit(c) || ('a' <= c && c <= 'z') || ('A' <= c && c <= 'Z')
}

/// §3: escape a character as code point: `\`, the code point in lower-case
/// hexadecimal, and a space.
pub open spec fn escape_as_code_point(c: char) -> Seq<char> {
    seq!['\\'] + hex_text(c as nat, false) + seq![' ']
}

/// §3: escape a character: `\` followed by the character.
pub open spec fn escape_char(c: char) -> Seq<char> {
    seq!['\\', c]
}

/// §3 serialize an identifier: what the character at index `i` of `name`
/// becomes.
pub open spec fn ident_char_css(name: Seq<char>, i: int) -> Seq<char> {
    let c = name[i];
    if c == '\0' {
        seq!['\u{FFFD}']
    } else if (c as u32) <= 0x1f || c == '\u{7f}' || (i == 0 && is_ascii_digit(c)) || (i == 1
        && is_ascii_digit(c) && name[0] == '-') {
        escape_as_code_point(c)
    } else if i == 0 && c == '-' && name.len() == 1 {
        escape_char(c)
    } else if (c as u32) >= 0x80 || c == '-' || c == '_' || is_ascii_alphanumeric(c) {
        seq![c]
    } else {
        escape_char(c)
    }
}

/// The serialization of the first `n` characters of the identifier `name`.
pub open spec fn ident_css_prefix(name: Seq<char>, n: int) -> Seq<char>
    decreases n,
{
    if n <= 0 {
        seq![]
    } else {
        ident_css_prefix(name, n - 1) + ident_char_css(name, n - 1)
    }
}

/// §3 serialize an identifier.
pub open spec fn ident_css(name: Seq<char>) -> Seq<char> {
    ident_css_prefix(name, name.len() as int)
}

/// §3 serialize a string: what one character of the string becomes.
pub open spec fn string_char_css(c: char) -> Seq<char> {
    if c == '\0' {
        seq!['\u{FFFD}']
    } else if (c as u32) <= 0x1f || c == '\u{7f}' {
        escape_as_code_point(c)
    } else if c == '"' || c == '\\' {
        escape_char(c)
    } else {
        seq![c]
    }
}

/// The escaped characters of a string, without the quotes.
pub open spec fn string_body_css(s: Seq<char>) -> Seq<char>
    decreases s.len(),
{
    if s.len() == 0 {
        seq![]
    } else {
        string_body_css(s.drop_last()) + string_char_css(s.last())
    }
}

/// §3 serialize a string: the escaped characters between double quotes.
pub open spec fn string_css(s: Seq<char>) -> Seq<char> {
    seq!['"'] + string_body_css(s) + seq!['"']
}

/// §3 serialize a URL: `url(`, the serialized string, `)`.
pub open spec fn url_css(s: Seq<char>) -> Seq<char> {
    seq!['u', 'r', 'l', '('] + string_css(s) + seq![')']
}

fn code_point_escape(out: &mut String, c: char)
    ensures
        final(out)@ == old(out)@ + escape_as_code_point(c),
{
    let ghost start = out@;
    push_char(out, '\\');
    push_hex(out, (c as u32) as u64, false);
    push_char(out, ' ');
    assert(out@ =~= start + escape_as_code_point(c));
}

fn char_escape(out: &mut String, c: char)
    ensures
        final(out)@ == old(out)@ + escape_char(c),
{
    let ghost start = out@;
    push_char(out, '\\');
    push_char(out, c);
    assert(out@ =~= start + escape_char(c));
}

/// Appends the serialization of the identifier `name`.
pub fn push_identifier(out: &mut String, name: &str)
    ensures
        final(out)@ == old(out)@ + ident_css(name@),
{
    let cs = crate::text::chars_of(name);
    let n = cs.len();
    let ghost start = out@;
    let mut i: usize = 0;
    while i < n
        invariant
            n == cs@.len(),
            cs@ == name@,
            i <= n,
            out@ == start + ident_css_prefix(cs@, i as int),
        decreases n - i,
    {
        let c = cs[i];
        let ghost before = out@;
        let code = c as u32;
        if c == '\0' {
            push_char(out, '\u{FFFD}');
        } else if code <= 0x1f || c == '\u{7f}' || (i == 0 && '0' <= c && c <= '9') || (i == 1
            && '0' <= c && c <= '9' && cs[0] == '-') {
            code_point_escape(out, c);
        } else if i == 0 && c == '-' && n == 1 {
            char_escape(out, c);
        } else if code >= 0x80 || c == '-' || c == '_' || ('0' <= c && c <= '9') || ('a' <= c
            && c <= 'z') || ('A' <= c && c <= 'Z') {
            push_char(out, c);
        } else {
            char_escape(out, c);
        }
        assert(out@ == before + ident_char_css(cs@, i as int));
        assert(out@ =~= start + ident_css_prefix(cs@, i + 1));
        i = i + 1;
    }
}

/// §3 serialize an identifier.
pub fn serialize_identifier(name: &str) -> (s: String)
    ensures
        s@ == ident_css(name@),
{
    let mut out = String::new();
    push_identifier(&mut out, name);
    assert(out@ =~= ident_css(name@));
    out
}

/// Appends the serialization of the string `s`, quotes included.
pub fn push_string(out: &mut String, s: &str)
    ensures
        final(out)@ == old(out)@ + string_css(s@),
{
    let cs = crate::text::chars_of(s);
    let ghost start = out@;
    push_char(out, '"');
    let mut i: usize = 0;
    while i < cs.len()
        invariant
            cs@ == s@,
            i <= cs@.len(),
            out@ == start + seq!['"'] + string_body_css(cs@.take(i as int)),
        decreases cs@.len() - i,
    {
        let c = cs[i];
        let ghost before = out@;
        let code = c as u32;
        if c == '\0' {
            push_char(out, '\u{FFFD}');
        } else if code <= 0x1f || c == '\u{7f}' {
            code_point_escape(out, c);
        } else if c == '"' || c == '\\' {
            char_escape(out, c);
        } else {
            push_char(out, c);
        }
        assert(out@ == before + string_char_css(c));
        assert(cs@.take(i + 1).drop_last() == cs@.take(i as int));
        assert(out@ =~= start + seq!['"'] + string_body_css(cs@.take(i + 1)));
        i = i + 1;
    }
    push_char(out, '"');
    assert(cs@.take(cs@.len() as int) == cs@);
    assert(out@ =~= start + string_css(s@));
}

/// §3 serialize a string: `s` escaped and wrapped in double quotes.
pub fn serialize_string(s: &str) -> (r: String)
    ensures
        r@ == string_css(s@),
{
    let mut out = String::new();
    push_string(&mut out, s);
    assert(out@ =~= string_css(s@));
    out
}

/// Appends the serialization of the URL `url`.
pub fn push_url(out: &mut String, url: &str)
    ensures
        final(out)@ == old(out)@ + url_css(url@),
{
    let ghost start = out@;
    push_char(out, 'u');
    push_char(out, 'r');
    push_char(out, 'l');
    push_char(out, '(');
    push_string(out, url);
    push_char(out, ')');
    assert(out@ =~= start + url_css(url@));
}

/// §3 serialize a URL: `url("...")`.
pub fn serialize_url(url: &str) -> (r: String)
    ensures
        r@ == url_css(url@),
{
    let mut out = String::new();
    push_url(&mut out, url);
    assert(out@ =~= url_css(url@));
    out
}

// ── tokens ──────────────────────────────────────────────────────────

/// The text of a numeric value.
pub open spec fn numeric_css(n: Numeric) -> Seq<char> {
    match n.value {
        NumericValue::Integer(i) => int_text(i as int),
        NumericValue::Text(t) => t@,
    }
}

/// Upper-case hexadecimal text, left-padded with zeros to four digits
/// (`format!("{:04X}")`).
pub open spec fn hex4(n: u32) -> Seq<char> {
    let h = hex_text(n as nat, true);
    if h.len() < 4 {
        Seq::new((4 - h.len()) as nat, |i: int| '0') + h
    } else {
        h
    }
}

/// The text of a unicode-range token.
pub open spec fn unicode_range_css(start: Option<u32>, end: Option<u32>) -> Seq<char> {
    match (start, end) {
        (Some(s), Some(e)) => if s == e {
            seq!['U', '+'] + hex4(s)
        } else {
            seq!['U', '+'] + hex4(s) + seq!['-'] + hex4(e)
        },
        (Some(s), None) => seq!['U', '+'] + hex4(s),
        _ => seq!['U', '+', '0'],
    }
}

/// The text of a token.
pub open spec fn token_css(t: Token) -> Seq<char> {
    match t {
        Token::Ident(s) => ident_css(s@),
        Token::Function(s) => ident_css(s@) + seq!['('],
        Token::AtKeyword(s) => seq!['@'] + ident_css(s@),
        Token::Hash(s, HashType::Id) => seq!['#'] + ident_css(s@),
        Token::Hash(s, HashType::Unrestricted) => seq!['#'] + s@,
        Token::String(s) => string_css(s@),
        Token::BadString => seq![],
        Token::Url(s) => url_css(s@),
        Token::BadUrl => seq![],
        Token::Delim(c) => seq![c],
        Token::Number(n) => numeric_css(n),
        Token::Percentage(n) => numeric_css(n) + seq!['%'],
        Token::Dimension(n, unit) => numeric_css(n) + ident_css(unit@),
        Token::UnicodeRange(a, b) => unicode_range_css(a, b),
        Token::Whitespace => seq![' '],
        Token::Comment(s) => seq!['/', '*'] + s@ + seq!['*', '/'],
        Token::Colon => seq![':'],
        Token::Semicolon => seq![';'],
        Token::Comma => seq![','],
        Token::OpenBracket => seq!['['],
        Token::CloseBracket => seq![']'],
        Token::OpenParen => seq!['('],
        Token::CloseParen => seq![')'],
        Token::OpenBrace => seq!['{'],
        Token::CloseBrace => seq!['}'],
        Token::Cdo => seq!['<', '!', '-', '-'],
        Token::Cdc => seq!['-', '-', '>'],
        Token::Eof => seq![],
    }
}

fn push_numeric(out: &mut String, n: &Numeric)
    ensures
        final(out)@ == old(out)@ + numeric_css(*n),
{
    match &n.value {
        NumericValue::Integer(i) => push_int(out, *i),
        NumericValue::Text(t) => out.append(t.as_str()),
    }
}

fn push_hex4(out: &mut String, n: u32)
    ensures
        final(out)@ == old(out)@ + hex4(n),
{
    let mut h = String::new();
    push_hex(&mut h, n as u64, true);
    assert(h@ =~= hex_text(n as nat, true));
    let len = h.as_str().unicode_len();
    let ghost start = out@;
    if len < 4 {
        let mut k: usize = 0;
        while k < 4 - len
            invariant
                len < 4,
                k <= 4 - len,
                out@ == start + Seq::new(k as nat, |i: int| '0'),
            decreases 4 - len - k,
        {
            push_char(out, '0');
            assert(out@ =~= start + Seq::new((k + 1) as nat, |i: int| '0'));
            k = k + 1;
        }
    }
    out.append(h.as_str());
    assert(out@ =~= start + hex4(n));
}

fn push_unicode_range(out: &mut String, start: Option<u32>, end: Option<u32>)
    ensures
        final(out)@ == old(out)@ + unicode_range_css(start, end),
{
    let ghost s0 = out@;
    push_char(out, 'U');
    push_char(out, '+');
    match (start, end) {
        (Some(s), Some(e)) => {
            if s == e {
                push_hex4(out, s);
            } else {
                push_hex4(out, s);
                push_char(out, '-');
                push_hex4(out, e);
            }
        },
        (Some(s), None) => {
            push_hex4(out, s);
        },
        _ => {
            push_char(out, '0');
        },
    }
    assert(out@ =~= s0 + unicode_range_css(start, end));
}

/// Appends the text of a token.
pub fn push_token(out: &mut String, t: &Token)
    ensures
        final(out)@ == old(out)@ + token_css(*t),
{
    let ghost s0 = out@;
    match t {
        Token::Ident(s) => push_identifier(out, s.as_str()),
        Token::Function(s) => {
            push_identifier(out, s.as_str());
            push_char(out, '(');
        },
        Token::AtKeyword(s) => {
            push_char(out, '@');
            push_identifier(out, s.as_str());
        },
        Token::Hash(s, HashType::Id) => {
            push_char(out, '#');
            push_identifier(out, s.as_str());
        },
        Token::Hash(s, HashType::Unrestricted) => {
            push_char(out, '#');
            out.append(s.as_str());
        },
        Token::String(s) => push_string(out, s.as_str()),
        Token::BadString => {},
        Token::Url(s) => push_url(out, s.as_str()),
        Token::BadUrl => {},
        Token::Delim(c) => push_char(out, *c),
        Token::Number(n) => push_numeric(out, n),
        Token::Percentage(n) => {
            push_numeric(out, n);
            push_char(out, '%');
        },
        Token::Dimension(n, unit) => {
            push_numeric(out, n);
            push_identifier(out, unit.as_str());
        },
        Token::UnicodeRange(a, b) => push_unicode_range(out, *a, *b),
        Token::Whitespace => push_char(out, ' '),
        Token::Comment(s) => {
            push_char(out, '/');
            push_char(out, '*');
            out.append(s.as_str());
            push_char(out, '*');
            push_char(out, '/');
        },
        Token::Colon => push_char(out, ':'),
        Token::Semicolon => push_char(out, ';'),
        Token::Comma => push_char(out, ','),
        Token::OpenBracket => push_char(out, '['),
        Token::CloseBracket => push_char(out, ']'),
        Token::OpenParen => push_char(out, '('),
        Token::CloseParen => push_char(out, ')'),
        Token::OpenBrace => push_char(out, '{'),
        Token::CloseBrace => push_char(out, '}'),
        Token::Cdo => {
            push_char(out, '<');
            push_char(out, '!');
            push_char(out, '-');
            push_char(out, '-');
        },
        Token::Cdc => {
            push_char(out, '-');
            push_char(out, '-');
            push_char(out, '>');
        },
        Token::Eof => {},
    }
    assert(out@ =~= s0 + token_css(*t));
}

// ── component values (§9) ───────────────────────────────────────────

/// The opening and closing characters of a simple block.
pub open spec fn block_open(k: BlockKind) -> char {
    match k {
        BlockKind::Curly => '{',
        BlockKind::Square => '[',
        BlockKind::Paren => '(',
    }
}

/// The closing character of a simple block.
pub open spec fn block_close(k: BlockKind) -> char {
    match k {
        BlockKind::Curly => '}',
        BlockKind::Square => ']',
        BlockKind::Paren => ')',
    }
}

/// The text of a component value.
pub open spec fn cv_css(m: ComponentValueModel) -> Seq<char>
    decreases m,
{
    match m {
        ComponentValueModel::Token(t) => token_css(t),
        ComponentValueModel::Function(name, args) => ident_css(name) + seq!['('] + cvs_css(args)
            + seq![')'],
        ComponentValueModel::Block(k, v) => seq![block_open(k)] + cvs_css(v) + seq![block_close(k)],
    }
}

/// §9 serialize a list of component values: their texts, concatenated.
pub open spec fn cvs_css(s: Seq<ComponentValueModel>) -> Seq<char>
    decreases s,
{
    if s.len() == 0 {
        seq![]
    } else {
        cvs_css(s.drop_last()) + cv_css(s.last())
    }
}

/// Appending one model to a list appends its text.
pub proof fn lemma_cvs_css_push(s: Seq<ComponentValueModel>, m: ComponentValueModel)
    ensures
        cvs_css(s.push(m)) == cvs_css(s) + cv_css(m),
{
    assert(s.push(m).drop_last() == s);
}

fn push_block_delim(out: &mut String, c: char)
    ensures
        final(out)@ == old(out)@.push(c),
{
    push_char(out, c);
}

/// Appends the text of one component value.
pub fn push_component_value(out: &mut String, cv: &ComponentValue)
    ensures
        final(out)@ == old(out)@ + cv_css(cv@),
    decreases cv,
{
    let ghost s0 = out@;
    match cv {
        ComponentValue::PreservedToken(t) => push_token(out, t),
        ComponentValue::Function(f) => {
            push_identifier(out, f.name.as_str());
            push_char(out, '(');
            push_component_value_vec(out, &f.value);
            push_char(out, ')');
        },
        ComponentValue::SimpleBlock(b) => {
            let (open, close) = match b.kind {
                BlockKind::Curly => ('{', '}'),
                BlockKind::Square => ('[', ']'),
                BlockKind::Paren => ('(', ')'),
            };
            push_block_delim(out, open);
            push_component_value_vec(out, &b.value);
            push_block_delim(out, close);
        },
    }
    assert(out@ =~= s0 + cv_css(cv@));
}

/// Appends the texts of a list of component values.
pub fn push_component_value_vec(out: &mut String, cvs: &Vec<ComponentValue>)
    ensures
        final(out)@ == old(out)@ + cvs_css(cvs_model(cvs@)),
    decreases cvs,
{
    let ghost s0 = out@;
    let mut i: usize = 0;
    while i < cvs.len()
        invariant
            i <= cvs@.len(),
            out@ == s0 + cvs_css(cvs_model(cvs@.take(i as int))),
        decreases cvs@.len() - i,
    {
        push_component_value(out, &cvs[i]);
        proof {
            lemma_cvs_model_take(cvs@, i as int);
            lemma_cvs_css_push(cvs_model(cvs@.take(i as int)), cv_model(cvs@[i as int]));
        }
        assert(out@ =~= s0 + cvs_css(cvs_model(cvs@.take(i + 1))));
        i = i + 1;
    }
    assert(cvs@.take(cvs@.len() as int) == cvs@);
}

/// Appends the texts of a slice of component values.
pub fn push_component_values(out: &mut String, cvs: &[ComponentValue])
    ensures
        final(out)@ == old(out)@ + cvs_css(cvs_model(cvs@)),
{
    let ghost s0 = out@;
    let mut i: usize = 0;
    while i < cvs.len()
        invariant
            i <= cvs@.len(),
            out@ == s0 + cvs_css(cvs_model(cvs@.take(i as int))),
        decreases cvs@.len() - i,
    {
        push_component_value(out, &cvs[i]);
        proof {
            lemma_cvs_model_take(cvs@, i as int);
            lemma_cvs_css_push(cvs_model(cvs@.take(i as int)), cv_model(cvs@[i as int]));
        }
        assert(out@ =~= s0 + cvs_css(cvs_model(cvs@.take(i + 1))));
        i = i + 1;
    }
    assert(cvs@.take(cvs@.len() as int) == cvs@);
}

/// §9 serialize a list of component values.
pub fn serialize_component_values(cvs: &[ComponentValue]) -> (s: String)
    ensures
        s@ == cvs_css(cvs_model(cvs@)),
{
    let mut out = String::new();
    push_component_values(&mut out, cvs);
    assert(out@ =~= cvs_css(cvs_model(cvs@)));
    out
}

/// Serializes one component value.
pub fn serialize_component_value(cv: &ComponentValue) -> (s: String)
    ensures
        s@ == cv_css(cv@),
{
    let mut out = String::new();
    push_component_value(&mut out, cv);
    assert(out@ =~= cv_css(cv@));
    out
}

// ── laws on tokens ──────────────────────────────────────────────────

/// A run of decimal digits.
pub open spec fn is_decimal_digits(s: Seq<char>) -> bool {
    s.len() > 0 && forall|i: int| 0 <= i < s.len() ==> '0' <= #[trigger] s[i] && s[i] <= '9'
}

/// The number that a run of decimal digits spells.
pub open spec fn decimal_value(s: Seq<char>) -> int
    decreases s.len(),
{
    if s.len() == 0 {
        0
    } else {
        decimal_value(s.drop_last()) * 10 + (s.last() as int - '0' as int)
    }
}

/// Decimal digits spelling `v`, with no leading zero unless `v` is zero.
pub open spec fn spells_decimal(s: Seq<char>, v: int) -> bool {
    &&& is_decimal_digits(s)
    &&& decimal_value(s) == v
    &&& (s.len() > 1 ==> s[0] != '0')
}

/// Text that reads as the whole number `i`: a `-` for a negative number,
/// then the decimal digits of its magnitude.
pub open spec fn reads_as_integer(t: Seq<char>, i: int) -> bool {
    if i < 0 {
        t.len() > 0 && t[0] == '-' && spells_decimal(t.drop_first(), -i)
    } else {
        spells_decimal(t, i)
    }
}

/// A decimal digit has the value it was made for.
proof fn lemma_decimal_digit(d: nat)
    requires
        d < 10,
    ensures
        '0' <= hex_digit(d, false) && hex_digit(d, false) <= '9',
        hex_digit(d, false) as int - '0' as int == d,
{
}

/// The decimal text of a number spells it.
proof fn lemma_decimal_text(n: nat)
    ensures
        spells_decimal(decimal_text(n), n as int),
        n > 0 ==> decimal_text(n)[0] != '0',
    decreases n,
{
    let t = decimal_text(n);
    if n < 10 {
        lemma_decimal_digit(n);
        assert(t == seq![hex_digit(n, false)]);
        assert(t.drop_last() == Seq::<char>::empty());
        assert(decimal_value(Seq::<char>::empty()) == 0);
        assert(decimal_value(t) == n);
    } else {
        lemma_decimal_text(n / 10);
        lemma_decimal_digit(n % 10);
        let p = decimal_text(n / 10);
        assert(t == p.push(hex_digit(n % 10, false)));
        assert(t.drop_last() == p);
        assert(t[0] == p[0]);
        assert(n == (n / 10) * 10 + n % 10);
        assert(decimal_value(t) == decimal_value(p) * 10 + (t.last() as int - '0' as int));
        assert(decimal_value(t) == n);
        assert forall|i: int| 0 <= i < t.len() implies '0' <= #[trigger] t[i] && t[i] <= '9' by {
            if i < p.len() {
                assert(t[i] == p[i]);
            }
        }
    }
}

/// The text of a number: a whole number is written in decimal with its
/// sign, any other value as its decimal text.
pub proof fn law_number_text(n: Numeric)
    ensures
        match n.value {
            NumericValue::Integer(i) => reads_as_integer(token_css(Token::Number(n)), i as int),
            NumericValue::Text(x) => token_css(Token::Number(n)) == x@,
        },
{
    match n.value {
        NumericValue::Integer(i) => {
            let t = token_css(Token::Number(n));
            if i < 0 {
                lemma_decimal_text((-i) as nat);
                assert(t.drop_first() == decimal_text((-i) as nat));
            } else {
                lemma_decimal_text(i as nat);
            }
        },
        NumericValue::Text(_) => {},
    }
}

/// How each kind of token is written: a percentage and a dimension share
/// the number's text, followed by `%` or the unit as an identifier; names
/// are escaped as identifiers; strings and URLs are quoted strings.
pub proof fn law_token_text(n: Numeric, s: String, u: String, c: char)
    ensures
        token_css(Token::Percentage(n)) == token_css(Token::Number(n)) + seq!['%'],
        token_css(Token::Dimension(n, u)) == token_css(Token::Number(n)) + ident_css(u@),
        token_css(Token::Ident(s)) == ident_css(s@),
        token_css(Token::Function(s)) == ident_css(s@) + seq!['('],
        token_css(Token::AtKeyword(s)) == seq!['@'] + ident_css(s@),
        token_css(Token::Hash(s, HashType::Id)) == seq!['#'] + ident_css(s@),
        token_css(Token::Hash(s, HashType::Unrestricted)) == seq!['#'] + s@,
        token_css(Token::String(s)) == string_css(s@),
        token_css(Token::Url(s)) == "url("@ + string_css(s@) + ")"@,
        token_css(Token::Delim(c)) == seq![c],
        token_css(Token::Whitespace) == seq![' '],
        token_css(Token::Comment(s)) == "/*"@ + s@ + "*/"@,
        token_css(Token::Colon) == seq![':'],
        token_css(Token::Semicolon) == seq![';'],
        token_css(Token::Comma) == seq![','],
        token_css(Token::OpenParen) == seq!['('],
        token_css(Token::CloseParen) == seq![')'],
        token_css(Token::OpenBracket) == seq!['['],
        token_css(Token::CloseBracket) == seq![']'],
        token_css(Token::OpenBrace) == seq!['{'],
        token_css(Token::CloseBrace) == seq!['}'],
        token_css(Token::Cdo) == "<!--"@,
        token_css(Token::Cdc) == "-->"@,
        token_css(Token::BadString) == Seq::<char>::empty(),
        token_css(Token::BadUrl) == Seq::<char>::empty(),
        token_css(Token::Eof) == Seq::<char>::empty(),
{
    reveal_strlit("<!--");
    reveal_strlit("-->");
    assert("<!--"@ =~= seq!['<', '!', '-', '-']);
    assert("-->"@ =~= seq!['-', '-', '>']);
    reveal_strlit("url(");
    reveal_strlit(")");
    reveal_strlit("/*");
    reveal_strlit("*/");
    assert("url("@ + string_css(s@) + ")"@ =~= url_css(s@));
    assert("/*"@ + s@ + "*/"@ =~= seq!['/', '*'] + s@ + seq!['*', '/']);
}

/// Upper-case hexadecimal digits.
pub open spec fn is_upper_hex_digits(s: Seq<char>) -> bool {
    s.len() > 0 && forall|i: int| 0 <= i < s.len() ==> (('0' <= #[trigger] s[i] && s[i] <= '9') || (
    'A' <= s[i] && s[i] <= 'F'))
}

/// An upper-case digit has the value it was made for.
proof fn lemma_upper_hex_digit(d: nat)
    requires
        d < 16,
    ensures
        ('0' <= hex_digit(d, true) && hex_digit(d, true) <= '9') || ('A' <= hex_digit(d, true)
            && hex_digit(d, true) <= 'F'),
        hex_digit_value(hex_digit(d, true)) == d,
        d > 0 ==> hex_digit(d, true) != '0',
{
}

/// The upper-case hexadecimal text of a number spells it.
proof fn lemma_upper_hex_text(n: nat)
    ensures
        is_upper_hex_digits(hex_text(n, true)),
        hex_value(hex_text(n, true)) == n,
        n > 0 ==> hex_text(n, true)[0] != '0',
    decreases n,
{
    let t = hex_text(n, true);
    lemma_upper_hex_digit(n % 16);
    if n < 16 {
        assert(t == seq![hex_digit(n, true)]);
        assert(t.drop_last() == Seq::<char>::empty());
        assert(hex_value(Seq::<char>::empty()) == 0);
    } else {
        lemma_upper_hex_text(n / 16);
        let p = hex_text(n / 16, true);
        assert(t == p.push(hex_digit(n % 16, true)));
        assert(t.drop_last() == p);
        assert(t[0] == p[0]);
        assert(n == (n / 16) * 16 + n % 16);
        assert(hex_value(t) == hex_value(p) * 16 + hex_digit_value(t.last()));
        assert forall|i: int| 0 <= i < t.len() implies (('0' <= #[trigger] t[i] && t[i] <= '9') || (
        'A' <= t[i] && t[i] <= 'F')) by {
            if i < p.len() {
                assert(t[i] == p[i]);
            }
        }
    }
}

/// Leading zeros do not change the number that hexadecimal digits spell.
proof fn lemma_hex_value_zeros(z: nat, h: Seq<char>)
    ensures
        hex_value(Seq::new(z, |i: int| '0') + h) == hex_value(h),
    decreases h.len(), z,
{
    let zs = Seq::new(z, |i: int| '0');
    if h.len() == 0 {
        assert(zs + h == zs);
        if z > 0 {
            lemma_hex_value_zeros((z - 1) as nat, h);
            assert(zs.drop_last() == Seq::new((z - 1) as nat, |i: int| '0'));
            assert(Seq::new((z - 1) as nat, |i: int| '0') + h == Seq::new((z - 1) as nat, |i: int| '0'));
        }
    } else {
        lemma_hex_value_zeros(z, h.drop_last());
        assert((zs + h).drop_last() == zs + h.drop_last());
        assert((zs + h).last() == h.last());
    }
}

/// A unicode-range token is written `U+` and its start as at least four
/// upper-case hexadecimal digits (no more leading zeros than that), then,
/// when the end differs, `-` and the end written the same way; `U+0` when
/// there is no start.
pub proof fn law_unicode_range_text(a: u32, b: u32, e: Option<u32>)
    ensures
        hex4(a).len() >= 4,
        is_upper_hex_digits(hex4(a)),
        hex_value(hex4(a)) == a,
        hex4(a).len() > 4 ==> hex4(a)[0] != '0',
        unicode_range_css(Some(a), Some(b)) == "U+"@ + hex4(a) + (if a == b {
            Seq::<char>::empty()
        } else {
            seq!['-'] + hex4(b)
        }),
        unicode_range_css(Some(a), None) == "U+"@ + hex4(a),
        unicode_range_css(None, e) == "U+0"@,
{
    reveal_strlit("U+");
    reveal_strlit("U+0");
    lemma_upper_hex_text(a as nat);
    let h = hex_text(a as nat, true);
    if h.len() < 4 {
        let z = (4 - h.len()) as nat;
        lemma_hex_value_zeros(z, h);
        let t = Seq::new(z, |i: int| '0') + h;
        assert(hex4(a) == t);
        assert forall|i: int| 0 <= i < t.len() implies (('0' <= #[trigger] t[i] && t[i] <= '9') || (
        'A' <= t[i] && t[i] <= 'F')) by {
            if i >= z {
                assert(t[i] == h[i - z]);
            }
        }
    } else {
        if a == 0 {
            assert(h == seq!['0']);
        }
    }
    assert("U+"@ + hex4(a) + Seq::<char>::empty() =~= seq!['U', '+'] + hex4(a));
    assert("U+"@ + hex4(a) + (seq!['-'] + hex4(b)) =~= seq!['U', '+'] + hex4(a) + seq!['-'] + hex4(b));
    assert("U+0"@ =~= seq!['U', '+', '0']);
}

/// A function is written as its name, `(`, its arguments and `)`; a simple
/// block as its opening character, its contents and its closing one.
pub proof fn law_component_value_text(name: Seq<char>, args: Seq<ComponentValueModel>, k: BlockKind)
    ensures
        cv_css(ComponentValueModel::Function(name, args)) == ident_css(name) + seq!['('] + cvs_css(args)
            + seq![')'],
        cv_css(ComponentValueModel::Block(k, args)) == seq![
            match k {
                BlockKind::Curly => '{',
                BlockKind::Square => '[',
                BlockKind::Paren => '(',
            },
        ] + cvs_css(args) + seq![
            match k {
                BlockKind::Curly => '}',
                BlockKind::Square => ']',
                BlockKind::Paren => ')',
            },
        ],
{
}

// ── laws on component values ────────────────────────────────────────

/// A list of component values is written as their texts, one after the
/// other, with nothing between: every value is there, in order.
pub proof fn law_cvs_css(s1: Seq<ComponentValueModel>, s2: Seq<ComponentValueModel>, x: ComponentValueModel)
    ensures
        cvs_css(s1 + s2) == cvs_css(s1) + cvs_css(s2),
        cvs_css(seq![x]) == cv_css(x),
    decreases s2.len(),
{
    if s2.len() == 0 {
        assert(s1 + s2 =~= s1);
        assert(cvs_css(s1) + cvs_css(s2) =~= cvs_css(s1));
    } else {
        law_cvs_css(s1, s2.drop_last(), x);
        assert((s1 + s2).drop_last() =~= s1 + s2.drop_last());
        assert((s1 + s2).last() == s2.last());
        assert(cvs_css(s1 + s2) =~= cvs_css(s1) + cvs_css(s2));
    }
    assert(seq![x].drop_last() =~= Seq::<ComponentValueModel>::empty());
    assert(cvs_css(Seq::<ComponentValueModel>::empty()) =~= Seq::<char>::empty());
    assert(cvs_css(seq![x]) =~= cv_css(x));
}

// ── reading a serialized string back ────────────────────────────────

/// A hexadecimal digit (CSS Syntax §4.2).
pub open spec fn is_hex_digit(c: char) -> bool {
    ('0' <= c && c <= '9') || ('a' <= c && c <= 'f') || ('A' <= c && c <= 'F')
}

/// The value of a hexadecimal digit.
pub open spec fn hex_digit_value(c: char) -> int {
    if '0' <= c && c <= '9' {
        c as int - '0' as int
    } else if 'a' <= c && c <= 'f' {
        c as int - 'a' as int + 10
    } else {
        c as int - 'A' as int + 10
    }
}

/// The number of hexadecimal digits at the start of `t`, at most `k`.
pub open spec fn hex_run(t: Seq<char>, k: nat) -> nat
    decreases k,
{
    if k == 0 || t.len() == 0 || !is_hex_digit(t[0]) {
        0
    } else {
        1 + hex_run(t.drop_first(), (k - 1) as nat)
    }
}

/// The number that a run of hexadecimal digits spells.
pub open spec fn hex_value(h: Seq<char>) -> int
    decreases h.len(),
{
    if h.len() == 0 {
        0
    } else {
        hex_value(h.drop_last()) * 16 + hex_digit_value(h.last())
    }
}

/// Whitespace as CSS Syntax §4.2 defines it, after preprocessing.
pub open spec fn is_css_whitespace(c: char) -> bool {
    c == ' ' || c == '\t' || c == '\n'
}

/// §4.3.7 the code point that an escape's number stands for: U+FFFD for
/// zero, a surrogate or a number beyond U+10FFFF.
pub open spec fn escaped_code_point(v: int) -> char {
    if v == 0 || (0xD800 <= v && v <= 0xDFFF) || v > 0x10FFFF {
        '\u{FFFD}'
    } else {
        v as char
    }
}

/// The text between the quotes of a string token, read as the CSS
/// tokenizer reads it (§4.3.5 consume a string token, §4.3.7 consume an
/// escaped code point): `None` when an unescaped `"` or newline would end
/// or break the string early.
pub open spec fn read_string_body(t: Seq<char>) -> Option<Seq<char>>
    decreases t.len(),
{
    if t.len() == 0 {
        Some(seq![])
    } else if t[0] == '\\' {
        if t.len() == 1 {
            Some(seq![])
        } else if t[1] == '\n' {
            read_string_body(t.skip(2))
        } else if is_hex_digit(t[1]) {
            let n = hex_run(t.drop_first(), 6);
            let k: int = if 1 + n <= t.len() {
                (1 + n) as int
            } else {
                t.len() as int
            };
            let after = t.skip(k);
            let rest = if after.len() > 0 && is_css_whitespace(after[0]) {
                after.drop_first()
            } else {
                after
            };
            match read_string_body(rest) {
                Some(r) => Some(seq![escaped_code_point(hex_value(t.subrange(1, k)))] + r),
                None => None,
            }
        } else {
            match read_string_body(t.skip(2)) {
                Some(r) => Some(seq![t[1]] + r),
                None => None,
            }
        }
    } else if t[0] == '"' || t[0] == '\n' {
        None
    } else {
        match read_string_body(t.drop_first()) {
            Some(r) => Some(seq![t[0]] + r),
            None => None,
        }
    }
}

/// `s` with every NUL replaced by U+FFFD.
pub open spec fn nul_replaced(s: Seq<char>) -> Seq<char> {
    s.map_values(|c: char| if c == '\0' { '\u{FFFD}' } else { c })
}

/// The escaped text of a string is the escaped texts of its characters.
proof fn lemma_string_body_append(a: Seq<char>, b: Seq<char>)
    ensures
        string_body_css(a + b) == string_body_css(a) + string_body_css(b),
    decreases b.len(),
{
    if b.len() == 0 {
        assert(a + b == a);
        assert(string_body_css(a) + string_body_css(b) == string_body_css(a));
    } else {
        lemma_string_body_append(a, b.drop_last());
        assert((a + b).drop_last() == a + b.drop_last());
        assert((a + b).last() == b.last());
    }
}

/// The first character's escape, then the rest.
proof fn lemma_string_body_first(s: Seq<char>)
    requires
        s.len() > 0,
    ensures
        string_body_css(s) == string_char_css(s[0]) + string_body_css(s.drop_first()),
{
    let first = seq![s[0]];
    lemma_string_body_append(first, s.drop_first());
    assert(first + s.drop_first() == s);
    assert(first.drop_last() == Seq::<char>::empty());
    assert(string_body_css(Seq::<char>::empty()) == Seq::<char>::empty());
    assert(string_body_css(first) =~= string_char_css(s[0]));
}

/// A digit is a hexadecimal digit and has the value it was made for.
proof fn lemma_hex_digit(d: nat)
    requires
        d < 16,
    ensures
        is_hex_digit(hex_digit(d, false)),
        hex_digit_value(hex_digit(d, false)) == d,
{
}

/// The digits of a number below 256 in lower-case hexadecimal, and what
/// they spell.
proof fn lemma_hex_text_small(n: nat)
    requires
        n < 256,
    ensures
        1 <= hex_text(n, false).len() <= 2,
        forall|i: int| 0 <= i < hex_text(n, false).len() ==> is_hex_digit(#[trigger] hex_text(n, false)[i]),
        hex_value(hex_text(n, false)) == n,
{
    let h = hex_text(n, false);
    if n < 16 {
        lemma_hex_digit(n);
        assert(h == seq![hex_digit(n, false)]);
        assert(h.drop_last() == Seq::<char>::empty());
        assert(hex_value(h.drop_last()) == 0);
    } else {
        let d1 = n / 16;
        let d0 = n % 16;
        assert(d1 < 16);
        assert(hex_text(d1, false) == seq![hex_digit(d1, false)]);
        assert(h == seq![hex_digit(d1, false), hex_digit(d0, false)]);
        assert(h.drop_last() == seq![hex_digit(d1, false)]);
        assert(h.drop_last().drop_last() == Seq::<char>::empty());
        assert(n == d1 * 16 + d0);
        lemma_hex_digit(d1);
        lemma_hex_digit(d0);
        assert(hex_value(h.drop_last().drop_last()) == 0);
        assert(hex_value(h.drop_last()) == d1);
        assert(hex_value(h) == d1 * 16 + d0);
    }
}

/// A run of hexadecimal digits ended by a non-digit is read whole.
proof fn lemma_hex_run(h: Seq<char>, tail: Seq<char>, k: nat)
    requires
        h.len() <= k,
        forall|i: int| 0 <= i < h.len() ==> is_hex_digit(#[trigger] h[i]),
        tail.len() > 0,
        !is_hex_digit(tail[0]),
    ensures
        hex_run(h + tail, k) == h.len(),
    decreases h.len(),
{
    if h.len() == 0 {
        assert((h + tail)[0] == tail[0]);
    } else {
        assert((h + tail)[0] == h[0]);
        assert((h + tail).drop_first() == h.drop_first() + tail);
        lemma_hex_run(h.drop_first(), tail, (k - 1) as nat);
    }
}

/// Reading one escaped character, then the rest.
proof fn lemma_read_char(c: char, rest: Seq<char>)
    ensures
        read_string_body(string_char_css(c) + rest) == match read_string_body(rest) {
            Some(r) => Some(seq![if c == '\0' { '\u{FFFD}' } else { c }] + r),
            None => None,
        },
{
    let t = string_char_css(c) + rest;
    if c == '\0' {
        assert(t[0] == '\u{FFFD}');
        assert(t.drop_first() == rest);
    } else if (c as u32) <= 0x1f || c == '\u{7f}' {
        let h = hex_text(c as nat, false);
        lemma_hex_text_small(c as nat);
        assert(t == seq!['\\'] + (h + (seq![' '] + rest)));
        assert(t.drop_first() == h + (seq![' '] + rest));
        lemma_hex_run(h, seq![' '] + rest, 6);
        assert(t[1] == h[0]);
        let k: int = (1 + h.len()) as int;
        assert(t.subrange(1, k) == h);
        assert(t.skip(k) == seq![' '] + rest);
        assert((seq![' '] + rest).drop_first() == rest);
        assert(escaped_code_point(c as int) == c);
    } else if c == '"' || c == '\\' {
        assert(t[0] == '\\');
        assert(t[1] == c);
        assert(t.skip(2) == rest);
    } else {
        assert(t[0] == c);
        assert(t.drop_first() == rest);
    }
}

/// §3 serialize a string can be read back: the text is quoted, and the
/// tokenizer reading what stands between the quotes finds no early end and
/// gives back the string, with NUL replaced by U+FFFD.
#[verifier::spinoff_prover]
pub proof fn law_string_reads_back(s: Seq<char>)
    ensures
        string_css(s).len() >= 2,
        string_css(s)[0] == '"',
        string_css(s).last() == '"',
        read_string_body(string_css(s).subrange(1, string_css(s).len() - 1)) == Some(nul_replaced(s)),
    decreases s.len(),
{
    let body = string_body_css(s);
    assert(string_css(s).subrange(1, string_css(s).len() - 1) == body);
    if s.len() == 0 {
        assert(nul_replaced(s) == Seq::<char>::empty());
    } else {
        lemma_string_body_first(s);
        law_string_reads_back(s.drop_first());
        let rest = s.drop_first();
        assert(string_css(rest).subrange(1, string_css(rest).len() - 1) == string_body_css(rest));
        lemma_read_char(s[0], string_body_css(rest));
        assert(nul_replaced(s) == seq![if s[0] == '\0' { '\u{FFFD}' } else { s[0] }] + nul_replaced(rest));
    }
}

// ── reading a serialized identifier back ────────────────────────────

/// An ident-start code point (§4.2): a letter, `_` or a non-ASCII code
/// point.
pub open spec fn is_ident_start(c: char) -> bool {
    ('a' <= c && c <= 'z') || ('A' <= c && c <= 'Z') || c == '_' || (c as u32) >= 0x80
}

/// An ident code point (§4.2): an ident-start code point, a digit or `-`.
pub open spec fn is_ident_code_point(c: char) -> bool {
    is_ident_start(c) || ('0' <= c && c <= '9') || c == '-'
}

/// §4.3.7 consume an escaped code point, with the backslash already read:
/// the code point and how many characters it takes.
pub open spec fn read_escape(u: Seq<char>) -> (char, int) {
    if u.len() == 0 {
        ('\u{FFFD}', 0)
    } else if is_hex_digit(u[0]) {
        let n = hex_run(u, 6);
        let k: int = if 1 <= n && n <= u.len() {
            n as int
        } else {
            1
        };
        let after = u.skip(k);
        let w: int = if after.len() > 0 && is_css_whitespace(after[0]) {
            1
        } else {
            0
        };
        (escaped_code_point(hex_value(u.take(k))), k + w)
    } else {
        (u[0], 1)
    }
}

/// §4.3.11 consume an ident sequence, asked to take all of `t`: the name
/// it spells, or `None` when a code point that no ident holds ends it
/// early.
pub open spec fn read_ident(t: Seq<char>) -> Option<Seq<char>>
    decreases t.len(),
{
    if t.len() == 0 {
        Some(seq![])
    } else if is_ident_code_point(t[0]) {
        match read_ident(t.drop_first()) {
            Some(r) => Some(seq![t[0]] + r),
            None => None,
        }
    } else if t[0] == '\\' && t.len() >= 2 && t[1] != '\n' {
        let (c, k) = read_escape(t.drop_first());
        if 1 <= k && k <= t.len() - 1 {
            match read_ident(t.skip(1 + k)) {
                Some(r) => Some(seq![c] + r),
                None => None,
            }
        } else {
            None
        }
    } else {
        None
    }
}

/// §4.3.9 whether a text would start an ident sequence.
pub open spec fn starts_ident(t: Seq<char>) -> bool {
    &&& t.len() > 0
    &&& if t[0] == '-' {
        t.len() >= 2 && (is_ident_start(t[1]) || t[1] == '-' || (t[1] == '\\' && t.len() >= 3
            && t[2] != '\n'))
    } else if t[0] == '\\' {
        t.len() >= 2 && t[1] != '\n'
    } else {
        is_ident_start(t[0])
    }
}

/// The serialization of the characters of `name` from index `i` on.
spec fn ident_css_from(name: Seq<char>, i: int) -> Seq<char>
    decreases name.len() - i,
{
    if i >= name.len() || i < 0 {
        seq![]
    } else {
        ident_char_css(name, i) + ident_css_from(name, i + 1)
    }
}

/// The serialized prefix and the serialized rest make up the whole.
proof fn lemma_ident_css_from(name: Seq<char>, n: int)
    requires
        0 <= n <= name.len(),
    ensures
        ident_css_prefix(name, n) + ident_css_from(name, n) == ident_css_from(name, 0),
    decreases n,
{
    if n == 0 {
        assert(ident_css_prefix(name, 0) + ident_css_from(name, 0) =~= ident_css_from(name, 0));
    } else {
        lemma_ident_css_from(name, n - 1);
        assert(ident_css_from(name, n - 1) == ident_char_css(name, n - 1) + ident_css_from(name, n));
        assert(ident_css_prefix(name, n) == ident_css_prefix(name, n - 1) + ident_char_css(name, n - 1));
        assert(ident_css_prefix(name, n) + ident_css_from(name, n) =~= ident_css_prefix(name, n - 1)
            + ident_css_from(name, n - 1));
    }
}

/// The serialization of the whole name, read from the front.
proof fn lemma_ident_css_front(name: Seq<char>)
    ensures
        ident_css(name) == ident_css_from(name, 0),
{
    lemma_ident_css_from(name, name.len() as int);
    assert(ident_css_prefix(name, name.len() as int) + ident_css_from(name, name.len() as int)
        =~= ident_css(name));
}

/// A code point escape reads back as the code point.
proof fn lemma_read_code_point_escape(c: char, rest: Seq<char>)
    requires
        c != '\0',
        (c as u32) < 256,
    ensures
        ({
            let t = escape_as_code_point(c) + rest;
            &&& t.len() >= 2
            &&& t[0] == '\\'
            &&& t[1] != '\n'
            &&& is_hex_digit(t[1])
            &&& read_escape(t.drop_first()) == (c, t.len() - 1 - rest.len())
            &&& t.skip(t.len() - rest.len()) == rest
        }),
{
    let t = escape_as_code_point(c) + rest;
    let h = hex_text(c as nat, false);
    lemma_hex_text_small(c as nat);
    assert(t == seq!['\\'] + (h + (seq![' '] + rest)));
    let u = t.drop_first();
    assert(u == h + (seq![' '] + rest));
    lemma_hex_run(h, seq![' '] + rest, 6);
    assert(t[1] == h[0]);
    assert(u.take(h.len() as int) == h);
    assert(u.skip(h.len() as int) == seq![' '] + rest);
    assert(escaped_code_point(c as int) == c);
    assert(t.skip(t.len() - rest.len()) == rest);
}

/// A character escape reads back as the character.
proof fn lemma_read_char_escape(c: char, rest: Seq<char>)
    requires
        c != '\n',
        !is_hex_digit(c),
    ensures
        ({
            let t = escape_char(c) + rest;
            &&& t.len() >= 2
            &&& t[0] == '\\'
            &&& t[1] == c
            &&& read_escape(t.drop_first()) == (c, 1int)
            &&& t.skip(2) == rest
        }),
{
    let t = escape_char(c) + rest;
    assert(t.drop_first()[0] == c);
    assert(t.skip(2) == rest);
}

/// Reading the serialization of one character of a name, then the rest.
proof fn lemma_read_ident_char(name: Seq<char>, i: int, rest: Seq<char>)
    requires
        0 <= i < name.len(),
    ensures
        read_ident(ident_char_css(name, i) + rest) == match read_ident(rest) {
            Some(r) => Some(seq![if name[i] == '\0' { '\u{FFFD}' } else { name[i] }] + r),
            None => None,
        },
{
    let c = name[i];
    let t = ident_char_css(name, i) + rest;
    if c == '\0' {
        assert(t[0] == '\u{FFFD}');
        assert(t.drop_first() == rest);
    } else if (c as u32) <= 0x1f || c == '\u{7f}' || (i == 0 && is_ascii_digit(c)) || (i == 1
        && is_ascii_digit(c) && name[0] == '-') {
        lemma_read_code_point_escape(c, rest);
    } else if i == 0 && c == '-' && name.len() == 1 {
        lemma_read_char_escape(c, rest);
    } else if (c as u32) >= 0x80 || c == '-' || c == '_' || is_ascii_alphanumeric(c) {
        assert(t[0] == c);
        assert(t.drop_first() == rest);
    } else {
        lemma_read_char_escape(c, rest);
    }
}

/// Reading the serialization of a name from index `i` on.
proof fn lemma_read_ident_from(name: Seq<char>, i: int)
    requires
        0 <= i <= name.len(),
    ensures
        read_ident(ident_css_from(name, i)) == Some(nul_replaced(name.skip(i))),
    decreases name.len() - i,
{
    if i == name.len() {
        assert(nul_replaced(name.skip(i)) =~= Seq::<char>::empty());
    } else {
        lemma_read_ident_from(name, i + 1);
        lemma_read_ident_char(name, i, ident_css_from(name, i + 1));
        assert(nul_replaced(name.skip(i)) =~= seq![if name[i] == '\0' { '\u{FFFD}' } else { name[i] }]
            + nul_replaced(name.skip(i + 1)));
    }
}

/// §3 serialize an identifier can be read back: read as an ident sequence,
/// the serialization of a name gives the name back (NUL as U+FFFD), taking
/// all of the text; and for a non-empty name the text would start an
/// ident sequence, so a tokenizer reads it as an ident.
pub proof fn law_identifier_reads_back(name: Seq<char>)
    ensures
        read_ident(ident_css(name)) == Some(nul_replaced(name)),
        name.len() > 0 ==> starts_ident(ident_css(name)),
{
    lemma_ident_css_front(name);
    lemma_read_ident_from(name, 0);
    assert(name.skip(0) == name);
    if name.len() > 0 {
        let rest1 = ident_css_from(name, 1);
        assert(ident_css_from(name, 0) == ident_char_css(name, 0) + rest1);
        let c = name[0];
        if c == '\0' {
        } else if (c as u32) <= 0x1f || c == '\u{7f}' || is_ascii_digit(c) {
            lemma_read_code_point_escape(c, rest1);
        } else if c == '-' && name.len() == 1 {
            lemma_read_char_escape(c, rest1);
        } else if c == '-' {
            let d = name[1];
            let rest2 = ident_css_from(name, 2);
            assert(rest1 == ident_char_css(name, 1) + rest2);
            if d == '\0' {
            } else if (d as u32) <= 0x1f || d == '\u{7f}' || is_ascii_digit(d) {
                lemma_read_code_point_escape(d, rest2);
            } else if (d as u32) >= 0x80 || d == '-' || d == '_' || is_ascii_alphanumeric(d) {
            } else {
                lemma_read_char_escape(d, rest2);
            }
        } else if (c as u32) >= 0x80 || c == '_' || is_ascii_alphanumeric(c) {
        } else {
            lemma_read_char_escape(c, rest1);
        }
    }
}

} // verus!
