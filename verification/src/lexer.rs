//! The lexer: turns source text into a stream of spanned tokens.
//!
//! Offsets count characters; on ASCII input they coincide with byte
//! offsets. Whitespace and `#` line comments are skipped between tokens;
//! `spec_skip` defines that skipping, so the token spans provably
//! partition the source modulo skipped text.

pub mod tokens;

use vstd::prelude::*;
use vstd::string::*;

use crate::ast::{Span, VarType};
use crate::text::str_eq;
use crate::lexer::tokens::{LexingError, Token};

verus! {

/// A token together with the half-open source range it was read from.
#[derive(Debug, Clone, PartialEq)]
pub struct SpannedToken {
    pub start: usize,
    pub token: Token,
    pub end: usize,
}

/// A lexical error together with the source range it points at.
#[derive(Debug, Clone, PartialEq)]
pub struct LexErrorItem {
    pub kind: LexingError,
    pub span: Span,
}

/// A message attached to a source range, used by semantic diagnostics.
#[derive(Debug, Clone, PartialEq)]
pub struct ErrorTip {
    pub message: String,
    pub location: Span,
}

/// A semantic error surfaced while parsing, with its labelled spans and
/// an optional help line.
#[derive(Debug, Clone, PartialEq)]
pub enum LexicalError {
    InvalidToken,
    WrongType { error: Vec<ErrorTip>, help: Option<String> },
    UnknownVariable { error: Vec<ErrorTip>, help: Option<String> },
    UnknownFunction { error: Vec<ErrorTip>, help: Option<String> },
    WrongArgumentCount { error: Vec<ErrorTip>, help: Option<String> },
    FunctionIsBuiltin { error: Vec<ErrorTip>, help: Option<String> },
    UnusedValue { error: Vec<ErrorTip>, help: Option<String> },
}

// ---------------------------------------------------------------------
// Character classes
// ---------------------------------------------------------------------

/// Whitespace skipped between tokens: space, tab, newline, form feed.
pub open spec fn is_ws_char(c: char) -> bool {
    c == ' ' || c == '\t' || c == '\n' || c == '\u{c}'
}

pub open spec fn is_digit_char(c: char) -> bool {
    '0' <= c && c <= '9'
}

pub open spec fn is_hex_digit_char(c: char) -> bool {
    is_digit_char(c) || ('a' <= c && c <= 'f') || ('A' <= c && c <= 'F')
}

pub open spec fn is_ident_start_char(c: char) -> bool {
    ('a' <= c && c <= 'z') || ('A' <= c && c <= 'Z') || c == '_'
}

pub open spec fn is_ident_char(c: char) -> bool {
    is_ident_start_char(c) || is_digit_char(c)
}

/// A nonempty identifier: a letter or underscore, then letters, digits
/// and underscores.
pub open spec fn is_ident_text(t: Seq<char>) -> bool {
    t.len() > 0 && is_ident_start_char(t[0]) && (forall|i: int|
        0 <= i < t.len() ==> is_ident_char(#[trigger] t[i]))
}

pub open spec fn all_digits(t: Seq<char>) -> bool {
    forall|i: int| 0 <= i < t.len() ==> is_digit_char(#[trigger] t[i])
}

pub open spec fn all_hex_digits(t: Seq<char>) -> bool {
    forall|i: int| 0 <= i < t.len() ==> is_hex_digit_char(#[trigger] t[i])
}

/// The numeric value of one digit character (decimal or hexadecimal).
pub open spec fn digit_val(c: char) -> nat {
    if is_digit_char(c) {
        (c as nat - '0' as nat) as nat
    } else if 'a' <= c && c <= 'f' {
        (c as nat - 'a' as nat + 10) as nat
    } else if 'A' <= c && c <= 'F' {
        (c as nat - 'A' as nat + 10) as nat
    } else {
        0
    }
}

/// The value of a decimal digit string, most significant digit first.
pub open spec fn dec_val(t: Seq<char>) -> nat
    decreases t.len(),
{
    if t.len() == 0 {
        0
    } else {
        dec_val(t.drop_last()) * 10 + digit_val(t.last())
    }
}

/// The value of a hexadecimal digit string, most significant digit first.
pub open spec fn hex_val(t: Seq<char>) -> nat
    decreases t.len(),
{
    if t.len() == 0 {
        0
    } else {
        hex_val(t.drop_last()) * 16 + digit_val(t.last())
    }
}

// ---------------------------------------------------------------------
// Skipping whitespace and comments
// ---------------------------------------------------------------------

/// The first offset at or after `i` that starts a token: whitespace and
/// `#` line comments are passed over.
pub open spec fn spec_skip(s: Seq<char>, i: nat) -> nat
    decreases s.len() - i, 1nat,
{
    if i >= s.len() {
        s.len()
    } else if is_ws_char(s[i as int]) {
        spec_skip(s, i + 1)
    } else if s[i as int] == '#' {
        spec_skip_comment(s, i + 1)
    } else {
        i
    }
}

/// Skipping inside a `#` comment: everything up to and including the next
/// newline is passed over.
pub open spec fn spec_skip_comment(s: Seq<char>, i: nat) -> nat
    decreases s.len() - i, 0nat,
{
    if i >= s.len() {
        s.len()
    } else if s[i as int] == '\n' {
        spec_skip(s, i + 1)
    } else {
        spec_skip_comment(s, i + 1)
    }
}

/// Skipping never moves backwards and stays within the source.
pub proof fn lemma_skip_bounds(s: Seq<char>, i: nat)
    requires
        i <= s.len(),
    ensures
        i <= spec_skip(s, i) <= s.len(),
    decreases s.len() - i, 1nat,
{
    if i < s.len() {
        if is_ws_char(s[i as int]) {
            lemma_skip_bounds(s, i + 1);
        } else if s[i as int] == '#' {
            lemma_skip_comment_bounds(s, i + 1);
        }
    }
}

pub proof fn lemma_skip_comment_bounds(s: Seq<char>, i: nat)
    requires
        i <= s.len(),
    ensures
        i <= spec_skip_comment(s, i) <= s.len(),
    decreases s.len() - i, 0nat,
{
    if i < s.len() {
        if s[i as int] == '\n' {
            lemma_skip_bounds(s, i + 1);
        } else {
            lemma_skip_comment_bounds(s, i + 1);
        }
    }
}

/// Moves past whitespace and comments, executably.
fn skip_blanks(source: &str, from: usize, len: usize) -> (r: usize)
    requires
        len == source@.len(),
        from <= len,
    ensures
        r == spec_skip(source@, from as nat),
        from <= r <= len,
{
    let ghost s = source@;
    let mut i: usize = from;
    let mut in_comment: bool = false;
    loop
        invariant
            len == s.len(),
            source@ == s,
            from <= i <= len,
            if in_comment {
                spec_skip(s, from as nat) == spec_skip_comment(s, i as nat)
            } else {
                spec_skip(s, from as nat) == spec_skip(s, i as nat)
            },
        decreases len - i,
    {
        if i >= len {
            return len;
        }
        let c = source.get_char(i);
        if in_comment {
            if c == '\n' {
                in_comment = false;
            }
            i = i + 1;
        } else {
            if c == ' ' || c == '\t' || c == '\n' || c == '\u{c}' {
                i = i + 1;
            } else if c == '#' {
                in_comment = true;
                i = i + 1;
            } else {
                proof {
                    lemma_skip_bounds(s, i as nat);
                }
                return i;
            }
        }
    }
}


// ---------------------------------------------------------------------
// Token shapes
// ---------------------------------------------------------------------

/// Whether `t` ends with `suffix`.
pub open spec fn ends_with(t: Seq<char>, suffix: Seq<char>) -> bool {
    t.len() >= suffix.len() && t.skip(t.len() - suffix.len()) == suffix
}

/// The integer-literal suffixes and the types they select.
pub open spec fn int_suffix_kind(suffix: Seq<char>) -> Option<VarType> {
    if suffix == "i16"@ {
        Option::Some(VarType::I16)
    } else if suffix == "i32"@ {
        Option::Some(VarType::I32)
    } else if suffix == "i64"@ {
        Option::Some(VarType::I64)
    } else if suffix == "u16"@ {
        Option::Some(VarType::U16)
    } else if suffix == "u32"@ {
        Option::Some(VarType::U32)
    } else if suffix == "u64"@ {
        Option::Some(VarType::U64)
    } else if suffix == "i8"@ {
        Option::Some(VarType::I8)
    } else if suffix == "u8"@ {
        Option::Some(VarType::U8)
    } else {
        Option::None
    }
}

/// Splits a trailing integer-type suffix off a literal; without one the
/// default type is `i32`.
pub open spec fn int_split(t: Seq<char>) -> (Seq<char>, VarType) {
    if ends_with(t, "i16"@) {
        (t.take(t.len() - 3), VarType::I16)
    } else if ends_with(t, "i32"@) {
        (t.take(t.len() - 3), VarType::I32)
    } else if ends_with(t, "i64"@) {
        (t.take(t.len() - 3), VarType::I64)
    } else if ends_with(t, "u16"@) {
        (t.take(t.len() - 3), VarType::U16)
    } else if ends_with(t, "u32"@) {
        (t.take(t.len() - 3), VarType::U32)
    } else if ends_with(t, "u64"@) {
        (t.take(t.len() - 3), VarType::U64)
    } else if ends_with(t, "i8"@) {
        (t.take(t.len() - 2), VarType::I8)
    } else if ends_with(t, "u8"@) {
        (t.take(t.len() - 2), VarType::U8)
    } else {
        (t, VarType::I32)
    }
}

/// Decomposes an integer literal into sign, magnitude and selected type.
///
/// A leading sign admits only decimal digits and a signed suffix, and a
/// hexadecimal literal admits no sign, exactly as the token grammar has
/// it.
pub open spec fn int_token_shape(t: Seq<char>) -> Option<(bool, nat, VarType)> {
    if t.len() == 0 {
        Option::None
    } else if t[0] == '+' || t[0] == '-' {
        let (core, kind) = int_split(t.drop_first());
        if (kind == VarType::I8 || kind == VarType::I16 || kind == VarType::I32 || kind
            == VarType::I64) && core.len() > 0 && all_digits(core) {
            Option::Some((t[0] == '-', dec_val(core), kind))
        } else {
            Option::None
        }
    } else {
        let (core, kind) = int_split(t);
        if core.len() >= 3 && core[0] == '0' && core[1] == 'x' && all_hex_digits(core.skip(2)) {
            Option::Some((false, hex_val(core.skip(2)), kind))
        } else if core.len() > 0 && all_digits(core) {
            Option::Some((false, dec_val(core), kind))
        } else {
            Option::None
        }
    }
}

/// Whether a magnitude with the given sign fits the type.
pub open spec fn int_in_range(neg: bool, v: nat, kind: VarType) -> bool {
    match kind {
        VarType::I8 => if neg { v <= 128 } else { v <= 127 },
        VarType::I16 => if neg { v <= 32768 } else { v <= 32767 },
        VarType::I32 => if neg { v <= 2147483648 } else { v <= 2147483647 },
        VarType::I64 => if neg { v <= 9223372036854775808 } else { v <= 9223372036854775807 },
        VarType::U8 => !neg && v <= 255,
        VarType::U16 => !neg && v <= 65535,
        VarType::U32 => !neg && v <= 4294967295,
        VarType::U64 => !neg && v <= 18446744073709551615,
        _ => false,
    }
}

/// Whether `tok` carries the value `sv` at the type `kind`.
pub open spec fn int_value_matches(tok: Token, sv: int, kind: VarType) -> bool {
    match tok {
        Token::LiteralI8(x) => kind == VarType::I8 && x as int == sv,
        Token::LiteralI16(x) => kind == VarType::I16 && x as int == sv,
        Token::LiteralI32(x) => kind == VarType::I32 && x as int == sv,
        Token::LiteralI64(x) => kind == VarType::I64 && x as int == sv,
        Token::LiteralU8(x) => kind == VarType::U8 && x as int == sv,
        Token::LiteralU16(x) => kind == VarType::U16 && x as int == sv,
        Token::LiteralU32(x) => kind == VarType::U32 && x as int == sv,
        Token::LiteralU64(x) => kind == VarType::U64 && x as int == sv,
        _ => false,
    }
}

/// Whether an integer token is the correct reading of the literal `t`.
pub open spec fn int_token_ok(t: Seq<char>, tok: Token) -> bool {
    match int_token_shape(t) {
        Option::Some((neg, v, kind)) => {
            let sv: int = if neg { -(v as int) } else { v as int };
            int_in_range(neg, v, kind) && int_value_matches(tok, sv, kind)
        },
        Option::None => false,
    }
}

/// The core of a float literal: digits around a mandatory dot, with at
/// least one digit somewhere.
pub open spec fn float_core(t: Seq<char>) -> bool {
    exists|d: int|
        0 <= d < t.len() && #[trigger] t[d] == '.' && all_digits(t.take(d)) && all_digits(
            t.skip(d + 1),
        ) && (d > 0 || d + 1 < t.len())
}

/// The float type a literal selects, if it is float-shaped. Without a
/// suffix a dotted literal reads as `f32`.
pub open spec fn float_token_shape(t: Seq<char>) -> Option<VarType> {
    if ends_with(t, "f32"@) && {
        let core = t.take(t.len() - 3);
        float_core(core) || (core.len() > 0 && all_digits(core))
    } {
        Option::Some(VarType::F32)
    } else if ends_with(t, "f64"@) && {
        let core = t.take(t.len() - 3);
        float_core(core) || (core.len() > 0 && all_digits(core))
    } {
        Option::Some(VarType::F64)
    } else if float_core(t) {
        Option::Some(VarType::F32)
    } else {
        Option::None
    }
}

/// The twelve type names that may appear in source text.
pub open spec fn is_type_text(t: Seq<char>) -> bool {
    t == "str"@ || t == "i8"@ || t == "i16"@ || t == "i32"@ || t == "i64"@ || t == "u8"@ || t
        == "u16"@ || t == "u32"@ || t == "u64"@ || t == "f32"@ || t == "f64"@ || t == "bool"@
}

/// Whether `tok` is a correct reading of the source text between
/// `start` and `end`.
pub open spec fn token_matches(s: Seq<char>, start: nat, end: nat, tok: Token) -> bool {
    start < end <= s.len() && {
        let t = s.subrange(start as int, end as int);
        match tok {
            Token::Add => t == "+"@,
            Token::Sub => t == "-"@,
            Token::Mul => t == "*"@,
            Token::Div => t == "/"@,
            Token::Assign => t == "="@,
            Token::LessThan => t == "<"@,
            Token::GreaterThan => t == ">"@,
            Token::LessThanOrEqual => t == "<="@,
            Token::GreaterThanOrEqual => t == ">="@,
            Token::Equal => t == "=="@,
            Token::NotEqual => t == "!="@,
            Token::And => t == "&&"@,
            Token::Or => t == "||"@,
            Token::If => t == "if"@,
            Token::Goto => t == "goto"@,
            Token::Function => t == "func"@,
            Token::Begin => t == "begin"@,
            Token::End => t == "end"@,
            Token::Return => t == "return"@,
            Token::Load => t == "load"@,
            Token::Store => t == "store"@,
            Token::LiteralTrue => t == "true"@,
            Token::LiteralFalse => t == "false"@,
            Token::OpenBracket => t == "["@,
            Token::CloseBracket => t == "]"@,
            Token::OpenParen => t == "("@,
            Token::CloseParen => t == ")"@,
            Token::Colon => t == ":"@,
            Token::Type(name) => name@ == t && is_type_text(t),
            Token::Cast(name) => t.len() == name@.len() + 2 && t[0] == '(' && t.last() == ')'
                && t.subrange(1, t.len() - 1) == name@ && is_type_text(name@),
            Token::Identifier(name) => name@ == t && is_ident_text(t),
            Token::Dereference(name) => t.len() >= 2 && t[0] == '*' && name@ == t.drop_first()
                && is_ident_text(name@),
            Token::LiteralString(v) => v@ == t && t.len() >= 2 && t[0] == '"' && t.last() == '"'
                && (forall|i: int| 0 < i < t.len() - 1 ==> t[i] != '"'),
            Token::LiteralF32(v) => v@ == t && float_token_shape(t) == Option::Some(VarType::F32),
            Token::LiteralF64(v) => v@ == t && float_token_shape(t) == Option::Some(VarType::F64),
            Token::LiteralI8(_) => int_token_ok(t, tok),
            Token::LiteralI16(_) => int_token_ok(t, tok),
            Token::LiteralI32(_) => int_token_ok(t, tok),
            Token::LiteralI64(_) => int_token_ok(t, tok),
            Token::LiteralU8(_) => int_token_ok(t, tok),
            Token::LiteralU16(_) => int_token_ok(t, tok),
            Token::LiteralU32(_) => int_token_ok(t, tok),
            Token::LiteralU64(_) => int_token_ok(t, tok),
        }
    }
}

/// The token spans are in order, lie inside the source, and between one
/// token's end and the next token's start there is nothing but skipped
/// whitespace and comments; likewise before the first token and after
/// the last.
pub open spec fn spans_chain(s: Seq<char>, toks: Seq<SpannedToken>) -> bool {
    &&& (forall|i: int|
        0 <= i < toks.len() ==> (#[trigger] toks[i]).start < toks[i].end <= s.len())
    &&& (forall|i: int|
        0 <= i < toks.len() - 1 ==> (#[trigger] toks[i + 1]).start == spec_skip(
            s,
            toks[i].end as nat,
        ))
    &&& (toks.len() > 0 ==> toks[0].start == spec_skip(s, 0))
    &&& (toks.len() > 0 ==> spec_skip(s, toks.last().end as nat) == s.len())
    &&& (toks.len() == 0 ==> spec_skip(s, 0) == s.len())
}

/// A token ends at a longest-match boundary: a word never stops in the
/// middle of an identifier-character run (so `goto` cannot be read as
/// `go` then `to`), a dereference consumes its whole name, and `=`, `<`
/// and `>` are never read alone when an `=` follows (so `==` cannot be
/// read as two tokens).
pub open spec fn token_boundary(s: Seq<char>, st: SpannedToken) -> bool {
    st.end == s.len() || {
        let c = s[st.end as int];
        let t = s.subrange(st.start as int, st.end as int);
        &&& (is_ident_text(t) ==> !is_ident_char(c))
        &&& ((t == "="@ || t == "<"@ || t == ">"@) ==> c != '=')
        &&& (st.token is Dereference ==> !is_ident_char(c))
    }
}

/// Whether some token can begin at offset `i`.
pub open spec fn token_start_here(s: Seq<char>, i: int) -> bool {
    let c = s[i];
    ||| is_ident_start_char(c)
    ||| is_digit_char(c)
    ||| c == '+'
    ||| c == '-'
    ||| c == '/'
    ||| c == '*'
    ||| c == '"'
    ||| c == '('
    ||| c == ')'
    ||| c == '['
    ||| c == ']'
    ||| c == ':'
    ||| c == '<'
    ||| c == '>'
    ||| c == '='
    ||| (c == '.' && i + 1 < s.len() && is_digit_char(s[i + 1]))
    ||| (c == '!' && i + 1 < s.len() && s[i + 1] == '=')
    ||| (c == '&' && i + 1 < s.len() && s[i + 1] == '&')
    ||| (c == '|' && i + 1 < s.len() && s[i + 1] == '|')
}

/// A reported lexical error is genuinely invalid text: an unterminated
/// string literal, an integer numeral whose value does not fit its
/// kind, a character outside ASCII, or a character at which no token
/// can begin.
pub open spec fn lex_error_genuine(s: Seq<char>, e: LexErrorItem) -> bool {
    &&& e.span.start < e.span.end <= s.len()
    &&& match e.kind {
        LexingError::NonAsciiCharacter => s[e.span.start as int] as u32 >= 128,
        LexingError::InvalidToken => (s[e.span.start as int] == '"' && e.span.end == s.len() && (
        forall|k: int| e.span.start < k < s.len() ==> s[k] != '"')) || !token_start_here(
            s,
            e.span.start as int,
        ),
        LexingError::InvalidInteger(m) => m@ == "overflow error"@ && match int_token_shape(
            s.subrange(e.span.start as int, e.span.end as int),
        ) {
            Option::Some(q) => !int_in_range(q.0, q.1, q.2),
            Option::None => false,
        },
    }
}


// ---------------------------------------------------------------------
// Scanning helpers
// ---------------------------------------------------------------------

/// Whether the text `pat` occurs at offset `pos`.
fn has_at(source: &str, len: usize, pos: usize, pat: &str) -> (r: bool)
    requires
        len == source@.len(),
        pos <= len,
    ensures
        r == (pos + pat@.len() <= len && source@.subrange(
            pos as int,
            pos + pat@.len(),
        ) == pat@),
{
    let plen = pat.unicode_len();
    if plen > len - pos {
        return false;
    }
    let mut k: usize = 0;
    while k < plen
        invariant
            len == source@.len(),
            plen == pat@.len(),
            pos + plen <= len,
            k <= plen,
            forall|j: int| 0 <= j < k ==> source@[pos + j] == pat@[j],
        decreases plen - k,
    {
        if source.get_char(pos + k) != pat.get_char(k) {
            proof {
                if source@.subrange(pos as int, pos + plen) == pat@ {
                    assert(source@.subrange(pos as int, pos + plen)[k as int] == source@[pos + k]);
                }
            }
            return false;
        }
        k = k + 1;
    }
    proof {
        assert(source@.subrange(pos as int, pos + plen) =~= pat@);
    }
    true
}

/// The end of the run of decimal digits starting at `i`.
pub open spec fn digits_end(s: Seq<char>, i: nat) -> nat
    decreases s.len() - i,
{
    if i < s.len() && is_digit_char(s[i as int]) {
        digits_end(s, i + 1)
    } else {
        i
    }
}

/// The end of the run of decimal digits starting at `from`.
fn scan_digits(source: &str, len: usize, from: usize) -> (r: usize)
    requires
        len == source@.len(),
        from <= len,
    ensures
        from <= r <= len,
        all_digits(source@.subrange(from as int, r as int)),
        r < len ==> !is_digit_char(source@[r as int]),
        r as nat == digits_end(source@, from as nat),
{
    let mut j: usize = from;
    loop
        invariant
            len == source@.len(),
            from <= j <= len,
            forall|k: int| from <= k < j ==> is_digit_char(#[trigger] source@[k]),
            digits_end(source@, from as nat) == digits_end(source@, j as nat),
        decreases len - j,
    {
        proof {
            assert forall|k: int| 0 <= k < j - from implies is_digit_char(
                #[trigger] source@.subrange(from as int, j as int)[k],
            ) by {
                assert(source@.subrange(from as int, j as int)[k] == source@[from + k]);
            }
        }
        if j >= len {
            return j;
        }
        let c = source.get_char(j);
        if !('0' <= c && c <= '9') {
            return j;
        }
        j = j + 1;
    }
}

/// The end of the run of hexadecimal digits starting at `from`.
fn scan_hex_digits(source: &str, len: usize, from: usize) -> (r: usize)
    requires
        len == source@.len(),
        from <= len,
    ensures
        from <= r <= len,
        all_hex_digits(source@.subrange(from as int, r as int)),
        r < len ==> !is_hex_digit_char(source@[r as int]),
{
    let mut j: usize = from;
    loop
        invariant
            len == source@.len(),
            from <= j <= len,
            forall|k: int| from <= k < j ==> is_hex_digit_char(#[trigger] source@[k]),
        decreases len - j,
    {
        proof {
            assert forall|k: int| 0 <= k < j - from implies is_hex_digit_char(
                #[trigger] source@.subrange(from as int, j as int)[k],
            ) by {
                assert(source@.subrange(from as int, j as int)[k] == source@[from + k]);
            }
        }
        if j >= len {
            return j;
        }
        let c = source.get_char(j);
        if !(('0' <= c && c <= '9') || ('a' <= c && c <= 'f') || ('A' <= c && c <= 'F')) {
            return j;
        }
        j = j + 1;
    }
}

/// The end of the run of identifier characters starting at `from`.
fn scan_ident_chars(source: &str, len: usize, from: usize) -> (r: usize)
    requires
        len == source@.len(),
        from <= len,
    ensures
        from <= r <= len,
        forall|k: int| from <= k < r ==> is_ident_char(#[trigger] source@[k]),
        r < len ==> !is_ident_char(source@[r as int]),
{
    let mut j: usize = from;
    loop
        invariant
            len == source@.len(),
            from <= j <= len,
            forall|k: int| from <= k < j ==> is_ident_char(#[trigger] source@[k]),
        decreases len - j,
    {
        if j >= len {
            return j;
        }
        let c = source.get_char(j);
        if !(('a' <= c && c <= 'z') || ('A' <= c && c <= 'Z') || c == '_' || ('0' <= c && c
            <= '9')) {
            return j;
        }
        j = j + 1;
    }
}

/// Reads the decimal value of `source[from..to)`; `over` reports a value
/// beyond `u64`.
fn read_dec(source: &str, from: usize, to: usize) -> (r: (u64, bool))
    requires
        to <= source@.len(),
        from <= to,
        all_digits(source@.subrange(from as int, to as int)),
    ensures
        !r.1 ==> r.0 as nat == dec_val(source@.subrange(from as int, to as int)),
        r.1 <==> dec_val(source@.subrange(from as int, to as int)) > u64::MAX,
{
    let ghost whole = source@.subrange(from as int, to as int);
    let mut acc: u128 = 0;
    let mut over: bool = false;
    let mut k: usize = from;
    while k < to
        invariant
            to <= source@.len(),
            from <= k <= to,
            all_digits(whole),
            whole == source@.subrange(from as int, to as int),
            !over ==> acc as nat == dec_val(source@.subrange(from as int, k as int)) && acc
                <= u64::MAX,
            over ==> dec_val(source@.subrange(from as int, k as int)) > u64::MAX,
        decreases to - k,
    {
        let c = source.get_char(k);
        proof {
            assert(whole[k - from] == source@[k as int]);
        }
        let d: u128 = ((c as u32) - 48) as u128;
        let ghost pre = source@.subrange(from as int, k as int);
        let ghost cur = source@.subrange(from as int, k + 1 as int);
        proof {
            assert(cur.drop_last() =~= pre);
            assert(cur.last() == source@[k as int]);
            assert(dec_val(cur) == dec_val(pre) * 10 + digit_val(source@[k as int]));
            assert(digit_val(source@[k as int]) == d as nat);
        }
        if over {
            proof {
                assert(dec_val(cur) >= dec_val(pre) * 10);
                assert(dec_val(pre) * 10 > u64::MAX);
            }
        } else {
            acc = acc * 10 + d;
            if acc > u64::MAX as u128 {
                over = true;
            }
        }
        k = k + 1;
    }
    ((acc as u64), over)
}

/// Reads the hexadecimal value of `source[from..to)`.
fn read_hex(source: &str, from: usize, to: usize) -> (r: (u64, bool))
    requires
        to <= source@.len(),
        from <= to,
        all_hex_digits(source@.subrange(from as int, to as int)),
    ensures
        !r.1 ==> r.0 as nat == hex_val(source@.subrange(from as int, to as int)),
        r.1 <==> hex_val(source@.subrange(from as int, to as int)) > u64::MAX,
{
    let ghost whole = source@.subrange(from as int, to as int);
    let mut acc: u128 = 0;
    let mut over: bool = false;
    let mut k: usize = from;
    while k < to
        invariant
            to <= source@.len(),
            from <= k <= to,
            all_hex_digits(whole),
            whole == source@.subrange(from as int, to as int),
            !over ==> acc as nat == hex_val(source@.subrange(from as int, k as int)) && acc
                <= u64::MAX,
            over ==> hex_val(source@.subrange(from as int, k as int)) > u64::MAX,
        decreases to - k,
    {
        let c = source.get_char(k);
        proof {
            assert(whole[k - from] == source@[k as int]);
        }
        let d: u128 = if '0' <= c && c <= '9' {
            ((c as u32) - 48) as u128
        } else if 'a' <= c && c <= 'f' {
            ((c as u32) - 97 + 10) as u128
        } else {
            ((c as u32) - 65 + 10) as u128
        };
        let ghost pre = source@.subrange(from as int, k as int);
        let ghost cur = source@.subrange(from as int, k + 1 as int);
        proof {
            assert(cur.drop_last() =~= pre);
            assert(cur.last() == source@[k as int]);
            assert(hex_val(cur) == hex_val(pre) * 16 + digit_val(source@[k as int]));
            assert(digit_val(source@[k as int]) == d as nat);
        }
        if over {
            proof {
                assert(hex_val(cur) >= hex_val(pre) * 16);
                assert(hex_val(pre) * 16 > u64::MAX);
            }
        } else {
            acc = acc * 16 + d;
            if acc > u64::MAX as u128 {
                over = true;
            }
        }
        k = k + 1;
    }
    ((acc as u64), over)
}

// ---------------------------------------------------------------------
// Suffix-split lemmas
// ---------------------------------------------------------------------

/// `t` cannot end with `suffix` if they disagree at one position.
proof fn lemma_not_ends(t: Seq<char>, suffix: Seq<char>, k: int)
    requires
        0 <= k < suffix.len(),
        suffix.len() <= t.len() ==> t[t.len() - suffix.len() + k] != suffix[k],
    ensures
        !ends_with(t, suffix),
{
    if suffix.len() <= t.len() && ends_with(t, suffix) {
        assert(t.skip(t.len() - suffix.len())[k] == t[t.len() - suffix.len() + k]);
    }
}

/// Characters that can appear in the body of an integer literal (hex
/// digits, plus the `x` of a hex prefix).
pub open spec fn is_int_body_char(c: char) -> bool {
    is_hex_digit_char(c) || c == 'x'
}

/// A literal body with no trailing type suffix splits as itself, with
/// the default type `i32`.
proof fn lemma_int_split_plain(t: Seq<char>)
    requires
        t.len() > 0,
        forall|i: int| 0 <= i < t.len() ==> is_int_body_char(#[trigger] t[i]),
    ensures
        int_split(t) == (t, VarType::I32),
{
    reveal_strlit("i16");
    reveal_strlit("i32");
    reveal_strlit("i64");
    reveal_strlit("u16");
    reveal_strlit("u32");
    reveal_strlit("u64");
    reveal_strlit("i8");
    reveal_strlit("u8");
    lemma_not_ends(t, "i16"@, 0);
    lemma_not_ends(t, "i32"@, 0);
    lemma_not_ends(t, "i64"@, 0);
    lemma_not_ends(t, "u16"@, 0);
    lemma_not_ends(t, "u32"@, 0);
    lemma_not_ends(t, "u64"@, 0);
    lemma_not_ends(t, "i8"@, 0);
    lemma_not_ends(t, "u8"@, 0);
}

/// A literal body followed by a type suffix splits into exactly those
/// two parts.
proof fn lemma_int_split_suffixed(t: Seq<char>, core: Seq<char>, suffix: Seq<char>, kind: VarType)
    requires
        t == core + suffix,
        core.len() > 0,
        forall|i: int| 0 <= i < core.len() ==> is_int_body_char(#[trigger] core[i]),
        int_suffix_kind(suffix) == Option::Some(kind),
    ensures
        int_split(t) == (core, kind),
{
    reveal_strlit("i16");
    reveal_strlit("i32");
    reveal_strlit("i64");
    reveal_strlit("u16");
    reveal_strlit("u32");
    reveal_strlit("u64");
    reveal_strlit("i8");
    reveal_strlit("u8");
    assert(t.len() == core.len() + suffix.len());
    assert(t.skip(core.len() as int) =~= suffix);
    assert(t.take(core.len() as int) =~= core);
    assert(forall|i: int| 0 <= i < suffix.len() ==> t[core.len() + i] == suffix[i]);
    if suffix == "i16"@ {
        assert(ends_with(t, "i16"@));
    } else if suffix == "i32"@ {
        lemma_not_ends(t, "i16"@, 1);
        assert(ends_with(t, "i32"@));
    } else if suffix == "i64"@ {
        lemma_not_ends(t, "i16"@, 1);
        lemma_not_ends(t, "i32"@, 1);
        assert(ends_with(t, "i64"@));
    } else if suffix == "u16"@ {
        lemma_not_ends(t, "i16"@, 0);
        lemma_not_ends(t, "i32"@, 0);
        lemma_not_ends(t, "i64"@, 0);
        assert(ends_with(t, "u16"@));
    } else if suffix == "u32"@ {
        lemma_not_ends(t, "i16"@, 0);
        lemma_not_ends(t, "i32"@, 0);
        lemma_not_ends(t, "i64"@, 0);
        lemma_not_ends(t, "u16"@, 1);
        assert(ends_with(t, "u32"@));
    } else if suffix == "u64"@ {
        lemma_not_ends(t, "i16"@, 0);
        lemma_not_ends(t, "i32"@, 0);
        lemma_not_ends(t, "i64"@, 0);
        lemma_not_ends(t, "u16"@, 1);
        lemma_not_ends(t, "u32"@, 1);
        assert(ends_with(t, "u64"@));
    } else if suffix == "i8"@ {
        lemma_not_ends(t, "i16"@, 2);
        lemma_not_ends(t, "i32"@, 2);
        lemma_not_ends(t, "i64"@, 2);
        lemma_not_ends(t, "u16"@, 2);
        lemma_not_ends(t, "u32"@, 2);
        lemma_not_ends(t, "u64"@, 2);
        assert(ends_with(t, "i8"@));
    } else {
        assert(suffix == "u8"@);
        lemma_not_ends(t, "i16"@, 2);
        lemma_not_ends(t, "i32"@, 2);
        lemma_not_ends(t, "i64"@, 2);
        lemma_not_ends(t, "u16"@, 2);
        lemma_not_ends(t, "u32"@, 2);
        lemma_not_ends(t, "u64"@, 2);
        lemma_not_ends(t, "i8"@, 0);
        assert(ends_with(t, "u8"@));
    }
}


// ---------------------------------------------------------------------
// Number scanning
// ---------------------------------------------------------------------

/// The trailing type suffix at `pos`, if any. After a signed literal
/// only the signed suffixes apply; without a suffix the default type is
/// `i32`.
fn int_suffix_at(source: &str, len: usize, pos: usize, signed: bool) -> (r: (usize, VarType))
    requires
        len == source@.len(),
        pos <= len,
    ensures
        r.0 <= 3,
        pos + r.0 <= len,
        r.0 == 0 ==> r.1 == VarType::I32,
        r.0 != 0 ==> int_suffix_kind(source@.subrange(pos as int, pos + r.0)) == Option::Some(
            r.1,
        ),
        signed ==> (r.1 == VarType::I8 || r.1 == VarType::I16 || r.1 == VarType::I32 || r.1
            == VarType::I64),
{
    proof {
        reveal_strlit("i16");
        reveal_strlit("i32");
        reveal_strlit("i64");
        reveal_strlit("u16");
        reveal_strlit("u32");
        reveal_strlit("u64");
        reveal_strlit("i8");
        reveal_strlit("u8");
    }
    if has_at(source, len, pos, "i16") {
        (3, VarType::I16)
    } else if has_at(source, len, pos, "i32") {
        (3, VarType::I32)
    } else if has_at(source, len, pos, "i64") {
        (3, VarType::I64)
    } else if has_at(source, len, pos, "i8") {
        (2, VarType::I8)
    } else if !signed && has_at(source, len, pos, "u16") {
        (3, VarType::U16)
    } else if !signed && has_at(source, len, pos, "u32") {
        (3, VarType::U32)
    } else if !signed && has_at(source, len, pos, "u64") {
        (3, VarType::U64)
    } else if !signed && has_at(source, len, pos, "u8") {
        (2, VarType::U8)
    } else {
        (0, VarType::I32)
    }
}

/// Builds the integer token for a magnitude, sign and type, or reports
/// that the value does not fit.
fn make_int_token(neg: bool, mag: u64, over: bool, kind: VarType) -> (r: Option<Token>)
    requires
        kind == VarType::I8 || kind == VarType::I16 || kind == VarType::I32 || kind
            == VarType::I64 || kind == VarType::U8 || kind == VarType::U16 || kind == VarType::U32
            || kind == VarType::U64,
    ensures
        match r {
            Option::Some(tok) => !over && int_in_range(neg, mag as nat, kind)
                && int_value_matches(
                tok,
                if neg {
                    -(mag as int)
                } else {
                    mag as int
                },
                kind,
            ),
            Option::None => over || !int_in_range(neg, mag as nat, kind),
        },
{
    if over {
        return Option::None;
    }
    let sv: i128 = if neg {
        -(mag as i128)
    } else {
        mag as i128
    };
    match kind {
        VarType::I8 => if -128 <= sv && sv <= 127 {
            Option::Some(Token::LiteralI8(sv as i8))
        } else {
            Option::None
        },
        VarType::I16 => if -32768 <= sv && sv <= 32767 {
            Option::Some(Token::LiteralI16(sv as i16))
        } else {
            Option::None
        },
        VarType::I32 => if -2147483648 <= sv && sv <= 2147483647 {
            Option::Some(Token::LiteralI32(sv as i32))
        } else {
            Option::None
        },
        VarType::I64 => if -9223372036854775808 <= sv && sv <= 9223372036854775807 {
            Option::Some(Token::LiteralI64(sv as i64))
        } else {
            Option::None
        },
        VarType::U8 => if !neg && mag <= 255 {
            Option::Some(Token::LiteralU8(mag as u8))
        } else {
            Option::None
        },
        VarType::U16 => if !neg && mag <= 65535 {
            Option::Some(Token::LiteralU16(mag as u16))
        } else {
            Option::None
        },
        VarType::U32 => if !neg && mag <= 4294967295 {
            Option::Some(Token::LiteralU32(mag as u32))
        } else {
            Option::None
        },
        _ => if !neg {
            Option::Some(Token::LiteralU64(mag))
        } else {
            Option::None
        },
    }
}

/// Scans a float literal starting at `i`: digits around a dot, or digits
/// directly followed by `f32`/`f64`.
#[verifier::rlimit(60)]
fn scan_float(source: &str, len: usize, i: usize) -> (r: (Result<SpannedToken, LexErrorItem>,
    usize,
))
    requires
        len == source@.len(),
        i < len,
        ({
            let s = source@;
            ||| (s[i as int] == '.' && i + 1 < len && is_digit_char(s[i + 1]))
            ||| (is_digit_char(s[i as int]) && {
                let d = digits_end(s, i as nat);
                d < s.len() && (s[d as int] == '.' || (d + 3 <= s.len() && (s.subrange(
                    d as int,
                    d as int + 3,
                ) == "f32"@ || s.subrange(d as int, d as int + 3) == "f64"@)))
            })
        }),
    ensures
        i < r.1 <= len,
        match r.0 {
            Result::Ok(st) => st.start == i && st.end == r.1 && token_matches(
                source@,
                i as nat,
                r.1 as nat,
                st.token,
            ),
            Result::Err(_) => false,
        },
{
    let ghost s = source@;
    proof {
        reveal_strlit("f32");
        reveal_strlit("f64");
    }
    let d1 = scan_digits(source, len, i);
    if d1 < len && source.get_char(d1) == '.' {
        let frac_end = scan_digits(source, len, d1 + 1);
        let (end, is64) = if has_at(source, len, frac_end, "f32") {
            (frac_end + 3, false)
        } else if has_at(source, len, frac_end, "f64") {
            (frac_end + 3, true)
        } else {
            (frac_end, false)
        };
        let ghost core = s.subrange(i as int, frac_end as int);
        let ghost t = s.subrange(i as int, end as int);
        proof {
            // the dot splits the core into two digit runs
            assert(core[d1 - i] == '.');
            assert(core.take(d1 - i) =~= s.subrange(i as int, d1 as int));
            assert(core.skip(d1 - i + 1) =~= s.subrange(d1 + 1 as int, frac_end as int));
            if i == d1 {
                assert(is_digit_char(s[i + 1]));
                assert(frac_end > d1 + 1);
            }
            assert(float_core(core));
            assert forall|k: int| 0 <= k < core.len() implies is_digit_char(#[trigger] core[k])
                || core[k] == '.' by {
                assert(core[k] == s[i + k]);
                if i + k < d1 {
                    assert(s.subrange(i as int, d1 as int)[k] == s[i + k]);
                } else if i + k > d1 {
                    assert(s.subrange(d1 + 1 as int, frac_end as int)[i + k - d1 - 1] == s[i
                        + k]);
                }
            }
            if end == frac_end {
                assert(t == core);
                if t.len() >= 3 {
                    assert(is_digit_char(t[t.len() - 3]) || t[t.len() - 3] == '.');
                    lemma_not_ends(t, "f32"@, 0);
                    lemma_not_ends(t, "f64"@, 0);
                }
                assert(float_token_shape(t) == Option::Some(VarType::F32));
            } else {
                assert(t.take(core.len() as int) =~= core);
                assert(t.skip(core.len() as int) =~= s.subrange(frac_end as int, end as int));
                if is64 {
                    assert(t[t.len() - 2] == t.skip(core.len() as int)[1]);
                    lemma_not_ends(t, "f32"@, 1);
                    assert(ends_with(t, "f64"@));
                    assert(float_token_shape(t) == Option::Some(VarType::F64));
                } else {
                    assert(ends_with(t, "f32"@));
                    assert(float_token_shape(t) == Option::Some(VarType::F32));
                }
            }
        }
        let text = source.substring_char(i, end).to_owned();
        let tok = if is64 {
            Token::LiteralF64(text)
        } else {
            Token::LiteralF32(text)
        };
        (Result::Ok(SpannedToken { start: i, token: tok, end }), end)
    } else {
        // digits directly followed by a float suffix
        let (end, is64) = if has_at(source, len, d1, "f32") {
            (d1 + 3, false)
        } else {
            (d1 + 3, true)
        };
        let ghost core = s.subrange(i as int, d1 as int);
        let ghost t = s.subrange(i as int, end as int);
        proof {
            assert(is_digit_char(s[i as int]));
            assert(core.len() > 0 && all_digits(core));
            assert(end <= len) by {
                assert(d1 + 3 <= s.len());
            }
            assert(t.take(core.len() as int) =~= core);
            assert(t.skip(core.len() as int) =~= s.subrange(d1 as int, end as int));
            if is64 {
                assert(s.subrange(d1 as int, d1 + 3) == "f64"@);
                assert(t[t.len() - 2] == t.skip(core.len() as int)[1]);
                lemma_not_ends(t, "f32"@, 1);
                assert(ends_with(t, "f64"@));
                assert(float_token_shape(t) == Option::Some(VarType::F64));
            } else {
                assert(ends_with(t, "f32"@));
                assert(float_token_shape(t) == Option::Some(VarType::F32));
            }
        }
        let text = source.substring_char(i, end).to_owned();
        let tok = if is64 {
            Token::LiteralF64(text)
        } else {
            Token::LiteralF32(text)
        };
        (Result::Ok(SpannedToken { start: i, token: tok, end }), end)
    }
}

/// Scans a hexadecimal integer literal `0x...` starting at `i`.
#[verifier::rlimit(60)]
fn scan_hex_literal(source: &str, len: usize, i: usize) -> (r: (Result<SpannedToken, LexErrorItem>,
    usize,
))
    requires
        len == source@.len(),
        i + 2 < len,
        source@[i as int] == '0',
        source@[i + 1] == 'x',
        is_hex_digit_char(source@[i + 2]),
    ensures
        i < r.1 <= len,
        match r.0 {
            Result::Ok(st) => st.start == i && st.end == r.1 && token_matches(
                source@,
                i as nat,
                r.1 as nat,
                st.token,
            ),
            Result::Err(e) => e.kind is InvalidInteger && e.span.start == i && e.span.end == r.1
                && lex_error_genuine(source@, e),
        },
{
    let ghost s = source@;
    let hend = scan_hex_digits(source, len, i + 2);
    proof {
        if hend == i + 2 {
            assert(is_hex_digit_char(s[i + 2]));
        }
    }
    let (suflen, kind) = int_suffix_at(source, len, hend, false);
    let end = hend + suflen;
    let (mag, over) = read_hex(source, i + 2, hend);
    let ghost t = s.subrange(i as int, end as int);
    let ghost core = s.subrange(i as int, hend as int);
    proof {
        assert(forall|k: int| 2 <= k < core.len() ==> is_hex_digit_char(#[trigger] core[k])) by {
            assert(forall|k: int|
                2 <= k < core.len() ==> core[k] == s.subrange(i + 2, hend as int)[k - 2]);
        }
        assert(core[0] == '0' && core[1] == 'x');
        assert(forall|k: int| 0 <= k < core.len() ==> is_int_body_char(#[trigger] core[k]));
        if suflen == 0 {
            assert(t == core);
            lemma_int_split_plain(t);
        } else {
            assert(t =~= core + s.subrange(hend as int, end as int));
            lemma_int_split_suffixed(t, core, s.subrange(hend as int, end as int), kind);
        }
        assert(t.take(core.len() as int) =~= core);
        assert(core.skip(2) =~= s.subrange(i + 2, hend as int));
        assert(int_token_shape(t) == Option::Some(
            (false, hex_val(s.subrange(i + 2, hend as int)), kind),
        ));
    }
    match make_int_token(false, mag, over, kind) {
        Option::Some(tok) => (Result::Ok(SpannedToken { start: i, token: tok, end }), end),
        Option::None => (
            (
                Result::Err(
                    LexErrorItem {
                        kind: LexingError::InvalidInteger(String::from_str("overflow error")),
                        span: Span { start: i, end },
                    },
                ),
                end,
            )
        ),
    }
}

/// Scans a decimal integer literal (possibly signed, possibly suffixed)
/// starting at `i`, handing float-shaped text to `scan_float`.
#[verifier::rlimit(60)]
fn scan_dec_literal(source: &str, len: usize, i: usize, signed: bool, neg: bool) -> (r: (Result<
    SpannedToken,
    LexErrorItem,
>, usize))
    requires
        len == source@.len(),
        i < len,
        signed ==> (source@[i as int] == '+' || source@[i as int] == '-') && i + 1 < len
            && is_digit_char(source@[i + 1]),
        signed ==> neg == (source@[i as int] == '-'),
        !signed ==> is_digit_char(source@[i as int]) && neg == false,
    ensures
        i < r.1 <= len,
        match r.0 {
            Result::Ok(st) => st.start == i && st.end == r.1 && token_matches(
                source@,
                i as nat,
                r.1 as nat,
                st.token,
            ),
            Result::Err(e) => e.kind is InvalidInteger && e.span.start == i && e.span.end == r.1
                && lex_error_genuine(source@, e),
        },
{
    let ghost s = source@;
    proof {
        reveal_strlit("f32");
        reveal_strlit("f64");
    }
    let dstart = if signed {
        i + 1
    } else {
        i
    };
    let dend = scan_digits(source, len, dstart);
    proof {
        if dend == dstart {
            assert(is_digit_char(s[dstart as int]));
        }
    }
    if !signed {
        if dend < len && source.get_char(dend) == '.' {
            return scan_float(source, len, i);
        }
        if has_at(source, len, dend, "f32") || has_at(source, len, dend, "f64") {
            proof {
                assert(digits_end(s, i as nat) == dend);
            }
            return scan_float(source, len, i);
        }
    }
    let (suflen, kind) = int_suffix_at(source, len, dend, signed);
    let end = dend + suflen;
    let (mag, over) = read_dec(source, dstart, dend);
    let ghost t = s.subrange(i as int, end as int);
    let ghost digits = s.subrange(dstart as int, dend as int);
    proof {
        assert(digits.len() > 0 && all_digits(digits));
        assert(forall|k: int| 0 <= k < digits.len() ==> is_int_body_char(#[trigger] digits[k]));
        if signed {
            let rest = t.drop_first();
            assert(rest =~= s.subrange(dstart as int, end as int));
            if suflen == 0 {
                assert(rest == digits);
                lemma_int_split_plain(rest);
            } else {
                assert(rest =~= digits + s.subrange(dend as int, end as int));
                lemma_int_split_suffixed(rest, digits, s.subrange(dend as int, end as int), kind);
            }
            assert(t[0] == s[i as int]);
            assert(int_token_shape(t) == Option::Some((neg, dec_val(digits), kind)));
        } else {
            if suflen == 0 {
                assert(t == digits);
                lemma_int_split_plain(t);
            } else {
                assert(t =~= digits + s.subrange(dend as int, end as int));
                lemma_int_split_suffixed(t, digits, s.subrange(dend as int, end as int), kind);
            }
            assert(t[0] == s[i as int] && is_digit_char(t[0]));
            assert(int_token_shape(t) == Option::Some((false, dec_val(digits), kind)));
        }
    }
    match make_int_token(neg, mag, over, kind) {
        Option::Some(tok) => (Result::Ok(SpannedToken { start: i, token: tok, end }), end),
        Option::None => (
            (
                Result::Err(
                    LexErrorItem {
                        kind: LexingError::InvalidInteger(String::from_str("overflow error")),
                        span: Span { start: i, end },
                    },
                ),
                end,
            )
        ),
    }
}

/// Scans an integer or float literal starting at `i` (a digit, a signed
/// digit, or a dot followed by a digit).
fn scan_number(source: &str, len: usize, i: usize) -> (r: (Result<SpannedToken, LexErrorItem>,
    usize,
))
    requires
        len == source@.len(),
        i < len,
        ({
            let s = source@;
            ||| is_digit_char(s[i as int])
            ||| ((s[i as int] == '+' || s[i as int] == '-') && i + 1 < len && is_digit_char(
                s[i + 1],
            ))
            ||| (s[i as int] == '.' && i + 1 < len && is_digit_char(s[i + 1]))
        }),
    ensures
        i < r.1 <= len,
        match r.0 {
            Result::Ok(st) => st.start == i && st.end == r.1 && token_matches(
                source@,
                i as nat,
                r.1 as nat,
                st.token,
            ),
            Result::Err(e) => e.kind is InvalidInteger && e.span.start == i && e.span.end == r.1
                && lex_error_genuine(source@, e),
        },
{
    let c0 = source.get_char(i);
    if c0 == '.' {
        return scan_float(source, len, i);
    }
    let signed = c0 == '+' || c0 == '-';
    if !signed && c0 == '0' && len - i > 2 && source.get_char(i + 1) == 'x' {
        let c2 = source.get_char(i + 2);
        if ('0' <= c2 && c2 <= '9') || ('a' <= c2 && c2 <= 'f') || ('A' <= c2 && c2 <= 'F') {
            return scan_hex_literal(source, len, i);
        }
    }
    scan_dec_literal(source, len, i, signed, c0 == '-')
}


// ---------------------------------------------------------------------
// Token dispatch
// ---------------------------------------------------------------------

/// A span that does not start with a comparison character is none of
/// `=`, `<`, `>`.
proof fn lemma_not_cmp_text(s: Seq<char>, a: int, b: int)
    requires
        0 <= a < b <= s.len(),
        s[a] != '=' && s[a] != '<' && s[a] != '>',
    ensures
        s.subrange(a, b) != "="@ && s.subrange(a, b) != "<"@ && s.subrange(a, b) != ">"@,
{
    reveal_strlit("=");
    reveal_strlit("<");
    reveal_strlit(">");
    assert(s.subrange(a, b)[0] == s[a]);
}

/// A two-character span is none of the one-character comparisons.
proof fn lemma_lit2_not_cmp(s: Seq<char>, a: int)
    requires
        0 <= a,
        a + 2 <= s.len(),
    ensures
        s.subrange(a, a + 2) != "="@ && s.subrange(a, a + 2) != "<"@ && s.subrange(a, a + 2)
            != ">"@,
{
    reveal_strlit("=");
    reveal_strlit("<");
    reveal_strlit(">");
    assert(s.subrange(a, a + 2).len() == 2);
}

/// One-character literals read back as their own text.
proof fn lemma_lit1(s: Seq<char>, i: int, lit: Seq<char>)
    requires
        0 <= i < s.len(),
        lit.len() == 1,
        s[i] == lit[0],
    ensures
        s.subrange(i, i + 1) == lit,
{
    assert(s.subrange(i, i + 1) =~= lit);
}

/// Two-character literals read back as their own text.
proof fn lemma_lit2(s: Seq<char>, i: int, lit: Seq<char>)
    requires
        0 <= i,
        i + 2 <= s.len(),
        lit.len() == 2,
        s[i] == lit[0],
        s[i + 1] == lit[1],
    ensures
        s.subrange(i, i + 2) == lit,
{
    assert(s.subrange(i, i + 2) =~= lit);
}

/// Whether `w` spells one of the twelve type names.
fn is_type_name(w: &str) -> (b: bool)
    ensures
        b == is_type_text(w@),
{
    str_eq(w, "str") || str_eq(w, "i8") || str_eq(w, "i16") || str_eq(w, "i32") || str_eq(
        w,
        "i64",
    ) || str_eq(w, "u8") || str_eq(w, "u16") || str_eq(w, "u32") || str_eq(w, "u64") || str_eq(
        w,
        "f32",
    ) || str_eq(w, "f64") || str_eq(w, "bool")
}

/// Reads a word starting at `i` (an identifier character run) and
/// classifies it as a keyword, a type name, a boolean literal or an
/// identifier.
fn scan_word(source: &str, len: usize, i: usize) -> (r: SpannedToken)
    requires
        len == source@.len(),
        i < len,
        is_ident_start_char(source@[i as int]),
    ensures
        r.start == i,
        i < r.end <= len,
        token_matches(source@, i as nat, r.end as nat, r.token),
        r.end == len || !is_ident_char(source@[r.end as int]),
{
    let ghost s = source@;
    let j = scan_ident_chars(source, len, i);
    proof {
        if j == i {
            assert(is_ident_char(s[i as int]));
        }
    }
    let w = source.substring_char(i, j);
    let ghost t = s.subrange(i as int, j as int);
    let token = if str_eq(w, "if") {
        Token::If
    } else if str_eq(w, "goto") {
        Token::Goto
    } else if str_eq(w, "func") {
        Token::Function
    } else if str_eq(w, "begin") {
        Token::Begin
    } else if str_eq(w, "end") {
        Token::End
    } else if str_eq(w, "return") {
        Token::Return
    } else if str_eq(w, "load") {
        Token::Load
    } else if str_eq(w, "store") {
        Token::Store
    } else if str_eq(w, "true") {
        Token::LiteralTrue
    } else if str_eq(w, "false") {
        Token::LiteralFalse
    } else if is_type_name(w) {
        Token::Type(w.to_owned())
    } else {
        proof {
            assert(t[0] == s[i as int]);
            assert(forall|k: int| 0 <= k < t.len() ==> is_ident_char(#[trigger] t[k])) by {
                assert(forall|k: int| 0 <= k < t.len() ==> t[k] == s[i + k]);
            }
            assert(is_ident_text(t));
        }
        Token::Identifier(w.to_owned())
    };
    SpannedToken { start: i, token, end: j }
}

/// Scans one token starting at offset `i`.
#[verifier::rlimit(60)]
fn scan_token(source: &str, len: usize, i: usize) -> (r: (Result<SpannedToken, LexErrorItem>,
    usize,
))
    requires
        len == source@.len(),
        i < len,
    ensures
        i < r.1 <= len,
        match r.0 {
            Result::Ok(st) => st.start == i && st.end == r.1 && token_matches(
                source@,
                i as nat,
                r.1 as nat,
                st.token,
            ) && token_boundary(source@, st),
            Result::Err(e) => e.span.start == i && i < e.span.end <= len && lex_error_genuine(
                source@,
                e,
            ),
        },
{
    let ghost s = source@;
    proof {
        reveal_strlit("=");
        reveal_strlit("<");
        reveal_strlit(">");
    }
    let c = source.get_char(i);
    let more = len - i > 1;

    // words
    if ('a' <= c && c <= 'z') || ('A' <= c && c <= 'Z') || c == '_' {
        let st = scan_word(source, len, i);
        let end = st.end;
        proof {
            assert(s.subrange(i as int, end as int)[0] == s[i as int]);
        }
        return (Result::Ok(st), end);
    }
    // numbers
    if '0' <= c && c <= '9' {
        let res = scan_number(source, len, i);
        proof {
            match &res.0 {
                Result::Ok(st) => {
                    assert(s.subrange(i as int, st.end as int)[0] == s[i as int]);
                },
                Result::Err(_) => {},
            }
        }
        return res;
    }
    if (c == '+' || c == '-') && more {
        let c1 = source.get_char(i + 1);
        if '0' <= c1 && c1 <= '9' {
            let res = scan_number(source, len, i);
            proof {
                match &res.0 {
                    Result::Ok(st) => {
                        assert(s.subrange(i as int, st.end as int)[0] == s[i as int]);
                    },
                    Result::Err(_) => {},
                }
            }
            return res;
        }
    }
    if c == '.' && more {
        let c1 = source.get_char(i + 1);
        if '0' <= c1 && c1 <= '9' {
            let res = scan_number(source, len, i);
            proof {
                match &res.0 {
                    Result::Ok(st) => {
                        assert(s.subrange(i as int, st.end as int)[0] == s[i as int]);
                    },
                    Result::Err(_) => {},
                }
            }
            return res;
        }
    }
    // dereference or multiplication
    if c == '*' {
        if more {
            let c1 = source.get_char(i + 1);
            if ('a' <= c1 && c1 <= 'z') || ('A' <= c1 && c1 <= 'Z') || c1 == '_' {
                let j = scan_ident_chars(source, len, i + 1);
                proof {
                    if j == i + 1 {
                        assert(is_ident_char(s[i + 1]));
                    }
                }
                let name = source.substring_char(i + 1, j);
                let ghost t = s.subrange(i as int, j as int);
                proof {
                    assert(t[0] == s[i as int]);
                    assert(t.drop_first() =~= s.subrange(i + 1, j as int));
                    assert(forall|k: int|
                        0 <= k < t.drop_first().len() ==> is_ident_char(
                            #[trigger] t.drop_first()[k],
                        )) by {
                        assert(forall|k: int|
                            0 <= k < t.drop_first().len() ==> t.drop_first()[k] == s[i + 1 + k]);
                    }
                    assert(is_ident_text(t.drop_first()));
                    lemma_not_cmp_text(s, i as int, j as int);
                }
                return (
                    (
                        Result::Ok(
                            SpannedToken {
                                start: i,
                                token: Token::Dereference(name.to_owned()),
                                end: j,
                            },
                        ),
                        j,
                    )
                );
            }
        }
        proof {
            reveal_strlit("*");
            lemma_lit1(s, i as int, "*"@);
            lemma_not_cmp_text(s, i as int, i + 1 as int);
        }
        return ((Result::Ok(SpannedToken { start: i, token: Token::Mul, end: i + 1 }), i + 1));
    }
    // string literals
    if c == '"' {
        let mut j: usize = i + 1;
        loop
            invariant
                len == s.len(),
                source@ == s,
                i < len,
                s[i as int] == '"',
                i + 1 <= j <= len,
                forall|k: int| i < k < j ==> s[k] != '"',
            decreases len - j,
        {
            if j >= len {
                return (
                    (
                        Result::Err(
                            LexErrorItem {
                                kind: LexingError::InvalidToken,
                                span: Span { start: i, end: len },
                            },
                        ),
                        len,
                    )
                );
            }
            if source.get_char(j) == '"' {
                let text = source.substring_char(i, j + 1);
                let ghost t = s.subrange(i as int, j + 1 as int);
                proof {
                    assert(t[0] == s[i as int]);
                    assert(t.last() == s[j as int]);
                    assert forall|k: int| 0 < k < t.len() - 1 implies t[k] != '"' by {
                        assert(t[k] == s[i + k]);
                    }
                    lemma_not_cmp_text(s, i as int, j + 1 as int);
                }
                return (
                    (
                        Result::Ok(
                            SpannedToken {
                                start: i,
                                token: Token::LiteralString(text.to_owned()),
                                end: j + 1,
                            },
                        ),
                        j + 1,
                    )
                );
            }
            j = j + 1;
        }
    }
    // casts or parenthesis
    if c == '(' {
        let j = scan_ident_chars(source, len, i + 1);
        if j > i + 1 && j < len {
            if source.get_char(j) == ')' {
                let w = source.substring_char(i + 1, j);
                if is_type_name(w) {
                    let ghost t = s.subrange(i as int, j + 1 as int);
                    proof {
                        assert(t[0] == s[i as int]);
                        assert(t.last() == s[j as int]);
                        assert(t.subrange(1, t.len() - 1) =~= s.subrange(i + 1, j as int));
                        lemma_not_cmp_text(s, i as int, j + 1 as int);
                    }
                    return (
                        (
                            Result::Ok(
                                SpannedToken {
                                    start: i,
                                    token: Token::Cast(w.to_owned()),
                                    end: j + 1,
                                },
                            ),
                            j + 1,
                        )
                    );
                }
            }
        }
        proof {
            reveal_strlit("(");
            lemma_lit1(s, i as int, "("@);
            lemma_not_cmp_text(s, i as int, i + 1 as int);
        }
        return (
            (Result::Ok(SpannedToken { start: i, token: Token::OpenParen, end: i + 1 }), i + 1)
        );
    }
    // two-character operators and their one-character prefixes
    if c == '<' {
        if more && source.get_char(i + 1) == '=' {
            proof {
                reveal_strlit("<=");
                lemma_lit2(s, i as int, "<="@);
            lemma_lit2_not_cmp(s, i as int);
            }
            return (
                (
                    Result::Ok(
                        SpannedToken { start: i, token: Token::LessThanOrEqual, end: i + 2 },
                    ),
                    i + 2,
                )
            );
        }
        proof {
            reveal_strlit("<");
            lemma_lit1(s, i as int, "<"@);
        }
        return (
            (Result::Ok(SpannedToken { start: i, token: Token::LessThan, end: i + 1 }), i + 1)
        );
    }
    if c == '>' {
        if more && source.get_char(i + 1) == '=' {
            proof {
                reveal_strlit(">=");
                lemma_lit2(s, i as int, ">="@);
            lemma_lit2_not_cmp(s, i as int);
            }
            return (
                (
                    Result::Ok(
                        SpannedToken { start: i, token: Token::GreaterThanOrEqual, end: i + 2 },
                    ),
                    i + 2,
                )
            );
        }
        proof {
            reveal_strlit(">");
            lemma_lit1(s, i as int, ">"@);
        }
        return (
            (Result::Ok(SpannedToken { start: i, token: Token::GreaterThan, end: i + 1 }), i + 1)
        );
    }
    if c == '=' {
        if more && source.get_char(i + 1) == '=' {
            proof {
                reveal_strlit("==");
                lemma_lit2(s, i as int, "=="@);
            lemma_lit2_not_cmp(s, i as int);
            }
            return (
                (Result::Ok(SpannedToken { start: i, token: Token::Equal, end: i + 2 }), i + 2)
            );
        }
        proof {
            reveal_strlit("=");
            lemma_lit1(s, i as int, "="@);
        }
        return ((Result::Ok(SpannedToken { start: i, token: Token::Assign, end: i + 1 }), i + 1));
    }
    if c == '!' && more && source.get_char(i + 1) == '=' {
        proof {
            reveal_strlit("!=");
            lemma_lit2(s, i as int, "!="@);
            lemma_lit2_not_cmp(s, i as int);
        }
        return ((Result::Ok(SpannedToken { start: i, token: Token::NotEqual, end: i + 2 }), i + 2));
    }
    if c == '&' && more && source.get_char(i + 1) == '&' {
        proof {
            reveal_strlit("&&");
            lemma_lit2(s, i as int, "&&"@);
            lemma_lit2_not_cmp(s, i as int);
        }
        return ((Result::Ok(SpannedToken { start: i, token: Token::And, end: i + 2 }), i + 2));
    }
    if c == '|' && more && source.get_char(i + 1) == '|' {
        proof {
            reveal_strlit("||");
            lemma_lit2(s, i as int, "||"@);
            lemma_lit2_not_cmp(s, i as int);
        }
        return ((Result::Ok(SpannedToken { start: i, token: Token::Or, end: i + 2 }), i + 2));
    }
    // remaining one-character tokens
    if c == '+' {
        proof {
            reveal_strlit("+");
            lemma_lit1(s, i as int, "+"@);
            lemma_not_cmp_text(s, i as int, i + 1 as int);
        }
        return ((Result::Ok(SpannedToken { start: i, token: Token::Add, end: i + 1 }), i + 1));
    }
    if c == '-' {
        proof {
            reveal_strlit("-");
            lemma_lit1(s, i as int, "-"@);
            lemma_not_cmp_text(s, i as int, i + 1 as int);
        }
        return ((Result::Ok(SpannedToken { start: i, token: Token::Sub, end: i + 1 }), i + 1));
    }
    if c == '/' {
        proof {
            reveal_strlit("/");
            lemma_lit1(s, i as int, "/"@);
            lemma_not_cmp_text(s, i as int, i + 1 as int);
        }
        return ((Result::Ok(SpannedToken { start: i, token: Token::Div, end: i + 1 }), i + 1));
    }
    if c == '[' {
        proof {
            reveal_strlit("[");
            lemma_lit1(s, i as int, "["@);
            lemma_not_cmp_text(s, i as int, i + 1 as int);
        }
        return (
            (Result::Ok(SpannedToken { start: i, token: Token::OpenBracket, end: i + 1 }), i + 1)
        );
    }
    if c == ']' {
        proof {
            reveal_strlit("]");
            lemma_lit1(s, i as int, "]"@);
            lemma_not_cmp_text(s, i as int, i + 1 as int);
        }
        return (
            (Result::Ok(SpannedToken { start: i, token: Token::CloseBracket, end: i + 1 }), i + 1)
        );
    }
    if c == ')' {
        proof {
            reveal_strlit(")");
            lemma_lit1(s, i as int, ")"@);
            lemma_not_cmp_text(s, i as int, i + 1 as int);
        }
        return (
            (Result::Ok(SpannedToken { start: i, token: Token::CloseParen, end: i + 1 }), i + 1)
        );
    }
    if c == ':' {
        proof {
            reveal_strlit(":");
            lemma_lit1(s, i as int, ":"@);
            lemma_not_cmp_text(s, i as int, i + 1 as int);
        }
        return ((Result::Ok(SpannedToken { start: i, token: Token::Colon, end: i + 1 }), i + 1));
    }
    // everything else is invalid; characters outside ASCII get their own kind
    proof {
        assert(!token_start_here(s, i as int));
    }
    let kind = if c as u32 >= 128 {
        LexingError::NonAsciiCharacter
    } else {
        LexingError::InvalidToken
    };
    ((Result::Err(LexErrorItem { kind, span: Span { start: i, end: i + 1 } }), i + 1))
}

// ---------------------------------------------------------------------
// The lexer
// ---------------------------------------------------------------------

/// The prefix of tokens read so far chains from the start of the source
/// up to offset `i`, the next token start.
pub open spec fn chain_upto(s: Seq<char>, toks: Seq<SpannedToken>, i: nat) -> bool {
    &&& (forall|k: int|
        0 <= k < toks.len() ==> ((#[trigger] toks[k]).start < toks[k].end <= s.len()
            && token_matches(s, toks[k].start as nat, toks[k].end as nat, toks[k].token)))
    &&& (toks.len() > 0 ==> toks[0].start == spec_skip(s, 0))
    &&& (forall|k: int|
        0 <= k < toks.len() - 1 ==> (#[trigger] toks[k + 1]).start == spec_skip(
            s,
            toks[k].end as nat,
        ))
    &&& i == spec_skip(
        s,
        if toks.len() == 0 {
            0nat
        } else {
            toks.last().end as nat
        },
    )
}

/// Lexes a whole source text.
///
/// On success the tokens' spans are ordered, lie inside the source, are
/// separated only by skipped whitespace and comments, each token is a
/// correct reading of its span's text, and each span ends at a
/// longest-match boundary. On failure every reported span is genuinely
/// invalid text, and the first one lies at a true scan position: a
/// prefix of validly read tokens chains from the start of the source up
/// to it.
pub fn tokenize(source: &str) -> (r: Result<Vec<SpannedToken>, Vec<LexErrorItem>>)
    ensures
        match r {
            Result::Ok(toks) => spans_chain(source@, toks@) && (forall|k: int|
                0 <= k < toks@.len() ==> token_matches(
                    source@,
                    (#[trigger] toks@[k]).start as nat,
                    toks@[k].end as nat,
                    toks@[k].token,
                )) && (forall|k: int|
                0 <= k < toks@.len() ==> token_boundary(source@, #[trigger] toks@[k])),
            Result::Err(errs) => errs@.len() > 0 && (forall|k: int|
                0 <= k < errs@.len() ==> lex_error_genuine(source@, #[trigger] errs@[k])) && (
            exists|pre: Seq<SpannedToken>| #[trigger] chain_upto(
                source@,
                pre,
                errs@[0].span.start as nat,
            )),
        },
{
    let ghost s = source@;
    let len = source.unicode_len();
    let mut toks: Vec<SpannedToken> = Vec::new();
    let mut errs: Vec<LexErrorItem> = Vec::new();
    let mut i = skip_blanks(source, 0, len);
    while i < len
        invariant
            len == s.len(),
            source@ == s,
            i <= len,
            errs@.len() == 0 ==> chain_upto(s, toks@, i as nat),
            errs@.len() > 0 ==> exists|pre: Seq<SpannedToken>| #[trigger] chain_upto(
                s,
                pre,
                errs@[0].span.start as nat,
            ),
            forall|k: int| 0 <= k < toks@.len() ==> token_boundary(s, #[trigger] toks@[k]),
            forall|k: int| 0 <= k < errs@.len() ==> lex_error_genuine(s, #[trigger] errs@[k]),
        decreases len - i,
    {
        let ghost old_toks = toks@;
        let ghost old_i = i;
        let (res, next) = scan_token(source, len, i);
        match res {
            Result::Ok(st) => {
                toks.push(st);
            },
            Result::Err(e) => {
                proof {
                    if errs@.len() == 0 {
                        assert(chain_upto(s, toks@, i as nat));
                        assert(e.span.start == i);
                    }
                }
                errs.push(e);
            },
        }
        i = skip_blanks(source, next, len);
        proof {
            if errs@.len() == 0 {
                assert(toks@ == old_toks.push(toks@.last()));
                assert(forall|k: int| 0 <= k < old_toks.len() ==> toks@[k] == old_toks[k]);
            }
        }
    }
    if errs.len() == 0 {
        Result::Ok(toks)
    } else {
        Result::Err(errs)
    }
}

/// The lexer: the fully scanned token stream of one source text.
pub struct Lexer {
    pub tokens: Vec<SpannedToken>,
    pub source_len: usize,
}

impl Lexer {
    /// Lexes the source. On success the tokens chain over the whole
    /// source at longest-match boundaries and `source_len` is the
    /// source's length; on failure every reported span is genuinely
    /// invalid text and the first lies at a reachable scan position.
    pub fn new(source_code: &str) -> (r: Result<Lexer, Vec<LexErrorItem>>)
        ensures
            match r {
                Result::Ok(lexer) => spans_chain(source_code@, lexer.tokens@) && (forall|k: int|
                    0 <= k < lexer.tokens@.len() ==> token_matches(
                        source_code@,
                        (#[trigger] lexer.tokens@[k]).start as nat,
                        lexer.tokens@[k].end as nat,
                        lexer.tokens@[k].token,
                    )) && (forall|k: int|
                    0 <= k < lexer.tokens@.len() ==> token_boundary(
                        source_code@,
                        #[trigger] lexer.tokens@[k],
                    )) && lexer.source_len == source_code@.len(),
                Result::Err(errs) => errs@.len() > 0 && (forall|k: int|
                    0 <= k < errs@.len() ==> lex_error_genuine(source_code@, #[trigger] errs@[k]))
                    && (exists|pre: Seq<SpannedToken>| #[trigger] chain_upto(
                    source_code@,
                    pre,
                    errs@[0].span.start as nat,
                )),
            },
    {
        let len = source_code.unicode_len();
        match tokenize(source_code) {
            Result::Ok(tokens) => Result::Ok(Lexer { tokens, source_len: len }),
            Result::Err(errs) => Result::Err(errs),
        }
    }
}

} // verus!
