use vstd::prelude::*;

use crate::text::{chars_of, same_text, text_of};

verus! {

/// The class a highlighted piece of source text falls in.
#[derive(Clone, Copy, Debug, PartialEq, Eq, Structural)]
pub enum TokenKind {
    Keyword,
    Type,
    StringLit,
    Comment,
    Number,
    Plain,
}

/// A piece of the source text and its class.
pub struct Span {
    pub text: String,
    pub kind: TokenKind,
}

impl View for Span {
    type V = (Seq<char>, TokenKind);

    open spec fn view(&self) -> (Seq<char>, TokenKind) {
        (self.text@, self.kind)
    }
}

/// The views of a sequence of spans.
pub open spec fn span_views(v: Seq<Span>) -> Seq<(Seq<char>, TokenKind)> {
    v.map_values(|sp: Span| sp@)
}

// ---------------------------------------------------------------------------
// Character classes
// ---------------------------------------------------------------------------

/// What `char::is_alphabetic` returns for a character outside ASCII: the
/// Unicode `Alphabetic` property.
pub uninterp spec fn alphabetic(c: char) -> bool;

/// What `char::is_alphanumeric` returns for a character outside ASCII:
/// `Alphabetic` or `Numeric`.
pub uninterp spec fn alphanumeric(c: char) -> bool;

pub open spec fn is_ascii_char(c: char) -> bool {
    c <= '\x7f'
}

/// `char::is_alphabetic`: in ASCII exactly the letters.
pub open spec fn alphabetic_char(c: char) -> bool {
    if is_ascii_char(c) {
        is_ascii_letter(c)
    } else {
        alphabetic(c)
    }
}

/// `char::is_alphanumeric`: in ASCII exactly the letters and digits.
pub open spec fn alphanumeric_char(c: char) -> bool {
    if is_ascii_char(c) {
        is_ascii_letter(c) || is_digit(c)
    } else {
        alphanumeric(c)
    }
}

/// `char::is_alphabetic`. Of ASCII characters only the letters have the
/// `Alphabetic` property; other characters are named by `alphabetic`.
#[verifier::external_body]
fn is_alphabetic(c: char) -> (r: bool)
    ensures
        is_ascii_char(c) ==> r == is_ascii_letter(c),
        !is_ascii_char(c) ==> r == alphabetic(c),
{
    c.is_alphabetic()
}

/// `char::is_alphanumeric`. Of ASCII characters only letters and digits are
/// `Alphabetic` or `Numeric`; other characters are named by `alphanumeric`.
/// Its documentation defines it as `is_alphabetic() || is_numeric()`, so
/// every alphabetic character passes it.
#[verifier::external_body]
fn is_alphanumeric(c: char) -> (r: bool)
    ensures
        is_ascii_char(c) ==> r == (is_ascii_letter(c) || is_digit(c)),
        !is_ascii_char(c) ==> r == alphanumeric(c),
        !is_ascii_char(c) && alphabetic(c) ==> r,
{
    c.is_alphanumeric()
}

pub open spec fn is_digit(c: char) -> bool {
    '0' <= c && c <= '9'
}

pub open spec fn is_ascii_letter(c: char) -> bool {
    ('a' <= c && c <= 'z') || ('A' <= c && c <= 'Z')
}

/// A character that continues a number literal.
pub open spec fn is_number_char(c: char) -> bool {
    is_digit(c) || c == '.' || c == 'x' || c == 'o' || c == 'b' || c == '_' || is_ascii_letter(c)
}

/// A character that begins an identifier.
pub open spec fn is_ident_start(c: char) -> bool {
    alphabetic_char(c) || c == '_'
}

/// A character that continues an identifier.
pub open spec fn is_ident_char(c: char) -> bool {
    alphanumeric_char(c) || c == '_'
}

/// A piece that begins like an identifier holds identifier characters only.
pub open spec fn ident_piece_ok(t: Seq<char>) -> bool {
    t.len() > 0 && is_ident_start(t[0]) ==> forall|m: int|
        0 <= m < t.len() ==> #[trigger] is_ident_char(t[m])
}

// ---------------------------------------------------------------------------
// The tokenizer, as a specification
// ---------------------------------------------------------------------------

/// Where a line comment whose body starts at `j` ends: before the next newline.
pub open spec fn comment_end(s: Seq<char>, j: int) -> int
    decreases s.len() - j,
{
    if 0 <= j < s.len() && s[j] != '\n' {
        comment_end(s, j + 1)
    } else {
        j
    }
}

/// Where a string literal whose body starts at `j` ends: just after the first
/// closing quote that no backslash escapes, or at the end of the text.
pub open spec fn string_end(s: Seq<char>, j: int, escaped: bool) -> int
    decreases s.len() - j,
{
    if j < 0 || j >= s.len() {
        j
    } else if escaped {
        string_end(s, j + 1, false)
    } else if s[j] == '\\' {
        string_end(s, j + 1, true)
    } else if s[j] == '"' {
        j + 1
    } else {
        string_end(s, j + 1, false)
    }
}

/// The end of the run of number characters from `j`.
pub open spec fn number_end(s: Seq<char>, j: int) -> int
    decreases s.len() - j,
{
    if 0 <= j < s.len() && is_number_char(s[j]) {
        number_end(s, j + 1)
    } else {
        j
    }
}

/// The end of the run of identifier characters from `j`.
pub open spec fn ident_end(s: Seq<char>, j: int) -> int
    decreases s.len() - j,
{
    if 0 <= j < s.len() && is_ident_char(s[j]) {
        ident_end(s, j + 1)
    } else {
        j
    }
}

pub open spec fn is_keyword(w: Seq<char>) -> bool {
    ||| w == "fn"@ ||| w == "let"@ ||| w == "struct"@ ||| w == "impl"@
    ||| w == "match"@ ||| w == "if"@ ||| w == "else"@ ||| w == "use"@
    ||| w == "pub"@ ||| w == "mod"@ ||| w == "return"@ ||| w == "true"@
    ||| w == "false"@ ||| w == "loop"@ ||| w == "while"@ ||| w == "for"@
    ||| w == "in"@ ||| w == "static"@ ||| w == "const"@ ||| w == "mut"@
    ||| w == "ref"@ ||| w == "self"@ ||| w == "Self"@ ||| w == "as"@
    ||| w == "break"@ ||| w == "continue"@ ||| w == "crate"@ ||| w == "extern"@
    ||| w == "enum"@ ||| w == "super"@ ||| w == "trait"@ ||| w == "type"@
    ||| w == "unsafe"@ ||| w == "where"@
}

pub open spec fn is_type_name(w: Seq<char>) -> bool {
    ||| w == "String"@ ||| w == "Option"@ ||| w == "Result"@ ||| w == "Vec"@
    ||| w == "u8"@ ||| w == "u16"@ ||| w == "u32"@ ||| w == "u64"@
    ||| w == "u128"@ ||| w == "usize"@ ||| w == "i8"@ ||| w == "i16"@
    ||| w == "i32"@ ||| w == "i64"@ ||| w == "i128"@ ||| w == "isize"@
    ||| w == "f32"@ ||| w == "f64"@ ||| w == "bool"@ ||| w == "char"@
    ||| w == "str"@
}

/// The words shown as keywords.
pub open spec fn rust_keywords() -> Set<Seq<char>> {
    set![
        "fn"@, "let"@, "struct"@, "impl"@, "match"@, "if"@, "else"@, "use"@, "pub"@, "mod"@,
        "return"@, "true"@, "false"@, "loop"@, "while"@, "for"@, "in"@, "static"@, "const"@,
        "mut"@, "ref"@, "self"@, "Self"@, "as"@, "break"@, "continue"@, "crate"@, "extern"@,
        "enum"@, "super"@, "trait"@, "type"@, "unsafe"@, "where"@,
    ]
}

/// The words shown as built-in type names.
pub open spec fn builtin_type_names() -> Set<Seq<char>> {
    set![
        "String"@, "Option"@, "Result"@, "Vec"@, "u8"@, "u16"@, "u32"@, "u64"@, "u128"@,
        "usize"@, "i8"@, "i16"@, "i32"@, "i64"@, "i128"@, "isize"@, "f32"@, "f64"@, "bool"@,
        "char"@, "str"@,
    ]
}

/// The class of an identifier.
pub open spec fn word_kind(w: Seq<char>) -> TokenKind {
    if is_keyword(w) {
        TokenKind::Keyword
    } else if is_type_name(w) {
        TokenKind::Type
    } else {
        TokenKind::Plain
    }
}

/// The token that starts at `i`: where it ends and its class.
pub open spec fn token(s: Seq<char>, i: int) -> (int, TokenKind) {
    let c = s[i];
    if c == '/' {
        if i + 1 < s.len() && s[i + 1] == '/' {
            (comment_end(s, i + 2), TokenKind::Comment)
        } else {
            (i + 1, TokenKind::Plain)
        }
    } else if c == '"' {
        (string_end(s, i + 1, false), TokenKind::StringLit)
    } else if is_digit(c) {
        (number_end(s, i), TokenKind::Number)
    } else if is_ident_start(c) {
        let e = ident_end(s, i + 1);
        (e, word_kind(s.subrange(i, e)))
    } else {
        (i + 1, TokenKind::Plain)
    }
}

pub proof fn lemma_comment_end(s: Seq<char>, j: int)
    requires
        0 <= j <= s.len(),
    ensures
        j <= comment_end(s, j) <= s.len(),
    decreases s.len() - j,
{
    if j < s.len() && s[j] != '\n' {
        lemma_comment_end(s, j + 1);
    }
}

pub proof fn lemma_string_end(s: Seq<char>, j: int, escaped: bool)
    requires
        0 <= j <= s.len(),
    ensures
        j <= string_end(s, j, escaped) <= s.len(),
    decreases s.len() - j,
{
    if j < s.len() {
        lemma_string_end(s, j + 1, false);
        lemma_string_end(s, j + 1, true);
    }
}

pub proof fn lemma_number_end(s: Seq<char>, j: int)
    requires
        0 <= j <= s.len(),
    ensures
        j <= number_end(s, j) <= s.len(),
    decreases s.len() - j,
{
    if j < s.len() && is_number_char(s[j]) {
        lemma_number_end(s, j + 1);
    }
}

pub proof fn lemma_ident_end(s: Seq<char>, j: int)
    requires
        0 <= j <= s.len(),
    ensures
        j <= ident_end(s, j) <= s.len(),
    decreases s.len() - j,
{
    if j < s.len() && is_ident_char(s[j]) {
        lemma_ident_end(s, j + 1);
    }
}

/// Every token takes at least one character and stays within the text.
pub proof fn lemma_token_bounds(s: Seq<char>, i: int)
    requires
        0 <= i < s.len(),
    ensures
        i < token(s, i).0 <= s.len(),
{
    lemma_comment_end(s, i + 1);
    if i + 2 <= s.len() {
        lemma_comment_end(s, i + 2);
    }
    lemma_string_end(s, i + 1, false);
    lemma_number_end(s, i);
    lemma_number_end(s, i + 1);
    lemma_ident_end(s, i + 1);
}

/// The tokens of `s` from position `i` on, each as its text and class.
pub open spec fn tokens(s: Seq<char>, i: int) -> Seq<(Seq<char>, TokenKind)>
    decreases s.len() - i,
{
    if 0 <= i < s.len() {
        let t = token(s, i);
        proof {
            lemma_token_bounds(s, i);
        }
        seq![(s.subrange(i, t.0), t.1)] + tokens(s, t.0)
    } else {
        Seq::empty()
    }
}

/// The texts of a sequence of tokens, one after the other.
pub open spec fn joined(v: Seq<(Seq<char>, TokenKind)>) -> Seq<char>
    decreases v.len(),
{
    if v.len() == 0 {
        Seq::empty()
    } else {
        v[0].0 + joined(v.drop_first())
    }
}


// ---------------------------------------------------------------------------
// Laws of the tokenizer
// ---------------------------------------------------------------------------

/// Highlighting loses nothing and adds nothing: the texts of the tokens from
/// position `i`, one after the other, are exactly the source from `i` on.
pub proof fn lemma_tokens_cover(s: Seq<char>, i: int)
    requires
        0 <= i <= s.len(),
    ensures
        joined(tokens(s, i)) == s.subrange(i, s.len() as int),
    decreases s.len() - i,
{
    if i < s.len() {
        lemma_token_bounds(s, i);
        let t = token(s, i);
        lemma_tokens_cover(s, t.0);
        assert(tokens(s, i).drop_first() =~= tokens(s, t.0));
        assert(s.subrange(i, t.0) + s.subrange(t.0, s.len() as int) =~= s.subrange(
            i,
            s.len() as int,
        ));
    } else {
        assert(s.subrange(i, s.len() as int) =~= Seq::<char>::empty());
    }
}

proof fn lemma_comment_has_no_newline(s: Seq<char>, j: int)
    requires
        0 <= j <= s.len(),
    ensures
        forall|k: int| j <= k < comment_end(s, j) ==> s[k] != '\n',
    decreases s.len() - j,
{
    if j < s.len() && s[j] != '\n' {
        lemma_comment_has_no_newline(s, j + 1);
    }
}

/// Each keyword is classified as a keyword, each built-in type name as a
/// type, and every other word as plain text.
pub proof fn lemma_word_classes(w: Seq<char>)
    ensures
        rust_keywords().contains(w) ==> word_kind(w) == TokenKind::Keyword,
        builtin_type_names().contains(w) ==> word_kind(w) == TokenKind::Type,
        !rust_keywords().contains(w) && !builtin_type_names().contains(w) ==> word_kind(w)
            == TokenKind::Plain,
{
    reveal_strlit("fn");
    reveal_strlit("let");
    reveal_strlit("struct");
    reveal_strlit("impl");
    reveal_strlit("match");
    reveal_strlit("if");
    reveal_strlit("else");
    reveal_strlit("use");
    reveal_strlit("pub");
    reveal_strlit("mod");
    reveal_strlit("return");
    reveal_strlit("true");
    reveal_strlit("false");
    reveal_strlit("loop");
    reveal_strlit("while");
    reveal_strlit("for");
    reveal_strlit("in");
    reveal_strlit("static");
    reveal_strlit("const");
    reveal_strlit("mut");
    reveal_strlit("ref");
    reveal_strlit("self");
    reveal_strlit("Self");
    reveal_strlit("as");
    reveal_strlit("break");
    reveal_strlit("continue");
    reveal_strlit("crate");
    reveal_strlit("extern");
    reveal_strlit("enum");
    reveal_strlit("super");
    reveal_strlit("trait");
    reveal_strlit("type");
    reveal_strlit("unsafe");
    reveal_strlit("where");
    reveal_strlit("String");
    reveal_strlit("Option");
    reveal_strlit("Result");
    reveal_strlit("Vec");
    reveal_strlit("u8");
    reveal_strlit("u16");
    reveal_strlit("u32");
    reveal_strlit("u64");
    reveal_strlit("u128");
    reveal_strlit("usize");
    reveal_strlit("i8");
    reveal_strlit("i16");
    reveal_strlit("i32");
    reveal_strlit("i64");
    reveal_strlit("i128");
    reveal_strlit("isize");
    reveal_strlit("f32");
    reveal_strlit("f64");
    reveal_strlit("bool");
    reveal_strlit("char");
    reveal_strlit("str");
    assert("fn"@.len() == 2 && "fn"@[0] == 'f' && "fn"@[1] == 'n');
    assert("let"@.len() == 3 && "let"@[0] == 'l' && "let"@[1] == 'e');
    assert("struct"@.len() == 6 && "struct"@[0] == 's' && "struct"@[1] == 't');
    assert("impl"@.len() == 4 && "impl"@[0] == 'i' && "impl"@[1] == 'm');
    assert("match"@.len() == 5 && "match"@[0] == 'm' && "match"@[1] == 'a');
    assert("if"@.len() == 2 && "if"@[0] == 'i' && "if"@[1] == 'f');
    assert("else"@.len() == 4 && "else"@[0] == 'e' && "else"@[1] == 'l');
    assert("use"@.len() == 3 && "use"@[0] == 'u' && "use"@[1] == 's');
    assert("pub"@.len() == 3 && "pub"@[0] == 'p' && "pub"@[1] == 'u');
    assert("mod"@.len() == 3 && "mod"@[0] == 'm' && "mod"@[1] == 'o');
    assert("return"@.len() == 6 && "return"@[0] == 'r' && "return"@[1] == 'e');
    assert("true"@.len() == 4 && "true"@[0] == 't' && "true"@[1] == 'r');
    assert("false"@.len() == 5 && "false"@[0] == 'f' && "false"@[1] == 'a');
    assert("loop"@.len() == 4 && "loop"@[0] == 'l' && "loop"@[1] == 'o');
    assert("while"@.len() == 5 && "while"@[0] == 'w' && "while"@[1] == 'h');
    assert("for"@.len() == 3 && "for"@[0] == 'f' && "for"@[1] == 'o');
    assert("in"@.len() == 2 && "in"@[0] == 'i' && "in"@[1] == 'n');
    assert("static"@.len() == 6 && "static"@[0] == 's' && "static"@[1] == 't');
    assert("const"@.len() == 5 && "const"@[0] == 'c' && "const"@[1] == 'o');
    assert("mut"@.len() == 3 && "mut"@[0] == 'm' && "mut"@[1] == 'u');
    assert("ref"@.len() == 3 && "ref"@[0] == 'r' && "ref"@[1] == 'e');
    assert("self"@.len() == 4 && "self"@[0] == 's' && "self"@[1] == 'e');
    assert("Self"@.len() == 4 && "Self"@[0] == 'S' && "Self"@[1] == 'e');
    assert("as"@.len() == 2 && "as"@[0] == 'a' && "as"@[1] == 's');
    assert("break"@.len() == 5 && "break"@[0] == 'b' && "break"@[1] == 'r');
    assert("continue"@.len() == 8 && "continue"@[0] == 'c' && "continue"@[1] == 'o');
    assert("crate"@.len() == 5 && "crate"@[0] == 'c' && "crate"@[1] == 'r');
    assert("extern"@.len() == 6 && "extern"@[0] == 'e' && "extern"@[1] == 'x');
    assert("enum"@.len() == 4 && "enum"@[0] == 'e' && "enum"@[1] == 'n');
    assert("super"@.len() == 5 && "super"@[0] == 's' && "super"@[1] == 'u');
    assert("trait"@.len() == 5 && "trait"@[0] == 't' && "trait"@[1] == 'r');
    assert("type"@.len() == 4 && "type"@[0] == 't' && "type"@[1] == 'y');
    assert("unsafe"@.len() == 6 && "unsafe"@[0] == 'u' && "unsafe"@[1] == 'n');
    assert("where"@.len() == 5 && "where"@[0] == 'w' && "where"@[1] == 'h');
    assert("String"@.len() == 6 && "String"@[0] == 'S' && "String"@[1] == 't');
    assert("Option"@.len() == 6 && "Option"@[0] == 'O' && "Option"@[1] == 'p');
    assert("Result"@.len() == 6 && "Result"@[0] == 'R' && "Result"@[1] == 'e');
    assert("Vec"@.len() == 3 && "Vec"@[0] == 'V' && "Vec"@[1] == 'e');
    assert("u8"@.len() == 2 && "u8"@[0] == 'u' && "u8"@[1] == '8');
    assert("u16"@.len() == 3 && "u16"@[0] == 'u' && "u16"@[1] == '1');
    assert("u32"@.len() == 3 && "u32"@[0] == 'u' && "u32"@[1] == '3');
    assert("u64"@.len() == 3 && "u64"@[0] == 'u' && "u64"@[1] == '6');
    assert("u128"@.len() == 4 && "u128"@[0] == 'u' && "u128"@[1] == '1');
    assert("usize"@.len() == 5 && "usize"@[0] == 'u' && "usize"@[1] == 's');
    assert("i8"@.len() == 2 && "i8"@[0] == 'i' && "i8"@[1] == '8');
    assert("i16"@.len() == 3 && "i16"@[0] == 'i' && "i16"@[1] == '1');
    assert("i32"@.len() == 3 && "i32"@[0] == 'i' && "i32"@[1] == '3');
    assert("i64"@.len() == 3 && "i64"@[0] == 'i' && "i64"@[1] == '6');
    assert("i128"@.len() == 4 && "i128"@[0] == 'i' && "i128"@[1] == '1');
    assert("isize"@.len() == 5 && "isize"@[0] == 'i' && "isize"@[1] == 's');
    assert("f32"@.len() == 3 && "f32"@[0] == 'f' && "f32"@[1] == '3');
    assert("f64"@.len() == 3 && "f64"@[0] == 'f' && "f64"@[1] == '6');
    assert("bool"@.len() == 4 && "bool"@[0] == 'b' && "bool"@[1] == 'o');
    assert("char"@.len() == 4 && "char"@[0] == 'c' && "char"@[1] == 'h');
    assert("str"@.len() == 3 && "str"@[0] == 's' && "str"@[1] == 't');
    assert(!is_keyword("String"@));
    assert(!is_keyword("Option"@));
    assert(!is_keyword("Result"@));
    assert(!is_keyword("Vec"@));
    assert(!is_keyword("u8"@));
    assert(!is_keyword("u16"@));
    assert(!is_keyword("u32"@));
    assert(!is_keyword("u64"@));
    assert(!is_keyword("u128"@));
    assert(!is_keyword("usize"@));
    assert(!is_keyword("i8"@));
    assert(!is_keyword("i16"@));
    assert(!is_keyword("i32"@));
    assert(!is_keyword("i64"@));
    assert(!is_keyword("i128"@));
    assert(!is_keyword("isize"@));
    assert(!is_keyword("f32"@));
    assert(!is_keyword("f64"@));
    assert(!is_keyword("bool"@));
    assert(!is_keyword("char"@));
    assert(!is_keyword("str"@));
}

/// How many backslashes stand right before position `k`, counting back no
/// further than `lo`.
pub open spec fn backslashes_before(s: Seq<char>, lo: int, k: int) -> nat
    decreases k - lo,
{
    if k > lo && s[k - 1] == '\\' {
        1 + backslashes_before(s, lo, k - 1)
    } else {
        0
    }
}

/// In a string literal whose body starts at `lo`, position `k` holds its
/// closing quote: a `"` after an even run of backslashes.
pub open spec fn closes_string(s: Seq<char>, lo: int, k: int) -> bool {
    &&& lo <= k < s.len()
    &&& s[k] == '"'
    &&& backslashes_before(s, lo, k) % 2 == 0
}

proof fn lemma_string_end_closes(s: Seq<char>, lo: int, j: int, escaped: bool)
    requires
        0 <= lo <= j <= s.len(),
        escaped == (backslashes_before(s, lo, j) % 2 == 1),
        forall|k: int| lo <= k < j ==> !closes_string(s, lo, k),
    ensures
        j <= string_end(s, j, escaped) <= s.len(),
        forall|k: int| lo <= k < string_end(s, j, escaped) - 1 ==> !closes_string(s, lo, k),
        string_end(s, j, escaped) == s.len() || closes_string(
            s,
            lo,
            string_end(s, j, escaped) - 1,
        ),
    decreases s.len() - j,
{
    if j < s.len() {
        let n = backslashes_before(s, lo, j);
        assert(backslashes_before(s, lo, j + 1) == if s[j] == '\\' {
            n + 1
        } else {
            0
        });
        if escaped {
            assert(!closes_string(s, lo, j));
            lemma_string_end_closes(s, lo, j + 1, false);
        } else if s[j] == '\\' {
            assert(!closes_string(s, lo, j));
            lemma_string_end_closes(s, lo, j + 1, true);
        } else if s[j] == '"' {
            assert(closes_string(s, lo, j));
        } else {
            assert(!closes_string(s, lo, j));
            lemma_string_end_closes(s, lo, j + 1, false);
        }
    }
}

/// A string literal runs from its opening quote to the first quote after it
/// that no backslash escapes (a quote after an even run of backslashes),
/// across newlines and any other character, or to the end of the text when
/// no such quote follows.
pub proof fn lemma_string_token_extent(s: Seq<char>, i: int)
    requires
        0 <= i < s.len(),
        s[i] == '"',
    ensures
        token(s, i).1 == TokenKind::StringLit,
        i + 1 <= token(s, i).0 <= s.len(),
        forall|k: int| i + 1 <= k < token(s, i).0 - 1 ==> !#[trigger] closes_string(s, i + 1, k),
        token(s, i).0 == s.len() || closes_string(s, i + 1, token(s, i).0 - 1),
{
    lemma_string_end_closes(s, i + 1, i + 1, false);
}

/// Every token from position `i` on is a nonempty piece of the source; a
/// comment begins with two slashes and holds no newline, a string literal
/// begins with a double quote, and a number begins with a decimal digit.
pub proof fn lemma_token_shapes(s: Seq<char>, i: int)
    requires
        0 <= i <= s.len(),
    ensures
        forall|k: int|
            0 <= k < tokens(s, i).len() ==> {
                let t = #[trigger] tokens(s, i)[k];
                &&& t.0.len() > 0
                &&& t.1 == TokenKind::Comment ==> t.0.len() >= 2 && t.0[0] == '/' && t.0[1] == '/'
                    && forall|m: int| 0 <= m < t.0.len() ==> t.0[m] != '\n'
                &&& t.1 == TokenKind::StringLit ==> t.0[0] == '"'
                &&& t.1 == TokenKind::Number ==> is_digit(t.0[0])
            },
    decreases s.len() - i,
{
    if i < s.len() {
        lemma_token_bounds(s, i);
        let t = token(s, i);
        lemma_token_shapes(s, t.0);
        let all = tokens(s, i);
        assert(all.drop_first() =~= tokens(s, t.0));
        if s[i] == '/' && i + 1 < s.len() && s[i + 1] == '/' {
            lemma_comment_end(s, i + 2);
            lemma_comment_has_no_newline(s, i + 2);
        }
        assert forall|k: int| 0 <= k < all.len() implies {
            let u = #[trigger] all[k];
            &&& u.0.len() > 0
            &&& u.1 == TokenKind::Comment ==> u.0.len() >= 2 && u.0[0] == '/' && u.0[1] == '/'
                && forall|m: int| 0 <= m < u.0.len() ==> u.0[m] != '\n'
            &&& u.1 == TokenKind::StringLit ==> u.0[0] == '"'
            &&& u.1 == TokenKind::Number ==> is_digit(u.0[0])
        } by {
            if k > 0 {
                assert(all[k] == tokens(s, t.0)[k - 1]);
            } else {
                let w = s.subrange(i, t.0);
                if t.1 == TokenKind::Comment {
                    assert forall|m: int| 0 <= m < w.len() implies w[m] != '\n' by {
                        assert(w[m] == s[i + m]);
                    }
                }
            }
        }
    }
}


// ---------------------------------------------------------------------------
// Tokens look only forward, and a newline outside a string ends every token
// ---------------------------------------------------------------------------

proof fn lemma_comment_end_suffix(x: Seq<char>, y: Seq<char>, j: int)
    requires
        0 <= j <= y.len(),
    ensures
        comment_end(x + y, x.len() + j) == x.len() + comment_end(y, j),
    decreases y.len() - j,
{
    if j < y.len() {
        assert((x + y)[x.len() + j] == y[j]);
        if y[j] != '\n' {
            lemma_comment_end_suffix(x, y, j + 1);
        }
    }
}

proof fn lemma_string_end_suffix(x: Seq<char>, y: Seq<char>, j: int, escaped: bool)
    requires
        0 <= j <= y.len(),
    ensures
        string_end(x + y, x.len() + j, escaped) == x.len() + string_end(y, j, escaped),
    decreases y.len() - j,
{
    if j < y.len() {
        assert((x + y)[x.len() + j] == y[j]);
        lemma_string_end_suffix(x, y, j + 1, false);
        lemma_string_end_suffix(x, y, j + 1, true);
    }
}

proof fn lemma_number_end_suffix(x: Seq<char>, y: Seq<char>, j: int)
    requires
        0 <= j <= y.len(),
    ensures
        number_end(x + y, x.len() + j) == x.len() + number_end(y, j),
    decreases y.len() - j,
{
    if j < y.len() {
        assert((x + y)[x.len() + j] == y[j]);
        if is_number_char(y[j]) {
            lemma_number_end_suffix(x, y, j + 1);
        }
    }
}

proof fn lemma_ident_end_suffix(x: Seq<char>, y: Seq<char>, j: int)
    requires
        0 <= j <= y.len(),
    ensures
        ident_end(x + y, x.len() + j) == x.len() + ident_end(y, j),
    decreases y.len() - j,
{
    if j < y.len() {
        assert((x + y)[x.len() + j] == y[j]);
        if is_ident_char(y[j]) {
            lemma_ident_end_suffix(x, y, j + 1);
        }
    }
}

proof fn lemma_token_suffix(x: Seq<char>, y: Seq<char>, j: int)
    requires
        0 <= j < y.len(),
    ensures
        token(x + y, x.len() + j) == (x.len() + token(y, j).0, token(y, j).1),
{
    let s = x + y;
    let k = x.len() + j;
    assert(s[k] == y[j]);
    if j + 1 < y.len() {
        assert(s[k + 1] == y[j + 1]);
    }
    if j + 2 <= y.len() {
        lemma_comment_end_suffix(x, y, j + 2);
    }
    lemma_string_end_suffix(x, y, j + 1, false);
    lemma_number_end_suffix(x, y, j);
    lemma_ident_end_suffix(x, y, j + 1);
    lemma_ident_end(y, j + 1);
    let e = ident_end(y, j + 1);
    assert(s.subrange(k, x.len() + e) =~= y.subrange(j, e));
}

/// Tokenizing text that follows other text gives the same tokens as
/// tokenizing it alone: a token never looks back.
pub proof fn lemma_tokens_suffix(x: Seq<char>, y: Seq<char>, j: int)
    requires
        0 <= j <= y.len(),
    ensures
        tokens(x + y, x.len() + j) == tokens(y, j),
    decreases y.len() - j,
{
    if j < y.len() {
        lemma_token_suffix(x, y, j);
        lemma_token_bounds(y, j);
        let e = token(y, j).0;
        lemma_tokens_suffix(x, y, e);
        assert((x + y).subrange(x.len() + j, x.len() + e) =~= y.subrange(j, e));
    }
}

proof fn lemma_comment_end_prefix(a: Seq<char>, b: Seq<char>, j: int)
    requires
        0 <= j <= a.len(),
    ensures
        comment_end(a + seq!['\n'] + b, j) == comment_end(a, j),
    decreases a.len() - j,
{
    let s = a + seq!['\n'] + b;
    if j < a.len() {
        assert(s[j] == a[j]);
        if a[j] != '\n' {
            lemma_comment_end_prefix(a, b, j + 1);
        }
    } else {
        assert(s[j] == '\n');
    }
}

proof fn lemma_number_end_prefix(a: Seq<char>, b: Seq<char>, j: int)
    requires
        0 <= j <= a.len(),
    ensures
        number_end(a + seq!['\n'] + b, j) == number_end(a, j),
    decreases a.len() - j,
{
    let s = a + seq!['\n'] + b;
    if j < a.len() {
        assert(s[j] == a[j]);
        if is_number_char(a[j]) {
            lemma_number_end_prefix(a, b, j + 1);
        }
    } else {
        assert(s[j] == '\n');
    }
}

proof fn lemma_ident_end_prefix(a: Seq<char>, b: Seq<char>, j: int)
    requires
        0 <= j <= a.len(),
    ensures
        ident_end(a + seq!['\n'] + b, j) == ident_end(a, j),
    decreases a.len() - j,
{
    let s = a + seq!['\n'] + b;
    if j < a.len() {
        assert(s[j] == a[j]);
        if is_ident_char(a[j]) {
            lemma_ident_end_prefix(a, b, j + 1);
        }
    } else {
        assert(s[j] == '\n');
    }
}

proof fn lemma_token_prefix(a: Seq<char>, b: Seq<char>, i: int)
    requires
        0 <= i < a.len(),
        a[i] != '"',
    ensures
        token(a + seq!['\n'] + b, i) == token(a, i),
{
    let s = a + seq!['\n'] + b;
    assert(s[i] == a[i]);
    if i + 1 < a.len() {
        assert(s[i + 1] == a[i + 1]);
    } else {
        assert(s[i + 1] == '\n');
    }
    if i + 2 <= a.len() {
        lemma_comment_end_prefix(a, b, i + 2);
    }
    lemma_number_end_prefix(a, b, i);
    lemma_ident_end_prefix(a, b, i + 1);
    lemma_ident_end(a, i + 1);
    let e = ident_end(a, i + 1);
    assert(s.subrange(i, e) =~= a.subrange(i, e));
}

proof fn lemma_tokens_prefix(a: Seq<char>, b: Seq<char>, i: int)
    requires
        0 <= i <= a.len(),
        forall|k: int| 0 <= k < a.len() ==> a[k] != '"',
    ensures
        tokens(a + seq!['\n'] + b, i) == tokens(a, i) + tokens(a + seq!['\n'] + b, a.len() as int),
    decreases a.len() - i,
{
    let s = a + seq!['\n'] + b;
    if i < a.len() {
        lemma_token_prefix(a, b, i);
        lemma_token_bounds(a, i);
        let e = token(a, i).0;
        lemma_tokens_prefix(a, b, e);
        assert(s.subrange(i, e) =~= a.subrange(i, e));
        assert(tokens(s, i) =~= tokens(a, i) + tokens(s, a.len() as int));
    } else {
        assert(tokens(a, i) =~= Seq::<(Seq<char>, TokenKind)>::empty());
        assert(tokens(s, i) =~= tokens(a, i) + tokens(s, a.len() as int));
    }
}

/// A newline outside a string literal splits the tokens: when `a` holds no
/// double quote, the tokens of `a`, a newline and `b` are those of `a`, the
/// newline as a plain token, and those of `b`.
pub proof fn lemma_newline_split(a: Seq<char>, b: Seq<char>)
    requires
        forall|k: int| 0 <= k < a.len() ==> a[k] != '"',
    ensures
        tokens(a + seq!['\n'] + b, 0) == tokens(a, 0) + seq![(seq!['\n'], TokenKind::Plain)]
            + tokens(b, 0),
{
    let x = a + seq!['\n'];
    let s = x + b;
    lemma_tokens_prefix(a, b, 0);
    let n = a.len() as int;
    assert(s[n] == '\n');
    assert(token(s, n) == (n + 1, TokenKind::Plain));
    assert(s.subrange(n, n + 1) =~= seq!['\n']);
    lemma_tokens_suffix(x, b, 0);
    assert(tokens(s, n) =~= seq![(seq!['\n'], TokenKind::Plain)] + tokens(b, 0));
    assert(tokens(s, 0) =~= tokens(a, 0) + seq![(seq!['\n'], TokenKind::Plain)] + tokens(b, 0));
}

// ---------------------------------------------------------------------------
// The tokenizer
// ---------------------------------------------------------------------------

fn scan_comment(cs: &Vec<char>, j: usize) -> (e: usize)
    requires
        j <= cs.len(),
    ensures
        e == comment_end(cs@, j as int),
{
    let mut k = j;
    while k < cs.len() && cs[k] != '\n'
        invariant
            j <= k <= cs.len(),
            comment_end(cs@, j as int) == comment_end(cs@, k as int),
        decreases cs.len() - k,
    {
        k += 1;
    }
    k
}

fn scan_string(cs: &Vec<char>, j: usize) -> (e: usize)
    requires
        j <= cs.len(),
    ensures
        e == string_end(cs@, j as int, false),
{
    let mut k = j;
    let mut escaped = false;
    while k < cs.len()
        invariant
            j <= k <= cs.len(),
            string_end(cs@, j as int, false) == string_end(cs@, k as int, escaped),
        decreases cs.len() - k,
    {
        let c = cs[k];
        k += 1;
        if escaped {
            escaped = false;
        } else if c == '\\' {
            escaped = true;
        } else if c == '"' {
            return k;
        }
    }
    k
}

fn number_char(c: char) -> (r: bool)
    ensures
        r == is_number_char(c),
{
    ('0' <= c && c <= '9') || c == '.' || c == 'x' || c == 'o' || c == 'b' || c == '_' || ('a' <= c
        && c <= 'z') || ('A' <= c && c <= 'Z')
}

fn scan_number(cs: &Vec<char>, j: usize) -> (e: usize)
    requires
        j <= cs.len(),
    ensures
        e == number_end(cs@, j as int),
{
    let mut k = j;
    while k < cs.len() && number_char(cs[k])
        invariant
            j <= k <= cs.len(),
            number_end(cs@, j as int) == number_end(cs@, k as int),
        decreases cs.len() - k,
    {
        k += 1;
    }
    k
}

fn scan_ident(cs: &Vec<char>, i: usize) -> (e: usize)
    requires
        i < cs.len(),
        is_ident_start(cs@[i as int]),
    ensures
        e == ident_end(cs@, i + 1),
        forall|m: int| i <= m < e ==> #[trigger] is_ident_char(cs@[m]),
{
    let mut k = i;
    while k < cs.len() && (is_alphanumeric(cs[k]) || cs[k] == '_')
        invariant
            i <= k <= cs.len(),
            is_ident_start(cs@[i as int]),
            k > i ==> ident_end(cs@, i + 1) == ident_end(cs@, k as int),
            forall|m: int| i <= m < k ==> #[trigger] is_ident_char(cs@[m]),
        decreases cs.len() - k,
    {
        k += 1;
    }
    k
}

/// The class of an identifier.
pub fn classify_word(w: &str) -> (k: TokenKind)
    ensures
        k == word_kind(w@),
{
    if same_text(w, "fn") || same_text(w, "let") || same_text(w, "struct") || same_text(w, "impl")
        || same_text(w, "match") || same_text(w, "if") || same_text(w, "else") || same_text(w, "use")
        || same_text(w, "pub") || same_text(w, "mod") || same_text(w, "return") || same_text(w, "true")
        || same_text(w, "false") || same_text(w, "loop") || same_text(w, "while") || same_text(w, "for")
        || same_text(w, "in") || same_text(w, "static") || same_text(w, "const") || same_text(w, "mut")
        || same_text(w, "ref") || same_text(w, "self") || same_text(w, "Self") || same_text(w, "as")
        || same_text(w, "break") || same_text(w, "continue") || same_text(w, "crate") || same_text(
        w,
        "extern",
    ) || same_text(w, "enum") || same_text(w, "super") || same_text(w, "trait") || same_text(
        w,
        "type",
    ) || same_text(w, "unsafe") || same_text(w, "where") {
        TokenKind::Keyword
    } else if same_text(w, "String") || same_text(w, "Option") || same_text(w, "Result")
        || same_text(w, "Vec") || same_text(w, "u8") || same_text(w, "u16") || same_text(w, "u32")
        || same_text(w, "u64") || same_text(w, "u128") || same_text(w, "usize") || same_text(w, "i8")
        || same_text(w, "i16") || same_text(w, "i32") || same_text(w, "i64") || same_text(w, "i128")
        || same_text(w, "isize") || same_text(w, "f32") || same_text(w, "f64") || same_text(w, "bool")
        || same_text(w, "char") || same_text(w, "str") {
        TokenKind::Type
    } else {
        TokenKind::Plain
    }
}

/// The token that starts at `i`, and the position after it.
fn token_at(cs: &Vec<char>, i: usize) -> (r: (Span, usize))
    requires
        i < cs.len(),
    ensures
        r.1 as int == token(cs@, i as int).0,
        r.0@ == (cs@.subrange(i as int, r.1 as int), token(cs@, i as int).1),
        ident_piece_ok(r.0.text@),
{
    proof {
        lemma_token_bounds(cs@, i as int);
    }
    let c = cs[i];
    let (end, kind) = if c == '/' {
        if i + 1 < cs.len() && cs[i + 1] == '/' {
            (scan_comment(cs, i + 2), TokenKind::Comment)
        } else {
            (i + 1, TokenKind::Plain)
        }
    } else if c == '"' {
        (scan_string(cs, i + 1), TokenKind::StringLit)
    } else if '0' <= c && c <= '9' {
        (scan_number(cs, i), TokenKind::Number)
    } else if is_alphabetic(c) || c == '_' {
        let e = scan_ident(cs, i);
        let word = text_of(cs, i, e);
        assert forall|m: int| 0 <= m < word@.len() implies #[trigger] is_ident_char(word@[m]) by {
            assert(word@[m] == cs@[i + m]);
        }
        let kind = classify_word(word.as_str());
        return (Span { text: word, kind }, e);
    } else {
        (i + 1, TokenKind::Plain)
    };
    (Span { text: text_of(cs, i, end), kind }, end)
}

/// Splits source text into classified pieces: line comments, string
/// literals, number literals, identifiers (keywords and built-in type names
/// told apart) and single other characters.
pub fn highlight(code: &str) -> (spans: Vec<Span>)
    ensures
        span_views(spans@) == tokens(code@, 0),
        joined(span_views(spans@)) == code@,
        forall|k: int| 0 <= k < spans@.len() ==> ident_piece_ok(#[trigger] spans@[k].text@),
{
    let cs = chars_of(code);
    let n = cs.len();
    let mut spans: Vec<Span> = Vec::new();
    let mut i: usize = 0;
    while i < n
        invariant
            i <= n == cs@.len(),
            span_views(spans@) + tokens(cs@, i as int) == tokens(cs@, 0),
            forall|k: int| 0 <= k < spans@.len() ==> ident_piece_ok(#[trigger] spans@[k].text@),
        decreases n - i,
    {
        let ghost before = spans@;
        let (sp, e) = token_at(&cs, i);
        proof {
            lemma_token_bounds(cs@, i as int);
            assert(tokens(cs@, i as int) =~= seq![sp@] + tokens(cs@, e as int));
        }
        spans.push(sp);
        assert(span_views(spans@) =~= span_views(before).push(sp@));
        i = e;
        assert(span_views(spans@) + tokens(cs@, i as int) =~= tokens(cs@, 0));
    }
    assert(span_views(spans@) =~= tokens(cs@, 0));
    proof {
        lemma_tokens_cover(cs@, 0);
        assert(cs@.subrange(0, n as int) =~= cs@);
    }
    spans
}

/// The red, green and blue parts of the color a class is shown in.
pub open spec fn kind_rgb(k: TokenKind) -> (u8, u8, u8) {
    match k {
        TokenKind::Keyword => (86, 156, 214),
        TokenKind::StringLit => (206, 145, 120),
        TokenKind::Comment => (106, 153, 85),
        TokenKind::Number => (181, 206, 168),
        TokenKind::Type => (78, 201, 176),
        TokenKind::Plain => (220, 220, 220),
    }
}

impl TokenKind {
    /// The color this class is shown in, as red, green and blue.
    pub fn rgb(self) -> (r: (u8, u8, u8))
        ensures
            r == kind_rgb(self),
    {
        match self {
            TokenKind::Keyword => (86, 156, 214),
            TokenKind::StringLit => (206, 145, 120),
            TokenKind::Comment => (106, 153, 85),
            TokenKind::Number => (181, 206, 168),
            TokenKind::Type => (78, 201, 176),
            TokenKind::Plain => (220, 220, 220),
        }
    }
}

} // verus!
