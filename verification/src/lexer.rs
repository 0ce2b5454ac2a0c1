use vstd::prelude::*;
use vstd::string::StringSliceAdditionalSpecFns;

verus! {

/// A name, compared by its text.
#[derive(PartialEq, Eq, Debug)]
pub struct Identifier(pub String);

impl View for Identifier {
    type V = Seq<char>;

    open spec fn view(&self) -> Seq<char> {
        self.0@
    }
}

impl Clone for Identifier {
    fn clone(&self) -> (r: Self)
        ensures
            r@ == self@,
    {
        Identifier(self.0.clone())
    }
}

/// The reserved words, in the order in which the tokenizer tries them.
#[derive(PartialEq, Eq, Structural, Clone, Copy, Debug)]
pub enum Keyword {
    For,
    If,
    While,
    Loop,
    Until,
    Return,
    Continue,
    Break,
    To,
    Downto,
    Fn,
    Else,
    Elif,
}

/// The operator symbols, in the order in which the tokenizer tries them:
/// a two-character symbol stands before the one-character symbol it starts with.
#[derive(PartialEq, Eq, Structural, Clone, Copy, Debug)]
pub enum Operator {
    Plus,
    Arrow,
    Minus,
    Power,
    Star,
    Slash,
    Assign,
    LeftBracket,
    RightBracket,
    LeftParen,
    RightParen,
    LeftBrace,
    RightBrace,
    Comma,
}

/// A numeric literal with a decimal point, kept as its decimal digits
/// (each element is a digit's value, 0 to 9).
#[derive(PartialEq, Eq, Debug)]
pub struct FloatLiteral {
    /// The digits before the first decimal point.
    pub whole: Vec<u8>,
    /// The digits after the first decimal point; later points are skipped.
    pub fraction: Vec<u8>,
}

impl View for FloatLiteral {
    type V = (Seq<u8>, Seq<u8>);

    open spec fn view(&self) -> (Seq<u8>, Seq<u8>) {
        (self.whole@, self.fraction@)
    }
}

impl Clone for FloatLiteral {
    fn clone(&self) -> (r: Self)
        ensures
            r@ == self@,
    {
        FloatLiteral { whole: copy_bytes(&self.whole), fraction: copy_bytes(&self.fraction) }
    }
}

fn copy_bytes(v: &Vec<u8>) -> (r: Vec<u8>)
    ensures
        r@ == v@,
{
    let mut out: Vec<u8> = Vec::with_capacity(v.len());
    let mut i: usize = 0;
    while i < v.len()
        invariant
            i <= v@.len(),
            out@ == v@.subrange(0, i as int),
        decreases v@.len() - i,
    {
        out.push(v[i]);
        i += 1;
        assert(out@ =~= v@.subrange(0, i as int));
    }
    assert(out@ =~= v@);
    out
}

/// A token of the language.
#[allow(non_camel_case_types)]
#[derive(PartialEq, Debug)]
pub enum Token {
    IDENTIFIER(Identifier),
    OPERATOR(Operator),
    KEYWORD(Keyword),
    INTEGER(i32),
    FLOAT(FloatLiteral),
    SEMICOLON,
    ERROR,
    EOF,
}

/// What a token is, in mathematical terms.
pub enum TokenModel {
    Identifier(Seq<char>),
    Operator(Operator),
    Keyword(Keyword),
    Integer(i32),
    Float(Seq<u8>, Seq<u8>),
    Semicolon,
    Error,
    Eof,
}

impl View for Token {
    type V = TokenModel;

    open spec fn view(&self) -> TokenModel {
        match self {
            Token::IDENTIFIER(id) => TokenModel::Identifier(id@),
            Token::OPERATOR(op) => TokenModel::Operator(*op),
            Token::KEYWORD(k) => TokenModel::Keyword(*k),
            Token::INTEGER(i) => TokenModel::Integer(*i),
            Token::FLOAT(f) => TokenModel::Float(f.whole@, f.fraction@),
            Token::SEMICOLON => TokenModel::Semicolon,
            Token::ERROR => TokenModel::Error,
            Token::EOF => TokenModel::Eof,
        }
    }
}

/// The statement terminator `;`.
pub const SEMICOLON: u8 = 59;

/// The decimal point `.`.
pub const POINT: u8 = 46;

/// The digit `0`.
pub const DIGIT_0: u8 = 48;

/// The digit `9`.
pub const DIGIT_9: u8 = 57;

/// The letter `a`.
pub const LOWER_A: u8 = 97;

/// The letter `z`.
pub const LOWER_Z: u8 = 122;

/// The letter `A`.
pub const UPPER_A: u8 = 65;

/// The letter `Z`.
pub const UPPER_Z: u8 = 90;

/// The underscore `_`.
pub const UNDERSCORE: u8 = 95;

/// The space.
pub const SPACE: u8 = 32;

/// The tab.
pub const TAB: u8 = 9;

/// The line feed.
pub const LINE_FEED: u8 = 10;

/// The carriage return.
pub const CARRIAGE_RETURN: u8 = 13;

/// The classes of bytes that the tokenizer scans in runs.
#[derive(PartialEq, Eq, Structural, Clone, Copy, Debug)]
pub enum ByteClass {
    /// Space, tab, line feed, carriage return.
    Space,
    /// ASCII letters, digits and the underscore.
    IdentPart,
    /// ASCII digits.
    Digit,
    /// ASCII digits and the decimal point.
    NumberPart,
}

/// Whether `b` is an ASCII digit.
pub open spec fn is_digit(b: u8) -> bool {
    DIGIT_0 <= b <= DIGIT_9
}

/// Whether an identifier may start with `b`: an ASCII letter or the underscore.
pub open spec fn is_ident_start(b: u8) -> bool {
    (LOWER_A <= b <= LOWER_Z) || (UPPER_A <= b <= UPPER_Z) || b == UNDERSCORE
}

/// Whether `b` belongs to `class`.
pub open spec fn in_class(class: ByteClass, b: u8) -> bool {
    match class {
        ByteClass::Space => b == SPACE || b == TAB || b == LINE_FEED || b == CARRIAGE_RETURN,
        ByteClass::IdentPart => is_ident_start(b) || is_digit(b),
        ByteClass::Digit => is_digit(b),
        ByteClass::NumberPart => is_digit(b) || b == POINT,
    }
}

/// The length of the longest run of bytes of `class` that starts at `pos`.
pub open spec fn run_len(text: Seq<u8>, pos: int, class: ByteClass) -> nat
    decreases text.len() - pos,
{
    if 0 <= pos < text.len() && in_class(class, text[pos]) {
        1 + run_len(text, pos + 1, class)
    } else {
        0
    }
}

/// Whether `pat` stands in `text` at `pos`.
pub open spec fn has_prefix_at(text: Seq<u8>, pos: int, pat: Seq<u8>) -> bool {
    0 <= pos && pos + pat.len() <= text.len() && text.subrange(pos, pos + pat.len()) == pat
}

/// The bytes that write a keyword.
pub open spec fn keyword_text(k: Keyword) -> Seq<u8> {
    match k {
        Keyword::For => seq![102u8, 111u8, 114u8], // for
        Keyword::If => seq![105u8, 102u8], // if
        Keyword::While => seq![119u8, 104u8, 105u8, 108u8, 101u8], // while
        Keyword::Loop => seq![108u8, 111u8, 111u8, 112u8], // loop
        Keyword::Until => seq![117u8, 110u8, 116u8, 105u8, 108u8], // until
        Keyword::Return => seq![114u8, 101u8, 116u8, 117u8, 114u8, 110u8], // return
        Keyword::Continue => seq![99u8, 111u8, 110u8, 116u8, 105u8, 110u8, 117u8, 101u8], // continue
        Keyword::Break => seq![98u8, 114u8, 101u8, 97u8, 107u8], // break
        Keyword::To => seq![116u8, 111u8], // to
        Keyword::Downto => seq![100u8, 111u8, 119u8, 110u8, 116u8, 111u8], // downto
        Keyword::Fn => seq![102u8, 110u8], // fn
        Keyword::Else => seq![101u8, 108u8, 115u8, 101u8], // else
        Keyword::Elif => seq![101u8, 108u8, 105u8, 102u8], // elif
    }
}

/// The bytes that write an operator.
pub open spec fn operator_text(op: Operator) -> Seq<u8> {
    match op {
        Operator::Plus => seq![43u8], // +
        Operator::Arrow => seq![45u8, 62u8], // ->
        Operator::Minus => seq![45u8], // -
        Operator::Power => seq![42u8, 42u8], // **
        Operator::Star => seq![42u8], // *
        Operator::Slash => seq![47u8], // /
        Operator::Assign => seq![61u8], // =
        Operator::LeftBracket => seq![91u8], // [
        Operator::RightBracket => seq![93u8], // ]
        Operator::LeftParen => seq![40u8], // (
        Operator::RightParen => seq![41u8], // )
        Operator::LeftBrace => seq![123u8], // {
        Operator::RightBrace => seq![125u8], // }
        Operator::Comma => seq![44u8], // ,
    }
}

/// The keyword that is tried in place `i`.
pub open spec fn keyword_of(i: int) -> Keyword {
    if i == 0 {
        Keyword::For
    } else if i == 1 {
        Keyword::If
    } else if i == 2 {
        Keyword::While
    } else if i == 3 {
        Keyword::Loop
    } else if i == 4 {
        Keyword::Until
    } else if i == 5 {
        Keyword::Return
    } else if i == 6 {
        Keyword::Continue
    } else if i == 7 {
        Keyword::Break
    } else if i == 8 {
        Keyword::To
    } else if i == 9 {
        Keyword::Downto
    } else if i == 10 {
        Keyword::Fn
    } else if i == 11 {
        Keyword::Else
    } else {
        Keyword::Elif
    }
}

/// The operator that is tried in place `i`.
pub open spec fn operator_of(i: int) -> Operator {
    if i == 0 {
        Operator::Plus
    } else if i == 1 {
        Operator::Arrow
    } else if i == 2 {
        Operator::Minus
    } else if i == 3 {
        Operator::Power
    } else if i == 4 {
        Operator::Star
    } else if i == 5 {
        Operator::Slash
    } else if i == 6 {
        Operator::Assign
    } else if i == 7 {
        Operator::LeftBracket
    } else if i == 8 {
        Operator::RightBracket
    } else if i == 9 {
        Operator::LeftParen
    } else if i == 10 {
        Operator::RightParen
    } else if i == 11 {
        Operator::LeftBrace
    } else if i == 12 {
        Operator::RightBrace
    } else {
        Operator::Comma
    }
}

/// The keyword, from place `i` on, that the whole word `word` writes.
pub open spec fn keyword_named(word: Seq<u8>, i: int) -> Option<Keyword>
    decreases 13 - i,
{
    if i < 0 || i >= 13 {
        None
    } else if word == keyword_text(keyword_of(i)) {
        Some(keyword_of(i))
    } else {
        keyword_named(word, i + 1)
    }
}

/// The first operator, from place `i` on, whose text stands at `pos`.
pub open spec fn first_operator(text: Seq<u8>, pos: int, i: int) -> Option<Operator>
    decreases 14 - i,
{
    if i < 0 || i >= 14 {
        None
    } else if has_prefix_at(text, pos, operator_text(operator_of(i))) {
        Some(operator_of(i))
    } else {
        first_operator(text, pos, i + 1)
    }
}

/// The values of the decimal digits among `s`, in order; other bytes are skipped.
pub open spec fn digit_values(s: Seq<u8>) -> Seq<u8>
    decreases s.len(),
{
    if s.len() == 0 {
        Seq::<u8>::empty()
    } else if is_digit(s.last()) {
        digit_values(s.drop_last()).push((s.last() - DIGIT_0) as u8)
    } else {
        digit_values(s.drop_last())
    }
}

/// Every element of `digit_values` is the value of a digit, 0 to 9, and
/// there is one for each digit among the bytes.
pub proof fn lemma_digit_values_are_digits(s: Seq<u8>)
    ensures
        digit_values(s).len() <= s.len(),
        forall|i: int| 0 <= i < digit_values(s).len() ==> (#[trigger] digit_values(s)[i]) <= 9,
    decreases s.len(),
{
    if s.len() > 0 {
        lemma_digit_values_are_digits(s.drop_last());
    }
}

/// The number that the decimal digits `s` write.
pub open spec fn decimal_value(s: Seq<u8>) -> nat
    decreases s.len(),
{
    if s.len() == 0 {
        0
    } else {
        decimal_value(s.drop_last()) * 10 + (s.last() - DIGIT_0) as nat
    }
}

/// An integer literal's value: the number its digits write, held at `i32::MAX`.
pub open spec fn integer_value(s: Seq<u8>) -> i32 {
    if decimal_value(s) >= i32::MAX {
        i32::MAX
    } else {
        decimal_value(s) as i32
    }
}

/// The characters of an identifier that is written with the bytes `s`.
pub open spec fn bytes_as_chars(s: Seq<u8>) -> Seq<char> {
    s.map_values(|b: u8| b as char)
}

/// The token that starts at or after `pos`, and the offset right after it.
///
/// Whitespace before the token is skipped. Then, in this order: the end of the
/// text; the statement terminator; a word; an operator; a number; anything
/// else is an error token, which consumes nothing.
///
/// A word starts with a letter or an underscore and runs over letters, digits
/// and underscores. It is a keyword if the whole word is a keyword's text, and
/// an identifier otherwise: `if` is a keyword, `iffy` is an identifier. A
/// number runs over digits and, from its first decimal point on, over digits
/// and further points; with a point it is a float.
#[verifier::opaque]
pub open spec fn token_at(text: Seq<u8>, pos: int) -> (TokenModel, int) {
    let start = pos + run_len(text, pos, ByteClass::Space);
    if start < 0 || start >= text.len() {
        (TokenModel::Eof, start)
    } else if text[start] == SEMICOLON {
        (TokenModel::Semicolon, start + 1)
    } else if is_ident_start(text[start]) {
        let end = start + 1 + run_len(text, start + 1, ByteClass::IdentPart);
        let word = text.subrange(start, end);
        match keyword_named(word, 0) {
            Some(k) => (TokenModel::Keyword(k), end),
            None => (TokenModel::Identifier(bytes_as_chars(word)), end),
        }
    } else if let Some(op) = first_operator(text, start, 0) {
        (TokenModel::Operator(op), start + operator_text(op).len())
    } else if is_digit(text[start]) {
        let point = start + 1 + run_len(text, start + 1, ByteClass::Digit);
        if point < text.len() && text[point] == POINT {
            let end = point + 1 + run_len(text, point + 1, ByteClass::NumberPart);
            (
                TokenModel::Float(
                    digit_values(text.subrange(start, point)),
                    digit_values(text.subrange(point + 1, end)),
                ),
                end,
            )
        } else {
            (TokenModel::Integer(integer_value(text.subrange(start, point))), point)
        }
    } else {
        (TokenModel::Error, start)
    }
}

/// A run never leaves the text.
pub proof fn lemma_run_in_text(text: Seq<u8>, pos: int, class: ByteClass)
    requires
        0 <= pos <= text.len(),
    ensures
        pos + run_len(text, pos, class) <= text.len(),
    decreases text.len() - pos,
{
    if pos < text.len() && in_class(class, text[pos]) {
        lemma_run_in_text(text, pos + 1, class);
    }
}

/// A token other than the end of the text and the error token is not empty and
/// lies inside the text.
pub proof fn lemma_token_advances(text: Seq<u8>, pos: int)
    ensures
        token_at(text, pos).1 >= pos,
        !(token_at(text, pos).0 is Eof || token_at(text, pos).0 is Error) ==> pos < token_at(
            text,
            pos,
        ).1 <= text.len(),
{
    reveal(token_at);
    let start = pos + run_len(text, pos, ByteClass::Space);
    if 0 <= pos <= text.len() {
        lemma_run_in_text(text, pos, ByteClass::Space);
    }
    if 0 <= start < text.len() {
        lemma_run_in_text(text, start + 1, ByteClass::IdentPart);
        let point = start + 1 + run_len(text, start + 1, ByteClass::Digit);
        lemma_run_in_text(text, start + 1, ByteClass::Digit);
        if point < text.len() {
            lemma_run_in_text(text, point + 1, ByteClass::NumberPart);
        }
        lemma_first_operator_fits(text, start, 0);
    }
}

/// The operator found at an offset stands there, and is not empty.
pub proof fn lemma_first_operator_fits(text: Seq<u8>, pos: int, i: int)
    requires
        0 <= i,
    ensures
        first_operator(text, pos, i) matches Some(op) ==> has_prefix_at(
            text,
            pos,
            operator_text(op),
        ) && operator_text(op).len() > 0,
    decreases 14 - i,
{
    if i < 14 && !has_prefix_at(text, pos, operator_text(operator_of(i))) {
        lemma_first_operator_fits(text, pos, i + 1);
    }
}

/// Whitespace before a token does not change the token or the offset after
/// it: the tokenizer finds from `pos` what it finds from the end of the
/// whitespace that starts at `pos`.
pub proof fn lemma_token_ignores_leading_whitespace(text: Seq<u8>, pos: int)
    ensures
        token_at(text, pos) == token_at(text, pos + run_len(text, pos, ByteClass::Space)),
    decreases text.len() - pos,
{
    if 0 <= pos < text.len() && in_class(ByteClass::Space, text[pos]) {
        lemma_token_skips_whitespace(text, pos);
        lemma_token_ignores_leading_whitespace(text, pos + 1);
    }
}

/// From a whitespace byte the tokenizer finds what it finds from the byte
/// after it.
pub proof fn lemma_token_skips_whitespace(text: Seq<u8>, pos: int)
    requires
        0 <= pos < text.len(),
        in_class(ByteClass::Space, text[pos]),
    ensures
        token_at(text, pos) == token_at(text, pos + 1),
{
    reveal(token_at);
}

fn class_has(class: ByteClass, b: u8) -> (r: bool)
    ensures
        r == in_class(class, b),
{
    let digit = DIGIT_0 <= b && b <= DIGIT_9;
    let letter = (LOWER_A <= b && b <= LOWER_Z) || (UPPER_A <= b && b <= UPPER_Z) || b == UNDERSCORE;
    match class {
        ByteClass::Space => b == SPACE || b == TAB || b == LINE_FEED || b == CARRIAGE_RETURN,
        ByteClass::IdentPart => letter || digit,
        ByteClass::Digit => digit,
        ByteClass::NumberPart => digit || b == POINT,
    }
}

/// The offset right after the run of `class` that starts at `pos`.
fn scan_run(bytes: &[u8], pos: usize, class: ByteClass) -> (end: usize)
    ensures
        end == pos + run_len(bytes@, pos as int, class),
        pos <= bytes@.len() ==> end <= bytes@.len(),
{
    let mut i: usize = pos;
    while i < bytes.len() && class_has(class, bytes[i])
        invariant
            pos <= i,
            i <= bytes@.len() || i == pos,
            pos + run_len(bytes@, pos as int, class) == i + run_len(bytes@, i as int, class),
        decreases bytes@.len() - i,
    {
        i += 1;
    }
    i
}

fn keyword_bytes(k: Keyword) -> (r: Vec<u8>)
    ensures
        r@ == keyword_text(k),
{
    let v = match k {
        Keyword::For => vec![102u8, 111u8, 114u8], // for
        Keyword::If => vec![105u8, 102u8], // if
        Keyword::While => vec![119u8, 104u8, 105u8, 108u8, 101u8], // while
        Keyword::Loop => vec![108u8, 111u8, 111u8, 112u8], // loop
        Keyword::Until => vec![117u8, 110u8, 116u8, 105u8, 108u8], // until
        Keyword::Return => vec![114u8, 101u8, 116u8, 117u8, 114u8, 110u8], // return
        Keyword::Continue => vec![99u8, 111u8, 110u8, 116u8, 105u8, 110u8, 117u8, 101u8], // continue
        Keyword::Break => vec![98u8, 114u8, 101u8, 97u8, 107u8], // break
        Keyword::To => vec![116u8, 111u8], // to
        Keyword::Downto => vec![100u8, 111u8, 119u8, 110u8, 116u8, 111u8], // downto
        Keyword::Fn => vec![102u8, 110u8], // fn
        Keyword::Else => vec![101u8, 108u8, 115u8, 101u8], // else
        Keyword::Elif => vec![101u8, 108u8, 105u8, 102u8], // elif
    };
    assert(v@ =~= keyword_text(k));
    v
}

fn operator_bytes(op: Operator) -> (r: Vec<u8>)
    ensures
        r@ == operator_text(op),
{
    let v = match op {
        Operator::Plus => vec![43u8], // +
        Operator::Arrow => vec![45u8, 62u8], // ->
        Operator::Minus => vec![45u8], // -
        Operator::Power => vec![42u8, 42u8], // **
        Operator::Star => vec![42u8], // *
        Operator::Slash => vec![47u8], // /
        Operator::Assign => vec![61u8], // =
        Operator::LeftBracket => vec![91u8], // [
        Operator::RightBracket => vec![93u8], // ]
        Operator::LeftParen => vec![40u8], // (
        Operator::RightParen => vec![41u8], // )
        Operator::LeftBrace => vec![123u8], // {
        Operator::RightBrace => vec![125u8], // }
        Operator::Comma => vec![44u8], // ,
    };
    assert(v@ =~= operator_text(op));
    v
}

fn keyword_from_index(i: usize) -> (k: Keyword)
    ensures
        k == keyword_of(i as int),
{
    if i == 0 {
        Keyword::For
    } else if i == 1 {
        Keyword::If
    } else if i == 2 {
        Keyword::While
    } else if i == 3 {
        Keyword::Loop
    } else if i == 4 {
        Keyword::Until
    } else if i == 5 {
        Keyword::Return
    } else if i == 6 {
        Keyword::Continue
    } else if i == 7 {
        Keyword::Break
    } else if i == 8 {
        Keyword::To
    } else if i == 9 {
        Keyword::Downto
    } else if i == 10 {
        Keyword::Fn
    } else if i == 11 {
        Keyword::Else
    } else {
        Keyword::Elif
    }
}

fn operator_from_index(i: usize) -> (op: Operator)
    ensures
        op == operator_of(i as int),
{
    if i == 0 {
        Operator::Plus
    } else if i == 1 {
        Operator::Arrow
    } else if i == 2 {
        Operator::Minus
    } else if i == 3 {
        Operator::Power
    } else if i == 4 {
        Operator::Star
    } else if i == 5 {
        Operator::Slash
    } else if i == 6 {
        Operator::Assign
    } else if i == 7 {
        Operator::LeftBracket
    } else if i == 8 {
        Operator::RightBracket
    } else if i == 9 {
        Operator::LeftParen
    } else if i == 10 {
        Operator::RightParen
    } else if i == 11 {
        Operator::LeftBrace
    } else if i == 12 {
        Operator::RightBrace
    } else {
        Operator::Comma
    }
}

/// Whether the bytes of `pat` stand in `input` at `pos`.
fn matches_at(input: &[u8], pos: usize, pat: &Vec<u8>) -> (r: bool)
    ensures
        r == has_prefix_at(input@, pos as int, pat@),
{
    if pat.len() > input.len() || pos > input.len() - pat.len() {
        return false;
    }
    let mut j: usize = 0;
    while j < pat.len()
        invariant
            j <= pat@.len(),
            pos + pat@.len() <= input@.len() <= usize::MAX,
            input@.subrange(pos as int, pos + j) == pat@.subrange(0, j as int),
        decreases pat@.len() - j,
    {
        if input[pos + j] != pat[j] {
            assert(input@.subrange(pos as int, pos + pat@.len())[j as int] != pat@[j as int]);
            return false;
        }
        j += 1;
        assert(input@.subrange(pos as int, pos + j) =~= pat@.subrange(0, j as int));
    }
    assert(pat@.subrange(0, j as int) =~= pat@);
    true
}

/// The keyword that the bytes of `bytes` from `start` to `end` write, if any.
fn find_keyword(bytes: &[u8], start: usize, end: usize) -> (r: Option<Keyword>)
    requires
        start <= end <= bytes@.len(),
    ensures
        r == keyword_named(bytes@.subrange(start as int, end as int), 0),
{
    let ghost word = bytes@.subrange(start as int, end as int);
    let mut i: usize = 0;
    while i < 13
        invariant
            i <= 13,
            start <= end <= bytes@.len(),
            word == bytes@.subrange(start as int, end as int),
            keyword_named(word, 0) == keyword_named(word, i as int),
        decreases 13 - i,
    {
        let k = keyword_from_index(i);
        let text = keyword_bytes(k);
        if text.len() == end - start && matches_at(bytes, start, &text) {
            return Some(k);
        }
        assert(word != text@) by {
            if text@.len() == end - start {
                assert(!has_prefix_at(bytes@, start as int, text@));
            } else {
                assert(word.len() != text@.len());
            }
        }
        i += 1;
    }
    None
}

fn find_operator(bytes: &[u8], pos: usize) -> (r: Option<Operator>)
    ensures
        r == first_operator(bytes@, pos as int, 0),
{
    let mut i: usize = 0;
    while i < 14
        invariant
            i <= 14,
            first_operator(bytes@, pos as int, 0) == first_operator(bytes@, pos as int, i as int),
        decreases 14 - i,
    {
        let op = operator_from_index(i);
        let text = operator_bytes(op);
        if matches_at(bytes, pos, &text) {
            return Some(op);
        }
        i += 1;
    }
    None
}

/// `String::push` of std: the string grows by the one character `c`.
#[verifier::external_body]
fn push_char(s: &mut String, c: char)
    ensures
        final(s)@ == old(s)@.push(c),
{
    s.push(c);
}

/// The bytes of `bytes` from `start` to `end`, each as a character.
fn identifier_text(bytes: &[u8], start: usize, end: usize) -> (r: String)
    requires
        start <= end <= bytes@.len(),
    ensures
        r@ == bytes_as_chars(bytes@.subrange(start as int, end as int)),
{
    let mut buf = String::new();
    let mut i: usize = start;
    while i < end
        invariant
            start <= i <= end <= bytes@.len(),
            buf@ == bytes_as_chars(bytes@.subrange(start as int, i as int)),
        decreases end - i,
    {
        push_char(&mut buf, bytes[i] as char);
        i += 1;
        assert(buf@ =~= bytes_as_chars(bytes@.subrange(start as int, i as int)));
    }
    buf
}

/// The name under which a binary operator is called: its symbol.
pub open spec fn operator_name(op: Operator) -> Seq<char> {
    bytes_as_chars(operator_text(op))
}

/// The identifier that names the operator `op`.
pub fn operator_identifier(op: Operator) -> (r: Identifier)
    ensures
        r@ == operator_name(op),
{
    let bytes = operator_bytes(op);
    assert(bytes@.subrange(0, bytes@.len() as int) =~= bytes@);
    Identifier(identifier_text(bytes.as_slice(), 0, bytes.len()))
}

/// The digit values among the bytes of `bytes` from `start` to `end`.
fn collect_digits(bytes: &[u8], start: usize, end: usize) -> (r: Vec<u8>)
    requires
        start <= end <= bytes@.len(),
    ensures
        r@ == digit_values(bytes@.subrange(start as int, end as int)),
{
    let mut out: Vec<u8> = Vec::new();
    let mut i: usize = start;
    while i < end
        invariant
            start <= i <= end <= bytes@.len(),
            out@ == digit_values(bytes@.subrange(start as int, i as int)),
        decreases end - i,
    {
        let b = bytes[i];
        proof {
            let next = bytes@.subrange(start as int, i + 1);
            assert(next.drop_last() =~= bytes@.subrange(start as int, i as int));
            assert(next.last() == b);
        }
        if DIGIT_0 <= b && b <= DIGIT_9 {
            out.push(b - DIGIT_0);
        }
        i += 1;
    }
    out
}

/// The value of the digits of `bytes` from `start` to `end`, held at `i32::MAX`.
fn read_integer(bytes: &[u8], start: usize, end: usize) -> (r: i32)
    requires
        start <= end <= bytes@.len(),
        forall|j: int| start <= j < end ==> is_digit(#[trigger] bytes@[j]),
    ensures
        r == integer_value(bytes@.subrange(start as int, end as int)),
{
    let mut acc: i64 = 0;
    let mut i: usize = start;
    while i < end
        invariant
            start <= i <= end <= bytes@.len(),
            forall|j: int| start <= j < end ==> is_digit(#[trigger] bytes@[j]),
            0 <= acc <= i32::MAX,
            acc == integer_value(bytes@.subrange(start as int, i as int)),
        decreases end - i,
    {
        let b = bytes[i];
        proof {
            let next = bytes@.subrange(start as int, i + 1);
            assert(next.drop_last() =~= bytes@.subrange(start as int, i as int));
            assert(next.last() == b);
            assert(is_digit(bytes@[i as int]));
        }
        let d: i64 = (b - DIGIT_0) as i64;
        let grown: i64 = acc * 10 + d;
        acc = if grown >= 2147483647 {
            2147483647
        } else {
            grown
        };
        i += 1;
    }
    acc as i32
}

/// Reads the token that starts at or after the byte offset `pos` of `input`.
///
/// Returns the token and the offset right after it. The function depends on
/// nothing but its arguments, so a caller may call it again from a saved offset.
pub fn next_token(input: &str, pos: usize) -> (r: (Token, usize))
    ensures
        r.0@ == token_at(input.spec_bytes(), pos as int).0,
        r.1 == token_at(input.spec_bytes(), pos as int).1,
        r.1 >= pos,
        !(r.0 is EOF || r.0 is ERROR) ==> pos < r.1 <= input.spec_bytes().len(),
{
    let bytes = input.as_bytes();
    proof {
        reveal(token_at);
        lemma_token_advances(bytes@, pos as int);
    }
    let start = scan_run(bytes, pos, ByteClass::Space);
    if start >= bytes.len() {
        return (Token::EOF, start);
    }
    let ch = bytes[start];
    if ch == SEMICOLON {
        return (Token::SEMICOLON, start + 1);
    }
    if class_has(ByteClass::IdentPart, ch) && !class_has(ByteClass::Digit, ch) {
        let end = scan_run(bytes, start + 1, ByteClass::IdentPart);
        if let Some(k) = find_keyword(bytes, start, end) {
            return (Token::KEYWORD(k), end);
        }
        let name = identifier_text(bytes, start, end);
        return (Token::IDENTIFIER(Identifier(name)), end);
    }
    if let Some(op) = find_operator(bytes, start) {
        proof {
            lemma_first_operator_fits(bytes@, start as int, 0);
        }
        let text = operator_bytes(op);
        return (Token::OPERATOR(op), start + text.len());
    }
    if class_has(ByteClass::Digit, ch) {
        let point = scan_run(bytes, start + 1, ByteClass::Digit);
        if point < bytes.len() && bytes[point] == POINT {
            let end = scan_run(bytes, point + 1, ByteClass::NumberPart);
            let whole = collect_digits(bytes, start, point);
            let fraction = collect_digits(bytes, point + 1, end);
            return (Token::FLOAT(FloatLiteral { whole, fraction }), end);
        }
        proof {
            lemma_run_all_in_class(bytes@, start + 1, ByteClass::Digit);
        }
        let value = read_integer(bytes, start, point);
        return (Token::INTEGER(value), point);
    }
    (Token::ERROR, start)
}

/// The offset of the second decimal point of the number that is the next
/// token from `pos`, if that number has one.
pub open spec fn second_point_at(text: Seq<u8>, pos: int) -> Option<int> {
    let start = pos + run_len(text, pos, ByteClass::Space);
    let point = start + 1 + run_len(text, start + 1, ByteClass::Digit);
    let next = point + 1 + run_len(text, point + 1, ByteClass::Digit);
    if token_at(text, pos).0 is Float && next < text.len() && text[next] == POINT {
        Some(next)
    } else {
        None
    }
}

/// Finds the second decimal point of the number that is the next token from
/// `pos`. Such a number is still one float, whose later points are skipped;
/// a caller may want to warn of it.
pub fn repeated_point(input: &str, pos: usize) -> (r: Option<usize>)
    ensures
        match r {
            Some(at) => second_point_at(input.spec_bytes(), pos as int) == Some(at as int),
            None => second_point_at(input.spec_bytes(), pos as int) is None,
        },
{
    let (tk, _) = next_token(input, pos);
    let bytes = input.as_bytes();
    proof {
        reveal(token_at);
    }
    match tk {
        Token::FLOAT(_) => {
            let start = scan_run(bytes, pos, ByteClass::Space);
            let point = scan_run(bytes, start + 1, ByteClass::Digit);
            let next = scan_run(bytes, point + 1, ByteClass::Digit);
            if next < bytes.len() && bytes[next] == POINT {
                Some(next)
            } else {
                None
            }
        },
        _ => None,
    }
}

/// Every byte of a run is of the run's class.
pub proof fn lemma_run_all_in_class(text: Seq<u8>, pos: int, class: ByteClass)
    requires
        0 <= pos,
    ensures
        forall|j: int| pos <= j < pos + run_len(text, pos, class) ==> in_class(class, #[trigger] text[j]),
    decreases text.len() - pos,
{
    if pos < text.len() && in_class(class, text[pos]) {
        lemma_run_all_in_class(text, pos + 1, class);
    }
}

} // verus!
