//! The lexer: a cursor over the source bytes with one token of lookahead.

use crate::lex::error::Error;
use crate::lex::error::Kind as ErrorKind;
use crate::lex::token::{Kind, Token};
use crate::support::text_from_utf8;
use vstd::prelude::*;
use vstd::slice::slice_subrange;
use vstd::string::*;
use vstd::utf8::*;

verus! {

/// The byte of horizontal tab.
pub const TAB: u8 = 0x09;

/// The byte of line feed.
pub const LINE_FEED: u8 = 0x0a;

/// The byte of form feed.
pub const FORM_FEED: u8 = 0x0c;

/// The byte of carriage return.
pub const CARRIAGE_RETURN: u8 = 0x0d;

/// The byte of space.
pub const SPACE: u8 = 0x20;

/// The byte of `!`.
pub const BANG: u8 = 0x21;

/// The byte of `"`.
pub const QUOTE: u8 = 0x22;

/// The byte of `#`.
pub const HASH: u8 = 0x23;

/// The byte of `(`.
pub const LEFT_PAREN: u8 = 0x28;

/// The byte of `)`.
pub const RIGHT_PAREN: u8 = 0x29;

/// The byte of `*`.
pub const ASTERISK: u8 = 0x2a;

/// The byte of `+`.
pub const PLUS: u8 = 0x2b;

/// The byte of `,`.
pub const COMMA: u8 = 0x2c;

/// The byte of `-`.
pub const HYPHEN: u8 = 0x2d;

/// The byte of `/`.
pub const SLASH: u8 = 0x2f;

/// The byte of `0`.
pub const DIGIT_0: u8 = 0x30;

/// The byte of `9`.
pub const DIGIT_9: u8 = 0x39;

/// The byte of `:`.
pub const COLON: u8 = 0x3a;

/// The byte of `;`.
pub const SEMICOLON: u8 = 0x3b;

/// The byte of `<`.
pub const LESS: u8 = 0x3c;

/// The byte of `=`.
pub const EQUALS: u8 = 0x3d;

/// The byte of `>`.
pub const GREATER: u8 = 0x3e;

/// The byte of `A`.
pub const UPPER_A: u8 = 0x41;

/// The byte of `Z`.
pub const UPPER_Z: u8 = 0x5a;

/// The byte of `[`.
pub const LEFT_BRACKET: u8 = 0x5b;

/// The byte of `]`.
pub const RIGHT_BRACKET: u8 = 0x5d;

/// The byte of `_`.
pub const UNDERSCORE: u8 = 0x5f;

/// The byte of `a`.
pub const LOWER_A: u8 = 0x61;

/// The byte of `z`.
pub const LOWER_Z: u8 = 0x7a;

/// The byte of `{`.
pub const LEFT_BRACE: u8 = 0x7b;

/// The byte of `}`.
pub const RIGHT_BRACE: u8 = 0x7d;

/// ASCII whitespace: space, tab, line feed, form feed, carriage return.
pub open spec fn whitespace(b: u8) -> bool {
    b == SPACE || b == TAB || b == LINE_FEED || b == FORM_FEED || b == CARRIAGE_RETURN
}

/// The bytes that may start an identifier or a keyword.
pub open spec fn atom_head(b: u8) -> bool {
    (UPPER_A <= b <= UPPER_Z) || (LOWER_A <= b <= LOWER_Z) || b == UNDERSCORE
}

/// The decimal digits.
pub open spec fn digit(b: u8) -> bool {
    DIGIT_0 <= b <= DIGIT_9
}

/// The bytes that may continue an identifier or a keyword.
pub open spec fn atom_tail(b: u8) -> bool {
    atom_head(b) || digit(b)
}

/// The first offset at or after `from` that holds no whitespace.
pub open spec fn skip_whitespace(input: Seq<u8>, from: int) -> int
    decreases input.len() - from,
{
    if 0 <= from < input.len() && whitespace(input[from]) {
        skip_whitespace(input, from + 1)
    } else {
        from
    }
}

/// The offset just behind the first line feed at or after `from`, or the
/// end of the input where there is none.
pub open spec fn line_end(input: Seq<u8>, from: int) -> int
    decreases input.len() - from,
{
    if 0 <= from < input.len() {
        if input[from] == LINE_FEED {
            from + 1
        } else {
            line_end(input, from + 1)
        }
    } else {
        from
    }
}

/// The first offset at or after `from` that does not continue an atom.
pub open spec fn atom_end(input: Seq<u8>, from: int) -> int
    decreases input.len() - from,
{
    if 0 <= from < input.len() && atom_tail(input[from]) {
        atom_end(input, from + 1)
    } else {
        from
    }
}

/// The offset of the first `"` at or after `from`.
pub open spec fn quote_at(input: Seq<u8>, from: int) -> Option<int>
    decreases input.len() - from,
{
    if 0 <= from < input.len() {
        if input[from] == QUOTE {
            Some(from)
        } else {
            quote_at(input, from + 1)
        }
    } else {
        None
    }
}

/// Whether the bytes of `atom` are the characters of `word`.
pub open spec fn spells(atom: Seq<u8>, word: Seq<char>) -> bool {
    &&& atom.len() == word.len()
    &&& forall|i: int| 0 <= i < atom.len() ==> atom[i] == word[i] as u8
}

/// The keyword that `atom` spells, if it spells one.
pub open spec fn keyword(atom: Seq<u8>) -> Option<Kind> {
    if spells(atom, "let"@) {
        Some(Kind::Let)
    } else if spells(atom, "true"@) {
        Some(Kind::True)
    } else if spells(atom, "false"@) {
        Some(Kind::False)
    } else if spells(atom, "fn"@) {
        Some(Kind::Fn)
    } else if spells(atom, "if"@) {
        Some(Kind::If)
    } else if spells(atom, "else"@) {
        Some(Kind::Else)
    } else if spells(atom, "return"@) {
        Some(Kind::Return)
    } else {
        None
    }
}

/// Reads the digits from `cursor` on into `num`, the value of the digits
/// between `pos` and `cursor`. Yields the value and the offset behind the
/// last digit.
pub open spec fn int_from(input: Seq<u8>, pos: int, cursor: int, num: int) -> Result<
    (i32, int),
    Error,
>
    decreases input.len() - cursor,
{
    if 0 <= cursor < input.len() {
        let b = input[cursor];
        if digit(b) {
            let next = num * 10 + (b - DIGIT_0);
            if next > i32::MAX {
                Err(Error { pos: pos as usize, kind: ErrorKind::Overflow })
            } else {
                int_from(input, pos, cursor + 1, next)
            }
        } else if atom_tail(b) {
            Err(Error { pos: cursor as usize, kind: ErrorKind::BadDigit })
        } else {
            Ok((num as i32, cursor))
        }
    } else {
        Ok((num as i32, cursor))
    }
}

/// The integer literal at `pos`: its value and the offset behind it.
pub open spec fn int_at(input: Seq<u8>, pos: int) -> Result<(i32, int), Error> {
    int_from(input, pos, pos, 0)
}

/// The string literal whose opening `"` stands at `pos`: its text and the
/// offset of its closing `"`.
pub open spec fn str_at(input: Seq<u8>, pos: int) -> Result<(Seq<char>, int), Error> {
    match quote_at(input, pos + 1) {
        None => Err(Error { pos: pos as usize, kind: ErrorKind::Quote }),
        Some(close) => {
            let bytes = input.subrange(pos + 1, close);
            if valid_utf8(bytes) {
                Ok((decode_utf8(bytes), close))
            } else {
                Err(Error { pos: pos as usize, kind: ErrorKind::Unexpected })
            }
        },
    }
}

/// The identifier or keyword that starts at `pos`.
pub open spec fn atom_at(input: Seq<u8>, pos: int) -> Result<Seq<char>, Error> {
    if 0 <= pos < input.len() && atom_head(input[pos]) {
        Ok(decode_utf8(input.subrange(pos, atom_end(input, pos + 1))))
    } else {
        Err(Error { pos: pos as usize, kind: ErrorKind::Unexpected })
    }
}

/// What one step of lexing yields: a token, an error or nothing at the end
/// of the input, and the offset to go on from.
pub struct Scanned {
    pub item: Option<Result<Token, Error>>,
    pub cursor: int,
}

/// A token of `kind` at `pos`, with the scan going on from `cursor`.
pub open spec fn found(pos: int, kind: Kind, cursor: int) -> Scanned {
    Scanned { item: Some(Ok(Token { pos: pos as usize, kind })), cursor }
}

/// The token of one or two bytes that starts at `pos` with a comparison or
/// assignment sign: `two` where `=` follows, `one` otherwise.
pub open spec fn found_pair(input: Seq<u8>, pos: int, one: Kind, two: Kind) -> Scanned {
    if pos + 1 < input.len() && input[pos + 1] == EQUALS {
        found(pos, two, pos + 2)
    } else {
        found(pos, one, pos + 1)
    }
}

/// Lexes the token that follows the whitespace and the comments at
/// `cursor`.
#[verifier::opaque]
pub open spec fn scan(input: Seq<u8>, cursor: int) -> Scanned
    decreases input.len() - cursor,
{
    let pos = skip_whitespace(input, cursor);
    if !(0 <= pos < input.len()) {
        Scanned { item: None, cursor: pos }
    } else {
        let b = input[pos];
        if b == COMMA {
            found(pos, Kind::Comma, pos + 1)
        } else if b == COLON {
            found(pos, Kind::Colon, pos + 1)
        } else if b == SEMICOLON {
            found(pos, Kind::Semicolon, pos + 1)
        } else if b == LEFT_PAREN {
            found(pos, Kind::LeftParen, pos + 1)
        } else if b == RIGHT_PAREN {
            found(pos, Kind::RightParen, pos + 1)
        } else if b == LEFT_BRACKET {
            found(pos, Kind::LeftBracket, pos + 1)
        } else if b == RIGHT_BRACKET {
            found(pos, Kind::RightBracket, pos + 1)
        } else if b == LEFT_BRACE {
            found(pos, Kind::LeftBrace, pos + 1)
        } else if b == RIGHT_BRACE {
            found(pos, Kind::RightBrace, pos + 1)
        } else if b == PLUS {
            found(pos, Kind::Plus, pos + 1)
        } else if b == HYPHEN {
            found(pos, Kind::Hyphen, pos + 1)
        } else if b == ASTERISK {
            found(pos, Kind::Asterisk, pos + 1)
        } else if b == SLASH {
            found(pos, Kind::Slash, pos + 1)
        } else if b == QUOTE {
            match str_at(input, pos) {
                Ok((_, close)) => found(pos, Kind::Str, close + 1),
                Err(e) => Scanned { item: Some(Err(e)), cursor: pos + 1 },
            }
        } else if digit(b) {
            match int_at(input, pos) {
                Ok((_, end)) => found(pos, Kind::Int, end),
                Err(e) => Scanned { item: Some(Err(e)), cursor: pos },
            }
        } else if b == EQUALS {
            found_pair(input, pos, Kind::Assign, Kind::Eq)
        } else if b == BANG {
            found_pair(input, pos, Kind::Bang, Kind::Ne)
        } else if b == LESS {
            found_pair(input, pos, Kind::Lt, Kind::Le)
        } else if b == GREATER {
            found_pair(input, pos, Kind::Gt, Kind::Ge)
        } else if b == HASH {
            proof {
                lemma_skip_whitespace_bounds(input, cursor);
                lemma_line_end_bounds(input, pos + 1);
            }
            scan(input, line_end(input, pos + 1))
        } else if atom_head(b) {
            let end = atom_end(input, pos + 1);
            match keyword(input.subrange(pos, end)) {
                Some(kind) => found(pos, kind, end),
                None => found(pos, Kind::Ident, end),
            }
        } else {
            Scanned {
                item: Some(Err(Error { pos: pos as usize, kind: ErrorKind::Unexpected })),
                cursor: pos,
            }
        }
    }
}

/// Where a lexer stands: the offset of the next byte to read and the token
/// that was looked at ahead of time, if any.
pub struct State {
    pub cursor: int,
    pub peeked: Option<Result<Token, Error>>,
}

/// What the lexer hands out, and the state it is left in.
pub struct Step {
    pub item: Option<Result<Token, Error>>,
    pub state: State,
}

impl State {
    /// Takes the next token: the one looked at ahead of time, else the one
    /// at the cursor.
    pub open spec fn next(self, input: Seq<u8>) -> Step {
        match self.peeked {
            Some(item) => Step { item: Some(item), state: State { cursor: self.cursor, peeked: None } },
            None => {
                let s = scan(input, self.cursor);
                Step { item: s.item, state: State { cursor: s.cursor, peeked: None } }
            },
        }
    }

    /// Looks at the next token and keeps it for the next call.
    pub open spec fn peek(self, input: Seq<u8>) -> Step {
        match self.peeked {
            Some(item) => Step { item: Some(item), state: self },
            None => {
                let s = scan(input, self.cursor);
                Step { item: s.item, state: State { cursor: s.cursor, peeked: s.item } }
            },
        }
    }

    /// Twice what of the input is left to read, and one more with a token
    /// held ahead: every token taken makes this smaller.
    pub open spec fn left(self, input: Seq<u8>) -> nat {
        let rest: nat = if 0 <= self.cursor <= input.len() {
            (2 * (input.len() - self.cursor)) as nat
        } else {
            0
        };
        if self.peeked matches Some(Ok(_)) {
            rest + 1
        } else {
            rest
        }
    }
}

/// Skipping whitespace never moves back, nor past the end.
pub proof fn lemma_skip_whitespace_bounds(input: Seq<u8>, from: int)
    ensures
        from <= skip_whitespace(input, from),
        from <= input.len() ==> skip_whitespace(input, from) <= input.len(),
    decreases input.len() - from,
{
    if 0 <= from < input.len() && whitespace(input[from]) {
        lemma_skip_whitespace_bounds(input, from + 1);
    }
}

/// Skipping whitespace stops at the first byte that is none: every byte
/// that it passes is whitespace, and where it stops within the input the
/// byte is none.
pub proof fn lemma_skip_whitespace_first(input: Seq<u8>, from: int)
    requires
        0 <= from,
    ensures
        forall|k: int| from <= k < skip_whitespace(input, from) ==> whitespace(#[trigger] input[k]),
        skip_whitespace(input, from) < input.len() ==> !whitespace(
            input[skip_whitespace(input, from)],
        ),
    decreases input.len() - from,
{
    if from < input.len() && whitespace(input[from]) {
        lemma_skip_whitespace_first(input, from + 1);
    }
}

/// An atom ends at the first byte that does not continue it: every byte
/// before is a letter, a digit or `_`, and where the atom ends within the
/// input the byte is none of them.
pub proof fn lemma_atom_end_first(input: Seq<u8>, from: int)
    requires
        0 <= from,
    ensures
        forall|k: int| from <= k < atom_end(input, from) ==> atom_tail(#[trigger] input[k]),
        atom_end(input, from) < input.len() ==> !atom_tail(input[atom_end(input, from)]),
    decreases input.len() - from,
{
    if from < input.len() && atom_tail(input[from]) {
        lemma_atom_end_first(input, from + 1);
    }
}

/// A line ends behind its first line feed: no byte before the last one
/// passed is a line feed, and the last one is one unless the input ended.
pub proof fn lemma_line_end_first(input: Seq<u8>, from: int)
    requires
        0 <= from < input.len(),
    ensures
        from < line_end(input, from) <= input.len(),
        forall|k: int| from <= k < line_end(input, from) - 1 ==> #[trigger] input[k] != LINE_FEED,
        input[line_end(input, from) - 1] == LINE_FEED || line_end(input, from) == input.len(),
    decreases input.len() - from,
{
    if input[from] != LINE_FEED {
        if from + 1 < input.len() {
            lemma_line_end_first(input, from + 1);
        } else {
            assert(line_end(input, from + 1) == from + 1);
        }
    }
}

/// The end of a line lies at or after where the search began, within the
/// input.
pub proof fn lemma_line_end_bounds(input: Seq<u8>, from: int)
    ensures
        from <= line_end(input, from),
        from <= input.len() ==> line_end(input, from) <= input.len(),
    decreases input.len() - from,
{
    if 0 <= from < input.len() && input[from] != LINE_FEED {
        lemma_line_end_bounds(input, from + 1);
    }
}

/// The end of an atom lies at or after where the search began, within the
/// input.
pub proof fn lemma_atom_end_bounds(input: Seq<u8>, from: int)
    ensures
        from <= atom_end(input, from),
        from <= input.len() ==> atom_end(input, from) <= input.len(),
    decreases input.len() - from,
{
    if 0 <= from < input.len() && atom_tail(input[from]) {
        lemma_atom_end_bounds(input, from + 1);
    }
}

/// A closing quote, where there is one, lies at or after where the search
/// began, within the input.
pub proof fn lemma_quote_at_bounds(input: Seq<u8>, from: int)
    ensures
        quote_at(input, from) matches Some(close) ==> from <= close < input.len() && input[close]
            == QUOTE,
    decreases input.len() - from,
{
    if 0 <= from < input.len() && input[from] != QUOTE {
        lemma_quote_at_bounds(input, from + 1);
    }
}

/// The quote that is found is the first one: no byte before it is a
/// quote, and where none is found no byte is one.
pub proof fn lemma_quote_at_first(input: Seq<u8>, from: int)
    requires
        0 <= from,
    ensures
        match quote_at(input, from) {
            Some(close) => forall|k: int| from <= k < close ==> #[trigger] input[k] != QUOTE,
            None => forall|k: int| from <= k < input.len() ==> #[trigger] input[k] != QUOTE,
        },
    decreases input.len() - from,
{
    if from < input.len() && input[from] != QUOTE {
        lemma_quote_at_first(input, from + 1);
    }
}

/// An integer literal ends at or after the cursor it is read from, within
/// the input.
pub proof fn lemma_int_from_bounds(input: Seq<u8>, pos: int, cursor: int, num: int)
    ensures
        int_from(input, pos, cursor, num) matches Ok((_, end)) ==> cursor <= end && (cursor
            <= input.len() ==> end <= input.len()),
    decreases input.len() - cursor,
{
    if 0 <= cursor < input.len() && digit(input[cursor]) && num * 10 + (input[cursor] - DIGIT_0)
        <= i32::MAX {
        lemma_int_from_bounds(input, pos, cursor + 1, num * 10 + (input[cursor] - DIGIT_0));
    }
}

/// A scan never moves back nor past the end of the input, a token that it
/// finds ends behind the cursor, and outside the input it finds nothing.
pub proof fn lemma_scan_bounds(input: Seq<u8>, cursor: int)
    ensures
        cursor <= scan(input, cursor).cursor,
        cursor <= input.len() ==> scan(input, cursor).cursor <= input.len(),
        scan(input, cursor).item matches Some(Ok(tk)) ==> 0 <= cursor < scan(input, cursor).cursor,
        !(0 <= cursor < input.len()) ==> scan(input, cursor) == (Scanned { item: None, cursor }),
    decreases input.len() - cursor,
{
    reveal(scan);
    let pos = skip_whitespace(input, cursor);
    lemma_skip_whitespace_bounds(input, cursor);
    if 0 <= pos < input.len() {
        let b = input[pos];
        lemma_quote_at_bounds(input, pos + 1);
        lemma_int_from_bounds(input, pos, pos, 0);
        lemma_atom_end_bounds(input, pos + 1);
        lemma_line_end_bounds(input, pos + 1);
        if b == HASH {
            lemma_scan_bounds(input, line_end(input, pos + 1));
        } else if digit(b) {
            lemma_int_from_bounds(input, pos, pos + 1, b - DIGIT_0);
        }
    }
}

/// Taking a token leaves less to read; at the end of the input, or on an
/// error, no more than before.
pub proof fn lemma_next_progress(input: Seq<u8>, st: State)
    ensures
        st.next(input).state.left(input) <= st.left(input),
        st.next(input).item matches Some(Ok(_)) ==> st.next(input).state.left(input) < st.left(
            input,
        ),
        st.next(input).state.peeked is None,
{
    lemma_scan_bounds(input, st.cursor);
}

/// Looking ahead leaves no more to read than before.
pub proof fn lemma_peek_progress(input: Seq<u8>, st: State)
    ensures
        st.peek(input).state.left(input) <= st.left(input),
        st.peek(input).state.next(input).item == st.peek(input).item,
{
    lemma_scan_bounds(input, st.cursor);
    let s = scan(input, st.cursor);
    if st.peeked is None && s.item is None {
        lemma_scan_at_end(input, st.cursor);
    }
}

/// Once a scan has found the end of the input, the next one finds it too.
pub proof fn lemma_scan_at_end(input: Seq<u8>, cursor: int)
    requires
        scan(input, cursor).item is None,
    ensures
        scan(input, scan(input, cursor).cursor) == scan(input, cursor),
    decreases input.len() - cursor,
{
    reveal(scan);
    let pos = skip_whitespace(input, cursor);
    lemma_skip_whitespace_bounds(input, cursor);
    lemma_skip_whitespace_fixed(input, cursor);
    if 0 <= pos < input.len() {
        lemma_line_end_bounds(input, pos + 1);
        lemma_scan_at_end(input, line_end(input, pos + 1));
    }
}

/// Where skipping whitespace stops, it stays.
pub proof fn lemma_skip_whitespace_fixed(input: Seq<u8>, from: int)
    ensures
        skip_whitespace(input, skip_whitespace(input, from)) == skip_whitespace(input, from),
    decreases input.len() - from,
{
    if 0 <= from < input.len() && whitespace(input[from]) {
        lemma_skip_whitespace_fixed(input, from + 1);
    }
}


/// Bytes below 0x80 are UTF-8 as they stand.
pub proof fn lemma_ascii_is_utf8(bytes: Seq<u8>)
    requires
        forall|i: int| 0 <= i < bytes.len() ==> bytes[i] < 0x80,
    ensures
        valid_utf8(bytes),
{
    assert forall|i: int| 0 <= i < bytes.len() implies #[trigger] is_leading_byte_width_1(
        bytes[i],
    ) by {
        let b = bytes[i];
        assert(b < 0x80 ==> b & 0x80 == 0) by (bit_vector);
    }
    assert(bytes.subrange(0, 0) =~= Seq::<u8>::empty());
    assert(partial_valid_utf8(bytes, 0));
    partial_valid_utf8_extend_ascii_block(bytes, 0, bytes.len() as int);
    assert(bytes.subrange(0, bytes.len() as int) =~= bytes);
}

/// Whether `b` may start an identifier or a keyword.
pub fn is_atom_head(b: u8) -> (r: bool)
    ensures
        r == atom_head(b),
{
    (UPPER_A <= b && b <= UPPER_Z) || (LOWER_A <= b && b <= LOWER_Z) || b == UNDERSCORE
}

/// Whether `b` may continue an identifier or a keyword.
pub fn is_atom_tail(b: u8) -> (r: bool)
    ensures
        r == atom_tail(b),
{
    is_atom_head(b) || (DIGIT_0 <= b && b <= DIGIT_9)
}

/// Whether the bytes of `atom` are the characters of `word`.
fn spelling(atom: &[u8], word: &str) -> (r: bool)
    requires
        word.is_ascii(),
    ensures
        r == spells(atom@, word@),
{
    proof {
        vstd::string::is_ascii_spec_bytes(word);
    }
    let letters = word.as_bytes();
    if atom.len() != letters.len() {
        return false;
    }
    let mut i: usize = 0;
    while i < atom.len()
        invariant
            i <= atom.len(),
            atom.len() == letters.len(),
            letters@.len() == word@.len(),
            forall|j: int| 0 <= j < letters@.len() ==> letters@[j] == word@[j] as u8,
            forall|j: int| 0 <= j < i ==> atom@[j] == letters@[j],
        decreases atom.len() - i,
    {
        if atom[i] != letters[i] {
            return false;
        }
        i += 1;
    }
    true
}

/// The keyword that `atom` spells, if it spells one.
pub fn to_keyword(atom: &[u8]) -> (r: Option<Kind>)
    ensures
        r == keyword(atom@),
{
    proof {
        reveal_strlit("let");
        reveal_strlit("true");
        reveal_strlit("false");
        reveal_strlit("fn");
        reveal_strlit("if");
        reveal_strlit("else");
        reveal_strlit("return");
    }
    if spelling(atom, "let") {
        Some(Kind::Let)
    } else if spelling(atom, "true") {
        Some(Kind::True)
    } else if spelling(atom, "false") {
        Some(Kind::False)
    } else if spelling(atom, "fn") {
        Some(Kind::Fn)
    } else if spelling(atom, "if") {
        Some(Kind::If)
    } else if spelling(atom, "else") {
        Some(Kind::Else)
    } else if spelling(atom, "return") {
        Some(Kind::Return)
    } else {
        None
    }
}

/// A lexer over borrowed source bytes.
pub struct Lexer<'a> {
    pub input: &'a [u8],
    pub cursor: usize,
    pub peeked: Option<Result<Token, Error>>,
}

impl<'a> Lexer<'a> {
    /// Where this lexer stands.
    pub open spec fn state(&self) -> State {
        State { cursor: self.cursor as int, peeked: self.peeked }
    }

    /// A lexer at the start of `input`.
    pub fn new(input: &'a [u8]) -> (r: Self)
        ensures
            r.input == input,
            r.state() == (State { cursor: 0, peeked: None }),
    {
        Lexer { input, cursor: 0, peeked: None }
    }

    /// The offset of the next byte to read.
    pub fn pos(&self) -> (r: usize)
        ensures
            r == self.cursor,
    {
        self.cursor
    }

    /// Looks at the next token without taking it.
    pub fn peek(&mut self) -> (r: Option<Result<Token, Error>>)
        ensures
            final(self).input == old(self).input,
            final(self).state() == old(self).state().peek(old(self).input@).state,
            r == old(self).state().peek(old(self).input@).item,
    {
        if self.peeked.is_none() {
            self.peeked = self.next();
        }
        self.peeked
    }

    /// Takes the next token, `None` at the end of the input.
    pub fn next(&mut self) -> (r: Option<Result<Token, Error>>)
        ensures
            final(self).input == old(self).input,
            final(self).state() == old(self).state().next(old(self).input@).state,
            r == old(self).state().next(old(self).input@).item,
    {
        if let Some(peeked) = self.peeked {
            self.peeked = None;
            return Some(peeked);
        }
        let ghost input = self.input@;
        let ghost target = scan(input, self.cursor as int);
        loop
            invariant
                self.input@ == input,
                self.input == old(self).input,
                self.peeked is None,
                old(self).peeked is None,
                target == scan(input, old(self).cursor as int),
                scan(input, self.cursor as int) == target,
            decreases input.len() - self.cursor,
        {
            proof {
                reveal(scan);
                lemma_skip_whitespace_bounds(input, self.cursor as int);
            }
            self.skip_writespaces();
            let pos = self.cursor;
            proof {
                lemma_line_end_bounds(input, pos + 1);
                lemma_atom_end_bounds(input, pos + 1);
                lemma_quote_at_bounds(input, pos + 1);
            }
            let b = match self.read_byte() {
                Some(b) => b,
                None => {
                    return None;
                },
            };
            let kind = if b == COMMA {
                Ok(Kind::Comma)
            } else if b == COLON {
                Ok(Kind::Colon)
            } else if b == SEMICOLON {
                Ok(Kind::Semicolon)
            } else if b == LEFT_PAREN {
                Ok(Kind::LeftParen)
            } else if b == RIGHT_PAREN {
                Ok(Kind::RightParen)
            } else if b == LEFT_BRACKET {
                Ok(Kind::LeftBracket)
            } else if b == RIGHT_BRACKET {
                Ok(Kind::RightBracket)
            } else if b == LEFT_BRACE {
                Ok(Kind::LeftBrace)
            } else if b == RIGHT_BRACE {
                Ok(Kind::RightBrace)
            } else if b == PLUS {
                Ok(Kind::Plus)
            } else if b == HYPHEN {
                Ok(Kind::Hyphen)
            } else if b == ASTERISK {
                Ok(Kind::Asterisk)
            } else if b == SLASH {
                Ok(Kind::Slash)
            } else if b == QUOTE {
                match self.str_span(pos) {
                    Ok(span) => {
                        self.cursor = span.1 + 1;
                        Ok(Kind::Str)
                    },
                    Err(e) => Err(e),
                }
            } else if DIGIT_0 <= b && b <= DIGIT_9 {
                self.unwind();
                match self.lex_int(pos) {
                    Ok(found) => {
                        self.cursor = found.1;
                        Ok(Kind::Int)
                    },
                    Err(e) => Err(e),
                }
            } else if b == EQUALS {
                match self.read_byte() {
                    Some(c) => {
                        if c == EQUALS {
                            Ok(Kind::Eq)
                        } else {
                            self.unwind();
                            Ok(Kind::Assign)
                        }
                    },
                    None => Ok(Kind::Assign),
                }
            } else if b == BANG {
                match self.read_byte() {
                    Some(c) => {
                        if c == EQUALS {
                            Ok(Kind::Ne)
                        } else {
                            self.unwind();
                            Ok(Kind::Bang)
                        }
                    },
                    None => Ok(Kind::Bang),
                }
            } else if b == LESS {
                match self.read_byte() {
                    Some(c) => {
                        if c == EQUALS {
                            Ok(Kind::Le)
                        } else {
                            self.unwind();
                            Ok(Kind::Lt)
                        }
                    },
                    None => Ok(Kind::Lt),
                }
            } else if b == GREATER {
                match self.read_byte() {
                    Some(c) => {
                        if c == EQUALS {
                            Ok(Kind::Ge)
                        } else {
                            self.unwind();
                            Ok(Kind::Gt)
                        }
                    },
                    None => Ok(Kind::Gt),
                }
            } else if b == HASH {
                self.skip_comment();
                continue ;
            } else {
                self.unwind();
                if is_atom_head(b) {
                    let end = self.atom_span(pos + 1);
                    self.cursor = end;
                    match to_keyword(slice_subrange(self.input, pos, end)) {
                        Some(k) => Ok(k),
                        None => Ok(Kind::Ident),
                    }
                } else {
                    return Some(Err(Error { pos, kind: ErrorKind::Unexpected }));
                }
            };
            return match kind {
                Ok(kind) => Some(Ok(Token { pos, kind })),
                Err(e) => Some(Err(e)),
            };
        }
    }

    fn read_byte(&mut self) -> (r: Option<u8>)
        ensures
            final(self).input == old(self).input,
            final(self).peeked == old(self).peeked,
            old(self).cursor < old(self).input@.len() ==> r == Some(
                old(self).input@[old(self).cursor as int],
            ) && final(self).cursor == old(self).cursor + 1,
            old(self).cursor >= old(self).input@.len() ==> r is None && final(self).cursor == old(
                self,
            ).cursor,
    {
        if self.cursor < self.input.len() {
            let b = self.input[self.cursor];
            self.cursor += 1;
            Some(b)
        } else {
            None
        }
    }

    fn skip_writespaces(&mut self)
        ensures
            final(self).input == old(self).input,
            final(self).peeked == old(self).peeked,
            final(self).cursor == skip_whitespace(old(self).input@, old(self).cursor as int),
    {
        let ghost start = self.cursor as int;
        while self.cursor < self.input.len() && is_whitespace(self.input[self.cursor])
            invariant
                self.input == old(self).input,
                self.peeked == old(self).peeked,
                start == old(self).cursor,
                skip_whitespace(self.input@, self.cursor as int) == skip_whitespace(
                    self.input@,
                    start,
                ),
            decreases self.input.len() - self.cursor,
        {
            self.cursor += 1;
        }
    }

    fn unwind(&mut self)
        requires
            old(self).cursor > 0,
        ensures
            final(self).input == old(self).input,
            final(self).peeked == old(self).peeked,
            final(self).cursor == old(self).cursor - 1,
    {
        self.cursor -= 1;
    }

    /// The offset behind the atom bytes that start at `from`.
    fn atom_span(&self, from: usize) -> (end: usize)
        ensures
            end == atom_end(self.input@, from as int),
            from <= end,
            from <= self.input@.len() ==> end <= self.input@.len(),
            forall|i: int| from <= i < end ==> atom_tail(#[trigger] self.input@[i]),
    {
        let mut end = from;
        while end < self.input.len() && is_atom_tail(self.input[end])
            invariant
                from <= end,
                from <= self.input@.len() ==> end <= self.input@.len(),
                atom_end(self.input@, end as int) == atom_end(self.input@, from as int),
                forall|i: int| from <= i < end ==> atom_tail(#[trigger] self.input@[i]),
            decreases self.input.len() - end,
        {
            end += 1;
        }
        end
    }

    /// The identifier or keyword that starts at `start_pos`.
    pub fn lex_atom(&self, start_pos: usize) -> (r: Result<String, Error>)
        ensures
            match r {
                Ok(s) => atom_at(self.input@, start_pos as int) == Ok::<Seq<char>, Error>(s@),
                Err(e) => atom_at(self.input@, start_pos as int) == Err::<Seq<char>, Error>(e),
            },
    {
        if start_pos >= self.input.len() || !is_atom_head(self.input[start_pos]) {
            return Err(Error { pos: start_pos, kind: ErrorKind::Unexpected });
        }
        let end = self.atom_span(start_pos + 1);
        let bytes = slice_subrange(self.input, start_pos, end);
        proof {
            lemma_ascii_is_utf8(bytes@);
        }
        let text = text_from_utf8(bytes);
        Ok(text.unwrap())
    }

    /// The integer literal at `pos`: its value and the offset behind it.
    pub fn lex_int(&self, pos: usize) -> (r: Result<(i32, usize), Error>)
        ensures
            match r {
                Ok(found) => int_at(self.input@, pos as int) == Ok::<(i32, int), Error>(
                    (found.0, found.1 as int),
                ),
                Err(e) => int_at(self.input@, pos as int) == Err::<(i32, int), Error>(e),
            },
    {
        let mut cursor = pos;
        let mut num: i32 = 0;
        while cursor < self.input.len()
            invariant
                0 <= num,
                pos <= cursor,
                int_from(self.input@, pos as int, cursor as int, num as int) == int_at(
                    self.input@,
                    pos as int,
                ),
            decreases self.input.len() - cursor,
        {
            let b = self.input[cursor];
            if DIGIT_0 <= b && b <= DIGIT_9 {
                let d: i32 = (b - DIGIT_0) as i32;
                if num > (i32::MAX - d) / 10 {
                    assert(num * 10 + d > i32::MAX);
                    return Err(Error { pos, kind: ErrorKind::Overflow });
                }
                num = num * 10 + d;
                cursor += 1;
            } else if is_atom_tail(b) {
                return Err(Error { pos: cursor, kind: ErrorKind::BadDigit });
            } else {
                return Ok((num, cursor));
            }
        }
        Ok((num, cursor))
    }

    /// The string literal whose opening `"` stands at `pos`, and the offset
    /// of its closing `"`.
    fn str_span(&self, pos: usize) -> (r: Result<(String, usize), Error>)
        ensures
            match r {
                Ok(span) => str_at(self.input@, pos as int) == Ok::<(Seq<char>, int), Error>(
                    (span.0@, span.1 as int),
                ) && pos < span.1 < self.input@.len() && span.1 < usize::MAX,
                Err(e) => str_at(self.input@, pos as int) == Err::<(Seq<char>, int), Error>(e),
            },
    {
        if pos >= self.input.len() {
            return Err(Error { pos, kind: ErrorKind::Quote });
        }
        let mut close = pos + 1;
        while close < self.input.len() && self.input[close] != QUOTE
            invariant
                pos < close <= self.input@.len(),
                quote_at(self.input@, close as int) == quote_at(self.input@, pos + 1),
            decreases self.input.len() - close,
        {
            close += 1;
        }
        if close >= self.input.len() {
            return Err(Error { pos, kind: ErrorKind::Quote });
        }
        match text_from_utf8(slice_subrange(self.input, pos + 1, close)) {
            Some(text) => Ok((text, close)),
            None => Err(Error { pos, kind: ErrorKind::Unexpected }),
        }
    }

    /// The text of the string literal whose opening `"` stands at `pos`.
    pub fn lex_str(&self, pos: usize) -> (r: Result<String, Error>)
        ensures
            match r {
                Ok(s) => str_at(self.input@, pos as int) matches Ok(found) && found.0 == s@,
                Err(e) => str_at(self.input@, pos as int) == Err::<(Seq<char>, int), Error>(e),
            },
    {
        match self.str_span(pos) {
            Ok(span) => Ok(span.0),
            Err(e) => Err(e),
        }
    }

    fn skip_comment(&mut self)
        requires
            old(self).cursor <= old(self).input@.len(),
        ensures
            final(self).input == old(self).input,
            final(self).peeked == old(self).peeked,
            final(self).cursor == line_end(old(self).input@, old(self).cursor as int),
    {
        let ghost start = self.cursor as int;
        while self.cursor < self.input.len()
            invariant
                self.input == old(self).input,
                self.peeked == old(self).peeked,
                self.cursor <= self.input@.len(),
                start == old(self).cursor,
                line_end(self.input@, self.cursor as int) == line_end(self.input@, start),
            decreases self.input.len() - self.cursor,
        {
            let b = self.input[self.cursor];
            self.cursor += 1;
            if b == LINE_FEED {
                return ;
            }
        }
    }
}

/// Whether `b` is ASCII whitespace.
pub fn is_whitespace(b: u8) -> (r: bool)
    ensures
        r == whitespace(b),
{
    b == SPACE || b == TAB || b == LINE_FEED || b == FORM_FEED || b == CARRIAGE_RETURN
}

} // verus!
