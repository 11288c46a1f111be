use vstd::prelude::*;
use crate::token::{Token, TokenType, TokV, tokens_view};
use vstd::std_specs::iter::IteratorSpec;

verus! {

/// A fatal lexical fault.
#[derive(Debug, Clone, Copy, PartialEq, Eq, Structural)]
pub enum LexError {
    /// A `.` inside a number with no digit after it.
    InvalidFloat,
    UnterminatedString,
    UnterminatedChar,
    /// A backslash in a char literal followed by a character outside `n t r \ '`.
    UnknownEscape(char),
}

/// What `char::is_alphabetic` answers (the Unicode `Alphabetic` property).
pub uninterp spec fn alphabetic(c: char) -> bool;

/// Relies on `char::is_alphabetic`, which depends on the character alone.
#[verifier::external_body]
fn is_alpha(c: char) -> (r: bool)
    ensures
        r == alphabetic(c),
{
    c.is_alphabetic()
}

/// The characters of the text, in order.
pub(crate) fn chars_of(s: &String) -> (r: Vec<char>)
    ensures
        r@ == s@,
{
    broadcast use vstd::string::axiom_spec_iter, vstd::string::next_postcondition;

    let mut it = s.as_str().chars();
    let mut r: Vec<char> = Vec::new();
    loop
        invariant_except_break
            r@ + it.remaining() == s@,
            it.obeys_prophetic_iter_laws(),
            it.decrease() is Some,
        ensures
            r@ == s@,
        decreases it.decrease()->0,
    {
        match it.next() {
            Some(c) => {
                proof {
                    assert(r@.push(c) + it.remaining() =~= s@);
                }
                r.push(c);
            },
            None => {
                proof {
                    assert(r@ =~= s@);
                }
                break;
            },
        }
    }
    r
}

/// Relies on `String: FromIterator<char>`: the text made of the characters, in order.
#[verifier::external_body]
pub(crate) fn string_of(cs: &Vec<char>) -> (r: String)
    ensures
        r@ == cs@,
{
    cs.iter().collect()
}

pub open spec fn is_digit(c: char) -> bool {
    '0' <= c && c <= '9'
}

/// Whitespace and the comment marker `#`, which are skipped without a token.
pub open spec fn is_blank(c: char) -> bool {
    c == ' ' || c == '\t' || c == '\n' || c == '\r' || c == '#'
}

/// The category of a one-character punctuation token.
pub open spec fn punct_kind(c: char) -> Option<TokenType> {
    if c == '+' || c == '*' || c == '/' {
        Some(TokenType::Operator)
    } else if c == '=' {
        Some(TokenType::Assignment)
    } else if c == '(' {
        Some(TokenType::LParen)
    } else if c == ')' {
        Some(TokenType::RParen)
    } else if c == '{' {
        Some(TokenType::LBracket)
    } else if c == '}' {
        Some(TokenType::RBracket)
    } else if c == ';' {
        Some(TokenType::SemiColon)
    } else if c == ':' {
        Some(TokenType::Colon)
    } else if c == ',' {
        Some(TokenType::Coma)
    } else {
        None
    }
}

/// The category of a scanned word: a keyword's own, else `ID`.
pub open spec fn word_kind(w: Seq<char>) -> TokenType {
    if w == seq!['f', 'n'] {
        TokenType::Fn
    } else if w == seq!['f', 'o', 'r'] {
        TokenType::For
    } else if w == seq!['w', 'h', 'i', 'l', 'e'] {
        TokenType::While
    } else if w == seq!['i', 'f'] {
        TokenType::If
    } else if w == seq!['t', 'r', 'u', 'e'] {
        TokenType::True
    } else if w == seq!['f', 'a', 'l', 's', 'e'] {
        TokenType::False
    } else if w == seq!['s', 't', 'r', 'i', 'n', 'g'] {
        TokenType::StringType
    } else if w == seq!['i', 'n', 't'] {
        TokenType::IntType
    } else if w == seq!['b', 'o', 'o', 'l'] {
        TokenType::BoolType
    } else if w == seq!['s', 'h', 'o', 'r', 't'] {
        TokenType::ShortType
    } else if w == seq!['c', 'h', 'a', 'r'] {
        TokenType::CharType
    } else if w == seq!['f', 'l', 'o', 'a', 't'] {
        TokenType::FloatType
    } else if w == seq!['l', 'o', 'n', 'g'] {
        TokenType::LongType
    } else if w == seq!['v', 'o', 'i', 'd'] {
        TokenType::VoidType
    } else if w == seq!['r', 'e', 't', 'u', 'r', 'n'] {
        TokenType::Return
    } else {
        TokenType::ID
    }
}

/// The character that an escape letter in a char literal stands for.
pub open spec fn escaped(c: char) -> Option<char> {
    if c == 'n' {
        Some('\n')
    } else if c == 't' {
        Some('\t')
    } else if c == 'r' {
        Some('\r')
    } else if c == '\\' {
        Some('\\')
    } else if c == '\'' {
        Some('\'')
    } else {
        None
    }
}

/// End of the longest run of letters and digits from `i`.
pub open spec fn word_end(s: Seq<char>, i: int) -> int
    decreases s.len() - i,
{
    if i < s.len() && (alphabetic(s[i]) || is_digit(s[i])) {
        word_end(s, i + 1)
    } else {
        i
    }
}

/// End of the longest run of digits with at most one `.` from `i`, and whether a `.` was taken.
pub open spec fn number_end(s: Seq<char>, i: int, dot: bool) -> (int, bool)
    decreases s.len() - i,
{
    if i < s.len() && is_digit(s[i]) {
        number_end(s, i + 1, dot)
    } else if i < s.len() && s[i] == '.' && !dot {
        number_end(s, i + 1, true)
    } else {
        (i, dot)
    }
}

/// First position at or after `i` that holds `"`, or the length.
pub open spec fn quote_end(s: Seq<char>, i: int) -> int
    decreases s.len() - i,
{
    if i < s.len() && s[i] != '"' {
        quote_end(s, i + 1)
    } else {
        i
    }
}

/// The char literal that opens with `'` at `i`, and the position after it.
pub open spec fn char_lexeme(s: Seq<char>, i: int) -> Result<(TokV, int), LexError> {
    if i + 1 >= s.len() {
        Err(LexError::UnterminatedChar)
    } else if s[i + 1] == '\\' {
        if i + 3 < s.len() && s[i + 3] == '\'' {
            match escaped(s[i + 2]) {
                Some(e) => Ok(((TokenType::CharLiteral, seq![e]), i + 4)),
                None => Err(LexError::UnknownEscape(s[i + 2])),
            }
        } else {
            Err(LexError::UnterminatedChar)
        }
    } else if i + 2 < s.len() && s[i + 2] == '\'' {
        Ok(((TokenType::CharLiteral, seq![s[i + 1]]), i + 3))
    } else {
        Err(LexError::UnterminatedChar)
    }
}

/// The number that starts with a digit at `i`, and the position after it.
pub open spec fn number_lexeme(s: Seq<char>, i: int) -> Result<(TokV, int), LexError> {
    let (j, dot) = number_end(s, i, false);
    let t = s.subrange(i, j);
    if !dot {
        Ok(((TokenType::IntLiteral, t), j))
    } else if t.last() == '.' {
        Err(LexError::InvalidFloat)
    } else {
        Ok(((TokenType::FloatLiteral, t), j))
    }
}

/// The word that starts with a letter at `i`, and the position after it.
pub open spec fn word_lexeme(s: Seq<char>, i: int) -> (TokV, int) {
    let j = word_end(s, i);
    let w = s.subrange(i, j);
    ((word_kind(w), w), j)
}

/// The string literal that opens with `"` at `i`, and the position after it.
pub open spec fn string_lexeme(s: Seq<char>, i: int) -> Result<(TokV, int), LexError> {
    let j = quote_end(s, i + 1);
    if j < s.len() {
        Ok(((TokenType::StringLiteral, s.subrange(i + 1, j)), j + 1))
    } else {
        Err(LexError::UnterminatedString)
    }
}

/// Whether a token starts with the character.
pub open spec fn starts_token(c: char) -> bool {
    c == '-' || punct_kind(c) is Some || c == '"' || c == '\'' || alphabetic(c) || is_digit(c)
}

/// The token that starts at `i`, and the position after it.
pub open spec fn lexeme(s: Seq<char>, i: int) -> Result<(TokV, int), LexError> {
    let c = s[i];
    if c == '-' {
        if i + 1 < s.len() && s[i + 1] == '>' {
            Ok(((TokenType::RetOp, seq!['-', '>']), i + 2))
        } else {
            Ok(((TokenType::Operator, seq!['-']), i + 1))
        }
    } else if punct_kind(c) is Some {
        Ok(((punct_kind(c)->0, seq![c]), i + 1))
    } else if c == '"' {
        string_lexeme(s, i)
    } else if c == '\'' {
        char_lexeme(s, i)
    } else if alphabetic(c) {
        Ok(word_lexeme(s, i))
    } else {
        number_lexeme(s, i)
    }
}

/// The outcome of scanning from `i`, having produced `toks` and skipped `skipped` so far:
/// the tokens or the first fault, and every unrecognised character met before the end or
/// the fault.
pub open spec fn lex_from(s: Seq<char>, i: int, toks: Seq<TokV>, skipped: Seq<char>) -> (
    Result<Seq<TokV>, LexError>,
    Seq<char>,
)
    decreases s.len() - i,
{
    if i >= s.len() {
        (Ok(toks), skipped)
    } else if is_blank(s[i]) {
        lex_from(s, i + 1, toks, skipped)
    } else if starts_token(s[i]) {
        match lexeme(s, i) {
            Ok((t, j)) => if i < j <= s.len() {
                lex_from(s, j, toks.push(t), skipped)
            } else {
                (Ok(toks), skipped)
            },
            Err(e) => (Err(e), skipped),
        }
    } else {
        lex_from(s, i + 1, toks, skipped.push(s[i]))
    }
}

/// Tokenizing source text: its tokens in source order (or the first fault), and the
/// unrecognised characters that were skipped.
pub open spec fn lex(s: Seq<char>) -> (Result<Seq<TokV>, LexError>, Seq<char>) {
    lex_from(s, 0, Seq::empty(), Seq::empty())
}

/// The view of a tokenizer result.
pub open spec fn lex_result_view(r: Result<Vec<Token>, LexError>) -> Result<Seq<TokV>, LexError> {
    match r {
        Ok(v) => Ok(tokens_view(v@)),
        Err(e) => Err(e),
    }
}

/// A cursor over the characters of one source text.
pub struct Lexer {
    pos: usize,
    current: char,
    line_clone: Vec<char>,
    skipped: Vec<char>,
}

impl Lexer {
    /// The cursor is within the text, and `current` is the character under it.
    pub closed spec fn wf(&self) -> bool {
        &&& self.pos <= self.line_clone.len()
        &&& self.pos < self.line_clone.len() ==> self.current == self.line_clone@[self.pos as int]
    }

    pub closed spec fn source(&self) -> Seq<char> {
        self.line_clone@
    }

    pub closed spec fn position(&self) -> int {
        self.pos as int
    }

    /// The unrecognised characters that the last run skipped.
    pub closed spec fn skipped_chars(&self) -> Seq<char> {
        self.skipped@
    }

    pub fn new() -> (r: Self)
        ensures
            r.wf(),
            r.position() == 0,
            r.source() == Seq::<char>::empty(),
            r.skipped_chars() == Seq::<char>::empty(),
    {
        Self { pos: 0, current: ' ', line_clone: Vec::new(), skipped: Vec::new() }
    }

    /// The unrecognised characters that the last call of `token_nize` skipped, in order.
    pub fn skipped(&self) -> (r: &Vec<char>)
        ensures
            r@ == self.skipped_chars(),
    {
        &self.skipped
    }

    fn advance(&mut self)
        requires
            old(self).wf(),
            old(self).pos < old(self).line_clone.len(),
        ensures
            final(self).wf(),
            final(self).pos == old(self).pos + 1,
            final(self).line_clone@ == old(self).line_clone@,
            final(self).skipped@ == old(self).skipped@,
    {
        self.pos += 1;
        if self.pos < self.line_clone.len() {
            self.current = self.line_clone[self.pos];
        }
    }

    fn number_nize(&mut self) -> (r: Result<Token, LexError>)
        requires
            old(self).wf(),
            old(self).pos < old(self).line_clone.len(),
            is_digit(old(self).line_clone@[old(self).pos as int]),
        ensures
            final(self).wf(),
            final(self).line_clone@ == old(self).line_clone@,
            final(self).skipped@ == old(self).skipped@,
            r is Ok ==> old(self).pos < final(self).pos,
            match r {
                Ok(t) => number_lexeme(old(self).source(), old(self).position()) == Ok::<
                    (TokV, int),
                    LexError,
                >((t@, final(self).position())),
                Err(e) => number_lexeme(old(self).source(), old(self).position()) == Err::<
                    (TokV, int),
                    LexError,
                >(e),
            },
    {
        let ghost s = self.line_clone@;
        let ghost start = self.pos as int;
        let mut res: Vec<char> = Vec::new();
        let mut dot_seen = false;
        while self.pos < self.line_clone.len()
            invariant
                self.wf(),
                self.line_clone@ == s,
                self.skipped@ == old(self).skipped@,
                0 <= start <= self.pos <= s.len(),
                res@ == s.subrange(start as int, self.pos as int),
                number_end(s, start, false) == number_end(s, self.pos as int, dot_seen),
                dot_seen ==> res@.len() > 0,
                is_digit(s[start]),
                start < s.len(),
            ensures
                number_end(s, start, false) == (self.pos as int, dot_seen),
                self.pos > start,
            decreases s.len() - self.pos,
        {
            let c = self.current;
            proof {
                assert(s.subrange(start, self.pos + 1) =~= s.subrange(start, self.pos as int).push(c));
            }
            if '0' <= c && c <= '9' {
                res.push(c);
            } else if c == '.' && !dot_seen {
                dot_seen = true;
                res.push(c);
            } else {
                break;
            }
            self.advance();
        }
        let text = string_of(&res);
        if dot_seen {
            let n = res.len();
            if n == 0 || res[n - 1] == '.' {
                return Err(LexError::InvalidFloat);
            }
            Ok(Token::new(text, TokenType::FloatLiteral))
        } else {
            Ok(Token::new(text, TokenType::IntLiteral))
        }
    }

    fn callinger_nize(&mut self) -> (r: Token)
        requires
            old(self).wf(),
            old(self).pos < old(self).line_clone.len(),
            alphabetic(old(self).line_clone@[old(self).pos as int]),
        ensures
            final(self).wf(),
            final(self).line_clone@ == old(self).line_clone@,
            final(self).skipped@ == old(self).skipped@,
            old(self).pos < final(self).pos,
            word_lexeme(old(self).source(), old(self).position()) == (r@, final(self).position()),
    {
        let ghost s = self.line_clone@;
        let ghost start = self.pos as int;
        let mut res: Vec<char> = Vec::new();
        while self.pos < self.line_clone.len() && (is_alpha(self.current) || ('0' <= self.current
            && self.current <= '9'))
            invariant
                self.wf(),
                self.line_clone@ == s,
                self.skipped@ == old(self).skipped@,
                0 <= start <= self.pos <= s.len(),
                res@ == s.subrange(start as int, self.pos as int),
                word_end(s, start) == word_end(s, self.pos as int),
            decreases s.len() - self.pos,
        {
            proof {
                assert(s.subrange(start, self.pos + 1) =~= s.subrange(start, self.pos as int).push(
                    self.current,
                ));
            }
            res.push(self.current);
            self.advance();
        }
        let kind = keyword_kind(&res);
        Token::new(string_of(&res), kind)
    }

    fn string_nize(&mut self) -> (r: Result<Token, LexError>)
        requires
            old(self).wf(),
            old(self).pos < old(self).line_clone.len(),
            old(self).line_clone@[old(self).pos as int] == '"' || old(self).line_clone@[old(
                self,
            ).pos as int] == '\'',
        ensures
            final(self).wf(),
            final(self).line_clone@ == old(self).line_clone@,
            final(self).skipped@ == old(self).skipped@,
            r is Ok ==> old(self).pos < final(self).pos,
            ({
                let expect = if old(self).line_clone@[old(self).pos as int] == '"' {
                    string_lexeme(old(self).source(), old(self).position())
                } else {
                    char_lexeme(old(self).source(), old(self).position())
                };
                match r {
                    Ok(t) => expect == Ok::<(TokV, int), LexError>((t@, final(self).position())),
                    Err(e) => expect == Err::<(TokV, int), LexError>(e),
                }
            }),
    {
        let ghost s = self.line_clone@;
        let ghost start = self.pos as int;
        let len = self.line_clone.len();
        if self.current == '\'' {
            let i = self.pos;
            if len - i <= 1 {
                return Err(LexError::UnterminatedChar);
            }
            let c1 = self.line_clone[i + 1];
            if c1 == '\\' {
                if !(len - i > 3 && self.line_clone[i + 3] == '\'') {
                    return Err(LexError::UnterminatedChar);
                }
                let esc = self.line_clone[i + 2];
                let e = if esc == 'n' {
                    '\n'
                } else if esc == 't' {
                    '\t'
                } else if esc == 'r' {
                    '\r'
                } else if esc == '\\' {
                    '\\'
                } else if esc == '\'' {
                    '\''
                } else {
                    return Err(LexError::UnknownEscape(esc));
                };
                self.advance();
                self.advance();
                self.advance();
                self.advance();
                let mut one: Vec<char> = Vec::new();
                one.push(e);
                Ok(Token::new(string_of(&one), TokenType::CharLiteral))
            } else {
                if !(len - i > 2 && self.line_clone[i + 2] == '\'') {
                    return Err(LexError::UnterminatedChar);
                }
                self.advance();
                self.advance();
                self.advance();
                let mut one: Vec<char> = Vec::new();
                one.push(c1);
                proof {
                    assert(one@ =~= seq![s[start + 1]]);
                }
                Ok(Token::new(string_of(&one), TokenType::CharLiteral))
            }
        } else {
            self.advance();
            let mut res: Vec<char> = Vec::new();
            while self.pos < self.line_clone.len() && self.current != '"'
                invariant
                    self.wf(),
                    self.line_clone@ == s,
                    self.skipped@ == old(self).skipped@,
                    0 <= start,
                    start + 1 <= self.pos <= s.len(),
                    res@ == s.subrange(start + 1, self.pos as int),
                    quote_end(s, start + 1) == quote_end(s, self.pos as int),
                decreases s.len() - self.pos,
            {
                proof {
                    assert(s.subrange(start + 1, self.pos + 1) =~= s.subrange(
                        start + 1,
                        self.pos as int,
                    ).push(self.current));
                }
                res.push(self.current);
                self.advance();
            }
            if self.pos >= self.line_clone.len() {
                return Err(LexError::UnterminatedString);
            }
            self.advance();
            Ok(Token::new(string_of(&res), TokenType::StringLiteral))
        }
    }

    /// Scans the whole text into tokens. Unrecognised characters are skipped and kept in
    /// `skipped`; the first lexical fault ends the scan.
    pub fn token_nize(&mut self, line: String) -> (r: Result<Vec<Token>, LexError>)
        ensures
            final(self).wf(),
            final(self).source() == line@,
            (lex_result_view(r), final(self).skipped_chars()) == lex(line@),
    {
        self.line_clone = chars_of(&line);
        self.pos = 0;
        self.skipped = Vec::new();
        let mut tokens: Vec<Token> = Vec::new();
        let ghost s = line@;
        proof {
            assert(tokens_view(tokens@) =~= Seq::<TokV>::empty());
        }
        if self.line_clone.len() == 0 {
            return Ok(tokens);
        }
        self.current = self.line_clone[0];
        while self.pos < self.line_clone.len()
            invariant
                self.wf(),
                self.line_clone@ == s,
                s == line@,
                lex_from(s, self.pos as int, tokens_view(tokens@), self.skipped@) == lex(s),
            decreases s.len() - self.pos,
        {
            let c = self.current;
            let ghost i = self.pos as int;
            if c == ' ' || c == '\t' || c == '\n' || c == '\r' || c == '#' {
                self.advance();
            } else if c == '-' || c == '+' || c == '*' || c == '/' || c == '=' || c == '('
                || c == ')' || c == '{' || c == '}' || c == ';' || c == ':' || c == ',' {
                let kind = if c == '-' {
                    TokenType::Operator
                } else {
                    punct_of(c)
                };
                let mut text: Vec<char> = Vec::new();
                text.push(c);
                if c == '-' && self.pos + 1 < self.line_clone.len() && self.line_clone[self.pos
                    + 1] == '>' {
                    text.push('>');
                    self.advance();
                    self.advance();
                    proof {
                        assert(text@ =~= seq!['-', '>']);
                    }
                    let t = Token::new(string_of(&text), TokenType::RetOp);
                    proof {
                        assert(tokens_view(tokens@.push(t)) =~= tokens_view(tokens@).push(t@));
                    }
                    tokens.push(t);
                } else {
                    self.advance();
                    proof {
                        assert(text@ =~= seq![c]);
                    }
                    let t = Token::new(string_of(&text), kind);
                    proof {
                        assert(tokens_view(tokens@.push(t)) =~= tokens_view(tokens@).push(t@));
                    }
                    tokens.push(t);
                }
            } else if c == '"' || c == '\'' || is_alpha(c) || ('0' <= c && c <= '9') {
                let r = if c == '"' || c == '\'' {
                    self.string_nize()
                } else if is_alpha(c) {
                    Ok(self.callinger_nize())
                } else {
                    self.number_nize()
                };
                match r {
                    Ok(t) => {
                        proof {
                            assert(tokens_view(tokens@.push(t)) =~= tokens_view(tokens@).push(
                                t@,
                            ));
                        }
                        tokens.push(t);
                    },
                    Err(e) => {
                        return Err(e);
                    },
                }
            } else {
                self.skipped.push(c);
                self.advance();
            }
        }
        Ok(tokens)
    }
}

/// The category of a one-character punctuation token other than `-`.
fn punct_of(c: char) -> (r: TokenType)
    requires
        punct_kind(c) is Some,
    ensures
        r == punct_kind(c)->0,
{
    if c == '+' || c == '*' || c == '/' {
        TokenType::Operator
    } else if c == '=' {
        TokenType::Assignment
    } else if c == '(' {
        TokenType::LParen
    } else if c == ')' {
        TokenType::RParen
    } else if c == '{' {
        TokenType::LBracket
    } else if c == '}' {
        TokenType::RBracket
    } else if c == ';' {
        TokenType::SemiColon
    } else if c == ':' {
        TokenType::Colon
    } else {
        TokenType::Coma
    }
}

/// Whether the characters spell out the literal.
pub(crate) fn spells(w: &Vec<char>, lit: &Vec<char>) -> (r: bool)
    ensures
        r == (w@ == lit@),
{
    if w.len() != lit.len() {
        return false;
    }
    let mut i: usize = 0;
    while i < w.len()
        invariant
            w.len() == lit.len(),
            i <= w.len(),
            forall|k: int| 0 <= k < i ==> w@[k] == lit@[k],
        decreases w.len() - i,
    {
        if w[i] != lit[i] {
            return false;
        }
        i += 1;
    }
    proof {
        assert(w@ =~= lit@);
    }
    true
}

fn keyword_kind(w: &Vec<char>) -> (r: TokenType)
    ensures
        r == word_kind(w@),
{
    if spells(w, &vec!['f', 'n']) {
        TokenType::Fn
    } else if spells(w, &vec!['f', 'o', 'r']) {
        TokenType::For
    } else if spells(w, &vec!['w', 'h', 'i', 'l', 'e']) {
        TokenType::While
    } else if spells(w, &vec!['i', 'f']) {
        TokenType::If
    } else if spells(w, &vec!['t', 'r', 'u', 'e']) {
        TokenType::True
    } else if spells(w, &vec!['f', 'a', 'l', 's', 'e']) {
        TokenType::False
    } else if spells(w, &vec!['s', 't', 'r', 'i', 'n', 'g']) {
        TokenType::StringType
    } else if spells(w, &vec!['i', 'n', 't']) {
        TokenType::IntType
    } else if spells(w, &vec!['b', 'o', 'o', 'l']) {
        TokenType::BoolType
    } else if spells(w, &vec!['s', 'h', 'o', 'r', 't']) {
        TokenType::ShortType
    } else if spells(w, &vec!['c', 'h', 'a', 'r']) {
        TokenType::CharType
    } else if spells(w, &vec!['f', 'l', 'o', 'a', 't']) {
        TokenType::FloatType
    } else if spells(w, &vec!['l', 'o', 'n', 'g']) {
        TokenType::LongType
    } else if spells(w, &vec!['v', 'o', 'i', 'd']) {
        TokenType::VoidType
    } else if spells(w, &vec!['r', 'e', 't', 'u', 'r', 'n']) {
        TokenType::Return
    } else {
        TokenType::ID
    }
}

} // verus!
