//! The lexer: characters to tokens, one token at a time.
use vstd::prelude::*;
use crate::integer::is_digit;
use crate::text::chars_of;
use crate::text::is_word;

verus! {

/// A lexical token.
pub enum Token {
    Ident(Vec<char>),
    Keyword(Vec<char>),
    /// The raw text of a numeric literal, such as `1` or `1.0`.
    Number(Vec<char>),
    /// A string literal with its escape sequences resolved.
    StringLiteral(Vec<char>),
    Op(char),
    /// A comparison operator, or a compound assignment such as `+=`.
    Cmp(Vec<char>),
    Eof,
}

/// Whether `c` has the Unicode `White_Space` property.
pub open spec fn is_space(c: char) -> bool {
    let u = c as u32;
    (0x09 <= u <= 0x0d) || u == 0x20 || u == 0x85 || u == 0xa0 || u == 0x1680 || (0x2000 <= u
        <= 0x200a) || u == 0x2028 || u == 0x2029 || u == 0x202f || u == 0x205f || u == 0x3000
}

/// What `char::is_alphabetic` returns for `c` (the Unicode `Alphabetic` property).
pub uninterp spec fn alphabetic(c: char) -> bool;

/// What `char::is_alphanumeric` returns for `c`.
pub uninterp spec fn alphanumeric(c: char) -> bool;

/// Whether `c` has the Unicode `White_Space` property.
fn char_is_space(c: char) -> (r: bool)
    ensures
        r == is_space(c),
{
    let u = c as u32;
    (0x09 <= u && u <= 0x0d) || u == 0x20 || u == 0x85 || u == 0xa0 || u == 0x1680 || (0x2000 <= u
        && u <= 0x200a) || u == 0x2028 || u == 0x2029 || u == 0x202f || u == 0x205f || u == 0x3000
}

/// Whether `c` is an ASCII letter.
pub open spec fn is_ascii_letter(c: char) -> bool {
    ('a' <= c && c <= 'z') || ('A' <= c && c <= 'Z')
}

/// Whether an identifier can start with `c`: an alphabetic character or `_`.
/// Among ASCII characters these are the letters and `_`.
pub open spec fn starts_word(c: char) -> bool {
    if (c as u32) < 128 {
        is_ascii_letter(c) || c == '_'
    } else {
        alphabetic(c)
    }
}

/// Whether an identifier can go on with `c`: an alphanumeric character or
/// `_`. Among ASCII characters these are the letters, digits and `_`.
pub open spec fn continues_word(c: char) -> bool {
    if (c as u32) < 128 {
        is_ascii_letter(c) || is_digit(c) || c == '_'
    } else {
        alphanumeric(c)
    }
}

/// Relies on `char::is_alphabetic`: among ASCII characters exactly the
/// letters are alphabetic.
#[verifier::external_body]
fn char_is_alphabetic(c: char) -> (r: bool)
    ensures
        r == alphabetic(c),
        (c as u32) < 128 ==> (r <==> is_ascii_letter(c)),
{
    c.is_alphabetic()
}

/// Relies on `char::is_alphanumeric`: among ASCII characters exactly the
/// letters and digits are alphanumeric.
#[verifier::external_body]
fn char_is_alphanumeric(c: char) -> (r: bool)
    ensures
        r == alphanumeric(c),
        (c as u32) < 128 ==> (r <==> (is_ascii_letter(c) || is_digit(c))),
{
    c.is_alphanumeric()
}

/// The reserved words.
pub open spec fn is_keyword(s: Seq<char>) -> bool {
    s == "print"@ || s == "def"@ || s == "fn"@ || s == "return"@ || s == "if"@ || s == "else"@
        || s == "and"@ || s == "or"@
}

/// The reserved words are told apart by their first character.
pub proof fn lemma_keywords_distinct()
    ensures
        "print"@.len() == 5 && "print"@[0] == 'p',
        "def"@.len() == 3 && "def"@[0] == 'd',
        "fn"@.len() == 2 && "fn"@[0] == 'f',
        "return"@.len() == 6 && "return"@[0] == 'r',
        "if"@.len() == 2 && "if"@[0] == 'i',
        "else"@.len() == 4 && "else"@[0] == 'e',
        "and"@.len() == 3 && "and"@[0] == 'a',
        "or"@.len() == 2 && "or"@[0] == 'o',
{
    reveal_strlit("print");
    reveal_strlit("def");
    reveal_strlit("fn");
    reveal_strlit("return");
    reveal_strlit("if");
    reveal_strlit("else");
    reveal_strlit("and");
    reveal_strlit("or");
}

/// The mathematical form of a [`Token`].
pub enum Tok {
    Ident(Seq<char>),
    Keyword(Seq<char>),
    Number(Seq<char>),
    Str(Seq<char>),
    Op(char),
    Cmp(Seq<char>),
    Eof,
}

impl View for Token {
    type V = Tok;

    open spec fn view(&self) -> Tok {
        match self {
            Token::Ident(s) => Tok::Ident(s@),
            Token::Keyword(s) => Tok::Keyword(s@),
            Token::Number(s) => Tok::Number(s@),
            Token::StringLiteral(s) => Tok::Str(s@),
            Token::Op(c) => Tok::Op(*c),
            Token::Cmp(s) => Tok::Cmp(s@),
            Token::Eof => Tok::Eof,
        }
    }
}

/// The first index at or after `p` that holds a newline, else the length.
pub open spec fn line_end(s: Seq<char>, p: int) -> int
    decreases s.len() - p,
{
    if p >= s.len() || p < 0 {
        p
    } else if s[p] == '\n' {
        p
    } else {
        line_end(s, p + 1)
    }
}

/// Where the next token starts: whitespace and `;` comments skipped.
pub open spec fn skip_end(s: Seq<char>, p: int) -> int
    decreases s.len() - p,
{
    if p >= s.len() || p < 0 {
        p
    } else if is_space(s[p]) {
        skip_end(s, p + 1)
    } else if s[p] == ';' {
        let e = line_end(s, p + 1);
        if e <= p || e > s.len() {
            p
        } else {
            skip_end(s, e)
        }
    } else {
        p
    }
}

/// The end of the run of ASCII digits that starts at `p`.
pub open spec fn digits_end(s: Seq<char>, p: int) -> int
    decreases s.len() - p,
{
    if p >= s.len() || p < 0 {
        p
    } else if is_digit(s[p]) {
        digits_end(s, p + 1)
    } else {
        p
    }
}

/// The end of the run of identifier characters that starts at `p`.
pub open spec fn word_end(s: Seq<char>, p: int) -> int
    decreases s.len() - p,
{
    if p >= s.len() || p < 0 {
        p
    } else if continues_word(s[p]) {
        word_end(s, p + 1)
    } else {
        p
    }
}

/// The numeric literal whose first digit is at `q`, and where it ends: a
/// dot belongs to it only when a digit follows.
pub open spec fn number_at(s: Seq<char>, q: int) -> (Tok, int) {
    let e = digits_end(s, q + 1);
    if e + 1 < s.len() && s[e] == '.' && is_digit(s[e + 1]) {
        let e2 = digits_end(s, e + 1);
        (Tok::Number(s.subrange(q, e2)), e2)
    } else {
        (Tok::Number(s.subrange(q, e)), e)
    }
}

/// The identifier or keyword that starts at `q`, and where it ends.
pub open spec fn word_at(s: Seq<char>, q: int) -> (Tok, int) {
    let e = word_end(s, q + 1);
    let w = s.subrange(q, e);
    (if is_keyword(w) { Tok::Keyword(w) } else { Tok::Ident(w) }, e)
}

/// The character that `\c` stands for in a string literal.
pub open spec fn unescape(c: char) -> char {
    if c == 'n' {
        '\n'
    } else if c == 't' {
        '\t'
    } else {
        c
    }
}

/// The rest of a string literal from `p`, after the text `acc` read so far:
/// the whole text, and where the literal ends (past the closing delimiter,
/// or at the end of the input).
pub open spec fn string_from(s: Seq<char>, p: int, delim: char, acc: Seq<char>) -> (Seq<char>, int)
    decreases s.len() - p,
{
    if p >= s.len() || p < 0 {
        (acc, p)
    } else if s[p] == delim {
        (acc, p + 1)
    } else if s[p] == '\\' {
        if p + 1 >= s.len() {
            (acc, p + 1)
        } else {
            string_from(s, p + 2, delim, acc.push(unescape(s[p + 1])))
        }
    } else {
        string_from(s, p + 1, delim, acc.push(s[p]))
    }
}

/// Whether `s[p]` is `=`.
pub open spec fn equals_at(s: Seq<char>, p: int) -> bool {
    0 <= p < s.len() && s[p] == '='
}

/// The operator whose first character `ch` was at `p - 1`, and where it
/// ends: the longest of the operators that start there.
pub open spec fn operator_at(s: Seq<char>, p: int, ch: char) -> (Tok, int) {
    if ch == '+' || ch == '-' || ch == '*' || ch == '/' || ch == '%' || ch == '^' {
        if equals_at(s, p) {
            (Tok::Cmp(seq![ch, '=']), p + 1)
        } else {
            (Tok::Op(ch), p)
        }
    } else if ch == '=' || ch == '!' {
        if equals_at(s, p) {
            if equals_at(s, p + 1) {
                (Tok::Cmp(seq![ch, '=', '=']), p + 2)
            } else {
                (Tok::Cmp(seq![ch, '=']), p + 1)
            }
        } else {
            (Tok::Op(ch), p)
        }
    } else if ch == '<' || ch == '>' {
        if equals_at(s, p) {
            (Tok::Cmp(seq![ch, '=']), p + 1)
        } else {
            (Tok::Cmp(seq![ch]), p)
        }
    } else {
        (Tok::Op(ch), p)
    }
}

/// The token that the lexer reads from `p`, and where it leaves off.
pub open spec fn token_at(s: Seq<char>, p: int) -> (Tok, int) {
    let q = skip_end(s, p);
    if q >= s.len() || q < 0 {
        (Tok::Eof, q)
    } else {
        let c = s[q];
        if is_digit(c) {
            number_at(s, q)
        } else if c == '"' || c == '\'' {
            let (t, e) = string_from(s, q + 1, c, Seq::empty());
            (Tok::Str(t), e)
        } else if starts_word(c) {
            word_at(s, q)
        } else {
            operator_at(s, q + 1, c)
        }
    }
}

/// All the tokens that the lexer reads from `p`, up to and including `Eof`.
pub open spec fn tokens_from(s: Seq<char>, p: int) -> Seq<Tok>
    decreases s.len() - p,
{
    let (t, e) = token_at(s, p);
    if t is Eof || e <= p || e > s.len() {
        seq![t]
    } else {
        seq![t] + tokens_from(s, e)
    }
}

/// A cursor over the characters of a source text.
pub struct Lexer {
    pub input: Vec<char>,
    pub pos: usize,
}

impl Lexer {
    /// The cursor stays within the input.
    pub open spec fn wf(&self) -> bool {
        self.pos <= self.input@.len() <= usize::MAX
    }

    /// How many characters are left to read.
    pub open spec fn remaining(&self) -> nat {
        (self.input@.len() - self.pos) as nat
    }

    pub fn new(input: &str) -> (r: Lexer)
        ensures
            r.wf(),
            r.input@ == input@,
            r.pos == 0,
    {
        let input = chars_of(input);
        let _n = input.len();
        Lexer { input, pos: 0 }
    }

    pub fn peek_char(&self) -> (r: Option<char>)
        requires
            self.wf(),
        ensures
            r == (if self.pos < self.input@.len() { Some(self.input@[self.pos as int]) } else { None::<char> }),
    {
        if self.pos < self.input.len() {
            Some(self.input[self.pos])
        } else {
            None
        }
    }

    /// The character after the next one, if any.
    fn peek_second(&self) -> (r: Option<char>)
        requires
            self.wf(),
        ensures
            r == (if self.pos + 1 < self.input@.len() { Some(self.input@[self.pos + 1]) } else { None::<char> }),
    {
        if self.pos < self.input.len() && self.pos + 1 < self.input.len() {
            Some(self.input[self.pos + 1])
        } else {
            None
        }
    }

    pub fn next_char(&mut self) -> (r: Option<char>)
        requires
            old(self).wf(),
        ensures
            final(self).wf(),
            final(self).input == old(self).input,
            r == (if old(self).pos < old(self).input@.len() { Some(old(self).input@[old(self).pos as int]) } else { None::<char> }),
            final(self).pos == (if r is Some { old(self).pos + 1 } else { old(self).pos as int }),
    {
        let ch = self.peek_char();
        if ch.is_some() {
            self.pos = self.pos + 1;
        }
        ch
    }

    /// Skips whitespace and `;` comments, which run to the end of the line.
    pub fn skip_whitespace(&mut self)
        requires
            old(self).wf(),
        ensures
            final(self).wf(),
            final(self).input == old(self).input,
            final(self).pos == skip_end(old(self).input@, old(self).pos as int),
    {
        let ghost s = self.input@;
        loop
            invariant
                self.wf(),
                self.input == old(self).input,
                s == self.input@,
                skip_end(s, old(self).pos as int) == skip_end(s, self.pos as int),
            decreases self.remaining(),
        {
            match self.peek_char() {
                Some(c) => {
                    if char_is_space(c) {
                        self.pos = self.pos + 1;
                    } else if c == ';' {
                        let ghost at = self.pos as int;
                        self.pos = self.pos + 1;
                        while self.pos < self.input.len() && self.input[self.pos] != '\n'
                            invariant
                                self.wf(),
                                self.input == old(self).input,
                                s == self.input@,
                                at < self.pos,
                                line_end(s, at + 1) == line_end(s, self.pos as int),
                            decreases self.remaining(),
                        {
                            self.pos = self.pos + 1;
                        }
                        assert(line_end(s, self.pos as int) == self.pos as int);
                    } else {
                        return;
                    }
                },
                None => {
                    return;
                },
            }
        }
    }

    /// Reads the rest of a run of digits into `s`.
    fn read_digits(&mut self, s: &mut Vec<char>)
        requires
            old(self).wf(),
        ensures
            final(self).wf(),
            final(self).input == old(self).input,
            final(self).pos == digits_end(old(self).input@, old(self).pos as int),
            old(self).pos <= final(self).pos,
            final(s)@ == old(s)@ + old(self).input@.subrange(old(self).pos as int, final(self).pos as int),
    {
        let ghost t = self.input@;
        while self.pos < self.input.len() && is_ascii_digit(self.input[self.pos])
            invariant
                self.wf(),
                self.input == old(self).input,
                t == self.input@,
                old(self).pos <= self.pos,
                digits_end(t, old(self).pos as int) == digits_end(t, self.pos as int),
                s@ == old(s)@ + t.subrange(old(self).pos as int, self.pos as int),
            decreases self.remaining(),
        {
            s.push(self.input[self.pos]);
            self.pos = self.pos + 1;
            assert(t.subrange(old(self).pos as int, self.pos as int) == t.subrange(old(self).pos as int, self.pos - 1).push(t[self.pos - 1]));
        }
    }

    /// Produces the next token; at the end of the input, `Eof`, again and again.
    pub fn next_token(&mut self) -> (r: Token)
        requires
            old(self).wf(),
        ensures
            final(self).wf(),
            final(self).input == old(self).input,
            (r@, final(self).pos as int) == token_at(old(self).input@, old(self).pos as int),
            old(self).pos <= final(self).pos,
            old(self).pos == old(self).input@.len() ==> r is Eof,
            r is Eof ==> final(self).pos == final(self).input@.len(),
            !(r is Eof) ==> old(self).pos < final(self).pos,
    {
        self.skip_whitespace();
        proof {
            lemma_skip_end_bounds(self.input@, old(self).pos as int);
        }
        let ch = match self.next_char() {
            Some(c) => c,
            None => {
                return Token::Eof;
            },
        };
        if is_ascii_digit(ch) {
            self.lex_number()
        } else if ch == '"' || ch == '\'' {
            self.lex_string(ch)
        } else if char_is_alphabetic(ch) || ch == '_' {
            self.lex_word()
        } else {
            self.lex_operator(ch)
        }
    }

    /// A numeric literal whose first digit was just read.
    fn lex_number(&mut self) -> (r: Token)
        requires
            old(self).wf(),
            old(self).pos >= 1,
        ensures
            final(self).wf(),
            final(self).input == old(self).input,
            old(self).pos <= final(self).pos,
            (r@, final(self).pos as int) == number_at(old(self).input@, old(self).pos - 1),
    {
        let ghost t = self.input@;
        let ghost q: int = self.pos - 1;
        let mut num: Vec<char> = Vec::new();
        num.push(self.input[self.pos - 1]);
        assert(num@ =~= t.subrange(q, q + 1));
        self.read_digits(&mut num);
        proof {
            lemma_digits_end_bounds(t, q + 1);
        }
        let ghost e = self.pos as int;
        assert(num@ =~= t.subrange(q, e));
        let dot = self.peek_char();
        let after = self.peek_second();
        if dot == Some('.') && after.is_some() && is_ascii_digit(after.unwrap()) {
            num.push('.');
            self.pos = self.pos + 1;
            assert(num@ =~= t.subrange(q, e + 1));
            self.read_digits(&mut num);
            assert(num@ =~= t.subrange(q, self.pos as int));
            assert(digits_end(t, e + 1) == digits_end(t, e + 2));
        }
        Token::Number(num)
    }

    /// A string literal opened by `delimiter`, which was just read; it ends
    /// at the same delimiter or at the end of the input.
    fn lex_string(&mut self, delimiter: char) -> (r: Token)
        requires
            old(self).wf(),
        ensures
            final(self).wf(),
            final(self).input == old(self).input,
            old(self).pos <= final(self).pos,
            (r@, final(self).pos as int) == ({
                let (x, e) = string_from(old(self).input@, old(self).pos as int, delimiter, Seq::empty());
                (Tok::Str(x), e)
            }),
    {
        let ghost t = self.input@;
        let mut s: Vec<char> = Vec::new();
        loop
            invariant
                self.wf(),
                self.input == old(self).input,
                t == self.input@,
                old(self).pos <= self.pos,
                string_from(t, old(self).pos as int, delimiter, Seq::empty()) == string_from(t, self.pos as int, delimiter, s@),
            decreases self.remaining(),
        {
            let c = match self.next_char() {
                Some(c) => c,
                None => {
                    return Token::StringLiteral(s);
                },
            };
            if c == delimiter {
                return Token::StringLiteral(s);
            }
            if c == '\\' {
                match self.next_char() {
                    Some(e) => {
                        if e == 'n' {
                            s.push('\n');
                        } else if e == 't' {
                            s.push('\t');
                        } else {
                            s.push(e);
                        }
                    },
                    None => {
                        return Token::StringLiteral(s);
                    },
                }
            } else {
                s.push(c);
            }
        }
    }

    /// An identifier or keyword whose first character was just read.
    fn lex_word(&mut self) -> (r: Token)
        requires
            old(self).wf(),
            old(self).pos >= 1,
        ensures
            final(self).wf(),
            final(self).input == old(self).input,
            old(self).pos <= final(self).pos,
            (r@, final(self).pos as int) == word_at(old(self).input@, old(self).pos - 1),
    {
        let ghost t = self.input@;
        let ghost q: int = self.pos - 1;
        let mut ident: Vec<char> = Vec::new();
        ident.push(self.input[self.pos - 1]);
        assert(ident@ =~= t.subrange(q, q + 1));
        loop
            invariant
                self.wf(),
                self.input == old(self).input,
                t == self.input@,
                old(self).pos <= self.pos,
                q + 1 == old(self).pos,
                0 <= q,
                word_end(t, old(self).pos as int) == word_end(t, self.pos as int),
                ident@ == t.subrange(q, self.pos as int),
            ensures
                word_end(t, self.pos as int) == self.pos as int,
            decreases self.remaining(),
        {
            match self.peek_char() {
                Some(c) => {
                    if char_is_alphanumeric(c) || c == '_' {
                        ident.push(c);
                        self.pos = self.pos + 1;
                        assert(t.subrange(q, self.pos as int) =~= t.subrange(q, self.pos - 1).push(t[self.pos - 1]));
                    } else {
                        assert(word_end(t, self.pos as int) == self.pos as int);
                        break;
                    }
                },
                None => {
                    assert(word_end(t, self.pos as int) == self.pos as int);
                    break;
                },
            }
        }
        assert(word_end(t, q + 1) == self.pos as int);
        if is_word(&ident, "print") || is_word(&ident, "def") || is_word(&ident, "fn")
            || is_word(&ident, "return") || is_word(&ident, "if") || is_word(&ident, "else")
            || is_word(&ident, "and") || is_word(&ident, "or") {
            Token::Keyword(ident)
        } else {
            Token::Ident(ident)
        }
    }

    /// Takes an `=` that follows, if there is one.
    fn eat_equals(&mut self) -> (r: bool)
        requires
            old(self).wf(),
        ensures
            final(self).wf(),
            final(self).input == old(self).input,
            r == equals_at(old(self).input@, old(self).pos as int),
            final(self).pos == (if r { old(self).pos + 1 } else { old(self).pos as int }),
    {
        if self.peek_char() == Some('=') {
            self.pos = self.pos + 1;
            true
        } else {
            false
        }
    }

    /// An operator whose first character `ch` was just read; the longest
    /// match wins.
    fn lex_operator(&mut self, ch: char) -> (r: Token)
        requires
            old(self).wf(),
        ensures
            final(self).wf(),
            final(self).input == old(self).input,
            old(self).pos <= final(self).pos,
            (r@, final(self).pos as int) == operator_at(old(self).input@, old(self).pos as int, ch),
    {
        if ch == '+' || ch == '-' || ch == '*' || ch == '/' || ch == '%' || ch == '^' {
            if self.eat_equals() {
                let mut t: Vec<char> = Vec::new();
                t.push(ch);
                t.push('=');
                assert(t@ =~= seq![ch, '=']);
                return Token::Cmp(t);
            }
            Token::Op(ch)
        } else if ch == '=' || ch == '!' {
            if self.eat_equals() {
                let mut t: Vec<char> = Vec::new();
                t.push(ch);
                t.push('=');
                if self.eat_equals() {
                    t.push('=');
                    assert(t@ =~= seq![ch, '=', '=']);
                    return Token::Cmp(t);
                }
                assert(t@ =~= seq![ch, '=']);
                return Token::Cmp(t);
            }
            Token::Op(ch)
        } else if ch == '<' || ch == '>' {
            let mut t: Vec<char> = Vec::new();
            t.push(ch);
            if self.eat_equals() {
                t.push('=');
                assert(t@ =~= seq![ch, '=']);
                return Token::Cmp(t);
            }
            assert(t@ =~= seq![ch]);
            Token::Cmp(t)
        } else {
            Token::Op(ch)
        }
    }

    /// Reads the whole input: exactly the tokens that [`tokens_from`] gives
    /// from the start, the last of them the one `Eof`.
    pub fn tokenize(input: &str) -> (r: Vec<Token>)
        ensures
            r@.map_values(|t: Token| t@) == tokens_from(input@, 0),
            r@.len() > 0,
            r@.last() is Eof,
            forall|i: int| 0 <= i < r@.len() - 1 ==> !(#[trigger] r@[i] is Eof),
    {
        let mut lexer = Lexer::new(input);
        let mut out: Vec<Token> = Vec::new();
        loop
            invariant
                lexer.wf(),
                lexer.input@ == input@,
                lexer.pos <= input@.len(),
                forall|i: int| 0 <= i < out@.len() ==> !(#[trigger] out@[i] is Eof),
                tokens_from(input@, 0) == out@.map_values(|t: Token| t@) + tokens_from(input@, lexer.pos as int),
            decreases lexer.remaining(),
        {
            let ghost p = lexer.pos as int;
            let t = lexer.next_token();
            if matches!(t, Token::Eof) {
                out.push(t);
                assert(out@.map_values(|t: Token| t@) =~= out@.drop_last().map_values(|t: Token| t@).push(Tok::Eof));
                return out;
            }
            out.push(t);
            assert(out@.map_values(|t: Token| t@) =~= out@.drop_last().map_values(|t: Token| t@).push(t@));
        }
    }
}

proof fn lemma_skip_end_bounds(s: Seq<char>, p: int)
    requires
        0 <= p <= s.len(),
    ensures
        p <= skip_end(s, p) <= s.len(),
    decreases s.len() - p,
{
    if p < s.len() {
        if is_space(s[p]) {
            lemma_skip_end_bounds(s, p + 1);
        } else if s[p] == ';' {
            let e = line_end(s, p + 1);
            if e > p && e <= s.len() {
                lemma_skip_end_bounds(s, e);
            }
        }
    }
}

proof fn lemma_digits_end_bounds(s: Seq<char>, p: int)
    requires
        0 <= p <= s.len(),
    ensures
        p <= digits_end(s, p) <= s.len(),
    decreases s.len() - p,
{
    if p < s.len() && is_digit(s[p]) {
        lemma_digits_end_bounds(s, p + 1);
    }
}

/// Whether `c` is an ASCII decimal digit.
pub fn is_ascii_digit(c: char) -> (r: bool)
    ensures
        r == is_digit(c),
{
    '0' <= c && c <= '9'
}

} // verus!
