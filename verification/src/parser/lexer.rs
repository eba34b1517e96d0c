//! The lexical structure of the source language, and the lexer.
use crate::parser::token::{toks_of, Symbol, Tok, Token};
use vstd::prelude::*;
use vstd::std_specs::iter::IteratorSpec;
use vstd::string::{StrSliceExecFns, StringExecFns};

verus! {

/// Whether a character is white space between tokens.
pub open spec fn is_space(c: char) -> bool {
    c == ' ' || c == '\t' || c == '\n' || c == '\r'
}

/// Whether a character is a decimal digit.
pub open spec fn is_digit(c: char) -> bool {
    '0' <= c <= '9'
}

/// Whether a character can begin an identifier: a letter or an underscore.
pub open spec fn is_ident_start(c: char) -> bool {
    ('a' <= c <= 'z') || ('A' <= c <= 'Z') || c == '_'
}

/// Whether a character can continue an identifier.
pub open spec fn is_ident_part(c: char) -> bool {
    is_ident_start(c) || is_digit(c)
}

/// The end of the line that `pos` is on: the index of the next line feed, or
/// the length of the text.
pub open spec fn line_end(s: Seq<char>, pos: int) -> int
    decreases s.len() - pos,
{
    if pos < 0 || pos >= s.len() || s[pos] == '\n' {
        pos
    } else {
        line_end(s, pos + 1)
    }
}

/// Where the next token begins at or after `pos`: white space and comments,
/// which run from `//` to the end of their line, are passed over.
pub open spec fn skip_trivia(s: Seq<char>, pos: int) -> int
    decreases s.len() - pos,
{
    if pos < 0 || pos >= s.len() {
        pos
    } else if is_space(s[pos]) {
        skip_trivia(s, pos + 1)
    } else if s[pos] == '/' && pos + 1 < s.len() && s[pos + 1] == '/' {
        let end = line_end(s, pos);
        if pos < end <= s.len() {
            skip_trivia(s, end)
        } else {
            pos
        }
    } else {
        pos
    }
}

/// The end of the run of digits that begins at `pos`.
pub open spec fn digits_end(s: Seq<char>, pos: int) -> int
    decreases s.len() - pos,
{
    if pos < 0 || pos >= s.len() || !is_digit(s[pos]) {
        pos
    } else {
        digits_end(s, pos + 1)
    }
}

/// The end of the run of identifier characters that begins at `pos`.
pub open spec fn ident_end(s: Seq<char>, pos: int) -> int
    decreases s.len() - pos,
{
    if pos < 0 || pos >= s.len() || !is_ident_part(s[pos]) {
        pos
    } else {
        ident_end(s, pos + 1)
    }
}

/// The number that a decimal numeral denotes.
pub open spec fn digits_value(digits: Seq<char>) -> nat
    decreases digits.len(),
{
    if digits.len() == 0 {
        0
    } else {
        (10 * digits_value(digits.drop_last()) + (digits.last() as int - '0' as int)) as nat
    }
}

/// The token of a word: its keyword, or an identifier.
pub open spec fn word_token(word: Seq<char>) -> Tok {
    if word == "true"@ {
        Tok::Sym(Symbol::True)
    } else if word == "false"@ {
        Tok::Sym(Symbol::False)
    } else if word == "let"@ {
        Tok::Sym(Symbol::Let)
    } else if word == "var"@ {
        Tok::Sym(Symbol::Var)
    } else if word == "fn"@ {
        Tok::Sym(Symbol::Fn)
    } else if word == "if"@ {
        Tok::Sym(Symbol::If)
    } else if word == "else"@ {
        Tok::Sym(Symbol::Else)
    } else if word == "while"@ {
        Tok::Sym(Symbol::While)
    } else if word == "print"@ {
        Tok::Sym(Symbol::Print)
    } else {
        Tok::Ident(word)
    }
}

/// The token of an operator or punctuation mark that begins with `c` and is
/// followed by `next`, where there is a next character, and its length.
pub open spec fn mark_token(c: char, next: Option<char>) -> (Tok, int) {
    if c == '=' && next == Some('=') {
        (Tok::Sym(Symbol::EqEq), 2)
    } else if c == '!' && next == Some('=') {
        (Tok::Sym(Symbol::NotEq), 2)
    } else if c == '<' && next == Some('=') {
        (Tok::Sym(Symbol::Le), 2)
    } else if c == '>' && next == Some('=') {
        (Tok::Sym(Symbol::Ge), 2)
    } else if c == '&' && next == Some('&') {
        (Tok::Sym(Symbol::AndAnd), 2)
    } else if c == '|' && next == Some('|') {
        (Tok::Sym(Symbol::OrOr), 2)
    } else if c == '+' {
        (Tok::Sym(Symbol::Plus), 1)
    } else if c == '-' {
        (Tok::Sym(Symbol::Minus), 1)
    } else if c == '*' {
        (Tok::Sym(Symbol::Star), 1)
    } else if c == '/' {
        (Tok::Sym(Symbol::Slash), 1)
    } else if c == '%' {
        (Tok::Sym(Symbol::Percent), 1)
    } else if c == '<' {
        (Tok::Sym(Symbol::Lt), 1)
    } else if c == '>' {
        (Tok::Sym(Symbol::Gt), 1)
    } else if c == '!' {
        (Tok::Sym(Symbol::Bang), 1)
    } else if c == '=' {
        (Tok::Sym(Symbol::Assign), 1)
    } else if c == '?' {
        (Tok::Sym(Symbol::Question), 1)
    } else if c == ':' {
        (Tok::Sym(Symbol::Colon), 1)
    } else if c == ';' {
        (Tok::Sym(Symbol::Semi), 1)
    } else if c == ',' {
        (Tok::Sym(Symbol::Comma), 1)
    } else if c == '(' {
        (Tok::Sym(Symbol::LParen), 1)
    } else if c == ')' {
        (Tok::Sym(Symbol::RParen), 1)
    } else if c == '{' {
        (Tok::Sym(Symbol::LBrace), 1)
    } else if c == '}' {
        (Tok::Sym(Symbol::RBrace), 1)
    } else {
        (Tok::Unknown(c), 1)
    }
}

/// The integer literal that begins at `pos`, and where it ends.
pub open spec fn integer_at(s: Seq<char>, pos: int) -> (Tok, int) {
    let end = digits_end(s, pos);
    let value = digits_value(s.subrange(pos, end));
    if value <= isize::MAX {
        (Tok::Integer(value as int), end)
    } else {
        (Tok::TooLarge, end)
    }
}

/// The token that begins at `pos`, and where it ends. Every character begins
/// a token: one that begins no other is a token by itself.
pub open spec fn token_at(s: Seq<char>, pos: int) -> (Tok, int)
    recommends
        0 <= pos < s.len(),
{
    if is_digit(s[pos]) {
        integer_at(s, pos)
    } else if is_ident_start(s[pos]) {
        let end = ident_end(s, pos);
        (word_token(s.subrange(pos, end)), end)
    } else {
        let (tok, len) = mark_token(
            s[pos],
            if pos + 1 < s.len() {
                Some(s[pos + 1])
            } else {
                None
            },
        );
        (tok, pos + len)
    }
}

/// The tokens of the text from `pos` on.
pub open spec fn tokens_from(s: Seq<char>, pos: int) -> Seq<Tok>
    decreases s.len() - pos,
{
    let start = skip_trivia(s, pos);
    if start < 0 || start >= s.len() || start < pos {
        Seq::empty()
    } else {
        let (tok, end) = token_at(s, start);
        if start < end <= s.len() {
            seq![tok] + tokens_from(s, end)
        } else {
            Seq::empty()
        }
    }
}

/// The tokens of a text.
pub open spec fn tokens_of(s: Seq<char>) -> Seq<Tok> {
    tokens_from(s, 0)
}

/// Whether the characters from `start` up to `end` spell `word`.
fn spells(chars: &Vec<char>, start: usize, end: usize, word: &str) -> (res: bool)
    requires
        start <= end <= chars.len(),
    ensures
        res == (chars@.subrange(start as int, end as int) == word@),
{
    let n = word.unicode_len();
    if end - start != n {
        return false;
    }
    let mut i: usize = 0;
    while i < n
        invariant
            i <= n,
            n == word@.len(),
            end - start == n,
            start <= end <= chars.len(),
            forall|j: int| 0 <= j < i ==> chars@[start + j] == word@[j],
        decreases n - i,
    {
        if chars[start + i] != word.get_char(i) {
            assert(chars@.subrange(start as int, end as int)[i as int] != word@[i as int]);
            return false;
        }
        i = i + 1;
    }
    assert(chars@.subrange(start as int, end as int) =~= word@);
    true
}

/// A lexer: a source text, and the position in it up to which the text has
/// been turned into tokens.
pub struct Lexer {
    text: String,
    chars: Vec<char>,
    pos: usize,
}

impl Lexer {
    #[verifier::type_invariant]
    spec fn inv(self) -> bool {
        self.chars@ == self.text@ && self.pos <= self.chars@.len()
    }

    /// The source text.
    pub closed spec fn source(&self) -> Seq<char> {
        self.chars@
    }

    /// The position of the first character that no token has taken yet.
    pub closed spec fn position(&self) -> int {
        self.pos as int
    }

    /// A lexer at the start of `text`.
    pub fn new(text: String) -> (res: Lexer)
        ensures
            res.source() == text@,
            res.position() == 0,
    {
        let mut chars: Vec<char> = Vec::new();
        for c in it: text.as_str().chars()
            invariant
                it.seq() == text@,
                chars@ == it.seq().take(it.index() as int),
        {
            chars.push(c);
            assert(chars@ =~= it.seq().take(it.index() + 1));
        }
        assert(chars@ =~= text@);
        Lexer { text, chars, pos: 0 }
    }

    /// Passes over white space and comments.
    fn skip(&mut self)
        ensures
            final(self).source() == old(self).source(),
            final(self).position() == skip_trivia(old(self).source(), old(self).position()),
            old(self).position() <= final(self).position() <= old(self).source().len(),
    {
        proof {
            use_type_invariant(&*self);
        }
        let n = self.chars.len();
        let mut i: usize = self.pos;
        loop
            invariant
                self.chars@ == self.text@,
                self.chars == old(self).chars,
                n == self.chars@.len(),
                old(self).pos <= i <= n,
                skip_trivia(self.chars@, old(self).pos as int) == skip_trivia(self.chars@, i as int),
            ensures
                old(self).pos <= i <= n,
                skip_trivia(self.chars@, old(self).pos as int) == i,
            decreases n - i,
        {
            if i >= n {
                break ;
            }
            let c = self.chars[i];
            if c == ' ' || c == '\t' || c == '\n' || c == '\r' {
                i = i + 1;
            } else if c == '/' && i + 1 < n && self.chars[i + 1] == '/' {
                let mut j: usize = i;
                while j < n && self.chars[j] != '\n'
                    invariant
                        n == self.chars@.len(),
                        i <= j <= n,
                        line_end(self.chars@, i as int) == line_end(self.chars@, j as int),
                    decreases n - j,
                {
                    j = j + 1;
                }
                assert(j > i);
                i = j;
            } else {
                break ;
            }
        }
        self.pos = i;
    }

    /// Lexes the integer literal at the position, where there is one: the
    /// whole run of digits is taken, also where the number is too large.
    /// Where the position is not at a digit, nothing is taken.
    pub fn lex_integer(&mut self) -> (res: Option<Token>)
        ensures
            final(self).source() == old(self).source(),
            match res {
                Some(t) => 0 <= old(self).position() < old(self).source().len() && is_digit(
                    old(self).source()[old(self).position()],
                ) && (t@, final(self).position()) == integer_at(
                    old(self).source(),
                    old(self).position(),
                ) && old(self).position() < final(self).position() <= old(self).source().len(),
                None => final(self).position() == old(self).position() && !(0
                    <= old(self).position() < old(self).source().len() && is_digit(
                    old(self).source()[old(self).position()],
                )),
            },
    {
        proof {
            use_type_invariant(&*self);
        }
        let n = self.chars.len();
        let start = self.pos;
        if start >= n || !(self.chars[start] >= '0' && self.chars[start] <= '9') {
            return None;
        }
        let ghost src = self.chars@;
        let mut i: usize = start;
        let mut value: isize = 0;
        let mut fits = true;
        while i < n && self.chars[i] >= '0' && self.chars[i] <= '9'
            invariant
                src == self.chars@,
                n == src.len(),
                start <= i <= n,
                digits_end(src, start as int) == digits_end(src, i as int),
                forall|k: int| start <= k < i ==> is_digit(src[k]),
                fits ==> 0 <= value && value == digits_value(src.subrange(start as int, i as int)),
                !fits ==> digits_value(src.subrange(start as int, i as int)) > isize::MAX,
            decreases n - i,
        {
            let c = self.chars[i];
            let ghost before = src.subrange(start as int, i as int);
            let ghost after = src.subrange(start as int, i + 1);
            assert(after.drop_last() =~= before);
            assert(after.last() == c);
            if fits {
                let digit = (c as u32 - '0' as u32) as isize;
                match value.checked_mul(10) {
                    Some(tens) => match tens.checked_add(digit) {
                        Some(sum) => {
                            value = sum;
                        },
                        None => {
                            fits = false;
                        },
                    },
                    None => {
                        fits = false;
                    },
                }
            }
            i = i + 1;
        }
        self.pos = i;
        if fits {
            Some(Token::Integer(value))
        } else {
            Some(Token::TooLarge)
        }
    }

    /// Lexes the word at the position, which is at a letter or an underscore.
    fn lex_word(&mut self) -> (res: Token)
        requires
            0 <= old(self).position() < old(self).source().len(),
            is_ident_start(old(self).source()[old(self).position()]),
        ensures
            final(self).source() == old(self).source(),
            final(self).position() == ident_end(old(self).source(), old(self).position()),
            res@ == word_token(
                old(self).source().subrange(old(self).position(), final(self).position()),
            ),
            old(self).position() < final(self).position() <= old(self).source().len(),
    {
        proof {
            use_type_invariant(&*self);
        }
        let n = self.chars.len();
        let start = self.pos;
        let ghost src = self.chars@;
        let mut i: usize = start;
        while i < n && Self::continues_word(self.chars[i])
            invariant
                src == self.chars@,
                n == src.len(),
                start <= i <= n,
                i == start ==> is_ident_part(src[start as int]),
                ident_end(src, start as int) == ident_end(src, i as int),
            decreases n - i,
        {
            i = i + 1;
        }
        self.pos = i;
        let chars = &self.chars;
        if spells(chars, start, i, "true") {
            Token::Sym(Symbol::True)
        } else if spells(chars, start, i, "false") {
            Token::Sym(Symbol::False)
        } else if spells(chars, start, i, "let") {
            Token::Sym(Symbol::Let)
        } else if spells(chars, start, i, "var") {
            Token::Sym(Symbol::Var)
        } else if spells(chars, start, i, "fn") {
            Token::Sym(Symbol::Fn)
        } else if spells(chars, start, i, "if") {
            Token::Sym(Symbol::If)
        } else if spells(chars, start, i, "else") {
            Token::Sym(Symbol::Else)
        } else if spells(chars, start, i, "while") {
            Token::Sym(Symbol::While)
        } else if spells(chars, start, i, "print") {
            Token::Sym(Symbol::Print)
        } else {
            Token::Ident(String::from_str(self.text.as_str().substring_char(start, i)))
        }
    }

    /// Whether a character can continue an identifier.
    fn continues_word(c: char) -> (res: bool)
        ensures
            res == is_ident_part(c),
    {
        (c >= 'a' && c <= 'z') || (c >= 'A' && c <= 'Z') || c == '_' || (c >= '0' && c <= '9')
    }

    /// Lexes the operator or punctuation mark at the position.
    fn lex_mark(&mut self) -> (res: Token)
        requires
            0 <= old(self).position() < old(self).source().len(),
        ensures
            final(self).source() == old(self).source(),
            (res@, final(self).position() - old(self).position()) == mark_token(
                old(self).source()[old(self).position()],
                if old(self).position() + 1 < old(self).source().len() {
                    Some(old(self).source()[old(self).position() + 1])
                } else {
                    None
                },
            ),
            old(self).position() < final(self).position() <= old(self).source().len(),
    {
        proof {
            use_type_invariant(&*self);
        }
        let n = self.chars.len();
        let c = self.chars[self.pos];
        let next: Option<char> = if self.pos + 1 < n {
            Some(self.chars[self.pos + 1])
        } else {
            None
        };
        let follows_eq = match next {
            Some(d) => d == '=',
            None => false,
        };
        let doubled = match next {
            Some(d) => d == c,
            None => false,
        };
        let (sym, len): (Option<Symbol>, usize) = if c == '=' && follows_eq {
            (Some(Symbol::EqEq), 2)
        } else if c == '!' && follows_eq {
            (Some(Symbol::NotEq), 2)
        } else if c == '<' && follows_eq {
            (Some(Symbol::Le), 2)
        } else if c == '>' && follows_eq {
            (Some(Symbol::Ge), 2)
        } else if c == '&' && doubled {
            (Some(Symbol::AndAnd), 2)
        } else if c == '|' && doubled {
            (Some(Symbol::OrOr), 2)
        } else if c == '+' {
            (Some(Symbol::Plus), 1)
        } else if c == '-' {
            (Some(Symbol::Minus), 1)
        } else if c == '*' {
            (Some(Symbol::Star), 1)
        } else if c == '/' {
            (Some(Symbol::Slash), 1)
        } else if c == '%' {
            (Some(Symbol::Percent), 1)
        } else if c == '<' {
            (Some(Symbol::Lt), 1)
        } else if c == '>' {
            (Some(Symbol::Gt), 1)
        } else if c == '!' {
            (Some(Symbol::Bang), 1)
        } else if c == '=' {
            (Some(Symbol::Assign), 1)
        } else if c == '?' {
            (Some(Symbol::Question), 1)
        } else if c == ':' {
            (Some(Symbol::Colon), 1)
        } else if c == ';' {
            (Some(Symbol::Semi), 1)
        } else if c == ',' {
            (Some(Symbol::Comma), 1)
        } else if c == '(' {
            (Some(Symbol::LParen), 1)
        } else if c == ')' {
            (Some(Symbol::RParen), 1)
        } else if c == '{' {
            (Some(Symbol::LBrace), 1)
        } else if c == '}' {
            (Some(Symbol::RBrace), 1)
        } else {
            (None, 1)
        };
        self.pos = self.pos + len;
        match sym {
            Some(s) => Token::Sym(s),
            None => Token::Unknown(c),
        }
    }

    /// The next token, or `None` at the end of the text. White space and
    /// comments before the token are passed over.
    pub fn get_next_token(&mut self) -> (res: Option<Token>)
        ensures
            final(self).source() == old(self).source(),
            ({
                let src = old(self).source();
                let start = skip_trivia(src, old(self).position());
                &&& old(self).position() <= start
                &&& match res {
                    Some(t) => 0 <= start < src.len() && (t@, final(self).position()) == token_at(
                        src,
                        start,
                    ) && start < final(self).position() <= src.len(),
                    None => start == src.len() && final(self).position() == start,
                }
            }),
            old(self).position() <= final(self).position(),
    {
        self.skip();
        proof {
            use_type_invariant(&*self);
        }
        if self.pos >= self.chars.len() {
            return None;
        }
        let c = self.chars[self.pos];
        if c >= '0' && c <= '9' {
            self.lex_integer()
        } else if (c >= 'a' && c <= 'z') || (c >= 'A' && c <= 'Z') || c == '_' {
            Some(self.lex_word())
        } else {
            Some(self.lex_mark())
        }
    }

    /// The tokens of the rest of the text.
    pub fn tokenize(&mut self) -> (res: Vec<Token>)
        ensures
            final(self).source() == old(self).source(),
            toks_of(res@) == tokens_from(old(self).source(), old(self).position()),
    {
        let mut out: Vec<Token> = Vec::new();
        let ghost src = self.source();
        let ghost begin = self.position();
        loop
            invariant
                self.source() == src,
                0 <= self.position(),
                tokens_from(src, begin) == toks_of(out@) + tokens_from(src, self.position()),
            ensures
                tokens_from(src, begin) == toks_of(out@),
                self.source() == src,
            decreases src.len() - self.position(),
        {
            let ghost here = self.position();
            let ghost sofar = toks_of(out@);
            match self.get_next_token() {
                Some(t) => {
                    out.push(t);
                    assert(toks_of(out@) =~= sofar.push(t@));
                    assert(tokens_from(src, begin) =~= toks_of(out@) + tokens_from(
                        src,
                        self.position(),
                    ));
                },
                None => {
                    assert(tokens_from(src, here) =~= Seq::<Tok>::empty());
                    assert(tokens_from(src, begin) =~= toks_of(out@));
                    break ;
                },
            }
        }
        out
    }
}

} // verus!
