//! The tokenizer: from the characters of a circuit's written form to tokens.

use crate::quantum_circuit::text::{alphabetic, decimal_digit, numeric};
use vstd::prelude::*;

verus! {

/// The tokens of a circuit's written form.
///
/// A number is kept as it was written, digits and dots: turning it into a
/// value is left to whoever needs the value.
#[derive(Debug)]
pub enum Token {
    OpenBracket,
    CloseBracket,
    OpenParen,
    CloseParen,
    Comma,
    Equals,
    Identifier(String),
    StringLiteral(String),
    Number(String),
}

/// What a token reads as: its kind and, where it has text, the characters.
pub enum Lexeme {
    OpenBracket,
    CloseBracket,
    OpenParen,
    CloseParen,
    Comma,
    Equals,
    Identifier(Seq<char>),
    StringLiteral(Seq<char>),
    Number(Seq<char>),
}

impl View for Token {
    type V = Lexeme;

    open spec fn view(&self) -> Lexeme {
        match self {
            Token::OpenBracket => Lexeme::OpenBracket,
            Token::CloseBracket => Lexeme::CloseBracket,
            Token::OpenParen => Lexeme::OpenParen,
            Token::CloseParen => Lexeme::CloseParen,
            Token::Comma => Lexeme::Comma,
            Token::Equals => Lexeme::Equals,
            Token::Identifier(text) => Lexeme::Identifier(text@),
            Token::StringLiteral(text) => Lexeme::StringLiteral(text@),
            Token::Number(text) => Lexeme::Number(text@),
        }
    }
}

impl Clone for Token {
    fn clone(&self) -> (copy: Self)
        ensures
            copy == *self,
    {
        match self {
            Token::OpenBracket => Token::OpenBracket,
            Token::CloseBracket => Token::CloseBracket,
            Token::OpenParen => Token::OpenParen,
            Token::CloseParen => Token::CloseParen,
            Token::Comma => Token::Comma,
            Token::Equals => Token::Equals,
            Token::Identifier(text) => Token::Identifier(text.clone()),
            Token::StringLiteral(text) => Token::StringLiteral(text.clone()),
            Token::Number(text) => Token::Number(text.clone()),
        }
    }
}

impl PartialEq for Token {
    fn eq(&self, other: &Self) -> (equal: bool) {
        match (self, other) {
            (Token::OpenBracket, Token::OpenBracket) => true,
            (Token::CloseBracket, Token::CloseBracket) => true,
            (Token::OpenParen, Token::OpenParen) => true,
            (Token::CloseParen, Token::CloseParen) => true,
            (Token::Comma, Token::Comma) => true,
            (Token::Equals, Token::Equals) => true,
            (Token::Identifier(left), Token::Identifier(right)) => *left == *right,
            (Token::StringLiteral(left), Token::StringLiteral(right)) => *left == *right,
            (Token::Number(left), Token::Number(right)) => *left == *right,
            _ => false,
        }
    }
}

impl vstd::std_specs::cmp::PartialEqSpecImpl for Token {
    open spec fn obeys_eq_spec() -> bool {
        true
    }

    open spec fn eq_spec(&self, other: &Self) -> bool {
        self@ == other@
    }
}

/// What each of the tokens reads as.
pub open spec fn lexemes(tokens: Seq<Token>) -> Seq<Lexeme> {
    tokens.map_values(|token: Token| token@)
}

/// The kinds of run: stretches of characters that make up the text of one
/// token.
#[derive(Debug, PartialEq, Eq, Clone, Copy, Structural)]
pub enum Run {
    /// The inside of a string literal: anything but the quote.
    Literal,
    /// A number: decimal digits and dots.
    Number,
    /// An identifier: letters, numerals and underscores.
    Identifier,
}

impl Run {
    /// Whether `c` can stand in a run of this kind.
    pub open spec fn accepts(self, c: char) -> bool {
        match self {
            Run::Literal => c != '\'',
            Run::Number => decimal_digit(c) || c == '.',
            Run::Identifier => alphabetic(c) || numeric(c) || c == '_',
        }
    }

    /// Whether `c` can stand in a run of this kind.
    pub fn admits(&self, c: char) -> (yes: bool)
        ensures
            yes == self.accepts(c),
    {
        match self {
            Run::Literal => c != '\'',
            Run::Number => c.is_digit(10) || c == '.',
            Run::Identifier => c.is_alphanumeric() || c == '_',
        }
    }
}

/// Whether `c` can start an identifier: a letter or an underscore.
pub open spec fn starts_identifier(c: char) -> bool {
    alphabetic(c) || c == '_'
}

/// Where the run of the given kind ends, if it starts at `from`: the position
/// of the first character that the kind does not accept, or the end of the
/// input.
pub open spec fn run_end(input: Seq<char>, from: int, run: Run) -> int
    decreases input.len() - from,
{
    if 0 <= from < input.len() && run.accepts(input[from]) {
        run_end(input, from + 1, run)
    } else {
        from
    }
}

/// The next token at or after `pos`, and the position after it.
///
/// A bracket, a parenthesis, a comma and an equals sign are each a token. A
/// quote starts a string literal, which runs to the next quote or to the end
/// of the input; the quotes are not part of it. A digit or a dot starts a
/// number, which runs as far as digits and dots go. A letter or an underscore
/// starts an identifier, which runs as far as letters, numerals and
/// underscores go. Any other character is passed over. At the end of the
/// input there is no token.
pub open spec fn scan(input: Seq<char>, pos: int) -> (Option<Lexeme>, int)
    decreases input.len() - pos,
{
    if pos < 0 || pos >= input.len() {
        (None, pos)
    } else {
        let c = input[pos];
        if c == '[' {
            (Some(Lexeme::OpenBracket), pos + 1)
        } else if c == ']' {
            (Some(Lexeme::CloseBracket), pos + 1)
        } else if c == '(' {
            (Some(Lexeme::OpenParen), pos + 1)
        } else if c == ')' {
            (Some(Lexeme::CloseParen), pos + 1)
        } else if c == ',' {
            (Some(Lexeme::Comma), pos + 1)
        } else if c == '=' {
            (Some(Lexeme::Equals), pos + 1)
        } else if c == '\'' {
            let end = run_end(input, pos + 1, Run::Literal);
            (
                Some(Lexeme::StringLiteral(input.subrange(pos + 1, end))),
                if end < input.len() {
                    end + 1
                } else {
                    end
                },
            )
        } else if Run::Number.accepts(c) {
            let end = run_end(input, pos, Run::Number);
            (Some(Lexeme::Number(input.subrange(pos, end))), end)
        } else if starts_identifier(c) {
            let end = run_end(input, pos, Run::Identifier);
            (Some(Lexeme::Identifier(input.subrange(pos, end))), end)
        } else {
            scan(input, pos + 1)
        }
    }
}

/// The tokens from `pos` to the end of the input, in order.
pub open spec fn scan_all(input: Seq<char>, pos: int) -> Seq<Lexeme>
    decreases input.len() - pos,
    when 0 <= pos
    via scan_all_decreases
{
    match scan(input, pos) {
        (Some(lexeme), next) => seq![lexeme] + scan_all(input, next),
        (None, _) => Seq::empty(),
    }
}

#[via_fn]
proof fn scan_all_decreases(input: Seq<char>, pos: int) {
    lemma_scan_moves(input, pos);
}

/// A run ends at or after its start, and at or before the end of the input;
/// every character in it is accepted, and the character at its end is not.
pub proof fn lemma_run_end(input: Seq<char>, from: int, run: Run)
    requires
        0 <= from <= input.len(),
    ensures
        from <= run_end(input, from, run) <= input.len(),
        forall|at: int| from <= at < run_end(input, from, run) ==> run.accepts(#[trigger] input[at]),
        run_end(input, from, run) < input.len() ==> !run.accepts(input[run_end(input, from, run)]),
    decreases input.len() - from,
{
    if from < input.len() && run.accepts(input[from]) {
        lemma_run_end(input, from + 1, run);
    }
}

/// A token, where there is one, ends after the position it was looked for
/// from, and not after the end of the input; where there is none, the input
/// is at its end.
pub proof fn lemma_scan_moves(input: Seq<char>, pos: int)
    requires
        0 <= pos,
    ensures
        scan(input, pos).0 is Some ==> pos < scan(input, pos).1 <= input.len(),
        scan(input, pos).0 is None ==> scan(input, pos).1 >= input.len() && scan(input, pos).1
            >= pos,
    decreases input.len() - pos,
{
    if pos < input.len() {
        let c = input[pos];
        if c == '[' || c == ']' || c == '(' || c == ')' || c == ',' || c == '=' {
        } else if c == '\'' {
            lemma_run_end(input, pos + 1, Run::Literal);
        } else if Run::Number.accepts(c) {
            lemma_run_end(input, pos + 1, Run::Number);
        } else if starts_identifier(c) {
            lemma_run_end(input, pos + 1, Run::Identifier);
        } else {
            lemma_scan_moves(input, pos + 1);
        }
    }
}

/// Reads tokens off the characters of a text, one after another.
pub struct Tokenizer {
    input: Vec<char>,
    pos: usize,
}

impl Tokenizer {
    /// The characters of the text.
    pub closed spec fn input(&self) -> Seq<char> {
        self.input@
    }

    /// The position of the next character to read.
    pub closed spec fn position(&self) -> nat {
        self.pos as nat
    }

    /// The tokenizer's invariant: its position is in the text or at its end.
    pub open spec fn wf(&self) -> bool {
        self.position() <= self.input().len()
    }

    /// A tokenizer at the start of `input`.
    pub fn new(input: String) -> (tokenizer: Self)
        ensures
            tokenizer.wf(),
            tokenizer.input() == input@,
            tokenizer.position() == 0,
    {
        let mut chars: Vec<char> = Vec::new();
        for c in it: input.as_str().chars()
            invariant
                chars@ == it.seq().take(it.index() as int),
        {
            chars.push(c);
        }
        Tokenizer { input: chars, pos: 0 }
    }

    /// Where the run of the given kind that starts at `from` ends.
    fn end_of_run(&self, from: usize, run: Run) -> (end: usize)
        requires
            from <= self.input().len(),
        ensures
            end == run_end(self.input(), from as int, run),
            from <= end <= self.input().len(),
    {
        let mut end: usize = from;
        while end < self.input.len() && run.admits(self.input[end])
            invariant
                from <= end <= self.input@.len(),
                run_end(self.input@, end as int, run) == run_end(self.input@, from as int, run),
            decreases self.input@.len() - end,
        {
            end += 1;
        }
        end
    }

    /// The characters from `start` up to `end`, as a string.
    fn text(&self, start: usize, end: usize) -> (text: String)
        requires
            start <= end <= self.input().len(),
        ensures
            text@ == self.input().subrange(start as int, end as int),
    {
        let mut text = String::new();
        let mut at: usize = start;
        while at < end
            invariant
                start <= at <= end <= self.input@.len(),
                text@ == self.input@.subrange(start as int, at as int),
            decreases end - at,
        {
            text.push(self.input[at]);
            at += 1;
            assert(self.input@.subrange(start as int, at as int) =~= self.input@.subrange(
                start as int,
                at - 1,
            ).push(self.input@[at - 1]));
        }
        text
    }

    /// Reads the next token, if there is one before the end of the text, and
    /// moves past it.
    pub fn next_token(&mut self) -> (token: Option<Token>)
        requires
            old(self).wf(),
        ensures
            final(self).wf(),
            final(self).input() == old(self).input(),
            match token {
                Some(token) => (Some(token@), final(self).position() as int) == scan(
                    old(self).input(),
                    old(self).position() as int,
                ),
                None => (None::<Lexeme>, final(self).position() as int) == scan(
                    old(self).input(),
                    old(self).position() as int,
                ),
            },
    {
        while self.pos < self.input.len()
            invariant
                self.input@ == old(self).input@,
                self.pos <= self.input@.len(),
                scan(self.input@, self.pos as int) == scan(old(self).input@, old(self).pos as int),
            decreases self.input@.len() - self.pos,
        {
            let c = self.input[self.pos];
            if c == '[' {
                self.pos += 1;
                return Some(Token::OpenBracket);
            } else if c == ']' {
                self.pos += 1;
                return Some(Token::CloseBracket);
            } else if c == '(' {
                self.pos += 1;
                return Some(Token::OpenParen);
            } else if c == ')' {
                self.pos += 1;
                return Some(Token::CloseParen);
            } else if c == ',' {
                self.pos += 1;
                return Some(Token::Comma);
            } else if c == '=' {
                self.pos += 1;
                return Some(Token::Equals);
            } else if c == '\'' {
                let start: usize = self.pos + 1;
                let end: usize = self.end_of_run(start, Run::Literal);
                let text = self.text(start, end);
                self.pos = if end < self.input.len() {
                    end + 1
                } else {
                    end
                };
                return Some(Token::StringLiteral(text));
            } else if Run::Number.admits(c) {
                let start: usize = self.pos;
                let end: usize = self.end_of_run(start, Run::Number);
                let text = self.text(start, end);
                self.pos = end;
                return Some(Token::Number(text));
            } else if c.is_alphabetic() || c == '_' {
                let start: usize = self.pos;
                let end: usize = self.end_of_run(start, Run::Identifier);
                let text = self.text(start, end);
                self.pos = end;
                return Some(Token::Identifier(text));
            } else {
                self.pos += 1;
            }
        }
        None
    }

    /// Reads all the tokens from the position on to the end of the text.
    pub fn tokenize(&mut self) -> (tokens: Vec<Token>)
        requires
            old(self).wf(),
        ensures
            final(self).wf(),
            final(self).input() == old(self).input(),
            final(self).position() == old(self).input().len(),
            lexemes(tokens@) == scan_all(old(self).input(), old(self).position() as int),
    {
        let mut tokens: Vec<Token> = Vec::new();
        loop
            invariant
                self.wf(),
                self.input() == old(self).input(),
                lexemes(tokens@) + scan_all(self.input(), self.position() as int) == scan_all(
                    old(self).input(),
                    old(self).position() as int,
                ),
            decreases self.input().len() - self.position(),
        {
            let ghost before = self.position() as int;
            let ghost read = lexemes(tokens@);
            proof {
                lemma_scan_moves(self.input(), before);
            }
            match self.next_token() {
                Some(token) => {
                    tokens.push(token);
                    assert(lexemes(tokens@) =~= read + seq![token@]);
                    assert(read + (seq![token@] + scan_all(self.input(), self.position() as int))
                        =~= (read + seq![token@]) + scan_all(self.input(), self.position() as int));
                },
                None => {
                    assert(read + Seq::<Lexeme>::empty() =~= read);
                    return tokens;
                },
            }
        }
    }
}

} // verus!
