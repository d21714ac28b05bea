//! The parser: from the tokens of a circuit's written form to its
//! instructions, each as it is written.
//!
//! The parser settles what is written where. What the numbers are worth is
//! not its business: it hands every number on as it was written.

use crate::quantum_circuit::tokenizer::{lexemes, scan_all, Lexeme, Token, Tokenizer};
use vstd::prelude::*;

verus! {

/// Why the tokens are not the written form of a circuit.
#[derive(Debug, PartialEq, Eq, Clone, Copy, Structural)]
pub enum ParseError {
    /// The tokens end where one more was called for.
    EndOfInput,
    /// The token at position `at` is not one that may stand there.
    Unexpected { at: usize },
}

/// The kinds of bit that can be written.
#[derive(Debug, PartialEq, Eq, Clone, Copy, Structural)]
pub enum BitKind {
    Qubit,
    Clbit,
    AncillaQubit,
}

/// A bit as it is written: its kind, the size and the name of its register,
/// and its index in the register.
#[derive(Debug, PartialEq, Eq, Clone)]
pub struct WrittenBit {
    pub kind: BitKind,
    pub register_size: String,
    pub register_name: String,
    pub index: String,
}

/// An operation as it is written: its name and its parameters.
#[derive(Debug, PartialEq, Eq, Clone)]
pub struct WrittenOperation {
    pub name: String,
    pub params: Vec<String>,
}

/// An instruction as it is written: an operation, and the quantum and the
/// classical bits it acts on.
#[derive(Debug, PartialEq, Eq, Clone)]
pub struct WrittenInstruction {
    pub operation: WrittenOperation,
    pub qubits: Vec<WrittenBit>,
    pub clbits: Vec<WrittenBit>,
}

/// What a written bit reads as.
pub struct BitText {
    pub kind: BitKind,
    pub register_size: Seq<char>,
    pub register_name: Seq<char>,
    pub index: Seq<char>,
}

/// What a written operation reads as.
pub struct OperationText {
    pub name: Seq<char>,
    pub params: Seq<Seq<char>>,
}

/// What a written instruction reads as.
pub struct InstructionText {
    pub operation: OperationText,
    pub qubits: Seq<BitText>,
    pub clbits: Seq<BitText>,
}

impl View for WrittenBit {
    type V = BitText;

    open spec fn view(&self) -> BitText {
        BitText {
            kind: self.kind,
            register_size: self.register_size@,
            register_name: self.register_name@,
            index: self.index@,
        }
    }
}

impl View for WrittenOperation {
    type V = OperationText;

    open spec fn view(&self) -> OperationText {
        OperationText { name: self.name@, params: texts(self.params@) }
    }
}

impl View for WrittenInstruction {
    type V = InstructionText;

    open spec fn view(&self) -> InstructionText {
        InstructionText {
            operation: self.operation@,
            qubits: bit_texts(self.qubits@),
            clbits: bit_texts(self.clbits@),
        }
    }
}

/// What each of the strings reads as.
pub open spec fn texts(strings: Seq<String>) -> Seq<Seq<char>> {
    strings.map_values(|text: String| text@)
}

/// What each of the written bits reads as.
pub open spec fn bit_texts(bits: Seq<WrittenBit>) -> Seq<BitText> {
    bits.map_values(|bit: WrittenBit| bit@)
}

/// What each of the written instructions reads as.
pub open spec fn instruction_texts(instructions: Seq<WrittenInstruction>) -> Seq<InstructionText> {
    instructions.map_values(|instruction: WrittenInstruction| instruction@)
}

/// The position after the token at `pos`, which must be `expected`.
pub open spec fn expect(tokens: Seq<Lexeme>, pos: int, expected: Lexeme) -> Result<
    int,
    ParseError,
> {
    if pos < 0 || pos >= tokens.len() {
        Err(ParseError::EndOfInput)
    } else if tokens[pos] == expected {
        Ok(pos + 1)
    } else {
        Err(ParseError::Unexpected { at: pos as usize })
    }
}

/// The position after the tokens from `pos` on, which must be those of
/// `expected`, one after another.
pub open spec fn expect_each(tokens: Seq<Lexeme>, pos: int, expected: Seq<Lexeme>) -> Result<
    int,
    ParseError,
>
    decreases expected.len(),
{
    if expected.len() == 0 {
        Ok(pos)
    } else {
        match expect(tokens, pos, expected[0]) {
            Ok(next) => expect_each(tokens, next, expected.skip(1)),
            Err(error) => Err(error),
        }
    }
}

/// The text of the token at `pos`, which must be a string literal, and the
/// position after it.
pub open spec fn string_at(tokens: Seq<Lexeme>, pos: int) -> Result<(Seq<char>, int), ParseError> {
    if pos < 0 || pos >= tokens.len() {
        Err(ParseError::EndOfInput)
    } else {
        match tokens[pos] {
            Lexeme::StringLiteral(text) => Ok((text, pos + 1)),
            _ => Err(ParseError::Unexpected { at: pos as usize }),
        }
    }
}

/// The text of the token at `pos`, which must be a number, and the position
/// after it.
pub open spec fn number_at(tokens: Seq<Lexeme>, pos: int) -> Result<(Seq<char>, int), ParseError> {
    if pos < 0 || pos >= tokens.len() {
        Err(ParseError::EndOfInput)
    } else {
        match tokens[pos] {
            Lexeme::Number(text) => Ok((text, pos + 1)),
            _ => Err(ParseError::Unexpected { at: pos as usize }),
        }
    }
}

/// The value written for `key` at `pos`, and the position after it.
///
/// A comma may come first. Then come the key, an equals sign and the value.
/// Where a string is called for, the value must be a string literal. Where
/// it is not, the value may be a number, a string literal or an identifier,
/// and may be missing altogether if the tokens end after the equals sign.
#[verifier::opaque]
pub open spec fn key_value(tokens: Seq<Lexeme>, pos: int, key: Seq<char>, is_string: bool) -> Result<
    (Option<Seq<char>>, int),
    ParseError,
> {
    if pos < 0 || pos >= tokens.len() {
        Err(ParseError::EndOfInput)
    } else {
        let start = if tokens[pos] == Lexeme::Comma {
            pos + 1
        } else {
            pos
        };
        match expect_each(tokens, start, seq![Lexeme::Identifier(key), Lexeme::Equals]) {
            Err(error) => Err(error),
            Ok(at) => if is_string {
                match string_at(tokens, at) {
                    Ok((text, next)) => Ok((Some(text), next)),
                    Err(error) => Err(error),
                }
            } else if at >= tokens.len() {
                Ok((None, at))
            } else {
                match tokens[at] {
                    Lexeme::Number(text) => Ok((Some(text), at + 1)),
                    Lexeme::StringLiteral(text) => Ok((Some(text), at + 1)),
                    Lexeme::Identifier(text) => Ok((Some(text), at + 1)),
                    _ => Err(ParseError::Unexpected { at: at as usize }),
                }
            },
        }
    }
}

/// The texts of the numbers that stand one after another from `pos` on.
pub open spec fn numbers_from(tokens: Seq<Lexeme>, pos: int) -> Seq<Seq<char>>
    decreases tokens.len() - pos,
{
    if 0 <= pos < tokens.len() && tokens[pos] is Number {
        seq![tokens[pos]->Number_0] + numbers_from(tokens, pos + 1)
    } else {
        Seq::empty()
    }
}

/// The parameters written at `pos`, and the position after them.
///
/// First come a comma, the word `params`, an equals sign and an opening
/// bracket. A closing bracket right after it ends an empty list. If not, the
/// numbers that follow one after another are the parameters; the token after
/// them, whatever it is, is passed over, and the one after that must be a
/// closing bracket.
#[verifier::opaque]
pub open spec fn params(tokens: Seq<Lexeme>, pos: int) -> Result<(Seq<Seq<char>>, int), ParseError> {
    match expect_each(
        tokens,
        pos,
        seq![Lexeme::Comma, Lexeme::Identifier("params"@), Lexeme::Equals, Lexeme::OpenBracket],
    ) {
        Err(error) => Err(error),
        Ok(at) => if at >= tokens.len() {
            Err(ParseError::EndOfInput)
        } else if tokens[at] == Lexeme::CloseBracket {
            Ok((Seq::empty(), at + 1))
        } else {
            let numbers = numbers_from(tokens, at);
            let after = at + numbers.len();
            if after >= tokens.len() {
                Err(ParseError::EndOfInput)
            } else {
                match expect(tokens, after + 1, Lexeme::CloseBracket) {
                    Ok(next) => Ok((numbers, next)),
                    Err(error) => Err(error),
                }
            }
        },
    }
}

/// The kind of bit that the word names, if it names one.
pub open spec fn bit_kind(word: Seq<char>) -> Option<BitKind> {
    if word == "Qubit"@ {
        Some(BitKind::Qubit)
    } else if word == "Clbit"@ {
        Some(BitKind::Clbit)
    } else if word == "AncillaQubit"@ {
        Some(BitKind::AncillaQubit)
    } else {
        None
    }
}

/// The bit of the given kind written at `pos`, after the word for its kind,
/// and the position after it.
///
/// A bit is written as an opening parenthesis, the word `QuantumRegister`
/// with the size and the name of the register in parentheses, a comma, the
/// index, a closing parenthesis and a comma. After a quantum or a classical
/// bit one more closing parenthesis must follow.
#[verifier::opaque]
pub open spec fn bit(tokens: Seq<Lexeme>, pos: int, kind: BitKind) -> Result<
    (BitText, int),
    ParseError,
> {
    match expect_each(
        tokens,
        pos,
        seq![Lexeme::OpenParen, Lexeme::Identifier("QuantumRegister"@), Lexeme::OpenParen],
    ) {
        Err(error) => Err(error),
        Ok(at) => match number_at(tokens, at) {
            Err(error) => Err(error),
            Ok((register_size, at)) => match expect(tokens, at, Lexeme::Comma) {
                Err(error) => Err(error),
                Ok(at) => match string_at(tokens, at) {
                    Err(error) => Err(error),
                    Ok((register_name, at)) => match expect_each(
                        tokens,
                        at,
                        seq![Lexeme::CloseParen, Lexeme::Comma],
                    ) {
                        Err(error) => Err(error),
                        Ok(at) => match number_at(tokens, at) {
                            Err(error) => Err(error),
                            Ok((index, at)) => match expect_each(
                                tokens,
                                at,
                                if kind == BitKind::AncillaQubit {
                                    seq![Lexeme::CloseParen, Lexeme::Comma]
                                } else {
                                    seq![Lexeme::CloseParen, Lexeme::Comma, Lexeme::CloseParen]
                                },
                            ) {
                                Err(error) => Err(error),
                                Ok(next) => Ok(
                                    (BitText { kind, register_size, register_name, index }, next),
                                ),
                            },
                        },
                    },
                },
            },
        },
    }
}

/// The bits written for the group named `group` at `pos`, and the position
/// after them.
///
/// First come a comma, the name of the group, an equals sign and an opening
/// parenthesis. If the token after them is the word for a kind of bit, one
/// bit of that kind follows, and the group is that bit. Any other identifier
/// there is an error. Any other token is passed over, and the group is
/// empty; so it is if the tokens end there.
#[verifier::opaque]
pub open spec fn bits(tokens: Seq<Lexeme>, pos: int, group: Seq<char>) -> Result<
    (Seq<BitText>, int),
    ParseError,
> {
    match expect_each(
        tokens,
        pos,
        seq![Lexeme::Comma, Lexeme::Identifier(group), Lexeme::Equals, Lexeme::OpenParen],
    ) {
        Err(error) => Err(error),
        Ok(at) => if at >= tokens.len() {
            Ok((Seq::empty(), at))
        } else {
            match tokens[at] {
                Lexeme::Identifier(word) => match bit_kind(word) {
                    None => Err(ParseError::Unexpected { at: at as usize }),
                    Some(kind) => match bit(tokens, at + 1, kind) {
                        Ok((written, next)) => Ok((seq![written], next)),
                        Err(error) => Err(error),
                    },
                },
                _ => Ok((Seq::empty(), at + 1)),
            }
        },
    }
}

/// The operation written at `pos`, and the position after it.
///
/// An operation is written as `operation = Instruction (`, then the name,
/// the number of quantum bits and the number of classical bits, each by its
/// key, then the parameters, and a closing parenthesis.
#[verifier::opaque]
pub open spec fn operation(tokens: Seq<Lexeme>, pos: int) -> Result<
    (OperationText, int),
    ParseError,
> {
    match expect_each(
        tokens,
        pos,
        seq![
            Lexeme::Identifier("operation"@),
            Lexeme::Equals,
            Lexeme::Identifier("Instruction"@),
            Lexeme::OpenParen,
        ],
    ) {
        Err(error) => Err(error),
        Ok(at) => match key_value(tokens, at, "name"@, true) {
            Err(error) => Err(error),
            Ok((name, at)) => match key_value(tokens, at, "num_qubits"@, false) {
                Err(error) => Err(error),
                Ok((_, at)) => match key_value(tokens, at, "num_clbits"@, false) {
                    Err(error) => Err(error),
                    Ok((_, at)) => match params(tokens, at) {
                        Err(error) => Err(error),
                        Ok((params, at)) => match expect(tokens, at, Lexeme::CloseParen) {
                            Err(error) => Err(error),
                            Ok(next) => Ok((OperationText { name: name->0, params }, next)),
                        },
                    },
                },
            },
        },
    }
}

/// The instruction written at `pos`, after the word `CircuitInstruction`, and
/// the position after it.
///
/// An instruction is written as an opening parenthesis, the operation, the
/// group `qubits`, the group `clbits`, and a closing parenthesis.
#[verifier::opaque]
pub open spec fn instruction(tokens: Seq<Lexeme>, pos: int) -> Result<
    (InstructionText, int),
    ParseError,
> {
    match expect(tokens, pos, Lexeme::OpenParen) {
        Err(error) => Err(error),
        Ok(at) => match operation(tokens, at) {
            Err(error) => Err(error),
            Ok((operation, at)) => match bits(tokens, at, "qubits"@) {
                Err(error) => Err(error),
                Ok((qubits, at)) => match bits(tokens, at, "clbits"@) {
                    Err(error) => Err(error),
                    Ok((clbits, at)) => match expect(tokens, at, Lexeme::CloseParen) {
                        Err(error) => Err(error),
                        Ok(next) => Ok((InstructionText { operation, qubits, clbits }, next)),
                    },
                },
            },
        },
    }
}

/// The instructions written from `pos` on, and the position after them.
///
/// Each instruction starts with the word `CircuitInstruction`. A closing
/// bracket ends the list, and so does the end of the tokens. Any other token
/// between instructions is passed over.
pub open spec fn instructions(tokens: Seq<Lexeme>, pos: int) -> Result<
    (Seq<InstructionText>, int),
    ParseError,
>
    decreases tokens.len() - pos,
    when 0 <= pos
    via instructions_decreases
{
    if pos >= tokens.len() {
        Ok((Seq::empty(), pos))
    } else if tokens[pos] == Lexeme::Identifier("CircuitInstruction"@) {
        match instruction(tokens, pos + 1) {
            Err(error) => Err(error),
            Ok((first, at)) => match instructions(tokens, at) {
                Err(error) => Err(error),
                Ok((rest, next)) => Ok((seq![first] + rest, next)),
            },
        }
    } else if tokens[pos] == Lexeme::CloseBracket {
        Ok((Seq::empty(), pos + 1))
    } else {
        instructions(tokens, pos + 1)
    }
}

#[via_fn]
proof fn instructions_decreases(tokens: Seq<Lexeme>, pos: int) {
    if pos < tokens.len() && tokens[pos] == Lexeme::Identifier("CircuitInstruction"@) {
        lemma_instruction_moves(tokens, pos + 1);
    }
}

/// The circuit written from `pos` on: an opening bracket, and then the
/// instructions.
pub open spec fn circuit(tokens: Seq<Lexeme>, pos: int) -> Result<
    (Seq<InstructionText>, int),
    ParseError,
> {
    match expect(tokens, pos, Lexeme::OpenBracket) {
        Err(error) => Err(error),
        Ok(at) => instructions(tokens, at),
    }
}

/// Tokens that are found as expected end after the position they were looked
/// for from, by as many as were expected, and not after the end.
pub proof fn lemma_expect_each_moves(tokens: Seq<Lexeme>, pos: int, expected: Seq<Lexeme>)
    requires
        0 <= pos <= tokens.len(),
    ensures
        expect_each(tokens, pos, expected) matches Ok(next) ==> next == pos + expected.len()
            && next <= tokens.len(),
    decreases expected.len(),
{
    if expected.len() > 0 {
        if expect(tokens, pos, expected[0]) is Ok {
            lemma_expect_each_moves(tokens, pos + 1, expected.skip(1));
        }
    }
}

/// The numbers that stand one after another from a position on are no more
/// than the tokens from that position on.
pub proof fn lemma_numbers_from(tokens: Seq<Lexeme>, pos: int)
    requires
        0 <= pos <= tokens.len(),
    ensures
        pos + numbers_from(tokens, pos).len() <= tokens.len(),
        forall|at: int|
            pos <= at < pos + numbers_from(tokens, pos).len() ==> (#[trigger] tokens[at]) is Number,
        pos + numbers_from(tokens, pos).len() < tokens.len() ==> !(tokens[pos + numbers_from(
            tokens,
            pos,
        ).len()] is Number),
    decreases tokens.len() - pos,
{
    if pos < tokens.len() && tokens[pos] is Number {
        lemma_numbers_from(tokens, pos + 1);
    }
}

/// Whether what was read, if anything was, ends at or after `pos` and not
/// after `end`.
pub open spec fn moved<T>(read: Result<(T, int), ParseError>, pos: int, end: int) -> bool {
    match read {
        Ok((_, next)) => pos <= next <= end,
        Err(_) => true,
    }
}

/// A value that is found for a key ends at or after the position it was
/// looked for from, and not after the end of the tokens.
pub proof fn lemma_key_value_moves(tokens: Seq<Lexeme>, pos: int, key: Seq<char>, is_string: bool)
    requires
        0 <= pos <= tokens.len(),
    ensures
        moved(key_value(tokens, pos, key, is_string), pos, tokens.len() as int),
{
    reveal(key_value);
    if pos < tokens.len() {
        let start = if tokens[pos] == Lexeme::Comma {
            pos + 1
        } else {
            pos
        };
        lemma_expect_each_moves(tokens, start, seq![Lexeme::Identifier(key), Lexeme::Equals]);
    }
}

/// Parameters that are found end at or after the position they were looked
/// for from, and not after the end of the tokens.
pub proof fn lemma_params_moves(tokens: Seq<Lexeme>, pos: int)
    requires
        0 <= pos <= tokens.len(),
    ensures
        moved(params(tokens, pos), pos, tokens.len() as int),
{
    reveal(params);
    let opening =
        seq![Lexeme::Comma, Lexeme::Identifier("params"@), Lexeme::Equals, Lexeme::OpenBracket];
    lemma_expect_each_moves(tokens, pos, opening);
    if let Ok(at) = expect_each(tokens, pos, opening) {
        lemma_numbers_from(tokens, at);
    }
}

/// A bit that is found ends at or after the position it was looked for from,
/// and not after the end of the tokens.
pub proof fn lemma_bit_moves(tokens: Seq<Lexeme>, pos: int, kind: BitKind)
    requires
        0 <= pos <= tokens.len(),
    ensures
        moved(bit(tokens, pos, kind), pos, tokens.len() as int),
{
    reveal(bit);
    let opening =
        seq![Lexeme::OpenParen, Lexeme::Identifier("QuantumRegister"@), Lexeme::OpenParen];
    let middle = seq![Lexeme::CloseParen, Lexeme::Comma];
    let closing = if kind == BitKind::AncillaQubit {
        seq![Lexeme::CloseParen, Lexeme::Comma]
    } else {
        seq![Lexeme::CloseParen, Lexeme::Comma, Lexeme::CloseParen]
    };
    lemma_expect_each_moves(tokens, pos, opening);
    if let Ok(at) = expect_each(tokens, pos, opening) {
        if let Ok((_, at)) = number_at(tokens, at) {
            if let Ok(at) = expect(tokens, at, Lexeme::Comma) {
                if let Ok((_, at)) = string_at(tokens, at) {
                    lemma_expect_each_moves(tokens, at, middle);
                    if let Ok(at) = expect_each(tokens, at, middle) {
                        if let Ok((_, at)) = number_at(tokens, at) {
                            lemma_expect_each_moves(tokens, at, closing);
                        }
                    }
                }
            }
        }
    }
}

/// The bits of a group that are found end at or after the position they were
/// looked for from, and not after the end of the tokens.
pub proof fn lemma_bits_moves(tokens: Seq<Lexeme>, pos: int, group: Seq<char>)
    requires
        0 <= pos <= tokens.len(),
    ensures
        moved(bits(tokens, pos, group), pos, tokens.len() as int),
{
    reveal(bits);
    let opening = seq![Lexeme::Comma, Lexeme::Identifier(group), Lexeme::Equals, Lexeme::OpenParen];
    lemma_expect_each_moves(tokens, pos, opening);
    if let Ok(at) = expect_each(tokens, pos, opening) {
        if at < tokens.len() {
            if let Lexeme::Identifier(word) = tokens[at] {
                if let Some(kind) = bit_kind(word) {
                    lemma_bit_moves(tokens, at + 1, kind);
                }
            }
        }
    }
}

/// An operation that is found ends at or after the position it was looked
/// for from, and not after the end of the tokens.
pub proof fn lemma_operation_moves(tokens: Seq<Lexeme>, pos: int)
    requires
        0 <= pos <= tokens.len(),
    ensures
        moved(operation(tokens, pos), pos, tokens.len() as int),
{
    reveal(operation);
    let opening = seq![
        Lexeme::Identifier("operation"@),
        Lexeme::Equals,
        Lexeme::Identifier("Instruction"@),
        Lexeme::OpenParen,
    ];
    lemma_expect_each_moves(tokens, pos, opening);
    if let Ok(at) = expect_each(tokens, pos, opening) {
        lemma_key_value_moves(tokens, at, "name"@, true);
        if let Ok((_, at)) = key_value(tokens, at, "name"@, true) {
            lemma_key_value_moves(tokens, at, "num_qubits"@, false);
            if let Ok((_, at)) = key_value(tokens, at, "num_qubits"@, false) {
                lemma_key_value_moves(tokens, at, "num_clbits"@, false);
                if let Ok((_, at)) = key_value(tokens, at, "num_clbits"@, false) {
                    lemma_params_moves(tokens, at);
                }
            }
        }
    }
}

/// An instruction that is found ends after the position it was looked for
/// from, and not after the end of the tokens.
pub proof fn lemma_instruction_moves(tokens: Seq<Lexeme>, pos: int)
    requires
        0 <= pos,
    ensures
        moved(instruction(tokens, pos), pos + 1, tokens.len() as int),
{
    reveal(instruction);
    if let Ok(at) = expect(tokens, pos, Lexeme::OpenParen) {
        lemma_operation_moves(tokens, at);
        if let Ok((_, at)) = operation(tokens, at) {
            lemma_bits_moves(tokens, at, "qubits"@);
            if let Ok((_, at)) = bits(tokens, at, "qubits"@) {
                lemma_bits_moves(tokens, at, "clbits"@);
            }
        }
    }
}

/// Whether `text` reads as `word`.
fn reads_as(text: &String, word: &str) -> (same: bool)
    ensures
        same == (text@ == word@),
{
    let other = String::from_str(word);
    *text == other
}

/// Reads the instructions of a circuit off the tokens of its written form.
pub struct Parser {
    tokens: Vec<Token>,
    pos: usize,
}

impl Parser {
    /// What the tokens read as.
    pub closed spec fn tokens(&self) -> Seq<Lexeme> {
        lexemes(self.tokens@)
    }

    /// The position of the next token to read.
    pub closed spec fn position(&self) -> nat {
        self.pos as nat
    }

    /// The parser's invariant: its position is among the tokens or at their
    /// end.
    pub open spec fn wf(&self) -> bool {
        self.position() <= self.tokens().len()
    }

    /// A parser at the start of the tokens of `input`.
    pub fn new(input: String) -> (parser: Self)
        ensures
            parser.wf(),
            parser.tokens() == scan_all(input@, 0),
            parser.position() == 0,
    {
        let mut tokenizer = Tokenizer::new(input);
        let tokens = tokenizer.tokenize();
        Parser { tokens, pos: 0 }
    }

    /// Moves past the next token, which must be `expected`.
    fn expect_token(&mut self, expected: Token) -> (found: Result<(), ParseError>)
        requires
            old(self).wf(),
        ensures
            final(self).wf(),
            final(self).tokens() == old(self).tokens(),
            match found {
                Ok(_) => expect(old(self).tokens(), old(self).position() as int, expected@) == Ok::<
                    int,
                    ParseError,
                >(final(self).position() as int),
                Err(error) => expect(old(self).tokens(), old(self).position() as int, expected@)
                    == Err::<int, ParseError>(error),
            },
    {
        if self.pos >= self.tokens.len() {
            return Err(ParseError::EndOfInput);
        }
        if self.tokens[self.pos] == expected {
            self.pos += 1;
            Ok(())
        } else {
            Err(ParseError::Unexpected { at: self.pos })
        }
    }

    /// Moves past the next tokens, which must be those of `expected`, one
    /// after another.
    fn expect_tokens(&mut self, expected: Vec<Token>) -> (found: Result<(), ParseError>)
        requires
            old(self).wf(),
        ensures
            final(self).wf(),
            final(self).tokens() == old(self).tokens(),
            match found {
                Ok(_) => expect_each(
                    old(self).tokens(),
                    old(self).position() as int,
                    lexemes(expected@),
                ) == Ok::<int, ParseError>(final(self).position() as int),
                Err(error) => expect_each(
                    old(self).tokens(),
                    old(self).position() as int,
                    lexemes(expected@),
                ) == Err::<int, ParseError>(error),
            },
    {
        let mut at: usize = 0;
        assert(lexemes(expected@).skip(0) =~= lexemes(expected@));
        while at < expected.len()
            invariant
                self.wf(),
                self.tokens() == old(self).tokens(),
                at <= expected.len(),
                expect_each(old(self).tokens(), old(self).position() as int, lexemes(expected@))
                    == expect_each(
                    self.tokens(),
                    self.position() as int,
                    lexemes(expected@).skip(at as int),
                ),
            decreases expected.len() - at,
        {
            let ghost rest = lexemes(expected@).skip(at as int);
            assert(rest[0] == expected@[at as int]@);
            assert(rest.skip(1) =~= lexemes(expected@).skip(at + 1));
            match self.expect_token(expected[at].clone()) {
                Ok(_) => {},
                Err(error) => {
                    return Err(error);
                },
            }
            at += 1;
        }
        assert(lexemes(expected@).skip(at as int).len() == 0);
        Ok(())
    }

    /// Moves past the next token, which must be a string literal, and gives
    /// its text.
    fn expect_string(&mut self) -> (found: Result<String, ParseError>)
        requires
            old(self).wf(),
        ensures
            final(self).wf(),
            final(self).tokens() == old(self).tokens(),
            match found {
                Ok(text) => string_at(old(self).tokens(), old(self).position() as int) == Ok::<
                    (Seq<char>, int),
                    ParseError,
                >((text@, final(self).position() as int)),
                Err(error) => string_at(old(self).tokens(), old(self).position() as int) == Err::<
                    (Seq<char>, int),
                    ParseError,
                >(error),
            },
    {
        if self.pos >= self.tokens.len() {
            return Err(ParseError::EndOfInput);
        }
        match &self.tokens[self.pos] {
            Token::StringLiteral(text) => {
                let text = text.clone();
                self.pos += 1;
                Ok(text)
            },
            _ => Err(ParseError::Unexpected { at: self.pos }),
        }
    }

    /// Moves past the next token, which must be a number, and gives it as it
    /// is written.
    fn expect_number(&mut self) -> (found: Result<String, ParseError>)
        requires
            old(self).wf(),
        ensures
            final(self).wf(),
            final(self).tokens() == old(self).tokens(),
            match found {
                Ok(text) => number_at(old(self).tokens(), old(self).position() as int) == Ok::<
                    (Seq<char>, int),
                    ParseError,
                >((text@, final(self).position() as int)),
                Err(error) => number_at(old(self).tokens(), old(self).position() as int) == Err::<
                    (Seq<char>, int),
                    ParseError,
                >(error),
            },
    {
        if self.pos >= self.tokens.len() {
            return Err(ParseError::EndOfInput);
        }
        match &self.tokens[self.pos] {
            Token::Number(text) => {
                let text = text.clone();
                self.pos += 1;
                Ok(text)
            },
            _ => Err(ParseError::Unexpected { at: self.pos }),
        }
    }

    /// Whether the next token is a number.
    fn is_number_here(&self) -> (yes: bool)
        requires
            self.position() < self.tokens().len(),
        ensures
            yes == (self.tokens()[self.position() as int] is Number),
    {
        match &self.tokens[self.pos] {
            Token::Number(_) => true,
            _ => false,
        }
    }

    /// The next token, which is a number, as it is written.
    fn number_here(&self) -> (text: String)
        requires
            self.position() < self.tokens().len(),
            self.tokens()[self.position() as int] is Number,
        ensures
            self.tokens()[self.position() as int] == Lexeme::Number(text@),
    {
        match &self.tokens[self.pos] {
            Token::Number(text) => text.clone(),
            _ => vstd::pervasive::unreached(),
        }
    }

    /// Reads the value written for `key`: see `key_value`.
    fn parse_key_value(&mut self, key: &str, is_string: bool) -> (found: Result<
        Option<String>,
        ParseError,
    >)
        requires
            old(self).wf(),
        ensures
            final(self).wf(),
            final(self).tokens() == old(self).tokens(),
            is_string ==> (found matches Ok(value) ==> value is Some),
            match found {
                Ok(value) => key_value(
                    old(self).tokens(),
                    old(self).position() as int,
                    key@,
                    is_string,
                ) == Ok::<(Option<Seq<char>>, int), ParseError>(
                    (
                        match value {
                            Some(text) => Some(text@),
                            None => None,
                        },
                        final(self).position() as int,
                    ),
                ),
                Err(error) => key_value(
                    old(self).tokens(),
                    old(self).position() as int,
                    key@,
                    is_string,
                ) == Err::<(Option<Seq<char>>, int), ParseError>(error),
            },
    {
        proof {
            reveal(key_value);
        }
        if self.pos >= self.tokens.len() {
            return Err(ParseError::EndOfInput);
        }
        if self.tokens[self.pos] == Token::Comma {
            self.pos += 1;
        }
        let expected = vec![Token::Identifier(String::from_str(key)), Token::Equals];
        assert(lexemes(expected@) =~= seq![Lexeme::Identifier(key@), Lexeme::Equals]);
        self.expect_tokens(expected)?;
        if is_string {
            let text = self.expect_string()?;
            return Ok(Some(text));
        }
        if self.pos >= self.tokens.len() {
            return Ok(None);
        }
        match &self.tokens[self.pos] {
            Token::Number(text) => {
                let text = text.clone();
                self.pos += 1;
                Ok(Some(text))
            },
            Token::StringLiteral(text) => {
                let text = text.clone();
                self.pos += 1;
                Ok(Some(text))
            },
            Token::Identifier(text) => {
                let text = text.clone();
                self.pos += 1;
                Ok(Some(text))
            },
            _ => Err(ParseError::Unexpected { at: self.pos }),
        }
    }

    /// Reads the parameters: see `params`.
    fn parse_params(&mut self) -> (found: Result<Vec<String>, ParseError>)
        requires
            old(self).wf(),
        ensures
            final(self).wf(),
            final(self).tokens() == old(self).tokens(),
            match found {
                Ok(list) => params(old(self).tokens(), old(self).position() as int) == Ok::<
                    (Seq<Seq<char>>, int),
                    ParseError,
                >((texts(list@), final(self).position() as int)),
                Err(error) => params(old(self).tokens(), old(self).position() as int) == Err::<
                    (Seq<Seq<char>>, int),
                    ParseError,
                >(error),
            },
    {
        proof {
            reveal(params);
        }
        let expected = vec![
            Token::Comma,
            Token::Identifier(String::from_str("params")),
            Token::Equals,
            Token::OpenBracket,
        ];
        assert(lexemes(expected@) =~= seq![
            Lexeme::Comma,
            Lexeme::Identifier("params"@),
            Lexeme::Equals,
            Lexeme::OpenBracket,
        ]);
        self.expect_tokens(expected)?;
        let mut list: Vec<String> = Vec::new();
        if self.pos >= self.tokens.len() {
            return Err(ParseError::EndOfInput);
        }
        if self.tokens[self.pos] == Token::CloseBracket {
            self.pos += 1;
            assert(texts(list@) =~= Seq::<Seq<char>>::empty());
            return Ok(list);
        }
        let ghost start = self.pos as int;
        assert(texts(list@) =~= Seq::<Seq<char>>::empty());
        while self.pos < self.tokens.len() && self.is_number_here()
            invariant
                self.wf(),
                self.tokens() == old(self).tokens(),
                start <= self.pos,
                texts(list@) + numbers_from(self.tokens(), self.pos as int) == numbers_from(
                    self.tokens(),
                    start,
                ),
                self.pos == start + list@.len(),
            decreases self.tokens().len() - self.pos,
        {
            let ghost read = texts(list@);
            let ghost rest = numbers_from(self.tokens(), self.pos + 1);
            let text = self.number_here();
            assert(read + (seq![text@] + rest) =~= (read + seq![text@]) + rest);
            list.push(text);
            assert(texts(list@) =~= read + seq![text@]);
            self.pos += 1;
        }
        assert(texts(list@) + Seq::<Seq<char>>::empty() =~= texts(list@));
        if self.pos >= self.tokens.len() {
            return Err(ParseError::EndOfInput);
        }
        self.pos += 1;
        self.expect_token(Token::CloseBracket)?;
        Ok(list)
    }

    /// Reads one bit of the given kind, after the word for its kind: see
    /// `bit`.
    fn parse_bit(&mut self, kind: BitKind) -> (found: Result<WrittenBit, ParseError>)
        requires
            old(self).wf(),
        ensures
            final(self).wf(),
            final(self).tokens() == old(self).tokens(),
            match found {
                Ok(written) => bit(old(self).tokens(), old(self).position() as int, kind) == Ok::<
                    (BitText, int),
                    ParseError,
                >((written@, final(self).position() as int)),
                Err(error) => bit(old(self).tokens(), old(self).position() as int, kind) == Err::<
                    (BitText, int),
                    ParseError,
                >(error),
            },
    {
        proof {
            reveal(bit);
        }
        let opening = vec![
            Token::OpenParen,
            Token::Identifier(String::from_str("QuantumRegister")),
            Token::OpenParen,
        ];
        assert(lexemes(opening@) =~= seq![
            Lexeme::OpenParen,
            Lexeme::Identifier("QuantumRegister"@),
            Lexeme::OpenParen,
        ]);
        self.expect_tokens(opening)?;
        let register_size = self.expect_number()?;
        self.expect_token(Token::Comma)?;
        let register_name = self.expect_string()?;
        let middle = vec![Token::CloseParen, Token::Comma];
        assert(lexemes(middle@) =~= seq![Lexeme::CloseParen, Lexeme::Comma]);
        self.expect_tokens(middle)?;
        let index = self.expect_number()?;
        let closing = match kind {
            BitKind::AncillaQubit => vec![Token::CloseParen, Token::Comma],
            _ => vec![Token::CloseParen, Token::Comma, Token::CloseParen],
        };
        assert(lexemes(closing@) =~= if kind == BitKind::AncillaQubit {
            seq![Lexeme::CloseParen, Lexeme::Comma]
        } else {
            seq![Lexeme::CloseParen, Lexeme::Comma, Lexeme::CloseParen]
        });
        self.expect_tokens(closing)?;
        Ok(WrittenBit { kind, register_size, register_name, index })
    }

    /// Reads the bits of the group named `group_name`: see `bits`.
    fn parse_bits(&mut self, group_name: &str) -> (found: Result<Vec<WrittenBit>, ParseError>)
        requires
            old(self).wf(),
        ensures
            final(self).wf(),
            final(self).tokens() == old(self).tokens(),
            match found {
                Ok(group) => bits(old(self).tokens(), old(self).position() as int, group_name@)
                    == Ok::<(Seq<BitText>, int), ParseError>(
                    (bit_texts(group@), final(self).position() as int),
                ),
                Err(error) => bits(old(self).tokens(), old(self).position() as int, group_name@)
                    == Err::<(Seq<BitText>, int), ParseError>(error),
            },
    {
        proof {
            reveal(bits);
        }
        let opening = vec![
            Token::Comma,
            Token::Identifier(String::from_str(group_name)),
            Token::Equals,
            Token::OpenParen,
        ];
        assert(lexemes(opening@) =~= seq![
            Lexeme::Comma,
            Lexeme::Identifier(group_name@),
            Lexeme::Equals,
            Lexeme::OpenParen,
        ]);
        self.expect_tokens(opening)?;
        let mut group: Vec<WrittenBit> = Vec::new();
        if self.pos >= self.tokens.len() {
            assert(bit_texts(group@) =~= Seq::<BitText>::empty());
            return Ok(group);
        }
        let kind = match &self.tokens[self.pos] {
            Token::Identifier(word) => {
                if reads_as(word, "Qubit") {
                    BitKind::Qubit
                } else if reads_as(word, "Clbit") {
                    BitKind::Clbit
                } else if reads_as(word, "AncillaQubit") {
                    BitKind::AncillaQubit
                } else {
                    return Err(ParseError::Unexpected { at: self.pos });
                }
            },
            _ => {
                self.pos += 1;
                assert(bit_texts(group@) =~= Seq::<BitText>::empty());
                return Ok(group);
            },
        };
        self.pos += 1;
        let written = self.parse_bit(kind)?;
        group.push(written);
        assert(bit_texts(group@) =~= seq![written@]);
        Ok(group)
    }

    /// Reads an operation: see `operation`.
    fn parse_operation(&mut self) -> (found: Result<WrittenOperation, ParseError>)
        requires
            old(self).wf(),
        ensures
            final(self).wf(),
            final(self).tokens() == old(self).tokens(),
            match found {
                Ok(written) => operation(old(self).tokens(), old(self).position() as int) == Ok::<
                    (OperationText, int),
                    ParseError,
                >((written@, final(self).position() as int)),
                Err(error) => operation(old(self).tokens(), old(self).position() as int) == Err::<
                    (OperationText, int),
                    ParseError,
                >(error),
            },
    {
        proof {
            reveal(operation);
        }
        let opening = vec![
            Token::Identifier(String::from_str("operation")),
            Token::Equals,
            Token::Identifier(String::from_str("Instruction")),
            Token::OpenParen,
        ];
        assert(lexemes(opening@) =~= seq![
            Lexeme::Identifier("operation"@),
            Lexeme::Equals,
            Lexeme::Identifier("Instruction"@),
            Lexeme::OpenParen,
        ]);
        self.expect_tokens(opening)?;
        let name = match self.parse_key_value("name", true)? {
            Some(name) => name,
            None => vstd::pervasive::unreached(),
        };
        let _ = self.parse_key_value("num_qubits", false)?;
        let _ = self.parse_key_value("num_clbits", false)?;
        let params = self.parse_params()?;
        self.expect_token(Token::CloseParen)?;
        Ok(WrittenOperation { name, params })
    }

    /// Reads an instruction, after the word `CircuitInstruction`: see
    /// `instruction`.
    fn parse_circuit_instruction(&mut self) -> (found: Result<WrittenInstruction, ParseError>)
        requires
            old(self).wf(),
        ensures
            final(self).wf(),
            final(self).tokens() == old(self).tokens(),
            match found {
                Ok(written) => instruction(old(self).tokens(), old(self).position() as int) == Ok::<
                    (InstructionText, int),
                    ParseError,
                >((written@, final(self).position() as int)),
                Err(error) => instruction(old(self).tokens(), old(self).position() as int) == Err::<
                    (InstructionText, int),
                    ParseError,
                >(error),
            },
    {
        proof {
            reveal(instruction);
        }
        self.expect_token(Token::OpenParen)?;
        let operation = self.parse_operation()?;
        let qubits = self.parse_bits("qubits")?;
        let clbits = self.parse_bits("clbits")?;
        self.expect_token(Token::CloseParen)?;
        Ok(WrittenInstruction { operation, qubits, clbits })
    }

    /// Reads the circuit that is written from the position on: an opening
    /// bracket, and then the instructions, up to the closing bracket or the
    /// end of the tokens.
    ///
    /// `Ok` exactly when the tokens are the written form of a circuit, as
    /// `circuit` tells; if not, the error says which token is in the way, or
    /// that the tokens end too soon.
    pub fn parse(&mut self) -> (parsed: Result<Vec<WrittenInstruction>, ParseError>)
        requires
            old(self).wf(),
        ensures
            final(self).wf(),
            final(self).tokens() == old(self).tokens(),
            match parsed {
                Ok(list) => circuit(old(self).tokens(), old(self).position() as int) == Ok::<
                    (Seq<InstructionText>, int),
                    ParseError,
                >((instruction_texts(list@), final(self).position() as int)),
                Err(error) => circuit(old(self).tokens(), old(self).position() as int) == Err::<
                    (Seq<InstructionText>, int),
                    ParseError,
                >(error),
            },
    {
        self.expect_token(Token::OpenBracket)?;
        let ghost start = self.pos as int;
        let mut list: Vec<WrittenInstruction> = Vec::new();
        assert(instruction_texts(list@) =~= Seq::<InstructionText>::empty());
        while self.pos < self.tokens.len()
            invariant
                self.wf(),
                self.tokens() == old(self).tokens(),
                0 <= start,
                expect(old(self).tokens(), old(self).position() as int, Lexeme::OpenBracket)
                    == Ok::<int, ParseError>(start),
                match instructions(self.tokens(), self.pos as int) {
                    Ok((rest, next)) => instructions(self.tokens(), start) == Ok::<
                        (Seq<InstructionText>, int),
                        ParseError,
                    >((instruction_texts(list@) + rest, next)),
                    Err(error) => instructions(self.tokens(), start) == Err::<
                        (Seq<InstructionText>, int),
                        ParseError,
                    >(error),
                },
            decreases self.tokens().len() - self.pos,
        {
            let ghost read = instruction_texts(list@);
            let ghost here = self.pos as int;
            let starts_instruction = match &self.tokens[self.pos] {
                Token::Identifier(word) => reads_as(word, "CircuitInstruction"),
                _ => false,
            };
            if starts_instruction {
                self.pos += 1;
                proof {
                    lemma_instruction_moves(self.tokens(), here + 1);
                }
                let written = self.parse_circuit_instruction()?;
                list.push(written);
                proof {
                    assert(instruction_texts(list@) =~= read + seq![written@]);
                    if let Ok((rest, next)) = instructions(self.tokens(), self.pos as int) {
                        assert(read + (seq![written@] + rest) =~= (read + seq![written@]) + rest);
                    }
                }
            } else if self.tokens[self.pos] == Token::CloseBracket {
                self.pos += 1;
                assert(read + Seq::<InstructionText>::empty() =~= read);
                return Ok(list);
            } else {
                self.pos += 1;
            }
        }
        assert(instruction_texts(list@) + Seq::<InstructionText>::empty() =~= instruction_texts(
            list@,
        ));
        Ok(list)
    }
}

} // verus!
