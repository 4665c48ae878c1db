use vstd::prelude::*;

use crate::parser::source::{starts_with_at, SourceCursor};

verus! {

/// An operator or punctuation mark.
#[derive(Clone, Copy, Debug, PartialEq, Eq, Structural, PartialOrd, Ord)]
pub enum Symbol {
    RangeTo,
    Range,
    ShiftLeftAssign,
    ShiftRightAssign,
    AddAssign,
    SubtractAssign,
    MultiplyAssign,
    DivideAssign,
    RemainderAssign,
    Equal,
    NotEqual,
    LessThanOrEqual,
    GreaterThanOrEqual,
    BooleanAnd,
    BooleanOr,
    BooleanXor,
    BitwiseAndAssign,
    BitwiseOrAssign,
    BitwiseXorAssign,
    ShiftLeft,
    ShiftRight,
    Add,
    Subtract,
    Multiply,
    Divide,
    Remainder,
    LessThan,
    GreaterThan,
    BitwiseAnd,
    BitwiseOr,
    BitwiseXor,
    Not,
    BitwiseNot,
    DoubleColon,
    Dot,
    ParenOpen,
    ParenClose,
    BracketOpen,
    BracketClose,
    BraceOpen,
    BraceClose,
    Comma,
    Semicolon,
    Colon,
    Assign,
}

impl Symbol {
    /// The spelling of the symbol.
    pub open spec fn spec_repr(&self) -> Seq<char> {
        match self {
            Symbol::RangeTo => seq!['.', '.', '='],
            Symbol::Range => seq!['.', '.'],
            Symbol::ShiftLeftAssign => seq!['<', '<', '='],
            Symbol::ShiftRightAssign => seq!['>', '>', '='],
            Symbol::AddAssign => seq!['+', '='],
            Symbol::SubtractAssign => seq!['-', '='],
            Symbol::MultiplyAssign => seq!['*', '='],
            Symbol::DivideAssign => seq!['/', '='],
            Symbol::RemainderAssign => seq!['%', '='],
            Symbol::Equal => seq!['=', '='],
            Symbol::NotEqual => seq!['!', '='],
            Symbol::LessThanOrEqual => seq!['<', '='],
            Symbol::GreaterThanOrEqual => seq!['>', '='],
            Symbol::BooleanAnd => seq!['&', '&'],
            Symbol::BooleanOr => seq!['|', '|'],
            Symbol::BooleanXor => seq!['^', '^'],
            Symbol::BitwiseAndAssign => seq!['&', '='],
            Symbol::BitwiseOrAssign => seq!['|', '='],
            Symbol::BitwiseXorAssign => seq!['^', '='],
            Symbol::ShiftLeft => seq!['<', '<'],
            Symbol::ShiftRight => seq!['>', '>'],
            Symbol::Add => seq!['+'],
            Symbol::Subtract => seq!['-'],
            Symbol::Multiply => seq!['*'],
            Symbol::Divide => seq!['/'],
            Symbol::Remainder => seq!['%'],
            Symbol::LessThan => seq!['<'],
            Symbol::GreaterThan => seq!['>'],
            Symbol::BitwiseAnd => seq!['&'],
            Symbol::BitwiseOr => seq!['|'],
            Symbol::BitwiseXor => seq!['^'],
            Symbol::Not => seq!['!'],
            Symbol::BitwiseNot => seq!['~'],
            Symbol::DoubleColon => seq![':', ':'],
            Symbol::Dot => seq!['.'],
            Symbol::ParenOpen => seq!['('],
            Symbol::ParenClose => seq![')'],
            Symbol::BracketOpen => seq!['['],
            Symbol::BracketClose => seq![']'],
            Symbol::BraceOpen => seq!['{'],
            Symbol::BraceClose => seq!['}'],
            Symbol::Comma => seq![','],
            Symbol::Semicolon => seq![';'],
            Symbol::Colon => seq![':'],
            Symbol::Assign => seq!['='],
        }
    }

    /// Every symbol, in the order in which the tokenizer tries them.
    pub open spec fn all() -> Seq<Self> {
        seq![Symbol::RangeTo, Symbol::Range, Symbol::ShiftLeftAssign, Symbol::ShiftRightAssign, Symbol::AddAssign, Symbol::SubtractAssign, Symbol::MultiplyAssign, Symbol::DivideAssign, Symbol::RemainderAssign, Symbol::Equal, Symbol::NotEqual, Symbol::LessThanOrEqual, Symbol::GreaterThanOrEqual, Symbol::BooleanAnd, Symbol::BooleanOr, Symbol::BooleanXor, Symbol::BitwiseAndAssign, Symbol::BitwiseOrAssign, Symbol::BitwiseXorAssign, Symbol::ShiftLeft, Symbol::ShiftRight, Symbol::Add, Symbol::Subtract, Symbol::Multiply, Symbol::Divide, Symbol::Remainder, Symbol::LessThan, Symbol::GreaterThan, Symbol::BitwiseAnd, Symbol::BitwiseOr, Symbol::BitwiseXor, Symbol::Not, Symbol::BitwiseNot, Symbol::DoubleColon, Symbol::Dot, Symbol::ParenOpen, Symbol::ParenClose, Symbol::BracketOpen, Symbol::BracketClose, Symbol::BraceOpen, Symbol::BraceClose, Symbol::Comma, Symbol::Semicolon, Symbol::Colon, Symbol::Assign]
    }

    /// The first symbol, in the order of `all`, whose spelling occurs in `s` at `i`.
    pub open spec fn spec_at(s: Seq<char>, i: int) -> Option<Self> {
        if starts_with_at(s, i, seq!['.', '.', '=']) {
            Some(Symbol::RangeTo)
        } else if starts_with_at(s, i, seq!['.', '.']) {
            Some(Symbol::Range)
        } else if starts_with_at(s, i, seq!['<', '<', '=']) {
            Some(Symbol::ShiftLeftAssign)
        } else if starts_with_at(s, i, seq!['>', '>', '=']) {
            Some(Symbol::ShiftRightAssign)
        } else if starts_with_at(s, i, seq!['+', '=']) {
            Some(Symbol::AddAssign)
        } else if starts_with_at(s, i, seq!['-', '=']) {
            Some(Symbol::SubtractAssign)
        } else if starts_with_at(s, i, seq!['*', '=']) {
            Some(Symbol::MultiplyAssign)
        } else if starts_with_at(s, i, seq!['/', '=']) {
            Some(Symbol::DivideAssign)
        } else if starts_with_at(s, i, seq!['%', '=']) {
            Some(Symbol::RemainderAssign)
        } else if starts_with_at(s, i, seq!['=', '=']) {
            Some(Symbol::Equal)
        } else if starts_with_at(s, i, seq!['!', '=']) {
            Some(Symbol::NotEqual)
        } else if starts_with_at(s, i, seq!['<', '=']) {
            Some(Symbol::LessThanOrEqual)
        } else if starts_with_at(s, i, seq!['>', '=']) {
            Some(Symbol::GreaterThanOrEqual)
        } else if starts_with_at(s, i, seq!['&', '&']) {
            Some(Symbol::BooleanAnd)
        } else if starts_with_at(s, i, seq!['|', '|']) {
            Some(Symbol::BooleanOr)
        } else if starts_with_at(s, i, seq!['^', '^']) {
            Some(Symbol::BooleanXor)
        } else if starts_with_at(s, i, seq!['&', '=']) {
            Some(Symbol::BitwiseAndAssign)
        } else if starts_with_at(s, i, seq!['|', '=']) {
            Some(Symbol::BitwiseOrAssign)
        } else if starts_with_at(s, i, seq!['^', '=']) {
            Some(Symbol::BitwiseXorAssign)
        } else if starts_with_at(s, i, seq!['<', '<']) {
            Some(Symbol::ShiftLeft)
        } else if starts_with_at(s, i, seq!['>', '>']) {
            Some(Symbol::ShiftRight)
        } else if starts_with_at(s, i, seq!['+']) {
            Some(Symbol::Add)
        } else if starts_with_at(s, i, seq!['-']) {
            Some(Symbol::Subtract)
        } else if starts_with_at(s, i, seq!['*']) {
            Some(Symbol::Multiply)
        } else if starts_with_at(s, i, seq!['/']) {
            Some(Symbol::Divide)
        } else if starts_with_at(s, i, seq!['%']) {
            Some(Symbol::Remainder)
        } else if starts_with_at(s, i, seq!['<']) {
            Some(Symbol::LessThan)
        } else if starts_with_at(s, i, seq!['>']) {
            Some(Symbol::GreaterThan)
        } else if starts_with_at(s, i, seq!['&']) {
            Some(Symbol::BitwiseAnd)
        } else if starts_with_at(s, i, seq!['|']) {
            Some(Symbol::BitwiseOr)
        } else if starts_with_at(s, i, seq!['^']) {
            Some(Symbol::BitwiseXor)
        } else if starts_with_at(s, i, seq!['!']) {
            Some(Symbol::Not)
        } else if starts_with_at(s, i, seq!['~']) {
            Some(Symbol::BitwiseNot)
        } else if starts_with_at(s, i, seq![':', ':']) {
            Some(Symbol::DoubleColon)
        } else if starts_with_at(s, i, seq!['.']) {
            Some(Symbol::Dot)
        } else if starts_with_at(s, i, seq!['(']) {
            Some(Symbol::ParenOpen)
        } else if starts_with_at(s, i, seq![')']) {
            Some(Symbol::ParenClose)
        } else if starts_with_at(s, i, seq!['[']) {
            Some(Symbol::BracketOpen)
        } else if starts_with_at(s, i, seq![']']) {
            Some(Symbol::BracketClose)
        } else if starts_with_at(s, i, seq!['{']) {
            Some(Symbol::BraceOpen)
        } else if starts_with_at(s, i, seq!['}']) {
            Some(Symbol::BraceClose)
        } else if starts_with_at(s, i, seq![',']) {
            Some(Symbol::Comma)
        } else if starts_with_at(s, i, seq![';']) {
            Some(Symbol::Semicolon)
        } else if starts_with_at(s, i, seq![':']) {
            Some(Symbol::Colon)
        } else if starts_with_at(s, i, seq!['=']) {
            Some(Symbol::Assign)
        } else {
            None
        }
    }

    /// The symbol that `spec_at` finds is spelled at `i`, with at least one character.
    pub proof fn lemma_spec_at(s: Seq<char>, i: int)
        ensures
            Self::spec_at(s, i) matches Some(sym) ==> starts_with_at(s, i, sym.spec_repr())
                && sym.spec_repr().len() >= 1,
    {
    }

    /// What the tokenizer reads as a symbol is that symbol's documented spelling: wherever
    /// `spec_at` finds a symbol, the text there is its spelling (`+=` for `AddAssign`, `-=`
    /// for `SubtractAssign`, and so on for every symbol); and wherever a symbol's spelling
    /// occurs, a symbol at least that long is read there.
    pub proof fn lemma_read_symbols_are_spelled(s: Seq<char>, i: int)
        ensures
            Self::spec_at(s, i) == Some(Symbol::RangeTo) ==> starts_with_at(s, i, seq!['.', '.', '=']),
            Self::spec_at(s, i) == Some(Symbol::Range) ==> starts_with_at(s, i, seq!['.', '.']),
            Self::spec_at(s, i) == Some(Symbol::ShiftLeftAssign) ==> starts_with_at(s, i, seq!['<', '<', '=']),
            Self::spec_at(s, i) == Some(Symbol::ShiftRightAssign) ==> starts_with_at(s, i, seq!['>', '>', '=']),
            Self::spec_at(s, i) == Some(Symbol::AddAssign) ==> starts_with_at(s, i, seq!['+', '=']),
            Self::spec_at(s, i) == Some(Symbol::SubtractAssign) ==> starts_with_at(s, i, seq!['-', '=']),
            Self::spec_at(s, i) == Some(Symbol::MultiplyAssign) ==> starts_with_at(s, i, seq!['*', '=']),
            Self::spec_at(s, i) == Some(Symbol::DivideAssign) ==> starts_with_at(s, i, seq!['/', '=']),
            Self::spec_at(s, i) == Some(Symbol::RemainderAssign) ==> starts_with_at(s, i, seq!['%', '=']),
            Self::spec_at(s, i) == Some(Symbol::Equal) ==> starts_with_at(s, i, seq!['=', '=']),
            Self::spec_at(s, i) == Some(Symbol::NotEqual) ==> starts_with_at(s, i, seq!['!', '=']),
            Self::spec_at(s, i) == Some(Symbol::LessThanOrEqual) ==> starts_with_at(s, i, seq!['<', '=']),
            Self::spec_at(s, i) == Some(Symbol::GreaterThanOrEqual) ==> starts_with_at(s, i, seq!['>', '=']),
            Self::spec_at(s, i) == Some(Symbol::BooleanAnd) ==> starts_with_at(s, i, seq!['&', '&']),
            Self::spec_at(s, i) == Some(Symbol::BooleanOr) ==> starts_with_at(s, i, seq!['|', '|']),
            Self::spec_at(s, i) == Some(Symbol::BooleanXor) ==> starts_with_at(s, i, seq!['^', '^']),
            Self::spec_at(s, i) == Some(Symbol::BitwiseAndAssign) ==> starts_with_at(s, i, seq!['&', '=']),
            Self::spec_at(s, i) == Some(Symbol::BitwiseOrAssign) ==> starts_with_at(s, i, seq!['|', '=']),
            Self::spec_at(s, i) == Some(Symbol::BitwiseXorAssign) ==> starts_with_at(s, i, seq!['^', '=']),
            Self::spec_at(s, i) == Some(Symbol::ShiftLeft) ==> starts_with_at(s, i, seq!['<', '<']),
            Self::spec_at(s, i) == Some(Symbol::ShiftRight) ==> starts_with_at(s, i, seq!['>', '>']),
            Self::spec_at(s, i) == Some(Symbol::Add) ==> starts_with_at(s, i, seq!['+']),
            Self::spec_at(s, i) == Some(Symbol::Subtract) ==> starts_with_at(s, i, seq!['-']),
            Self::spec_at(s, i) == Some(Symbol::Multiply) ==> starts_with_at(s, i, seq!['*']),
            Self::spec_at(s, i) == Some(Symbol::Divide) ==> starts_with_at(s, i, seq!['/']),
            Self::spec_at(s, i) == Some(Symbol::Remainder) ==> starts_with_at(s, i, seq!['%']),
            Self::spec_at(s, i) == Some(Symbol::LessThan) ==> starts_with_at(s, i, seq!['<']),
            Self::spec_at(s, i) == Some(Symbol::GreaterThan) ==> starts_with_at(s, i, seq!['>']),
            Self::spec_at(s, i) == Some(Symbol::BitwiseAnd) ==> starts_with_at(s, i, seq!['&']),
            Self::spec_at(s, i) == Some(Symbol::BitwiseOr) ==> starts_with_at(s, i, seq!['|']),
            Self::spec_at(s, i) == Some(Symbol::BitwiseXor) ==> starts_with_at(s, i, seq!['^']),
            Self::spec_at(s, i) == Some(Symbol::Not) ==> starts_with_at(s, i, seq!['!']),
            Self::spec_at(s, i) == Some(Symbol::BitwiseNot) ==> starts_with_at(s, i, seq!['~']),
            Self::spec_at(s, i) == Some(Symbol::DoubleColon) ==> starts_with_at(s, i, seq![':', ':']),
            Self::spec_at(s, i) == Some(Symbol::Dot) ==> starts_with_at(s, i, seq!['.']),
            Self::spec_at(s, i) == Some(Symbol::ParenOpen) ==> starts_with_at(s, i, seq!['(']),
            Self::spec_at(s, i) == Some(Symbol::ParenClose) ==> starts_with_at(s, i, seq![')']),
            Self::spec_at(s, i) == Some(Symbol::BracketOpen) ==> starts_with_at(s, i, seq!['[']),
            Self::spec_at(s, i) == Some(Symbol::BracketClose) ==> starts_with_at(s, i, seq![']']),
            Self::spec_at(s, i) == Some(Symbol::BraceOpen) ==> starts_with_at(s, i, seq!['{']),
            Self::spec_at(s, i) == Some(Symbol::BraceClose) ==> starts_with_at(s, i, seq!['}']),
            Self::spec_at(s, i) == Some(Symbol::Comma) ==> starts_with_at(s, i, seq![',']),
            Self::spec_at(s, i) == Some(Symbol::Semicolon) ==> starts_with_at(s, i, seq![';']),
            Self::spec_at(s, i) == Some(Symbol::Colon) ==> starts_with_at(s, i, seq![':']),
            Self::spec_at(s, i) == Some(Symbol::Assign) ==> starts_with_at(s, i, seq!['=']),
            starts_with_at(s, i, seq!['.', '.', '=']) ==> (Self::spec_at(s, i) matches Some(y) && seq!['.', '.', '='].len() <= y.spec_repr().len()),
            starts_with_at(s, i, seq!['.', '.']) ==> (Self::spec_at(s, i) matches Some(y) && seq!['.', '.'].len() <= y.spec_repr().len()),
            starts_with_at(s, i, seq!['<', '<', '=']) ==> (Self::spec_at(s, i) matches Some(y) && seq!['<', '<', '='].len() <= y.spec_repr().len()),
            starts_with_at(s, i, seq!['>', '>', '=']) ==> (Self::spec_at(s, i) matches Some(y) && seq!['>', '>', '='].len() <= y.spec_repr().len()),
            starts_with_at(s, i, seq!['+', '=']) ==> (Self::spec_at(s, i) matches Some(y) && seq!['+', '='].len() <= y.spec_repr().len()),
            starts_with_at(s, i, seq!['-', '=']) ==> (Self::spec_at(s, i) matches Some(y) && seq!['-', '='].len() <= y.spec_repr().len()),
            starts_with_at(s, i, seq!['*', '=']) ==> (Self::spec_at(s, i) matches Some(y) && seq!['*', '='].len() <= y.spec_repr().len()),
            starts_with_at(s, i, seq!['/', '=']) ==> (Self::spec_at(s, i) matches Some(y) && seq!['/', '='].len() <= y.spec_repr().len()),
            starts_with_at(s, i, seq!['%', '=']) ==> (Self::spec_at(s, i) matches Some(y) && seq!['%', '='].len() <= y.spec_repr().len()),
            starts_with_at(s, i, seq!['=', '=']) ==> (Self::spec_at(s, i) matches Some(y) && seq!['=', '='].len() <= y.spec_repr().len()),
            starts_with_at(s, i, seq!['!', '=']) ==> (Self::spec_at(s, i) matches Some(y) && seq!['!', '='].len() <= y.spec_repr().len()),
            starts_with_at(s, i, seq!['<', '=']) ==> (Self::spec_at(s, i) matches Some(y) && seq!['<', '='].len() <= y.spec_repr().len()),
            starts_with_at(s, i, seq!['>', '=']) ==> (Self::spec_at(s, i) matches Some(y) && seq!['>', '='].len() <= y.spec_repr().len()),
            starts_with_at(s, i, seq!['&', '&']) ==> (Self::spec_at(s, i) matches Some(y) && seq!['&', '&'].len() <= y.spec_repr().len()),
            starts_with_at(s, i, seq!['|', '|']) ==> (Self::spec_at(s, i) matches Some(y) && seq!['|', '|'].len() <= y.spec_repr().len()),
            starts_with_at(s, i, seq!['^', '^']) ==> (Self::spec_at(s, i) matches Some(y) && seq!['^', '^'].len() <= y.spec_repr().len()),
            starts_with_at(s, i, seq!['&', '=']) ==> (Self::spec_at(s, i) matches Some(y) && seq!['&', '='].len() <= y.spec_repr().len()),
            starts_with_at(s, i, seq!['|', '=']) ==> (Self::spec_at(s, i) matches Some(y) && seq!['|', '='].len() <= y.spec_repr().len()),
            starts_with_at(s, i, seq!['^', '=']) ==> (Self::spec_at(s, i) matches Some(y) && seq!['^', '='].len() <= y.spec_repr().len()),
            starts_with_at(s, i, seq!['<', '<']) ==> (Self::spec_at(s, i) matches Some(y) && seq!['<', '<'].len() <= y.spec_repr().len()),
            starts_with_at(s, i, seq!['>', '>']) ==> (Self::spec_at(s, i) matches Some(y) && seq!['>', '>'].len() <= y.spec_repr().len()),
            starts_with_at(s, i, seq!['+']) ==> (Self::spec_at(s, i) matches Some(y) && seq!['+'].len() <= y.spec_repr().len()),
            starts_with_at(s, i, seq!['-']) ==> (Self::spec_at(s, i) matches Some(y) && seq!['-'].len() <= y.spec_repr().len()),
            starts_with_at(s, i, seq!['*']) ==> (Self::spec_at(s, i) matches Some(y) && seq!['*'].len() <= y.spec_repr().len()),
            starts_with_at(s, i, seq!['/']) ==> (Self::spec_at(s, i) matches Some(y) && seq!['/'].len() <= y.spec_repr().len()),
            starts_with_at(s, i, seq!['%']) ==> (Self::spec_at(s, i) matches Some(y) && seq!['%'].len() <= y.spec_repr().len()),
            starts_with_at(s, i, seq!['<']) ==> (Self::spec_at(s, i) matches Some(y) && seq!['<'].len() <= y.spec_repr().len()),
            starts_with_at(s, i, seq!['>']) ==> (Self::spec_at(s, i) matches Some(y) && seq!['>'].len() <= y.spec_repr().len()),
            starts_with_at(s, i, seq!['&']) ==> (Self::spec_at(s, i) matches Some(y) && seq!['&'].len() <= y.spec_repr().len()),
            starts_with_at(s, i, seq!['|']) ==> (Self::spec_at(s, i) matches Some(y) && seq!['|'].len() <= y.spec_repr().len()),
            starts_with_at(s, i, seq!['^']) ==> (Self::spec_at(s, i) matches Some(y) && seq!['^'].len() <= y.spec_repr().len()),
            starts_with_at(s, i, seq!['!']) ==> (Self::spec_at(s, i) matches Some(y) && seq!['!'].len() <= y.spec_repr().len()),
            starts_with_at(s, i, seq!['~']) ==> (Self::spec_at(s, i) matches Some(y) && seq!['~'].len() <= y.spec_repr().len()),
            starts_with_at(s, i, seq![':', ':']) ==> (Self::spec_at(s, i) matches Some(y) && seq![':', ':'].len() <= y.spec_repr().len()),
            starts_with_at(s, i, seq!['.']) ==> (Self::spec_at(s, i) matches Some(y) && seq!['.'].len() <= y.spec_repr().len()),
            starts_with_at(s, i, seq!['(']) ==> (Self::spec_at(s, i) matches Some(y) && seq!['('].len() <= y.spec_repr().len()),
            starts_with_at(s, i, seq![')']) ==> (Self::spec_at(s, i) matches Some(y) && seq![')'].len() <= y.spec_repr().len()),
            starts_with_at(s, i, seq!['[']) ==> (Self::spec_at(s, i) matches Some(y) && seq!['['].len() <= y.spec_repr().len()),
            starts_with_at(s, i, seq![']']) ==> (Self::spec_at(s, i) matches Some(y) && seq![']'].len() <= y.spec_repr().len()),
            starts_with_at(s, i, seq!['{']) ==> (Self::spec_at(s, i) matches Some(y) && seq!['{'].len() <= y.spec_repr().len()),
            starts_with_at(s, i, seq!['}']) ==> (Self::spec_at(s, i) matches Some(y) && seq!['}'].len() <= y.spec_repr().len()),
            starts_with_at(s, i, seq![',']) ==> (Self::spec_at(s, i) matches Some(y) && seq![','].len() <= y.spec_repr().len()),
            starts_with_at(s, i, seq![';']) ==> (Self::spec_at(s, i) matches Some(y) && seq![';'].len() <= y.spec_repr().len()),
            starts_with_at(s, i, seq![':']) ==> (Self::spec_at(s, i) matches Some(y) && seq![':'].len() <= y.spec_repr().len()),
            starts_with_at(s, i, seq!['=']) ==> (Self::spec_at(s, i) matches Some(y) && seq!['='].len() <= y.spec_repr().len()),
    {
        Self::lemma_spec_at(s, i);
        if starts_with_at(s, i, seq!['.', '.', '=']) {
            Self::lemma_spec_at_longest(s, i, Symbol::RangeTo);
        }
        if starts_with_at(s, i, seq!['.', '.']) {
            Self::lemma_spec_at_longest(s, i, Symbol::Range);
        }
        if starts_with_at(s, i, seq!['<', '<', '=']) {
            Self::lemma_spec_at_longest(s, i, Symbol::ShiftLeftAssign);
        }
        if starts_with_at(s, i, seq!['>', '>', '=']) {
            Self::lemma_spec_at_longest(s, i, Symbol::ShiftRightAssign);
        }
        if starts_with_at(s, i, seq!['+', '=']) {
            Self::lemma_spec_at_longest(s, i, Symbol::AddAssign);
        }
        if starts_with_at(s, i, seq!['-', '=']) {
            Self::lemma_spec_at_longest(s, i, Symbol::SubtractAssign);
        }
        if starts_with_at(s, i, seq!['*', '=']) {
            Self::lemma_spec_at_longest(s, i, Symbol::MultiplyAssign);
        }
        if starts_with_at(s, i, seq!['/', '=']) {
            Self::lemma_spec_at_longest(s, i, Symbol::DivideAssign);
        }
        if starts_with_at(s, i, seq!['%', '=']) {
            Self::lemma_spec_at_longest(s, i, Symbol::RemainderAssign);
        }
        if starts_with_at(s, i, seq!['=', '=']) {
            Self::lemma_spec_at_longest(s, i, Symbol::Equal);
        }
        if starts_with_at(s, i, seq!['!', '=']) {
            Self::lemma_spec_at_longest(s, i, Symbol::NotEqual);
        }
        if starts_with_at(s, i, seq!['<', '=']) {
            Self::lemma_spec_at_longest(s, i, Symbol::LessThanOrEqual);
        }
        if starts_with_at(s, i, seq!['>', '=']) {
            Self::lemma_spec_at_longest(s, i, Symbol::GreaterThanOrEqual);
        }
        if starts_with_at(s, i, seq!['&', '&']) {
            Self::lemma_spec_at_longest(s, i, Symbol::BooleanAnd);
        }
        if starts_with_at(s, i, seq!['|', '|']) {
            Self::lemma_spec_at_longest(s, i, Symbol::BooleanOr);
        }
        if starts_with_at(s, i, seq!['^', '^']) {
            Self::lemma_spec_at_longest(s, i, Symbol::BooleanXor);
        }
        if starts_with_at(s, i, seq!['&', '=']) {
            Self::lemma_spec_at_longest(s, i, Symbol::BitwiseAndAssign);
        }
        if starts_with_at(s, i, seq!['|', '=']) {
            Self::lemma_spec_at_longest(s, i, Symbol::BitwiseOrAssign);
        }
        if starts_with_at(s, i, seq!['^', '=']) {
            Self::lemma_spec_at_longest(s, i, Symbol::BitwiseXorAssign);
        }
        if starts_with_at(s, i, seq!['<', '<']) {
            Self::lemma_spec_at_longest(s, i, Symbol::ShiftLeft);
        }
        if starts_with_at(s, i, seq!['>', '>']) {
            Self::lemma_spec_at_longest(s, i, Symbol::ShiftRight);
        }
        if starts_with_at(s, i, seq!['+']) {
            Self::lemma_spec_at_longest(s, i, Symbol::Add);
        }
        if starts_with_at(s, i, seq!['-']) {
            Self::lemma_spec_at_longest(s, i, Symbol::Subtract);
        }
        if starts_with_at(s, i, seq!['*']) {
            Self::lemma_spec_at_longest(s, i, Symbol::Multiply);
        }
        if starts_with_at(s, i, seq!['/']) {
            Self::lemma_spec_at_longest(s, i, Symbol::Divide);
        }
        if starts_with_at(s, i, seq!['%']) {
            Self::lemma_spec_at_longest(s, i, Symbol::Remainder);
        }
        if starts_with_at(s, i, seq!['<']) {
            Self::lemma_spec_at_longest(s, i, Symbol::LessThan);
        }
        if starts_with_at(s, i, seq!['>']) {
            Self::lemma_spec_at_longest(s, i, Symbol::GreaterThan);
        }
        if starts_with_at(s, i, seq!['&']) {
            Self::lemma_spec_at_longest(s, i, Symbol::BitwiseAnd);
        }
        if starts_with_at(s, i, seq!['|']) {
            Self::lemma_spec_at_longest(s, i, Symbol::BitwiseOr);
        }
        if starts_with_at(s, i, seq!['^']) {
            Self::lemma_spec_at_longest(s, i, Symbol::BitwiseXor);
        }
        if starts_with_at(s, i, seq!['!']) {
            Self::lemma_spec_at_longest(s, i, Symbol::Not);
        }
        if starts_with_at(s, i, seq!['~']) {
            Self::lemma_spec_at_longest(s, i, Symbol::BitwiseNot);
        }
        if starts_with_at(s, i, seq![':', ':']) {
            Self::lemma_spec_at_longest(s, i, Symbol::DoubleColon);
        }
        if starts_with_at(s, i, seq!['.']) {
            Self::lemma_spec_at_longest(s, i, Symbol::Dot);
        }
        if starts_with_at(s, i, seq!['(']) {
            Self::lemma_spec_at_longest(s, i, Symbol::ParenOpen);
        }
        if starts_with_at(s, i, seq![')']) {
            Self::lemma_spec_at_longest(s, i, Symbol::ParenClose);
        }
        if starts_with_at(s, i, seq!['[']) {
            Self::lemma_spec_at_longest(s, i, Symbol::BracketOpen);
        }
        if starts_with_at(s, i, seq![']']) {
            Self::lemma_spec_at_longest(s, i, Symbol::BracketClose);
        }
        if starts_with_at(s, i, seq!['{']) {
            Self::lemma_spec_at_longest(s, i, Symbol::BraceOpen);
        }
        if starts_with_at(s, i, seq!['}']) {
            Self::lemma_spec_at_longest(s, i, Symbol::BraceClose);
        }
        if starts_with_at(s, i, seq![',']) {
            Self::lemma_spec_at_longest(s, i, Symbol::Comma);
        }
        if starts_with_at(s, i, seq![';']) {
            Self::lemma_spec_at_longest(s, i, Symbol::Semicolon);
        }
        if starts_with_at(s, i, seq![':']) {
            Self::lemma_spec_at_longest(s, i, Symbol::Colon);
        }
        if starts_with_at(s, i, seq!['=']) {
            Self::lemma_spec_at_longest(s, i, Symbol::Assign);
        }
    }

    /// The longest spelling wins: no symbol spelled at `i` is longer than the one that
    /// `spec_at` finds there.
    #[verifier::rlimit(50)]
    pub proof fn lemma_spec_at_longest(s: Seq<char>, i: int, other: Self)
        requires
            starts_with_at(s, i, other.spec_repr()),
        ensures
            Self::spec_at(s, i) matches Some(sym) && other.spec_repr().len() <= sym.spec_repr().len(),
    {
        let p = other.spec_repr();
        assert forall|k: int| 0 <= k < p.len() implies s[i + k] == p[k] by {
            assert(s.subrange(i, i + p.len())[k] == s[i + k]);
        }
    }

    /// Reading a symbol's spelling on its own gives the symbol back.
    #[verifier::rlimit(50)]
    pub proof fn lemma_spelling_round_trip(sym: Self)
        ensures
            Self::spec_at(sym.spec_repr(), 0) == Some(sym),
    {
        let p = sym.spec_repr();
        assert(p.subrange(0, p.len() as int) =~= p);
        Self::lemma_spec_at_longest(p, 0, sym);
        let found = Self::spec_at(p, 0).unwrap();
        let q = found.spec_repr();
        assert forall|k: int| 0 <= k < q.len() implies p[k] == q[k] by {
            assert(p.subrange(0, q.len() as int)[k] == p[k]);
        }
        assert(p =~= q);
        assert(p.len() >= 1 && p[0] == q[0]);
        if p.len() >= 2 {
            assert(p[1] == q[1]);
        }
        if p.len() >= 3 {
            assert(p[2] == q[2]);
        }
    }

    /// Moves the cursor past the first symbol, in the order of `all`, that the source
    /// continues with, and returns it.
    pub fn parse(cursor: &mut SourceCursor) -> (r: Option<Self>)
        requires
            old(cursor).wf(),
        ensures
            final(cursor).wf(),
            final(cursor).same_text(old(cursor)),
            final(cursor).rb() == old(cursor).rb(),
            r == Self::spec_at(old(cursor).src(), old(cursor).idx()),
            final(cursor).idx() == old(cursor).idx() + match r {
                Some(sym) => sym.spec_repr().len() as int,
                None => 0int,
            },
    {
        if cursor.consume_str("..=") {
            proof {
                reveal_strlit("..=");
                assert("..="@ =~= seq!['.', '.', '=']);
            }
            return Some(Symbol::RangeTo);
        }
        proof {
            reveal_strlit("..=");
            assert("..="@ =~= seq!['.', '.', '=']);
        }
        if cursor.consume_str("..") {
            proof {
                reveal_strlit("..");
                assert(".."@ =~= seq!['.', '.']);
            }
            return Some(Symbol::Range);
        }
        proof {
            reveal_strlit("..");
            assert(".."@ =~= seq!['.', '.']);
        }
        if cursor.consume_str("<<=") {
            proof {
                reveal_strlit("<<=");
                assert("<<="@ =~= seq!['<', '<', '=']);
            }
            return Some(Symbol::ShiftLeftAssign);
        }
        proof {
            reveal_strlit("<<=");
            assert("<<="@ =~= seq!['<', '<', '=']);
        }
        if cursor.consume_str(">>=") {
            proof {
                reveal_strlit(">>=");
                assert(">>="@ =~= seq!['>', '>', '=']);
            }
            return Some(Symbol::ShiftRightAssign);
        }
        proof {
            reveal_strlit(">>=");
            assert(">>="@ =~= seq!['>', '>', '=']);
        }
        if cursor.consume_str("+=") {
            proof {
                reveal_strlit("+=");
                assert("+="@ =~= seq!['+', '=']);
            }
            return Some(Symbol::AddAssign);
        }
        proof {
            reveal_strlit("+=");
            assert("+="@ =~= seq!['+', '=']);
        }
        if cursor.consume_str("-=") {
            proof {
                reveal_strlit("-=");
                assert("-="@ =~= seq!['-', '=']);
            }
            return Some(Symbol::SubtractAssign);
        }
        proof {
            reveal_strlit("-=");
            assert("-="@ =~= seq!['-', '=']);
        }
        if cursor.consume_str("*=") {
            proof {
                reveal_strlit("*=");
                assert("*="@ =~= seq!['*', '=']);
            }
            return Some(Symbol::MultiplyAssign);
        }
        proof {
            reveal_strlit("*=");
            assert("*="@ =~= seq!['*', '=']);
        }
        if cursor.consume_str("/=") {
            proof {
                reveal_strlit("/=");
                assert("/="@ =~= seq!['/', '=']);
            }
            return Some(Symbol::DivideAssign);
        }
        proof {
            reveal_strlit("/=");
            assert("/="@ =~= seq!['/', '=']);
        }
        if cursor.consume_str("%=") {
            proof {
                reveal_strlit("%=");
                assert("%="@ =~= seq!['%', '=']);
            }
            return Some(Symbol::RemainderAssign);
        }
        proof {
            reveal_strlit("%=");
            assert("%="@ =~= seq!['%', '=']);
        }
        if cursor.consume_str("==") {
            proof {
                reveal_strlit("==");
                assert("=="@ =~= seq!['=', '=']);
            }
            return Some(Symbol::Equal);
        }
        proof {
            reveal_strlit("==");
            assert("=="@ =~= seq!['=', '=']);
        }
        if cursor.consume_str("!=") {
            proof {
                reveal_strlit("!=");
                assert("!="@ =~= seq!['!', '=']);
            }
            return Some(Symbol::NotEqual);
        }
        proof {
            reveal_strlit("!=");
            assert("!="@ =~= seq!['!', '=']);
        }
        if cursor.consume_str("<=") {
            proof {
                reveal_strlit("<=");
                assert("<="@ =~= seq!['<', '=']);
            }
            return Some(Symbol::LessThanOrEqual);
        }
        proof {
            reveal_strlit("<=");
            assert("<="@ =~= seq!['<', '=']);
        }
        if cursor.consume_str(">=") {
            proof {
                reveal_strlit(">=");
                assert(">="@ =~= seq!['>', '=']);
            }
            return Some(Symbol::GreaterThanOrEqual);
        }
        proof {
            reveal_strlit(">=");
            assert(">="@ =~= seq!['>', '=']);
        }
        if cursor.consume_str("&&") {
            proof {
                reveal_strlit("&&");
                assert("&&"@ =~= seq!['&', '&']);
            }
            return Some(Symbol::BooleanAnd);
        }
        proof {
            reveal_strlit("&&");
            assert("&&"@ =~= seq!['&', '&']);
        }
        if cursor.consume_str("||") {
            proof {
                reveal_strlit("||");
                assert("||"@ =~= seq!['|', '|']);
            }
            return Some(Symbol::BooleanOr);
        }
        proof {
            reveal_strlit("||");
            assert("||"@ =~= seq!['|', '|']);
        }
        if cursor.consume_str("^^") {
            proof {
                reveal_strlit("^^");
                assert("^^"@ =~= seq!['^', '^']);
            }
            return Some(Symbol::BooleanXor);
        }
        proof {
            reveal_strlit("^^");
            assert("^^"@ =~= seq!['^', '^']);
        }
        if cursor.consume_str("&=") {
            proof {
                reveal_strlit("&=");
                assert("&="@ =~= seq!['&', '=']);
            }
            return Some(Symbol::BitwiseAndAssign);
        }
        proof {
            reveal_strlit("&=");
            assert("&="@ =~= seq!['&', '=']);
        }
        if cursor.consume_str("|=") {
            proof {
                reveal_strlit("|=");
                assert("|="@ =~= seq!['|', '=']);
            }
            return Some(Symbol::BitwiseOrAssign);
        }
        proof {
            reveal_strlit("|=");
            assert("|="@ =~= seq!['|', '=']);
        }
        if cursor.consume_str("^=") {
            proof {
                reveal_strlit("^=");
                assert("^="@ =~= seq!['^', '=']);
            }
            return Some(Symbol::BitwiseXorAssign);
        }
        proof {
            reveal_strlit("^=");
            assert("^="@ =~= seq!['^', '=']);
        }
        if cursor.consume_str("<<") {
            proof {
                reveal_strlit("<<");
                assert("<<"@ =~= seq!['<', '<']);
            }
            return Some(Symbol::ShiftLeft);
        }
        proof {
            reveal_strlit("<<");
            assert("<<"@ =~= seq!['<', '<']);
        }
        if cursor.consume_str(">>") {
            proof {
                reveal_strlit(">>");
                assert(">>"@ =~= seq!['>', '>']);
            }
            return Some(Symbol::ShiftRight);
        }
        proof {
            reveal_strlit(">>");
            assert(">>"@ =~= seq!['>', '>']);
        }
        if cursor.consume_str("+") {
            proof {
                reveal_strlit("+");
                assert("+"@ =~= seq!['+']);
            }
            return Some(Symbol::Add);
        }
        proof {
            reveal_strlit("+");
            assert("+"@ =~= seq!['+']);
        }
        if cursor.consume_str("-") {
            proof {
                reveal_strlit("-");
                assert("-"@ =~= seq!['-']);
            }
            return Some(Symbol::Subtract);
        }
        proof {
            reveal_strlit("-");
            assert("-"@ =~= seq!['-']);
        }
        if cursor.consume_str("*") {
            proof {
                reveal_strlit("*");
                assert("*"@ =~= seq!['*']);
            }
            return Some(Symbol::Multiply);
        }
        proof {
            reveal_strlit("*");
            assert("*"@ =~= seq!['*']);
        }
        if cursor.consume_str("/") {
            proof {
                reveal_strlit("/");
                assert("/"@ =~= seq!['/']);
            }
            return Some(Symbol::Divide);
        }
        proof {
            reveal_strlit("/");
            assert("/"@ =~= seq!['/']);
        }
        if cursor.consume_str("%") {
            proof {
                reveal_strlit("%");
                assert("%"@ =~= seq!['%']);
            }
            return Some(Symbol::Remainder);
        }
        proof {
            reveal_strlit("%");
            assert("%"@ =~= seq!['%']);
        }
        if cursor.consume_str("<") {
            proof {
                reveal_strlit("<");
                assert("<"@ =~= seq!['<']);
            }
            return Some(Symbol::LessThan);
        }
        proof {
            reveal_strlit("<");
            assert("<"@ =~= seq!['<']);
        }
        if cursor.consume_str(">") {
            proof {
                reveal_strlit(">");
                assert(">"@ =~= seq!['>']);
            }
            return Some(Symbol::GreaterThan);
        }
        proof {
            reveal_strlit(">");
            assert(">"@ =~= seq!['>']);
        }
        if cursor.consume_str("&") {
            proof {
                reveal_strlit("&");
                assert("&"@ =~= seq!['&']);
            }
            return Some(Symbol::BitwiseAnd);
        }
        proof {
            reveal_strlit("&");
            assert("&"@ =~= seq!['&']);
        }
        if cursor.consume_str("|") {
            proof {
                reveal_strlit("|");
                assert("|"@ =~= seq!['|']);
            }
            return Some(Symbol::BitwiseOr);
        }
        proof {
            reveal_strlit("|");
            assert("|"@ =~= seq!['|']);
        }
        if cursor.consume_str("^") {
            proof {
                reveal_strlit("^");
                assert("^"@ =~= seq!['^']);
            }
            return Some(Symbol::BitwiseXor);
        }
        proof {
            reveal_strlit("^");
            assert("^"@ =~= seq!['^']);
        }
        if cursor.consume_str("!") {
            proof {
                reveal_strlit("!");
                assert("!"@ =~= seq!['!']);
            }
            return Some(Symbol::Not);
        }
        proof {
            reveal_strlit("!");
            assert("!"@ =~= seq!['!']);
        }
        if cursor.consume_str("~") {
            proof {
                reveal_strlit("~");
                assert("~"@ =~= seq!['~']);
            }
            return Some(Symbol::BitwiseNot);
        }
        proof {
            reveal_strlit("~");
            assert("~"@ =~= seq!['~']);
        }
        if cursor.consume_str("::") {
            proof {
                reveal_strlit("::");
                assert("::"@ =~= seq![':', ':']);
            }
            return Some(Symbol::DoubleColon);
        }
        proof {
            reveal_strlit("::");
            assert("::"@ =~= seq![':', ':']);
        }
        if cursor.consume_str(".") {
            proof {
                reveal_strlit(".");
                assert("."@ =~= seq!['.']);
            }
            return Some(Symbol::Dot);
        }
        proof {
            reveal_strlit(".");
            assert("."@ =~= seq!['.']);
        }
        if cursor.consume_str("(") {
            proof {
                reveal_strlit("(");
                assert("("@ =~= seq!['(']);
            }
            return Some(Symbol::ParenOpen);
        }
        proof {
            reveal_strlit("(");
            assert("("@ =~= seq!['(']);
        }
        if cursor.consume_str(")") {
            proof {
                reveal_strlit(")");
                assert(")"@ =~= seq![')']);
            }
            return Some(Symbol::ParenClose);
        }
        proof {
            reveal_strlit(")");
            assert(")"@ =~= seq![')']);
        }
        if cursor.consume_str("[") {
            proof {
                reveal_strlit("[");
                assert("["@ =~= seq!['[']);
            }
            return Some(Symbol::BracketOpen);
        }
        proof {
            reveal_strlit("[");
            assert("["@ =~= seq!['[']);
        }
        if cursor.consume_str("]") {
            proof {
                reveal_strlit("]");
                assert("]"@ =~= seq![']']);
            }
            return Some(Symbol::BracketClose);
        }
        proof {
            reveal_strlit("]");
            assert("]"@ =~= seq![']']);
        }
        if cursor.consume_str("{") {
            proof {
                reveal_strlit("{");
                assert("{"@ =~= seq!['{']);
            }
            return Some(Symbol::BraceOpen);
        }
        proof {
            reveal_strlit("{");
            assert("{"@ =~= seq!['{']);
        }
        if cursor.consume_str("}") {
            proof {
                reveal_strlit("}");
                assert("}"@ =~= seq!['}']);
            }
            return Some(Symbol::BraceClose);
        }
        proof {
            reveal_strlit("}");
            assert("}"@ =~= seq!['}']);
        }
        if cursor.consume_str(",") {
            proof {
                reveal_strlit(",");
                assert(","@ =~= seq![',']);
            }
            return Some(Symbol::Comma);
        }
        proof {
            reveal_strlit(",");
            assert(","@ =~= seq![',']);
        }
        if cursor.consume_str(";") {
            proof {
                reveal_strlit(";");
                assert(";"@ =~= seq![';']);
            }
            return Some(Symbol::Semicolon);
        }
        proof {
            reveal_strlit(";");
            assert(";"@ =~= seq![';']);
        }
        if cursor.consume_str(":") {
            proof {
                reveal_strlit(":");
                assert(":"@ =~= seq![':']);
            }
            return Some(Symbol::Colon);
        }
        proof {
            reveal_strlit(":");
            assert(":"@ =~= seq![':']);
        }
        if cursor.consume_str("=") {
            proof {
                reveal_strlit("=");
                assert("="@ =~= seq!['=']);
            }
            return Some(Symbol::Assign);
        }
        proof {
            reveal_strlit("=");
            assert("="@ =~= seq!['=']);
        }
        None
    }

    /// The spelling of the symbol.
    pub fn repr(&self) -> (r: &'static str)
        ensures
            r@ == self.spec_repr(),
    {
        match self {
            Symbol::RangeTo => {
                proof {
                    reveal_strlit("..=");
                    assert("..="@ =~= seq!['.', '.', '=']);
                }
                "..="
            },
            Symbol::Range => {
                proof {
                    reveal_strlit("..");
                    assert(".."@ =~= seq!['.', '.']);
                }
                ".."
            },
            Symbol::ShiftLeftAssign => {
                proof {
                    reveal_strlit("<<=");
                    assert("<<="@ =~= seq!['<', '<', '=']);
                }
                "<<="
            },
            Symbol::ShiftRightAssign => {
                proof {
                    reveal_strlit(">>=");
                    assert(">>="@ =~= seq!['>', '>', '=']);
                }
                ">>="
            },
            Symbol::AddAssign => {
                proof {
                    reveal_strlit("+=");
                    assert("+="@ =~= seq!['+', '=']);
                }
                "+="
            },
            Symbol::SubtractAssign => {
                proof {
                    reveal_strlit("-=");
                    assert("-="@ =~= seq!['-', '=']);
                }
                "-="
            },
            Symbol::MultiplyAssign => {
                proof {
                    reveal_strlit("*=");
                    assert("*="@ =~= seq!['*', '=']);
                }
                "*="
            },
            Symbol::DivideAssign => {
                proof {
                    reveal_strlit("/=");
                    assert("/="@ =~= seq!['/', '=']);
                }
                "/="
            },
            Symbol::RemainderAssign => {
                proof {
                    reveal_strlit("%=");
                    assert("%="@ =~= seq!['%', '=']);
                }
                "%="
            },
            Symbol::Equal => {
                proof {
                    reveal_strlit("==");
                    assert("=="@ =~= seq!['=', '=']);
                }
                "=="
            },
            Symbol::NotEqual => {
                proof {
                    reveal_strlit("!=");
                    assert("!="@ =~= seq!['!', '=']);
                }
                "!="
            },
            Symbol::LessThanOrEqual => {
                proof {
                    reveal_strlit("<=");
                    assert("<="@ =~= seq!['<', '=']);
                }
                "<="
            },
            Symbol::GreaterThanOrEqual => {
                proof {
                    reveal_strlit(">=");
                    assert(">="@ =~= seq!['>', '=']);
                }
                ">="
            },
            Symbol::BooleanAnd => {
                proof {
                    reveal_strlit("&&");
                    assert("&&"@ =~= seq!['&', '&']);
                }
                "&&"
            },
            Symbol::BooleanOr => {
                proof {
                    reveal_strlit("||");
                    assert("||"@ =~= seq!['|', '|']);
                }
                "||"
            },
            Symbol::BooleanXor => {
                proof {
                    reveal_strlit("^^");
                    assert("^^"@ =~= seq!['^', '^']);
                }
                "^^"
            },
            Symbol::BitwiseAndAssign => {
                proof {
                    reveal_strlit("&=");
                    assert("&="@ =~= seq!['&', '=']);
                }
                "&="
            },
            Symbol::BitwiseOrAssign => {
                proof {
                    reveal_strlit("|=");
                    assert("|="@ =~= seq!['|', '=']);
                }
                "|="
            },
            Symbol::BitwiseXorAssign => {
                proof {
                    reveal_strlit("^=");
                    assert("^="@ =~= seq!['^', '=']);
                }
                "^="
            },
            Symbol::ShiftLeft => {
                proof {
                    reveal_strlit("<<");
                    assert("<<"@ =~= seq!['<', '<']);
                }
                "<<"
            },
            Symbol::ShiftRight => {
                proof {
                    reveal_strlit(">>");
                    assert(">>"@ =~= seq!['>', '>']);
                }
                ">>"
            },
            Symbol::Add => {
                proof {
                    reveal_strlit("+");
                    assert("+"@ =~= seq!['+']);
                }
                "+"
            },
            Symbol::Subtract => {
                proof {
                    reveal_strlit("-");
                    assert("-"@ =~= seq!['-']);
                }
                "-"
            },
            Symbol::Multiply => {
                proof {
                    reveal_strlit("*");
                    assert("*"@ =~= seq!['*']);
                }
                "*"
            },
            Symbol::Divide => {
                proof {
                    reveal_strlit("/");
                    assert("/"@ =~= seq!['/']);
                }
                "/"
            },
            Symbol::Remainder => {
                proof {
                    reveal_strlit("%");
                    assert("%"@ =~= seq!['%']);
                }
                "%"
            },
            Symbol::LessThan => {
                proof {
                    reveal_strlit("<");
                    assert("<"@ =~= seq!['<']);
                }
                "<"
            },
            Symbol::GreaterThan => {
                proof {
                    reveal_strlit(">");
                    assert(">"@ =~= seq!['>']);
                }
                ">"
            },
            Symbol::BitwiseAnd => {
                proof {
                    reveal_strlit("&");
                    assert("&"@ =~= seq!['&']);
                }
                "&"
            },
            Symbol::BitwiseOr => {
                proof {
                    reveal_strlit("|");
                    assert("|"@ =~= seq!['|']);
                }
                "|"
            },
            Symbol::BitwiseXor => {
                proof {
                    reveal_strlit("^");
                    assert("^"@ =~= seq!['^']);
                }
                "^"
            },
            Symbol::Not => {
                proof {
                    reveal_strlit("!");
                    assert("!"@ =~= seq!['!']);
                }
                "!"
            },
            Symbol::BitwiseNot => {
                proof {
                    reveal_strlit("~");
                    assert("~"@ =~= seq!['~']);
                }
                "~"
            },
            Symbol::DoubleColon => {
                proof {
                    reveal_strlit("::");
                    assert("::"@ =~= seq![':', ':']);
                }
                "::"
            },
            Symbol::Dot => {
                proof {
                    reveal_strlit(".");
                    assert("."@ =~= seq!['.']);
                }
                "."
            },
            Symbol::ParenOpen => {
                proof {
                    reveal_strlit("(");
                    assert("("@ =~= seq!['(']);
                }
                "("
            },
            Symbol::ParenClose => {
                proof {
                    reveal_strlit(")");
                    assert(")"@ =~= seq![')']);
                }
                ")"
            },
            Symbol::BracketOpen => {
                proof {
                    reveal_strlit("[");
                    assert("["@ =~= seq!['[']);
                }
                "["
            },
            Symbol::BracketClose => {
                proof {
                    reveal_strlit("]");
                    assert("]"@ =~= seq![']']);
                }
                "]"
            },
            Symbol::BraceOpen => {
                proof {
                    reveal_strlit("{");
                    assert("{"@ =~= seq!['{']);
                }
                "{"
            },
            Symbol::BraceClose => {
                proof {
                    reveal_strlit("}");
                    assert("}"@ =~= seq!['}']);
                }
                "}"
            },
            Symbol::Comma => {
                proof {
                    reveal_strlit(",");
                    assert(","@ =~= seq![',']);
                }
                ","
            },
            Symbol::Semicolon => {
                proof {
                    reveal_strlit(";");
                    assert(";"@ =~= seq![';']);
                }
                ";"
            },
            Symbol::Colon => {
                proof {
                    reveal_strlit(":");
                    assert(":"@ =~= seq![':']);
                }
                ":"
            },
            Symbol::Assign => {
                proof {
                    reveal_strlit("=");
                    assert("="@ =~= seq!['=']);
                }
                "="
            },
        }
    }
}

} // verus!
