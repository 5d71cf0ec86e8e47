use vstd::prelude::*;

verus! {

/// The kind of a numeric literal, from its suffix and shape.
#[derive(Debug, Clone, Copy, PartialEq, Eq, Structural)]
pub enum NumericType {
    Int,
    Long,
    UInt,
    ULong,
    Double,
}

/// A numeric literal as written: its kind and its digits (and, for a
/// `double`, its point and exponent).
#[derive(Debug)]
pub struct NumericLiteral {
    pub numtype: NumericType,
    pub number: String,
}

/// Model of a [`NumericLiteral`].
pub struct NumericLiteralV {
    pub numtype: NumericType,
    pub number: Seq<char>,
}

impl View for NumericLiteral {
    type V = NumericLiteralV;

    open spec fn view(&self) -> NumericLiteralV {
        NumericLiteralV { numtype: self.numtype, number: self.number@ }
    }
}

/// The tokens of the language.
#[derive(Debug)]
pub enum TokenType {
    Identifier(String),
    NumericConstant(NumericLiteral),
    OpenParen,
    CloseParen,
    OpenBrace,
    CloseBrace,
    Semicolon,
    Tilde,
    QuestionMark,
    Colon,
    Comma,
    Asterisk,
    AsteriskEqual,
    FwdSlash,
    FwdSlashEqual,
    Percent,
    PercentEqual,
    Caret,
    CaretEqual,
    Exclamation,
    NotEqual,
    Ampersand,
    DoubleAmpersand,
    AmpersandEqual,
    Pipe,
    DoublePipe,
    PipeEqual,
    Minus,
    DoubleMinus,
    MinusEqual,
    Plus,
    DoublePlus,
    PlusEqual,
    LessThan,
    LessOrEqual,
    DoubleLeftAngled,
    DLAngledEqual,
    GreaterThan,
    GreaterOrEqual,
    DoubleRightAngled,
    DRAngledEqual,
    Equal,
    DoubleEqual,
    Return,
    Int,
    Void,
    If,
    Else,
    Goto,
    Do,
    While,
    For,
    Break,
    Continue,
    Switch,
    Case,
    Default,
    Static,
    Extern,
    Long,
    Signed,
    Unsigned,
    Double,
}

/// Model of a [`TokenType`]: the payload-free variants stand for
/// themselves, identifiers and literals carry their text.
pub enum TokenV {
    Identifier(Seq<char>),
    NumericConstant(NumericLiteralV),
    Plain(PlainToken),
}

/// The payload-free tokens.
#[derive(Debug, Clone, Copy, PartialEq, Eq, Structural)]
pub enum PlainToken {
    OpenParen,
    CloseParen,
    OpenBrace,
    CloseBrace,
    Semicolon,
    Tilde,
    QuestionMark,
    Colon,
    Comma,
    Asterisk,
    AsteriskEqual,
    FwdSlash,
    FwdSlashEqual,
    Percent,
    PercentEqual,
    Caret,
    CaretEqual,
    Exclamation,
    NotEqual,
    Ampersand,
    DoubleAmpersand,
    AmpersandEqual,
    Pipe,
    DoublePipe,
    PipeEqual,
    Minus,
    DoubleMinus,
    MinusEqual,
    Plus,
    DoublePlus,
    PlusEqual,
    LessThan,
    LessOrEqual,
    DoubleLeftAngled,
    DLAngledEqual,
    GreaterThan,
    GreaterOrEqual,
    DoubleRightAngled,
    DRAngledEqual,
    Equal,
    DoubleEqual,
    Return,
    Int,
    Void,
    If,
    Else,
    Goto,
    Do,
    While,
    For,
    Break,
    Continue,
    Switch,
    Case,
    Default,
    Static,
    Extern,
    Long,
    Signed,
    Unsigned,
    Double,
}

impl View for TokenType {
    type V = TokenV;

    open spec fn view(&self) -> TokenV {
        match self {
            TokenType::Identifier(s) => TokenV::Identifier(s@),
            TokenType::NumericConstant(n) => TokenV::NumericConstant(n@),
            _ => TokenV::Plain(plain_of(*self)),
        }
    }
}

/// The payload-free token that `t` is (meaningless for identifiers and literals).
pub open spec fn plain_of(t: TokenType) -> PlainToken {
    match t {
        TokenType::OpenParen => PlainToken::OpenParen,
        TokenType::CloseParen => PlainToken::CloseParen,
        TokenType::OpenBrace => PlainToken::OpenBrace,
        TokenType::CloseBrace => PlainToken::CloseBrace,
        TokenType::Semicolon => PlainToken::Semicolon,
        TokenType::Tilde => PlainToken::Tilde,
        TokenType::QuestionMark => PlainToken::QuestionMark,
        TokenType::Colon => PlainToken::Colon,
        TokenType::Comma => PlainToken::Comma,
        TokenType::Asterisk => PlainToken::Asterisk,
        TokenType::AsteriskEqual => PlainToken::AsteriskEqual,
        TokenType::FwdSlash => PlainToken::FwdSlash,
        TokenType::FwdSlashEqual => PlainToken::FwdSlashEqual,
        TokenType::Percent => PlainToken::Percent,
        TokenType::PercentEqual => PlainToken::PercentEqual,
        TokenType::Caret => PlainToken::Caret,
        TokenType::CaretEqual => PlainToken::CaretEqual,
        TokenType::Exclamation => PlainToken::Exclamation,
        TokenType::NotEqual => PlainToken::NotEqual,
        TokenType::Ampersand => PlainToken::Ampersand,
        TokenType::DoubleAmpersand => PlainToken::DoubleAmpersand,
        TokenType::AmpersandEqual => PlainToken::AmpersandEqual,
        TokenType::Pipe => PlainToken::Pipe,
        TokenType::DoublePipe => PlainToken::DoublePipe,
        TokenType::PipeEqual => PlainToken::PipeEqual,
        TokenType::Minus => PlainToken::Minus,
        TokenType::DoubleMinus => PlainToken::DoubleMinus,
        TokenType::MinusEqual => PlainToken::MinusEqual,
        TokenType::Plus => PlainToken::Plus,
        TokenType::DoublePlus => PlainToken::DoublePlus,
        TokenType::PlusEqual => PlainToken::PlusEqual,
        TokenType::LessThan => PlainToken::LessThan,
        TokenType::LessOrEqual => PlainToken::LessOrEqual,
        TokenType::DoubleLeftAngled => PlainToken::DoubleLeftAngled,
        TokenType::DLAngledEqual => PlainToken::DLAngledEqual,
        TokenType::GreaterThan => PlainToken::GreaterThan,
        TokenType::GreaterOrEqual => PlainToken::GreaterOrEqual,
        TokenType::DoubleRightAngled => PlainToken::DoubleRightAngled,
        TokenType::DRAngledEqual => PlainToken::DRAngledEqual,
        TokenType::Equal => PlainToken::Equal,
        TokenType::DoubleEqual => PlainToken::DoubleEqual,
        TokenType::Return => PlainToken::Return,
        TokenType::Int => PlainToken::Int,
        TokenType::Void => PlainToken::Void,
        TokenType::If => PlainToken::If,
        TokenType::Else => PlainToken::Else,
        TokenType::Goto => PlainToken::Goto,
        TokenType::Do => PlainToken::Do,
        TokenType::While => PlainToken::While,
        TokenType::For => PlainToken::For,
        TokenType::Break => PlainToken::Break,
        TokenType::Continue => PlainToken::Continue,
        TokenType::Switch => PlainToken::Switch,
        TokenType::Case => PlainToken::Case,
        TokenType::Default => PlainToken::Default,
        TokenType::Static => PlainToken::Static,
        TokenType::Extern => PlainToken::Extern,
        TokenType::Long => PlainToken::Long,
        TokenType::Signed => PlainToken::Signed,
        TokenType::Unsigned => PlainToken::Unsigned,
        TokenType::Double => PlainToken::Double,
        _ => PlainToken::OpenParen,
    }
}


impl TokenType {
    /// The payload-free token this is, if it is one.
    pub fn plain(&self) -> (r: Option<PlainToken>)
        ensures
            match self@ {
                TokenV::Plain(p) => r == Some(p),
                _ => r is None,
            },
    {
        match self {
            TokenType::OpenParen => Some(PlainToken::OpenParen),
            TokenType::CloseParen => Some(PlainToken::CloseParen),
            TokenType::OpenBrace => Some(PlainToken::OpenBrace),
            TokenType::CloseBrace => Some(PlainToken::CloseBrace),
            TokenType::Semicolon => Some(PlainToken::Semicolon),
            TokenType::Tilde => Some(PlainToken::Tilde),
            TokenType::QuestionMark => Some(PlainToken::QuestionMark),
            TokenType::Colon => Some(PlainToken::Colon),
            TokenType::Comma => Some(PlainToken::Comma),
            TokenType::Asterisk => Some(PlainToken::Asterisk),
            TokenType::AsteriskEqual => Some(PlainToken::AsteriskEqual),
            TokenType::FwdSlash => Some(PlainToken::FwdSlash),
            TokenType::FwdSlashEqual => Some(PlainToken::FwdSlashEqual),
            TokenType::Percent => Some(PlainToken::Percent),
            TokenType::PercentEqual => Some(PlainToken::PercentEqual),
            TokenType::Caret => Some(PlainToken::Caret),
            TokenType::CaretEqual => Some(PlainToken::CaretEqual),
            TokenType::Exclamation => Some(PlainToken::Exclamation),
            TokenType::NotEqual => Some(PlainToken::NotEqual),
            TokenType::Ampersand => Some(PlainToken::Ampersand),
            TokenType::DoubleAmpersand => Some(PlainToken::DoubleAmpersand),
            TokenType::AmpersandEqual => Some(PlainToken::AmpersandEqual),
            TokenType::Pipe => Some(PlainToken::Pipe),
            TokenType::DoublePipe => Some(PlainToken::DoublePipe),
            TokenType::PipeEqual => Some(PlainToken::PipeEqual),
            TokenType::Minus => Some(PlainToken::Minus),
            TokenType::DoubleMinus => Some(PlainToken::DoubleMinus),
            TokenType::MinusEqual => Some(PlainToken::MinusEqual),
            TokenType::Plus => Some(PlainToken::Plus),
            TokenType::DoublePlus => Some(PlainToken::DoublePlus),
            TokenType::PlusEqual => Some(PlainToken::PlusEqual),
            TokenType::LessThan => Some(PlainToken::LessThan),
            TokenType::LessOrEqual => Some(PlainToken::LessOrEqual),
            TokenType::DoubleLeftAngled => Some(PlainToken::DoubleLeftAngled),
            TokenType::DLAngledEqual => Some(PlainToken::DLAngledEqual),
            TokenType::GreaterThan => Some(PlainToken::GreaterThan),
            TokenType::GreaterOrEqual => Some(PlainToken::GreaterOrEqual),
            TokenType::DoubleRightAngled => Some(PlainToken::DoubleRightAngled),
            TokenType::DRAngledEqual => Some(PlainToken::DRAngledEqual),
            TokenType::Equal => Some(PlainToken::Equal),
            TokenType::DoubleEqual => Some(PlainToken::DoubleEqual),
            TokenType::Return => Some(PlainToken::Return),
            TokenType::Int => Some(PlainToken::Int),
            TokenType::Void => Some(PlainToken::Void),
            TokenType::If => Some(PlainToken::If),
            TokenType::Else => Some(PlainToken::Else),
            TokenType::Goto => Some(PlainToken::Goto),
            TokenType::Do => Some(PlainToken::Do),
            TokenType::While => Some(PlainToken::While),
            TokenType::For => Some(PlainToken::For),
            TokenType::Break => Some(PlainToken::Break),
            TokenType::Continue => Some(PlainToken::Continue),
            TokenType::Switch => Some(PlainToken::Switch),
            TokenType::Case => Some(PlainToken::Case),
            TokenType::Default => Some(PlainToken::Default),
            TokenType::Static => Some(PlainToken::Static),
            TokenType::Extern => Some(PlainToken::Extern),
            TokenType::Long => Some(PlainToken::Long),
            TokenType::Signed => Some(PlainToken::Signed),
            TokenType::Unsigned => Some(PlainToken::Unsigned),
            TokenType::Double => Some(PlainToken::Double),
            _ => None,
        }
    }

    /// A copy of the token, with the same model.
    pub fn duplicate(&self) -> (r: TokenType)
        ensures
            r@ == self@,
    {
        match self {
            TokenType::Identifier(s) => TokenType::Identifier(s.clone()),
            TokenType::NumericConstant(n) => TokenType::NumericConstant(
                NumericLiteral { numtype: n.numtype, number: n.number.clone() },
            ),
            _ => {
                let p = self.plain();
                match p {
                    Some(p) => from_plain(p),
                    None => vstd::pervasive::unreached(),
                }
            },
        }
    }
}

/// The token of a payload-free kind.
pub fn from_plain(p: PlainToken) -> (r: TokenType)
    ensures
        r@ == TokenV::Plain(p),
{
    match p {
        PlainToken::OpenParen => TokenType::OpenParen,
        PlainToken::CloseParen => TokenType::CloseParen,
        PlainToken::OpenBrace => TokenType::OpenBrace,
        PlainToken::CloseBrace => TokenType::CloseBrace,
        PlainToken::Semicolon => TokenType::Semicolon,
        PlainToken::Tilde => TokenType::Tilde,
        PlainToken::QuestionMark => TokenType::QuestionMark,
        PlainToken::Colon => TokenType::Colon,
        PlainToken::Comma => TokenType::Comma,
        PlainToken::Asterisk => TokenType::Asterisk,
        PlainToken::AsteriskEqual => TokenType::AsteriskEqual,
        PlainToken::FwdSlash => TokenType::FwdSlash,
        PlainToken::FwdSlashEqual => TokenType::FwdSlashEqual,
        PlainToken::Percent => TokenType::Percent,
        PlainToken::PercentEqual => TokenType::PercentEqual,
        PlainToken::Caret => TokenType::Caret,
        PlainToken::CaretEqual => TokenType::CaretEqual,
        PlainToken::Exclamation => TokenType::Exclamation,
        PlainToken::NotEqual => TokenType::NotEqual,
        PlainToken::Ampersand => TokenType::Ampersand,
        PlainToken::DoubleAmpersand => TokenType::DoubleAmpersand,
        PlainToken::AmpersandEqual => TokenType::AmpersandEqual,
        PlainToken::Pipe => TokenType::Pipe,
        PlainToken::DoublePipe => TokenType::DoublePipe,
        PlainToken::PipeEqual => TokenType::PipeEqual,
        PlainToken::Minus => TokenType::Minus,
        PlainToken::DoubleMinus => TokenType::DoubleMinus,
        PlainToken::MinusEqual => TokenType::MinusEqual,
        PlainToken::Plus => TokenType::Plus,
        PlainToken::DoublePlus => TokenType::DoublePlus,
        PlainToken::PlusEqual => TokenType::PlusEqual,
        PlainToken::LessThan => TokenType::LessThan,
        PlainToken::LessOrEqual => TokenType::LessOrEqual,
        PlainToken::DoubleLeftAngled => TokenType::DoubleLeftAngled,
        PlainToken::DLAngledEqual => TokenType::DLAngledEqual,
        PlainToken::GreaterThan => TokenType::GreaterThan,
        PlainToken::GreaterOrEqual => TokenType::GreaterOrEqual,
        PlainToken::DoubleRightAngled => TokenType::DoubleRightAngled,
        PlainToken::DRAngledEqual => TokenType::DRAngledEqual,
        PlainToken::Equal => TokenType::Equal,
        PlainToken::DoubleEqual => TokenType::DoubleEqual,
        PlainToken::Return => TokenType::Return,
        PlainToken::Int => TokenType::Int,
        PlainToken::Void => TokenType::Void,
        PlainToken::If => TokenType::If,
        PlainToken::Else => TokenType::Else,
        PlainToken::Goto => TokenType::Goto,
        PlainToken::Do => TokenType::Do,
        PlainToken::While => TokenType::While,
        PlainToken::For => TokenType::For,
        PlainToken::Break => TokenType::Break,
        PlainToken::Continue => TokenType::Continue,
        PlainToken::Switch => TokenType::Switch,
        PlainToken::Case => TokenType::Case,
        PlainToken::Default => TokenType::Default,
        PlainToken::Static => TokenType::Static,
        PlainToken::Extern => TokenType::Extern,
        PlainToken::Long => TokenType::Long,
        PlainToken::Signed => TokenType::Signed,
        PlainToken::Unsigned => TokenType::Unsigned,
        PlainToken::Double => TokenType::Double,
    }
}

} // verus!

verus! {

/// How a payload-free token is written in the source text.
pub open spec fn spelling(p: PlainToken) -> Seq<char> {
    match p {
        PlainToken::OpenParen => seq!['('],
        PlainToken::CloseParen => seq![')'],
        PlainToken::OpenBrace => seq!['{'],
        PlainToken::CloseBrace => seq!['}'],
        PlainToken::Semicolon => seq![';'],
        PlainToken::Tilde => seq!['~'],
        PlainToken::QuestionMark => seq!['?'],
        PlainToken::Colon => seq![':'],
        PlainToken::Comma => seq![','],
        PlainToken::Asterisk => seq!['*'],
        PlainToken::AsteriskEqual => seq!['*', '='],
        PlainToken::FwdSlash => seq!['/'],
        PlainToken::FwdSlashEqual => seq!['/', '='],
        PlainToken::Percent => seq!['%'],
        PlainToken::PercentEqual => seq!['%', '='],
        PlainToken::Caret => seq!['^'],
        PlainToken::CaretEqual => seq!['^', '='],
        PlainToken::Exclamation => seq!['!'],
        PlainToken::NotEqual => seq!['!', '='],
        PlainToken::Ampersand => seq!['&'],
        PlainToken::DoubleAmpersand => seq!['&', '&'],
        PlainToken::AmpersandEqual => seq!['&', '='],
        PlainToken::Pipe => seq!['|'],
        PlainToken::DoublePipe => seq!['|', '|'],
        PlainToken::PipeEqual => seq!['|', '='],
        PlainToken::Minus => seq!['-'],
        PlainToken::DoubleMinus => seq!['-', '-'],
        PlainToken::MinusEqual => seq!['-', '='],
        PlainToken::Plus => seq!['+'],
        PlainToken::DoublePlus => seq!['+', '+'],
        PlainToken::PlusEqual => seq!['+', '='],
        PlainToken::LessThan => seq!['<'],
        PlainToken::LessOrEqual => seq!['<', '='],
        PlainToken::DoubleLeftAngled => seq!['<', '<'],
        PlainToken::DLAngledEqual => seq!['<', '<', '='],
        PlainToken::GreaterThan => seq!['>'],
        PlainToken::GreaterOrEqual => seq!['>', '='],
        PlainToken::DoubleRightAngled => seq!['>', '>'],
        PlainToken::DRAngledEqual => seq!['>', '>', '='],
        PlainToken::Equal => seq!['='],
        PlainToken::DoubleEqual => seq!['=', '='],
        PlainToken::Return => seq!['r', 'e', 't', 'u', 'r', 'n'],
        PlainToken::Int => seq!['i', 'n', 't'],
        PlainToken::Void => seq!['v', 'o', 'i', 'd'],
        PlainToken::If => seq!['i', 'f'],
        PlainToken::Else => seq!['e', 'l', 's', 'e'],
        PlainToken::Goto => seq!['g', 'o', 't', 'o'],
        PlainToken::Do => seq!['d', 'o'],
        PlainToken::While => seq!['w', 'h', 'i', 'l', 'e'],
        PlainToken::For => seq!['f', 'o', 'r'],
        PlainToken::Break => seq!['b', 'r', 'e', 'a', 'k'],
        PlainToken::Continue => seq!['c', 'o', 'n', 't', 'i', 'n', 'u', 'e'],
        PlainToken::Switch => seq!['s', 'w', 'i', 't', 'c', 'h'],
        PlainToken::Case => seq!['c', 'a', 's', 'e'],
        PlainToken::Default => seq!['d', 'e', 'f', 'a', 'u', 'l', 't'],
        PlainToken::Static => seq!['s', 't', 'a', 't', 'i', 'c'],
        PlainToken::Extern => seq!['e', 'x', 't', 'e', 'r', 'n'],
        PlainToken::Long => seq!['l', 'o', 'n', 'g'],
        PlainToken::Signed => seq!['s', 'i', 'g', 'n', 'e', 'd'],
        PlainToken::Unsigned => seq!['u', 'n', 's', 'i', 'g', 'n', 'e', 'd'],
        PlainToken::Double => seq!['d', 'o', 'u', 'b', 'l', 'e'],
    }
}

} // verus!
