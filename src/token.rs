use vstd::prelude::*;

verus! {

/// The kind of a lexical unit. Line terminators and whitespace are trivia:
/// they move the position counters but never appear in a token stream.
#[derive(Debug, Clone, Copy, PartialEq, Eq, Structural)]
pub enum Token {
    InvalidToken,
    LineTerminator,
    Whitespace,
    Identifier,
    NumericLiteral,
    FalseKeyword,
    TrueKeyword,
    NullKeyword,
    Arrow,
    LeftParen,
    RightParen,
    LeftBrace,
    RightBrace,
    LeftBracket,
    RightBracket,
    Period,
    Ellipsis,
    Semicolon,
    Comma,
    Colon,
    QuestionMark,
    SingleQuote,
    DoubleQuote,
    JSXClose,
    JSXAutoClose,
    Increment,
    Decrement,
    Assign,
    ShiftLeftAssign,
    ShiftRightAssign,
    LogicalShiftRightAssign,
    ExponentiateAssign,
    AddAssign,
    SubtractAssign,
    MultiplyAssign,
    DivideAssign,
    ModuloAssign,
    BitwiseXorAssign,
    BitwiseOrAssign,
    BitwiseAndAssign,
    LogicalOrAssign,
    LogicalAndAssign,
    CoalesceAssign,
    Negate,
    Complement,
    Add,
    Subtract,
    Multiply,
    Modulo,
    Divide,
    Exponentiate,
    LogicalAnd,
    LogicalOr,
    StrictEqual,
    StrictNotEqual,
    LooseEqual,
    LooseNotEqual,
    LessThanOrEqual,
    GreaterThanOrEqual,
    LessThan,
    GreaterThan,
    ShiftLeft,
    ShiftRight,
    LogicalShiftRight,
    BitwiseAnd,
    BitwiseOr,
    BitwiseXor,
    PrivateIdentifier,
    Coalesce,
    QuestionMarkPeriod,
    Decorator,
    TypeofKeyword,
    DeleteKeyword,
    VoidKeyword,
    InKeyword,
    InstanceofKeyword,
    VarKeyword,
    LetKeyword,
    ConstKeyword,
    BreakKeyword,
    CaseKeyword,
    CatchKeyword,
    ClassKeyword,
    ContinueKeyword,
    DebuggerKeyword,
    DefaultKeyword,
    DoKeyword,
    ElseKeyword,
    ExportKeyword,
    ExtendsKeyword,
    FinallyKeyword,
    ForKeyword,
    FunctionKeyword,
    IfKeyword,
    ImportKeyword,
    NewKeyword,
    ReturnKeyword,
    SuperKeyword,
    SwitchKeyword,
    ThisKeyword,
    ThrowKeyword,
    TryKeyword,
    WhileKeyword,
    WithKeyword,
    ImplementsKeyword,
    InterfaceKeyword,
    PackageKeyword,
    PrivateKeyword,
    ProtectedKeyword,
    PublicKeyword,
    StaticKeyword,
    YieldKeyword,
    AsKeyword,
    AsyncKeyword,
    AwaitKeyword,
    ConstructorKeyword,
    GetKeyword,
    SetKeyword,
    FromKeyword,
    OfKeyword,
    EnumKeyword,
    Eval,
    Arguments,
    Target,
    Meta,
    Comment,
}

/// The punctuator spelled by `s`, if any.
pub open spec fn punct_kind(s: Seq<char>) -> Option<Token> {
    if s == "=>"@ {
        Some(Token::Arrow)
    } else if s == "("@ {
        Some(Token::LeftParen)
    } else if s == ")"@ {
        Some(Token::RightParen)
    } else if s == "{"@ {
        Some(Token::LeftBrace)
    } else if s == "}"@ {
        Some(Token::RightBrace)
    } else if s == "["@ {
        Some(Token::LeftBracket)
    } else if s == "]"@ {
        Some(Token::RightBracket)
    } else if s == "."@ {
        Some(Token::Period)
    } else if s == "..."@ {
        Some(Token::Ellipsis)
    } else if s == ";"@ {
        Some(Token::Semicolon)
    } else if s == ","@ {
        Some(Token::Comma)
    } else if s == ":"@ {
        Some(Token::Colon)
    } else if s == "?"@ {
        Some(Token::QuestionMark)
    } else if s == "'"@ {
        Some(Token::SingleQuote)
    } else if s == "\""@ {
        Some(Token::DoubleQuote)
    } else if s == "</"@ {
        Some(Token::JSXClose)
    } else if s == "/>"@ {
        Some(Token::JSXAutoClose)
    } else if s == "++"@ {
        Some(Token::Increment)
    } else if s == "--"@ {
        Some(Token::Decrement)
    } else if s == "="@ {
        Some(Token::Assign)
    } else if s == "<<="@ {
        Some(Token::ShiftLeftAssign)
    } else if s == ">>="@ {
        Some(Token::ShiftRightAssign)
    } else if s == ">>>="@ {
        Some(Token::LogicalShiftRightAssign)
    } else if s == "**="@ {
        Some(Token::ExponentiateAssign)
    } else if s == "+="@ {
        Some(Token::AddAssign)
    } else if s == "-="@ {
        Some(Token::SubtractAssign)
    } else if s == "*="@ {
        Some(Token::MultiplyAssign)
    } else if s == "/="@ {
        Some(Token::DivideAssign)
    } else if s == "%="@ {
        Some(Token::ModuloAssign)
    } else if s == "^="@ {
        Some(Token::BitwiseXorAssign)
    } else if s == "|="@ {
        Some(Token::BitwiseOrAssign)
    } else if s == "&="@ {
        Some(Token::BitwiseAndAssign)
    } else if s == "||="@ {
        Some(Token::LogicalOrAssign)
    } else if s == "&&="@ {
        Some(Token::LogicalAndAssign)
    } else if s == "??="@ {
        Some(Token::CoalesceAssign)
    } else if s == "!"@ {
        Some(Token::Negate)
    } else if s == "~"@ {
        Some(Token::Complement)
    } else if s == "+"@ {
        Some(Token::Add)
    } else if s == "-"@ {
        Some(Token::Subtract)
    } else if s == "*"@ {
        Some(Token::Multiply)
    } else if s == "%"@ {
        Some(Token::Modulo)
    } else if s == "/"@ {
        Some(Token::Divide)
    } else if s == "**"@ {
        Some(Token::Exponentiate)
    } else if s == "&&"@ {
        Some(Token::LogicalAnd)
    } else if s == "||"@ {
        Some(Token::LogicalOr)
    } else if s == "==="@ {
        Some(Token::StrictEqual)
    } else if s == "!=="@ {
        Some(Token::StrictNotEqual)
    } else if s == "=="@ {
        Some(Token::LooseEqual)
    } else if s == "!="@ {
        Some(Token::LooseNotEqual)
    } else if s == "<="@ {
        Some(Token::LessThanOrEqual)
    } else if s == ">="@ {
        Some(Token::GreaterThanOrEqual)
    } else if s == "<"@ {
        Some(Token::LessThan)
    } else if s == ">"@ {
        Some(Token::GreaterThan)
    } else if s == "<<"@ {
        Some(Token::ShiftLeft)
    } else if s == ">>"@ {
        Some(Token::ShiftRight)
    } else if s == ">>>"@ {
        Some(Token::LogicalShiftRight)
    } else if s == "&"@ {
        Some(Token::BitwiseAnd)
    } else if s == "|"@ {
        Some(Token::BitwiseOr)
    } else if s == "^"@ {
        Some(Token::BitwiseXor)
    } else if s == "#"@ {
        Some(Token::PrivateIdentifier)
    } else if s == "??"@ {
        Some(Token::Coalesce)
    } else if s == "?."@ {
        Some(Token::QuestionMarkPeriod)
    } else if s == "@"@ {
        Some(Token::Decorator)
    } else {
        None
    }
}

/// The reserved or contextual word spelled by `s`, if any.
pub open spec fn keyword_kind(s: Seq<char>) -> Option<Token> {
    if s == "false"@ {
        Some(Token::FalseKeyword)
    } else if s == "true"@ {
        Some(Token::TrueKeyword)
    } else if s == "null"@ {
        Some(Token::NullKeyword)
    } else if s == "typeof"@ {
        Some(Token::TypeofKeyword)
    } else if s == "delete"@ {
        Some(Token::DeleteKeyword)
    } else if s == "void"@ {
        Some(Token::VoidKeyword)
    } else if s == "in"@ {
        Some(Token::InKeyword)
    } else if s == "instanceof"@ {
        Some(Token::InstanceofKeyword)
    } else if s == "var"@ {
        Some(Token::VarKeyword)
    } else if s == "let"@ {
        Some(Token::LetKeyword)
    } else if s == "const"@ {
        Some(Token::ConstKeyword)
    } else if s == "break"@ {
        Some(Token::BreakKeyword)
    } else if s == "case"@ {
        Some(Token::CaseKeyword)
    } else if s == "catch"@ {
        Some(Token::CatchKeyword)
    } else if s == "class"@ {
        Some(Token::ClassKeyword)
    } else if s == "continue"@ {
        Some(Token::ContinueKeyword)
    } else if s == "debugger"@ {
        Some(Token::DebuggerKeyword)
    } else if s == "default"@ {
        Some(Token::DefaultKeyword)
    } else if s == "do"@ {
        Some(Token::DoKeyword)
    } else if s == "else"@ {
        Some(Token::ElseKeyword)
    } else if s == "export"@ {
        Some(Token::ExportKeyword)
    } else if s == "extends"@ {
        Some(Token::ExtendsKeyword)
    } else if s == "finally"@ {
        Some(Token::FinallyKeyword)
    } else if s == "for"@ {
        Some(Token::ForKeyword)
    } else if s == "function"@ {
        Some(Token::FunctionKeyword)
    } else if s == "if"@ {
        Some(Token::IfKeyword)
    } else if s == "import"@ {
        Some(Token::ImportKeyword)
    } else if s == "new"@ {
        Some(Token::NewKeyword)
    } else if s == "return"@ {
        Some(Token::ReturnKeyword)
    } else if s == "super"@ {
        Some(Token::SuperKeyword)
    } else if s == "switch"@ {
        Some(Token::SwitchKeyword)
    } else if s == "this"@ {
        Some(Token::ThisKeyword)
    } else if s == "throw"@ {
        Some(Token::ThrowKeyword)
    } else if s == "try"@ {
        Some(Token::TryKeyword)
    } else if s == "while"@ {
        Some(Token::WhileKeyword)
    } else if s == "with"@ {
        Some(Token::WithKeyword)
    } else if s == "implements"@ {
        Some(Token::ImplementsKeyword)
    } else if s == "interface"@ {
        Some(Token::InterfaceKeyword)
    } else if s == "package"@ {
        Some(Token::PackageKeyword)
    } else if s == "private"@ {
        Some(Token::PrivateKeyword)
    } else if s == "protected"@ {
        Some(Token::ProtectedKeyword)
    } else if s == "public"@ {
        Some(Token::PublicKeyword)
    } else if s == "static"@ {
        Some(Token::StaticKeyword)
    } else if s == "yield"@ {
        Some(Token::YieldKeyword)
    } else if s == "as"@ {
        Some(Token::AsKeyword)
    } else if s == "async"@ {
        Some(Token::AsyncKeyword)
    } else if s == "await"@ {
        Some(Token::AwaitKeyword)
    } else if s == "constructor"@ {
        Some(Token::ConstructorKeyword)
    } else if s == "get"@ {
        Some(Token::GetKeyword)
    } else if s == "set"@ {
        Some(Token::SetKeyword)
    } else if s == "from"@ {
        Some(Token::FromKeyword)
    } else if s == "of"@ {
        Some(Token::OfKeyword)
    } else if s == "enum"@ {
        Some(Token::EnumKeyword)
    } else if s == "eval"@ {
        Some(Token::Eval)
    } else if s == "arguments"@ {
        Some(Token::Arguments)
    } else if s == "target"@ {
        Some(Token::Target)
    } else if s == "meta"@ {
        Some(Token::Meta)
    } else {
        None
    }
}

/// Whether `t[p..e]` spells exactly the characters of `lit`.
fn spells(t: &Vec<char>, p: usize, e: usize, lit: &str) -> (r: bool)
    requires
        p <= e <= t@.len(),
    ensures
        r == (t@.subrange(p as int, e as int) == lit@),
{
    let n = lit.unicode_len();
    if e - p != n {
        return false;
    }
    let mut i: usize = 0;
    while i < n
        invariant
            i <= n,
            n == e - p,
            e <= t@.len(),
            n == lit@.len(),
            forall|k: int| 0 <= k < i ==> t@[p + k] == lit@[k],
        decreases n - i,
    {
        if t[p + i] != lit.get_char(i) {
            assert(t@.subrange(p as int, e as int)[i as int] != lit@[i as int]);
            return false;
        }
        i = i + 1;
    }
    assert(t@.subrange(p as int, e as int) =~= lit@);
    true
}

/// Looks `t[p..e]` up among the punctuators.
pub(crate) fn punct_lookup(t: &Vec<char>, p: usize, e: usize) -> (r: Option<Token>)
    requires
        p <= e <= t@.len(),
    ensures
        r == punct_kind(t@.subrange(p as int, e as int)),
{
    if spells(t, p, e, "=>") {
        Some(Token::Arrow)
    } else if spells(t, p, e, "(") {
        Some(Token::LeftParen)
    } else if spells(t, p, e, ")") {
        Some(Token::RightParen)
    } else if spells(t, p, e, "{") {
        Some(Token::LeftBrace)
    } else if spells(t, p, e, "}") {
        Some(Token::RightBrace)
    } else if spells(t, p, e, "[") {
        Some(Token::LeftBracket)
    } else if spells(t, p, e, "]") {
        Some(Token::RightBracket)
    } else if spells(t, p, e, ".") {
        Some(Token::Period)
    } else if spells(t, p, e, "...") {
        Some(Token::Ellipsis)
    } else if spells(t, p, e, ";") {
        Some(Token::Semicolon)
    } else if spells(t, p, e, ",") {
        Some(Token::Comma)
    } else if spells(t, p, e, ":") {
        Some(Token::Colon)
    } else if spells(t, p, e, "?") {
        Some(Token::QuestionMark)
    } else if spells(t, p, e, "'") {
        Some(Token::SingleQuote)
    } else if spells(t, p, e, "\"") {
        Some(Token::DoubleQuote)
    } else if spells(t, p, e, "</") {
        Some(Token::JSXClose)
    } else if spells(t, p, e, "/>") {
        Some(Token::JSXAutoClose)
    } else if spells(t, p, e, "++") {
        Some(Token::Increment)
    } else if spells(t, p, e, "--") {
        Some(Token::Decrement)
    } else if spells(t, p, e, "=") {
        Some(Token::Assign)
    } else if spells(t, p, e, "<<=") {
        Some(Token::ShiftLeftAssign)
    } else if spells(t, p, e, ">>=") {
        Some(Token::ShiftRightAssign)
    } else if spells(t, p, e, ">>>=") {
        Some(Token::LogicalShiftRightAssign)
    } else if spells(t, p, e, "**=") {
        Some(Token::ExponentiateAssign)
    } else if spells(t, p, e, "+=") {
        Some(Token::AddAssign)
    } else if spells(t, p, e, "-=") {
        Some(Token::SubtractAssign)
    } else if spells(t, p, e, "*=") {
        Some(Token::MultiplyAssign)
    } else if spells(t, p, e, "/=") {
        Some(Token::DivideAssign)
    } else if spells(t, p, e, "%=") {
        Some(Token::ModuloAssign)
    } else if spells(t, p, e, "^=") {
        Some(Token::BitwiseXorAssign)
    } else if spells(t, p, e, "|=") {
        Some(Token::BitwiseOrAssign)
    } else if spells(t, p, e, "&=") {
        Some(Token::BitwiseAndAssign)
    } else if spells(t, p, e, "||=") {
        Some(Token::LogicalOrAssign)
    } else if spells(t, p, e, "&&=") {
        Some(Token::LogicalAndAssign)
    } else if spells(t, p, e, "??=") {
        Some(Token::CoalesceAssign)
    } else if spells(t, p, e, "!") {
        Some(Token::Negate)
    } else if spells(t, p, e, "~") {
        Some(Token::Complement)
    } else if spells(t, p, e, "+") {
        Some(Token::Add)
    } else if spells(t, p, e, "-") {
        Some(Token::Subtract)
    } else if spells(t, p, e, "*") {
        Some(Token::Multiply)
    } else if spells(t, p, e, "%") {
        Some(Token::Modulo)
    } else if spells(t, p, e, "/") {
        Some(Token::Divide)
    } else if spells(t, p, e, "**") {
        Some(Token::Exponentiate)
    } else if spells(t, p, e, "&&") {
        Some(Token::LogicalAnd)
    } else if spells(t, p, e, "||") {
        Some(Token::LogicalOr)
    } else if spells(t, p, e, "===") {
        Some(Token::StrictEqual)
    } else if spells(t, p, e, "!==") {
        Some(Token::StrictNotEqual)
    } else if spells(t, p, e, "==") {
        Some(Token::LooseEqual)
    } else if spells(t, p, e, "!=") {
        Some(Token::LooseNotEqual)
    } else if spells(t, p, e, "<=") {
        Some(Token::LessThanOrEqual)
    } else if spells(t, p, e, ">=") {
        Some(Token::GreaterThanOrEqual)
    } else if spells(t, p, e, "<") {
        Some(Token::LessThan)
    } else if spells(t, p, e, ">") {
        Some(Token::GreaterThan)
    } else if spells(t, p, e, "<<") {
        Some(Token::ShiftLeft)
    } else if spells(t, p, e, ">>") {
        Some(Token::ShiftRight)
    } else if spells(t, p, e, ">>>") {
        Some(Token::LogicalShiftRight)
    } else if spells(t, p, e, "&") {
        Some(Token::BitwiseAnd)
    } else if spells(t, p, e, "|") {
        Some(Token::BitwiseOr)
    } else if spells(t, p, e, "^") {
        Some(Token::BitwiseXor)
    } else if spells(t, p, e, "#") {
        Some(Token::PrivateIdentifier)
    } else if spells(t, p, e, "??") {
        Some(Token::Coalesce)
    } else if spells(t, p, e, "?.") {
        Some(Token::QuestionMarkPeriod)
    } else if spells(t, p, e, "@") {
        Some(Token::Decorator)
    } else {
        None
    }
}

/// Looks `t[p..e]` up among the reserved and contextual words.
pub(crate) fn keyword_lookup(t: &Vec<char>, p: usize, e: usize) -> (r: Option<Token>)
    requires
        p <= e <= t@.len(),
    ensures
        r == keyword_kind(t@.subrange(p as int, e as int)),
{
    if spells(t, p, e, "false") {
        Some(Token::FalseKeyword)
    } else if spells(t, p, e, "true") {
        Some(Token::TrueKeyword)
    } else if spells(t, p, e, "null") {
        Some(Token::NullKeyword)
    } else if spells(t, p, e, "typeof") {
        Some(Token::TypeofKeyword)
    } else if spells(t, p, e, "delete") {
        Some(Token::DeleteKeyword)
    } else if spells(t, p, e, "void") {
        Some(Token::VoidKeyword)
    } else if spells(t, p, e, "in") {
        Some(Token::InKeyword)
    } else if spells(t, p, e, "instanceof") {
        Some(Token::InstanceofKeyword)
    } else if spells(t, p, e, "var") {
        Some(Token::VarKeyword)
    } else if spells(t, p, e, "let") {
        Some(Token::LetKeyword)
    } else if spells(t, p, e, "const") {
        Some(Token::ConstKeyword)
    } else if spells(t, p, e, "break") {
        Some(Token::BreakKeyword)
    } else if spells(t, p, e, "case") {
        Some(Token::CaseKeyword)
    } else if spells(t, p, e, "catch") {
        Some(Token::CatchKeyword)
    } else if spells(t, p, e, "class") {
        Some(Token::ClassKeyword)
    } else if spells(t, p, e, "continue") {
        Some(Token::ContinueKeyword)
    } else if spells(t, p, e, "debugger") {
        Some(Token::DebuggerKeyword)
    } else if spells(t, p, e, "default") {
        Some(Token::DefaultKeyword)
    } else if spells(t, p, e, "do") {
        Some(Token::DoKeyword)
    } else if spells(t, p, e, "else") {
        Some(Token::ElseKeyword)
    } else if spells(t, p, e, "export") {
        Some(Token::ExportKeyword)
    } else if spells(t, p, e, "extends") {
        Some(Token::ExtendsKeyword)
    } else if spells(t, p, e, "finally") {
        Some(Token::FinallyKeyword)
    } else if spells(t, p, e, "for") {
        Some(Token::ForKeyword)
    } else if spells(t, p, e, "function") {
        Some(Token::FunctionKeyword)
    } else if spells(t, p, e, "if") {
        Some(Token::IfKeyword)
    } else if spells(t, p, e, "import") {
        Some(Token::ImportKeyword)
    } else if spells(t, p, e, "new") {
        Some(Token::NewKeyword)
    } else if spells(t, p, e, "return") {
        Some(Token::ReturnKeyword)
    } else if spells(t, p, e, "super") {
        Some(Token::SuperKeyword)
    } else if spells(t, p, e, "switch") {
        Some(Token::SwitchKeyword)
    } else if spells(t, p, e, "this") {
        Some(Token::ThisKeyword)
    } else if spells(t, p, e, "throw") {
        Some(Token::ThrowKeyword)
    } else if spells(t, p, e, "try") {
        Some(Token::TryKeyword)
    } else if spells(t, p, e, "while") {
        Some(Token::WhileKeyword)
    } else if spells(t, p, e, "with") {
        Some(Token::WithKeyword)
    } else if spells(t, p, e, "implements") {
        Some(Token::ImplementsKeyword)
    } else if spells(t, p, e, "interface") {
        Some(Token::InterfaceKeyword)
    } else if spells(t, p, e, "package") {
        Some(Token::PackageKeyword)
    } else if spells(t, p, e, "private") {
        Some(Token::PrivateKeyword)
    } else if spells(t, p, e, "protected") {
        Some(Token::ProtectedKeyword)
    } else if spells(t, p, e, "public") {
        Some(Token::PublicKeyword)
    } else if spells(t, p, e, "static") {
        Some(Token::StaticKeyword)
    } else if spells(t, p, e, "yield") {
        Some(Token::YieldKeyword)
    } else if spells(t, p, e, "as") {
        Some(Token::AsKeyword)
    } else if spells(t, p, e, "async") {
        Some(Token::AsyncKeyword)
    } else if spells(t, p, e, "await") {
        Some(Token::AwaitKeyword)
    } else if spells(t, p, e, "constructor") {
        Some(Token::ConstructorKeyword)
    } else if spells(t, p, e, "get") {
        Some(Token::GetKeyword)
    } else if spells(t, p, e, "set") {
        Some(Token::SetKeyword)
    } else if spells(t, p, e, "from") {
        Some(Token::FromKeyword)
    } else if spells(t, p, e, "of") {
        Some(Token::OfKeyword)
    } else if spells(t, p, e, "enum") {
        Some(Token::EnumKeyword)
    } else if spells(t, p, e, "eval") {
        Some(Token::Eval)
    } else if spells(t, p, e, "arguments") {
        Some(Token::Arguments)
    } else if spells(t, p, e, "target") {
        Some(Token::Target)
    } else if spells(t, p, e, "meta") {
        Some(Token::Meta)
    } else {
        None
    }
}

} // verus!
