//! The kind taxonomy shared by lexical tokens and syntax tree nodes.
//!
//! Every leaf and every interior node of a syntax tree is tagged with a
//! [`SyntaxKind`]. Trees store the tag as a raw `u16`; the conversions between
//! the two are total in one direction and checked in the other.

use vstd::prelude::*;

verus! {

/// Marker type that names the language whose trees use [`SyntaxKind`] tags.
#[derive(Debug, Clone, Copy, PartialEq, Eq, PartialOrd, Ord, Hash)]
pub enum BallerinaLanguage {
    /// The one language this front end reads.
    Ballerina,
}

/// Tag of a token or of a tree node.
///
/// The variants are ordered as declared; [`SyntaxKind::ordinal`] is the
/// position of a variant in that order. `EOF` is a bound and never a stored
/// tag: [`SyntaxKind::try_from`] refuses its ordinal and everything above it.
#[derive(Debug, Clone, Copy, PartialEq, Eq, PartialOrd, Ord, Hash, Structural)]
#[allow(non_camel_case_types)]
pub enum SyntaxKind {
    // Trivia and literal tokens
    WHITESPACE,
    COMMENT,
    IDENTIFIER,
    INTEGER_LITERAL,
    NEWLINE,
    // Keywords
    IMPORT_KW,
    PUBLIC_KW,
    FUNCTION_KW,
    RETURNS_KW,
    INT_KW,
    BOOLEAN_KW,
    IF_KW,
    ELSE_KW,
    WHILE_KW,
    BREAK_KW,
    CONTINUE_KW,
    RETURN_KW,
    TRUE_KW,
    FALSE_KW,
    // Operators
    EQ,
    NOT_EQ,
    LT,
    LT_EQ,
    GT,
    GT_EQ,
    PLUS,
    MINUS,
    STAR,
    SLASH,
    PERCENT,
    ASSIGN,
    // Delimiters
    L_PAREN,
    R_PAREN,
    L_BRACE,
    R_BRACE,
    COMMA,
    COLON,
    SEMICOLON,
    // Composite nodes
    SOURCE_FILE,
    MODULE_PART,
    IMPORT_DECL,
    MODULE_DECL,
    FUNCTION_DEF,
    SIGNATURE,
    PARAM_LIST,
    PARAM,
    TYPE_DESC,
    STMT_BLOCK,
    STATEMENT,
    LOCAL_VAR_DECL_STMT,
    FUNCTION_CALL_STMT,
    ASSIGN_STMT,
    RETURN_STMT,
    IF_ELSE_STMT,
    WHILE_STMT,
    BREAK_STMT,
    CONTINUE_STMT,
    EXPRESSION,
    EQUALITY_EXPR,
    RELATIONAL_EXPR,
    ADDITIVE_EXPR,
    MULTIPLICATIVE_EXPR,
    UNARY_EXPR,
    PRIMARY_EXPR,
    FUNCTION_CALL_EXPR,
    ARG_LIST,
    QUALIFIED_IDENTIFIER,
    // Sentinels
    ERROR,
    EOF,
}

/// Raised when a raw tag does not name a storable kind.
#[derive(Debug, Clone, Copy, PartialEq, Eq, Structural)]
pub struct InvalidKind {
    /// The raw value that was refused.
    pub raw: u16,
}

/// Number of kinds that may be stored in a tree: the ordinal of `EOF`.
pub const KIND_LIMIT: u16 = 68;

impl SyntaxKind {
    /// Position of the kind in declaration order.
    pub open spec fn ordinal(self) -> u16 {
        match self {
            SyntaxKind::WHITESPACE => 0u16,
            SyntaxKind::COMMENT => 1u16,
            SyntaxKind::IDENTIFIER => 2u16,
            SyntaxKind::INTEGER_LITERAL => 3u16,
            SyntaxKind::NEWLINE => 4u16,
            SyntaxKind::IMPORT_KW => 5u16,
            SyntaxKind::PUBLIC_KW => 6u16,
            SyntaxKind::FUNCTION_KW => 7u16,
            SyntaxKind::RETURNS_KW => 8u16,
            SyntaxKind::INT_KW => 9u16,
            SyntaxKind::BOOLEAN_KW => 10u16,
            SyntaxKind::IF_KW => 11u16,
            SyntaxKind::ELSE_KW => 12u16,
            SyntaxKind::WHILE_KW => 13u16,
            SyntaxKind::BREAK_KW => 14u16,
            SyntaxKind::CONTINUE_KW => 15u16,
            SyntaxKind::RETURN_KW => 16u16,
            SyntaxKind::TRUE_KW => 17u16,
            SyntaxKind::FALSE_KW => 18u16,
            SyntaxKind::EQ => 19u16,
            SyntaxKind::NOT_EQ => 20u16,
            SyntaxKind::LT => 21u16,
            SyntaxKind::LT_EQ => 22u16,
            SyntaxKind::GT => 23u16,
            SyntaxKind::GT_EQ => 24u16,
            SyntaxKind::PLUS => 25u16,
            SyntaxKind::MINUS => 26u16,
            SyntaxKind::STAR => 27u16,
            SyntaxKind::SLASH => 28u16,
            SyntaxKind::PERCENT => 29u16,
            SyntaxKind::ASSIGN => 30u16,
            SyntaxKind::L_PAREN => 31u16,
            SyntaxKind::R_PAREN => 32u16,
            SyntaxKind::L_BRACE => 33u16,
            SyntaxKind::R_BRACE => 34u16,
            SyntaxKind::COMMA => 35u16,
            SyntaxKind::COLON => 36u16,
            SyntaxKind::SEMICOLON => 37u16,
            SyntaxKind::SOURCE_FILE => 38u16,
            SyntaxKind::MODULE_PART => 39u16,
            SyntaxKind::IMPORT_DECL => 40u16,
            SyntaxKind::MODULE_DECL => 41u16,
            SyntaxKind::FUNCTION_DEF => 42u16,
            SyntaxKind::SIGNATURE => 43u16,
            SyntaxKind::PARAM_LIST => 44u16,
            SyntaxKind::PARAM => 45u16,
            SyntaxKind::TYPE_DESC => 46u16,
            SyntaxKind::STMT_BLOCK => 47u16,
            SyntaxKind::STATEMENT => 48u16,
            SyntaxKind::LOCAL_VAR_DECL_STMT => 49u16,
            SyntaxKind::FUNCTION_CALL_STMT => 50u16,
            SyntaxKind::ASSIGN_STMT => 51u16,
            SyntaxKind::RETURN_STMT => 52u16,
            SyntaxKind::IF_ELSE_STMT => 53u16,
            SyntaxKind::WHILE_STMT => 54u16,
            SyntaxKind::BREAK_STMT => 55u16,
            SyntaxKind::CONTINUE_STMT => 56u16,
            SyntaxKind::EXPRESSION => 57u16,
            SyntaxKind::EQUALITY_EXPR => 58u16,
            SyntaxKind::RELATIONAL_EXPR => 59u16,
            SyntaxKind::ADDITIVE_EXPR => 60u16,
            SyntaxKind::MULTIPLICATIVE_EXPR => 61u16,
            SyntaxKind::UNARY_EXPR => 62u16,
            SyntaxKind::PRIMARY_EXPR => 63u16,
            SyntaxKind::FUNCTION_CALL_EXPR => 64u16,
            SyntaxKind::ARG_LIST => 65u16,
            SyntaxKind::QUALIFIED_IDENTIFIER => 66u16,
            SyntaxKind::ERROR => 67u16,
            SyntaxKind::EOF => 68u16,
        }
    }

    /// The kind at a given position of the declaration order, for positions
    /// below `EOF`; `ERROR` stands in for every other position.
    pub open spec fn at_ordinal(raw: u16) -> SyntaxKind {
        if raw == 0u16 {
            SyntaxKind::WHITESPACE
        } else if raw == 1u16 {
            SyntaxKind::COMMENT
        } else if raw == 2u16 {
            SyntaxKind::IDENTIFIER
        } else if raw == 3u16 {
            SyntaxKind::INTEGER_LITERAL
        } else if raw == 4u16 {
            SyntaxKind::NEWLINE
        } else if raw == 5u16 {
            SyntaxKind::IMPORT_KW
        } else if raw == 6u16 {
            SyntaxKind::PUBLIC_KW
        } else if raw == 7u16 {
            SyntaxKind::FUNCTION_KW
        } else if raw == 8u16 {
            SyntaxKind::RETURNS_KW
        } else if raw == 9u16 {
            SyntaxKind::INT_KW
        } else if raw == 10u16 {
            SyntaxKind::BOOLEAN_KW
        } else if raw == 11u16 {
            SyntaxKind::IF_KW
        } else if raw == 12u16 {
            SyntaxKind::ELSE_KW
        } else if raw == 13u16 {
            SyntaxKind::WHILE_KW
        } else if raw == 14u16 {
            SyntaxKind::BREAK_KW
        } else if raw == 15u16 {
            SyntaxKind::CONTINUE_KW
        } else if raw == 16u16 {
            SyntaxKind::RETURN_KW
        } else if raw == 17u16 {
            SyntaxKind::TRUE_KW
        } else if raw == 18u16 {
            SyntaxKind::FALSE_KW
        } else if raw == 19u16 {
            SyntaxKind::EQ
        } else if raw == 20u16 {
            SyntaxKind::NOT_EQ
        } else if raw == 21u16 {
            SyntaxKind::LT
        } else if raw == 22u16 {
            SyntaxKind::LT_EQ
        } else if raw == 23u16 {
            SyntaxKind::GT
        } else if raw == 24u16 {
            SyntaxKind::GT_EQ
        } else if raw == 25u16 {
            SyntaxKind::PLUS
        } else if raw == 26u16 {
            SyntaxKind::MINUS
        } else if raw == 27u16 {
            SyntaxKind::STAR
        } else if raw == 28u16 {
            SyntaxKind::SLASH
        } else if raw == 29u16 {
            SyntaxKind::PERCENT
        } else if raw == 30u16 {
            SyntaxKind::ASSIGN
        } else if raw == 31u16 {
            SyntaxKind::L_PAREN
        } else if raw == 32u16 {
            SyntaxKind::R_PAREN
        } else if raw == 33u16 {
            SyntaxKind::L_BRACE
        } else if raw == 34u16 {
            SyntaxKind::R_BRACE
        } else if raw == 35u16 {
            SyntaxKind::COMMA
        } else if raw == 36u16 {
            SyntaxKind::COLON
        } else if raw == 37u16 {
            SyntaxKind::SEMICOLON
        } else if raw == 38u16 {
            SyntaxKind::SOURCE_FILE
        } else if raw == 39u16 {
            SyntaxKind::MODULE_PART
        } else if raw == 40u16 {
            SyntaxKind::IMPORT_DECL
        } else if raw == 41u16 {
            SyntaxKind::MODULE_DECL
        } else if raw == 42u16 {
            SyntaxKind::FUNCTION_DEF
        } else if raw == 43u16 {
            SyntaxKind::SIGNATURE
        } else if raw == 44u16 {
            SyntaxKind::PARAM_LIST
        } else if raw == 45u16 {
            SyntaxKind::PARAM
        } else if raw == 46u16 {
            SyntaxKind::TYPE_DESC
        } else if raw == 47u16 {
            SyntaxKind::STMT_BLOCK
        } else if raw == 48u16 {
            SyntaxKind::STATEMENT
        } else if raw == 49u16 {
            SyntaxKind::LOCAL_VAR_DECL_STMT
        } else if raw == 50u16 {
            SyntaxKind::FUNCTION_CALL_STMT
        } else if raw == 51u16 {
            SyntaxKind::ASSIGN_STMT
        } else if raw == 52u16 {
            SyntaxKind::RETURN_STMT
        } else if raw == 53u16 {
            SyntaxKind::IF_ELSE_STMT
        } else if raw == 54u16 {
            SyntaxKind::WHILE_STMT
        } else if raw == 55u16 {
            SyntaxKind::BREAK_STMT
        } else if raw == 56u16 {
            SyntaxKind::CONTINUE_STMT
        } else if raw == 57u16 {
            SyntaxKind::EXPRESSION
        } else if raw == 58u16 {
            SyntaxKind::EQUALITY_EXPR
        } else if raw == 59u16 {
            SyntaxKind::RELATIONAL_EXPR
        } else if raw == 60u16 {
            SyntaxKind::ADDITIVE_EXPR
        } else if raw == 61u16 {
            SyntaxKind::MULTIPLICATIVE_EXPR
        } else if raw == 62u16 {
            SyntaxKind::UNARY_EXPR
        } else if raw == 63u16 {
            SyntaxKind::PRIMARY_EXPR
        } else if raw == 64u16 {
            SyntaxKind::FUNCTION_CALL_EXPR
        } else if raw == 65u16 {
            SyntaxKind::ARG_LIST
        } else if raw == 66u16 {
            SyntaxKind::QUALIFIED_IDENTIFIER
        } else {
            SyntaxKind::ERROR
        }
    }

    /// The upper-case name of the kind, as it appears in diagnostics.
    pub open spec fn name_spec(self) -> Seq<char> {
        match self {
            SyntaxKind::WHITESPACE => "WHITESPACE"@,
            SyntaxKind::COMMENT => "COMMENT"@,
            SyntaxKind::IDENTIFIER => "IDENTIFIER"@,
            SyntaxKind::INTEGER_LITERAL => "INTEGER_LITERAL"@,
            SyntaxKind::NEWLINE => "NEWLINE"@,
            SyntaxKind::IMPORT_KW => "IMPORT_KW"@,
            SyntaxKind::PUBLIC_KW => "PUBLIC_KW"@,
            SyntaxKind::FUNCTION_KW => "FUNCTION_KW"@,
            SyntaxKind::RETURNS_KW => "RETURNS_KW"@,
            SyntaxKind::INT_KW => "INT_KW"@,
            SyntaxKind::BOOLEAN_KW => "BOOLEAN_KW"@,
            SyntaxKind::IF_KW => "IF_KW"@,
            SyntaxKind::ELSE_KW => "ELSE_KW"@,
            SyntaxKind::WHILE_KW => "WHILE_KW"@,
            SyntaxKind::BREAK_KW => "BREAK_KW"@,
            SyntaxKind::CONTINUE_KW => "CONTINUE_KW"@,
            SyntaxKind::RETURN_KW => "RETURN_KW"@,
            SyntaxKind::TRUE_KW => "TRUE_KW"@,
            SyntaxKind::FALSE_KW => "FALSE_KW"@,
            SyntaxKind::EQ => "EQ"@,
            SyntaxKind::NOT_EQ => "NOT_EQ"@,
            SyntaxKind::LT => "LT"@,
            SyntaxKind::LT_EQ => "LT_EQ"@,
            SyntaxKind::GT => "GT"@,
            SyntaxKind::GT_EQ => "GT_EQ"@,
            SyntaxKind::PLUS => "PLUS"@,
            SyntaxKind::MINUS => "MINUS"@,
            SyntaxKind::STAR => "STAR"@,
            SyntaxKind::SLASH => "SLASH"@,
            SyntaxKind::PERCENT => "PERCENT"@,
            SyntaxKind::ASSIGN => "ASSIGN"@,
            SyntaxKind::L_PAREN => "L_PAREN"@,
            SyntaxKind::R_PAREN => "R_PAREN"@,
            SyntaxKind::L_BRACE => "L_BRACE"@,
            SyntaxKind::R_BRACE => "R_BRACE"@,
            SyntaxKind::COMMA => "COMMA"@,
            SyntaxKind::COLON => "COLON"@,
            SyntaxKind::SEMICOLON => "SEMICOLON"@,
            SyntaxKind::SOURCE_FILE => "SOURCE_FILE"@,
            SyntaxKind::MODULE_PART => "MODULE_PART"@,
            SyntaxKind::IMPORT_DECL => "IMPORT_DECL"@,
            SyntaxKind::MODULE_DECL => "MODULE_DECL"@,
            SyntaxKind::FUNCTION_DEF => "FUNCTION_DEF"@,
            SyntaxKind::SIGNATURE => "SIGNATURE"@,
            SyntaxKind::PARAM_LIST => "PARAM_LIST"@,
            SyntaxKind::PARAM => "PARAM"@,
            SyntaxKind::TYPE_DESC => "TYPE_DESC"@,
            SyntaxKind::STMT_BLOCK => "STMT_BLOCK"@,
            SyntaxKind::STATEMENT => "STATEMENT"@,
            SyntaxKind::LOCAL_VAR_DECL_STMT => "LOCAL_VAR_DECL_STMT"@,
            SyntaxKind::FUNCTION_CALL_STMT => "FUNCTION_CALL_STMT"@,
            SyntaxKind::ASSIGN_STMT => "ASSIGN_STMT"@,
            SyntaxKind::RETURN_STMT => "RETURN_STMT"@,
            SyntaxKind::IF_ELSE_STMT => "IF_ELSE_STMT"@,
            SyntaxKind::WHILE_STMT => "WHILE_STMT"@,
            SyntaxKind::BREAK_STMT => "BREAK_STMT"@,
            SyntaxKind::CONTINUE_STMT => "CONTINUE_STMT"@,
            SyntaxKind::EXPRESSION => "EXPRESSION"@,
            SyntaxKind::EQUALITY_EXPR => "EQUALITY_EXPR"@,
            SyntaxKind::RELATIONAL_EXPR => "RELATIONAL_EXPR"@,
            SyntaxKind::ADDITIVE_EXPR => "ADDITIVE_EXPR"@,
            SyntaxKind::MULTIPLICATIVE_EXPR => "MULTIPLICATIVE_EXPR"@,
            SyntaxKind::UNARY_EXPR => "UNARY_EXPR"@,
            SyntaxKind::PRIMARY_EXPR => "PRIMARY_EXPR"@,
            SyntaxKind::FUNCTION_CALL_EXPR => "FUNCTION_CALL_EXPR"@,
            SyntaxKind::ARG_LIST => "ARG_LIST"@,
            SyntaxKind::QUALIFIED_IDENTIFIER => "QUALIFIED_IDENTIFIER"@,
            SyntaxKind::ERROR => "ERROR"@,
            SyntaxKind::EOF => "EOF"@,
        }
    }

    /// Whitespace and comments: tokens that carry no grammatical meaning.
    pub open spec fn is_trivia_spec(self) -> bool {
        self == SyntaxKind::WHITESPACE || self == SyntaxKind::COMMENT
    }

    /// The raw tag under which the kind is stored.
    pub fn to_raw(self) -> (raw: u16)
        ensures
            raw == self.ordinal(),
            raw <= KIND_LIMIT,
    {
        match self {
            SyntaxKind::WHITESPACE => 0,
            SyntaxKind::COMMENT => 1,
            SyntaxKind::IDENTIFIER => 2,
            SyntaxKind::INTEGER_LITERAL => 3,
            SyntaxKind::NEWLINE => 4,
            SyntaxKind::IMPORT_KW => 5,
            SyntaxKind::PUBLIC_KW => 6,
            SyntaxKind::FUNCTION_KW => 7,
            SyntaxKind::RETURNS_KW => 8,
            SyntaxKind::INT_KW => 9,
            SyntaxKind::BOOLEAN_KW => 10,
            SyntaxKind::IF_KW => 11,
            SyntaxKind::ELSE_KW => 12,
            SyntaxKind::WHILE_KW => 13,
            SyntaxKind::BREAK_KW => 14,
            SyntaxKind::CONTINUE_KW => 15,
            SyntaxKind::RETURN_KW => 16,
            SyntaxKind::TRUE_KW => 17,
            SyntaxKind::FALSE_KW => 18,
            SyntaxKind::EQ => 19,
            SyntaxKind::NOT_EQ => 20,
            SyntaxKind::LT => 21,
            SyntaxKind::LT_EQ => 22,
            SyntaxKind::GT => 23,
            SyntaxKind::GT_EQ => 24,
            SyntaxKind::PLUS => 25,
            SyntaxKind::MINUS => 26,
            SyntaxKind::STAR => 27,
            SyntaxKind::SLASH => 28,
            SyntaxKind::PERCENT => 29,
            SyntaxKind::ASSIGN => 30,
            SyntaxKind::L_PAREN => 31,
            SyntaxKind::R_PAREN => 32,
            SyntaxKind::L_BRACE => 33,
            SyntaxKind::R_BRACE => 34,
            SyntaxKind::COMMA => 35,
            SyntaxKind::COLON => 36,
            SyntaxKind::SEMICOLON => 37,
            SyntaxKind::SOURCE_FILE => 38,
            SyntaxKind::MODULE_PART => 39,
            SyntaxKind::IMPORT_DECL => 40,
            SyntaxKind::MODULE_DECL => 41,
            SyntaxKind::FUNCTION_DEF => 42,
            SyntaxKind::SIGNATURE => 43,
            SyntaxKind::PARAM_LIST => 44,
            SyntaxKind::PARAM => 45,
            SyntaxKind::TYPE_DESC => 46,
            SyntaxKind::STMT_BLOCK => 47,
            SyntaxKind::STATEMENT => 48,
            SyntaxKind::LOCAL_VAR_DECL_STMT => 49,
            SyntaxKind::FUNCTION_CALL_STMT => 50,
            SyntaxKind::ASSIGN_STMT => 51,
            SyntaxKind::RETURN_STMT => 52,
            SyntaxKind::IF_ELSE_STMT => 53,
            SyntaxKind::WHILE_STMT => 54,
            SyntaxKind::BREAK_STMT => 55,
            SyntaxKind::CONTINUE_STMT => 56,
            SyntaxKind::EXPRESSION => 57,
            SyntaxKind::EQUALITY_EXPR => 58,
            SyntaxKind::RELATIONAL_EXPR => 59,
            SyntaxKind::ADDITIVE_EXPR => 60,
            SyntaxKind::MULTIPLICATIVE_EXPR => 61,
            SyntaxKind::UNARY_EXPR => 62,
            SyntaxKind::PRIMARY_EXPR => 63,
            SyntaxKind::FUNCTION_CALL_EXPR => 64,
            SyntaxKind::ARG_LIST => 65,
            SyntaxKind::QUALIFIED_IDENTIFIER => 66,
            SyntaxKind::ERROR => 67,
            SyntaxKind::EOF => 68,
        }
    }

    /// Checked conversion from a raw tag.
    ///
    /// Succeeds exactly for the raw values below the ordinal of `EOF`, and
    /// then returns the kind with that ordinal.
    pub fn try_from(value: u16) -> (r: Result<SyntaxKind, InvalidKind>)
        ensures
            r is Err <==> value >= KIND_LIMIT,
            r matches Ok(kind) ==> kind.ordinal() == value && kind == SyntaxKind::at_ordinal(value),
            r matches Err(e) ==> e.raw == value,
    {
        match value {
            0 => Ok(SyntaxKind::WHITESPACE),
            1 => Ok(SyntaxKind::COMMENT),
            2 => Ok(SyntaxKind::IDENTIFIER),
            3 => Ok(SyntaxKind::INTEGER_LITERAL),
            4 => Ok(SyntaxKind::NEWLINE),
            5 => Ok(SyntaxKind::IMPORT_KW),
            6 => Ok(SyntaxKind::PUBLIC_KW),
            7 => Ok(SyntaxKind::FUNCTION_KW),
            8 => Ok(SyntaxKind::RETURNS_KW),
            9 => Ok(SyntaxKind::INT_KW),
            10 => Ok(SyntaxKind::BOOLEAN_KW),
            11 => Ok(SyntaxKind::IF_KW),
            12 => Ok(SyntaxKind::ELSE_KW),
            13 => Ok(SyntaxKind::WHILE_KW),
            14 => Ok(SyntaxKind::BREAK_KW),
            15 => Ok(SyntaxKind::CONTINUE_KW),
            16 => Ok(SyntaxKind::RETURN_KW),
            17 => Ok(SyntaxKind::TRUE_KW),
            18 => Ok(SyntaxKind::FALSE_KW),
            19 => Ok(SyntaxKind::EQ),
            20 => Ok(SyntaxKind::NOT_EQ),
            21 => Ok(SyntaxKind::LT),
            22 => Ok(SyntaxKind::LT_EQ),
            23 => Ok(SyntaxKind::GT),
            24 => Ok(SyntaxKind::GT_EQ),
            25 => Ok(SyntaxKind::PLUS),
            26 => Ok(SyntaxKind::MINUS),
            27 => Ok(SyntaxKind::STAR),
            28 => Ok(SyntaxKind::SLASH),
            29 => Ok(SyntaxKind::PERCENT),
            30 => Ok(SyntaxKind::ASSIGN),
            31 => Ok(SyntaxKind::L_PAREN),
            32 => Ok(SyntaxKind::R_PAREN),
            33 => Ok(SyntaxKind::L_BRACE),
            34 => Ok(SyntaxKind::R_BRACE),
            35 => Ok(SyntaxKind::COMMA),
            36 => Ok(SyntaxKind::COLON),
            37 => Ok(SyntaxKind::SEMICOLON),
            38 => Ok(SyntaxKind::SOURCE_FILE),
            39 => Ok(SyntaxKind::MODULE_PART),
            40 => Ok(SyntaxKind::IMPORT_DECL),
            41 => Ok(SyntaxKind::MODULE_DECL),
            42 => Ok(SyntaxKind::FUNCTION_DEF),
            43 => Ok(SyntaxKind::SIGNATURE),
            44 => Ok(SyntaxKind::PARAM_LIST),
            45 => Ok(SyntaxKind::PARAM),
            46 => Ok(SyntaxKind::TYPE_DESC),
            47 => Ok(SyntaxKind::STMT_BLOCK),
            48 => Ok(SyntaxKind::STATEMENT),
            49 => Ok(SyntaxKind::LOCAL_VAR_DECL_STMT),
            50 => Ok(SyntaxKind::FUNCTION_CALL_STMT),
            51 => Ok(SyntaxKind::ASSIGN_STMT),
            52 => Ok(SyntaxKind::RETURN_STMT),
            53 => Ok(SyntaxKind::IF_ELSE_STMT),
            54 => Ok(SyntaxKind::WHILE_STMT),
            55 => Ok(SyntaxKind::BREAK_STMT),
            56 => Ok(SyntaxKind::CONTINUE_STMT),
            57 => Ok(SyntaxKind::EXPRESSION),
            58 => Ok(SyntaxKind::EQUALITY_EXPR),
            59 => Ok(SyntaxKind::RELATIONAL_EXPR),
            60 => Ok(SyntaxKind::ADDITIVE_EXPR),
            61 => Ok(SyntaxKind::MULTIPLICATIVE_EXPR),
            62 => Ok(SyntaxKind::UNARY_EXPR),
            63 => Ok(SyntaxKind::PRIMARY_EXPR),
            64 => Ok(SyntaxKind::FUNCTION_CALL_EXPR),
            65 => Ok(SyntaxKind::ARG_LIST),
            66 => Ok(SyntaxKind::QUALIFIED_IDENTIFIER),
            67 => Ok(SyntaxKind::ERROR),
            _ => Err(InvalidKind { raw: value }),
        }
    }

    /// The upper-case name of the kind.
    pub fn name(self) -> (s: &'static str)
        ensures
            s@ == self.name_spec(),
    {
        match self {
            SyntaxKind::WHITESPACE => "WHITESPACE",
            SyntaxKind::COMMENT => "COMMENT",
            SyntaxKind::IDENTIFIER => "IDENTIFIER",
            SyntaxKind::INTEGER_LITERAL => "INTEGER_LITERAL",
            SyntaxKind::NEWLINE => "NEWLINE",
            SyntaxKind::IMPORT_KW => "IMPORT_KW",
            SyntaxKind::PUBLIC_KW => "PUBLIC_KW",
            SyntaxKind::FUNCTION_KW => "FUNCTION_KW",
            SyntaxKind::RETURNS_KW => "RETURNS_KW",
            SyntaxKind::INT_KW => "INT_KW",
            SyntaxKind::BOOLEAN_KW => "BOOLEAN_KW",
            SyntaxKind::IF_KW => "IF_KW",
            SyntaxKind::ELSE_KW => "ELSE_KW",
            SyntaxKind::WHILE_KW => "WHILE_KW",
            SyntaxKind::BREAK_KW => "BREAK_KW",
            SyntaxKind::CONTINUE_KW => "CONTINUE_KW",
            SyntaxKind::RETURN_KW => "RETURN_KW",
            SyntaxKind::TRUE_KW => "TRUE_KW",
            SyntaxKind::FALSE_KW => "FALSE_KW",
            SyntaxKind::EQ => "EQ",
            SyntaxKind::NOT_EQ => "NOT_EQ",
            SyntaxKind::LT => "LT",
            SyntaxKind::LT_EQ => "LT_EQ",
            SyntaxKind::GT => "GT",
            SyntaxKind::GT_EQ => "GT_EQ",
            SyntaxKind::PLUS => "PLUS",
            SyntaxKind::MINUS => "MINUS",
            SyntaxKind::STAR => "STAR",
            SyntaxKind::SLASH => "SLASH",
            SyntaxKind::PERCENT => "PERCENT",
            SyntaxKind::ASSIGN => "ASSIGN",
            SyntaxKind::L_PAREN => "L_PAREN",
            SyntaxKind::R_PAREN => "R_PAREN",
            SyntaxKind::L_BRACE => "L_BRACE",
            SyntaxKind::R_BRACE => "R_BRACE",
            SyntaxKind::COMMA => "COMMA",
            SyntaxKind::COLON => "COLON",
            SyntaxKind::SEMICOLON => "SEMICOLON",
            SyntaxKind::SOURCE_FILE => "SOURCE_FILE",
            SyntaxKind::MODULE_PART => "MODULE_PART",
            SyntaxKind::IMPORT_DECL => "IMPORT_DECL",
            SyntaxKind::MODULE_DECL => "MODULE_DECL",
            SyntaxKind::FUNCTION_DEF => "FUNCTION_DEF",
            SyntaxKind::SIGNATURE => "SIGNATURE",
            SyntaxKind::PARAM_LIST => "PARAM_LIST",
            SyntaxKind::PARAM => "PARAM",
            SyntaxKind::TYPE_DESC => "TYPE_DESC",
            SyntaxKind::STMT_BLOCK => "STMT_BLOCK",
            SyntaxKind::STATEMENT => "STATEMENT",
            SyntaxKind::LOCAL_VAR_DECL_STMT => "LOCAL_VAR_DECL_STMT",
            SyntaxKind::FUNCTION_CALL_STMT => "FUNCTION_CALL_STMT",
            SyntaxKind::ASSIGN_STMT => "ASSIGN_STMT",
            SyntaxKind::RETURN_STMT => "RETURN_STMT",
            SyntaxKind::IF_ELSE_STMT => "IF_ELSE_STMT",
            SyntaxKind::WHILE_STMT => "WHILE_STMT",
            SyntaxKind::BREAK_STMT => "BREAK_STMT",
            SyntaxKind::CONTINUE_STMT => "CONTINUE_STMT",
            SyntaxKind::EXPRESSION => "EXPRESSION",
            SyntaxKind::EQUALITY_EXPR => "EQUALITY_EXPR",
            SyntaxKind::RELATIONAL_EXPR => "RELATIONAL_EXPR",
            SyntaxKind::ADDITIVE_EXPR => "ADDITIVE_EXPR",
            SyntaxKind::MULTIPLICATIVE_EXPR => "MULTIPLICATIVE_EXPR",
            SyntaxKind::UNARY_EXPR => "UNARY_EXPR",
            SyntaxKind::PRIMARY_EXPR => "PRIMARY_EXPR",
            SyntaxKind::FUNCTION_CALL_EXPR => "FUNCTION_CALL_EXPR",
            SyntaxKind::ARG_LIST => "ARG_LIST",
            SyntaxKind::QUALIFIED_IDENTIFIER => "QUALIFIED_IDENTIFIER",
            SyntaxKind::ERROR => "ERROR",
            SyntaxKind::EOF => "EOF",
        }
    }

    /// True for whitespace and comments.
    pub fn is_trivia(self) -> (b: bool)
        ensures
            b == self.is_trivia_spec(),
    {
        match self {
            SyntaxKind::WHITESPACE | SyntaxKind::COMMENT => true,
            _ => false,
        }
    }
}

impl BallerinaLanguage {
    /// The raw tag of a kind.
    pub fn kind_to_raw(kind: SyntaxKind) -> (raw: u16)
        ensures
            raw == kind.ordinal(),
    {
        kind.to_raw()
    }

    /// The kind of a raw tag read back from a tree; refuses tags that no
    /// storable kind has.
    pub fn kind_from_raw(raw: u16) -> (r: Result<SyntaxKind, InvalidKind>)
        ensures
            r is Err <==> raw >= KIND_LIMIT,
            r matches Ok(kind) ==> kind.ordinal() == raw,
            r matches Err(e) ==> e.raw == raw,
    {
        SyntaxKind::try_from(raw)
    }
}

/// Every kind below `EOF` survives the trip through its raw tag.
pub proof fn law_raw_round_trip(kind: SyntaxKind)
    ensures
        kind.ordinal() <= KIND_LIMIT,
        kind != SyntaxKind::EOF ==> kind.ordinal() < KIND_LIMIT && SyntaxKind::at_ordinal(
            kind.ordinal(),
        ) == kind,
{
}

/// Distinct kinds have distinct ordinals, so the order of ordinals is a total
/// order on kinds.
pub proof fn law_ordinal_injective(a: SyntaxKind, b: SyntaxKind)
    ensures
        a.ordinal() == b.ordinal() <==> a == b,
{
}

} // verus!
