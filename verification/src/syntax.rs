//! The syntax tree of a script. Its parts are shared by reference counts, so that a part can be
//! run more than once and on its own.

use std::rc::Rc;
use vstd::prelude::*;

verus! {

/// Commands one after the other.
#[derive(Debug)]
pub struct SequentialList {
    pub items: Vec<SequentialListItem>,
}

/// One command of a list, run in the background where `is_async` is set.
#[derive(Debug)]
pub struct SequentialListItem {
    pub is_async: bool,
    pub sequence: Rc<Sequence>,
}

/// One command, or commands joined by `&&` and `||`.
#[derive(Debug)]
pub enum Sequence {
    /// `name=value`, with no command.
    ShellVar(EnvVar),
    Pipeline(Pipeline),
    BooleanList(BooleanList),
}

/// `name=value`.
#[derive(Debug)]
pub struct EnvVar {
    pub name: String,
    pub value: Word,
}

/// `current && next` or `current || next`; longer lists nest in `next`.
#[derive(Debug)]
pub struct BooleanList {
    pub current: Rc<Sequence>,
    pub op: BooleanListOperator,
    pub next: Rc<Sequence>,
}

#[derive(Debug, Clone, Copy, PartialEq, Eq, Structural)]
pub enum BooleanListOperator {
    /// `&&`
    And,
    /// `||`
    Or,
}

/// A pipeline, after `!` where `negated` is set.
#[derive(Debug)]
pub struct Pipeline {
    pub negated: bool,
    pub inner: PipelineInner,
}

#[derive(Debug)]
pub enum PipelineInner {
    Command(Rc<Command>),
    PipeSequence(Rc<PipeSequence>),
}

/// `current | next`; longer pipelines nest in `next`.
#[derive(Debug)]
pub struct PipeSequence {
    pub current: Rc<Command>,
    pub op: PipeSequenceOperator,
    pub next: PipelineInner,
}

#[derive(Debug, Clone, Copy, PartialEq, Eq, Structural)]
pub enum PipeSequenceOperator {
    /// `|`
    Stdout,
    /// `|&`
    StdoutStderr,
}

/// A command with at most one redirect.
#[derive(Debug)]
pub struct Command {
    pub inner: CommandInner,
    pub redirect: Option<Redirect>,
}

#[derive(Debug)]
pub enum CommandInner {
    Simple(Rc<SimpleCommand>),
    Subshell(Rc<SequentialList>),
    If(Rc<IfClause>),
    For(Rc<ForLoop>),
    While(Rc<WhileLoop>),
    Case(Rc<CaseClause>),
    ArithmeticExpression(Rc<Arithmetic>),
}

/// `a=1 b=2 name args`.
#[derive(Debug)]
pub struct SimpleCommand {
    pub env_vars: Vec<EnvVar>,
    pub args: Rc<Vec<Word>>,
}

#[derive(Debug)]
pub struct IfClause {
    pub condition: Rc<Condition>,
    pub then_body: Rc<SequentialList>,
    pub else_part: Option<ElsePart>,
}

#[derive(Debug)]
pub enum ElsePart {
    Elif(Rc<IfClause>),
    Else(Rc<SequentialList>),
}

#[derive(Debug)]
pub struct ForLoop {
    pub var_name: String,
    pub wordlist: Rc<Vec<Word>>,
    pub body: Rc<SequentialList>,
}

/// `while`, or `until` where `is_until` is set.
#[derive(Debug)]
pub struct WhileLoop {
    pub condition: Rc<Condition>,
    pub body: Rc<SequentialList>,
    pub is_until: bool,
}

#[derive(Debug)]
pub struct CaseClause {
    pub word: Word,
    /// Patterns, and what runs where one of them matches.
    pub cases: Vec<(Vec<Word>, Rc<SequentialList>)>,
}

/// `[[ ... ]]`
#[derive(Debug)]
pub struct Condition {
    pub condition_inner: ConditionInner,
}

#[derive(Debug)]
pub enum ConditionInner {
    Binary { left: Word, op: BinaryOp, right: Word },
    Unary { op: Option<UnaryOp>, right: Word },
}

#[derive(Debug, Clone, Copy, PartialEq, Eq, Structural)]
pub enum BinaryOp {
    Equal,
    NotEqual,
    LessThan,
    LessThanOrEqual,
    GreaterThan,
    GreaterThanOrEqual,
}

#[derive(Debug, Clone, Copy, PartialEq, Eq, Structural)]
pub enum UnaryOp {
    FileExists,
    BlockSpecial,
    CharSpecial,
    Directory,
    RegularFile,
    SetGroupId,
    SymbolicLink,
    StickyBit,
    NamedPipe,
    Readable,
    SizeNonZero,
    TerminalFd,
    SetUserId,
    Writable,
    Executable,
    OwnedByEffectiveGroupId,
    ModifiedSinceLastRead,
    OwnedByEffectiveUserId,
    Socket,
    NonEmptyString,
    EmptyString,
    VariableSet,
    VariableNameReference,
}

#[derive(Debug)]
pub struct Redirect {
    pub maybe_fd: Option<RedirectFd>,
    pub op: RedirectOp,
    pub io_file: IoFile,
}

/// The stream that is redirected.
#[derive(Debug, Clone, Copy, PartialEq, Eq, Structural)]
pub enum RedirectFd {
    Fd(u32),
    StdoutStderr,
}

#[derive(Debug, Clone, Copy, PartialEq, Eq, Structural)]
pub enum RedirectOp {
    Input(RedirectOpInput),
    Output(RedirectOpOutput),
}

#[derive(Debug, Clone, Copy, PartialEq, Eq, Structural)]
pub enum RedirectOpInput {
    /// `<`
    Redirect,
}

#[derive(Debug, Clone, Copy, PartialEq, Eq, Structural)]
pub enum RedirectOpOutput {
    /// `>`
    Overwrite,
    /// `>>`
    Append,
}

/// Where a redirect leads: a file, or another stream.
#[derive(Debug)]
pub enum IoFile {
    Word(Word),
    Fd(u32),
}

/// A word before it is evaluated.
#[derive(Debug)]
pub struct Word {
    pub parts: Rc<Vec<WordPart>>,
}

impl Word {
    /// The parts of the word.
    pub fn parts(&self) -> (r: &Vec<WordPart>)
        ensures
            *r == *self.parts,
    {
        &self.parts
    }

    /// The parts of the word, shared with it.
    pub fn into_parts(self) -> (r: Rc<Vec<WordPart>>)
        ensures
            r == self.parts,
    {
        self.parts
    }

    /// The same word once more.
    pub fn share(&self) -> (r: Word)
        ensures
            r == *self,
    {
        Word { parts: self.parts.clone() }
    }
}

#[derive(Debug)]
pub enum WordPart {
    Text(String),
    /// `$name`, or `${name...}` with a modifier.
    Variable(String, Option<Rc<VariableModifier>>),
    /// `$( ... )`
    Command(Rc<SequentialList>),
    /// `" ... "`
    Quoted(Rc<Vec<WordPart>>),
    Tilde(TildePrefix),
    /// `$(( ... ))`
    Arithmetic(Rc<Arithmetic>),
    /// `$?`: the exit code of the command that ran last.
    ExitStatus,
}

/// `~`, or `~user`.
#[derive(Debug)]
pub struct TildePrefix {
    pub user: Option<String>,
}

impl TildePrefix {
    /// Whether no user is named.
    pub fn only_tilde(&self) -> (r: bool)
        ensures
            r == (self.user is None),
    {
        self.user.is_none()
    }
}

#[derive(Debug)]
pub enum VariableModifier {
    /// `${name:begin:length}`
    Substring { begin: Word, length: Option<Word> },
    /// `${name:-word}`
    DefaultValue(Word),
    /// `${name:=word}`
    AssignDefault(Word),
    /// `${name:+word}`
    AlternateValue(Word),
}

/// Expressions separated by commas.
#[derive(Debug)]
pub struct Arithmetic {
    pub parts: Vec<ArithmeticPart>,
}

#[derive(Debug)]
pub enum ArithmeticPart {
    ParenthesesExpr(Box<Arithmetic>),
    VariableAssignment { name: String, op: AssignmentOp, value: Box<ArithmeticPart> },
    TripleConditionalExpr {
        condition: Box<ArithmeticPart>,
        true_expr: Box<ArithmeticPart>,
        false_expr: Box<ArithmeticPart>,
    },
    BinaryArithmeticExpr {
        left: Box<ArithmeticPart>,
        operator: BinaryArithmeticOp,
        right: Box<ArithmeticPart>,
    },
    BinaryConditionalExpr { left: Box<ArithmeticPart>, operator: BinaryOp, right: Box<ArithmeticPart> },
    UnaryArithmeticExpr { operator: UnaryArithmeticOp, operand: Box<ArithmeticPart> },
    PostArithmeticExpr { operand: Box<ArithmeticPart>, operator: PostArithmeticOp },
    Variable(String),
    Number(String),
}

#[derive(Debug, Clone, Copy, PartialEq, Eq, Structural)]
pub enum AssignmentOp {
    Assign,
    MultiplyAssign,
    DivideAssign,
    ModuloAssign,
    AddAssign,
    SubtractAssign,
    LeftShiftAssign,
    RightShiftAssign,
    BitwiseAndAssign,
    BitwiseXorAssign,
    BitwiseOrAssign,
}

#[derive(Debug, Clone, Copy, PartialEq, Eq, Structural)]
pub enum BinaryArithmeticOp {
    Add,
    Subtract,
    Multiply,
    Divide,
    Modulo,
    Power,
    LeftShift,
    RightShift,
    BitwiseAnd,
    BitwiseXor,
    BitwiseOr,
    LogicalAnd,
    LogicalOr,
}

#[derive(Debug, Clone, Copy, PartialEq, Eq, Structural)]
pub enum UnaryArithmeticOp {
    Plus,
    Minus,
    LogicalNot,
    BitwiseNot,
}

#[derive(Debug, Clone, Copy, PartialEq, Eq, Structural)]
pub enum PostArithmeticOp {
    Increment,
    Decrement,
}

} // verus!
