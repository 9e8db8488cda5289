//! The syntax tree of Yul, and the mathematical value of each of its nodes.

use vstd::prelude::*;

use crate::yul::lexer::lexeme::Literal;
use crate::yul::lexer::lexeme::LiteralView;

verus! {

/// The name of a called function: one of the built-in functions, or a
/// function of the source.
#[derive(Debug, PartialEq, Eq)]
pub enum Name {
    Add,
    Sub,
    Mul,
    Div,
    Mod,
    Sdiv,
    Smod,
    Lt,
    Gt,
    Eq,
    Slt,
    Sgt,
    IsZero,
    And,
    Or,
    Xor,
    Shl,
    Shr,
    Sar,
    /// A function that the source defines.
    UserDefined(String),
}

/// The mathematical value of a [`Name`].
pub ghost enum NameView {
    Add,
    Sub,
    Mul,
    Div,
    Mod,
    Sdiv,
    Smod,
    Lt,
    Gt,
    Eq,
    Slt,
    Sgt,
    IsZero,
    And,
    Or,
    Xor,
    Shl,
    Shr,
    Sar,
    UserDefined(Seq<char>),
}

impl View for Name {
    type V = NameView;

    open spec fn view(&self) -> NameView {
        match self {
            Name::Add => NameView::Add,
            Name::Sub => NameView::Sub,
            Name::Mul => NameView::Mul,
            Name::Div => NameView::Div,
            Name::Mod => NameView::Mod,
            Name::Sdiv => NameView::Sdiv,
            Name::Smod => NameView::Smod,
            Name::Lt => NameView::Lt,
            Name::Gt => NameView::Gt,
            Name::Eq => NameView::Eq,
            Name::Slt => NameView::Slt,
            Name::Sgt => NameView::Sgt,
            Name::IsZero => NameView::IsZero,
            Name::And => NameView::And,
            Name::Or => NameView::Or,
            Name::Xor => NameView::Xor,
            Name::Shl => NameView::Shl,
            Name::Shr => NameView::Shr,
            Name::Sar => NameView::Sar,
            Name::UserDefined(name) => NameView::UserDefined(name@),
        }
    }
}

/// A function call.
#[derive(Debug, PartialEq, Eq)]
pub struct FunctionCall {
    /// The function.
    pub name: Name,
    /// The arguments, in order.
    pub arguments: Vec<Expression>,
}

/// An expression.
#[derive(Debug, PartialEq, Eq)]
pub enum Expression {
    FunctionCall(FunctionCall),
    Identifier(String),
    Literal(Literal),
}

/// The mathematical value of a [`FunctionCall`].
pub ghost struct FunctionCallView {
    pub name: NameView,
    pub arguments: Seq<ExpressionView>,
}

/// The mathematical value of an [`Expression`].
pub ghost enum ExpressionView {
    FunctionCall(FunctionCallView),
    Identifier(Seq<char>),
    Literal(LiteralView),
}

/// A block: statements between braces.
#[derive(Debug, PartialEq, Eq)]
pub struct Block {
    /// The statements, in order.
    pub statements: Vec<Statement>,
}

/// A function definition.
#[derive(Debug, PartialEq, Eq)]
pub struct FunctionDefinition {
    /// The name of the function.
    pub name: String,
    /// The names of the arguments.
    pub arguments: Vec<String>,
    /// The names of the results.
    pub result: Vec<String>,
    /// The body.
    pub body: Block,
}

/// A variable declaration.
#[derive(Debug, PartialEq, Eq)]
pub struct VariableDeclaration {
    /// The names of the variables.
    pub bindings: Vec<String>,
    /// The initial value, if one is given.
    pub expression: Option<Expression>,
}

/// An assignment.
#[derive(Debug, PartialEq, Eq)]
pub struct Assignment {
    /// The names of the targets.
    pub bindings: Vec<String>,
    /// The assigned value.
    pub initializer: Expression,
}

/// A conditional.
#[derive(Debug, PartialEq, Eq)]
pub struct IfConditional {
    /// The condition.
    pub condition: Expression,
    /// What is run where the condition is not zero.
    pub block: Block,
}

/// A case of a switch.
#[derive(Debug, PartialEq, Eq)]
pub struct Case {
    /// The value of the case.
    pub literal: Literal,
    /// What is run in the case.
    pub block: Block,
}

/// A switch. It has a case or a default.
#[derive(Debug, PartialEq, Eq)]
pub struct Switch {
    /// The value that is matched.
    pub expression: Expression,
    /// The cases, in order.
    pub cases: Vec<Case>,
    /// What is run where no case matches.
    pub default: Option<Block>,
}

/// A loop.
#[derive(Debug, PartialEq, Eq)]
pub struct ForLoop {
    /// What is run before the loop.
    pub initializer: Block,
    /// The loop goes on while this is not zero.
    pub condition: Expression,
    /// What is run behind each round.
    pub finalizer: Block,
    /// The round.
    pub body: Block,
}

/// A statement.
#[derive(Debug, PartialEq, Eq)]
pub enum Statement {
    Block(Block),
    FunctionDefinition(FunctionDefinition),
    VariableDeclaration(VariableDeclaration),
    Assignment(Assignment),
    IfConditional(IfConditional),
    Switch(Switch),
    ForLoop(ForLoop),
    Expression(Expression),
    Continue,
    Break,
    Leave,
}

/// The mathematical value of a [`Block`].
pub ghost struct BlockView {
    pub statements: Seq<StatementView>,
}

/// The mathematical value of a [`FunctionDefinition`].
pub ghost struct FunctionDefinitionView {
    pub name: Seq<char>,
    pub arguments: Seq<Seq<char>>,
    pub result: Seq<Seq<char>>,
    pub body: BlockView,
}

/// The mathematical value of a [`VariableDeclaration`].
pub ghost struct VariableDeclarationView {
    pub bindings: Seq<Seq<char>>,
    pub expression: Option<ExpressionView>,
}

/// The mathematical value of an [`Assignment`].
pub ghost struct AssignmentView {
    pub bindings: Seq<Seq<char>>,
    pub initializer: ExpressionView,
}

/// The mathematical value of an [`IfConditional`].
pub ghost struct IfConditionalView {
    pub condition: ExpressionView,
    pub block: BlockView,
}

/// The mathematical value of a [`Case`].
pub ghost struct CaseView {
    pub literal: LiteralView,
    pub block: BlockView,
}

/// The mathematical value of a [`Switch`].
pub ghost struct SwitchView {
    pub expression: ExpressionView,
    pub cases: Seq<CaseView>,
    pub default: Option<BlockView>,
}

/// The mathematical value of a [`ForLoop`].
pub ghost struct ForLoopView {
    pub initializer: BlockView,
    pub condition: ExpressionView,
    pub finalizer: BlockView,
    pub body: BlockView,
}

/// The mathematical value of a [`Statement`].
pub ghost enum StatementView {
    Block(BlockView),
    FunctionDefinition(FunctionDefinitionView),
    VariableDeclaration(VariableDeclarationView),
    Assignment(AssignmentView),
    IfConditional(IfConditionalView),
    Switch(SwitchView),
    ForLoop(ForLoopView),
    Expression(ExpressionView),
    Continue,
    Break,
    Leave,
}

/// The code of an object.
#[derive(Debug, PartialEq, Eq)]
pub struct Code {
    /// The block of the code.
    pub block: Block,
}

/// The mathematical value of a [`Code`].
pub ghost struct CodeView {
    pub block: BlockView,
}

/// An object: a named unit of code, with the object of its runtime code
/// nested in it.
#[derive(Debug, PartialEq, Eq)]
pub struct Object {
    /// The name.
    pub name: String,
    /// The code.
    pub code: Code,
    /// The first object nested in this one, if there is one.
    pub nested_object: Option<Box<Object>>,
    /// The names of the further objects nested in this one, in order.
    pub dependencies: Vec<String>,
}

/// The mathematical value of an [`Object`].
pub ghost struct ObjectView {
    pub name: Seq<char>,
    pub code: CodeView,
    pub nested_object: Option<Box<ObjectView>>,
    pub dependencies: Seq<Seq<char>>,
}

/// The values of the names.
pub open spec fn names_view(names: Seq<String>) -> Seq<Seq<char>> {
    names.map_values(|name: String| name@)
}

/// The value of an expression.
pub open spec fn expression_view(expression: Expression) -> ExpressionView
    decreases expression,
{
    match expression {
        Expression::FunctionCall(call) => ExpressionView::FunctionCall(
            FunctionCallView {
                name: call.name@,
                arguments: Seq::new(
                    call.arguments@.len(),
                    |i: int|
                        if 0 <= i < call.arguments@.len() {
                            expression_view(call.arguments@[i])
                        } else {
                            ExpressionView::Identifier(Seq::empty())
                        },
                ),
            },
        ),
        Expression::Identifier(name) => ExpressionView::Identifier(name@),
        Expression::Literal(literal) => ExpressionView::Literal(literal@),
    }
}

/// The value of an optional expression.
pub open spec fn optional_expression_view(expression: Option<Expression>) -> Option<
    ExpressionView,
> {
    match expression {
        Some(expression) => Some(expression_view(expression)),
        None => None,
    }
}

/// The value of a block.
pub open spec fn block_view(block: Block) -> BlockView
    decreases block,
{
    BlockView {
        statements: Seq::new(
            block.statements@.len(),
            |i: int|
                if 0 <= i < block.statements@.len() {
                    statement_view(block.statements@[i])
                } else {
                    StatementView::Leave
                },
        ),
    }
}

/// The value of a case.
pub open spec fn case_view(case: Case) -> CaseView
    decreases case,
{
    CaseView { literal: case.literal@, block: block_view(case.block) }
}

/// The value of a statement.
pub open spec fn statement_view(statement: Statement) -> StatementView
    decreases statement,
{
    match statement {
        Statement::Block(block) => StatementView::Block(block_view(block)),
        Statement::FunctionDefinition(definition) => StatementView::FunctionDefinition(
            FunctionDefinitionView {
                name: definition.name@,
                arguments: names_view(definition.arguments@),
                result: names_view(definition.result@),
                body: block_view(definition.body),
            },
        ),
        Statement::VariableDeclaration(declaration) => StatementView::VariableDeclaration(
            VariableDeclarationView {
                bindings: names_view(declaration.bindings@),
                expression: optional_expression_view(declaration.expression),
            },
        ),
        Statement::Assignment(assignment) => StatementView::Assignment(
            AssignmentView {
                bindings: names_view(assignment.bindings@),
                initializer: expression_view(assignment.initializer),
            },
        ),
        Statement::IfConditional(conditional) => StatementView::IfConditional(
            IfConditionalView {
                condition: expression_view(conditional.condition),
                block: block_view(conditional.block),
            },
        ),
        Statement::Switch(switch) => StatementView::Switch(
            SwitchView {
                expression: expression_view(switch.expression),
                cases: Seq::new(
                    switch.cases@.len(),
                    |i: int|
                        if 0 <= i < switch.cases@.len() {
                            case_view(switch.cases@[i])
                        } else {
                            CaseView {
                                literal: LiteralView {
                                    kind: crate::yul::lexer::lexeme::LiteralKind::Boolean,
                                    text: Seq::empty(),
                                },
                                block: BlockView { statements: Seq::empty() },
                            }
                        },
                ),
                default: match switch.default {
                    Some(block) => Some(block_view(block)),
                    None => None,
                },
            },
        ),
        Statement::ForLoop(for_loop) => StatementView::ForLoop(
            ForLoopView {
                initializer: block_view(for_loop.initializer),
                condition: expression_view(for_loop.condition),
                finalizer: block_view(for_loop.finalizer),
                body: block_view(for_loop.body),
            },
        ),
        Statement::Expression(expression) => StatementView::Expression(expression_view(expression)),
        Statement::Continue => StatementView::Continue,
        Statement::Break => StatementView::Break,
        Statement::Leave => StatementView::Leave,
    }
}

/// The value of an object.
pub open spec fn object_view(object: Object) -> ObjectView
    decreases object,
{
    ObjectView {
        name: object.name@,
        code: CodeView { block: block_view(object.code.block) },
        nested_object: match object.nested_object {
            Some(nested) => Some(Box::new(object_view(*nested))),
            None => None,
        },
        dependencies: names_view(object.dependencies@),
    }
}

impl View for Expression {
    type V = ExpressionView;

    open spec fn view(&self) -> ExpressionView {
        expression_view(*self)
    }
}

impl View for FunctionCall {
    type V = FunctionCallView;

    open spec fn view(&self) -> FunctionCallView {
        FunctionCallView {
            name: self.name@,
            arguments: self.arguments@.map_values(|argument: Expression| argument@),
        }
    }
}

impl View for Block {
    type V = BlockView;

    open spec fn view(&self) -> BlockView {
        block_view(*self)
    }
}

impl View for Statement {
    type V = StatementView;

    open spec fn view(&self) -> StatementView {
        statement_view(*self)
    }
}

impl View for Case {
    type V = CaseView;

    open spec fn view(&self) -> CaseView {
        case_view(*self)
    }
}

impl View for Assignment {
    type V = AssignmentView;

    open spec fn view(&self) -> AssignmentView {
        AssignmentView { bindings: names_view(self.bindings@), initializer: self.initializer@ }
    }
}

impl View for Switch {
    type V = SwitchView;

    open spec fn view(&self) -> SwitchView {
        SwitchView {
            expression: self.expression@,
            cases: self.cases@.map_values(|case: Case| case@),
            default: match self.default {
                Some(block) => Some(block@),
                None => None,
            },
        }
    }
}

impl View for VariableDeclaration {
    type V = VariableDeclarationView;

    open spec fn view(&self) -> VariableDeclarationView {
        VariableDeclarationView {
            bindings: names_view(self.bindings@),
            expression: optional_expression_view(self.expression),
        }
    }
}

impl View for FunctionDefinition {
    type V = FunctionDefinitionView;

    open spec fn view(&self) -> FunctionDefinitionView {
        FunctionDefinitionView {
            name: self.name@,
            arguments: names_view(self.arguments@),
            result: names_view(self.result@),
            body: self.body@,
        }
    }
}

impl View for IfConditional {
    type V = IfConditionalView;

    open spec fn view(&self) -> IfConditionalView {
        IfConditionalView { condition: self.condition@, block: self.block@ }
    }
}

impl View for ForLoop {
    type V = ForLoopView;

    open spec fn view(&self) -> ForLoopView {
        ForLoopView {
            initializer: self.initializer@,
            condition: self.condition@,
            finalizer: self.finalizer@,
            body: self.body@,
        }
    }
}

impl View for Code {
    type V = CodeView;

    open spec fn view(&self) -> CodeView {
        CodeView { block: self.block@ }
    }
}

impl View for Object {
    type V = ObjectView;

    open spec fn view(&self) -> ObjectView {
        object_view(*self)
    }
}

/// The value of a block is made of the values of its statements.
pub proof fn lemma_block_view(block: Block)
    ensures
        block@.statements =~= block.statements@.map_values(|statement: Statement| statement@),
{
}

/// The value of a function call is made of the values of its arguments.
pub proof fn lemma_call_view(call: FunctionCall)
    ensures
        Expression::FunctionCall(call)@ == ExpressionView::FunctionCall(call@),
{
    assert(call@.arguments =~= expression_view(Expression::FunctionCall(call))->FunctionCall_0.arguments);
}

/// The value of a switch statement is the value of the switch.
pub proof fn lemma_switch_view(switch: Switch)
    ensures
        Statement::Switch(switch)@ == StatementView::Switch(switch@),
{
    assert(switch@.cases =~= statement_view(Statement::Switch(switch))->Switch_0.cases);
}

} // verus!
