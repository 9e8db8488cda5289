//! The emission of statements and blocks.

use vstd::prelude::*;

use crate::generator::context::Context;
use crate::generator::context::Loop;
use crate::generator::operation::Label;
use crate::generator::operation::Operation;
use crate::generator::operation::Predicate;
use crate::generator::operation::Type;
use crate::generator::operation::BITLENGTH_FIELD;
use crate::generator::operation::BITLENGTH_X32;
use crate::yul::emit::expression::emitted;
use crate::yul::emit::model::assign;
use crate::yul::emit::model::bind_arguments;
use crate::yul::emit::model::branch;
use crate::yul::emit::model::declare_functions;
use crate::yul::emit::model::emit_assignment;
use crate::yul::emit::model::emit_block;
use crate::yul::emit::model::emit_cases;
use crate::yul::emit::model::emit_declaration;
use crate::yul::emit::model::emit_for;
use crate::yul::emit::model::emit_function;
use crate::yul::emit::model::emit_functions;
use crate::yul::emit::model::emit_if;
use crate::yul::emit::model::emit_local;
use crate::yul::emit::model::emit_object;
use crate::yul::emit::model::emit_object_blocks;
use crate::yul::emit::model::emit_statement;
use crate::yul::emit::model::emit_switch;
use crate::yul::emit::model::load_results;
use crate::yul::emit::model::reserve;
use crate::yul::emit::model::restore;
use crate::yul::emit::model::nonzero;
use crate::yul::emit::model::unpack;
use crate::yul::error::Error;
use crate::yul::parser::ast::lemma_block_view;
use crate::yul::parser::ast::lemma_switch_view;
use crate::yul::parser::ast::names_view;
use crate::yul::parser::ast::Assignment;
use crate::yul::parser::ast::Block;
use crate::yul::parser::ast::Case;
use crate::yul::parser::ast::CaseView;
use crate::yul::parser::ast::ForLoop;
use crate::yul::parser::ast::FunctionDefinition;
use crate::yul::parser::ast::IfConditional;
use crate::yul::parser::ast::Statement;
use crate::yul::parser::ast::StatementView;
use crate::yul::parser::ast::Switch;
use crate::yul::parser::ast::VariableDeclaration;

verus! {

/// The values of the statements.
pub open spec fn statement_views(statements: Seq<Statement>) -> Seq<StatementView> {
    statements.map_values(|statement: Statement| statement@)
}

/// The values of the cases.
pub open spec fn case_views(cases: Seq<Case>) -> Seq<CaseView> {
    cases.map_values(|case: Case| case@)
}

fn branch_to(context: &mut Context, block: usize)
    ensures
        final(context)@ == branch(old(context)@, block),
{
    if !context.is_terminated() {
        context.record(Operation::Branch { block });
    }
}

fn restore_to(context: &mut Context, function: Option<usize>, block: Option<usize>)
    ensures
        final(context)@ == restore(old(context)@, function, block),
{
    match function {
        Some(function) => {
            context.set_function(function);
        },
        None => {},
    }
    match block {
        Some(block) => {
            context.set_basic_block(block);
        },
        None => {},
    }
}

fn test_value(context: &mut Context, value: usize) -> (condition: usize)
    ensures
        (final(context)@, condition) == nonzero(old(context)@, value),
{
    let zero = context.record(
        Operation::Integer { kind: Type::Integer(BITLENGTH_FIELD), number: 0 },
    );
    context.record(Operation::Compare { predicate: Predicate::NotEqual, left: value, right: zero })
}

fn unpack_from(context: &mut Context, bindings: &Vec<String>, from: usize, pointer: usize) -> (result:
    Result<(), Error>)
    ensures
        emitted(
            final(context)@,
            unpack(old(context)@, names_view(bindings@), from as int, pointer),
            result,
        ),
    decreases bindings.len() - from,
{
    if from < bindings.len() {
        let zero = context.record(
            Operation::Integer { kind: Type::Integer(BITLENGTH_FIELD), number: 0 },
        );
        let index = context.record(
            Operation::Integer { kind: Type::Integer(BITLENGTH_X32), number: from as u64 },
        );
        let mut indices: Vec<usize> = Vec::new();
        indices.push(zero);
        indices.push(index);
        assert(indices@ =~= seq![zero, index]);
        let part = context.record(
            Operation::ElementPointer {
                pointer,
                indices,
                label: Label::AssignmentBindingPointer(from),
            },
        );
        let loaded = context.record(
            Operation::Load { pointer: part, label: Label::AssignmentBindingValue(from) },
        );
        match context.find_variable(&bindings[from]) {
            None => Err(Error::UnknownName { name: bindings[from].clone() }),
            Some(variable) => {
                context.record(Operation::Store { pointer: variable, value: loaded });
                unpack_from(context, bindings, from + 1, pointer)
            },
        }
    } else {
        Ok(())
    }
}

fn assign_to(context: &mut Context, bindings: &Vec<String>, value: usize) -> (result: Result<
    (),
    Error,
>)
    ensures
        emitted(final(context)@, assign(old(context)@, names_view(bindings@), value), result),
{
    if bindings.len() == 1 {
        match context.find_variable(&bindings[0]) {
            Some(pointer) => {
                context.record(Operation::Store { pointer, value });
                Ok(())
            },
            None => Err(Error::UnknownName { name: bindings[0].clone() }),
        }
    } else {
        let pointer = context.record(
            Operation::Alloca {
                kind: Type::Structure(bindings.len()),
                label: Label::AssignmentPointer,
            },
        );
        context.record(Operation::Store { pointer, value });
        unpack_from(context, bindings, 0, pointer)
    }
}

fn reserve_from(context: &mut Context, names: &Vec<String>, from: usize)
    ensures
        final(context)@ == reserve(old(context)@, names_view(names@), from as int),
    decreases names.len() - from,
{
    if from < names.len() {
        let pointer = context.record(
            Operation::Alloca {
                kind: Type::Integer(BITLENGTH_FIELD),
                label: Label::Source(names[from].clone()),
            },
        );
        context.bind(names[from].clone(), pointer);
        reserve_from(context, names, from + 1);
    }
}

fn bind_arguments_from(context: &mut Context, names: &Vec<String>, from: usize)
    ensures
        final(context)@ == bind_arguments(old(context)@, names_view(names@), from as int),
    decreases names.len() - from,
{
    if from < names.len() {
        let argument = context.record(Operation::Argument { index: from });
        let pointer = context.record(
            Operation::Alloca {
                kind: Type::Integer(BITLENGTH_FIELD),
                label: Label::Source(names[from].clone()),
            },
        );
        context.record(Operation::Store { pointer, value: argument });
        context.bind(names[from].clone(), pointer);
        bind_arguments_from(context, names, from + 1);
    }
}

fn load_results_from(
    context: &mut Context,
    names: &Vec<String>,
    from: usize,
    values: &mut Vec<usize>,
) -> (result: Result<(), Error>)
    ensures
        match load_results(old(context)@, names_view(names@), from as int) {
            Ok((after, rest)) => result is Ok && final(values)@ == old(values)@ + rest
                && final(context)@ == after,
            Err(error) => result is Err && result->Err_0@ == error,
        },
    decreases names.len() - from,
{
    if from < names.len() {
        match context.find_variable(&names[from]) {
            None => Err(Error::UnknownName { name: names[from].clone() }),
            Some(pointer) => {
                let ghost before = values@;
                let value = context.record(Operation::Load { pointer, label: Label::Result });
                values.push(value);
                let ghost listed = values@;
                load_results_from(context, names, from + 1, values)?;
                proof {
                    let rest = values@.skip(listed.len() as int);
                    assert(values@ =~= listed + rest);
                    assert(listed + rest =~= before + (seq![value] + rest));
                }
                Ok(())
            },
        }
    } else {
        assert(values@ + Seq::<usize>::empty() =~= values@);
        Ok(())
    }
}

impl Assignment {
    /// Emits the assignment: see [`emit_assignment`].
    pub fn emit(&self, context: &mut Context) -> (result: Result<(), Error>)
        ensures
            emitted(final(context)@, emit_assignment(old(context)@, self@), result),
    {
        match self.initializer.emit(context)? {
            None => Ok(()),
            Some(value) => assign_to(context, &self.bindings, value),
        }
    }

    /// Emits the assignment, which is used up: see [`emit_assignment`].
    pub fn into_llvm(self, context: &mut Context) -> (result: Result<(), Error>)
        ensures
            emitted(final(context)@, emit_assignment(old(context)@, self@), result),
    {
        self.emit(context)
    }
}

impl VariableDeclaration {
    /// Emits the declaration: see [`emit_declaration`].
    pub fn emit(&self, context: &mut Context) -> (result: Result<(), Error>)
        ensures
            emitted(final(context)@, emit_declaration(old(context)@, self@), result),
    {
        match &self.expression {
            None => {
                reserve_from(context, &self.bindings, 0);
                Ok(())
            },
            Some(expression) => {
                let value = expression.emit(context)?;
                reserve_from(context, &self.bindings, 0);
                match value {
                    None => Ok(()),
                    Some(value) => assign_to(context, &self.bindings, value),
                }
            },
        }
    }
}

impl IfConditional {
    /// Emits the conditional: see [`emit_if`].
    pub fn emit(&self, context: &mut Context) -> (result: Result<(), Error>)
        ensures
            emitted(final(context)@, emit_if(old(context)@, self@), result),
        decreases self, 0nat,
    {
        let value = match self.condition.emit(context)? {
            Some(value) => value,
            None => {
                return Err(Error::MissingValue);
            },
        };
        let main = context.append_basic_block(Label::IfMain);
        let join = context.append_basic_block(Label::IfJoin);
        let condition = test_value(context, value);
        context.record(Operation::ConditionalBranch { condition, then: main, otherwise: join });
        context.set_basic_block(main);
        self.block.emit(context)?;
        branch_to(context, join);
        context.set_basic_block(join);
        Ok(())
    }
}

impl ForLoop {
    /// Emits the loop: see [`emit_for`].
    #[verifier::rlimit(80)]
    pub fn emit(&self, context: &mut Context) -> (result: Result<(), Error>)
        ensures
            emitted(final(context)@, emit_for(old(context)@, self@), result),
        decreases self, 0nat,
    {
        self.initializer.emit(context)?;
        let condition_block = context.append_basic_block(Label::ForCondition);
        let body_block = context.append_basic_block(Label::ForBody);
        let increment_block = context.append_basic_block(Label::ForIncrement);
        let join_block = context.append_basic_block(Label::ForJoin);
        branch_to(context, condition_block);
        context.set_basic_block(condition_block);
        let value = match self.condition.emit(context)? {
            Some(value) => value,
            None => {
                return Err(Error::MissingValue);
            },
        };
        let condition = test_value(context, value);
        context.record(
            Operation::ConditionalBranch { condition, then: body_block, otherwise: join_block },
        );
        context.set_basic_block(body_block);
        context.loops.push(Loop { continue_block: increment_block, join_block });
        self.body.emit(context)?;
        branch_to(context, increment_block);
        context.set_basic_block(increment_block);
        self.finalizer.emit(context)?;
        branch_to(context, condition_block);
        context.set_basic_block(join_block);
        context.loops.pop();
        Ok(())
    }
}

fn cases_from(
    context: &mut Context,
    cases: &Vec<Case>,
    from: usize,
    join: usize,
    branches: &mut Vec<(usize, usize)>,
) -> (result: Result<(), Error>)
    ensures
        match emit_cases(old(context)@, case_views(cases@), from as int, join) {
            Ok((after, rest)) => result is Ok && final(branches)@ == old(branches)@ + rest
                && final(context)@ == after,
            Err(error) => result is Err && result->Err_0@ == error,
        },
    decreases cases, cases.len() - from,
{
    if from < cases.len() {
        let ghost before = branches@;
        let constant = context.record(
            Operation::Constant { literal: cases[from].literal.clone() },
        );
        let block = context.append_basic_block(Label::SwitchCase(from + 1));
        context.set_basic_block(block);
        cases[from].block.emit(context)?;
        branch_to(context, join);
        branches.push((constant, block));
        let ghost listed = branches@;
        cases_from(context, cases, from + 1, join, branches)?;
        proof {
            let rest = branches@.skip(listed.len() as int);
            assert(branches@ =~= listed + rest);
            assert(listed + rest =~= before + (seq![(constant, block)] + rest));
        }
        Ok(())
    } else {
        assert(branches@ + Seq::<(usize, usize)>::empty() =~= branches@);
        Ok(())
    }
}

impl Switch {
    /// Emits the switch: see [`emit_switch`].
    pub fn emit(&self, context: &mut Context) -> (result: Result<(), Error>)
        ensures
            emitted(final(context)@, emit_switch(old(context)@, self@), result),
        decreases self, 0nat,
    {
        if self.cases.len() == 0 {
            return match &self.default {
                Some(block) => block.emit(context),
                None => Ok(()),
            };
        }
        let current_block = context.block;
        let join = context.append_basic_block(Label::SwitchJoin);
        let mut branches: Vec<(usize, usize)> = Vec::new();
        cases_from(context, &self.cases, 0, join, &mut branches)?;
        assert(Seq::<(usize, usize)>::empty() + branches@ =~= branches@);
        let default = match &self.default {
            Some(block) => {
                let default_block = context.append_basic_block(Label::SwitchDefault);
                context.set_basic_block(default_block);
                block.emit(context)?;
                branch_to(context, join);
                default_block
            },
            None => join,
        };
        restore_to(context, None, current_block);
        let scrutinee = match self.expression.emit(context)? {
            Some(value) => value,
            None => {
                return Err(Error::MissingValue);
            },
        };
        context.record(Operation::Switch { scrutinee, default, cases: branches });
        context.set_basic_block(join);
        Ok(())
    }

    /// Emits the switch, which is used up: see [`emit_switch`].
    pub fn into_llvm(self, context: &mut Context) -> (result: Result<(), Error>)
        ensures
            emitted(final(context)@, emit_switch(old(context)@, self@), result),
    {
        self.emit(context)
    }
}

impl Statement {
    /// Emits the statement: see [`emit_statement`].
    pub fn emit(&self, context: &mut Context) -> (result: Result<(), Error>)
        ensures
            emitted(final(context)@, emit_statement(old(context)@, self@), result),
        decreases self, 1nat,
    {
        match self {
            Statement::Block(block) => block.emit(context),
            Statement::FunctionDefinition(_) => Ok(()),
            Statement::VariableDeclaration(declaration) => declaration.emit(context),
            Statement::Assignment(assignment) => assignment.emit(context),
            Statement::IfConditional(conditional) => conditional.emit(context),
            Statement::Switch(switch) => {
                proof {
                    lemma_switch_view(*switch);
                }
                switch.emit(context)
            },
            Statement::ForLoop(for_loop) => for_loop.emit(context),
            Statement::Expression(expression) => {
                expression.emit(context)?;
                Ok(())
            },
            Statement::Continue => {
                if context.loops.len() > 0 {
                    let block = context.loops[context.loops.len() - 1].continue_block;
                    context.record(Operation::Branch { block });
                    Ok(())
                } else {
                    Err(Error::OutsideLoop)
                }
            },
            Statement::Break => {
                if context.loops.len() > 0 {
                    let block = context.loops[context.loops.len() - 1].join_block;
                    context.record(Operation::Branch { block });
                    Ok(())
                } else {
                    Err(Error::OutsideLoop)
                }
            },
            Statement::Leave => {
                match context.function {
                    Some(function) => {
                        if function < context.functions.len() {
                            let block = context.functions[function].return_block;
                            context.record(Operation::Branch { block });
                            Ok(())
                        } else {
                            Err(Error::OutsideFunction)
                        }
                    },
                    None => Err(Error::OutsideFunction),
                }
            },
        }
    }
}

fn local_from(context: &mut Context, statements: &Vec<Statement>, from: usize) -> (result: Result<
    (),
    Error,
>)
    ensures
        emitted(
            final(context)@,
            emit_local(old(context)@, statement_views(statements@), from as int),
            result,
        ),
    decreases statements, statements.len() - from,
{
    if from < statements.len() && !context.is_terminated() {
        statements[from].emit(context)?;
        local_from(context, statements, from + 1)
    } else {
        Ok(())
    }
}

fn declare_from(context: &mut Context, statements: &Vec<Statement>, from: usize)
    ensures
        final(context)@ == declare_functions(
            old(context)@,
            statement_views(statements@),
            from as int,
        ),
    decreases statements.len() - from,
{
    if from < statements.len() {
        match &statements[from] {
            Statement::FunctionDefinition(definition) => {
                definition.declare(context);
            },
            _ => {},
        }
        declare_from(context, statements, from + 1);
    }
}

fn functions_from(context: &mut Context, statements: &Vec<Statement>, from: usize) -> (result:
    Result<(), Error>)
    ensures
        emitted(
            final(context)@,
            emit_functions(old(context)@, statement_views(statements@), from as int),
            result,
        ),
    decreases statements, statements.len() - from,
{
    if from < statements.len() {
        match &statements[from] {
            Statement::FunctionDefinition(definition) => {
                definition.emit(context)?;
            },
            _ => {},
        }
        functions_from(context, statements, from + 1)
    } else {
        Ok(())
    }
}

impl FunctionDefinition {
    /// Declares the function.
    pub fn declare(&self, context: &mut Context)
        ensures
            final(context)@ == crate::generator::context::declare(
                old(context)@,
                self.name@,
                self.arguments@.len() as usize,
                self.result@.len() as usize,
                false,
                None,
            ),
    {
        context.add_function(
            self.name.clone(),
            self.arguments.len(),
            self.result.len(),
            false,
            None,
        );
    }

    /// Emits the function, which was declared: see [`emit_function`].
    pub fn emit(&self, context: &mut Context) -> (result: Result<(), Error>)
        ensures
            emitted(final(context)@, emit_function(old(context)@, self@), result),
        decreases self, 0nat,
    {
        let function = match context.find_function(&self.name) {
            Some(function) => function,
            None => {
                return Err(Error::UnknownName { name: self.name.clone() });
            },
        };
        let entry_block = context.functions[function].entry_block;
        let return_block = context.functions[function].return_block;
        context.set_function(function);
        context.set_basic_block(entry_block);
        let mut variables: Vec<crate::generator::context::Variable> = Vec::new();
        let mut loops: Vec<Loop> = Vec::new();
        core::mem::swap(&mut context.variables, &mut variables);
        core::mem::swap(&mut context.loops, &mut loops);
        assert(context@.variables =~= Seq::empty());
        bind_arguments_from(context, &self.arguments, 0);
        reserve_from(context, &self.result, 0);
        self.body.emit(context)?;
        branch_to(context, return_block);
        context.set_basic_block(return_block);
        let mut values: Vec<usize> = Vec::new();
        load_results_from(context, &self.result, 0, &mut values)?;
        assert(Seq::<usize>::empty() + values@ =~= values@);
        context.record(Operation::Return { values });
        context.variables = variables;
        context.loops = loops;
        Ok(())
    }
}

impl Block {
    /// Emits the block: see [`emit_block`].
    pub fn emit(&self, context: &mut Context) -> (result: Result<(), Error>)
        ensures
            emitted(final(context)@, emit_block(old(context)@, self@), result),
        decreases self, 0nat,
    {
        proof {
            lemma_block_view(*self);
        }
        let function = context.function;
        let block = context.block;
        declare_from(context, &self.statements, 0);
        functions_from(context, &self.statements, 0)?;
        restore_to(context, function, block);
        local_from(context, &self.statements, 0)
    }

    /// Emits the block, which is used up: see [`emit_block`].
    pub fn into_llvm(self, context: &mut Context) -> (result: Result<(), Error>)
        ensures
            emitted(final(context)@, emit_block(old(context)@, self@), result),
    {
        self.emit(context)
    }

    /// Emits the statements of the block where the emission stands, without
    /// the functions that the block defines: see [`emit_local`].
    pub fn into_llvm_local(self, context: &mut Context) -> (result: Result<(), Error>)
        ensures
            emitted(final(context)@, emit_local(old(context)@, self@.statements, 0), result),
    {
        proof {
            lemma_block_view(self);
        }
        local_from(context, &self.statements, 0)
    }

    /// Emits the block of an object of the given name: see [`emit_object`].
    pub fn into_llvm_object(self, context: &mut Context, object: &str) -> (result: Result<
        (),
        Error,
    >)
        ensures
            emitted(final(context)@, emit_object(old(context)@, self@, object@), result),
    {
        proof {
            lemma_block_view(self);
        }
        declare_from(context, &self.statements, 0);
        functions_from(context, &self.statements, 0)?;
        object_blocks_from(context, &self.statements, 0, object)
    }
}

fn object_blocks_from(
    context: &mut Context,
    statements: &Vec<Statement>,
    from: usize,
    object: &str,
) -> (result: Result<(), Error>)
    ensures
        emitted(
            final(context)@,
            emit_object_blocks(
                old(context)@,
                statement_views(statements@),
                from as int,
                object@,
            ),
            result,
        ),
    decreases statements.len() - from,
{
    if from < statements.len() {
        match &statements[from] {
            Statement::Block(block) => {
                proof {
                    lemma_block_view(*block);
                }
                let entry_block = context.blocks.len();
                let function = context.add_function(object.to_owned(), 0, 1, false, None);
                let return_block = context.blocks.len() - 1;
                context.set_function(function);
                context.set_basic_block(entry_block);
                let pointer = context.record(
                    Operation::Alloca { kind: Type::Integer(BITLENGTH_FIELD), label: Label::Result },
                );
                local_from(context, &block.statements, 0)?;
                context.set_basic_block(return_block);
                let value = context.record(Operation::Load { pointer, label: Label::Anonymous });
                let mut values: Vec<usize> = Vec::new();
                values.push(value);
                assert(values@ =~= seq![value]);
                context.record(Operation::Return { values });
            },
            _ => {},
        }
        object_blocks_from(context, statements, from + 1, object)
    } else {
        Ok(())
    }
}

impl crate::yul::parser::ast::Object {
    /// Emits the object: see [`emit_object_tree`].
    pub fn into_llvm(self, context: &mut Context) -> (result: Result<(), Error>)
        ensures
            emitted(
                final(context)@,
                crate::yul::emit::model::emit_object_tree(old(context)@, self@),
                result,
            ),
        decreases self,
    {
        let crate::yul::parser::ast::Object { name, code, nested_object, dependencies } = self;
        code.block.into_llvm_object(context, name.as_str())?;
        match nested_object {
            Some(nested) => (*nested).into_llvm(context),
            None => Ok(()),
        }
    }
}

/// Reads a source that is one block, and emits it as the block of the
/// object `main`.
pub fn compile(input: &str) -> (result: Result<Context, Error>)
    ensures
        match crate::yul::parser::grammar::block(input@, 0, None) {
            Err(error) => result is Err && result->Err_0@ == error,
            Ok((block, _)) => match emit_object(
                crate::generator::context::fresh(),
                block,
                "main"@,
            ) {
                Ok(context) => result is Ok && result->Ok_0@ == context,
                Err(error) => result is Err && result->Err_0@ == error,
            },
        },
{
    let block = crate::yul::parser::parse(input)?;
    let mut context = Context::new();
    block.into_llvm_object(&mut context, "main")?;
    Ok(context)
}

} // verus!
