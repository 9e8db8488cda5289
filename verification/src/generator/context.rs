//! The record of an emission: the operations that were asked for, and what
//! the emission has to know of them to go on.

use vstd::prelude::*;

use crate::generator::operation::terminates;
use crate::generator::operation::Label;
use crate::generator::operation::LabelView;
use crate::generator::operation::Operation;
use crate::generator::operation::OperationView;

verus! {

/// A function that was declared.
#[derive(Debug, PartialEq, Eq)]
pub struct Declaration {
    /// The name.
    pub name: String,
    /// The number of arguments.
    pub arguments: usize,
    /// The number of results.
    pub results: usize,
    /// The block that the function starts in.
    pub entry_block: usize,
    /// The block that the function returns from.
    pub return_block: usize,
}

/// The mathematical value of a [`Declaration`].
pub ghost struct DeclarationView {
    pub name: Seq<char>,
    pub arguments: usize,
    pub results: usize,
    pub entry_block: usize,
    pub return_block: usize,
}

impl View for Declaration {
    type V = DeclarationView;

    open spec fn view(&self) -> DeclarationView {
        DeclarationView {
            name: self.name@,
            arguments: self.arguments,
            results: self.results,
            entry_block: self.entry_block,
            return_block: self.return_block,
        }
    }
}

/// A variable of the source with the slot that holds it.
#[derive(Debug, PartialEq, Eq)]
pub struct Variable {
    /// The name.
    pub name: String,
    /// The value that is the address of the slot.
    pub pointer: usize,
}

/// The mathematical value of a [`Variable`].
pub ghost struct VariableView {
    pub name: Seq<char>,
    pub pointer: usize,
}

impl View for Variable {
    type V = VariableView;

    open spec fn view(&self) -> VariableView {
        VariableView { name: self.name@, pointer: self.pointer }
    }
}

/// The blocks of a loop that `continue` and `break` lead to.
#[derive(Debug, Clone, Copy, PartialEq, Eq, Structural)]
pub struct Loop {
    /// Where `continue` leads.
    pub continue_block: usize,
    /// Where `break` leads.
    pub join_block: usize,
}

/// The record of an emission.
#[derive(Debug, PartialEq, Eq)]
pub struct Context {
    /// The operations that were asked for, in order. An operation that gives
    /// a value is meant by its index here.
    pub operations: Vec<Operation>,
    /// For each block, whether it has its terminator.
    pub blocks: Vec<bool>,
    /// The current block.
    pub block: Option<usize>,
    /// Whether the emission has reached a terminator where it stands: what
    /// the current block says of itself; and, without a current block among
    /// the blocks, whether a terminator was recorded since it was set.
    pub terminated: bool,
    /// The functions that were declared.
    pub functions: Vec<Declaration>,
    /// The current function.
    pub function: Option<usize>,
    /// The variables in reach, the innermost last.
    pub variables: Vec<Variable>,
    /// The loops that the emission stands in, the innermost last.
    pub loops: Vec<Loop>,
}

/// The mathematical value of a [`Context`].
pub ghost struct ContextView {
    pub operations: Seq<OperationView>,
    pub blocks: Seq<bool>,
    pub block: Option<usize>,
    pub terminated: bool,
    pub functions: Seq<DeclarationView>,
    pub function: Option<usize>,
    pub variables: Seq<VariableView>,
    pub loops: Seq<Loop>,
}

impl View for Context {
    type V = ContextView;

    open spec fn view(&self) -> ContextView {
        ContextView {
            operations: self.operations@.map_values(|operation: Operation| operation@),
            blocks: self.blocks@,
            block: self.block,
            terminated: self.terminated,
            functions: self.functions@.map_values(|declaration: Declaration| declaration@),
            function: self.function,
            variables: self.variables@.map_values(|variable: Variable| variable@),
            loops: self.loops@,
        }
    }
}

/// The record before anything was asked for.
pub open spec fn fresh() -> ContextView {
    ContextView {
        operations: Seq::empty(),
        blocks: Seq::empty(),
        block: None,
        terminated: false,
        functions: Seq::empty(),
        function: None,
        variables: Seq::empty(),
        loops: Seq::empty(),
    }
}

/// The number that the next operation gets.
pub open spec fn next(context: ContextView) -> usize {
    context.operations.len() as usize
}

/// Whether the emission has reached a terminator where it stands, so that
/// what follows in the source cannot be reached.
pub open spec fn terminated(context: ContextView) -> bool {
    context.terminated
}

/// Whether the block has its terminator: a block that is not among the
/// blocks has none.
pub open spec fn block_terminated(blocks: Seq<bool>, block: usize) -> bool {
    block < blocks.len() && blocks[block as int]
}

/// The record with one more operation. A terminator ends the current
/// block, and the emission has reached a terminator then, with or without a
/// current block.
pub open spec fn record(context: ContextView, operation: OperationView) -> ContextView {
    ContextView {
        operations: context.operations.push(operation),
        blocks: if terminates(operation) && context.block is Some && context.block->0
            < context.blocks.len() {
            context.blocks.update(context.block->0 as int, true)
        } else {
            context.blocks
        },
        terminated: context.terminated || terminates(operation),
        ..context
    }
}

/// The record with one more block. The block gets the next block number.
pub open spec fn append(context: ContextView, label: LabelView) -> ContextView {
    ContextView {
        blocks: context.blocks.push(false),
        ..record(context, OperationView::AppendBasicBlock { label })
    }
}

/// The record with another current block: the emission has reached a
/// terminator there if that block has its terminator.
pub open spec fn position(context: ContextView, block: usize) -> ContextView {
    ContextView {
        block: Some(block),
        terminated: block_terminated(context.blocks, block),
        ..record(context, OperationView::SetBasicBlock { block })
    }
}

/// The record with another current function.
pub open spec fn enter(context: ContextView, function: usize) -> ContextView {
    ContextView {
        function: Some(function),
        ..record(context, OperationView::SetFunction { function })
    }
}

/// The record with one more function. The function gets the next function
/// number, and its entry block and its return block get the next two block
/// numbers.
pub open spec fn declare(
    context: ContextView,
    name: Seq<char>,
    arguments: usize,
    results: usize,
    private: bool,
    stack_size: Option<usize>,
) -> ContextView {
    ContextView {
        blocks: context.blocks.push(false).push(false),
        functions: context.functions.push(
            DeclarationView {
                name,
                arguments,
                results,
                entry_block: context.blocks.len() as usize,
                return_block: (context.blocks.len() + 1) as usize,
            },
        ),
        ..record(
            context,
            OperationView::AddFunction { name, parameters: arguments, results, private, stack_size },
        )
    }
}

/// In a coherent record the current block, if there is one, is among the
/// blocks, and the emission has reached a terminator exactly where that
/// block has its terminator.
pub open spec fn coherent(context: ContextView) -> bool {
    context.block is Some ==> context.block->0 < context.blocks.len() && context.terminated
        == context.blocks[context.block->0 as int]
}

/// The fresh record is coherent, and every step of an emission that stays
/// among the blocks keeps a record coherent.
pub proof fn lemma_coherent(
    context: ContextView,
    operation: OperationView,
    label: LabelView,
    block: usize,
    function: usize,
    name: Seq<char>,
)
    ensures
        coherent(fresh()),
        block < context.blocks.len() ==> coherent(position(context, block)),
        coherent(context) ==> coherent(record(context, operation)) && coherent(
            append(context, label),
        ) && coherent(enter(context, function)) && coherent(
            declare(context, name, 0, 0, false, None),
        ) && coherent(bind(context, name, block)),
{
}

/// The record with one more variable in reach.
pub open spec fn bind(context: ContextView, name: Seq<char>, pointer: usize) -> ContextView {
    ContextView { variables: context.variables.push(VariableView { name, pointer }), ..context }
}

/// The slot of the innermost variable of the name.
pub open spec fn lookup(variables: Seq<VariableView>, name: Seq<char>) -> Option<usize>
    decreases variables.len(),
{
    if variables.len() == 0 {
        None
    } else if variables.last().name == name {
        Some(variables.last().pointer)
    } else {
        lookup(variables.drop_last(), name)
    }
}

/// The number of the function of the name that was declared last.
pub open spec fn find(functions: Seq<DeclarationView>, name: Seq<char>) -> Option<usize>
    decreases functions.len(),
{
    if functions.len() == 0 {
        None
    } else if functions.last().name == name {
        Some((functions.len() - 1) as usize)
    } else {
        find(functions.drop_last(), name)
    }
}

impl Context {
    /// The record before anything was asked for.
    pub fn new() -> (context: Context)
        ensures
            context@ == fresh(),
    {
        let context = Context {
            operations: Vec::new(),
            blocks: Vec::new(),
            block: None,
            terminated: false,
            functions: Vec::new(),
            function: None,
            variables: Vec::new(),
            loops: Vec::new(),
        };
        assert(context@.operations =~= Seq::<OperationView>::empty());
        assert(context@.functions =~= Seq::<DeclarationView>::empty());
        assert(context@.variables =~= Seq::<VariableView>::empty());
        context
    }

    /// Records an operation. Returns its number.
    pub fn record(&mut self, operation: Operation) -> (index: usize)
        ensures
            final(self)@ == record(old(self)@, operation@),
            index == next(old(self)@),
    {
        let index = self.operations.len();
        if operation.is_terminator() {
            match self.block {
                Some(block) => {
                    if block < self.blocks.len() {
                        self.blocks.set(block, true);
                    }
                },
                None => {},
            }
            self.terminated = true;
        }
        self.operations.push(operation);
        assert(self@.operations =~= old(self)@.operations.push(operation@));
        index
    }

    /// Appends a block. Returns its number.
    pub fn append_basic_block(&mut self, label: Label) -> (block: usize)
        ensures
            final(self)@ == append(old(self)@, label@),
            block == old(self)@.blocks.len(),
    {
        let block = self.blocks.len();
        self.record(Operation::AppendBasicBlock { label });
        self.blocks.push(false);
        block
    }

    /// Makes a block the current one.
    pub fn set_basic_block(&mut self, block: usize)
        ensures
            final(self)@ == position(old(self)@, block),
    {
        self.record(Operation::SetBasicBlock { block });
        self.block = Some(block);
        self.terminated = block < self.blocks.len() && self.blocks[block];
    }

    /// Makes a function the current one.
    pub fn set_function(&mut self, function: usize)
        ensures
            final(self)@ == enter(old(self)@, function),
    {
        self.record(Operation::SetFunction { function });
        self.function = Some(function);
    }

    /// Declares a function. Returns its number.
    pub fn add_function(
        &mut self,
        name: String,
        arguments: usize,
        results: usize,
        private: bool,
        stack_size: Option<usize>,
    ) -> (function: usize)
        ensures
            final(self)@ == declare(old(self)@, name@, arguments, results, private, stack_size),
            function == old(self)@.functions.len(),
            final(self).blocks@.len() == old(self).blocks@.len() + 2,
            final(self).functions@.len() == old(self).functions@.len() + 1,
    {
        let function = self.functions.len();
        let entry_block = self.blocks.len();
        self.record(
            Operation::AddFunction {
                name: name.clone(),
                parameters: arguments,
                results,
                private,
                stack_size,
            },
        );
        self.blocks.push(false);
        let return_block = self.blocks.len();
        self.blocks.push(false);
        self.functions.push(Declaration { name, arguments, results, entry_block, return_block });
        assert(self@.functions =~= old(self)@.functions.push(
            DeclarationView { name: name@, arguments, results, entry_block, return_block },
        ));
        function
    }

    /// Brings a variable in reach.
    pub fn bind(&mut self, name: String, pointer: usize)
        ensures
            final(self)@ == bind(old(self)@, name@, pointer),
    {
        self.variables.push(Variable { name, pointer });
        assert(self@.variables =~= old(self)@.variables.push(
            VariableView { name: name@, pointer },
        ));
    }

    /// Whether the emission has reached a terminator where it stands.
    pub fn is_terminated(&self) -> (yes: bool)
        ensures
            yes == terminated(self@),
    {
        self.terminated
    }

    /// The slot of the innermost variable of the name.
    pub fn find_variable(&self, name: &String) -> (pointer: Option<usize>)
        ensures
            pointer == lookup(self@.variables, name@),
    {
        let ghost variables = self@.variables;
        let mut i: usize = self.variables.len();
        assert(variables.take(i as int) =~= variables);
        while i > 0
            invariant
                i <= self.variables.len(),
                variables == self@.variables,
                lookup(variables, name@) == lookup(variables.take(i as int), name@),
            decreases i,
        {
            i -= 1;
            assert(variables.take(i + 1).drop_last() =~= variables.take(i as int));
            assert(variables.take(i + 1).last() == self.variables@[i as int]@);
            if self.variables[i].name == *name {
                return Some(self.variables[i].pointer);
            }
        }
        None
    }

    /// The number of the function of the name that was declared last.
    pub fn find_function(&self, name: &String) -> (function: Option<usize>)
        ensures
            function == find(self@.functions, name@),
            function matches Some(index) ==> index < self@.functions.len(),
    {
        let ghost functions = self@.functions;
        let mut i: usize = self.functions.len();
        assert(functions.take(i as int) =~= functions);
        while i > 0
            invariant
                i <= self.functions.len(),
                functions == self@.functions,
                find(functions, name@) == find(functions.take(i as int), name@),
            decreases i,
        {
            i -= 1;
            assert(functions.take(i + 1).drop_last() =~= functions.take(i as int));
            assert(functions.take(i + 1).last() == self.functions@[i as int]@);
            if self.functions[i].name == *name {
                return Some(i);
            }
        }
        None
    }
}

} // verus!
