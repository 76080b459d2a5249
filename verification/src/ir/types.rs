//! The intermediate representation: modules of functions, functions made of
//! basic blocks, and a constant pool shared by a module.

use indexmap::IndexSet;
use vstd::prelude::*;

use crate::instruction::{Address, Instruction, InstructionModel};
use crate::value::{decimal_digits, push_decimal, Primitive, ValueModel};

verus! {

// ---------------------------------------------------------------------------
// Identifiers
// ---------------------------------------------------------------------------

/// The position of a constant in a module's constant pool.
#[derive(Debug, Clone, Copy, PartialEq, Eq, Structural, PartialOrd, Ord, Hash)]
pub struct ConstantId(usize);

/// The position of an instruction.
#[derive(Debug, Clone, Copy, PartialEq, Eq, Structural, PartialOrd, Ord, Hash)]
pub struct InstId(usize);

/// The position of a block in a module's block list.
#[derive(Debug, Clone, Copy, PartialEq, Eq, Structural, PartialOrd, Ord, Hash)]
pub struct BlockId(usize);

/// The position of a function in a module's function list.
#[derive(Debug, Clone, Copy, PartialEq, Eq, Structural, PartialOrd, Ord, Hash)]
pub struct FunctionId(usize);

impl View for ConstantId {
    type V = usize;

    closed spec fn view(&self) -> usize {
        self.0
    }
}

impl View for InstId {
    type V = usize;

    closed spec fn view(&self) -> usize {
        self.0
    }
}

impl View for BlockId {
    type V = usize;

    closed spec fn view(&self) -> usize {
        self.0
    }
}

impl View for FunctionId {
    type V = usize;

    closed spec fn view(&self) -> usize {
        self.0
    }
}

impl ConstantId {
    pub fn new(id: usize) -> (r: Self)
        ensures
            r@ == id,
    {
        ConstantId(id)
    }

    pub fn id(&self) -> (r: usize)
        ensures
            r == self@,
    {
        self.0
    }

    pub fn as_usize(&self) -> (r: usize)
        ensures
            r == self@,
    {
        self.0
    }
}

impl InstId {
    pub fn new(id: usize) -> (r: Self)
        ensures
            r@ == id,
    {
        InstId(id)
    }

    pub fn id(&self) -> (r: usize)
        ensures
            r == self@,
    {
        self.0
    }

    pub fn as_usize(&self) -> (r: usize)
        ensures
            r == self@,
    {
        self.0
    }
}

impl BlockId {
    pub fn new(id: usize) -> (r: Self)
        ensures
            r@ == id,
    {
        BlockId(id)
    }

    pub fn id(&self) -> (r: usize)
        ensures
            r == self@,
    {
        self.0
    }

    pub fn as_usize(&self) -> (r: usize)
        ensures
            r == self@,
    {
        self.0
    }
}

impl FunctionId {
    pub fn new(id: usize) -> (r: Self)
        ensures
            r@ == id,
    {
        FunctionId(id)
    }

    pub fn id(&self) -> (r: usize)
        ensures
            r == self@,
    {
        self.0
    }

    pub fn as_usize(&self) -> (r: usize)
        ensures
            r == self@,
    {
        self.0
    }
}

// ---------------------------------------------------------------------------
// Names
// ---------------------------------------------------------------------------

/// The name of a block, function or parameter; it may be absent.
#[derive(Debug, Clone, Hash, PartialEq, Eq)]
pub struct Name(Option<String>);

impl View for Name {
    type V = Option<Seq<char>>;

    closed spec fn view(&self) -> Option<Seq<char>> {
        match self.0 {
            Some(s) => Some(s@),
            None => None,
        }
    }
}

impl Name {
    /// A name with the given text.
    pub fn new(name: &str) -> (r: Self)
        ensures
            r@ == Some(name@),
    {
        Name(Some(name.to_owned()))
    }

    /// The absent name.
    pub fn anonymous() -> (r: Self)
        ensures
            r@ is None,
    {
        Name(None)
    }

    pub fn is_anonymous(&self) -> (r: bool)
        ensures
            r == (self@ is None),
    {
        self.0.is_none()
    }

    /// The text that shows the name: its own text, or `<anonymous>`.
    pub fn to_display_string(&self) -> (r: String)
        ensures
            r@ == match self@ {
                Some(text) => text,
                None => "<anonymous>"@,
            },
    {
        match &self.0 {
            Some(s) => s.clone(),
            None => "<anonymous>".to_owned(),
        }
    }
}

impl From<Option<String>> for Name {
    fn from(value: Option<String>) -> (r: Self) {
        Name(value)
    }
}

impl vstd::std_specs::convert::FromSpecImpl<Option<String>> for Name {
    open spec fn obeys_from_spec() -> bool {
        true
    }

    closed spec fn from_spec(value: Option<String>) -> Name {
        Name(value)
    }
}

impl From<String> for Name {
    fn from(value: String) -> (r: Self) {
        Name(Some(value))
    }
}

impl vstd::std_specs::convert::FromSpecImpl<String> for Name {
    open spec fn obeys_from_spec() -> bool {
        true
    }

    closed spec fn from_spec(value: String) -> Name {
        Name(Some(value))
    }
}

impl<'a> From<&'a str> for Name {
    fn from(value: &'a str) -> (r: Self)
        ensures
            r@ == Some(value@),
    {
        Self::new(value)
    }
}

/// A name made from text is stated by its view in `from`'s own `ensures`: no
/// `String` is singled out as a spec value by its text alone, so this impl does
/// not claim `from` returns one fixed value.
impl<'a> vstd::std_specs::convert::FromSpecImpl<&'a str> for Name {
    open spec fn obeys_from_spec() -> bool {
        false
    }

    closed spec fn from_spec(value: &'a str) -> Name {
        choose|n: Name| n@ == Some(value@)
    }
}

/// A name made from a string has that string's text; one made from an optional
/// string is absent exactly when the string is.
pub proof fn lemma_name_from_text(text: String, maybe: Option<String>)
    ensures
        <Name as vstd::std_specs::convert::FromSpec<String>>::from_spec(text)@ == Some(text@),
        <Name as vstd::std_specs::convert::FromSpec<Option<String>>>::from_spec(maybe)@ == match maybe {
            Some(s) => Some(s@),
            None => None,
        },
{
}

impl Default for Name {
    fn default() -> (r: Self)
        ensures
            r@ is None,
    {
        Self::anonymous()
    }
}

// ---------------------------------------------------------------------------
// Blocks, flow graphs and functions
// ---------------------------------------------------------------------------

/// A basic block: a labelled list of instructions.
#[derive(Debug, Clone)]
pub struct Block {
    pub id: BlockId,
    pub label: Name,
    pub instructions: Vec<Instruction>,
}

impl Block {
    /// An empty block.
    pub fn new(id: BlockId, label: Name) -> (r: Self)
        ensures
            r.id == id,
            r.label == label,
            r.instructions@ == Seq::<Instruction>::empty(),
    {
        Self { id, label, instructions: Vec::new() }
    }

    /// Appends an instruction to the block.
    pub fn emit(&mut self, instruction: Instruction)
        ensures
            final(self).instructions@ == old(self).instructions@.push(instruction),
            final(self).id == old(self).id,
            final(self).label == old(self).label,
    {
        self.instructions.push(instruction);
    }
}

/// The blocks of a function, in the order they were added, and the block that
/// code is being emitted to.
#[derive(Debug, Clone)]
pub struct FlowGraph {
    blocks: Vec<BlockId>,
    current_block: Option<BlockId>,
}

/// The mathematical form of a [`FlowGraph`].
pub struct FlowGraphModel {
    pub blocks: Seq<BlockId>,
    pub current_block: Option<BlockId>,
}

impl View for FlowGraph {
    type V = FlowGraphModel;

    closed spec fn view(&self) -> FlowGraphModel {
        FlowGraphModel { blocks: self.blocks@, current_block: self.current_block }
    }
}

/// The entry block of a flow graph: the first block added.
pub open spec fn flow_graph_entry(g: FlowGraphModel) -> Option<BlockId> {
    if g.blocks.len() > 0 {
        Some(g.blocks[0])
    } else {
        None
    }
}

impl FlowGraph {
    /// A flow graph with no blocks and no current block.
    pub fn new() -> (r: Self)
        ensures
            r@.blocks == Seq::<BlockId>::empty(),
            r@.current_block is None,
    {
        Self { blocks: Vec::new(), current_block: None }
    }

    /// The first block added, if any.
    pub fn entry(&self) -> (r: Option<BlockId>)
        ensures
            r == flow_graph_entry(self@),
    {
        if self.blocks.len() > 0 {
            Some(self.blocks[0])
        } else {
            None
        }
    }

    /// Makes `block` the block that code goes to.
    pub fn switch_to_block(&mut self, block: BlockId)
        ensures
            final(self)@.current_block == Some(block),
            final(self)@.blocks == old(self)@.blocks,
    {
        self.current_block = Some(block);
    }

    /// The blocks, in the order they were added.
    pub fn block_ids(&self) -> (r: &Vec<BlockId>)
        ensures
            r@ == self@.blocks,
    {
        &self.blocks
    }

    pub fn current_block(&self) -> (r: Option<BlockId>)
        ensures
            r == self@.current_block,
    {
        self.current_block
    }

    /// Adds a block after the others.
    pub(crate) fn add_block(&mut self, blk_id: BlockId)
        ensures
            final(self)@.blocks == old(self)@.blocks.push(blk_id),
            final(self)@.current_block == old(self)@.current_block,
    {
        self.blocks.push(blk_id)
    }
}

impl Default for FlowGraph {
    fn default() -> (r: Self)
        ensures
            r@.blocks == Seq::<BlockId>::empty(),
            r@.current_block is None,
    {
        Self::new()
    }
}

/// A parameter of a function.
#[derive(Debug, Clone)]
pub struct FuncParam {
    pub name: Name,
}

impl FuncParam {
    pub fn new(name: Name) -> (r: Self)
        ensures
            r.name == name,
    {
        Self { name }
    }
}

/// The name and parameters of a function.
#[derive(Debug, Clone)]
pub struct FuncSignature {
    pub name: Name,
    pub params: Vec<FuncParam>,
}

impl FuncSignature {
    pub fn new(name: Name, params: Vec<FuncParam>) -> (r: Self)
        ensures
            r.name == name,
            r.params == params,
    {
        Self { name, params }
    }
}

/// A function of a module: its identity, signature and blocks.
#[derive(Debug, Clone)]
pub struct Function {
    pub id: FunctionId,
    pub signature: FuncSignature,
    pub flow_graph: FlowGraph,
}

impl Function {
    /// A function with no blocks yet.
    pub fn new(id: FunctionId, signature: FuncSignature) -> (r: Self)
        ensures
            r.id == id,
            r.signature == signature,
            r.flow_graph@.blocks == Seq::<BlockId>::empty(),
            r.flow_graph@.current_block is None,
    {
        Self { id, signature, flow_graph: FlowGraph::default() }
    }

    /// The function's first block, if it has one.
    pub fn entry(&self) -> (r: Option<BlockId>)
        ensures
            r == flow_graph_entry(self.flow_graph@),
    {
        self.flow_graph.entry()
    }
}

/// What is gathered while a function's body is built.
pub struct FunctionContext {
    pub values: Vec<Address>,
    pub flow_graph: FlowGraph,
}

impl FunctionContext {
    /// A context with no values and an empty flow graph.
    pub fn new() -> (r: Self)
        ensures
            r.values@ == Seq::<Address>::empty(),
            r.flow_graph@.blocks == Seq::<BlockId>::empty(),
            r.flow_graph@.current_block is None,
    {
        Self { values: Vec::new(), flow_graph: FlowGraph::new() }
    }
}

impl Default for FunctionContext {
    fn default() -> (r: Self)
        ensures
            r.values@ == Seq::<Address>::empty(),
            r.flow_graph@.blocks == Seq::<BlockId>::empty(),
            r.flow_graph@.current_block is None,
    {
        Self::new()
    }
}

// ---------------------------------------------------------------------------
// The constant pool, held in an `indexmap::IndexSet`
// ---------------------------------------------------------------------------

#[verifier::external_type_specification]
#[verifier::external_body]
#[verifier::reject_recursive_types(T)]
#[verifier::reject_recursive_types(S)]
pub struct ExIndexSet<T, S>(IndexSet<T, S>);

/// The constants that a pool holds, in insertion order, each taken by the
/// value it denotes.
pub uninterp spec fn pool_contents(pool: IndexSet<Primitive>) -> Seq<ValueModel>;

/// `IndexSet::new`: a set that holds nothing.
#[verifier::external_body]
fn pool_new() -> (r: IndexSet<Primitive>)
    ensures
        pool_contents(r) == Seq::<ValueModel>::empty(),
{
    IndexSet::new()
}

/// `IndexSet::len`: the number of items held.
#[verifier::external_body]
fn pool_len(pool: &IndexSet<Primitive>) -> (r: usize)
    ensures
        r == pool_contents(*pool).len(),
{
    pool.len()
}

/// `IndexSet::get_index_of`: the position of an item equal to `value`, or
/// `None` where no item is equal to it. `Primitive`'s derived equality
/// compares the variant and its contents, strings by their characters, which
/// is equality of what two constants denote; its hash feeds the contents, so
/// equal constants hash alike.
#[verifier::external_body]
fn pool_get_index_of(pool: &IndexSet<Primitive>, value: &Primitive) -> (r: Option<usize>)
    ensures
        match r {
            Some(i) => i < pool_contents(*pool).len() && pool_contents(*pool)[i as int] == value@,
            None => !pool_contents(*pool).contains(value@),
        },
{
    pool.get_index_of(value)
}

/// `IndexSet::insert`: appends `value` and returns `true` where no equal item
/// is held; otherwise leaves the set as it was and returns `false`.
#[verifier::external_body]
fn pool_insert(pool: &mut IndexSet<Primitive>, value: Primitive) -> (r: bool)
    ensures
        r == !pool_contents(*old(pool)).contains(value@),
        pool_contents(*final(pool)) == if r {
            pool_contents(*old(pool)).push(value@)
        } else {
            pool_contents(*old(pool))
        },
{
    pool.insert(value)
}

/// `IndexSet::get_index`: the item at position `index`, or `None` past the end.
#[verifier::external_body]
fn pool_get_index(pool: &IndexSet<Primitive>, index: usize) -> (r: Option<&Primitive>)
    ensures
        match r {
            Some(p) => index < pool_contents(*pool).len() && p@ == pool_contents(*pool)[index as int],
            None => index >= pool_contents(*pool).len(),
        },
{
    pool.get_index(index)
}

/// The text that `Primitive`'s derived `Debug` gives for a constant.
pub uninterp spec fn constant_debug_text(constant: ValueModel) -> Seq<char>;

/// `format!("{:?}", ..)` on a constant: its derived `Debug` text, which depends
/// on the constant alone.
#[verifier::external_body]
fn constant_debug(constant: &Primitive) -> (r: String)
    ensures
        r@ == constant_debug_text(constant@),
{
    format!("{:?}", constant)
}

/// The text that `Instruction`'s derived `Debug` gives for an instruction.
pub uninterp spec fn instruction_debug_text(instruction: InstructionModel) -> Seq<char>;

/// `format!("{:?}", ..)` on an instruction: its derived `Debug` text, which
/// depends on the instruction alone.
#[verifier::external_body]
fn instruction_debug(instruction: &Instruction) -> (r: String)
    ensures
        r@ == instruction_debug_text(instruction@),
{
    format!("{:?}", instruction)
}

// ---------------------------------------------------------------------------
// Modules
// ---------------------------------------------------------------------------

/// A compilation unit: a constant pool, functions, blocks and an entry function.
pub struct Module {
    pub constants: IndexSet<Primitive>,
    pub functions: Vec<Function>,
    pub entry: Option<FunctionId>,
    pub blocks: Vec<Block>,
}

impl Module {
    /// The constants of the module, in the order they were first made.
    pub open spec fn constant_values(&self) -> Seq<ValueModel> {
        pool_contents(self.constants)
    }

    /// What every module built by these methods keeps: no constant is held
    /// twice, and each function and block sits at the position its id names.
    pub open spec fn well_formed(&self) -> bool {
        &&& self.constant_values().no_duplicates()
        &&& forall|i: int| 0 <= i < self.functions@.len() ==> (#[trigger] self.functions@[i]).id@ == i
        &&& forall|i: int| 0 <= i < self.blocks@.len() ==> (#[trigger] self.blocks@[i]).id@ == i
    }

    /// An empty module: no constants, functions or blocks, and no entry.
    pub fn new() -> (r: Self)
        ensures
            r.constant_values() == Seq::<ValueModel>::empty(),
            r.functions@ == Seq::<Function>::empty(),
            r.blocks@ == Seq::<Block>::empty(),
            r.entry is None,
            r.well_formed(),
    {
        Self { constants: pool_new(), functions: Vec::new(), entry: None, blocks: Vec::new() }
    }

    /// The function with the given id, if there is one.
    pub fn get_function(&self, id: FunctionId) -> (r: Option<&Function>)
        ensures
            r == if id@ < self.functions@.len() {
                Some(&self.functions@[id@ as int])
            } else {
                None
            },
    {
        let i = id.as_usize();
        if i < self.functions.len() {
            Some(&self.functions[i])
        } else {
            None
        }
    }

    /// The block with the given id, if there is one.
    pub fn get_block(&self, block: BlockId) -> (r: Option<&Block>)
        ensures
            r == if block@ < self.blocks@.len() {
                Some(&self.blocks@[block@ as int])
            } else {
                None
            },
    {
        let i = block.as_usize();
        if i < self.blocks.len() {
            Some(&self.blocks[i])
        } else {
            None
        }
    }

    /// A fresh context for building a function of this module.
    pub fn make_context(&self) -> (r: FunctionContext)
        ensures
            r.values@ == Seq::<Address>::empty(),
            r.flow_graph@.blocks == Seq::<BlockId>::empty(),
            r.flow_graph@.current_block is None,
    {
        FunctionContext::new()
    }

    /// The id of `value` in the constant pool, adding it at the end where the
    /// pool does not hold it yet.
    pub fn make_constant(&mut self, value: Primitive) -> (r: ConstantId)
        ensures
            intern(old(self).constant_values(), value@, final(self).constant_values(), r@),
            final(self).functions == old(self).functions,
            final(self).blocks == old(self).blocks,
            final(self).entry == old(self).entry,
            old(self).well_formed() ==> final(self).well_formed(),
    {
        match pool_get_index_of(&self.constants, &value) {
            Some(index) => ConstantId::new(index),
            None => {
                let id = ConstantId::new(pool_len(&self.constants));
                let ghost before = self.constant_values();
                let _ = pool_insert(&mut self.constants, value);
                proof {
                    if before.no_duplicates() {
                        assert forall|i: int, j: int|
                            0 <= i < self.constant_values().len() && 0 <= j
                                < self.constant_values().len() && i != j implies self.constant_values()[i]
                            != self.constant_values()[j] by {
                            if i < before.len() && j < before.len() {
                            } else if i < before.len() {
                                assert(before.contains(before[i]));
                            } else {
                                assert(before.contains(before[j]));
                            }
                        }
                    }
                }
                id
            },
        }
    }

    /// Adds a function with the given signature and no blocks; its id is its
    /// position in the function list.
    pub fn declare_function(&mut self, signature: FuncSignature) -> (r: FunctionId)
        requires
            old(self).functions@.len() < usize::MAX,
        ensures
            r@ == old(self).functions@.len(),
            final(self).functions@.len() == old(self).functions@.len() + 1,
            final(self).functions@.drop_last() == old(self).functions@,
            final(self).functions@.last().id == r,
            final(self).functions@.last().signature == signature,
            final(self).functions@.last().flow_graph@.blocks == Seq::<BlockId>::empty(),
            final(self).functions@.last().flow_graph@.current_block is None,
            final(self).constant_values() == old(self).constant_values(),
            final(self).blocks == old(self).blocks,
            final(self).entry == old(self).entry,
            old(self).well_formed() ==> final(self).well_formed(),
    {
        let id = FunctionId::new(self.functions.len());
        self.functions.push(Function::new(id, signature));
        assert(self.functions@.drop_last() =~= old(self).functions@);
        id
    }

    /// Gives the function `id` the flow graph built in `context`.
    pub fn define_function(&mut self, id: FunctionId, context: FunctionContext)
        requires
            id@ < old(self).functions@.len(),
        ensures
            final(self).functions@.len() == old(self).functions@.len(),
            forall|i: int|
                0 <= i < old(self).functions@.len() && i != id@ ==> final(self).functions@[i]
                    == old(self).functions@[i],
            final(self).functions@[id@ as int].id == old(self).functions@[id@ as int].id,
            final(self).functions@[id@ as int].signature == old(self).functions@[id@ as int].signature,
            final(self).functions@[id@ as int].flow_graph == context.flow_graph,
            final(self).constant_values() == old(self).constant_values(),
            final(self).blocks == old(self).blocks,
            final(self).entry == old(self).entry,
            old(self).well_formed() ==> final(self).well_formed(),
    {
        let FunctionContext { flow_graph, .. } = context;
        let i = id.as_usize();
        self.functions[i].flow_graph = flow_graph;
    }

    /// Makes `id` the module's entry function.
    pub fn set_entry(&mut self, id: FunctionId)
        ensures
            final(self).entry == Some(id),
            final(self).constant_values() == old(self).constant_values(),
            final(self).functions == old(self).functions,
            final(self).blocks == old(self).blocks,
            old(self).well_formed() ==> final(self).well_formed(),
    {
        self.entry = Some(id);
    }

    /// Appends an instruction to the block `block`.
    pub fn emit(&mut self, block: BlockId, inst: Instruction)
        requires
            block@ < old(self).blocks@.len(),
        ensures
            final(self).blocks@.len() == old(self).blocks@.len(),
            forall|i: int|
                0 <= i < old(self).blocks@.len() && i != block@ ==> final(self).blocks@[i]
                    == old(self).blocks@[i],
            final(self).blocks@[block@ as int].instructions@ == old(
                self,
            ).blocks@[block@ as int].instructions@.push(inst),
            final(self).blocks@[block@ as int].id == old(self).blocks@[block@ as int].id,
            final(self).blocks@[block@ as int].label == old(self).blocks@[block@ as int].label,
            final(self).constant_values() == old(self).constant_values(),
            final(self).functions == old(self).functions,
            final(self).entry == old(self).entry,
            old(self).well_formed() ==> final(self).well_formed(),
    {
        let i = block.as_usize();
        self.blocks[i].instructions.push(inst);
    }

    /// Adds an empty block with the given label; its id is its position in the
    /// block list.
    pub fn create_block(&mut self, label: Name) -> (r: BlockId)
        requires
            old(self).blocks@.len() < usize::MAX,
        ensures
            r@ == old(self).blocks@.len(),
            final(self).blocks@.len() == old(self).blocks@.len() + 1,
            final(self).blocks@.drop_last() == old(self).blocks@,
            final(self).blocks@.last().id == r,
            final(self).blocks@.last().label == label,
            final(self).blocks@.last().instructions@ == Seq::<Instruction>::empty(),
            final(self).constant_values() == old(self).constant_values(),
            final(self).functions == old(self).functions,
            final(self).entry == old(self).entry,
            old(self).well_formed() ==> final(self).well_formed(),
    {
        let id = BlockId::new(self.blocks.len());
        let block = Block::new(id, label);
        self.blocks.push(block);
        assert(self.blocks@.drop_last() =~= old(self).blocks@);
        id
    }
}

impl Default for Module {
    fn default() -> (r: Self)
        ensures
            r.constant_values() == Seq::<ValueModel>::empty(),
            r.functions@ == Seq::<Function>::empty(),
            r.blocks@ == Seq::<Block>::empty(),
            r.entry is None,
            r.well_formed(),
    {
        Self::new()
    }
}

/// What interning `v` into a pool does: where the pool holds `v`, the pool stays
/// and the id is a position of `v`; otherwise `v` is appended and the id is
/// its new position.
pub open spec fn intern(
    before: Seq<ValueModel>,
    v: ValueModel,
    after: Seq<ValueModel>,
    id: usize,
) -> bool {
    if before.contains(v) {
        &&& after == before
        &&& id < before.len()
        &&& before[id as int] == v
    } else {
        &&& after == before.push(v)
        &&& id == before.len()
    }
}

// ---------------------------------------------------------------------------
// The listing of a module
// ---------------------------------------------------------------------------

/// The line that lists constant number `i`.
pub open spec fn constant_line(i: nat, constant: ValueModel) -> Seq<char> {
    "#"@ + decimal_digits(i) + ":\t "@ + constant_debug_text(constant) + "\n"@
}

/// The lines that list the constants of a pool, in order.
pub open spec fn constants_text(pool: Seq<ValueModel>) -> Seq<char>
    decreases pool.len(),
{
    if pool.len() == 0 {
        Seq::empty()
    } else {
        constants_text(pool.drop_last()) + constant_line((pool.len() - 1) as nat, pool.last())
    }
}

/// The lines that list the instructions of a block, each after a tab.
pub open spec fn instructions_text(instructions: Seq<Instruction>) -> Seq<char>
    decreases instructions.len(),
{
    if instructions.len() == 0 {
        Seq::empty()
    } else {
        instructions_text(instructions.drop_last()) + "\t"@ + instruction_debug_text(
            instructions.last()@,
        ) + "\n"@
    }
}

/// The lines that list a block: its number, then its instructions.
pub open spec fn block_text(block: Block) -> Seq<char> {
    "block#"@ + decimal_digits(block.id@ as nat) + ":\n"@ + instructions_text(block.instructions@)
}

/// The lines that list the blocks with the given ids, in order.
pub open spec fn blocks_text(blocks: Seq<Block>, ids: Seq<BlockId>) -> Seq<char>
    decreases ids.len(),
{
    if ids.len() == 0 {
        Seq::empty()
    } else {
        blocks_text(blocks, ids.drop_last()) + block_text(blocks[ids.last()@ as int])
    }
}

/// The text that shows a name.
pub open spec fn name_text(name: Name) -> Seq<char> {
    match name@ {
        Some(text) => text,
        None => "<anonymous>"@,
    }
}

/// The lines that list a function: its number and name, then its blocks.
pub open spec fn function_text(blocks: Seq<Block>, function: Function) -> Seq<char> {
    "function["@ + decimal_digits(function.id@ as nat) + "]@"@ + name_text(function.signature.name)
        + "()\n"@ + blocks_text(blocks, function.flow_graph@.blocks)
}

/// The lines that list the given functions, in order.
pub open spec fn functions_text(blocks: Seq<Block>, functions: Seq<Function>) -> Seq<char>
    decreases functions.len(),
{
    if functions.len() == 0 {
        Seq::empty()
    } else {
        functions_text(blocks, functions.drop_last()) + function_text(blocks, functions.last())
    }
}

/// The listing of a module: its constants, then each function with its blocks.
pub open spec fn module_text(m: &Module) -> Seq<char> {
    constants_text(m.constant_values()) + functions_text(m.blocks@, m.functions@)
}

/// Whether every block that a function lists is one of the module's blocks.
pub open spec fn blocks_resolve(m: &Module) -> bool {
    forall|f: int, b: int|
        0 <= f < m.functions@.len() && 0 <= b < m.functions@[f].flow_graph@.blocks.len()
            ==> (#[trigger] m.functions@[f].flow_graph@.blocks[b])@ < m.blocks@.len()
}

/// Appends a literal to a string.
fn push_text(out: &mut String, text: &str)
    ensures
        final(out)@ == old(out)@ + text@,
{
    out.append(text);
}

/// Appends the lines that list a block.
fn push_block(out: &mut String, block: &Block)
    ensures
        final(out)@ == old(out)@ + block_text(*block),
{
    let ghost start = out@;
    push_text(out, "block#");
    push_decimal(out, block.id.as_usize() as u128);
    push_text(out, ":\n");
    let mut i: usize = 0;
    assert(block.instructions@.take(0) =~= Seq::<Instruction>::empty());
    while i < block.instructions.len()
        invariant
            i <= block.instructions@.len(),
            out@ == start + "block#"@ + decimal_digits(block.id@ as nat) + ":\n"@
                + instructions_text(block.instructions@.take(i as int)),
        decreases block.instructions@.len() - i,
    {
        push_text(out, "\t");
        let text = instruction_debug(&block.instructions[i]);
        push_text(out, text.as_str());
        push_text(out, "\n");
        proof {
            let taken = block.instructions@.take(i + 1);
            assert(taken.drop_last() =~= block.instructions@.take(i as int));
            assert(taken.last() == block.instructions@[i as int]);
        }
        i = i + 1;
    }
    assert(block.instructions@.take(i as int) =~= block.instructions@);
    assert(out@ =~= start + block_text(*block));
}

/// Appends the lines that list a function.
fn push_function(out: &mut String, blocks: &Vec<Block>, function: &Function)
    requires
        forall|b: int|
            0 <= b < function.flow_graph@.blocks.len() ==> (#[trigger] function.flow_graph@.blocks[b])@
                < blocks@.len(),
    ensures
        final(out)@ == old(out)@ + function_text(blocks@, *function),
{
    let ghost start = out@;
    push_text(out, "function[");
    push_decimal(out, function.id.as_usize() as u128);
    push_text(out, "]@");
    let name = function.signature.name.to_display_string();
    push_text(out, name.as_str());
    push_text(out, "()\n");
    let ghost header = out@;
    let ids = function.flow_graph.block_ids();
    let mut i: usize = 0;
    assert(ids@.take(0) =~= Seq::<BlockId>::empty());
    while i < ids.len()
        invariant
            ids@ == function.flow_graph@.blocks,
            forall|b: int| 0 <= b < ids@.len() ==> (#[trigger] ids@[b])@ < blocks@.len(),
            i <= ids@.len(),
            out@ == header + blocks_text(blocks@, ids@.take(i as int)),
        decreases ids@.len() - i,
    {
        let id = ids[i];
        assert(ids@[i as int]@ < blocks@.len());
        push_block(out, &blocks[id.as_usize()]);
        proof {
            let taken = ids@.take(i + 1);
            assert(taken.drop_last() =~= ids@.take(i as int));
            assert(taken.last() == ids@[i as int]);
        }
        i = i + 1;
    }
    assert(ids@.take(i as int) =~= ids@);
    assert(out@ =~= start + function_text(blocks@, *function));
}

impl Module {
    /// The listing of the module: a line `#i:\t constant` for each constant,
    /// then for each function a line `function[id]@name()` followed by its
    /// blocks, each as `block#id:` and its instructions after tabs.
    pub fn to_display_string(&self) -> (r: String)
        requires
            blocks_resolve(self),
        ensures
            r@ == module_text(self),
    {
        let mut out = String::new();
        let count = pool_len(&self.constants);
        let mut i: usize = 0;
        assert(self.constant_values().take(0) =~= Seq::<ValueModel>::empty());
        while i < count
            invariant
                count == self.constant_values().len(),
                i <= count,
                out@ == constants_text(self.constant_values().take(i as int)),
            decreases count - i,
        {
            let constant = pool_get_index(&self.constants, i).unwrap();
            push_text(&mut out, "#");
            push_decimal(&mut out, i as u128);
            push_text(&mut out, ":\t ");
            let text = constant_debug(constant);
            push_text(&mut out, text.as_str());
            push_text(&mut out, "\n");
            proof {
                let taken = self.constant_values().take(i + 1);
                assert(taken.drop_last() =~= self.constant_values().take(i as int));
                assert(taken.last() == self.constant_values()[i as int]);
            }
            i = i + 1;
        }
        assert(self.constant_values().take(i as int) =~= self.constant_values());
        let ghost constants_part = out@;
        let mut f: usize = 0;
        assert(self.functions@.take(0) =~= Seq::<Function>::empty());
        while f < self.functions.len()
            invariant
                blocks_resolve(self),
                f <= self.functions@.len(),
                out@ == constants_part + functions_text(self.blocks@, self.functions@.take(f as int)),
            decreases self.functions@.len() - f,
        {
            assert forall|b: int|
                0 <= b < self.functions@[f as int].flow_graph@.blocks.len() implies (
                #[trigger] self.functions@[f as int].flow_graph@.blocks[b])@ < self.blocks@.len() by {
                assert(self.functions@[f as int].flow_graph@.blocks[b]@ < self.blocks@.len());
            }
            push_function(&mut out, &self.blocks, &self.functions[f]);
            proof {
                let taken = self.functions@.take(f + 1);
                assert(taken.drop_last() =~= self.functions@.take(f as int));
                assert(taken.last() == self.functions@[f as int]);
            }
            f = f + 1;
        }
        assert(self.functions@.take(f as int) =~= self.functions@);
        out
    }
}

} // verus!
