use irvm::instruction::{Instruction, OpCode, Operand, Register};
use irvm::ir::types::{
    BlockId, ConstantId, FlowGraph, FuncParam, FuncSignature, Function, FunctionContext,
    FunctionId, InstId, Module, Name,
};
use irvm::value::Primitive;

#[test]
fn ids_keep_their_number() {
    assert_eq!(ConstantId::new(4).id(), 4);
    assert_eq!(InstId::new(5).as_usize(), 5);
    assert_eq!(BlockId::new(6).as_usize(), 6);
    assert_eq!(FunctionId::new(7).id(), 7);
    assert!(BlockId::new(1) < BlockId::new(2));
}

#[test]
fn names() {
    assert!(!Name::new("main").is_anonymous());
    assert!(Name::anonymous().is_anonymous());
    assert!(Name::default().is_anonymous());
    assert!(Name::from(None).is_anonymous());
    assert!(!Name::from("f".to_string()).is_anonymous());
    assert_eq!(Name::new("main").to_display_string(), "main");
    assert_eq!(Name::anonymous().to_display_string(), "<anonymous>");
    assert_eq!(Name::new("g"), Name::from("g".to_string()));
    assert_eq!(Name::anonymous(), Name::from(None));
    assert_eq!(Name::from("h"), Name::new("h"));
    assert_eq!(Name::from("h").to_display_string(), "h");
}

#[test]
fn constants_are_interned() {
    let mut module = Module::new();
    let a = module.make_constant(Primitive::Integer(1));
    let b = module.make_constant(Primitive::String("one".to_string()));
    let c = module.make_constant(Primitive::Integer(1));
    let d = module.make_constant(Primitive::String("one".to_string()));
    assert_eq!(a.as_usize(), 0);
    assert_eq!(b.as_usize(), 1);
    assert_eq!(a, c);
    assert_eq!(b, d);
    assert_eq!(module.constants.len(), 2);
    assert_eq!(module.constants.get_index(1), Some(&Primitive::String("one".to_string())));
    let e = module.make_constant(Primitive::Boolean(false));
    assert_eq!(e.as_usize(), 2);
}

#[test]
fn blocks_are_numbered_in_order() {
    let mut module = Module::default();
    let b0 = module.create_block(Name::new("entry"));
    let b1 = module.create_block(Name::anonymous());
    assert_eq!(b0.as_usize(), 0);
    assert_eq!(b1.as_usize(), 1);
    let inst = Instruction::new(OpCode::Return, Operand::Register(Register::R0), Operand::Empty, Operand::Empty);
    module.emit(b1, inst);
    let block = module.get_block(b1).unwrap();
    assert_eq!(block.id, b1);
    assert_eq!(block.instructions.len(), 1);
    assert_eq!(module.get_block(b0).unwrap().instructions.len(), 0);
    assert_eq!(module.get_block(b0).unwrap().label.to_display_string(), "entry");
    assert!(module.get_block(BlockId::new(2)).is_none());
}

#[test]
fn functions_are_declared_and_defined() {
    let mut module = Module::new();
    let sig = FuncSignature::new(Name::new("main"), vec![FuncParam::new(Name::new("argc"))]);
    let f = module.declare_function(sig);
    assert_eq!(f.as_usize(), 0);
    let func = module.get_function(f).unwrap();
    assert_eq!(func.id, f);
    assert_eq!(func.signature.params.len(), 1);
    assert!(func.entry().is_none());
    assert!(module.get_function(FunctionId::new(1)).is_none());

    let block = module.create_block(Name::new("start"));
    let mut context = module.make_context();
    assert!(context.values.is_empty());
    let mut graph = FlowGraph::new();
    graph.switch_to_block(block);
    context.flow_graph = graph;
    module.define_function(f, context);
    assert_eq!(module.get_function(f).unwrap().flow_graph.current_block(), Some(block));

    module.set_entry(f);
    assert_eq!(module.entry, Some(f));
}

#[test]
fn flow_graph_entry_and_current_block() {
    let graph = FlowGraph::default();
    assert!(graph.entry().is_none());
    assert!(graph.current_block().is_none());
    let mut graph = FlowGraph::new();
    graph.switch_to_block(BlockId::new(3));
    assert_eq!(graph.current_block(), Some(BlockId::new(3)));
    assert!(graph.entry().is_none());
    let context = FunctionContext::default();
    assert!(context.flow_graph.entry().is_none());
    let function = Function::new(FunctionId::new(0), FuncSignature::new(Name::anonymous(), Vec::new()));
    assert!(function.entry().is_none());
    assert!(function.signature.name.is_anonymous());
}

#[test]
fn module_listing() {
    let mut module = Module::new();
    module.make_constant(Primitive::Integer(42));
    module.make_constant(Primitive::String("hi".to_string()));
    let sig = FuncSignature::new(Name::new("main"), Vec::new());
    module.declare_function(sig);
    module.declare_function(FuncSignature::new(Name::anonymous(), Vec::new()));
    let expected = format!(
        "#0:\t {:?}\n#1:\t {:?}\nfunction[0]@main()\nfunction[1]@<anonymous>()\n",
        Primitive::Integer(42),
        Primitive::String("hi".to_string())
    );
    assert_eq!(module.to_display_string(), expected);
    assert_eq!(Module::new().to_display_string(), "");
}
