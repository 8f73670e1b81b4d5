use language::codegen::switch_phi_incoming;
use language::compiler::Compiler;
use language::ir::{BasicBlockIdx, ConstantValue, Terminator, Triple, TripleIdx, TripleRef, Value};
use language::lower::{lower, try_lower};
use language::parse::function::parse;

fn lower_source(source: &str) -> Vec<language::ir::Function> {
    let mut compiler = Compiler::new();
    let program = parse(&mut compiler, source).unwrap();
    let typed = program.ty_solve(&mut compiler).unwrap();
    lower(&mut compiler, &typed)
}

#[test]
fn constant_body_returns_constant() {
    let functions = lower_source("fn main() -> int { 1 }");
    assert_eq!(functions.len(), 1);
    let main = &functions[0];
    assert_eq!(main.basic_blocks.len(), 1);
    assert!(main.basic_blocks[0].triples.is_empty());
    assert!(matches!(
        main.basic_blocks[0].terminator,
        Terminator::Return(Value::Constant(ConstantValue::Integer(1)))
    ));
}

#[test]
fn conditional_merges_with_phi() {
    let functions = lower_source("fn main() -> int { if true { 2 } else { 3 } }");
    let main = &functions[0];
    assert_eq!(main.basic_blocks.len(), 4);
    match &main.basic_blocks[0].terminator {
        Terminator::Switch { value, default, branches } => {
            assert_eq!(*value, Value::boolean(true));
            assert_eq!(*default, BasicBlockIdx(2));
            assert_eq!(branches.len(), 1);
            assert_eq!(branches[0], (Value::boolean(false), BasicBlockIdx(3)));
        }
        _ => panic!("expected a switch"),
    }
    assert!(matches!(main.basic_blocks[2].terminator, Terminator::Jump(BasicBlockIdx(1))));
    assert!(matches!(main.basic_blocks[3].terminator, Terminator::Jump(BasicBlockIdx(1))));
    match &main.basic_blocks[1].triples[0] {
        Triple::Phi(values) => {
            assert_eq!(values.len(), 2);
            assert_eq!(values[0], (Value::integer(2), BasicBlockIdx(2)));
            assert_eq!(values[1], (Value::integer(3), BasicBlockIdx(3)));
        }
        _ => panic!("expected a phi"),
    }
    let phi = TripleRef { basic_block: BasicBlockIdx(1), triple: TripleIdx(0) };
    assert!(matches!(main.basic_blocks[1].terminator, Terminator::Return(Value::Triple(r)) if r == phi));
}

#[test]
fn parameters_and_calls() {
    let functions = lower_source("fn add(a: int, b: int) -> int { a + b } fn main() -> int { add(1, 2) }");
    assert_eq!(functions.len(), 2);
    let add = &functions[1];
    assert!(matches!(add.basic_blocks[0].triples[0], Triple::Assign(_, Value::Parameter(0))));
    assert!(matches!(add.basic_blocks[0].triples[1], Triple::Assign(_, Value::Parameter(1))));
    assert_eq!(add.scope.len(), 2);
    let main = &functions[0];
    match &main.basic_blocks[0].triples[0] {
        Triple::Call(_, args) => assert_eq!(*args, vec![Value::integer(1), Value::integer(2)]),
        _ => panic!("expected a call"),
    }
}

#[test]
fn loop_with_break() {
    let functions = lower_source("fn main() -> int { let a = 0; loop { a = a + 1; break; } a }");
    let main = &functions[0];
    assert_eq!(main.basic_blocks.len(), 3);
    assert!(matches!(main.basic_blocks[0].terminator, Terminator::Jump(BasicBlockIdx(1))));
    assert!(matches!(main.basic_blocks[1].terminator, Terminator::Jump(BasicBlockIdx(2))));
    assert!(matches!(main.basic_blocks[2].terminator, Terminator::Return(Value::Triple(_))));
}

#[test]
fn switch_merge_with_phi() {
    let branches = vec![
        (Value::boolean(false), BasicBlockIdx(2), Value::integer(7)),
        (Value::boolean(true), BasicBlockIdx(3), Value::integer(8)),
    ];
    let incoming = switch_phi_incoming((BasicBlockIdx(1), Value::integer(9)), &branches).unwrap();
    assert_eq!(
        incoming,
        vec![(BasicBlockIdx(2), Value::integer(7)), (BasicBlockIdx(3), Value::integer(8)), (BasicBlockIdx(1), Value::integer(9))]
    );
    let unit_branches = vec![(Value::boolean(false), BasicBlockIdx(2), Value::Unit)];
    assert!(switch_phi_incoming((BasicBlockIdx(1), Value::Unit), &unit_branches).is_none());
    assert!(switch_phi_incoming((BasicBlockIdx(1), Value::Unit), &vec![]).is_none());
}

#[test]
fn blocks_and_conditionals_as_expressions() {
    let functions = lower_source(
        "fn my_func(a: int, b: int) -> int { if a == b { 0 } else { a + b } } \
         fn main() -> int { let x = 1; let y = 2; let c = { 3 }; let r = if c == 3 { 123 } else { 999 }; my_func(x, y) + r }",
    );
    assert_eq!(functions.len(), 2);
    let my_func = &functions[1];
    let returns = my_func
        .basic_blocks
        .iter()
        .filter(|b| matches!(b.terminator, Terminator::Return(_)))
        .count();
    assert_eq!(returns, 1);
    assert_eq!(my_func.basic_blocks.len(), 4);
}

fn try_lower_source(source: &str) -> Option<Vec<language::ir::Function>> {
    let mut compiler = Compiler::new();
    let program = parse(&mut compiler, source).unwrap();
    let typed = program.ty_solve(&mut compiler).unwrap();
    try_lower(&mut compiler, &typed)
}

#[test]
fn lowering_gets_stuck_ending_a_block_twice() {
    assert!(try_lower_source("fn main() -> int { if true { return 1; 2 } else { 3 } }").is_none());
    assert!(try_lower_source("fn main() -> int { let a = 0; loop { a = a + 1; if a == 3 { break; } } a }").is_none());
}

#[test]
fn lowering_gets_stuck_breaking_outside_a_loop() {
    assert!(try_lower_source("fn main() -> int { break; 1 }").is_none());
}

#[test]
fn lowering_that_completes_agrees_with_lower() {
    let source = "fn main() -> int { let a = 1; if a == 1 { 2 } else { 3 } }";
    let tried = try_lower_source(source).unwrap();
    let lowered = lower_source(source);
    assert_eq!(tried.len(), lowered.len());
    assert_eq!(tried[0].basic_blocks.len(), lowered[0].basic_blocks.len());
}

#[test]
fn front_and_middle_end_on_a_whole_program() {
    let source = "fn add(a: int, b: int) -> int { a + b } fn main() -> int { let x = 1; let y = if x == 1 { 2 } else { 3 }; add(x, y) }";
    let functions = try_lower_source(source).unwrap();
    assert_eq!(functions.len(), 2);
    let main = &functions[0];
    assert!(main.basic_blocks.iter().any(|bb| bb.triples.iter().any(|t| matches!(t, Triple::Phi(_)))));
    assert!(matches!(main.basic_blocks[1].terminator, Terminator::Return(Value::Triple(_))));
    let add = &functions[1];
    assert_eq!(add.basic_blocks.len(), 1);
}

#[test]
fn lowered_functions_keep_their_signature() {
    let functions = try_lower_source("fn add(a: int, b: bool) -> int { a } fn main() -> int { add(1, true) }").unwrap();
    assert!(functions[0].signature.arguments.is_empty());
    assert_eq!(functions[0].signature.return_ty, language::ty::Ty::Int);
    assert_eq!(functions[1].signature.arguments, vec![language::ty::Ty::Int, language::ty::Ty::Boolean]);
    assert_eq!(functions[1].signature.return_ty, language::ty::Ty::Int);
}
