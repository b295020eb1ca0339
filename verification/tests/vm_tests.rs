use stack_vm::instruction::Binary;
use stack_vm::instruction::Instr;
use stack_vm::value::Value;
use stack_vm::vm::Vm;
use stack_vm::vm::VmError;

fn run_program(instrs: Vec<Instr>) -> (Result<(), VmError>, Vec<String>) {
    let mut vm = Vm::new();
    let result = vm.run(instrs);
    (result, vm.output().clone())
}

#[test]
fn add_two_ints_prints_sum() {
    let (result, output) = run_program(vec![
        Instr::LoadConst(Value::Int(2)),
        Instr::LoadConst(Value::Int(3)),
        Instr::Binary(Binary::Add),
        Instr::Print,
    ]);
    assert!(result.is_ok());
    assert_eq!(output, vec!["5".to_string()]);
}

#[test]
fn add_negative_ints_prints_sum() {
    let (result, output) = run_program(vec![
        Instr::LoadConst(Value::Int(-40)),
        Instr::LoadConst(Value::Int(15)),
        Instr::Binary(Binary::Add),
        Instr::Print,
    ]);
    assert!(result.is_ok());
    assert_eq!(output, vec!["-25".to_string()]);
}

#[test]
fn add_wraps_around_two_complement() {
    let (result, output) = run_program(vec![
        Instr::LoadConst(Value::Int(i64::MAX)),
        Instr::LoadConst(Value::Int(1)),
        Instr::Binary(Binary::Add),
        Instr::Print,
    ]);
    assert!(result.is_ok());
    assert_eq!(output, vec!["-9223372036854775808".to_string()]);
}

#[test]
fn mixed_addition_prints_float() {
    let (result, output) = run_program(vec![
        Instr::LoadConst(Value::Int(2)),
        Instr::LoadConst(Value::Float(3.5f64.to_bits())),
        Instr::Binary(Binary::Add),
        Instr::Print,
    ]);
    assert!(result.is_ok());
    assert_eq!(output, vec!["5.5".to_string()]);
}

#[test]
fn float_subtraction_prints_difference() {
    // a = former top of stack (3.5), b = the value beneath it (1.25)
    let (result, output) = run_program(vec![
        Instr::LoadConst(Value::Float(1.25f64.to_bits())),
        Instr::LoadConst(Value::Float(3.5f64.to_bits())),
        Instr::Binary(Binary::Sub),
        Instr::Print,
    ]);
    assert!(result.is_ok());
    assert_eq!(output, vec!["2.25".to_string()]);
}

#[test]
fn sub_computes_top_minus_second() {
    let (result, output) = run_program(vec![
        Instr::LoadConst(Value::Int(3)),
        Instr::LoadConst(Value::Int(10)),
        Instr::Binary(Binary::Sub),
        Instr::Print,
    ]);
    assert!(result.is_ok());
    assert_eq!(output, vec!["7".to_string()]);
}

#[test]
fn div_opcode_multiplies() {
    let (result, output) = run_program(vec![
        Instr::LoadConst(Value::Int(6)),
        Instr::LoadConst(Value::Int(7)),
        Instr::Binary(Binary::Div),
        Instr::Print,
    ]);
    assert!(result.is_ok());
    assert_eq!(output, vec!["42".to_string()]);
}

#[test]
fn div_opcode_multiplies_floats() {
    let (result, output) = run_program(vec![
        Instr::LoadConst(Value::Float(2.5f64.to_bits())),
        Instr::LoadConst(Value::Float(1.5f64.to_bits())),
        Instr::Binary(Binary::Div),
        Instr::Print,
    ]);
    assert!(result.is_ok());
    assert_eq!(output, vec!["3.75".to_string()]);
}

#[test]
fn mult_opcode_divides() {
    let (result, output) = run_program(vec![
        Instr::LoadConst(Value::Int(2)),
        Instr::LoadConst(Value::Int(7)),
        Instr::Binary(Binary::Mult),
        Instr::Print,
    ]);
    assert!(result.is_ok());
    assert_eq!(output, vec!["3".to_string()]);
}

#[test]
fn mult_opcode_divides_floats() {
    let (result, output) = run_program(vec![
        Instr::LoadConst(Value::Float(2.0f64.to_bits())),
        Instr::LoadConst(Value::Float(5.5f64.to_bits())),
        Instr::Binary(Binary::Mult),
        Instr::Print,
    ]);
    assert!(result.is_ok());
    assert_eq!(output, vec!["2.75".to_string()]);
}

#[test]
fn integer_division_by_zero_fails() {
    let (result, output) = run_program(vec![
        Instr::LoadConst(Value::Int(0)),
        Instr::LoadConst(Value::Int(1)),
        Instr::Binary(Binary::Mult),
    ]);
    assert_eq!(result, Err(VmError::DivisionByZero));
    assert!(output.is_empty());
}

#[test]
fn arithmetic_on_bool_fails() {
    let (result, _) = run_program(vec![
        Instr::LoadConst(Value::Bool(true)),
        Instr::LoadConst(Value::Int(1)),
        Instr::Binary(Binary::Add),
    ]);
    assert_eq!(result, Err(VmError::MismatchedType("number".to_string())));
}

#[test]
fn store_then_load_round_trips() {
    let (result, output) = run_program(vec![
        Instr::LoadConst(Value::Bool(true)),
        Instr::Store("x".to_string()),
        Instr::Load("x".to_string()),
        Instr::Print,
    ]);
    assert!(result.is_ok());
    assert_eq!(output, vec!["true".to_string()]);
}

#[test]
fn store_overwrites_earlier_binding() {
    let (result, output) = run_program(vec![
        Instr::LoadConst(Value::Int(1)),
        Instr::Store("x".to_string()),
        Instr::LoadConst(Value::Int(2)),
        Instr::Store("x".to_string()),
        Instr::Load("x".to_string()),
        Instr::Print,
    ]);
    assert!(result.is_ok());
    assert_eq!(output, vec!["2".to_string()]);
}

#[test]
fn unbound_load_fails_with_not_in_scope() {
    let (result, output) = run_program(vec![Instr::Load("missing".to_string())]);
    assert_eq!(result, Err(VmError::NotInScope("missing".to_string())));
    assert!(output.is_empty());
}

#[test]
fn print_on_fresh_run_fails_with_empty_stack() {
    let (result, output) = run_program(vec![Instr::Print]);
    assert_eq!(result, Err(VmError::EmptyStack));
    assert!(output.is_empty());
}

#[test]
fn binary_on_single_value_fails_with_empty_stack() {
    let (result, _) = run_program(vec![
        Instr::LoadConst(Value::Int(1)),
        Instr::Binary(Binary::Add),
    ]);
    assert_eq!(result, Err(VmError::EmptyStack));
}

#[test]
fn build_list_preserves_push_order() {
    let (result, output) = run_program(vec![
        Instr::LoadConst(Value::Int(1)),
        Instr::LoadConst(Value::Int(2)),
        Instr::LoadConst(Value::Int(3)),
        Instr::BuildList(3),
        Instr::Print,
    ]);
    assert!(result.is_ok());
    assert_eq!(output, vec!["[1, 2, 3]".to_string()]);
}

#[test]
fn build_list_nests() {
    let (result, output) = run_program(vec![
        Instr::LoadConst(Value::Int(1)),
        Instr::BuildList(1),
        Instr::BuildList(1),
        Instr::Print,
    ]);
    assert!(result.is_ok());
    assert_eq!(output, vec!["[[1]]".to_string()]);
}

#[test]
fn build_list_of_nothing_prints_empty_brackets() {
    let (result, output) = run_program(vec![Instr::BuildList(0), Instr::Print]);
    assert!(result.is_ok());
    assert_eq!(output, vec!["[]".to_string()]);
}

#[test]
fn build_list_deeper_than_stack_fails_with_empty_stack() {
    let (result, _) = run_program(vec![
        Instr::LoadConst(Value::Int(1)),
        Instr::BuildList(2),
    ]);
    assert_eq!(result, Err(VmError::EmptyStack));
}

#[test]
fn jump_skips_instructions() {
    let (result, output) = run_program(vec![
        Instr::Jump(3),
        Instr::LoadConst(Value::Int(1)),
        Instr::Print,
        Instr::LoadConst(Value::Int(2)),
        Instr::Print,
    ]);
    assert!(result.is_ok());
    assert_eq!(output, vec!["2".to_string()]);
}

#[test]
fn jump_past_the_end_halts_cleanly() {
    let (result, output) = run_program(vec![Instr::Jump(10)]);
    assert!(result.is_ok());
    assert!(output.is_empty());
}

#[test]
fn jump_if_false_transfers_control() {
    let (result, output) = run_program(vec![
        Instr::LoadConst(Value::Bool(false)),
        Instr::JumpIfFalse(4),
        Instr::LoadConst(Value::Int(1)),
        Instr::Print,
        Instr::LoadConst(Value::Int(2)),
        Instr::Print,
    ]);
    assert!(result.is_ok());
    assert_eq!(output, vec!["2".to_string()]);
}

#[test]
fn jump_if_false_on_true_continues() {
    let (result, output) = run_program(vec![
        Instr::LoadConst(Value::Bool(true)),
        Instr::JumpIfFalse(4),
        Instr::LoadConst(Value::Int(1)),
        Instr::Print,
    ]);
    assert!(result.is_ok());
    assert_eq!(output, vec!["1".to_string()]);
}

#[test]
fn jump_if_false_on_non_bool_fails_with_mismatched_type() {
    let (result, _) = run_program(vec![
        Instr::LoadConst(Value::Int(0)),
        Instr::JumpIfFalse(0),
    ]);
    assert_eq!(result, Err(VmError::MismatchedType("boolean".to_string())));
}

#[test]
fn rerunning_a_program_yields_the_same_outcome() {
    let program = || {
        vec![
            Instr::LoadConst(Value::Int(4)),
            Instr::LoadConst(Value::Int(5)),
            Instr::Binary(Binary::Add),
            Instr::Print,
            Instr::Load("missing".to_string()),
        ]
    };
    let (r1, o1) = run_program(program());
    let (r2, o2) = run_program(program());
    assert_eq!(r1, r2);
    assert_eq!(o1, o2);
}

#[test]
fn prints_strings_and_bools_in_natural_form() {
    let (result, output) = run_program(vec![
        Instr::LoadConst(Value::String("hi there".to_string())),
        Instr::Print,
        Instr::LoadConst(Value::Bool(false)),
        Instr::Print,
    ]);
    assert!(result.is_ok());
    assert_eq!(output, vec!["hi there".to_string(), "false".to_string()]);
}

#[test]
fn prints_most_negative_int() {
    let (result, output) = run_program(vec![
        Instr::LoadConst(Value::Int(i64::MIN)),
        Instr::Print,
    ]);
    assert!(result.is_ok());
    assert_eq!(output, vec!["-9223372036854775808".to_string()]);
}
