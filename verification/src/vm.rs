use vstd::prelude::*;
use crate::float::{
    add_bits, div_bits, float_add, float_div, float_mul, float_of_int, float_sub, int_to_bits,
    mul_bits, sub_bits,
};
use crate::instruction::{Binary, Instr};
use crate::stack::{Frame, FrameModel, Stack};
use crate::value::{int_text, lemma_models_of, render_value, seq_m, value_text, Value, ValueModel};

verus! {

/// A typed, fatal error of a run: the first misuse stops execution and is
/// returned to the caller.
#[derive(Debug, PartialEq)]
pub enum VmError {
    /// `Load` referenced a name unbound in the active frame.
    NotInScope(String),
    /// An operand's runtime type did not match what the instruction
    /// required; the text describes what was expected.
    MismatchedType(String),
    /// A pop was attempted on an empty operand stack.
    EmptyStack,
    /// An integer division had divisor zero.
    DivisionByZero,
}

/// The mathematical shape of a `VmError`.
pub ghost enum ErrorModel {
    NotInScope(Seq<char>),
    MismatchedType(Seq<char>),
    EmptyStack,
    DivisionByZero,
}

impl VmError {
    /// The model of this error.
    pub open spec fn m(self) -> ErrorModel {
        match self {
            VmError::NotInScope(s) => ErrorModel::NotInScope(s@),
            VmError::MismatchedType(s) => ErrorModel::MismatchedType(s@),
            VmError::EmptyStack => ErrorModel::EmptyStack,
            VmError::DivisionByZero => ErrorModel::DivisionByZero,
        }
    }
}

/// Whether a run is still going, ended cleanly, or ended at its first error.
pub ghost enum Status {
    Running,
    Halted,
    Failed(ErrorModel),
}

/// The machine at one instant: the index of the next instruction, the
/// models of the call-stack frames (bottom first), the lines printed so
/// far, and the run's status.
#[verifier::ext_equal]
pub ghost struct Machine {
    pub pointer: int,
    pub frames: Seq<FrameModel>,
    pub output: Seq<Seq<char>>,
    pub status: Status,
}

/// The active frame: the last one.
pub open spec fn active(m: Machine) -> FrameModel {
    m.frames.last()
}

/// The machine with its active frame replaced.
pub open spec fn set_active(m: Machine, f: FrameModel) -> Machine {
    Machine { frames: m.frames.update(m.frames.len() - 1, f), ..m }
}

/// The machine stopped at its first error.
pub open spec fn fail(m: Machine, e: ErrorModel) -> Machine {
    Machine { status: Status::Failed(e), ..m }
}

/// A value pushed onto the active frame's operand stack.
pub open spec fn step_push(m: Machine, v: ValueModel) -> Machine {
    set_active(m, FrameModel { data: active(m).data.push(v), ..active(m) })
}

/// `Print`: pops one value and appends its rendering to the output.
pub open spec fn step_print(m: Machine) -> Machine {
    if active(m).data.len() == 0 {
        fail(m, ErrorModel::EmptyStack)
    } else {
        let popped = set_active(m, FrameModel { data: active(m).data.drop_last(), ..active(m) });
        Machine { output: m.output.push(value_text(active(m).data.last())), ..popped }
    }
}

/// `Store`: pops one value and binds the name to it in the active frame.
pub open spec fn step_store(m: Machine, id: Seq<char>) -> Machine {
    if active(m).data.len() == 0 {
        fail(m, ErrorModel::EmptyStack)
    } else {
        set_active(m, FrameModel {
            data: active(m).data.drop_last(),
            locals: active(m).locals.insert(id, active(m).data.last()),
            ..active(m)
        })
    }
}

/// `Load`: pushes a copy of the value bound to the name in the active
/// frame, or fails with `NotInScope` exactly when the name is unbound.
pub open spec fn step_load(m: Machine, id: Seq<char>) -> Machine {
    if active(m).locals.contains_key(id) {
        step_push(m, active(m).locals[id])
    } else {
        fail(m, ErrorModel::NotInScope(id))
    }
}

/// `BuildList`: pops the top `n` values and pushes one list holding them in
/// their original push order. A count exceeding the stack depth fails with
/// `EmptyStack`: this engine makes the mistake a typed error rather than a
/// crash, so a malformed sequence never brings the host down.
pub open spec fn step_build_list(m: Machine, n: int) -> Machine {
    if n > active(m).data.len() {
        fail(m, ErrorModel::EmptyStack)
    } else {
        let len: nat = active(m).data.len();
        set_active(m, FrameModel {
            data: active(m).data.take(len - n).push(
                ValueModel::List(active(m).data.skip(len - n)),
            ),
            ..active(m)
        })
    }
}

/// `JumpIfFalse`: pops one value; on `Bool(false)` the pointer moves to the
/// target, on `Bool(true)` execution continues, and on any other value the
/// run fails with `MismatchedType("boolean")`.
pub open spec fn step_jump_if_false(m: Machine, target: int) -> Machine {
    if active(m).data.len() == 0 {
        fail(m, ErrorModel::EmptyStack)
    } else {
        let popped = set_active(m, FrameModel { data: active(m).data.drop_last(), ..active(m) });
        match active(m).data.last() {
            ValueModel::Bool(false) => Machine { pointer: target, ..popped },
            ValueModel::Bool(true) => popped,
            _ => fail(popped, ErrorModel::MismatchedType("boolean"@)),
        }
    }
}

/// Truncated 64-bit signed division (the native machine division), the one
/// overflowing quotient, `i64::MIN / -1`, wrapping around to `i64::MIN`.
pub open spec fn trunc_div_i64(x: i64, y: i64) -> i64
    recommends
        y != 0,
{
    match x.checked_div(y) {
        Option::Some(q) => q,
        Option::None => i64::MIN,
    }
}

/// The numeric dispatch every binary opcode shares: integers combine to an
/// integer, a mixed pair widens the integer to a float (the widened
/// integer always becomes the left operand of the float operation,
/// whichever side it was popped from), two floats combine to a float; any
/// other pair of types fails with
/// `MismatchedType("number")`. `intop` and `floatop` name the combining
/// operations; integer arithmetic wraps around two's complement.
pub open spec fn eval_numeric(
    a: ValueModel,
    b: ValueModel,
    intop: spec_fn(i64, i64) -> Result<i64, ErrorModel>,
    floatop: spec_fn(u64, u64) -> u64,
) -> Result<ValueModel, ErrorModel> {
    match (a, b) {
        (ValueModel::Int(x), ValueModel::Int(y)) => match intop(x, y) {
            Result::Ok(z) => Result::Ok(ValueModel::Int(z)),
            Result::Err(e) => Result::Err(e),
        },
        (ValueModel::Int(x), ValueModel::Float(yb)) => Result::Ok(
            ValueModel::Float(floatop(float_of_int(x), yb)),
        ),
        (ValueModel::Float(xb), ValueModel::Int(y)) => Result::Ok(
            ValueModel::Float(floatop(float_of_int(y), xb)),
        ),
        (ValueModel::Float(xb), ValueModel::Float(yb)) => Result::Ok(
            ValueModel::Float(floatop(xb, yb)),
        ),
        _ => Result::Err(ErrorModel::MismatchedType("number"@)),
    }
}

/// What a `Binary` opcode computes from `(a, b)`, `a` the former top of
/// stack and `b` the value beneath it. In this instruction set the opcode
/// names are deliberately not one-to-one with the operations: `Div`
/// multiplies, `Mult` divides, and `Sub` computes `a - b` (top minus
/// second). The contracts and the regression tests pin that choice down.
pub open spec fn eval_binary(op: Binary, a: ValueModel, b: ValueModel) -> Result<
    ValueModel,
    ErrorModel,
> {
    match op {
        Binary::Add => eval_numeric(
            a,
            b,
            |x: i64, y: i64| Result::Ok(vstd::wrapping::i64_specs::wrapping_add(x, y)),
            |p: u64, q: u64| float_add(p, q),
        ),
        Binary::Sub => eval_numeric(
            a,
            b,
            |x: i64, y: i64| Result::Ok(vstd::wrapping::i64_specs::wrapping_sub(x, y)),
            |p: u64, q: u64| float_sub(p, q),
        ),
        Binary::Mult => eval_numeric(
            a,
            b,
            |x: i64, y: i64|
                if y == 0 {
                    Result::Err(ErrorModel::DivisionByZero)
                } else {
                    Result::Ok(trunc_div_i64(x, y))
                },
            |p: u64, q: u64| float_div(p, q),
        ),
        Binary::Div => eval_numeric(
            a,
            b,
            |x: i64, y: i64| Result::Ok(vstd::wrapping::i64_specs::wrapping_mul(x, y)),
            |p: u64, q: u64| float_mul(p, q),
        ),
    }
}

/// `Binary`: pops `(a, b)`, applies the opcode's operation, and pushes the
/// result. Fewer than two values fail with `EmptyStack` (whatever was
/// present has then been consumed, as two sequential pops leave it).
pub open spec fn step_binary(m: Machine, op: Binary) -> Machine {
    let len: nat = active(m).data.len();
    if len < 2 {
        fail(set_active(m, FrameModel { data: Seq::empty(), ..active(m) }), ErrorModel::EmptyStack)
    } else {
        let a = active(m).data.last();
        let b = active(m).data[len - 2];
        let rest = set_active(m, FrameModel { data: active(m).data.take(len - 2), ..active(m) });
        match eval_binary(op, a, b) {
            Result::Ok(v) => step_push(rest, v),
            Result::Err(e) => fail(rest, e),
        }
    }
}

/// One decoded instruction applied to a machine whose pointer has already
/// moved past it.
pub open spec fn step_instr(m: Machine, instr: Instr) -> Machine {
    match instr {
        Instr::Jump(t) => Machine { pointer: t as int, ..m },
        Instr::JumpIfFalse(t) => step_jump_if_false(m, t as int),
        Instr::Store(id) => step_store(m, id@),
        Instr::Load(id) => step_load(m, id@),
        Instr::BuildList(n) => step_build_list(m, n as int),
        Instr::Binary(op) => step_binary(m, op),
        Instr::LoadConst(v) => step_push(m, v.m()),
        Instr::Print => step_print(m),
    }
}

/// One fetch-decode-execute cycle: a machine that is not running is left as
/// it is, a pointer past the end halts the run, and otherwise the fetched
/// instruction is executed with the pointer already advanced by one.
pub open spec fn step(instrs: Seq<Instr>, m: Machine) -> Machine {
    if m.status != Status::Running {
        m
    } else if !(0 <= m.pointer < instrs.len()) {
        Machine { status: Status::Halted, ..m }
    } else {
        step_instr(Machine { pointer: m.pointer + 1, ..m }, instrs[m.pointer])
    }
}

/// The machine after `n` cycles.
pub open spec fn steps(instrs: Seq<Instr>, m: Machine, n: nat) -> Machine
    decreases n,
{
    if n == 0 {
        m
    } else {
        step(instrs, steps(instrs, m, (n - 1) as nat))
    }
}

/// A machine that has halted or failed.
pub open spec fn terminal(m: Machine) -> bool {
    m.status != Status::Running
}

/// Whether a run started at `m` reaches a halt or an error at all; a
/// program that jumps in a cycle for ever does not.
pub open spec fn halts(instrs: Seq<Instr>, m: Machine) -> bool {
    exists|n: nat| terminal(#[trigger] steps(instrs, m, n))
}

/// A terminal machine no longer moves.
pub proof fn lemma_terminal_stable(instrs: Seq<Instr>, m: Machine, n: nat, j: nat)
    requires
        terminal(steps(instrs, m, n)),
        j >= n,
    ensures
        steps(instrs, m, j) == steps(instrs, m, n),
    decreases j,
{
    if j > n {
        lemma_terminal_stable(instrs, m, n, (j - 1) as nat);
    }
}

/// Execution is deterministic: wherever a run is observed to have ended,
/// it has ended in the one same machine, with the same output and the same
/// error. Re-running an instruction sequence from the same starting
/// machine therefore always yields the same outcome.
pub proof fn lemma_run_deterministic(instrs: Seq<Instr>, m: Machine, n1: nat, n2: nat)
    requires
        terminal(steps(instrs, m, n1)),
        terminal(steps(instrs, m, n2)),
    ensures
        steps(instrs, m, n1) == steps(instrs, m, n2),
{
    if n1 <= n2 {
        lemma_terminal_stable(instrs, m, n1, n2);
    } else {
        lemma_terminal_stable(instrs, m, n2, n1);
    }
}

/// `JumpIfFalse` on a top-of-stack value that is not a boolean fails with
/// `MismatchedType("boolean")`, whatever the target; the pointer does not
/// move.
pub proof fn lemma_jump_if_false_non_bool(m: Machine, target: int)
    requires
        m.frames.len() > 0,
        active(m).data.len() > 0,
        !(active(m).data.last() is Bool),
    ensures
        step_jump_if_false(m, target).status == Status::Failed(
            ErrorModel::MismatchedType("boolean"@),
        ),
        step_jump_if_false(m, target).pointer == m.pointer,
{
}

/// The machine a run starts from: one fresh frame pushed, with the
/// sequence length as its return address.
pub open spec fn start_machine(m: Machine, ret: int) -> Machine {
    Machine {
        frames: m.frames.push(FrameModel {
            ret_addr: ret,
            locals: Map::empty(),
            data: Seq::empty(),
        }),
        ..m
    }
}

/// The machine a freshly constructed engine starts a run of `instrs` from.
pub open spec fn fresh_start(instrs: Seq<Instr>) -> Machine {
    start_machine(
        Machine {
            pointer: 0,
            frames: Seq::empty(),
            output: Seq::empty(),
            status: Status::Running,
        },
        instrs.len() as int,
    )
}

/// The printed lines a sequence of output strings denotes.
pub open spec fn outputs_of(ss: Seq<String>) -> Seq<Seq<char>> {
    Seq::new(ss.len(), |i: int| ss[i]@)
}

/// The engine: an instruction pointer, the call stack it owns, and the
/// lines printed so far, which the caller reads back after a run.
pub struct Vm {
    stack: Stack,
    pointer: usize,
    output: Vec<String>,
}

impl Vm {
    /// The machine this engine embodies, always mid-run: a halt or an
    /// error is reported through `run`'s result instead.
    pub closed spec fn mach(self) -> Machine {
        Machine {
            pointer: self.pointer as int,
            frames: self.stack.m(),
            output: outputs_of(self.output@),
            status: Status::Running,
        }
    }

    /// The engine's call stack is well formed.
    pub closed spec fn wf(self) -> bool {
        self.stack.wf()
    }
}

/// How a machine after one step relates to the engine and the result of
/// the handler that performed the step: a running machine is embodied as
/// it is and the handler succeeded; a failed machine is embodied up to its
/// status, which the handler returned as the matching error. (No single
/// handler halts the machine.)
pub open spec fn after_step(m: Machine, vm: Vm, r: Result<(), VmError>) -> bool {
    match r {
        Result::Ok(()) => m.status == Status::Running && vm.mach() == m,
        Result::Err(e) => m.status == Status::Failed(e.m()) && vm.mach() == (Machine {
            status: Status::Running,
            ..m
        }),
    }
}

/// How a terminal machine relates to the engine after a whole run and the
/// run's result: `Ok` exactly for a clean halt, the error of the first
/// failing instruction otherwise, the engine embodying the terminal
/// machine up to its status.
pub open spec fn after_run(m: Machine, vm: Vm, r: Result<(), VmError>) -> bool {
    (match r {
        Result::Ok(()) => m.status == Status::Halted,
        Result::Err(e) => m.status == Status::Failed(e.m()),
    }) && vm.mach() == (Machine { status: Status::Running, ..m })
}

impl Vm {
    /// A fresh engine: pointer at zero, no frames, nothing printed.
    pub fn new() -> (vm: Self)
        ensures
            vm.wf(),
            vm.mach() == (Machine {
                pointer: 0,
                frames: Seq::<FrameModel>::empty(),
                output: Seq::<Seq<char>>::empty(),
                status: Status::Running,
            }),
    {
        let vm = Vm { stack: Stack::new(Vec::new()), pointer: 0, output: Vec::new() };
        proof {
            assert(vm.stack.m() =~= Seq::<FrameModel>::empty());
            assert(outputs_of(vm.output@) =~= Seq::<Seq<char>>::empty());
            assert(vm.mach() =~~= (Machine {
                pointer: 0,
                frames: Seq::<FrameModel>::empty(),
                output: Seq::<Seq<char>>::empty(),
                status: Status::Running,
            }));
        }
        vm
    }

    /// The lines printed so far, oldest first.
    pub fn output(&self) -> (r: &Vec<String>)
        ensures
            outputs_of(r@) == self.mach().output,
    {
        &self.output
    }

    /// Relocates the instruction pointer; nothing can go wrong.
    fn set_pointer(&mut self, x: usize) -> (r: Result<(), VmError>)
        ensures
            final(self).wf() == old(self).wf(),
            final(self).mach() == (Machine { pointer: x as int, ..old(self).mach() }),
            r == Result::<(), VmError>::Ok(()),
    {
        self.pointer = x;
        proof {
            assert(final(self).mach() =~~= (Machine { pointer: x as int, ..old(self).mach() }));
        }
        Ok(())
    }

    /// `Store`: pops a value and binds the name to it in the active frame.
    fn store(&mut self, id: &str) -> (r: Result<(), VmError>)
        requires
            old(self).wf(),
            old(self).mach().frames.len() > 0,
        ensures
            final(self).wf(),
            after_step(step_store(old(self).mach(), id@), *final(self), r),
    {
        let val = match self.stack.pop() {
            Some(v) => v,
            None => {
                return Err(VmError::EmptyStack);
            }
        };
        self.stack.store_local(id, val);
        proof {
            assert(final(self).mach() =~~= step_store(old(self).mach(), id@));
        }
        Ok(())
    }

    /// `Load`: pushes a copy of the value the name is bound to, or fails
    /// with `NotInScope` when it is unbound.
    fn load(&mut self, id: &str) -> (r: Result<(), VmError>)
        requires
            old(self).wf(),
            old(self).mach().frames.len() > 0,
        ensures
            final(self).wf(),
            after_step(step_load(old(self).mach(), id@), *final(self), r),
    {
        let val = match self.stack.get_local(id) {
            Some(v) => v,
            None => {
                return Err(VmError::NotInScope(id.to_owned()));
            }
        };
        self.stack.push(val);
        proof {
            assert(final(self).mach() =~~= step_load(old(self).mach(), id@));
        }
        Ok(())
    }

    /// `Print`: pops a value and appends its rendering to the output.
    fn print(&mut self) -> (r: Result<(), VmError>)
        requires
            old(self).wf(),
            old(self).mach().frames.len() > 0,
        ensures
            final(self).wf(),
            after_step(step_print(old(self).mach()), *final(self), r),
    {
        let val = match self.stack.pop() {
            Some(v) => v,
            None => {
                return Err(VmError::EmptyStack);
            }
        };
        let line = render_value(&val);
        self.output.push(line);
        proof {
            assert(outputs_of(self.output@) =~= old(self).mach().output.push(
                value_text(val.m()),
            ));
            assert(final(self).mach() =~~= step_print(old(self).mach()));
        }
        Ok(())
    }

    /// `BuildList`: pops the top `n` values and pushes one list holding
    /// them in push order; a count deeper than the stack fails with
    /// `EmptyStack`.
    fn build_list(&mut self, n: usize) -> (r: Result<(), VmError>)
        requires
            old(self).wf(),
            old(self).mach().frames.len() > 0,
        ensures
            final(self).wf(),
            after_step(step_build_list(old(self).mach(), n as int), *final(self), r),
    {
        if n > self.stack.data_len() {
            return Err(VmError::EmptyStack);
        }
        let elems = self.stack.pop_n(n);
        proof {
            lemma_models_of(elems@, 0);
            assert(seq_m(elems@, 0) =~= old(self).mach().frames.last().data.skip(
                old(self).mach().frames.last().data.len() - n,
            ));
        }
        self.stack.push(Value::List(elems));
        proof {
            assert(final(self).mach() =~~= step_build_list(old(self).mach(), n as int));
        }
        Ok(())
    }

    /// `JumpIfFalse`: pops a value; `Bool(false)` transfers control,
    /// `Bool(true)` does nothing, anything else is a type mismatch.
    fn jump_if_false(&mut self, to: usize) -> (r: Result<(), VmError>)
        requires
            old(self).wf(),
            old(self).mach().frames.len() > 0,
        ensures
            final(self).wf(),
            after_step(step_jump_if_false(old(self).mach(), to as int), *final(self), r),
    {
        let val = match self.stack.pop() {
            Some(v) => v,
            None => {
                return Err(VmError::EmptyStack);
            }
        };
        match val {
            Value::Bool(false) => {
                let r = self.set_pointer(to);
                proof {
                    assert(final(self).mach() =~~= (Machine {
                        pointer: to as int,
                        ..step_pop_only(old(self).mach())
                    }));
                }
                r
            }
            Value::Bool(_) => Ok(()),
            _ => Err(VmError::MismatchedType(String::from_str("boolean"))),
        }
    }
}

/// The machine with the top of the active frame's operand stack removed.
pub open spec fn step_pop_only(m: Machine) -> Machine {
    set_active(m, FrameModel { data: active(m).data.drop_last(), ..active(m) })
}

/// How an arithmetic helper's result relates to the spec of its opcode,
/// applied to the models of the value pair it was handed.
pub open spec fn arith_result(
    op: Binary,
    values: (Value, Value),
    r: Result<Value, VmError>,
) -> bool {
    match r {
        Result::Ok(v) => eval_binary(op, values.0.m(), values.1.m()) == Result::<
            ValueModel,
            ErrorModel,
        >::Ok(v.m()),
        Result::Err(e) => eval_binary(op, values.0.m(), values.1.m()) == Result::<
            ValueModel,
            ErrorModel,
        >::Err(e.m()),
    }
}

impl Vm {
    /// `Add` on `(top, second)`: wrapping integer addition, or float
    /// addition with an integer operand widened.
    fn add(&mut self, values: (Value, Value)) -> (r: Result<Value, VmError>)
        ensures
            *final(self) == *old(self),
            arith_result(Binary::Add, values, r),
    {
        match values {
            (Value::Int(x), Value::Int(y)) => Ok(Value::Int(x.wrapping_add(y))),
            (Value::Int(x), Value::Float(b)) => Ok(Value::Float(add_bits(int_to_bits(x), b))),
            (Value::Float(b), Value::Int(x)) => Ok(Value::Float(add_bits(int_to_bits(x), b))),
            (Value::Float(x), Value::Float(y)) => Ok(Value::Float(add_bits(x, y))),
            _ => Err(VmError::MismatchedType(String::from_str("number"))),
        }
    }

    /// `Sub` on `(top, second)`: top minus second for integers, wrapping;
    /// for a mixed pair the integer is widened and becomes the left
    /// operand of the float subtraction, whichever side it was popped from.
    fn sub(&mut self, values: (Value, Value)) -> (r: Result<Value, VmError>)
        ensures
            *final(self) == *old(self),
            arith_result(Binary::Sub, values, r),
    {
        match values {
            (Value::Int(x), Value::Int(y)) => Ok(Value::Int(x.wrapping_sub(y))),
            (Value::Int(x), Value::Float(b)) => Ok(Value::Float(sub_bits(int_to_bits(x), b))),
            (Value::Float(b), Value::Int(x)) => Ok(Value::Float(sub_bits(int_to_bits(x), b))),
            (Value::Float(x), Value::Float(y)) => Ok(Value::Float(sub_bits(x, y))),
            _ => Err(VmError::MismatchedType(String::from_str("number"))),
        }
    }

    /// The opcode tagged `Div` multiplies (see `eval_binary`): wrapping
    /// integer multiplication, or float multiplication with an integer
    /// operand widened.
    fn div(&mut self, values: (Value, Value)) -> (r: Result<Value, VmError>)
        ensures
            *final(self) == *old(self),
            arith_result(Binary::Div, values, r),
    {
        match values {
            (Value::Int(x), Value::Int(y)) => Ok(Value::Int(x.wrapping_mul(y))),
            (Value::Int(x), Value::Float(b)) => Ok(Value::Float(mul_bits(int_to_bits(x), b))),
            (Value::Float(b), Value::Int(x)) => Ok(Value::Float(mul_bits(int_to_bits(x), b))),
            (Value::Float(x), Value::Float(y)) => Ok(Value::Float(mul_bits(x, y))),
            _ => Err(VmError::MismatchedType(String::from_str("number"))),
        }
    }

    /// The opcode tagged `Mult` divides (see `eval_binary`): truncated
    /// integer division, a zero divisor failing with
    /// `DivisionByZero`; or float division with an integer operand widened
    /// (floats follow IEEE-754, so a zero divisor is not an error there).
    fn mult(&mut self, values: (Value, Value)) -> (r: Result<Value, VmError>)
        ensures
            *final(self) == *old(self),
            arith_result(Binary::Mult, values, r),
    {
        match values {
            (Value::Int(x), Value::Int(y)) => {
                if y == 0 {
                    Err(VmError::DivisionByZero)
                } else {
                    match x.checked_div(y) {
                        Some(q) => Ok(Value::Int(q)),
                        None => Ok(Value::Int(i64::MIN)),
                    }
                }
            }
            (Value::Int(x), Value::Float(b)) => Ok(Value::Float(div_bits(int_to_bits(x), b))),
            (Value::Float(b), Value::Int(x)) => Ok(Value::Float(div_bits(int_to_bits(x), b))),
            (Value::Float(x), Value::Float(y)) => Ok(Value::Float(div_bits(x, y))),
            _ => Err(VmError::MismatchedType(String::from_str("number"))),
        }
    }

    /// `Binary`: pops `(a, b)` (top, second), applies the opcode's
    /// operation, and pushes the result.
    fn binary_op(&mut self, op: Binary) -> (r: Result<(), VmError>)
        requires
            old(self).wf(),
            old(self).mach().frames.len() > 0,
        ensures
            final(self).wf(),
            after_step(step_binary(old(self).mach(), op), *final(self), r),
    {
        let values = match self.stack.pop2() {
            Some(p) => p,
            None => {
                return Err(VmError::EmptyStack);
            }
        };
        let result = match op {
            Binary::Add => self.add(values),
            Binary::Sub => self.sub(values),
            Binary::Mult => self.mult(values),
            Binary::Div => self.div(values),
        };
        let result = match result {
            Ok(v) => v,
            Err(e) => {
                return Err(e);
            }
        };
        self.stack.push(result);
        proof {
            assert(final(self).mach() =~~= step_binary(old(self).mach(), op));
        }
        Ok(())
    }

    /// One decoded instruction, dispatched to its handler; the pointer has
    /// already moved past it.
    fn run_instr(&mut self, instr: &Instr) -> (r: Result<(), VmError>)
        requires
            old(self).wf(),
            old(self).mach().frames.len() > 0,
        ensures
            final(self).wf(),
            after_step(step_instr(old(self).mach(), *instr), *final(self), r),
    {
        match instr {
            Instr::Jump(x) => self.set_pointer(*x),
            Instr::Store(id) => self.store(id.as_str()),
            Instr::Load(id) => self.load(id.as_str()),
            Instr::BuildList(n) => self.build_list(*n),
            Instr::Binary(op) => self.binary_op(*op),
            Instr::JumpIfFalse(x) => self.jump_if_false(*x),
            Instr::LoadConst(val) => {
                self.stack.push(val.clone());
                proof {
                    assert(final(self).mach() =~~= step_push(old(self).mach(), val.m()));
                }
                Ok(())
            }
            Instr::Print => self.print(),
        }
    }

    /// Runs the instruction sequence from the engine's current state, a
    /// fresh frame pushed first, to a clean halt (`Ok`) or the first error
    /// (`Err`); printed lines accumulate in the engine's output either
    /// way. The contract speaks of runs that reach a halt or an error: a
    /// sequence that jumps in a cycle for ever never returns.
    #[verifier::loop_isolation(false)]
    pub fn run(&mut self, instrs: Vec<Instr>) -> (r: Result<(), VmError>)
        requires
            old(self).wf(),
            halts(instrs@, start_machine(old(self).mach(), instrs@.len() as int)),
        ensures
            final(self).wf(),
            exists|n: nat|
                terminal(#[trigger] steps(
                    instrs@,
                    start_machine(old(self).mach(), instrs@.len() as int),
                    n,
                )) && after_run(
                    steps(instrs@, start_machine(old(self).mach(), instrs@.len() as int), n),
                    *final(self),
                    r,
                ),
    {
        let ghost m0 = start_machine(old(self).mach(), instrs@.len() as int);
        let frame = Frame::new(instrs.len());
        self.stack.push_frame(frame);
        proof {
            assert(self.mach() =~~= m0);
        }
        let ghost fuel = choose|n: nat| terminal(steps(instrs@, m0, n));
        let ghost mut k: nat = 0;
        while self.pointer < instrs.len()
            invariant
                self.wf(),
                self.mach().frames.len() > 0,
                k <= fuel,
                terminal(steps(instrs@, m0, fuel)),
                steps(instrs@, m0, k) == self.mach(),
            decreases fuel - k,
        {
            let ghost pre = self.mach();
            let instr = &instrs[self.pointer];
            self.pointer = self.pointer + 1;
            proof {
                assert(self.mach() =~~= (Machine { pointer: pre.pointer + 1, ..pre }));
                assert(step(instrs@, pre) == step_instr(
                    Machine { pointer: pre.pointer + 1, ..pre },
                    instrs@[pre.pointer],
                ));
            }
            let ghost mid = self.mach();
            match self.run_instr(instr) {
                Ok(()) => {
                    proof {
                        k = k + 1;
                        assert(steps(instrs@, m0, k) == self.mach());
                        assert(!terminal(steps(instrs@, m0, k)));
                        if k > fuel {
                            lemma_terminal_stable(instrs@, m0, fuel, k);
                            assert(false);
                        }
                        assert(self.mach().frames.len() == pre.frames.len());
                    }
                }
                Err(e) => {
                    proof {
                        k = k + 1;
                        assert(steps(instrs@, m0, k) == step_instr(mid, instrs@[pre.pointer]));
                        assert(terminal(steps(instrs@, m0, k)));
                        assert(after_run(steps(instrs@, m0, k), *final(self), Result::Err(e)));
                        assert(steps(
                            instrs@,
                            start_machine(old(self).mach(), instrs@.len() as int),
                            k,
                        ) == steps(instrs@, m0, k));
                    }
                    return Err(e);
                }
            }
        }
        proof {
            let fin = step(instrs@, steps(instrs@, m0, k));
            assert(fin == steps(instrs@, m0, k + 1));
            assert(fin == (Machine { status: Status::Halted, ..self.mach() }));
            assert(terminal(steps(instrs@, m0, k + 1)));
            assert(after_run(steps(instrs@, m0, k + 1), *final(self), Result::<(), VmError>::Ok(())));
            assert(steps(
                instrs@,
                start_machine(old(self).mach(), instrs@.len() as int),
                k + 1,
            ) == steps(instrs@, m0, k + 1));
        }
        Ok(())
    }
}

/// For all integers `a` and `b` whose sum fits in 64 bits, running
/// `[LoadConst(Int(a)), LoadConst(Int(b)), Binary(Add), Print]` from a
/// fresh engine halts cleanly and prints exactly one line: the decimal
/// rendering of `a + b`.
pub proof fn lemma_add_program_prints_sum(a: i64, b: i64)
    requires
        i64::MIN <= a + b <= i64::MAX,
    ensures
        ({
            let prog = seq![
                Instr::LoadConst(Value::Int(a)),
                Instr::LoadConst(Value::Int(b)),
                Instr::Binary(Binary::Add),
                Instr::Print,
            ];
            &&& halts(prog, fresh_start(prog))
            &&& steps(prog, fresh_start(prog), 5).status == Status::Halted
            &&& steps(prog, fresh_start(prog), 5).output =~= seq![int_text(a + b)]
        }),
{
    let prog = seq![
        Instr::LoadConst(Value::Int(a)),
        Instr::LoadConst(Value::Int(b)),
        Instr::Binary(Binary::Add),
        Instr::Print,
    ];
    reveal_with_fuel(steps, 6);
    let m0 = fresh_start(prog);
    let f0 = FrameModel { ret_addr: 4, locals: Map::empty(), data: Seq::empty() };
    assert(m0.frames =~= seq![f0]);
    assert(m0 =~~= (Machine {
        pointer: 0,
        frames: seq![f0],
        output: Seq::empty(),
        status: Status::Running,
    }));
    let m1 = steps(prog, m0, 1);
    assert(m1 == step(prog, m0));
    assert(m1 =~~= (Machine {
        pointer: 1,
        frames: seq![(FrameModel { data: seq![ValueModel::Int(a)], ..f0 })],
        output: Seq::empty(),
        status: Status::Running,
    }));
    let m2 = steps(prog, m0, 2);
    assert(m2 == step(prog, m1));
    assert(m2 =~~= (Machine {
        pointer: 2,
        frames: seq![
            (FrameModel { data: seq![ValueModel::Int(a), ValueModel::Int(b)], ..f0 }),
        ],
        output: Seq::empty(),
        status: Status::Running,
    }));
    let m3 = steps(prog, m0, 3);
    assert(m3 == step(prog, m2));
    let sum = vstd::wrapping::i64_specs::wrapping_add(b, a);
    assert(sum == a + b);
    assert(eval_binary(Binary::Add, ValueModel::Int(b), ValueModel::Int(a))
        == Result::<ValueModel, ErrorModel>::Ok(ValueModel::Int(sum)));
    assert(m3 =~~= (Machine {
        pointer: 3,
        frames: seq![(FrameModel { data: seq![ValueModel::Int(sum)], ..f0 })],
        output: Seq::empty(),
        status: Status::Running,
    }));
    let m4 = steps(prog, m0, 4);
    assert(m4 == step(prog, m3));
    assert(m4 =~~= (Machine {
        pointer: 4,
        frames: seq![(FrameModel { data: Seq::empty(), ..f0 })],
        output: seq![int_text(a + b)],
        status: Status::Running,
    }));
    let m5 = steps(prog, m0, 5);
    assert(m5 == step(prog, m4));
    assert(m5.status == Status::Halted);
    assert(m5.output =~= seq![int_text(a + b)]);
    assert(terminal(steps(prog, fresh_start(prog), 5)));
}

} // verus!
