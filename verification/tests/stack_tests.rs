use stack_vm::stack::Frame;
use stack_vm::stack::Stack;
use stack_vm::value::Value;

fn one_frame_stack() -> Stack {
    Stack::new(vec![Frame::new(0)])
}

#[test]
fn pop_returns_most_recent_push() {
    let mut s = one_frame_stack();
    s.push(Value::Int(1));
    s.push(Value::Int(2));
    assert_eq!(s.pop(), Some(Value::Int(2)));
    assert_eq!(s.pop(), Some(Value::Int(1)));
    assert_eq!(s.pop(), None);
}

#[test]
fn pop2_returns_top_then_beneath() {
    let mut s = one_frame_stack();
    s.push2((Value::Int(1), Value::Int(2)));
    assert_eq!(s.pop2(), Some((Value::Int(2), Value::Int(1))));
}

#[test]
fn pop2_on_short_stack_returns_none() {
    let mut s = one_frame_stack();
    s.push(Value::Int(1));
    assert_eq!(s.pop2(), None);
}

#[test]
fn pop_n_returns_values_in_push_order() {
    let mut s = one_frame_stack();
    s.push(Value::Int(1));
    s.push(Value::Int(2));
    s.push(Value::Int(3));
    let popped = s.pop_n(2);
    assert_eq!(popped, vec![Value::Int(2), Value::Int(3)]);
    assert_eq!(s.pop(), Some(Value::Int(1)));
}

#[test]
fn locals_round_trip_and_overwrite() {
    let mut s = one_frame_stack();
    s.store_local("x", Value::Int(1));
    s.store_local("y", Value::Bool(true));
    s.store_local("x", Value::Int(2));
    assert_eq!(s.get_local("x"), Some(Value::Int(2)));
    assert_eq!(s.get_local("y"), Some(Value::Bool(true)));
    assert_eq!(s.get_local("z"), None);
}

#[test]
fn ret_pops_the_frame_and_returns_its_address() {
    let mut s = Stack::new(vec![Frame::new(3), Frame::new(9)]);
    assert_eq!(s.ret(), 9);
    assert_eq!(s.ret(), 3);
}

#[test]
fn locals_are_scoped_to_the_active_frame() {
    let mut s = one_frame_stack();
    s.store_local("x", Value::Int(1));
    s.push_frame(Frame::new(7));
    assert_eq!(s.get_local("x"), None);
    s.store_local("x", Value::Int(2));
    assert_eq!(s.get_local("x"), Some(Value::Int(2)));
    s.ret();
    assert_eq!(s.get_local("x"), Some(Value::Int(1)));
}
