use vstd::prelude::*;
use crate::float::{float_text, render_bits};

verus! {

/// A runtime value of the machine: a closed union of floats (held as their
/// IEEE-754 binary64 bit pattern), 64-bit signed integers, owned text,
/// booleans, and lists that own their elements (which may nest).
#[derive(Debug, PartialEq)]
pub enum Value {
    Float(u64),
    Int(i64),
    String(String),
    Bool(bool),
    List(Vec<Value>),
}

/// The mathematical shape of a `Value`: text becomes a sequence of
/// characters and a list becomes a sequence of element models. Contracts
/// throughout the engine speak of values through this model.
#[verifier::ext_equal]
pub ghost enum ValueModel {
    Float(u64),
    Int(i64),
    Str(Seq<char>),
    Bool(bool),
    List(Seq<ValueModel>),
}

impl Value {
    /// The model of this value.
    pub open spec fn m(self) -> ValueModel
        decreases self, 0int,
    {
        match self {
            Value::Float(bits) => ValueModel::Float(bits),
            Value::Int(i) => ValueModel::Int(i),
            Value::String(s) => ValueModel::Str(s@),
            Value::Bool(b) => ValueModel::Bool(b),
            Value::List(vs) => ValueModel::List(seq_m(vs@, 0)),
        }
    }
}

/// The models of the values `vs[i ..]`, in order.
pub open spec fn seq_m(vs: Seq<Value>, i: int) -> Seq<ValueModel>
    decreases vs, vs.len() - i,
{
    if i < 0 || i >= vs.len() {
        Seq::empty()
    } else {
        seq![vs[i].m()] + seq_m(vs, i + 1)
    }
}

/// The models of a sequence of values, element by element.
pub open spec fn models_of(vs: Seq<Value>) -> Seq<ValueModel> {
    Seq::new(vs.len(), |i: int| vs[i].m())
}

/// The tail-by-tail definition of `seq_m` agrees with the element-by-element
/// `models_of`, so `Value::m` maps a list to the models of its elements.
pub broadcast proof fn lemma_models_of(vs: Seq<Value>, i: int)
    requires
        0 <= i <= vs.len(),
    ensures
        #[trigger] seq_m(vs, i) =~= models_of(vs).skip(i),
    decreases vs.len() - i,
{
    if i < vs.len() {
        lemma_models_of(vs, i + 1);
    }
}

impl Clone for Value {
    /// A deep copy: the clone has the same model as the original.
    #[verifier::loop_isolation(false)]
    fn clone(&self) -> (r: Self)
        ensures
            r.m() == self.m(),
        decreases *self,
    {
        match self {
            Value::Float(bits) => Value::Float(*bits),
            Value::Int(i) => Value::Int(*i),
            Value::String(s) => Value::String(s.clone()),
            Value::Bool(b) => Value::Bool(*b),
            Value::List(vs) => {
                let mut out: Vec<Value> = Vec::new();
                let mut j: usize = 0;
                while j < vs.len()
                    invariant
                        j <= vs.len(),
                        out@.len() == j,
                        forall|k: int| 0 <= k < j ==> out@[k].m() == vs@[k].m(),
                    decreases vs.len() - j,
                {
                    out.push(vs[j].clone());
                    j = j + 1;
                }
                proof {
                    lemma_models_of(out@, 0);
                    lemma_models_of(vs@, 0);
                    assert(seq_m(out@, 0) =~= seq_m(vs@, 0));
                }
                Value::List(out)
            }
        }
    }
}

/// The decimal digit character for `d`, which must lie in `0 ..= 9`.
pub open spec fn digit_char(d: int) -> char {
    if d == 0 { '0' }
    else if d == 1 { '1' }
    else if d == 2 { '2' }
    else if d == 3 { '3' }
    else if d == 4 { '4' }
    else if d == 5 { '5' }
    else if d == 6 { '6' }
    else if d == 7 { '7' }
    else if d == 8 { '8' }
    else { '9' }
}

/// The decimal rendering of a natural number, most significant digit first.
pub open spec fn nat_text(n: nat) -> Seq<char>
    decreases n,
{
    if n < 10 {
        seq![digit_char(n as int)]
    } else {
        nat_text(n / 10).push(digit_char((n % 10) as int))
    }
}

/// The decimal rendering of an integer: a minus sign for negatives, then
/// the digits of its magnitude.
pub open spec fn int_text(i: int) -> Seq<char> {
    if i < 0 {
        seq!['-'] + nat_text((-i) as nat)
    } else {
        nat_text(i as nat)
    }
}

/// The rendering of a boolean: the words `true` and `false`.
pub open spec fn bool_text(b: bool) -> Seq<char> {
    if b { "true"@ } else { "false"@ }
}

/// The textual rendering of a value, as the `Print` instruction emits it:
/// numbers and booleans in their natural decimal or word form, text as
/// itself, and a list as the bracketed, comma-separated renderings of its
/// elements.
pub open spec fn value_text(v: ValueModel) -> Seq<char>
    decreases v, 0int,
{
    match v {
        ValueModel::Float(bits) => float_text(bits),
        ValueModel::Int(i) => int_text(i as int),
        ValueModel::Str(s) => s,
        ValueModel::Bool(b) => bool_text(b),
        ValueModel::List(elems) => seq!['['] + items_text(elems, 0) + seq![']'],
    }
}

/// The renderings of `elems[i ..]`, each element after the first of the
/// list prefixed by a comma and a space.
pub open spec fn items_text(elems: Seq<ValueModel>, i: int) -> Seq<char>
    decreases elems, elems.len() - i,
{
    if i < 0 || i >= elems.len() {
        Seq::empty()
    } else {
        let sep: Seq<char> = if i == 0 { Seq::empty() } else { seq![',', ' '] };
        sep + value_text(elems[i]) + items_text(elems, i + 1)
    }
}

/// Relies on String::push: appends one character to the end of the string.
#[verifier::external_body]
pub fn push_char(s: &mut String, c: char)
    ensures
        final(s)@ == old(s)@.push(c),
{
    s.push(c)
}

/// The digit character for a value below ten.
fn digit_of(d: u64) -> (c: char)
    requires
        d < 10,
    ensures
        c == digit_char(d as int),
{
    if d == 0 { '0' }
    else if d == 1 { '1' }
    else if d == 2 { '2' }
    else if d == 3 { '3' }
    else if d == 4 { '4' }
    else if d == 5 { '5' }
    else if d == 6 { '6' }
    else if d == 7 { '7' }
    else if d == 8 { '8' }
    else { '9' }
}

/// Renders a natural number in decimal.
fn render_nat(n: u64) -> (s: String)
    ensures
        s@ == nat_text(n as nat),
    decreases n,
{
    if n < 10 {
        let mut s = String::new();
        push_char(&mut s, digit_of(n));
        proof {
            assert(s@ =~= nat_text(n as nat));
        }
        s
    } else {
        let mut s = render_nat(n / 10);
        push_char(&mut s, digit_of(n % 10));
        s
    }
}

/// Renders a signed integer in decimal.
pub fn render_int(i: i64) -> (s: String)
    ensures
        s@ == int_text(i as int),
{
    if i >= 0 {
        render_nat(i as u64)
    } else {
        let wide: i128 = i as i128;
        let mag: u64 = (-wide) as u64;
        proof {
            assert(mag == -(i as int));
        }
        let mut s = String::new();
        push_char(&mut s, '-');
        let digits = render_nat(mag);
        s.append(digits.as_str());
        proof {
            assert(s@ =~= int_text(i as int));
        }
        s
    }
}

/// Renders a value as `Print` shows it.
pub fn render_value(v: &Value) -> (s: String)
    ensures
        s@ == value_text(v.m()),
    decreases *v, 0int,
{
    match v {
        Value::Float(bits) => render_bits(*bits),
        Value::Int(i) => render_int(*i),
        Value::String(s) => s.clone(),
        Value::Bool(b) => {
            if *b {
                String::from_str("true")
            } else {
                String::from_str("false")
            }
        }
        Value::List(vs) => {
            let mut s = String::new();
            push_char(&mut s, '[');
            let items = render_items(vs, 0);
            s.append(items.as_str());
            push_char(&mut s, ']');
            proof {
                assert(s@ =~= value_text(v.m()));
            }
            s
        }
    }
}

/// Renders the elements of `vs` from position `i` on, separating elements
/// with a comma and a space.
fn render_items(vs: &Vec<Value>, i: usize) -> (s: String)
    requires
        i <= vs@.len(),
    ensures
        s@ == items_text(seq_m(vs@, 0), i as int),
    decreases *vs, vs@.len() - i,
{
    proof {
        lemma_models_of(vs@, 0);
    }
    if i >= vs.len() {
        String::new()
    } else {
        let mut s = String::new();
        if i > 0 {
            push_char(&mut s, ',');
            push_char(&mut s, ' ');
        }
        let head = render_value(&vs[i]);
        s.append(head.as_str());
        let rest = render_items(vs, i + 1);
        s.append(rest.as_str());
        proof {
            assert(seq_m(vs@, 0)[i as int] == vs@[i as int].m());
            assert(s@ =~= items_text(seq_m(vs@, 0), i as int));
        }
        s
    }
}

} // verus!
