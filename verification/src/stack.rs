use vstd::prelude::*;
use crate::value::{Value, ValueModel, models_of};

verus! {

/// The mathematical shape of one activation frame: its return address, the
/// mapping its local bindings denote, and the models of its operand stack,
/// bottom first.
#[verifier::ext_equal]
pub ghost struct FrameModel {
    pub ret_addr: int,
    pub locals: Map<Seq<char>, ValueModel>,
    pub data: Seq<ValueModel>,
}

/// One call-stack activation: a return address to resume at, name-scoped
/// local bindings, and a LIFO operand stack.
pub struct Frame {
    ret_addr: usize,
    locals: Vec<(String, Value)>,
    data: Vec<Value>,
}

/// The name-to-value mapping that a sequence of bindings denotes; a later
/// binding for a name shadows an earlier one.
pub open spec fn bindings_map(entries: Seq<(String, Value)>) -> Map<Seq<char>, ValueModel>
    decreases entries.len(),
{
    if entries.len() == 0 {
        Map::empty()
    } else {
        bindings_map(entries.drop_last()).insert(entries.last().0@, entries.last().1.m())
    }
}

/// No two bindings share a name.
pub open spec fn distinct_names(entries: Seq<(String, Value)>) -> bool {
    forall|i: int, j: int|
        0 <= i < j < entries.len() ==> entries[i].0@ != entries[j].0@
}

/// A binding present in a well-formed sequence decides what the denoted
/// mapping holds for its name.
proof fn lemma_bindings_found(entries: Seq<(String, Value)>, i: int)
    requires
        distinct_names(entries),
        0 <= i < entries.len(),
    ensures
        bindings_map(entries).contains_key(entries[i].0@),
        bindings_map(entries)[entries[i].0@] == entries[i].1.m(),
    decreases entries.len(),
{
    if i < entries.len() - 1 {
        assert(entries.drop_last()[i] == entries[i]);
        lemma_bindings_found(entries.drop_last(), i);
    }
}

/// A name that no binding carries is absent from the denoted mapping.
proof fn lemma_bindings_absent(entries: Seq<(String, Value)>, name: Seq<char>)
    requires
        forall|i: int| 0 <= i < entries.len() ==> entries[i].0@ != name,
    ensures
        !bindings_map(entries).contains_key(name),
    decreases entries.len(),
{
    if entries.len() > 0 {
        lemma_bindings_absent(entries.drop_last(), name);
    }
}

/// Appending a binding for a fresh name denotes insertion into the mapping.
proof fn lemma_bindings_push(entries: Seq<(String, Value)>, e: (String, Value))
    ensures
        bindings_map(entries.push(e)) == bindings_map(entries).insert(e.0@, e.1.m()),
{
    assert(entries.push(e).drop_last() =~= entries);
}

/// Replacing the binding that holds a name denotes insertion for that name.
proof fn lemma_bindings_update(entries: Seq<(String, Value)>, i: int, e: (String, Value))
    requires
        distinct_names(entries),
        0 <= i < entries.len(),
        entries[i].0@ == e.0@,
    ensures
        bindings_map(entries.update(i, e)) =~= bindings_map(entries).insert(e.0@, e.1.m()),
    decreases entries.len(),
{
    let upd = entries.update(i, e);
    if i == entries.len() - 1 {
        assert(upd.drop_last() =~= entries.drop_last());
        assert(bindings_map(upd) =~= bindings_map(entries).insert(e.0@, e.1.m()));
    } else {
        assert(upd.drop_last() =~= entries.drop_last().update(i, e));
        assert(entries.drop_last()[i] == entries[i]);
        lemma_bindings_update(entries.drop_last(), i, e);
        assert(upd.last() == entries.last());
        assert(entries.last().0@ != e.0@);
        assert(bindings_map(upd) =~= bindings_map(entries).insert(e.0@, e.1.m()));
    }
}

impl Frame {
    /// The model of this frame.
    pub closed spec fn m(self) -> FrameModel {
        FrameModel {
            ret_addr: self.ret_addr as int,
            locals: bindings_map(self.locals@),
            data: models_of(self.data@),
        }
    }

    /// The frame's bindings carry distinct names.
    pub closed spec fn wf(self) -> bool {
        distinct_names(self.locals@)
    }

    /// A fresh frame: the given return address, no bindings, an empty
    /// operand stack.
    pub fn new(ret_addr: usize) -> (f: Self)
        ensures
            f.wf(),
            f.m() == (FrameModel {
                ret_addr: ret_addr as int,
                locals: Map::<Seq<char>, ValueModel>::empty(),
                data: Seq::<ValueModel>::empty(),
            }),
    {
        let f = Frame { ret_addr, locals: Vec::new(), data: Vec::new() };
        proof {
            assert(models_of(f.data@) =~= Seq::<ValueModel>::empty());
            assert(f.m() =~~= (FrameModel {
                ret_addr: ret_addr as int,
                locals: Map::<Seq<char>, ValueModel>::empty(),
                data: Seq::<ValueModel>::empty(),
            }));
        }
        f
    }
}

/// The call stack: an ordered sequence of frames, the last of which is the
/// active one. Every operand and local operation targets the active frame.
pub struct Stack {
    frames: Vec<Frame>,
}

impl Stack {
    /// The models of the frames, bottom first.
    pub closed spec fn m(self) -> Seq<FrameModel> {
        Seq::new(self.frames@.len(), |i: int| self.frames@[i].m())
    }

    /// Every frame is well formed.
    pub closed spec fn wf(self) -> bool {
        forall|i: int| 0 <= i < self.frames@.len() ==> (#[trigger] self.frames@[i]).wf()
    }

    /// A call stack made of the given frames.
    pub fn new(frames: Vec<Frame>) -> (s: Self)
        requires
            forall|i: int| 0 <= i < frames@.len() ==> (#[trigger] frames@[i]).wf(),
        ensures
            s.wf(),
            s.m() == Seq::new(frames@.len(), |i: int| frames@[i].m()),
    {
        Stack { frames }
    }

    /// Pushes a frame, which becomes the active one.
    pub fn push_frame(&mut self, frame: Frame)
        requires
            old(self).wf(),
            frame.wf(),
        ensures
            final(self).wf(),
            final(self).m() == old(self).m().push(frame.m()),
    {
        self.frames.push(frame);
        proof {
            assert(self.m() =~= old(self).m().push(frame.m()));
        }
    }

    /// Appends a value to the active frame's operand stack.
    pub fn push(&mut self, data: Value)
        requires
            old(self).wf(),
            old(self).m().len() > 0,
        ensures
            final(self).wf(),
            final(self).m() =~~= old(self).m().update(
                old(self).m().len() - 1,
                FrameModel {
                    data: old(self).m().last().data.push(data.m()),
                    ..old(self).m().last()
                },
            ),
    {
        let mut f = match self.frames.pop() {
            Some(f) => f,
            None => { proof { assert(false); } unreached() }
        };
        f.data.push(data);
        self.frames.push(f);
        proof {
            assert(models_of(f.data@) =~= old(self).m().last().data.push(data.m()));
            assert(self.m() =~~= old(self).m().update(
                old(self).m().len() - 1,
                FrameModel {
                    data: old(self).m().last().data.push(data.m()),
                    ..old(self).m().last()
                },
            ));
        }
    }

    /// Pushes the two values of the pair, the first one first.
    pub fn push2(&mut self, data: (Value, Value))
        requires
            old(self).wf(),
            old(self).m().len() > 0,
        ensures
            final(self).wf(),
            final(self).m() =~~= old(self).m().update(
                old(self).m().len() - 1,
                (FrameModel {
                    data: old(self).m().last().data.push(data.0.m()).push(data.1.m()),
                    ..old(self).m().last()
                }),
            ),
    {
        let (a, b) = data;
        self.push(a);
        self.push(b);
    }

    /// Removes and returns the most recently pushed value of the active
    /// frame's operand stack; `None` exactly when that stack is empty.
    pub fn pop(&mut self) -> (r: Option<Value>)
        requires
            old(self).wf(),
            old(self).m().len() > 0,
        ensures
            final(self).wf(),
            final(self).m().len() == old(self).m().len(),
            match r {
                Option::Some(v) => {
                    &&& old(self).m().last().data.len() > 0
                    &&& v.m() == old(self).m().last().data.last()
                    &&& final(self).m() =~~= old(self).m().update(
                        old(self).m().len() - 1,
                        (FrameModel {
                            data: old(self).m().last().data.drop_last(),
                            ..old(self).m().last()
                        }),
                    )
                },
                Option::None => {
                    &&& old(self).m().last().data.len() == 0
                    &&& final(self).m() == old(self).m()
                },
            },
    {
        let mut f = match self.frames.pop() {
            Some(f) => f,
            None => { proof { assert(false); } unreached() }
        };
        let r = f.data.pop();
        self.frames.push(f);
        proof {
            match &r {
                Option::Some(v) => {
                    assert(models_of(f.data@) =~= old(self).m().last().data.drop_last());
                    assert(v.m() == old(self).m().last().data.last());
                    assert(final(self).m() =~~= old(self).m().update(
                        old(self).m().len() - 1,
                        (FrameModel {
                            data: old(self).m().last().data.drop_last(),
                            ..old(self).m().last()
                        }),
                    ));
                },
                Option::None => {
                    assert(final(self).m() =~= old(self).m());
                },
            }
        }
        r
    }

    /// Two sequential pops: returns `(previous top of stack, the value
    /// beneath it)`, in that order, or `None` if fewer than two values are
    /// present (whatever was present has then been removed).
    pub fn pop2(&mut self) -> (r: Option<(Value, Value)>)
        requires
            old(self).wf(),
            old(self).m().len() > 0,
        ensures
            final(self).wf(),
            match r {
                Option::Some(p) => {
                    &&& old(self).m().last().data.len() >= 2
                    &&& p.0.m() == old(self).m().last().data.last()
                    &&& p.1.m() == old(self).m().last().data[old(self).m().last().data.len() - 2]
                    &&& final(self).m() =~~= old(self).m().update(
                        old(self).m().len() - 1,
                        (FrameModel {
                            data: old(self).m().last().data.take(
                                old(self).m().last().data.len() - 2,
                            ),
                            ..old(self).m().last()
                        }),
                    )
                },
                Option::None => {
                    &&& old(self).m().last().data.len() < 2
                    &&& final(self).m() =~~= old(self).m().update(
                        old(self).m().len() - 1,
                        (FrameModel { data: Seq::empty(), ..old(self).m().last() }),
                    )
                },
            },
    {
        let a = match self.pop() {
            Some(a) => a,
            None => {
                proof {
                    assert(final(self).m() =~~= old(self).m().update(
                        old(self).m().len() - 1,
                        (FrameModel { data: Seq::empty(), ..old(self).m().last() }),
                    ));
                }
                return None;
            }
        };
        let b = match self.pop() {
            Some(b) => b,
            None => {
                return None;
            }
        };
        proof {
            assert(old(self).m().last().data.drop_last().drop_last() =~=
                old(self).m().last().data.take(old(self).m().last().data.len() - 2));
        }
        Some((a, b))
    }

    /// Removes the top `n` values of the active frame's operand stack and
    /// returns them in their original push order, oldest first.
    pub fn pop_n(&mut self, n: usize) -> (r: Vec<Value>)
        requires
            old(self).wf(),
            old(self).m().len() > 0,
            n <= old(self).m().last().data.len(),
        ensures
            final(self).wf(),
            models_of(r@) =~= old(self).m().last().data.skip(
                old(self).m().last().data.len() - n,
            ),
            final(self).m() =~~= old(self).m().update(
                old(self).m().len() - 1,
                (FrameModel {
                    data: old(self).m().last().data.take(
                        old(self).m().last().data.len() - n,
                    ),
                    ..old(self).m().last()
                }),
            ),
    {
        let mut f = match self.frames.pop() {
            Some(f) => f,
            None => { proof { assert(false); } unreached() }
        };
        let tail = f.data.split_off(f.data.len() - n);
        self.frames.push(f);
        proof {
            assert(models_of(tail@) =~= old(self).m().last().data.skip(
                old(self).m().last().data.len() - n,
            ));
            assert(models_of(f.data@) =~= old(self).m().last().data.take(
                old(self).m().last().data.len() - n,
            ));
            assert(final(self).m() =~~= old(self).m().update(
                old(self).m().len() - 1,
                (FrameModel {
                    data: old(self).m().last().data.take(
                        old(self).m().last().data.len() - n,
                    ),
                    ..old(self).m().last()
                }),
            ));
        }
        tail
    }

    /// Binds `id` to `val` in the active frame's locals, replacing any
    /// earlier binding of the same name.
    pub fn store_local(&mut self, id: &str, val: Value)
        requires
            old(self).wf(),
            old(self).m().len() > 0,
        ensures
            final(self).wf(),
            final(self).m() =~~= old(self).m().update(
                old(self).m().len() - 1,
                (FrameModel {
                    locals: old(self).m().last().locals.insert(id@, val.m()),
                    ..old(self).m().last()
                }),
            ),
    {
        let mut f = match self.frames.pop() {
            Some(f) => f,
            None => { proof { assert(false); } unreached() }
        };
        let owned: String = id.to_owned();
        let ghost entries = f.locals@;
        let mut i: usize = 0;
        let mut found = false;
        while i < f.locals.len() && !found
            invariant
                f.locals@ == entries,
                i <= entries.len(),
                !found ==> forall|k: int| 0 <= k < i ==> entries[k].0@ != id@,
                found ==> i < entries.len() && entries[i as int].0@ == id@,
                owned@ == id@,
            decreases entries.len() - i, (if found { 0int } else { 1int }),
        {
            if f.locals[i].0 == owned {
                found = true;
            } else {
                i = i + 1;
            }
        }
        if found {
            proof {
                lemma_bindings_update(entries, i as int, (owned, val));
            }
            f.locals[i] = (owned, val);
        } else {
            proof {
                lemma_bindings_push(entries, (owned, val));
            }
            f.locals.push((owned, val));
        }
        self.frames.push(f);
        proof {
            assert(final(self).m() =~~= old(self).m().update(
                old(self).m().len() - 1,
                (FrameModel {
                    locals: old(self).m().last().locals.insert(id@, val.m()),
                    ..old(self).m().last()
                }),
            ));
        }
    }

    /// Returns a copy of the value bound to `id` in the active frame, or
    /// `None` exactly when the name is unbound there.
    #[verifier::loop_isolation(false)]
    pub fn get_local(&mut self, id: &str) -> (r: Option<Value>)
        requires
            old(self).wf(),
            old(self).m().len() > 0,
        ensures
            final(self).wf(),
            final(self).m() == old(self).m(),
            match r {
                Option::Some(v) => {
                    &&& old(self).m().last().locals.contains_key(id@)
                    &&& v.m() == old(self).m().last().locals[id@]
                },
                Option::None => !old(self).m().last().locals.contains_key(id@),
            },
    {
        let owned: String = id.to_owned();
        let idx: usize = self.frames.len() - 1;
        let f = &self.frames[idx];
        let ghost entries = f.locals@;
        proof {
            assert(self.frames@[idx as int].wf());
            assert(old(self).m()[idx as int] == self.frames@[idx as int].m());
            assert(old(self).m().last().locals == bindings_map(entries));
        }
        let mut i: usize = 0;
        while i < f.locals.len()
            invariant
                f.locals@ == entries,
                i <= entries.len(),
                forall|k: int| 0 <= k < i ==> entries[k].0@ != id@,
                owned@ == id@,
            decreases entries.len() - i,
        {
            if f.locals[i].0 == owned {
                proof {
                    lemma_bindings_found(entries, i as int);
                }
                return Some(f.locals[i].1.clone());
            }
            i = i + 1;
        }
        proof {
            lemma_bindings_absent(entries, id@);
        }
        None
    }

    /// The depth of the active frame's operand stack.
    pub fn data_len(&self) -> (n: usize)
        requires
            self.m().len() > 0,
        ensures
            n == self.m().last().data.len(),
    {
        let idx: usize = self.frames.len() - 1;
        let n: usize = self.frames[idx].data.len();
        proof {
            assert(self.m()[idx as int] == self.frames@[idx as int].m());
        }
        n
    }

    /// Pops the active frame entirely and returns its return address.
    pub fn ret(&mut self) -> (r: usize)
        requires
            old(self).wf(),
            old(self).m().len() > 0,
        ensures
            final(self).wf(),
            r == old(self).m().last().ret_addr,
            final(self).m() == old(self).m().drop_last(),
    {
        let f = match self.frames.pop() {
            Some(f) => f,
            None => { proof { assert(false); } unreached() }
        };
        proof {
            assert(final(self).m() =~= old(self).m().drop_last());
        }
        f.ret_addr
    }
}

} // verus!
