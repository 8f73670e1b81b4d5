//! Runtime values of the interpreter, the environment that binds names to them,
//! and the outcome of evaluating a node.
use vstd::prelude::*;

use std::rc::Rc;

use vstd::string::StringExecFns;

use crate::stages::ast::FunctionLiteral;

verus! {

#[derive(Debug)]
pub struct IntegerObject {
    pub value: i64,
}

#[derive(Debug)]
pub struct BooleanObject {
    pub value: bool,
}

#[derive(Debug)]
pub struct StringObject {
    pub value: String,
}

#[derive(Debug)]
pub struct NullObject;

/// A function value: the literal it was made from, shared with the syntax tree.
#[derive(Debug)]
pub struct FunctionObject {
    pub literal: Rc<FunctionLiteral>,
}

/// A runtime value.
#[derive(Debug)]
pub enum Object {
    Integer(IntegerObject),
    Boolean(BooleanObject),
    String(StringObject),
    Null(NullObject),
    Function(FunctionObject),
}

/// The model of a runtime value.
pub ghost enum Value {
    Integer(i64),
    Boolean(bool),
    Str(Seq<char>),
    Null,
    Function(Rc<FunctionLiteral>),
}

impl View for Object {
    type V = Value;

    open spec fn view(&self) -> Value {
        match self {
            Object::Integer(o) => Value::Integer(o.value),
            Object::Boolean(o) => Value::Boolean(o.value),
            Object::String(o) => Value::Str(o.value@),
            Object::Null(_) => Value::Null,
            Object::Function(o) => Value::Function(o.literal),
        }
    }
}

impl Object {
    pub fn null() -> (r: Object)
        ensures
            r@ == Value::Null,
    {
        Object::Null(NullObject)
    }

    pub fn integer(value: i64) -> (r: Object)
        ensures
            r@ == Value::Integer(value),
    {
        Object::Integer(IntegerObject { value })
    }

    pub fn boolean(value: bool) -> (r: Object)
        ensures
            r@ == Value::Boolean(value),
    {
        Object::Boolean(BooleanObject { value })
    }

    /// A copy of this value; function values share their literal.
    pub fn duplicate(&self) -> (r: Object)
        ensures
            r@ == self@,
    {
        match self {
            Object::Integer(o) => Object::Integer(IntegerObject { value: o.value }),
            Object::Boolean(o) => Object::Boolean(BooleanObject { value: o.value }),
            Object::String(o) => Object::String(StringObject { value: o.value.clone() }),
            Object::Null(_) => Object::Null(NullObject),
            Object::Function(o) => Object::Function(FunctionObject { literal: o.literal.clone() }),
        }
    }
}

/// A runtime error, with its message.
#[derive(Debug)]
pub struct Error {
    pub message: String,
}

/// The outcome of evaluating a node: a value that flows on, a value returned
/// explicitly (which stops the enclosing function), or an error.
#[derive(Debug)]
pub enum Return<T> {
    Implicit(T),
    Explicit(T),
    Error(Error),
}

/// The model of an evaluation outcome.
pub ghost enum Outcome {
    Implicit(Value),
    Explicit(Value),
    Error(Seq<char>),
}

impl View for Return<Object> {
    type V = Outcome;

    open spec fn view(&self) -> Outcome {
        match self {
            Return::Implicit(o) => Outcome::Implicit(o@),
            Return::Explicit(o) => Outcome::Explicit(o@),
            Return::Error(e) => Outcome::Error(e.message@),
        }
    }
}

impl Error {
    /// An error outcome with the given message.
    pub fn throw(message: String) -> (r: Return<Object>)
        ensures
            r@ == Outcome::Error(message@),
    {
        Return::Error(Error { message })
    }
}

/// The text of `a` followed by that of `b`.
pub(crate) fn concat_str(a: &str, b: &str) -> (r: String)
    ensures
        r@ == a@ + b@,
{
    let mut s = a.to_owned();
    s.append(b);
    s
}

/// The model of an environment: frames of bindings, innermost last.
pub type EnvView = Seq<Seq<(Seq<char>, Value)>>;

/// The index of the last binding of `name` in a frame, or -1.
pub open spec fn frame_index(frame: Seq<(Seq<char>, Value)>, name: Seq<char>) -> int
    decreases frame.len(),
{
    if frame.len() == 0 {
        -1
    } else if frame.last().0 == name {
        frame.len() - 1
    } else {
        frame_index(frame.drop_last(), name)
    }
}

pub proof fn lemma_frame_index(frame: Seq<(Seq<char>, Value)>, name: Seq<char>)
    ensures
        -1 <= frame_index(frame, name) < frame.len(),
        frame_index(frame, name) >= 0 ==> frame[frame_index(frame, name)].0 == name,
    decreases frame.len(),
{
    if frame.len() > 0 {
        lemma_frame_index(frame.drop_last(), name);
    }
}

/// What a name is bound to: its binding in the innermost frame that binds it.
pub open spec fn env_get(env: EnvView, name: Seq<char>) -> Option<Value>
    decreases env.len(),
{
    if env.len() == 0 {
        None
    } else {
        let i = frame_index(env.last(), name);
        if i >= 0 {
            Some(env.last()[i].1)
        } else {
            env_get(env.drop_last(), name)
        }
    }
}

/// Bind a name in the innermost frame, replacing any binding of it there.
pub open spec fn env_set(env: EnvView, name: Seq<char>, value: Value) -> EnvView {
    if env.len() == 0 {
        seq![seq![(name, value)]]
    } else {
        let frame = env.last();
        let i = frame_index(frame, name);
        let frame = if i >= 0 { frame.update(i, (name, value)) } else { frame.push((name, value)) };
        env.update(env.len() - 1, frame)
    }
}

/// A nested environment: a new, empty innermost frame.
pub open spec fn env_nest(env: EnvView) -> EnvView {
    env.push(Seq::empty())
}

/// The model of one frame of bindings.
pub open spec fn frame_view(frame: Seq<(String, Object)>) -> Seq<(Seq<char>, Value)> {
    frame.map_values(|b: (String, Object)| (b.0@, b.1@))
}

/// The position of the last binding of `key` in a frame.
fn find_in_frame(frame: &Vec<(String, Object)>, key: &String) -> (r: Option<usize>)
    ensures
        match r {
            Some(i) => i as int == frame_index(frame_view(frame@), key@) && i < frame.len(),
            None => frame_index(frame_view(frame@), key@) < 0,
        },
{
    let ghost fv = frame_view(frame@);
    let mut j = frame.len();
    assert(fv.take(j as int) =~= fv);
    while j > 0
        invariant
            j <= frame.len(),
            fv == frame_view(frame@),
            frame_index(fv, key@) == frame_index(fv.take(j as int), key@),
        decreases j,
    {
        assert(fv.take(j as int).drop_last() =~= fv.take(j - 1));
        assert(fv[j - 1] == (frame@[j - 1].0@, frame@[j - 1].1@));
        if frame[j - 1].0 == *key {
            return Some(j - 1);
        }
        j = j - 1;
    }
    assert(fv.take(0) =~= Seq::<(Seq<char>, Value)>::empty());
    None
}

/// Names bound to values, in nested frames.
#[derive(Debug)]
pub struct Environment {
    frames: Vec<Vec<(String, Object)>>,
    faulted: bool,
}

impl View for Environment {
    type V = EnvView;

    closed spec fn view(&self) -> EnvView {
        self.frames@.map_values(|f: Vec<(String, Object)>| frame_view(f@))
    }
}

impl Environment {
    /// Whether an evaluation in this environment met an operation that
    /// overflows or divides by zero.
    pub closed spec fn faulted(&self) -> bool {
        self.faulted
    }

    /// Whether an evaluation in this environment met an operation that
    /// overflows or divides by zero.
    pub fn has_faulted(&self) -> (r: bool)
        ensures
            r == self.faulted(),
    {
        self.faulted
    }

    /// Record that an evaluation met an operation that overflows or divides by zero.
    pub fn fault(&mut self)
        ensures
            final(self)@ == old(self)@,
            final(self).faulted(),
    {
        self.faulted = true;
    }

    /// An environment with one empty frame.
    pub fn new() -> (r: Environment)
        ensures
            r@ == seq![Seq::<(Seq<char>, Value)>::empty()],
            !r.faulted(),
    {
        let mut frames: Vec<Vec<(String, Object)>> = Vec::new();
        frames.push(Vec::new());
        let r = Environment { frames, faulted: false };
        assert(r@.len() == 1);
        assert(r@[0] =~= Seq::<(Seq<char>, Value)>::empty());
        assert(r@ =~= seq![Seq::<(Seq<char>, Value)>::empty()]);
        r
    }

    /// What a name is bound to.
    pub fn get(&self, name: &str) -> (r: Option<Object>)
        ensures
            match r {
                Some(o) => env_get(self@, name@) == Some(o@),
                None => env_get(self@, name@) is None,
            },
    {
        let key = name.to_owned();
        let mut k = self.frames.len();
        assert(self@.take(k as int) =~= self@);
        while k > 0
            invariant
                k <= self.frames.len(),
                key@ == name@,
                self@.len() == self.frames.len(),
                env_get(self@, name@) == env_get(self@.take(k as int), name@),
            decreases k,
        {
            assert(self@.take(k as int).drop_last() =~= self@.take(k - 1));
            assert(self@.take(k as int).last() == frame_view(self.frames@[k - 1]@));
            let frame = &self.frames[k - 1];
            match find_in_frame(frame, &key) {
                Some(j) => {
                    return Some(frame[j].1.duplicate());
                },
                None => {},
            }
            k = k - 1;
        }
        assert(self@.take(0) =~= Seq::<Seq<(Seq<char>, Value)>>::empty());
        None
    }

    /// Bind a name in the innermost frame.
    pub fn set(&mut self, name: &str, value: Object)
        ensures
            final(self)@ == env_set(old(self)@, name@, value@),
            final(self).faulted() == old(self).faulted(),
    {
        let key = name.to_owned();
        let n = self.frames.len();
        if n == 0 {
            let mut frame: Vec<(String, Object)> = Vec::new();
            frame.push((key, value));
            self.frames.push(frame);
            assert(self@[0] =~= seq![(name@, value@)]);
            assert(self@ =~= env_set(old(self)@, name@, value@));
            return;
        }
        let mut frame = self.frames.pop().unwrap();
        assert(frame_view(frame@) == old(self)@.last());
        let ghost fv = frame_view(frame@);
        match find_in_frame(&frame, &key) {
            Some(j) => {
                frame.set(j, (key, value));
                assert(frame_view(frame@) =~= fv.update(j as int, (name@, value@)));
            },
            None => {
                frame.push((key, value));
                assert(frame_view(frame@) =~= fv.push((name@, value@)));
            },
        }
        self.frames.push(frame);
        assert(self@ =~= env_set(old(self)@, name@, value@));
    }

    /// A copy of this environment with a new, empty innermost frame.
    pub fn nest(&self) -> (r: Environment)
        ensures
            r@ == env_nest(self@),
            !r.faulted(),
    {
        let mut frames: Vec<Vec<(String, Object)>> = Vec::new();
        let mut k: usize = 0;
        while k < self.frames.len()
            invariant
                k <= self.frames.len(),
                self@.len() == self.frames.len(),
                frames@.map_values(|f: Vec<(String, Object)>| frame_view(f@)) =~= self@.take(k as int),
            decreases self.frames.len() - k,
        {
            let frame = &self.frames[k];
            let ghost fv = frame_view(frame@);
            let mut copy: Vec<(String, Object)> = Vec::new();
            let mut j: usize = 0;
            while j < frame.len()
                invariant
                    j <= frame.len(),
                    fv == frame_view(frame@),
                    frame_view(copy@) =~= fv.take(j as int),
                decreases frame.len() - j,
            {
                let name_copy = frame[j].0.clone();
                let value_copy = frame[j].1.duplicate();
                let ghost prev = copy@;
                copy.push((name_copy, value_copy));
                assert(fv[j as int] == (frame@[j as int].0@, frame@[j as int].1@));
                assert(copy@ == prev.push((name_copy, value_copy)));
                assert(frame_view(prev) =~= fv.take(j as int));
                assert(frame_view(copy@) =~= frame_view(prev).push((name_copy@, value_copy@)));
                assert(frame_view(copy@) =~= fv.take(j + 1));
                j = j + 1;
            }
            assert(fv.take(j as int) =~= fv);
            let ghost before = frames@;
            frames.push(copy);
            assert(frames@.map_values(|f: Vec<(String, Object)>| frame_view(f@)) =~= before.map_values(|f: Vec<(String, Object)>| frame_view(f@)).push(fv));
            assert(self@.take(k + 1) =~= self@.take(k as int).push(self@[k as int]));
            k = k + 1;
        }
        let ghost before = frames@;
        let empty: Vec<(String, Object)> = Vec::new();
        assert(frame_view(empty@) =~= Seq::<(Seq<char>, Value)>::empty());
        frames.push(empty);
        let r = Environment { frames, faulted: false };
        assert(r@ =~= before.map_values(|f: Vec<(String, Object)>| frame_view(f@)).push(Seq::<(Seq<char>, Value)>::empty()));
        assert(self@.take(k as int) =~= self@);
        r
    }
}

/// Frames with the same names at the same places find a name at the same place.
proof fn lemma_frame_index_same_names(f: Seq<(Seq<char>, Value)>, g: Seq<(Seq<char>, Value)>, name: Seq<char>)
    requires
        f.len() == g.len(),
        forall|k: int| 0 <= k < f.len() ==> (#[trigger] f[k]).0 == g[k].0,
    ensures
        frame_index(f, name) == frame_index(g, name),
    decreases f.len(),
{
    if f.len() > 0 {
        lemma_frame_index_same_names(f.drop_last(), g.drop_last(), name);
    }
}

/// Reading a name right after binding it gives the bound value.
pub proof fn law_get_after_set(env: EnvView, name: Seq<char>, value: Value)
    ensures
        env_get(env_set(env, name, value), name) == Some(value),
{
    let after = env_set(env, name, value);
    if env.len() > 0 {
        let frame = env.last();
        let i = frame_index(frame, name);
        lemma_frame_index(frame, name);
        if i >= 0 {
            let f2 = frame.update(i, (name, value));
            lemma_frame_index_same_names(frame, f2, name);
        } else {
            assert(after.last() == frame.push((name, value)));
        }
    }
}

/// Binding a name leaves what every other name reads as it was.
pub proof fn law_set_keeps_others(env: EnvView, name: Seq<char>, value: Value, other: Seq<char>)
    requires
        other != name,
    ensures
        env_get(env_set(env, name, value), other) == env_get(env, other),
{
    let after = env_set(env, name, value);
    if env.len() == 0 {
        let f2 = seq![(name, value)];
        assert(after == seq![f2]);
        assert(f2.drop_last() =~= Seq::<(Seq<char>, Value)>::empty());
        assert(f2.last() == (name, value));
        assert(frame_index(f2.drop_last(), other) == -1);
        assert(frame_index(f2, other) == -1);
        assert(after.drop_last() =~= Seq::<Seq<(Seq<char>, Value)>>::empty());
        assert(env_get(after, other) == env_get(after.drop_last(), other));
    } else {
        let frame = env.last();
        let i = frame_index(frame, name);
        lemma_frame_index(frame, name);
        lemma_frame_index(frame, other);
        let f2 = if i >= 0 { frame.update(i, (name, value)) } else { frame.push((name, value)) };
        assert(after.last() == f2);
        assert(after.drop_last() =~= env.drop_last());
        if i >= 0 {
            lemma_frame_index_same_names(frame, f2, other);
        } else {
            assert(f2.drop_last() =~= frame);
            assert(frame_index(f2, other) == frame_index(frame, other));
        }
        let j = frame_index(frame, other);
        if j >= 0 {
            assert(f2[j] == frame[j]);
            assert(env_get(after, other) == Some(f2[j].1));
        } else {
            assert(env_get(after, other) == env_get(after.drop_last(), other));
        }
    }
}

/// A nested environment reads every name as the environment it was made from.
pub proof fn law_nest_keeps_names(env: EnvView, name: Seq<char>)
    ensures
        env_get(env_nest(env), name) == env_get(env, name),
{
    assert(env_nest(env).drop_last() =~= env);
}

} // verus!
