//! The interface for hosts that embed the language.

use crate::eval;
use crate::eval::env::{
    bind_natives,
    storage_insert,
    storage_model,
    with_natives,
    EnvModel,
    Storage,
};
use crate::eval::error::ErrorModel;
use crate::eval::semantics;
use crate::eval::value::{bind, distinct_keys, ValueModel};
use std::rc::Rc;
use vstd::prelude::*;
use vstd::string::*;

verus! {

/// How many calls may be running at once in an environment that was not
/// told otherwise.
pub const DEFAULT_CALL_DEPTH: usize = 200;

/// What running a source text yields.
pub type Result = std::result::Result<Value, Error>;

/// The model of what running a source text yields.
pub open spec fn result_model(r: Result) -> std::result::Result<ValueModel, ErrorModel> {
    match r {
        Ok(v) => Ok(v.model()),
        Err(e) => Err(e.model()),
    }
}

/// Runs the source text `code` in `env`: every node in turn, up to the
/// first that fails or returns. Yields the value of the last node, which
/// is the unit value where the text produced none.
pub fn entry(env: &mut Env, code: &[u8]) -> (r: Result)
    ensures
        semantics::entry(old(env).model(), code@) == (semantics::Ran {
            env: final(env).model(),
            result: result_model(r),
        }),
{
    proof {
        use_type_invariant(&*env);
    }
    let mut session = Env { env: eval::env::Env::new(Vec::new(), 0) };
    std::mem::swap(env, &mut session);
    let mut inner = session.env;
    let r = eval::entry(&mut inner, code);
    *env = Env { env: inner };
    match r {
        Ok(value) => Ok(Value { value }),
        Err(inner) => Err(Error { inner }),
    }
}

/// An evaluation session: the bindings that successive source texts see.
pub struct Env {
    env: eval::env::Env,
}

impl Env {
    #[verifier::type_invariant]
    spec fn inv(&self) -> bool {
        self.env.wf() && self.env.model().frames.len() == 0
    }

    /// The model of this environment.
    pub closed spec fn model(&self) -> EnvModel {
        self.env.model()
    }

    /// An environment that binds the native functions and nothing else.
    pub fn new() -> (r: Self)
        ensures
            r.model() == (EnvModel {
                global: with_natives(Seq::empty()),
                frames: Seq::empty(),
                next_id: 0,
                output: Seq::empty(),
                call_depth: DEFAULT_CALL_DEPTH,
            }),
    {
        EnvBuilder::new().with_builtin().build()
    }

    /// A builder for an environment that binds nothing yet.
    pub fn builder() -> (r: EnvBuilder)
        ensures
            r.bindings() == Seq::<(Seq<char>, ValueModel)>::empty(),
            r.call_depth() == DEFAULT_CALL_DEPTH,
    {
        EnvBuilder::new()
    }

    /// Hands out the lines that `print` has written since the last call,
    /// and forgets them.
    pub fn take_output(&mut self) -> (lines: Vec<String>)
        ensures
            eval::env::lines_model(lines@) == old(self).model().output,
            final(self).model() == (EnvModel { output: Seq::empty(), ..old(self).model() }),
    {
        proof {
            use_type_invariant(&*self);
        }
        let mut session = Env { env: eval::env::Env::new(Vec::new(), 0) };
        std::mem::swap(self, &mut session);
        let mut inner = session.env;
        let lines = inner.take_output();
        *self = Env { env: inner };
        lines
    }
}

/// Collects the bindings of the global scope of an environment.
pub struct EnvBuilder {
    global: Storage,
    call_depth: usize,
}

impl EnvBuilder {
    #[verifier::type_invariant]
    spec fn inv(&self) -> bool {
        distinct_keys(storage_model(self.global@))
    }

    /// The bindings collected so far.
    pub closed spec fn bindings(&self) -> Seq<(Seq<char>, ValueModel)> {
        storage_model(self.global@)
    }

    /// How many calls may be running at once in the environment.
    pub closed spec fn call_depth(&self) -> usize {
        self.call_depth
    }

    fn new() -> (r: Self)
        ensures
            r.bindings() == Seq::<(Seq<char>, ValueModel)>::empty(),
            r.call_depth() == DEFAULT_CALL_DEPTH,
    {
        let global: Storage = Vec::new();
        assert(storage_model(global@) =~= Seq::empty());
        EnvBuilder { global, call_depth: DEFAULT_CALL_DEPTH }
    }

    /// Binds `name` to the boolean `value`.
    pub fn with_bool(self, name: &str, value: bool) -> (r: Self)
        ensures
            r.bindings() == bind(self.bindings(), name@, ValueModel::Bool(value)),
            r.call_depth() == self.call_depth(),
    {
        self.with_value(name, eval::value::Value::Bool(value))
    }

    /// Binds `name` to the integer `value`.
    pub fn with_int(self, name: &str, value: i32) -> (r: Self)
        ensures
            r.bindings() == bind(self.bindings(), name@, ValueModel::Int(value)),
            r.call_depth() == self.call_depth(),
    {
        self.with_value(name, eval::value::Value::Int(value))
    }

    /// Binds `name` to the text `value`.
    pub fn with_str(self, name: &str, value: &str) -> (r: Self)
        ensures
            r.bindings() == bind(self.bindings(), name@, ValueModel::Str(value@)),
            r.call_depth() == self.call_depth(),
    {
        self.with_value(name, eval::value::Value::Str(Rc::new(String::from_str(value))))
    }

    fn with_value(self, name: &str, value: eval::value::Value) -> (r: Self)
        ensures
            r.bindings() == bind(self.bindings(), name@, value.model()),
            r.call_depth() == self.call_depth(),
    {
        proof {
            use_type_invariant(&self);
        }
        let call_depth = self.call_depth;
        let mut global = self.global;
        storage_insert(&mut global, Rc::new(String::from_str(name)), value);
        EnvBuilder { global, call_depth }
    }

    /// Binds each native function to its name.
    pub fn with_builtin(self) -> (r: Self)
        ensures
            r.bindings() == with_natives(self.bindings()),
            r.call_depth() == self.call_depth(),
    {
        proof {
            use_type_invariant(&self);
        }
        let call_depth = self.call_depth;
        let mut global = self.global;
        bind_natives(&mut global);
        EnvBuilder { global, call_depth }
    }

    /// Lets at most `call_depth` calls run at once.
    pub fn with_call_depth(self, call_depth: usize) -> (r: Self)
        ensures
            r.bindings() == self.bindings(),
            r.call_depth() == call_depth,
    {
        proof {
            use_type_invariant(&self);
        }
        EnvBuilder { global: self.global, call_depth }
    }

    /// The environment whose global scope holds the bindings collected.
    pub fn build(self) -> (r: Env)
        ensures
            r.model() == (EnvModel {
                global: self.bindings(),
                frames: Seq::empty(),
                next_id: 0,
                output: Seq::empty(),
                call_depth: self.call_depth(),
            }),
    {
        proof {
            use_type_invariant(&self);
        }
        Env { env: eval::env::Env::new(self.global, self.call_depth) }
    }
}

/// A value that a source text produced.
#[derive(Debug)]
pub struct Value {
    value: eval::value::Value,
}

impl Value {
    /// The model of this value.
    pub closed spec fn model(&self) -> ValueModel {
        self.value.model()
    }

    /// Whether this is the unit value: the source text produced no value.
    pub fn is_unit(&self) -> (r: bool)
        ensures
            r == (self.model() is Unit),
    {
        match self.value {
            eval::value::Value::Unit => true,
            _ => false,
        }
    }

    /// The boolean that this value is, if it is one.
    pub fn as_bool(&self) -> (r: Option<bool>)
        ensures
            r == match self.model() {
                ValueModel::Bool(value) => Some(value),
                _ => None,
            },
    {
        match self.value {
            eval::value::Value::Bool(value) => Some(value),
            _ => None,
        }
    }

    /// The integer that this value is, if it is one.
    pub fn as_int(&self) -> (r: Option<i32>)
        ensures
            r == match self.model() {
                ValueModel::Int(value) => Some(value),
                _ => None,
            },
    {
        match self.value {
            eval::value::Value::Int(value) => Some(value),
            _ => None,
        }
    }

    /// The text that this value is, if it is text.
    pub fn as_str(&self) -> (r: Option<&str>)
        ensures
            match r {
                Some(s) => self.model() == ValueModel::Str(s@),
                None => !(self.model() is Str),
            },
    {
        match &self.value {
            eval::value::Value::Str(value) => Some(value.as_str()),
            _ => None,
        }
    }

    /// What is written for this value.
    pub fn render(&self) -> (r: String)
        ensures
            r@ == eval::render::render(self.model()),
    {
        self.value.render()
    }
}

/// The error that ended a run.
#[derive(Debug)]
pub struct Error {
    inner: eval::error::Error,
}

/// The number of line feeds among the first `upto` bytes of `code`.
pub open spec fn line_feeds(code: Seq<u8>, upto: int) -> nat
    decreases upto,
{
    if 0 < upto <= code.len() {
        if code[upto - 1] == 0x0a {
            line_feeds(code, upto - 1) + 1
        } else {
            line_feeds(code, upto - 1)
        }
    } else {
        0
    }
}

/// The offset at which the line that holds the offset `pos` starts: just
/// behind the last line feed before `pos`, or 0.
pub open spec fn line_start(code: Seq<u8>, pos: int) -> int
    decreases pos,
{
    if 0 < pos <= code.len() {
        if code[pos - 1] == 0x0a {
            pos
        } else {
            line_start(code, pos - 1)
        }
    } else {
        0
    }
}

/// A line starts at the beginning of the text or behind a line feed, and
/// holds no line feed before the offset that it was found for.
pub proof fn lemma_line_start(code: Seq<u8>, pos: int)
    requires
        0 <= pos <= code.len(),
    ensures
        0 <= line_start(code, pos) <= pos,
        line_start(code, pos) == 0 || code[line_start(code, pos) - 1] == 0x0a,
        forall|k: int| line_start(code, pos) <= k < pos ==> #[trigger] code[k] != 0x0a,
    decreases pos,
{
    if 0 < pos && code[pos - 1] != 0x0a {
        lemma_line_start(code, pos - 1);
    }
}

impl Error {
    /// The model of this error.
    pub closed spec fn model(&self) -> ErrorModel {
        self.inner.model()
    }

    /// The line and the column of this error in `code`, both counted from
    /// 0 and in bytes. `code` must be the source text that the error comes
    /// from.
    pub fn line_column(&self, code: &[u8]) -> (r: (usize, usize))
        requires
            self.model().pos() <= code@.len(),
        ensures
            r.0 == line_feeds(code@, self.model().pos() as int),
            r.1 == self.model().pos() - line_start(code@, self.model().pos() as int),
    {
        pos_to_line_column(self.inner.pos(), code)
    }

    /// The byte offset this error is reported at.
    pub fn pos(&self) -> (r: usize)
        ensures
            r == self.model().pos(),
    {
        self.inner.pos()
    }

    /// The message for this error.
    pub fn message(&self) -> (r: String)
        ensures
            r@ == self.model().message(),
    {
        self.inner.message()
    }
}

/// The line and the column of the offset `pos` in `code`, both counted
/// from 0 and in bytes.
pub fn pos_to_line_column(pos: usize, code: &[u8]) -> (r: (usize, usize))
    requires
        pos <= code@.len(),
    ensures
        r.0 == line_feeds(code@, pos as int),
        r.1 == pos - line_start(code@, pos as int),
{
    let mut line: usize = 0;
    let mut start: usize = 0;
    let mut i: usize = 0;
    while i < pos
        invariant
            i <= pos <= code@.len(),
            line <= i,
            start <= i,
            line == line_feeds(code@, i as int),
            start == line_start(code@, i as int),
        decreases pos - i,
    {
        if code[i] == 0x0a {
            line += 1;
            start = i + 1;
        }
        i += 1;
    }
    (line, pos - start)
}

} // verus!
