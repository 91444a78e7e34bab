//! The environment: a stack of scopes over a global scope.

use crate::eval::value::{
    bind,
    distinct_keys,
    find,
    lemma_bind_distinct,
    lookup,
    same_text,
    Value,
    ValueModel,
};
use crate::eval::value::builtin::all_;
use crate::eval::value::Builtin;
use crate::parse::ast::Ident;
use std::rc::Rc;
use vstd::prelude::*;
use vstd::string::*;

verus! {

/// The bindings of one scope: each symbol once, in the order in which the
/// symbols were first bound.
pub type Storage = Vec<(Rc<String>, Value)>;

/// The model of the bindings of one scope.
pub type Bindings = Seq<(Seq<char>, ValueModel)>;

/// The state of an evaluation session.
pub struct Env {
    /// The global scope.
    pub global: Storage,
    /// The scopes of the calls that are running, the innermost last.
    pub frames: Vec<Storage>,
    /// Emptied scopes, kept to be used again.
    pub cached: Vec<Storage>,
    /// The number that the next closure record gets.
    pub next_id: u64,
    /// The lines that `print` has written and that nobody has taken yet.
    pub output: Vec<String>,
    /// How many calls may be running at once.
    pub call_depth: usize,
}

/// The model of an environment. The scopes that are kept for reuse are no
/// part of it.
pub struct EnvModel {
    pub global: Bindings,
    pub frames: Seq<Bindings>,
    pub next_id: u64,
    pub output: Seq<Seq<char>>,
    pub call_depth: usize,
}

/// The model of the bindings `s`.
pub open spec fn storage_model(s: Seq<(Rc<String>, Value)>) -> Bindings {
    Seq::new(s.len(), |i: int| (s[i].0@, s[i].1.model()))
}

/// The models of the scopes `s`.
pub open spec fn frames_model(s: Seq<Storage>) -> Seq<Bindings> {
    Seq::new(s.len(), |i: int| storage_model(s[i]@))
}

/// The characters of the lines `s`.
pub open spec fn lines_model(s: Seq<String>) -> Seq<Seq<char>> {
    Seq::new(s.len(), |i: int| s[i]@)
}

/// The value of `sym` in the innermost of the first `upto` scopes of
/// `frames` that binds it.
pub open spec fn frames_get(frames: Seq<Bindings>, sym: Seq<char>, upto: int) -> Option<ValueModel>
    decreases upto,
{
    if 0 < upto <= frames.len() {
        match lookup(frames[upto - 1], sym) {
            Some(v) => Some(v),
            None => frames_get(frames, sym, upto - 1),
        }
    } else {
        None
    }
}

impl EnvModel {
    /// Every scope binds each symbol once.
    pub open spec fn wf(self) -> bool {
        &&& distinct_keys(self.global)
        &&& forall|i: int| 0 <= i < self.frames.len() ==> distinct_keys(#[trigger] self.frames[i])
    }

    /// The value of `sym`: that of the innermost scope that binds it, the
    /// global scope being the outermost.
    pub open spec fn get(self, sym: Seq<char>) -> Option<ValueModel> {
        match frames_get(self.frames, sym, self.frames.len() as int) {
            Some(v) => Some(v),
            None => lookup(self.global, sym),
        }
    }

    /// This environment with `sym` bound to `value` in the innermost scope,
    /// which is the global scope while no call is running.
    pub open spec fn set(self, sym: Seq<char>, value: ValueModel) -> EnvModel {
        if self.frames.len() > 0 {
            let top = self.frames.len() - 1;
            EnvModel {
                frames: self.frames.update(top, bind(self.frames[top], sym, value)),
                ..self
            }
        } else {
            EnvModel { global: bind(self.global, sym, value), ..self }
        }
    }

    /// This environment with one more scope, which binds nothing.
    pub open spec fn push_frame(self) -> EnvModel {
        EnvModel { frames: self.frames.push(Seq::empty()), ..self }
    }

    /// This environment without its innermost scope.
    pub open spec fn pop_frame(self) -> EnvModel {
        EnvModel { frames: self.frames.drop_last(), ..self }
    }

    /// The number that the next closure record gets.
    pub open spec fn fresh_id(self) -> u64 {
        self.next_id
    }

    /// This environment after a closure record took its number. The
    /// numbers stop growing at the largest one.
    pub open spec fn after_fresh_id(self) -> EnvModel {
        EnvModel {
            next_id: if self.next_id < u64::MAX {
                (self.next_id + 1) as u64
            } else {
                self.next_id
            },
            ..self
        }
    }

    /// This environment with one more line of output.
    pub open spec fn emit(self, line: Seq<char>) -> EnvModel {
        EnvModel { output: self.output.push(line), ..self }
    }
}

/// The place of the binding of `sym` in `storage`.
pub fn storage_find(storage: &Storage, sym: &String) -> (r: Option<usize>)
    ensures
        match r {
            Some(i) => find(storage_model(storage@), sym@, 0) == Some(i as int) && i
                < storage.len(),
            None => find(storage_model(storage@), sym@, 0) is None,
        },
{
    let mut i: usize = 0;
    while i < storage.len()
        invariant
            i <= storage.len(),
            find(storage_model(storage@), sym@, i as int) == find(storage_model(storage@), sym@, 0),
        decreases storage.len() - i,
    {
        if same_text(&storage[i].0, sym) {
            return Some(i);
        }
        i += 1;
    }
    None
}

/// The value that `storage` binds `sym` to.
pub fn storage_get<'a>(storage: &'a Storage, sym: &String) -> (r: Option<&'a Value>)
    ensures
        match r {
            Some(v) => lookup(storage_model(storage@), sym@) == Some(v.model()),
            None => lookup(storage_model(storage@), sym@) is None,
        },
{
    match storage_find(storage, sym) {
        Some(i) => Some(&storage[i].1),
        None => None,
    }
}

/// Binds `sym` to `value` in `storage`.
pub fn storage_insert(storage: &mut Storage, sym: Rc<String>, value: Value)
    ensures
        storage_model(final(storage)@) == bind(storage_model(old(storage)@), sym@, value.model()),
        distinct_keys(storage_model(old(storage)@)) ==> distinct_keys(
            storage_model(final(storage)@),
        ),
{
    proof {
        if distinct_keys(storage_model(storage@)) {
            lemma_bind_distinct(storage_model(storage@), sym@, value.model());
        }
    }
    match storage_find(storage, &sym) {
        Some(i) => {
            assert(storage_model(storage@.update(i as int, (sym, value))) =~= storage_model(
                storage@,
            ).update(i as int, (sym@, value.model())));
            storage.set(i, (sym, value));
        },
        None => {
            assert(storage_model(storage@.push((sym, value))) =~= storage_model(storage@).push(
                (sym@, value.model()),
            ));
            storage.push((sym, value));
        },
    }
}

impl Env {
    pub open spec fn model(&self) -> EnvModel {
        EnvModel {
            global: storage_model(self.global@),
            frames: frames_model(self.frames@),
            next_id: self.next_id,
            output: lines_model(self.output@),
            call_depth: self.call_depth,
        }
    }

    /// Every scope binds each symbol once, and every scope that is kept for
    /// reuse is empty.
    pub open spec fn wf(&self) -> bool {
        &&& self.model().wf()
        &&& forall|i: int| 0 <= i < self.cached@.len() ==> (#[trigger] self.cached@[i])@.len() == 0
    }

    /// An environment with the global scope `global`, no call running and
    /// at most `call_depth` calls at once.
    pub fn new(global: Storage, call_depth: usize) -> (r: Self)
        requires
            distinct_keys(storage_model(global@)),
        ensures
            r.wf(),
            r.model() == (EnvModel {
                global: storage_model(global@),
                frames: Seq::empty(),
                next_id: 0,
                output: Seq::empty(),
                call_depth,
            }),
    {
        let r = Env {
            global,
            frames: Vec::new(),
            cached: Vec::new(),
            next_id: 0,
            output: Vec::new(),
            call_depth,
        };
        assert(frames_model(r.frames@) =~= Seq::empty());
        assert(lines_model(r.output@) =~= Seq::empty());
        r
    }

    /// The value of `sym`: that of the innermost scope that binds it, the
    /// global scope being the outermost.
    pub fn get(&self, sym: &String) -> (r: Option<&Value>)
        ensures
            match r {
                Some(v) => self.model().get(sym@) == Some(v.model()),
                None => self.model().get(sym@) is None,
            },
    {
        let ghost frames = frames_model(self.frames@);
        let mut i = self.frames.len();
        while i > 0
            invariant
                i <= self.frames.len(),
                frames == frames_model(self.frames@),
                frames_get(frames, sym@, i as int) == frames_get(frames, sym@, frames.len() as int),
            decreases i,
        {
            i -= 1;
            match storage_get(&self.frames[i], sym) {
                Some(v) => {
                    return Some(v);
                },
                None => {},
            }
        }
        storage_get(&self.global, sym)
    }

    /// Binds the symbol of `ident` to `value` in the innermost scope, which
    /// is the global scope while no call is running.
    pub fn set(&mut self, ident: Ident, value: Value)
        requires
            old(self).wf(),
        ensures
            final(self).wf(),
            final(self).model() == old(self).model().set(ident.sym@, value.model()),
    {
        let n = self.frames.len();
        proof {
            if n > 0 {
                lemma_bind_distinct(self.model().frames[n - 1], ident.sym@, value.model());
            } else {
                lemma_bind_distinct(self.model().global, ident.sym@, value.model());
            }
        }
        if n > 0 {
            let mut top = self.frames.pop().unwrap();
            storage_insert(&mut top, ident.sym, value);
            self.frames.push(top);
            assert(frames_model(self.frames@) =~= frames_model(old(self).frames@).update(
                n - 1,
                bind(frames_model(old(self).frames@)[n - 1], ident.sym@, value.model()),
            ));
        } else {
            storage_insert(&mut self.global, ident.sym, value);
        }
    }

    /// Opens a scope that binds nothing.
    pub fn push_frame(&mut self)
        requires
            old(self).wf(),
        ensures
            final(self).wf(),
            final(self).model() == old(self).model().push_frame(),
    {
        let new = match self.cached.pop() {
            Some(frame) => frame,
            None => Vec::new(),
        };
        assert(storage_model(new@) =~= Seq::empty());
        self.frames.push(new);
        assert(frames_model(self.frames@) =~= frames_model(old(self).frames@).push(Seq::empty()));
        assert forall|i: int| 0 <= i < self.model().frames.len() implies distinct_keys(
            #[trigger] self.model().frames[i],
        ) by {
            if i < old(self).model().frames.len() {
                assert(self.model().frames[i] == old(self).model().frames[i]);
            }
        }
    }

    /// Closes the innermost scope; its storage is emptied and kept to be
    /// used again.
    pub fn pop_frame(&mut self)
        requires
            old(self).wf(),
            old(self).frames@.len() > 0,
        ensures
            final(self).wf(),
            final(self).model() == old(self).model().pop_frame(),
    {
        let mut frame = self.frames.pop().unwrap();
        frame.clear();
        self.cached.push(frame);
        assert(frames_model(self.frames@) =~= frames_model(old(self).frames@).drop_last());
        assert forall|i: int| 0 <= i < self.model().frames.len() implies distinct_keys(
            #[trigger] self.model().frames[i],
        ) by {
            assert(self.model().frames[i] == old(self).model().frames[i]);
        }
    }

    /// The number for a new closure record.
    pub fn fresh_id(&mut self) -> (id: u64)
        requires
            old(self).wf(),
        ensures
            final(self).wf(),
            id == old(self).model().fresh_id(),
            final(self).model() == old(self).model().after_fresh_id(),
    {
        let id = self.next_id;
        if self.next_id < u64::MAX {
            self.next_id = self.next_id + 1;
        }
        assert(self.model().frames == old(self).model().frames);
        id
    }

    /// Adds a line to the output.
    pub fn emit(&mut self, line: String)
        requires
            old(self).wf(),
        ensures
            final(self).wf(),
            final(self).model() == old(self).model().emit(line@),
    {
        self.output.push(line);
        assert(lines_model(self.output@) =~= lines_model(old(self).output@).push(line@));
        assert(self.model().frames == old(self).model().frames);
    }

    /// Hands out the lines of output written so far, and forgets them.
    pub fn take_output(&mut self) -> (lines: Vec<String>)
        requires
            old(self).wf(),
        ensures
            final(self).wf(),
            lines_model(lines@) == old(self).model().output,
            final(self).model() == (EnvModel { output: Seq::empty(), ..old(self).model() }),
    {
        let mut lines: Vec<String> = Vec::new();
        std::mem::swap(&mut lines, &mut self.output);
        assert(lines_model(self.output@) =~= Seq::empty());
        assert(self.model().frames == old(self).model().frames);
        lines
    }
}


/// The least number of insertions, deletions and replacements of one
/// character that turn the first `i` characters of `a` into the first `j`
/// characters of `b`.
pub open spec fn distance(a: Seq<char>, b: Seq<char>, i: int, j: int) -> nat
    decreases
            if i > 0 {
                i
            } else {
                0
            } + if j > 0 {
                j
            } else {
                0
            },
{
    if i <= 0 {
        if j > 0 {
            j as nat
        } else {
            0
        }
    } else if j <= 0 {
        i as nat
    } else if a[i - 1] == b[j - 1] {
        distance(a, b, i - 1, j - 1)
    } else {
        1 + least(
            distance(a, b, i - 1, j - 1),
            least(distance(a, b, i - 1, j), distance(a, b, i, j - 1)),
        )
    }
}

/// The smaller of `x` and `y`.
pub open spec fn least(x: nat, y: nat) -> nat {
    if x <= y {
        x
    } else {
        y
    }
}

/// The edit distance between `a` and `b`.
pub open spec fn edit_distance(a: Seq<char>, b: Seq<char>) -> nat {
    distance(a, b, a.len() as int, b.len() as int)
}

/// No more edits are needed than the longer of the two texts has
/// characters.
pub proof fn lemma_distance_bound(a: Seq<char>, b: Seq<char>, i: int, j: int)
    requires
        0 <= i,
        0 <= j,
    ensures
        distance(a, b, i, j) <= if i >= j {
            i
        } else {
            j
        },
    decreases i + j,
{
    if i > 0 && j > 0 {
        lemma_distance_bound(a, b, i - 1, j - 1);
    }
}

/// The characters of `s`.
pub fn chars_of(s: &str) -> (r: Vec<char>)
    ensures
        r@ == s@,
{
    let n = s.unicode_len();
    let mut r: Vec<char> = Vec::new();
    let mut i: usize = 0;
    while i < n
        invariant
            i <= n,
            n == s@.len(),
            r@ == s@.subrange(0, i as int),
        decreases n - i,
    {
        r.push(s.get_char(i));
        assert(r@ =~= s@.subrange(0, i + 1));
        i += 1;
    }
    assert(r@ =~= s@);
    r
}

/// The edit distance between `a` and `b`.
pub fn compute_edit_distance(a: &str, b: &str) -> (r: usize)
    ensures
        r == edit_distance(a@, b@),
{
    let a = chars_of(a);
    let b = chars_of(b);
    let ghost sa = a@;
    let ghost sb = b@;
    let mut row: Vec<usize> = Vec::new();
    let mut k: usize = 0;
    while k < b.len()
        invariant
            k <= b.len(),
            row@.len() == k,
            forall|j: int| 0 <= j < k ==> row@[j] == distance(sa, sb, 0, j),
        decreases b.len() - k,
    {
        row.push(k);
        k += 1;
    }
    row.push(k);
    let mut ai: usize = 0;
    while ai < a.len()
        invariant
            ai <= a.len(),
            sa == a@,
            sb == b@,
            row@.len() == b.len() + 1,
            forall|j: int| 0 <= j <= b.len() ==> row@[j] == distance(sa, sb, ai as int, j),
        decreases a.len() - ai,
    {
        let ac = a[ai];
        let mut left: usize = ai + 1;
        let mut diagonal: usize = row[0];
        row.set(0, left);
        let mut bi: usize = 0;
        while bi < b.len()
            invariant
                ai < a.len(),
                bi <= b.len(),
                sa == a@,
                sb == b@,
                ac == sa[ai as int],
                row@.len() == b.len() + 1,
                left == distance(sa, sb, ai + 1, bi as int),
                diagonal == distance(sa, sb, ai as int, bi as int),
                forall|j: int| 0 <= j <= bi ==> row@[j] == distance(sa, sb, ai + 1, j),
                forall|j: int| bi < j <= b.len() ==> row@[j] == distance(sa, sb, ai as int, j),
            decreases b.len() - bi,
        {
            let bc = b[bi];
            let above = row[bi + 1];
            proof {
                lemma_distance_bound(sa, sb, ai as int, bi as int);
                lemma_distance_bound(sa, sb, ai as int, bi + 1);
                lemma_distance_bound(sa, sb, ai + 1, bi as int);
            }
            left = if ac == bc {
                diagonal
            } else {
                let mut m = diagonal;
                if above < m {
                    m = above;
                }
                if left < m {
                    m = left;
                }
                1 + m
            };
            diagonal = above;
            row.set(bi + 1, left);
            bi += 1;
        }
        ai += 1;
    }
    row[b.len()]
}

/// The bindings of `to` after each native function is bound to its name.
pub open spec fn with_natives(to: Bindings) -> Bindings {
    let b0 = bind(to, "len"@, ValueModel::Builtin(Builtin::Len));
    let b1 = bind(b0, "head"@, ValueModel::Builtin(Builtin::Head));
    let b2 = bind(b1, "tail"@, ValueModel::Builtin(Builtin::Tail));
    let b3 = bind(b2, "append"@, ValueModel::Builtin(Builtin::Append));
    let b4 = bind(b3, "print"@, ValueModel::Builtin(Builtin::Print));
    let b5 = bind(b4, "assert_eq"@, ValueModel::Builtin(Builtin::AssertEq));
    bind(b5, "type"@, ValueModel::Builtin(Builtin::Type))
}

/// Binds each native function to its name in `storage`.
pub fn bind_natives(storage: &mut Storage)
    ensures
        storage_model(final(storage)@) == with_natives(storage_model(old(storage)@)),
        distinct_keys(storage_model(old(storage)@)) ==> distinct_keys(
            storage_model(final(storage)@),
        ),
{
    let all = all_();
    storage_insert(storage, Rc::new(String::from_str(all[0].0)), Value::Builtin(all[0].1));
    storage_insert(storage, Rc::new(String::from_str(all[1].0)), Value::Builtin(all[1].1));
    storage_insert(storage, Rc::new(String::from_str(all[2].0)), Value::Builtin(all[2].1));
    storage_insert(storage, Rc::new(String::from_str(all[3].0)), Value::Builtin(all[3].1));
    storage_insert(storage, Rc::new(String::from_str(all[4].0)), Value::Builtin(all[4].1));
    storage_insert(storage, Rc::new(String::from_str(all[5].0)), Value::Builtin(all[5].1));
    storage_insert(storage, Rc::new(String::from_str(all[6].0)), Value::Builtin(all[6].1));
}

/// The symbols that `storage` binds, in order.
pub open spec fn symbols_of(storage: Bindings) -> Seq<Seq<char>> {
    Seq::new(storage.len(), |i: int| storage[i].0)
}

/// `at` is the place of the first of `symbols` that is closest to `sym`.
pub open spec fn is_closest(symbols: Seq<Seq<char>>, sym: Seq<char>, at: int) -> bool {
    &&& 0 <= at < symbols.len()
    &&& forall|j: int|
        0 <= j < symbols.len() ==> edit_distance(sym, symbols[at]) <= edit_distance(
            sym,
            #[trigger] symbols[j],
        )
    &&& forall|j: int|
        0 <= j < at ==> edit_distance(sym, symbols[at]) < edit_distance(sym, #[trigger] symbols[j])
}

/// `found` is the first symbol of `scope` that is closest to `sym`.
pub open spec fn closest_in(scope: Seq<(Rc<String>, Value)>, sym: Seq<char>, found: Rc<String>) -> bool {
    exists|at: int|
        is_closest(symbols_of(storage_model(scope)), sym, at) && scope[at].0 == found
}

/// The symbol of `defined_symbols` that is closest to `undefined_symbol`,
/// the first of them where several are as close; `None` where there is no
/// symbol at all.
pub fn find_closest_symbol<'a>(undefined_symbol: &str, defined_symbols: &'a Storage) -> (r: Option<
    &'a Rc<String>,
>)
    ensures
        r is None <==> defined_symbols@.len() == 0,
        r matches Some(found) ==> closest_in(defined_symbols@, undefined_symbol@, *found),
{
    if defined_symbols.len() == 0 {
        return None;
    }
    let ghost symbols = symbols_of(storage_model(defined_symbols@));
    let mut best: usize = 0;
    let mut best_distance = compute_edit_distance(undefined_symbol, defined_symbols[0].0.as_str());
    let mut i: usize = 1;
    while i < defined_symbols.len()
        invariant
            1 <= i <= defined_symbols.len(),
            best < i,
            symbols == symbols_of(storage_model(defined_symbols@)),
            best_distance == edit_distance(undefined_symbol@, symbols[best as int]),
            forall|j: int|
                0 <= j < i ==> best_distance <= edit_distance(
                    undefined_symbol@,
                    #[trigger] symbols[j],
                ),
            forall|j: int|
                0 <= j < best ==> best_distance < edit_distance(
                    undefined_symbol@,
                    #[trigger] symbols[j],
                ),
        decreases defined_symbols.len() - i,
    {
        let d = compute_edit_distance(undefined_symbol, defined_symbols[i].0.as_str());
        assert(symbols[i as int] == defined_symbols@[i as int].0@);
        if d < best_distance {
            best = i;
            best_distance = d;
        }
        i += 1;
    }
    assert(is_closest(symbols, undefined_symbol@, best as int));
    Some(&defined_symbols[best].0)
}

impl Env {
    /// An environment whose global scope binds the native functions, with
    /// at most `call_depth` calls at once.
    pub fn with_builtin(call_depth: usize) -> (r: Self)
        ensures
            r.wf(),
            r.model() == (EnvModel {
                global: with_natives(Seq::empty()),
                frames: Seq::empty(),
                next_id: 0,
                output: Seq::empty(),
                call_depth,
            }),
    {
        let mut global: Storage = Vec::new();
        assert(storage_model(global@) =~= Seq::empty());
        bind_natives(&mut global);
        Env::new(global, call_depth)
    }

    /// The symbol bound in the innermost scope that is closest to `sym`,
    /// or the closest in the global scope where no call is running or the
    /// innermost scope binds nothing.
    pub fn find_similar_symbol<'a>(&'a self, sym: &str) -> (r: Option<&'a Rc<String>>)
        ensures
            r is None <==> (self.global@.len() == 0 && (self.frames@.len() == 0
                || self.frames@.last()@.len() == 0)),
            r matches Some(found) ==> closest_in(
                if self.frames@.len() > 0 && self.frames@.last()@.len() > 0 {
                    self.frames@.last()@
                } else {
                    self.global@
                },
                sym@,
                *found,
            ),
    {
        let n = self.frames.len();
        if n > 0 {
            match find_closest_symbol(sym, &self.frames[n - 1]) {
                Some(found) => {
                    return Some(found);
                },
                None => {},
            }
        }
        find_closest_symbol(sym, &self.global)
    }
}

} // verus!
