//! How values are written out, by `print` and in messages.

use crate::eval::value::{mapping_model, values_model, Key, KeyModel, Value, ValueModel};
use crate::support::{quote_text, quoted, signed_decimal, signed_decimal_text};
use vstd::prelude::*;
use vstd::string::*;

verus! {

/// What is written for an integer or boolean key as it stands, for text
/// in quotes.
pub open spec fn render_key(k: KeyModel) -> Seq<char> {
    match k {
        KeyModel::Int(x) => signed_decimal(x as int),
        KeyModel::Bool(x) => if x {
            "true"@
        } else {
            "false"@
        },
        KeyModel::Str(s) => quoted(s),
    }
}

/// What is written for `v`: integers and booleans as they stand, text in
/// quotes, a sequence between brackets and a map between braces with `, `
/// between their items, and a placeholder for what has no notation.
pub open spec fn render(v: ValueModel) -> Seq<char>
    decreases v, 0nat,
{
    match v {
        ValueModel::Unit => "<unit>"@,
        ValueModel::Int(x) => signed_decimal(x as int),
        ValueModel::Bool(x) => if x {
            "true"@
        } else {
            "false"@
        },
        ValueModel::Str(s) => quoted(s),
        ValueModel::Sequence(s) => "["@ + render_items(s, 0) + "]"@,
        ValueModel::Mapping(m) => "{"@ + render_entries(m, 0) + "}"@,
        ValueModel::Closure(_) => "<closure>"@,
        ValueModel::Builtin(_) => "<builtin>"@,
    }
}

/// What separates the item at `at` from the one before it.
pub open spec fn separator(at: int) -> Seq<char> {
    if at > 0 {
        ", "@
    } else {
        Seq::empty()
    }
}

/// What is written for the items of `s` from `from` on.
pub open spec fn render_items(s: Seq<ValueModel>, from: int) -> Seq<char>
    decreases s, s.len() - from,
{
    if 0 <= from < s.len() {
        separator(from) + render(s[from]) + render_items(s, from + 1)
    } else {
        Seq::empty()
    }
}

/// What is written for the entries of `m` from `from` on.
pub open spec fn render_entries(m: Seq<(KeyModel, ValueModel)>, from: int) -> Seq<char>
    decreases m, m.len() - from,
{
    if 0 <= from < m.len() {
        separator(from) + render_key(m[from].0) + ": "@ + render(m[from].1) + render_entries(
            m,
            from + 1,
        )
    } else {
        Seq::empty()
    }
}

impl Key {
    /// Writes this key behind what `out` holds.
    pub fn render_into(&self, out: &mut String)
        ensures
            final(out)@ == old(out)@ + render_key(self.model()),
    {
        match self {
            Key::Int(x) => {
                let digits = signed_decimal_text(*x as i64);
                out.append(digits.as_str());
            },
            Key::Bool(x) => {
                if *x {
                    out.append("true");
                } else {
                    out.append("false");
                }
            },
            Key::Str(s) => {
                let text = quote_text(s.as_str());
                out.append(text.as_str());
            },
        }
    }
}

impl Value {
    /// Writes this value behind what `out` holds.
    pub fn render_into(&self, out: &mut String)
        ensures
            final(out)@ == old(out)@ + render(self.model()),
        decreases self,
    {
        match self {
            Value::Unit => {
                out.append("<unit>");
            },
            Value::Int(x) => {
                let digits = signed_decimal_text(*x as i64);
                out.append(digits.as_str());
            },
            Value::Bool(x) => {
                if *x {
                    out.append("true");
                } else {
                    out.append("false");
                }
            },
            Value::Str(s) => {
                let text = quote_text(s.as_str());
                out.append(text.as_str());
            },
            Value::Sequence(items) => {
                let ghost begin = out@;
                let ghost s = values_model(items@);
                assert(self.model() == ValueModel::Sequence(s));
                out.append("[");
                let mut i: usize = 0;
                while i < items.len()
                    invariant
                        i <= items.len(),
                        *self == Value::Sequence(*items),
                        s == values_model(items@),
                        out@ + render_items(s, i as int) == begin + "["@ + render_items(s, 0),
                    decreases items.len() - i,
                {
                    let ghost before = out@;
                    if i > 0 {
                        out.append(", ");
                    }
                    assert(self->Sequence_0 == *items);
                    items[i].render_into(out);
                    assert(out@ + render_items(s, i + 1) =~= before + render_items(s, i as int));
                    i += 1;
                }
                assert(out@ =~= begin + "["@ + render_items(s, 0));
                out.append("]");
                assert(out@ =~= begin + ("["@ + render_items(s, 0) + "]"@));
            },
            Value::Mapping(entries) => {
                let ghost begin = out@;
                let ghost m = mapping_model(entries@);
                assert(self.model() == ValueModel::Mapping(m));
                out.append("{");
                let mut i: usize = 0;
                while i < entries.len()
                    invariant
                        i <= entries.len(),
                        *self == Value::Mapping(*entries),
                        m == mapping_model(entries@),
                        out@ + render_entries(m, i as int) == begin + "{"@ + render_entries(m, 0),
                    decreases entries.len() - i,
                {
                    let ghost before = out@;
                    if i > 0 {
                        out.append(", ");
                    }
                    entries[i].0.render_into(out);
                    out.append(": ");
                    assert(self->Mapping_0 == *entries);
                    entries[i].1.render_into(out);
                    assert(out@ + render_entries(m, i + 1) =~= before + render_entries(
                        m,
                        i as int,
                    ));
                    i += 1;
                }
                assert(out@ =~= begin + "{"@ + render_entries(m, 0));
                out.append("}");
                assert(out@ =~= begin + ("{"@ + render_entries(m, 0) + "}"@));
            },
            Value::Closure(_) => {
                out.append("<closure>");
            },
            Value::Builtin(_) => {
                out.append("<builtin>");
            },
        }
    }

    /// What is written for this value.
    pub fn render(&self) -> (r: String)
        ensures
            r@ == render(self.model()),
    {
        let mut out = String::new();
        self.render_into(&mut out);
        assert(out@ =~= render(self.model()));
        out
    }
}

} // verus!
