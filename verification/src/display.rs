//! The text form of values and settings.

use vstd::prelude::*;
use crate::component_config::ComponentConfig;
use crate::outside::{char_debug, char_debug_text, int_to_string};
use crate::text::{glyphs, int_text, Glyph, Rendering};
use crate::value::{entry_model, item_model, value_model, Number, Value, ValueModel};

verus! {

/// The text of a number: an integer in decimal, a float as itself.
pub open spec fn number_text(n: Number) -> Seq<Glyph> {
    match n {
        Number::F32(bits) => seq![Glyph::F32(bits)],
        Number::F64(bits) => seq![Glyph::F64(bits)],
        _ => glyphs(int_text(n.as_int())),
    }
}

/// The text of the first `n` bytes, in decimal, with `, ` between them.
pub open spec fn bytes_text(bytes: Seq<u8>, n: nat) -> Seq<Glyph>
    decreases n,
{
    if n == 0 {
        Seq::empty()
    } else if n == 1 {
        glyphs(int_text(bytes[0] as int))
    } else {
        bytes_text(bytes, (n - 1) as nat) + glyphs(", "@) + glyphs(int_text(bytes[n - 1] as int))
    }
}

/// The text of a value. A scalar is written in its natural form: a number
/// in decimal, a boolean as `true` or `false`, a text as it stands, a
/// character as `{:?}` writes it, the unit as `unit`. A sequence or bytes
/// stand between square brackets, a mapping between braces as `key: value`,
/// an optional value as `Some(..)` or `None`.
pub open spec fn value_text(v: ValueModel) -> Seq<Glyph>
    decreases v, 0nat,
{
    match v {
        ValueModel::Bool(b) => if b {
            glyphs("true"@)
        } else {
            glyphs("false"@)
        },
        ValueModel::Char(c) => glyphs(char_debug_text(c)),
        ValueModel::Mapping(entries) => glyphs("{"@) + entries_text(entries, entries.len())
            + glyphs("}"@),
        ValueModel::Number(n) => number_text(n),
        ValueModel::Optional(o) => match o {
            Some(inner) => glyphs("Some("@) + value_text(*inner) + glyphs(")"@),
            None => glyphs("None"@),
        },
        ValueModel::Text(s) => glyphs(s),
        ValueModel::Bytes(b) => glyphs("["@) + bytes_text(b, b.len()) + glyphs("]"@),
        ValueModel::Sequence(items) => glyphs("["@) + items_text(items, items.len()) + glyphs(
            "]"@,
        ),
        ValueModel::Unit => glyphs("unit"@),
    }
}

/// The text of the first `n` items, with `, ` between them.
pub open spec fn items_text(items: Seq<ValueModel>, n: nat) -> Seq<Glyph>
    decreases items, n,
{
    if n == 0 || n > items.len() {
        Seq::empty()
    } else if n == 1 {
        value_text(items[0])
    } else {
        items_text(items, (n - 1) as nat) + glyphs(", "@) + value_text(items[n - 1])
    }
}

/// The text of the first `n` entries as `key: value`, with `, ` between
/// them.
pub open spec fn entries_text(entries: Seq<(ValueModel, ValueModel)>, n: nat) -> Seq<Glyph>
    decreases entries, n,
{
    if n == 0 || n > entries.len() {
        Seq::empty()
    } else if n == 1 {
        value_text(entries[0].0) + glyphs(": "@) + value_text(entries[0].1)
    } else {
        entries_text(entries, (n - 1) as nat) + glyphs(", "@) + value_text(entries[n - 1].0)
            + glyphs(": "@) + value_text(entries[n - 1].1)
    }
}

/// The text of the first `n` settings as `key: value`, with `, ` between
/// them.
pub open spec fn pairs_text(pairs: Seq<(Seq<char>, ValueModel)>, n: nat) -> Seq<Glyph>
    decreases n,
{
    if n == 0 {
        Seq::empty()
    } else if n == 1 {
        glyphs(pairs[0].0) + glyphs(": "@) + value_text(pairs[0].1)
    } else {
        pairs_text(pairs, (n - 1) as nat) + glyphs(", "@) + glyphs(pairs[n - 1].0) + glyphs(": "@)
            + value_text(pairs[n - 1].1)
    }
}

/// The text of the settings of a component: the pairs between braces.
pub open spec fn config_text(pairs: Seq<(Seq<char>, ValueModel)>) -> Seq<Glyph> {
    glyphs("{"@) + pairs_text(pairs, pairs.len()) + glyphs("}"@)
}

impl Number {
    /// Writes the number behind `out`.
    pub fn display(&self, out: &mut Rendering)
        ensures
            final(out)@ == old(out)@ + number_text(*self),
    {
        match self {
            Number::I8(n) => out.push_str(int_to_string(*n as i128).as_str()),
            Number::I16(n) => out.push_str(int_to_string(*n as i128).as_str()),
            Number::I32(n) => out.push_str(int_to_string(*n as i128).as_str()),
            Number::I64(n) => out.push_str(int_to_string(*n as i128).as_str()),
            Number::U8(n) => out.push_str(int_to_string(*n as i128).as_str()),
            Number::U16(n) => out.push_str(int_to_string(*n as i128).as_str()),
            Number::U32(n) => out.push_str(int_to_string(*n as i128).as_str()),
            Number::U64(n) => out.push_str(int_to_string(*n as i128).as_str()),
            Number::F32(bits) => out.push_f32(*bits),
            Number::F64(bits) => out.push_f64(*bits),
        }
    }
}

/// Writes the items between square brackets behind `out`.
fn display_items(items: &Vec<Value>, out: &mut Rendering)
    ensures
        final(out)@ == old(out)@ + value_text(
            ValueModel::Sequence(Seq::new(items@.len(), |i: int| item_model(items@, i))),
        ),
    decreases items, 0nat,
{
    let ghost start = out@;
    let ghost model = Seq::new(items@.len(), |i: int| item_model(items@, i));
    out.push_str("[");
    let mut i: usize = 0;
    while i < items.len()
        invariant
            i <= items.len(),
            model == Seq::new(items@.len(), |i: int| item_model(items@, i)),
            out@ == start + glyphs("["@) + items_text(model, i as nat),
        decreases items.len() - i,
    {
        if i > 0 {
            out.push_str(", ");
        }
        assert(model[i as int] == items@[i as int]@) by {
            reveal_with_fuel(item_model, 2);
        }
        items[i].display(out);
        i = i + 1;
        assert(out@ =~= start + glyphs("["@) + items_text(model, i as nat));
    }
    out.push_str("]");
    assert(out@ =~= start + value_text(ValueModel::Sequence(model)));
}

/// Writes the entries between braces behind `out`.
fn display_entries(entries: &Vec<(Value, Value)>, out: &mut Rendering)
    ensures
        final(out)@ == old(out)@ + value_text(
            ValueModel::Mapping(Seq::new(entries@.len(), |i: int| entry_model(entries@, i))),
        ),
    decreases entries, 0nat,
{
    let ghost start = out@;
    let ghost model = Seq::new(entries@.len(), |i: int| entry_model(entries@, i));
    out.push_str("{");
    let mut i: usize = 0;
    while i < entries.len()
        invariant
            i <= entries.len(),
            model == Seq::new(entries@.len(), |i: int| entry_model(entries@, i)),
            out@ == start + glyphs("{"@) + entries_text(model, i as nat),
        decreases entries.len() - i,
    {
        if i > 0 {
            out.push_str(", ");
        }
        assert(model[i as int] == (entries@[i as int].0@, entries@[i as int].1@)) by {
            reveal_with_fuel(entry_model, 2);
        }
        entries[i].0.display(out);
        out.push_str(": ");
        entries[i].1.display(out);
        i = i + 1;
        assert(out@ =~= start + glyphs("{"@) + entries_text(model, i as nat));
    }
    out.push_str("}");
    assert(out@ =~= start + value_text(ValueModel::Mapping(model)));
}

/// Writes the bytes between square brackets behind `out`.
fn display_bytes(bytes: &Vec<u8>, out: &mut Rendering)
    ensures
        final(out)@ == old(out)@ + value_text(ValueModel::Bytes(bytes@)),
{
    let ghost start = out@;
    out.push_str("[");
    let mut i: usize = 0;
    while i < bytes.len()
        invariant
            i <= bytes.len(),
            out@ == start + glyphs("["@) + bytes_text(bytes@, i as nat),
        decreases bytes.len() - i,
    {
        if i > 0 {
            out.push_str(", ");
        }
        out.push_str(int_to_string(bytes[i] as i128).as_str());
        i = i + 1;
        assert(out@ =~= start + glyphs("["@) + bytes_text(bytes@, i as nat));
    }
    out.push_str("]");
    assert(out@ =~= start + value_text(ValueModel::Bytes(bytes@)));
}

impl Value {
    /// Writes the value behind `out`.
    pub fn display(&self, out: &mut Rendering)
        ensures
            final(out)@ == old(out)@ + value_text(self@),
        decreases self, 1nat,
    {
        match self {
            Value::Bool(b) => {
                if *b {
                    out.push_str("true");
                } else {
                    out.push_str("false");
                }
            },
            Value::Char(c) => {
                out.push_str(char_debug(*c).as_str());
            },
            Value::Mapping(entries) => {
                display_entries(entries, out);
                assert(self@->Mapping_0 =~= Seq::new(
                    entries@.len(),
                    |i: int| entry_model(entries@, i),
                ));
            },
            Value::Number(n) => {
                n.display(out);
            },
            Value::Optional(o) => match o {
                Some(inner) => {
                    out.push_str("Some(");
                    inner.display(out);
                    out.push_str(")");
                },
                None => {
                    out.push_str("None");
                },
            },
            Value::Text(s) => {
                out.push_str(s.as_str());
            },
            Value::Bytes(bytes) => {
                display_bytes(bytes, out);
            },
            Value::Sequence(items) => {
                display_items(items, out);
                assert(self@->Sequence_0 =~= Seq::new(
                    items@.len(),
                    |i: int| item_model(items@, i),
                ));
            },
            Value::Unit => {
                out.push_str("unit");
            },
        }
    }

    /// The text of the value.
    pub fn to_text(&self) -> (r: Rendering)
        ensures
            r@ == value_text(self@),
    {
        let mut out = Rendering::new();
        self.display(&mut out);
        assert(out@ =~= value_text(self@));
        out
    }
}

impl ComponentConfig {
    /// Writes the settings behind `out`.
    pub fn display(&self, out: &mut Rendering)
        ensures
            final(out)@ == old(out)@ + config_text(self.pairs()),
    {
        let ghost start = out@;
        out.push_str("{");
        let n = self.len();
        let mut i: usize = 0;
        while i < n
            invariant
                i <= n,
                n == self.pairs().len(),
                out@ == start + glyphs("{"@) + pairs_text(self.pairs(), i as nat),
            decreases n - i,
        {
            if i > 0 {
                out.push_str(", ");
            }
            out.push_str(self.key_at(i));
            out.push_str(": ");
            self.value_at(i).display(out);
            i = i + 1;
            assert(out@ =~= start + glyphs("{"@) + pairs_text(self.pairs(), i as nat));
        }
        out.push_str("}");
        assert(out@ =~= start + config_text(self.pairs()));
    }

    /// The text of the settings.
    pub fn to_text(&self) -> (r: Rendering)
        ensures
            r@ == config_text(self.pairs()),
    {
        let mut out = Rendering::new();
        self.display(&mut out);
        assert(out@ =~= config_text(self.pairs()));
        out
    }
}

} // verus!
