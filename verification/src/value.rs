//! Self-describing configuration values.

use vstd::prelude::*;
use vstd::std_specs::convert::FromSpecImpl;

verus! {

/// A number as the configuration text can hold it. A float is kept as its
/// IEEE-754 bit pattern.
#[derive(Debug, Clone, Copy, PartialEq, Eq, Structural)]
pub enum Number {
    I8(i8),
    I16(i16),
    I32(i32),
    I64(i64),
    U8(u8),
    U16(u16),
    U32(u32),
    U64(u64),
    F32(u32),
    F64(u64),
}

/// A configuration value.
#[derive(Debug, PartialEq, Eq)]
pub enum Value {
    Bool(bool),
    Char(char),
    Mapping(Vec<(Value, Value)>),
    Number(Number),
    Optional(Option<Box<Value>>),
    Text(String),
    Bytes(Vec<u8>),
    Sequence(Vec<Value>),
    Unit,
}

/// The mathematical content of a [`Value`].
pub enum ValueModel {
    Bool(bool),
    Char(char),
    Mapping(Seq<(ValueModel, ValueModel)>),
    Number(Number),
    Optional(Option<Box<ValueModel>>),
    Text(Seq<char>),
    Bytes(Seq<u8>),
    Sequence(Seq<ValueModel>),
    Unit,
}

impl View for Value {
    type V = ValueModel;

    open spec fn view(&self) -> ValueModel {
        value_model(*self)
    }
}

/// The mathematical content of a value.
pub open spec fn value_model(v: Value) -> ValueModel
    decreases v, 0nat,
{
    match v {
        Value::Bool(b) => ValueModel::Bool(b),
        Value::Char(c) => ValueModel::Char(c),
        Value::Mapping(entries) => ValueModel::Mapping(
            Seq::new(entries@.len(), |i: int| entry_model(entries@, i)),
        ),
        Value::Number(n) => ValueModel::Number(n),
        Value::Optional(o) => match o {
            Some(inner) => ValueModel::Optional(Some(Box::new(value_model(*inner)))),
            None => ValueModel::Optional(None),
        },
        Value::Text(s) => ValueModel::Text(s@),
        Value::Bytes(b) => ValueModel::Bytes(b@),
        Value::Sequence(items) => ValueModel::Sequence(
            Seq::new(items@.len(), |i: int| item_model(items@, i)),
        ),
        Value::Unit => ValueModel::Unit,
    }
}

/// The content of the item at `i`.
pub open spec fn item_model(items: Seq<Value>, i: int) -> ValueModel
    decreases items, 0nat,
{
    if 0 <= i < items.len() {
        value_model(items[i])
    } else {
        ValueModel::Unit
    }
}

/// The content of the key and of the value of the entry at `i`.
pub open spec fn entry_model(entries: Seq<(Value, Value)>, i: int) -> (ValueModel, ValueModel)
    decreases entries, 0nat,
{
    if 0 <= i < entries.len() {
        (value_model(entries[i].0), value_model(entries[i].1))
    } else {
        (ValueModel::Unit, ValueModel::Unit)
    }
}

impl Clone for Value {
    #[verifier::loop_isolation(false)]
    fn clone(&self) -> (r: Self)
        ensures
            r@ == self@,
        decreases self,
    {
        match self {
            Value::Bool(b) => Value::Bool(*b),
            Value::Char(c) => Value::Char(*c),
            Value::Mapping(entries) => {
                let mut out: Vec<(Value, Value)> = Vec::new();
                let mut i: usize = 0;
                while i < entries.len()
                    invariant
                        i <= entries.len(),
                        out.len() == i,
                        forall|j: int|
                            0 <= j < i ==> out@[j].0@ == entries@[j].0@ && out@[j].1@
                                == entries@[j].1@,
                    decreases entries.len() - i,
                {
                    let k = entries[i].0.clone();
                    let v = entries[i].1.clone();
                    out.push((k, v));
                    i = i + 1;
                }
                let r = Value::Mapping(out);
                assert(r@ == self@) by {
                    reveal_with_fuel(value_model, 2);
                    reveal_with_fuel(entry_model, 2);
                    let a = r@->Mapping_0;
                    let b = self@->Mapping_0;
                    assert forall|j: int| 0 <= j < a.len() implies a[j] == b[j] by {
                        assert(a[j] == entry_model(out@, j));
                        assert(b[j] == entry_model(entries@, j));
                        assert(out@[j].0@ == entries@[j].0@);
                    }
                    assert(a =~= b);
                }
                r
            },
            Value::Number(n) => Value::Number(*n),
            Value::Optional(o) => match o {
                Some(inner) => Value::Optional(Some(Box::new((&**inner).clone()))),
                None => Value::Optional(None),
            },
            Value::Text(s) => Value::Text(s.clone()),
            Value::Bytes(b) => {
                let c = b.clone();
                assert(c@ =~= b@);
                Value::Bytes(c)
            },
            Value::Sequence(items) => {
                let mut out: Vec<Value> = Vec::new();
                let mut i: usize = 0;
                while i < items.len()
                    invariant
                        i <= items.len(),
                        out.len() == i,
                        forall|j: int| 0 <= j < i ==> out@[j]@ == items@[j]@,
                    decreases items.len() - i,
                {
                    out.push(items[i].clone());
                    i = i + 1;
                }
                let r = Value::Sequence(out);
                assert(r@ == self@) by {
                    reveal_with_fuel(value_model, 2);
                    reveal_with_fuel(item_model, 2);
                    let a = r@->Sequence_0;
                    let b = self@->Sequence_0;
                    assert forall|j: int| 0 <= j < a.len() implies a[j] == b[j] by {
                        assert(a[j] == item_model(out@, j));
                        assert(b[j] == item_model(items@, j));
                        assert(out@[j]@ == items@[j]@);
                    }
                    assert(a =~= b);
                }
                r
            },
            Value::Unit => Value::Unit,
        }
    }
}

/// The kind of a value, as errors name it.
#[derive(Debug, Clone, Copy, PartialEq, Eq, Structural)]
pub enum ValueKind {
    Bool,
    Char,
    Mapping,
    Integer,
    Float,
    Optional,
    Text,
    Bytes,
    Sequence,
    Unit,
}

/// Why a value could not be read as the requested host type.
#[derive(Debug, Clone, Copy, PartialEq, Eq, Structural)]
pub enum ValueError {
    /// The value is of kind `found` where `expected` was asked for.
    KindMismatch { expected: ValueKind, found: ValueKind },
}

impl Number {
    /// Whether the number is one of the two float variants.
    pub open spec fn is_float(self) -> bool {
        self is F32 || self is F64
    }

    /// The integer that an integer variant holds.
    pub open spec fn as_int(self) -> int
        recommends
            !self.is_float(),
    {
        match self {
            Number::I8(n) => n as int,
            Number::I16(n) => n as int,
            Number::I32(n) => n as int,
            Number::I64(n) => n as int,
            Number::U8(n) => n as int,
            Number::U16(n) => n as int,
            Number::U32(n) => n as int,
            Number::U64(n) => n as int,
            Number::F32(_) => 0,
            Number::F64(_) => 0,
        }
    }
}

impl ValueModel {
    /// The kind of the value.
    pub open spec fn kind(self) -> ValueKind {
        match self {
            ValueModel::Bool(_) => ValueKind::Bool,
            ValueModel::Char(_) => ValueKind::Char,
            ValueModel::Mapping(_) => ValueKind::Mapping,
            ValueModel::Number(n) => if n.is_float() {
                ValueKind::Float
            } else {
                ValueKind::Integer
            },
            ValueModel::Optional(_) => ValueKind::Optional,
            ValueModel::Text(_) => ValueKind::Text,
            ValueModel::Bytes(_) => ValueKind::Bytes,
            ValueModel::Sequence(_) => ValueKind::Sequence,
            ValueModel::Unit => ValueKind::Unit,
        }
    }

    /// The integer read from the value, or the mismatch that prevents it.
    pub open spec fn integer(self) -> Result<int, ValueError> {
        match self {
            ValueModel::Number(n) if !n.is_float() => Ok(n.as_int()),
            _ => Err(
                ValueError::KindMismatch { expected: ValueKind::Integer, found: self.kind() },
            ),
        }
    }
}

impl Value {
    /// The kind of the value.
    pub fn kind(&self) -> (k: ValueKind)
        ensures
            k == self@.kind(),
    {
        match self {
            Value::Bool(_) => ValueKind::Bool,
            Value::Char(_) => ValueKind::Char,
            Value::Mapping(_) => ValueKind::Mapping,
            Value::Number(n) => match n {
                Number::F32(_) => ValueKind::Float,
                Number::F64(_) => ValueKind::Float,
                _ => ValueKind::Integer,
            },
            Value::Optional(_) => ValueKind::Optional,
            Value::Text(_) => ValueKind::Text,
            Value::Bytes(_) => ValueKind::Bytes,
            Value::Sequence(_) => ValueKind::Sequence,
            Value::Unit => ValueKind::Unit,
        }
    }
}

impl Value {
    /// The integer that the value holds, widened without loss.
    pub fn integer(&self) -> (r: Result<i128, ValueError>)
        ensures
            r == match self@.integer() {
                Ok(n) => Ok::<i128, ValueError>(n as i128),
                Err(e) => Err(e),
            },
            r matches Ok(w) ==> self@.integer() == Ok::<int, ValueError>(w as int),
    {
        match self {
            Value::Number(Number::I8(n)) => Ok(*n as i128),
            Value::Number(Number::I16(n)) => Ok(*n as i128),
            Value::Number(Number::I32(n)) => Ok(*n as i128),
            Value::Number(Number::I64(n)) => Ok(*n as i128),
            Value::Number(Number::U8(n)) => Ok(*n as i128),
            Value::Number(Number::U16(n)) => Ok(*n as i128),
            Value::Number(Number::U32(n)) => Ok(*n as i128),
            Value::Number(Number::U64(n)) => Ok(*n as i128),
            other => Err(
                ValueError::KindMismatch { expected: ValueKind::Integer, found: other.kind() },
            ),
        }
    }
}

/// Host types that a [`Value`] can be read as.
pub trait FromValue: Sized {
    /// Whether `r` is what reading `v` as `Self` gives.
    spec fn reads_as(v: ValueModel, r: Result<Self, ValueError>) -> bool;

    /// Reads `v` as `Self`, or says which kind stood in the way.
    fn from_value(v: &Value) -> (r: Result<Self, ValueError>)
        ensures
            Self::reads_as(v@, r),
    ;
}

impl FromValue for i8 {
    /// Any integer variant is read, widened or truncated to `i8` as a cast
    /// does; every other kind is a mismatch.
    open spec fn reads_as(v: ValueModel, r: Result<i8, ValueError>) -> bool {
        r == match v.integer() {
            Ok(n) => Ok::<i8, ValueError>(n as i8),
            Err(e) => Err(e),
        }
    }

    fn from_value(v: &Value) -> (r: Result<i8, ValueError>) {
        match v.integer() {
            Ok(w) => Ok(#[verifier::truncate] (w as i8)),
            Err(e) => Err(e),
        }
    }
}

impl FromValue for i16 {
    /// Any integer variant is read, widened or truncated to `i16` as a cast
    /// does; every other kind is a mismatch.
    open spec fn reads_as(v: ValueModel, r: Result<i16, ValueError>) -> bool {
        r == match v.integer() {
            Ok(n) => Ok::<i16, ValueError>(n as i16),
            Err(e) => Err(e),
        }
    }

    fn from_value(v: &Value) -> (r: Result<i16, ValueError>) {
        match v.integer() {
            Ok(w) => Ok(#[verifier::truncate] (w as i16)),
            Err(e) => Err(e),
        }
    }
}

impl FromValue for i32 {
    /// Any integer variant is read, widened or truncated to `i32` as a cast
    /// does; every other kind is a mismatch.
    open spec fn reads_as(v: ValueModel, r: Result<i32, ValueError>) -> bool {
        r == match v.integer() {
            Ok(n) => Ok::<i32, ValueError>(n as i32),
            Err(e) => Err(e),
        }
    }

    fn from_value(v: &Value) -> (r: Result<i32, ValueError>) {
        match v.integer() {
            Ok(w) => Ok(#[verifier::truncate] (w as i32)),
            Err(e) => Err(e),
        }
    }
}

impl FromValue for i64 {
    /// Any integer variant is read, widened or truncated to `i64` as a cast
    /// does; every other kind is a mismatch.
    open spec fn reads_as(v: ValueModel, r: Result<i64, ValueError>) -> bool {
        r == match v.integer() {
            Ok(n) => Ok::<i64, ValueError>(n as i64),
            Err(e) => Err(e),
        }
    }

    fn from_value(v: &Value) -> (r: Result<i64, ValueError>) {
        match v.integer() {
            Ok(w) => Ok(#[verifier::truncate] (w as i64)),
            Err(e) => Err(e),
        }
    }
}

impl FromValue for u8 {
    /// Any integer variant is read, widened or truncated to `u8` as a cast
    /// does; every other kind is a mismatch.
    open spec fn reads_as(v: ValueModel, r: Result<u8, ValueError>) -> bool {
        r == match v.integer() {
            Ok(n) => Ok::<u8, ValueError>(n as u8),
            Err(e) => Err(e),
        }
    }

    fn from_value(v: &Value) -> (r: Result<u8, ValueError>) {
        match v.integer() {
            Ok(w) => Ok(#[verifier::truncate] (w as u8)),
            Err(e) => Err(e),
        }
    }
}

impl FromValue for u16 {
    /// Any integer variant is read, widened or truncated to `u16` as a cast
    /// does; every other kind is a mismatch.
    open spec fn reads_as(v: ValueModel, r: Result<u16, ValueError>) -> bool {
        r == match v.integer() {
            Ok(n) => Ok::<u16, ValueError>(n as u16),
            Err(e) => Err(e),
        }
    }

    fn from_value(v: &Value) -> (r: Result<u16, ValueError>) {
        match v.integer() {
            Ok(w) => Ok(#[verifier::truncate] (w as u16)),
            Err(e) => Err(e),
        }
    }
}

impl FromValue for u32 {
    /// Any integer variant is read, widened or truncated to `u32` as a cast
    /// does; every other kind is a mismatch.
    open spec fn reads_as(v: ValueModel, r: Result<u32, ValueError>) -> bool {
        r == match v.integer() {
            Ok(n) => Ok::<u32, ValueError>(n as u32),
            Err(e) => Err(e),
        }
    }

    fn from_value(v: &Value) -> (r: Result<u32, ValueError>) {
        match v.integer() {
            Ok(w) => Ok(#[verifier::truncate] (w as u32)),
            Err(e) => Err(e),
        }
    }
}

impl FromValue for u64 {
    /// Any integer variant is read, widened or truncated to `u64` as a cast
    /// does; every other kind is a mismatch.
    open spec fn reads_as(v: ValueModel, r: Result<u64, ValueError>) -> bool {
        r == match v.integer() {
            Ok(n) => Ok::<u64, ValueError>(n as u64),
            Err(e) => Err(e),
        }
    }

    fn from_value(v: &Value) -> (r: Result<u64, ValueError>) {
        match v.integer() {
            Ok(w) => Ok(#[verifier::truncate] (w as u64)),
            Err(e) => Err(e),
        }
    }
}

impl FromValue for bool {
    /// Only a boolean is read as a boolean.
    open spec fn reads_as(v: ValueModel, r: Result<bool, ValueError>) -> bool {
        r == match v {
            ValueModel::Bool(b) => Ok::<bool, ValueError>(b),
            _ => Err(ValueError::KindMismatch { expected: ValueKind::Bool, found: v.kind() }),
        }
    }

    fn from_value(v: &Value) -> (r: Result<bool, ValueError>) {
        match v {
            Value::Bool(b) => Ok(*b),
            other => Err(
                ValueError::KindMismatch { expected: ValueKind::Bool, found: other.kind() },
            ),
        }
    }
}

impl FromValue for String {
    /// Only a text is read as a string, character for character.
    open spec fn reads_as(v: ValueModel, r: Result<String, ValueError>) -> bool {
        match v {
            ValueModel::Text(s) => r is Ok && r->Ok_0@ == s,
            _ => r == Err::<String, ValueError>(
                ValueError::KindMismatch { expected: ValueKind::Text, found: v.kind() },
            ),
        }
    }

    fn from_value(v: &Value) -> (r: Result<String, ValueError>) {
        match v {
            Value::Text(s) => Ok(s.clone()),
            other => Err(
                ValueError::KindMismatch { expected: ValueKind::Text, found: other.kind() },
            ),
        }
    }
}

/// A `i8` becomes the `I8` number of the same value.
impl From<i8> for Value {
    fn from(v: i8) -> (r: Value) {
        Value::Number(Number::I8(v))
    }
}

impl FromSpecImpl<i8> for Value {
    open spec fn obeys_from_spec() -> bool {
        true
    }

    open spec fn from_spec(v: i8) -> Value {
        Value::Number(Number::I8(v))
    }
}

/// A `i16` becomes the `I16` number of the same value.
impl From<i16> for Value {
    fn from(v: i16) -> (r: Value) {
        Value::Number(Number::I16(v))
    }
}

impl FromSpecImpl<i16> for Value {
    open spec fn obeys_from_spec() -> bool {
        true
    }

    open spec fn from_spec(v: i16) -> Value {
        Value::Number(Number::I16(v))
    }
}

/// A `i32` becomes the `I32` number of the same value.
impl From<i32> for Value {
    fn from(v: i32) -> (r: Value) {
        Value::Number(Number::I32(v))
    }
}

impl FromSpecImpl<i32> for Value {
    open spec fn obeys_from_spec() -> bool {
        true
    }

    open spec fn from_spec(v: i32) -> Value {
        Value::Number(Number::I32(v))
    }
}

/// A `i64` becomes the `I64` number of the same value.
impl From<i64> for Value {
    fn from(v: i64) -> (r: Value) {
        Value::Number(Number::I64(v))
    }
}

impl FromSpecImpl<i64> for Value {
    open spec fn obeys_from_spec() -> bool {
        true
    }

    open spec fn from_spec(v: i64) -> Value {
        Value::Number(Number::I64(v))
    }
}

/// A `u8` becomes the `U64` number of the same value.
impl From<u8> for Value {
    fn from(v: u8) -> (r: Value) {
        Value::Number(Number::U64(v as u64))
    }
}

impl FromSpecImpl<u8> for Value {
    open spec fn obeys_from_spec() -> bool {
        true
    }

    open spec fn from_spec(v: u8) -> Value {
        Value::Number(Number::U64(v as u64))
    }
}

/// A `u16` becomes the `U64` number of the same value.
impl From<u16> for Value {
    fn from(v: u16) -> (r: Value) {
        Value::Number(Number::U64(v as u64))
    }
}

impl FromSpecImpl<u16> for Value {
    open spec fn obeys_from_spec() -> bool {
        true
    }

    open spec fn from_spec(v: u16) -> Value {
        Value::Number(Number::U64(v as u64))
    }
}

/// A `u32` becomes the `U64` number of the same value.
impl From<u32> for Value {
    fn from(v: u32) -> (r: Value) {
        Value::Number(Number::U64(v as u64))
    }
}

impl FromSpecImpl<u32> for Value {
    open spec fn obeys_from_spec() -> bool {
        true
    }

    open spec fn from_spec(v: u32) -> Value {
        Value::Number(Number::U64(v as u64))
    }
}

/// A `u64` becomes the `U64` number of the same value.
impl From<u64> for Value {
    fn from(v: u64) -> (r: Value) {
        Value::Number(Number::U64(v))
    }
}

impl FromSpecImpl<u64> for Value {
    open spec fn obeys_from_spec() -> bool {
        true
    }

    open spec fn from_spec(v: u64) -> Value {
        Value::Number(Number::U64(v))
    }
}

impl From<bool> for Value {
    fn from(v: bool) -> (r: Value) {
        Value::Bool(v)
    }
}

impl FromSpecImpl<bool> for Value {
    open spec fn obeys_from_spec() -> bool {
        true
    }

    open spec fn from_spec(v: bool) -> Value {
        Value::Bool(v)
    }
}

impl From<String> for Value {
    fn from(v: String) -> (r: Value) {
        Value::Text(v)
    }
}

impl FromSpecImpl<String> for Value {
    open spec fn obeys_from_spec() -> bool {
        true
    }

    open spec fn from_spec(v: String) -> Value {
        Value::Text(v)
    }
}

} // verus!
