//! The values of the renderer and their types.
use crate::render::ty::Type;
use vstd::prelude::*;

verus! {

/// A value: a map from names to values, a list, a boolean, a string, a float (held
/// as the bits of an `f64`), an integer, inline or block content of the renderer,
/// or nothing.
#[derive(Debug)]
pub enum Value<I, B> {
    Mapping(Vec<(String, Value<I, B>)>),
    List(Vec<Value<I, B>>),
    Bool(bool),
    Str(String),
    Float(u64),
    Int(i64),
    Inline(I),
    Block(B),
    Nothing,
}

/// The type of a value; nothing has every type.
pub open spec fn value_type<I, B>(v: Value<I, B>) -> Type {
    match v {
        Value::Mapping(_) => Type::Mapping,
        Value::List(_) => Type::List,
        Value::Bool(_) => Type::Bool,
        Value::Str(_) => Type::Str,
        Value::Float(_) => Type::Float,
        Value::Int(_) => Type::Int,
        Value::Inline(_) => Type::Inline,
        Value::Block(_) => Type::Block,
        Value::Nothing => Type::Any,
    }
}

impl<I, B> Value<I, B> {
    /// The type of the value.
    pub fn ty(&self) -> (r: Type)
        ensures
            r == value_type(*self),
    {
        match self {
            Value::Mapping(_) => Type::Mapping,
            Value::List(_) => Type::List,
            Value::Bool(_) => Type::Bool,
            Value::Str(_) => Type::Str,
            Value::Float(_) => Type::Float,
            Value::Int(_) => Type::Int,
            Value::Inline(_) => Type::Inline,
            Value::Block(_) => Type::Block,
            Value::Nothing => Type::Any,
        }
    }

    /// The entries of a map.
    pub fn into_map(self) -> (r: Option<Vec<(String, Value<I, B>)>>)
        ensures
            match self {
                Value::Mapping(m) => r == Some(m),
                _ => r is None,
            },
    {
        match self {
            Value::Mapping(m) => Some(m),
            _ => None,
        }
    }

    /// The items of a list.
    pub fn into_list(self) -> (r: Option<Vec<Value<I, B>>>)
        ensures
            match self {
                Value::List(l) => r == Some(l),
                _ => r is None,
            },
    {
        match self {
            Value::List(l) => Some(l),
            _ => None,
        }
    }

    /// A boolean.
    pub fn into_bool(self) -> (r: Option<bool>)
        ensures
            match self {
                Value::Bool(b) => r == Some(b),
                _ => r is None,
            },
    {
        match self {
            Value::Bool(b) => Some(b),
            _ => None,
        }
    }

    /// A string.
    pub fn into_string(self) -> (r: Option<String>)
        ensures
            match self {
                Value::Str(s) => r == Some(s),
                _ => r is None,
            },
    {
        match self {
            Value::Str(s) => Some(s),
            _ => None,
        }
    }

    /// An integer.
    pub fn into_int(self) -> (r: Option<i64>)
        ensures
            match self {
                Value::Int(i) => r == Some(i),
                _ => r is None,
            },
    {
        match self {
            Value::Int(i) => Some(i),
            _ => None,
        }
    }

    /// The bits of a float.
    pub fn into_float(self) -> (r: Option<u64>)
        ensures
            match self {
                Value::Float(f) => r == Some(f),
                _ => r is None,
            },
    {
        match self {
            Value::Float(f) => Some(f),
            _ => None,
        }
    }

    /// Inline content.
    pub fn into_inline(self) -> (r: Option<I>)
        ensures
            match self {
                Value::Inline(c) => r == Some(c),
                _ => r is None,
            },
    {
        match self {
            Value::Inline(c) => Some(c),
            _ => None,
        }
    }

    /// Block content.
    pub fn into_block(self) -> (r: Option<B>)
        ensures
            match self {
                Value::Block(c) => r == Some(c),
                _ => r is None,
            },
    {
        match self {
            Value::Block(c) => Some(c),
            _ => None,
        }
    }
}

/// Types that a value of the renderer can be cast to, as arguments of commands are.
pub trait Cast<I, B>: Sized {
    /// Whether the value can be cast to this type.
    spec fn castable(value: Value<I, B>) -> bool;

    /// Whether `out` is the value cast to this type.
    spec fn cast_of(value: Value<I, B>, out: Self) -> bool;

    /// Casts the value to this type.
    fn cast(value: Value<I, B>) -> (r: Self)
        requires
            Self::castable(value),
        ensures
            Self::cast_of(value, r),
    ;
}

impl<I, B> Cast<I, B> for Value<I, B> {
    open spec fn castable(value: Value<I, B>) -> bool {
        true
    }

    open spec fn cast_of(value: Value<I, B>, out: Value<I, B>) -> bool {
        out == value
    }

    fn cast(value: Value<I, B>) -> (r: Value<I, B>) {
        value
    }
}

impl<I, B> Cast<I, B> for bool {
    open spec fn castable(value: Value<I, B>) -> bool {
        value is Bool
    }

    open spec fn cast_of(value: Value<I, B>, out: bool) -> bool {
        value == Value::<I, B>::Bool(out)
    }

    fn cast(value: Value<I, B>) -> (r: bool) {
        match value {
            Value::Bool(b) => b,
            _ => {
                assert(false);
                false
            },
        }
    }
}

impl<I, B> Cast<I, B> for String {
    open spec fn castable(value: Value<I, B>) -> bool {
        value is Str
    }

    open spec fn cast_of(value: Value<I, B>, out: String) -> bool {
        value == Value::<I, B>::Str(out)
    }

    fn cast(value: Value<I, B>) -> (r: String) {
        match value {
            Value::Str(s) => s,
            _ => {
                assert(false);
                String::new()
            },
        }
    }
}

impl<I, B> Cast<I, B> for i64 {
    open spec fn castable(value: Value<I, B>) -> bool {
        value is Int
    }

    open spec fn cast_of(value: Value<I, B>, out: i64) -> bool {
        value == Value::<I, B>::Int(out)
    }

    fn cast(value: Value<I, B>) -> (r: i64) {
        match value {
            Value::Int(i) => i,
            _ => {
                assert(false);
                0
            },
        }
    }
}

impl<I, B, T: Cast<I, B>> Cast<I, B> for Vec<T> {
    open spec fn castable(value: Value<I, B>) -> bool {
        match value {
            Value::List(l) => forall|i: int| 0 <= i < l@.len() ==> T::castable(#[trigger] l@[i]),
            _ => false,
        }
    }

    open spec fn cast_of(value: Value<I, B>, out: Vec<T>) -> bool {
        match value {
            Value::List(l) => out@.len() == l@.len() && forall|i: int|
                0 <= i < l@.len() ==> T::cast_of(#[trigger] l@[i], out@[i]),
            _ => false,
        }
    }

    fn cast(value: Value<I, B>) -> (r: Vec<T>) {
        match value {
            Value::List(l) => {
                let ghost items = l@;
                let mut out: Vec<T> = Vec::new();
                proof {
                    broadcast use vstd::std_specs::vec::axiom_spec_into_iter;
                }
                for x in it: l.into_iter()
                    invariant
                        it.seq() == items,
                        forall|i: int| 0 <= i < items.len() ==> T::castable(#[trigger] items[i]),
                        out@.len() == it.index(),
                        forall|j: int| 0 <= j < it.index() ==> T::cast_of(#[trigger] items[j], out@[j]),
                {
                    out.push(T::cast(x));
                }
                out
            },
            _ => {
                assert(false);
                Vec::new()
            },
        }
    }
}

} // verus!
