//! The types of values.
use vstd::prelude::*;
use vstd::string::StringExecFns;
use vstd::std_specs::cmp::PartialEqSpecImpl;

verus! {

/// The type of a value. `Any` stands for every type.
#[derive(Debug, Clone, Copy)]
pub enum Type {
    Mapping,
    List,
    Bool,
    Str,
    Float,
    Int,
    Inline,
    Block,
    Any,
}

/// Whether two types match: they are the same, or one of them is `Any`.
pub open spec fn types_match(a: Type, b: Type) -> bool {
    a == b || a == Type::Any || b == Type::Any
}

impl PartialEq for Type {
    fn eq(&self, other: &Self) -> (r: bool) {
        match (self, other) {
            (Type::Mapping, Type::Mapping) => true,
            (Type::List, Type::List) => true,
            (Type::Bool, Type::Bool) => true,
            (Type::Str, Type::Str) => true,
            (Type::Float, Type::Float) => true,
            (Type::Int, Type::Int) => true,
            (Type::Inline, Type::Inline) => true,
            (Type::Block, Type::Block) => true,
            (Type::Any, _) => true,
            (_, Type::Any) => true,
            _ => false,
        }
    }
}

impl PartialEqSpecImpl for Type {
    open spec fn obeys_eq_spec() -> bool {
        true
    }

    open spec fn eq_spec(&self, other: &Self) -> bool {
        types_match(*self, *other)
    }
}

impl Eq for Type {}

/// The name of a type.
pub open spec fn type_label(t: Type) -> Seq<char> {
    match t {
        Type::Mapping => "Map"@,
        Type::List => "List"@,
        Type::Bool => "Bool"@,
        Type::Str => "Str"@,
        Type::Float => "Float"@,
        Type::Int => "Int"@,
        Type::Inline => "Inline"@,
        Type::Block => "Block"@,
        Type::Any => "Any"@,
    }
}

impl Type {
    /// The name of the type, as it is shown.
    pub fn to_string(&self) -> (r: String)
        ensures
            r@ == type_label(*self),
    {
        match self {
            Type::Mapping => String::from_str("Map"),
            Type::List => String::from_str("List"),
            Type::Bool => String::from_str("Bool"),
            Type::Str => String::from_str("Str"),
            Type::Float => String::from_str("Float"),
            Type::Int => String::from_str("Int"),
            Type::Inline => String::from_str("Inline"),
            Type::Block => String::from_str("Block"),
            Type::Any => String::from_str("Any"),
        }
    }
}

/// Every type matches itself.
pub proof fn lemma_types_match_reflexive(a: Type)
    ensures
        types_match(a, a),
{
}

/// Matching does not depend on the order of the two types.
pub proof fn lemma_types_match_symmetric(a: Type, b: Type)
    ensures
        types_match(a, b) == types_match(b, a),
{
}

/// `Any` matches every type.
pub proof fn lemma_any_matches_all(a: Type)
    ensures
        types_match(Type::Any, a),
        types_match(a, Type::Any),
{
}

/// Two types other than `Any` match only when they are the same.
pub proof fn lemma_concrete_types_match(a: Type, b: Type)
    requires
        a != Type::Any,
        b != Type::Any,
    ensures
        types_match(a, b) <==> a == b,
{
}

} // verus!
