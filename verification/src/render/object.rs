//! The kinds of the objects a renderer works on.
use vstd::prelude::*;
use vstd::string::StringExecFns;

verus! {

/// The kind of an object.
#[derive(Debug, Clone, Copy, PartialEq, Eq, PartialOrd, Ord, Structural)]
pub enum ObjectKind {
    Mapping,
    List,
    Bool,
    Str,
    Block,
    Element,
}

/// The name of an object kind.
pub open spec fn object_kind_name(k: ObjectKind) -> Seq<char> {
    match k {
        ObjectKind::Mapping => "Map"@,
        ObjectKind::List => "List"@,
        ObjectKind::Bool => "Bool"@,
        ObjectKind::Str => "Str"@,
        ObjectKind::Block => "Block"@,
        ObjectKind::Element => "Element"@,
    }
}

impl ObjectKind {
    /// The name of the kind, as it is shown.
    pub fn to_string(&self) -> (r: String)
        ensures
            r@ == object_kind_name(*self),
    {
        match self {
            ObjectKind::Mapping => String::from_str("Map"),
            ObjectKind::List => String::from_str("List"),
            ObjectKind::Bool => String::from_str("Bool"),
            ObjectKind::Str => String::from_str("Str"),
            ObjectKind::Block => String::from_str("Block"),
            ObjectKind::Element => String::from_str("Element"),
        }
    }
}

/// An object a renderer works on: a map, a list, a boolean, a string, a block or
/// an element of the document.
#[derive(Debug)]
pub enum Object<Bk, El> {
    Mapping(Vec<(String, Object<Bk, El>)>),
    List(Vec<Object<Bk, El>>),
    Bool(bool),
    Str(String),
    Block(Bk),
    Element(El),
}

/// The kind of an object.
pub open spec fn object_kind<Bk, El>(o: Object<Bk, El>) -> ObjectKind {
    match o {
        Object::Mapping(_) => ObjectKind::Mapping,
        Object::List(_) => ObjectKind::List,
        Object::Bool(_) => ObjectKind::Bool,
        Object::Str(_) => ObjectKind::Str,
        Object::Block(_) => ObjectKind::Block,
        Object::Element(_) => ObjectKind::Element,
    }
}

impl<Bk, El> Object<Bk, El> {
    /// The kind of the object.
    pub fn kind(&self) -> (r: ObjectKind)
        ensures
            r == object_kind(*self),
    {
        match self {
            Object::Mapping(_) => ObjectKind::Mapping,
            Object::List(_) => ObjectKind::List,
            Object::Bool(_) => ObjectKind::Bool,
            Object::Str(_) => ObjectKind::Str,
            Object::Block(_) => ObjectKind::Block,
            Object::Element(_) => ObjectKind::Element,
        }
    }

    /// The entries of a map.
    pub fn into_map(self) -> (r: Option<Vec<(String, Object<Bk, El>)>>)
        ensures
            match self {
                Object::Mapping(m) => r == Some(m),
                _ => r is None,
            },
    {
        match self {
            Object::Mapping(m) => Some(m),
            _ => None,
        }
    }

    /// The items of a list.
    pub fn into_list(self) -> (r: Option<Vec<Object<Bk, El>>>)
        ensures
            match self {
                Object::List(l) => r == Some(l),
                _ => r is None,
            },
    {
        match self {
            Object::List(l) => Some(l),
            _ => None,
        }
    }

    /// A boolean.
    pub fn into_bool(self) -> (r: Option<bool>)
        ensures
            match self {
                Object::Bool(b) => r == Some(b),
                _ => r is None,
            },
    {
        match self {
            Object::Bool(b) => Some(b),
            _ => None,
        }
    }

    /// A string.
    pub fn into_string(self) -> (r: Option<String>)
        ensures
            match self {
                Object::Str(s) => r == Some(s),
                _ => r is None,
            },
    {
        match self {
            Object::Str(s) => Some(s),
            _ => None,
        }
    }

    /// A block.
    pub fn into_block(self) -> (r: Option<Bk>)
        ensures
            match self {
                Object::Block(b) => r == Some(b),
                _ => r is None,
            },
    {
        match self {
            Object::Block(b) => Some(b),
            _ => None,
        }
    }

    /// An element.
    pub fn into_element(self) -> (r: Option<El>)
        ensures
            match self {
                Object::Element(e) => r == Some(e),
                _ => r is None,
            },
    {
        match self {
            Object::Element(e) => Some(e),
            _ => None,
        }
    }
}

} // verus!
