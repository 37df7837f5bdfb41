//! Signatures of commands and the checking of the arguments of a call.
use crate::node::Span;
use crate::render::error::{ArgumentError, EngineError, EngineErrorMessage};
use crate::render::ty::{types_match, Type};
use crate::render::value::{value_type, Cast, Value};
use vstd::pervasive::VecAdditionalExecFns;
use vstd::prelude::*;

verus! {

/// The first entry for a name in a list of named entries.
pub open spec fn lookup<P>(es: Seq<(String, P)>, k: Seq<char>) -> Option<P>
    decreases es.len(),
{
    if es.len() == 0 {
        None
    } else if es[0].0@ == k {
        Some(es[0].1)
    } else {
        lookup(es.drop_first(), k)
    }
}

/// Whether a name occurs among the entries.
pub open spec fn has_key<P>(es: Seq<(String, P)>, k: Seq<char>) -> bool {
    exists|i: int| 0 <= i < es.len() && #[trigger] es[i].0@ == k
}

/// The first entry for a name is found where it is; a name that occurs nowhere has
/// no entry.
pub proof fn lemma_lookup_index<P>(es: Seq<(String, P)>, k: Seq<char>, i: int)
    requires
        0 <= i <= es.len(),
        forall|j: int| 0 <= j < i ==> #[trigger] es[j].0@ != k,
        i < es.len() ==> es[i].0@ == k,
    ensures
        lookup(es, k) == if i < es.len() {
            Some(es[i].1)
        } else {
            None
        },
    decreases es.len(),
{
    if es.len() > 0 && i > 0 {
        assert(es[0].0@ != k);
        assert forall|j: int| 0 <= j < i - 1 implies #[trigger] es.drop_first()[j].0@ != k by {
            assert(es.drop_first()[j] == es[j + 1]);
        }
        if i < es.len() {
            assert(es.drop_first()[i - 1] == es[i]);
        }
        lemma_lookup_index(es.drop_first(), k, i - 1);
    }
}

/// Replacing the first entry for a name replaces what the name gives and keeps
/// every other name.
pub proof fn lemma_lookup_update<P>(es: Seq<(String, P)>, i: int, e: (String, P), k: Seq<char>)
    requires
        0 <= i < es.len(),
        es[i].0@ == e.0@,
        forall|j: int| 0 <= j < i ==> #[trigger] es[j].0@ != e.0@,
    ensures
        lookup(es.update(i, e), k) == if k == e.0@ {
            Some(e.1)
        } else {
            lookup(es, k)
        },
    decreases es.len(),
{
    if i == 0 {
        assert(es.update(i, e).drop_first() =~= es.drop_first());
    } else {
        assert(es.update(i, e).drop_first() =~= es.drop_first().update(i - 1, e));
        assert forall|j: int| 0 <= j < i - 1 implies #[trigger] es.drop_first()[j].0@ != e.0@ by {
            assert(es.drop_first()[j] == es[j + 1]);
        }
        lemma_lookup_update(es.drop_first(), i - 1, e, k);
    }
}

/// Adding an entry for a new name at the end gives that name and keeps the others.
pub proof fn lemma_lookup_push<P>(es: Seq<(String, P)>, e: (String, P), k: Seq<char>)
    requires
        !has_key(es, e.0@),
    ensures
        lookup(es.push(e), k) == if k == e.0@ {
            Some(e.1)
        } else {
            lookup(es, k)
        },
    decreases es.len(),
{
    if es.len() == 0 {
        assert(es.push(e).drop_first() =~= Seq::<(String, P)>::empty());
        assert(es.push(e)[0] == e);
        assert(lookup(Seq::<(String, P)>::empty(), k) is None);
    } else {
        assert(es.push(e).drop_first() =~= es.drop_first().push(e));
        assert(es.push(e)[0] == es[0]);
        assert(es[0].0@ != e.0@);
        assert forall|j: int| 0 <= j < es.drop_first().len() implies #[trigger] es.drop_first()[j].0@
            != e.0@ by {
            assert(es.drop_first()[j] == es[j + 1]);
        }
        lemma_lookup_push(es.drop_first(), e, k);
    }
}

/// Finds the first entry for a name.
pub fn entry_index<P>(es: &Vec<(String, P)>, k: &String) -> (r: Option<usize>)
    ensures
        r matches Some(i) ==> i < es@.len() && es@[i as int].0@ == k@ && forall|j: int|
            0 <= j < i ==> #[trigger] es@[j].0@ != k@,
        r is None ==> !has_key(es@, k@),
{
    let mut i: usize = 0;
    while i < es.len()
        invariant
            i <= es@.len(),
            forall|j: int| 0 <= j < i ==> #[trigger] es@[j].0@ != k@,
        decreases es.len() - i,
    {
        if es[i].0 == *k {
            return Some(i);
        }
        i = i + 1;
    }
    None
}

/// No name occurs in two entries.
pub open spec fn unique_names<P>(es: Seq<(String, P)>) -> bool {
    forall|i: int, j: int| 0 <= i < j < es.len() ==> (#[trigger] es[i]).0@ != (#[trigger] es[j]).0@
}

/// Sets what a name gives: the first entry for it is replaced, or an entry is
/// added at the end.
pub fn entries_insert<P>(es: &mut Vec<(String, P)>, k: String, v: P)
    ensures
        forall|n: Seq<char>| #[trigger]
            lookup(final(es)@, n) == if n == k@ {
                Some(v)
            } else {
                lookup(old(es)@, n)
            },
        unique_names(old(es)@) ==> unique_names(final(es)@),
{
    let ghost e = (k, v);
    match entry_index(es, &k) {
        Some(i) => {
            proof {
                assert forall|n: Seq<char>| #[trigger]
                    lookup(old(es)@.update(i as int, e), n) == if n == k@ {
                        Some(v)
                    } else {
                        lookup(old(es)@, n)
                    } by {
                    lemma_lookup_update(old(es)@, i as int, e, n);
                }
            }
            es.set(i, (k, v));
            assert(es@ == old(es)@.update(i as int, e));
        },
        None => {
            proof {
                assert forall|n: Seq<char>| #[trigger]
                    lookup(old(es)@.push(e), n) == if n == k@ {
                        Some(v)
                    } else {
                        lookup(old(es)@, n)
                    } by {
                    lemma_lookup_push(old(es)@, e, n);
                }
            }
            es.push((k, v));
            assert(es@ == old(es)@.push(e));
            assert(unique_names(old(es)@) ==> unique_names(es@)) by {
                if unique_names(old(es)@) {
                    assert forall|i: int, j: int| 0 <= i < j < es@.len() implies (#[trigger] es@[i]).0@
                        != (#[trigger] es@[j]).0@ by {
                        if j == old(es)@.len() {
                            assert(es@[i] == old(es)@[i]);
                        }
                    }
                }
            }
        },
    }
}

/// Whether a name comes before another in the order of strings: compared character
/// by character by their code points, a proper prefix coming first. This is the order
/// `String` has, since UTF-8 keeps the order of code points.
pub open spec fn str_lt(a: Seq<char>, b: Seq<char>) -> bool
    decreases a.len(),
{
    if a.len() == 0 {
        b.len() > 0
    } else if b.len() == 0 {
        false
    } else if (a[0] as u32) < (b[0] as u32) {
        true
    } else if a[0] == b[0] {
        str_lt(a.drop_first(), b.drop_first())
    } else {
        false
    }
}

/// No name comes before itself.
pub proof fn lemma_str_lt_irreflexive(a: Seq<char>)
    ensures
        !str_lt(a, a),
    decreases a.len(),
{
    if a.len() > 0 {
        lemma_str_lt_irreflexive(a.drop_first());
    }
}

/// The order of names is transitive.
pub proof fn lemma_str_lt_transitive(a: Seq<char>, b: Seq<char>, c: Seq<char>)
    requires
        str_lt(a, b),
        str_lt(b, c),
    ensures
        str_lt(a, c),
    decreases a.len(),
{
    if a.len() > 0 && b.len() > 0 && c.len() > 0 && a[0] == b[0] && b[0] == c[0] {
        lemma_str_lt_transitive(a.drop_first(), b.drop_first(), c.drop_first());
    }
}

/// Of two different names, one comes before the other.
pub proof fn lemma_str_lt_total(a: Seq<char>, b: Seq<char>)
    requires
        a != b,
    ensures
        str_lt(a, b) || str_lt(b, a),
    decreases a.len(),
{
    if a.len() == 0 && b.len() == 0 {
        assert(a =~= b);
    } else if a.len() > 0 && b.len() > 0 && a[0] == b[0] {
        if a.drop_first() == b.drop_first() {
            assert(a =~= seq![a[0]] + a.drop_first());
            assert(b =~= seq![b[0]] + b.drop_first());
        }
        lemma_str_lt_total(a.drop_first(), b.drop_first());
    } else if a.len() > 0 && b.len() > 0 {
        if (a[0] as u32) == (b[0] as u32) {
            vstd::utf8::char_u32_cast(a[0], a[0] as u32);
            vstd::utf8::char_u32_cast(b[0], b[0] as u32);
        }
    }
}

/// Whether the names of the entries come in strictly increasing order, so that each
/// name occurs once.
pub open spec fn names_sorted<P>(es: Seq<(String, P)>) -> bool {
    forall|i: int, j: int| 0 <= i < j < es.len() ==> str_lt((#[trigger] es[i]).0@, (#[trigger] es[j]).0@)
}

/// Whether one string comes before another in the order of strings.
pub fn str_less(a: &String, b: &String) -> (r: bool)
    ensures
        r == str_lt(a@, b@),
{
    let x = string_chars(a);
    let y = string_chars(b);
    let mut i: usize = 0;
    assert(x@.skip(0) =~= x@);
    assert(y@.skip(0) =~= y@);
    while i < x.len() && i < y.len()
        invariant
            i <= x@.len(),
            i <= y@.len(),
            str_lt(a@, b@) == str_lt(x@.skip(i as int), y@.skip(i as int)),
        decreases x.len() - i,
    {
        let ghost xs = x@.skip(i as int);
        let ghost ys = y@.skip(i as int);
        assert(xs[0] == x@[i as int]);
        assert(ys[0] == y@[i as int]);
        assert(xs.drop_first() =~= x@.skip(i + 1));
        assert(ys.drop_first() =~= y@.skip(i + 1));
        let cx = x[i] as u32;
        let cy = y[i] as u32;
        if cx != cy {
            return cx < cy;
        }
        proof {
            vstd::utf8::char_u32_cast(x@[i as int], cx);
            vstd::utf8::char_u32_cast(y@[i as int], cy);
        }
        assert(x@[i as int] == y@[i as int]);
        i = i + 1;
    }
    i == x.len() && i < y.len()
}

/// The characters of a string.
fn string_chars(s: &String) -> (r: Vec<char>)
    ensures
        r@ == s@,
{
    let mut chars: Vec<char> = Vec::new();
    for c in it: s.as_str().chars()
        invariant
            chars@ == it.history(),
    {
        chars.push(c);
    }
    proof {
        broadcast use vstd::string::axiom_spec_iter;
    }
    assert(chars@ =~= s@);
    chars
}

/// Inserting an entry for a name that occurs nowhere sets what that name gives.
pub proof fn lemma_lookup_insert<P>(es: Seq<(String, P)>, i: int, e: (String, P), k: Seq<char>)
    requires
        0 <= i <= es.len(),
        !has_key(es, e.0@),
    ensures
        lookup(es.insert(i, e), k) == if k == e.0@ {
            Some(e.1)
        } else {
            lookup(es, k)
        },
    decreases i,
{
    let t = es.insert(i, e);
    if i == 0 {
        assert(t[0] == e);
        assert(t.drop_first() =~= es);
    } else {
        assert(t[0] == es[0]);
        assert(t.drop_first() =~= es.drop_first().insert(i - 1, e));
        assert(!has_key(es.drop_first(), e.0@)) by {
            if has_key(es.drop_first(), e.0@) {
                let j = choose|j: int| 0 <= j < es.drop_first().len() && #[trigger] es.drop_first()[j].0@ == e.0@;
                assert(es[j + 1].0@ == e.0@);
            }
        }
        assert(es[0].0@ != e.0@);
        lemma_lookup_insert(es.drop_first(), i - 1, e, k);
    }
}

/// Sets what a name gives in entries kept in the order of their names: the entry
/// for the name is replaced, or an entry is added where the order puts it.
pub fn sorted_insert<P>(es: &mut Vec<(String, P)>, k: String, v: P)
    requires
        names_sorted(old(es)@),
    ensures
        names_sorted(final(es)@),
        forall|n: Seq<char>| #[trigger]
            lookup(final(es)@, n) == if n == k@ {
                Some(v)
            } else {
                lookup(old(es)@, n)
            },
{
    let ghost e = (k, v);
    let ghost o = es@;
    let mut i: usize = 0;
    let mut going = true;
    while going && i < es.len()
        invariant
            es@ == o,
            names_sorted(o),
            i <= o.len(),
            forall|j: int| 0 <= j < i ==> str_lt((#[trigger] o[j]).0@, k@),
            !going ==> i < o.len() && !str_lt(o[i as int].0@, k@),
        decreases o.len() - i, if going { 1int } else { 0int },
    {
        if str_less(&es[i].0, &k) {
            i = i + 1;
        } else {
            going = false;
        }
    }
    proof {
        lemma_str_lt_irreflexive(k@);
        assert forall|j: int| 0 <= j < i implies #[trigger] o[j].0@ != k@ by {}
    }
    if i < es.len() && es[i].0 == k {
        proof {
            assert forall|n: Seq<char>| #[trigger]
                lookup(o.update(i as int, e), n) == if n == k@ {
                    Some(v)
                } else {
                    lookup(o, n)
                } by {
                lemma_lookup_update(o, i as int, e, n);
            }
        }
        es.set(i, (k, v));
        assert(es@ =~= o.update(i as int, e));
    } else {
        proof {
            // every later name comes after `k`, so `k` occurs nowhere
            assert forall|j: int| i <= j < o.len() implies str_lt(k@, (#[trigger] o[j]).0@) by {
                lemma_str_lt_total(o[i as int].0@, k@);
                if j > i {
                    lemma_str_lt_transitive(k@, o[i as int].0@, o[j].0@);
                }
            }
            assert(!has_key(o, k@)) by {
                if has_key(o, k@) {
                    let j = choose|j: int| 0 <= j < o.len() && #[trigger] o[j].0@ == k@;
                    if j >= i {
                        lemma_str_lt_irreflexive(k@);
                    }
                }
            }
            assert forall|n: Seq<char>| #[trigger]
                lookup(o.insert(i as int, e), n) == if n == k@ {
                    Some(v)
                } else {
                    lookup(o, n)
                } by {
                lemma_lookup_insert(o, i as int, e, n);
            }
        }
        es.insert(i, (k, v));
        proof {
            let t = es@;
            assert(t =~= o.insert(i as int, e));
            assert forall|a: int, b: int| 0 <= a < b < t.len() implies str_lt(
                (#[trigger] t[a]).0@,
                (#[trigger] t[b]).0@,
            ) by {
                if a < i && b == i {
                } else if a < i && b > i {
                    assert(t[b] == o[b - 1]);
                } else if a == i {
                    assert(t[b] == o[b - 1]);
                } else if a > i {
                    assert(t[a] == o[a - 1]);
                    assert(t[b] == o[b - 1]);
                } else {
                }
            }
        }
    }
}

/// A parameter of a command: its type, and the value it takes when no argument is
/// given; a parameter without one is required.
#[derive(Debug)]
pub struct Parameter<I, B> {
    pub ty: Type,
    pub default: Option<Value<I, B>>,
}

impl<I, B> Parameter<I, B> {
    /// A required parameter.
    pub fn required(ty: Type) -> (r: Self)
        ensures
            r.ty == ty,
            r.default is None,
    {
        Parameter { ty, default: None }
    }

    /// An optional parameter with its default value.
    pub fn optional(ty: Type, default: Value<I, B>) -> (r: Self)
        ensures
            r.ty == ty,
            r.default == Some(default),
    {
        Parameter { ty, default: Some(default) }
    }
}

/// The signature of a command: its name, its named parameters and the types of its
/// positional parameters.
#[derive(Debug)]
pub struct Signature<I, B> {
    pub name: String,
    pub params: Vec<(String, Parameter<I, B>)>,
    pub positional: Vec<Type>,
}

impl<I, B> Signature<I, B> {
    /// A signature without parameters.
    pub fn new(name: String) -> (r: Self)
        ensures
            r.name == name,
            r.params@.len() == 0,
            r.positional@.len() == 0,
            unique_names(r.params@),
    {
        Signature { name, params: Vec::new(), positional: Vec::new() }
    }

    /// The signature with a named parameter set.
    pub fn insert(self, name: String, param: Parameter<I, B>) -> (r: Self)
        ensures
            r.name == self.name,
            r.positional == self.positional,
            forall|n: Seq<char>| #[trigger]
                lookup(r.params@, n) == if n == name@ {
                    Some(param)
                } else {
                    lookup(self.params@, n)
                },
            unique_names(self.params@) ==> unique_names(r.params@),
    {
        let mut s = self;
        entries_insert(&mut s.params, name, param);
        s
    }

    /// The signature with an optional parameter set.
    pub fn optional(self, name: String, ty: Type, default: Value<I, B>) -> (r: Self)
        ensures
            r.name == self.name,
            r.positional == self.positional,
            forall|n: Seq<char>| #[trigger]
                lookup(r.params@, n) == if n == name@ {
                    Some(Parameter { ty, default: Some(default) })
                } else {
                    lookup(self.params@, n)
                },
            unique_names(self.params@) ==> unique_names(r.params@),
    {
        self.insert(name, Parameter::optional(ty, default))
    }

    /// The signature with a required parameter set.
    pub fn required(self, name: String, ty: Type) -> (r: Self)
        ensures
            r.name == self.name,
            r.positional == self.positional,
            forall|n: Seq<char>| #[trigger]
                lookup(r.params@, n) == if n == name@ {
                    Some(Parameter::<I, B> { ty, default: None })
                } else {
                    lookup(self.params@, n)
                },
            unique_names(self.params@) ==> unique_names(r.params@),
    {
        self.insert(name, Parameter::required(ty))
    }

    /// The signature with one more positional parameter.
    pub fn positional(self, ty: Type) -> (r: Self)
        ensures
            r.name == self.name,
            r.params == self.params,
            r.positional@ == self.positional@.push(ty),
    {
        let mut s = self;
        s.positional.push(ty);
        s
    }

    /// The type of the named parameter, required or optional.
    pub fn param_type(&self, name: &String) -> (r: Option<Type>)
        ensures
            r == match lookup(self.params@, name@) {
                Some(p) => Some(p.ty),
                None => None,
            },
    {
        match entry_index(&self.params, name) {
            Some(i) => {
                proof {
                    lemma_lookup_index(self.params@, name@, i as int);
                }
                Some(self.params[i].1.ty)
            },
            None => {
                proof {
                    lemma_lookup_index(self.params@, name@, self.params@.len() as int);
                }
                None
            },
        }
    }

    /// The type of the positional parameter at `pos`.
    pub fn get_positional(&self, pos: usize) -> (r: Option<Type>)
        ensures
            r == if pos < self.positional@.len() {
                Some(self.positional@[pos as int])
            } else {
                None
            },
    {
        if pos < self.positional.len() {
            Some(self.positional[pos])
        } else {
            None
        }
    }
}

/// The outcome of checking a named argument.
pub open spec fn named_result<I, B>(
    params: Seq<(String, Parameter<I, B>)>,
    name: String,
    value: Value<I, B>,
    span: Span,
) -> Result<(), EngineError> {
    match lookup(params, name@) {
        None => Err(
            EngineError {
                span,
                msg: EngineErrorMessage::Argument(ArgumentError::UnknownNamed { name }),
            },
        ),
        Some(p) => if types_match(p.ty, value_type(value)) {
            Ok(())
        } else {
            Err(
                EngineError {
                    span,
                    msg: EngineErrorMessage::Argument(
                        ArgumentError::WrongType { got: value_type(value), expected: p.ty },
                    ),
                },
            )
        },
    }
}

/// The outcome of checking the positional argument at `pos`.
pub open spec fn positional_result<I, B>(
    positional: Seq<Type>,
    pos: nat,
    value: Value<I, B>,
    span: Span,
) -> Result<(), EngineError> {
    if pos < positional.len() {
        if types_match(positional[pos as int], value_type(value)) {
            Ok(())
        } else {
            Err(
                EngineError {
                    span,
                    msg: EngineErrorMessage::Argument(
                        ArgumentError::WrongType {
                            got: value_type(value),
                            expected: positional[pos as int],
                        },
                    ),
                },
            )
        }
    } else {
        Err(
            EngineError {
                span,
                msg: EngineErrorMessage::Argument(
                    ArgumentError::UnknownPositional { pos: pos as usize },
                ),
            },
        )
    }
}

/// Checks a named argument against a signature.
pub fn validate_named<I, B>(
    signature: &Signature<I, B>,
    name: &String,
    value: &Value<I, B>,
    span: Span,
) -> (r: Result<(), EngineError>)
    ensures
        r == named_result(signature.params@, *name, *value, span),
{
    match signature.param_type(name) {
        None => Err(EngineError::arg(span, ArgumentError::UnknownNamed { name: name.clone() })),
        Some(ty) => {
            let got = value.ty();
            if ty == got {
                Ok(())
            } else {
                Err(EngineError::arg(span, ArgumentError::WrongType { got, expected: ty }))
            }
        },
    }
}

/// Checks the positional argument at `pos` against a signature.
pub fn validate_positional<I, B>(
    signature: &Signature<I, B>,
    pos: usize,
    value: &Value<I, B>,
    span: Span,
) -> (r: Result<(), EngineError>)
    ensures
        r == positional_result(signature.positional@, pos as nat, *value, span),
{
    match signature.get_positional(pos) {
        None => Err(EngineError::arg(span, ArgumentError::UnknownPositional { pos })),
        Some(ty) => {
            let got = value.ty();
            if ty == got {
                Ok(())
            } else {
                Err(EngineError::arg(span, ArgumentError::WrongType { got, expected: ty }))
            }
        },
    }
}

/// An argument of a call: its name if it is named, its place and its value.
#[derive(Debug)]
pub struct Arg<I, B> {
    pub name: Option<String>,
    pub span: Span,
    pub value: Value<I, B>,
}

/// The arguments of a call that passed checking.
#[derive(Debug)]
pub struct Arguments<I, B> {
    pub named: Vec<(String, Value<I, B>)>,
    pub positional: Vec<Value<I, B>>,
}

impl<I, B> Arguments<I, B> {
    /// No arguments.
    pub fn new() -> (r: Self)
        ensures
            r.named@.len() == 0,
            r.positional@.len() == 0,
    {
        Arguments { named: Vec::new(), positional: Vec::new() }
    }

    /// The names of the named arguments, in order.
    pub fn names(&self) -> (r: Vec<String>)
        ensures
            r@.len() == self.named@.len(),
            forall|i: int| 0 <= i < r@.len() ==> #[trigger] r@[i] == self.named@[i].0,
    {
        let mut out: Vec<String> = Vec::new();
        let mut i: usize = 0;
        while i < self.named.len()
            invariant
                i <= self.named@.len(),
                out@.len() == i,
                forall|j: int| 0 <= j < i ==> #[trigger] out@[j] == self.named@[j].0,
            decreases self.named.len() - i,
        {
            out.push(self.named[i].0.clone());
            i = i + 1;
        }
        out
    }

    /// Adds a named argument.
    pub fn add_named(&mut self, name: String, value: Value<I, B>)
        ensures
            final(self).named@ == old(self).named@.push((name, value)),
            final(self).positional == old(self).positional,
    {
        self.named.push((name, value));
    }

    /// Adds a positional argument.
    pub fn add_positional(&mut self, value: Value<I, B>)
        ensures
            final(self).positional@ == old(self).positional@.push(value),
            final(self).named == old(self).named,
    {
        self.positional.push(value);
    }

    /// Whether there are no arguments.
    pub fn is_empty(&self) -> (r: bool)
        ensures
            r == (self.named@.len() == 0 && self.positional@.len() == 0),
    {
        self.named.len() == 0 && self.positional.len() == 0
    }

    /// Takes out the first named argument with the name, cast to `T`.
    pub fn remove_named<T: Cast<I, B>>(&mut self, name: &String) -> (r: T)
        requires
            has_key(old(self).named@, name@),
            T::castable(lookup(old(self).named@, name@)->0),
        ensures
            exists|i: int|
                0 <= i < old(self).named@.len() && old(self).named@[i].0@ == name@ && (forall|j: int|
                    0 <= j < i ==> #[trigger] old(self).named@[j].0@ != name@) && T::cast_of(
                    old(self).named@[i].1,
                    r,
                ) && final(self).named@ == old(self).named@.remove(i),
            final(self).positional == old(self).positional,
    {
        match entry_index(&self.named, name) {
            Some(i) => {
                proof {
                    lemma_lookup_index(self.named@, name@, i as int);
                }
                let (_, v) = self.named.remove(i);
                T::cast(v)
            },
            None => {
                proof {
                    assert(false);
                }
                T::cast(Value::Nothing)
            },
        }
    }

    /// Takes out the positional argument at `pos`, cast to `T`.
    pub fn remove_positonal<T: Cast<I, B>>(&mut self, pos: usize) -> (r: T)
        requires
            pos < old(self).positional@.len(),
            T::castable(old(self).positional@[pos as int]),
        ensures
            T::cast_of(old(self).positional@[pos as int], r),
            final(self).positional@ == old(self).positional@.remove(pos as int),
            final(self).named == old(self).named,
    {
        let v = self.positional.remove(pos);
        T::cast(v)
    }
}

/// The number of positional arguments.
pub open spec fn unnamed_count<I, B>(args: Seq<Arg<I, B>>) -> nat
    decreases args.len(),
{
    if args.len() == 0 {
        0
    } else {
        unnamed_count(args.drop_last()) + if args.last().name is None {
            1nat
        } else {
            0nat
        }
    }
}

/// The outcome of checking an argument; a positional one is checked at `pos`.
pub open spec fn check_arg<I, B>(
    params: Seq<(String, Parameter<I, B>)>,
    positional: Seq<Type>,
    a: Arg<I, B>,
    pos: nat,
) -> Result<(), EngineError> {
    match a.name {
        Some(n) => named_result(params, n, a.value, a.span),
        None => positional_result(positional, pos, a.value, a.span),
    }
}

/// The errors of the arguments, in their order.
pub open spec fn arg_errors<I, B>(
    params: Seq<(String, Parameter<I, B>)>,
    positional: Seq<Type>,
    args: Seq<Arg<I, B>>,
) -> Seq<EngineError>
    decreases args.len(),
{
    if args.len() == 0 {
        Seq::empty()
    } else {
        arg_errors(params, positional, args.drop_last()) + match check_arg(
            params,
            positional,
            args.last(),
            unnamed_count(args.drop_last()),
        ) {
            Err(e) => seq![e],
            Ok(_) => Seq::empty(),
        }
    }
}

/// The named arguments that passed checking, in their order.
pub open spec fn accepted_named<I, B>(
    params: Seq<(String, Parameter<I, B>)>,
    positional: Seq<Type>,
    args: Seq<Arg<I, B>>,
) -> Seq<(String, Value<I, B>)>
    decreases args.len(),
{
    if args.len() == 0 {
        Seq::empty()
    } else {
        let a = args.last();
        accepted_named(params, positional, args.drop_last()) + if a.name is Some && check_arg(
            params,
            positional,
            a,
            unnamed_count(args.drop_last()),
        ) is Ok {
            seq![(a.name->0, a.value)]
        } else {
            Seq::empty()
        }
    }
}

/// The positional arguments that passed checking, in their order.
pub open spec fn accepted_positional<I, B>(
    params: Seq<(String, Parameter<I, B>)>,
    positional: Seq<Type>,
    args: Seq<Arg<I, B>>,
) -> Seq<Value<I, B>>
    decreases args.len(),
{
    if args.len() == 0 {
        Seq::empty()
    } else {
        let a = args.last();
        accepted_positional(params, positional, args.drop_last()) + if a.name is None && check_arg(
            params,
            positional,
            a,
            unnamed_count(args.drop_last()),
        ) is Ok {
            seq![a.value]
        } else {
            Seq::empty()
        }
    }
}

/// One error for each required parameter that no accepted named argument names, in
/// the order of the parameters, at the place of the call.
pub open spec fn missing_errors<I, B>(
    params: Seq<(String, Parameter<I, B>)>,
    given: Seq<(String, Value<I, B>)>,
    span: Span,
) -> Seq<EngineError>
    decreases params.len(),
{
    if params.len() == 0 {
        Seq::empty()
    } else {
        let p = params.last();
        missing_errors(params.drop_last(), given, span) + if p.1.default is None && !has_key(
            given,
            p.0@,
        ) {
            seq![
                EngineError {
                    span,
                    msg: EngineErrorMessage::Argument(
                        ArgumentError::MissingRequired { name: p.0, ty: p.1.ty },
                    ),
                },
            ]
        } else {
            Seq::empty()
        }
    }
}

/// The defaults of the optional parameters that no accepted named argument names,
/// in the order of the parameters.
pub open spec fn default_entries<I, B>(
    params: Seq<(String, Parameter<I, B>)>,
    given: Seq<(String, Value<I, B>)>,
) -> Seq<(String, Value<I, B>)>
    decreases params.len(),
{
    if params.len() == 0 {
        Seq::empty()
    } else {
        let p = params.last();
        default_entries(params.drop_last(), given) + if p.1.default is Some && !has_key(
            given,
            p.0@,
        ) {
            seq![(p.0, p.1.default->0)]
        } else {
            Seq::empty()
        }
    }
}

/// All errors of a call: those of its arguments, then the missing required
/// parameters.
pub open spec fn call_errors<I, B>(sig: Signature<I, B>, args: Seq<Arg<I, B>>, span: Span) -> Seq<
    EngineError,
> {
    arg_errors(sig.params@, sig.positional@, args) + missing_errors(
        sig.params@,
        accepted_named(sig.params@, sig.positional@, args),
        span,
    )
}

/// Checks the arguments of a call against a signature. Where none is wrong, the
/// result holds the accepted arguments and the defaults of the optional parameters
/// not given; else it holds every error. The contract holds for every signature: the
/// builders keep parameter names unique (`unique_names`), and where a hand-built
/// signature repeats a name, an argument is checked against its first entry while
/// each entry is checked for being missing and gives its default.
pub fn validate<I, B>(signature: Signature<I, B>, args: Vec<Arg<I, B>>, span: Span) -> (r: Result<
    Arguments<I, B>,
    Vec<EngineError>,
>)
    ensures
        match r {
            Ok(a) => call_errors(signature, args@, span).len() == 0 && a.named@ == accepted_named(
                signature.params@,
                signature.positional@,
                args@,
            ) + default_entries(
                signature.params@,
                accepted_named(signature.params@, signature.positional@, args@),
            ) && a.positional@ == accepted_positional(
                signature.params@,
                signature.positional@,
                args@,
            ),
            Err(e) => call_errors(signature, args@, span).len() > 0 && e@ == call_errors(
                signature,
                args@,
                span,
            ),
        },
{
    let ghost all = args@;
    let n_args = args.len();
    let n_params = signature.params.len();
    let ghost ps = signature.params@;
    let ghost qs = signature.positional@;
    let mut rest = args;
    let mut errors: Vec<EngineError> = Vec::new();
    let mut arguments: Arguments<I, B> = Arguments::new();
    let mut pos: usize = 0;
    let mut i: usize = 0;
    assert(all.take(0) =~= Seq::<Arg<I, B>>::empty());
    assert(rest@ =~= all.skip(0));
    while rest.len() > 0
        invariant
            i <= all.len(),
            all.len() == n_args,
            rest@ == all.skip(i as int),
            ps == signature.params@,
            qs == signature.positional@,
            pos == unnamed_count(all.take(i as int)),
            pos <= i,
            errors@ == arg_errors(ps, qs, all.take(i as int)),
            arguments.named@ == accepted_named(ps, qs, all.take(i as int)),
            arguments.positional@ == accepted_positional(ps, qs, all.take(i as int)),
        decreases rest.len(),
    {
        let a = rest.remove(0);
        proof {
            assert(all.take(i + 1).drop_last() =~= all.take(i as int));
            assert(all.take(i + 1).last() == all[i as int]);
            assert(all.skip(i as int)[0] == all[i as int]);
            assert(all.skip(i as int).remove(0) =~= all.skip(i + 1));
        }
        let Arg { name, span: aspan, value } = a;
        match name {
            Some(n) => {
                match validate_named(&signature, &n, &value, aspan) {
                    Err(e) => {
                        errors.push(e);
                        assert(arguments.named@ =~= accepted_named(ps, qs, all.take(i + 1)));
                    },
                    Ok(()) => {
                        arguments.add_named(n, value);
                        assert(errors@ =~= arg_errors(ps, qs, all.take(i + 1)));
                    },
                }
                assert(arguments.positional@ =~= accepted_positional(ps, qs, all.take(i + 1)));
            },
            None => {
                match validate_positional(&signature, pos, &value, aspan) {
                    Err(e) => {
                        errors.push(e);
                        assert(arguments.positional@ =~= accepted_positional(
                            ps,
                            qs,
                            all.take(i + 1),
                        ));
                    },
                    Ok(()) => {
                        arguments.add_positional(value);
                        assert(errors@ =~= arg_errors(ps, qs, all.take(i + 1)));
                    },
                }
                assert(arguments.named@ =~= accepted_named(ps, qs, all.take(i + 1)));
                pos = pos + 1;
            },
        }
        i = i + 1;
    }
    assert(all.take(i as int) =~= all);
    let ghost given = arguments.named@;
    let mut j: usize = 0;
    assert(ps.take(0) =~= Seq::<(String, Parameter<I, B>)>::empty());
    let ghost base = errors@;
    while j < signature.params.len()
        invariant
            j <= ps.len(),
            ps == signature.params@,
            given == arguments.named@,
            errors@ == base + missing_errors(ps.take(j as int), given, span),
        decreases signature.params.len() - j,
    {
        proof {
            assert(ps.take(j + 1).drop_last() =~= ps.take(j as int));
            assert(ps.take(j + 1).last() == ps[j as int]);
        }
        let entry = &signature.params[j];
        if entry.1.default.is_none() {
            if entry_index(&arguments.named, &entry.0).is_none() {
                errors.push(
                    EngineError::arg(
                        span,
                        ArgumentError::MissingRequired { name: entry.0.clone(), ty: entry.1.ty },
                    ),
                );
                assert(errors@ =~= base + missing_errors(ps.take(j + 1), given, span));
            } else {
                assert(errors@ =~= base + missing_errors(ps.take(j + 1), given, span));
            }
        } else {
            assert(errors@ =~= base + missing_errors(ps.take(j + 1), given, span));
        }
        j = j + 1;
    }
    assert(ps.take(ps.len() as int) =~= ps);
    if errors.len() > 0 {
        return Err(errors);
    }
    let mut params = signature.params;
    let mut k: usize = 0;
    let mut defaults: Vec<(String, Value<I, B>)> = Vec::new();
    assert(params@ =~= ps.skip(0));
    while params.len() > 0
        invariant
            k <= ps.len(),
            ps.len() == n_params,
            params@ == ps.skip(k as int),
            given == arguments.named@,
            defaults@ == default_entries(ps.take(k as int), given),
        decreases params.len(),
    {
        let (name, p) = params.remove(0);
        proof {
            assert(ps.take(k + 1).drop_last() =~= ps.take(k as int));
            assert(ps.take(k + 1).last() == ps[k as int]);
            assert(ps.skip(k as int)[0] == ps[k as int]);
            assert(ps.skip(k as int).remove(0) =~= ps.skip(k + 1));
        }
        let absent = entry_index(&arguments.named, &name).is_none();
        match p.default {
            Some(d) => {
                if absent {
                    defaults.push((name, d));
                }
            },
            None => {},
        }
        assert(defaults@ =~= default_entries(ps.take(k + 1), given));
        k = k + 1;
    }
    assert(ps.take(k as int) =~= ps);
    arguments.named.append(&mut defaults);
    Ok(arguments)
}

/// A call whose arguments are not checked yet.
#[derive(Debug)]
pub struct UnverifiedCall<I, B> {
    pub args: Vec<Arg<I, B>>,
    pub span: Span,
}

/// A call whose arguments passed checking.
#[derive(Debug)]
pub struct Call<I, B> {
    pub args: Arguments<I, B>,
    pub span: Span,
}

/// A command of the renderer: its signature and what it does with checked
/// arguments. Dispatching a call checks its arguments first.
pub trait Command<I, B> {
    /// The signature of the command, as a value of the model.
    spec fn spec_signature(&self) -> Signature<I, B>;

    /// The signature of the command.
    fn signature(&self) -> (r: Signature<I, B>)
        ensures
            r == self.spec_signature(),
    ;

    /// Runs the command on checked arguments.
    fn run(&self, call: Call<I, B>) -> Result<Value<I, B>, EngineError>;

    /// Checks the arguments of a call against the signature and runs the command on
    /// them; the errors of the arguments are returned where there are some, and the
    /// error of the run, alone, where it fails.
    fn dispatch(&self, call: UnverifiedCall<I, B>) -> (r: Result<Value<I, B>, Vec<EngineError>>)
        default_ensures
            call_errors(self.spec_signature(), call.args@, call.span).len() > 0 ==> (r matches Err(
                e,
            ) && e@ == call_errors(self.spec_signature(), call.args@, call.span)),
            r is Ok ==> call_errors(self.spec_signature(), call.args@, call.span).len() == 0,
            call_errors(self.spec_signature(), call.args@, call.span).len() == 0 ==> (r matches Err(
                e,
            ) ==> e@.len() == 1),
    {
        let UnverifiedCall { args, span } = call;
        match validate(self.signature(), args, span) {
            Ok(args) => match self.run(Call { args, span }) {
                Ok(v) => Ok(v),
                Err(e) => {
                    let mut errs: Vec<EngineError> = Vec::new();
                    errs.push(e);
                    Err(errs)
                },
            },
            Err(errs) => Err(errs),
        }
    }
}

} // verus!
