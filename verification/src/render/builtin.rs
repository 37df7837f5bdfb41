//! The builtin commands that build lists and maps from the arguments of a call.
use crate::node::Span;
use crate::render::command::{lookup, names_sorted, sorted_insert, Arg};
use crate::render::error::{ArgumentError, EngineError, EngineErrorMessage};
use crate::render::value::Value;
use vstd::prelude::*;

verus! {

/// The command that makes a list of its positional arguments.
pub struct List;

/// The command that makes a map of its named arguments.
pub struct Dict;

/// The command that makes a map of its named arguments.
pub struct MapBuiltin;

/// The errors of a list: one for each named argument.
pub open spec fn list_errors<I, B>(args: Seq<Arg<I, B>>) -> Seq<EngineError>
    decreases args.len(),
{
    if args.len() == 0 {
        Seq::empty()
    } else {
        let a = args.last();
        list_errors(args.drop_last()) + match a.name {
            Some(name) => seq![
                EngineError {
                    span: a.span,
                    msg: EngineErrorMessage::Argument(ArgumentError::UnknownNamed { name }),
                },
            ],
            None => Seq::empty(),
        }
    }
}

/// The items of a list: the values of the positional arguments.
pub open spec fn list_items<I, B>(args: Seq<Arg<I, B>>) -> Seq<Value<I, B>>
    decreases args.len(),
{
    if args.len() == 0 {
        Seq::empty()
    } else {
        let a = args.last();
        list_items(args.drop_last()) + if a.name is None {
            seq![a.value]
        } else {
            Seq::empty()
        }
    }
}

/// The errors of a map: one for each positional argument.
pub open spec fn map_errors<I, B>(args: Seq<Arg<I, B>>) -> Seq<EngineError>
    decreases args.len(),
{
    if args.len() == 0 {
        Seq::empty()
    } else {
        let a = args.last();
        map_errors(args.drop_last()) + if a.name is None {
            seq![
                EngineError {
                    span: a.span,
                    msg: EngineErrorMessage::Argument(ArgumentError::UnknownPositional { pos: 0 }),
                },
            ]
        } else {
            Seq::empty()
        }
    }
}

/// The value of the last named argument with the name.
pub open spec fn last_named<I, B>(args: Seq<Arg<I, B>>, n: Seq<char>) -> Option<Value<I, B>>
    decreases args.len(),
{
    if args.len() == 0 {
        None
    } else {
        let a = args.last();
        if a.name is Some && a.name->0@ == n {
            Some(a.value)
        } else {
            last_named(args.drop_last(), n)
        }
    }
}

/// Whether a value is the list of the items.
pub open spec fn is_list_of<I, B>(v: Value<I, B>, items: Seq<Value<I, B>>) -> bool {
    match v {
        Value::List(l) => l@ == items,
        _ => false,
    }
}

/// Whether a value is a map whose entries come in the order of their names, each name
/// once, and in which each name gives the value of the last named argument with that
/// name.
pub open spec fn is_map_of<I, B>(v: Value<I, B>, args: Seq<Arg<I, B>>) -> bool {
    match v {
        Value::Mapping(m) => names_sorted(m@) && forall|n: Seq<char>|
            #[trigger] lookup(m@, n) == last_named(args, n),
        _ => false,
    }
}

/// Makes a list of the positional arguments; named arguments are errors.
fn list_of<I, B>(args: Vec<Arg<I, B>>) -> (r: Result<Value<I, B>, Vec<EngineError>>)
    ensures
        match r {
            Ok(v) => list_errors(args@).len() == 0 && is_list_of(v, list_items(args@)),
            Err(e) => list_errors(args@).len() > 0 && e@ == list_errors(args@),
        },
{
    let ghost all = args@;
    let n = args.len();
    let mut rest = args;
    let mut items: Vec<Value<I, B>> = Vec::new();
    let mut errors: Vec<EngineError> = Vec::new();
    let mut i: usize = 0;
    assert(all.take(0) =~= Seq::<Arg<I, B>>::empty());
    assert(rest@ =~= all.skip(0));
    while rest.len() > 0
        invariant
            i <= all.len(),
            all.len() == n,
            rest@ == all.skip(i as int),
            items@ == list_items(all.take(i as int)),
            errors@ == list_errors(all.take(i as int)),
        decreases rest.len(),
    {
        let a = rest.remove(0);
        proof {
            assert(all.take(i + 1).drop_last() =~= all.take(i as int));
            assert(all.take(i + 1).last() == all[i as int]);
            assert(all.skip(i as int)[0] == all[i as int]);
            assert(all.skip(i as int).remove(0) =~= all.skip(i + 1));
        }
        let Arg { name, span, value } = a;
        match name {
            Some(name) => {
                errors.push(EngineError::arg(span, ArgumentError::UnknownNamed { name }));
                assert(items@ =~= list_items(all.take(i + 1)));
            },
            None => {
                items.push(value);
                assert(errors@ =~= list_errors(all.take(i + 1)));
            },
        }
        i = i + 1;
    }
    assert(all.take(i as int) =~= all);
    if errors.len() == 0 {
        Ok(Value::List(items))
    } else {
        Err(errors)
    }
}

/// Makes a map of the named arguments, the last one with a name giving its value;
/// positional arguments are errors.
fn map_of<I, B>(args: Vec<Arg<I, B>>) -> (r: Result<Value<I, B>, Vec<EngineError>>)
    ensures
        match r {
            Ok(v) => map_errors(args@).len() == 0 && is_map_of(v, args@),
            Err(e) => map_errors(args@).len() > 0 && e@ == map_errors(args@),
        },
{
    let ghost all = args@;
    let n = args.len();
    let mut rest = args;
    let mut entries: Vec<(String, Value<I, B>)> = Vec::new();
    let mut errors: Vec<EngineError> = Vec::new();
    let mut i: usize = 0;
    assert(all.take(0) =~= Seq::<Arg<I, B>>::empty());
    assert(rest@ =~= all.skip(0));
    while rest.len() > 0
        invariant
            i <= all.len(),
            all.len() == n,
            rest@ == all.skip(i as int),
            forall|k: Seq<char>| #[trigger] lookup(entries@, k) == last_named(all.take(i as int), k),
            names_sorted(entries@),
            errors@ == map_errors(all.take(i as int)),
        decreases rest.len(),
    {
        let a = rest.remove(0);
        proof {
            assert(all.take(i + 1).drop_last() =~= all.take(i as int));
            assert(all.take(i + 1).last() == all[i as int]);
            assert(all.skip(i as int)[0] == all[i as int]);
            assert(all.skip(i as int).remove(0) =~= all.skip(i + 1));
        }
        let Arg { name, span, value } = a;
        match name {
            Some(name) => {
                sorted_insert(&mut entries, name, value);
                assert(errors@ =~= map_errors(all.take(i + 1)));
                assert forall|k: Seq<char>| #[trigger]
                    lookup(entries@, k) == last_named(all.take(i + 1), k) by {}
            },
            None => {
                errors.push(
                    EngineError::arg(span, ArgumentError::UnknownPositional { pos: 0 }),
                );
                assert forall|k: Seq<char>| #[trigger]
                    lookup(entries@, k) == last_named(all.take(i + 1), k) by {}
            },
        }
        i = i + 1;
    }
    assert(all.take(i as int) =~= all);
    if errors.len() == 0 {
        Ok(Value::Mapping(entries))
    } else {
        Err(errors)
    }
}

impl List {
    /// Makes a list of the positional arguments of a call; named arguments are
    /// errors.
    pub fn dispatch<I, B>(&self, args: Vec<Arg<I, B>>, span: Span) -> (r: Result<
        Value<I, B>,
        Vec<EngineError>,
    >)
        ensures
            match r {
                Ok(v) => list_errors(args@).len() == 0 && is_list_of(v, list_items(args@)),
                Err(e) => list_errors(args@).len() > 0 && e@ == list_errors(args@),
            },
    {
        list_of(args)
    }
}

impl Dict {
    /// Makes a map of the named arguments of a call; positional arguments are errors.
    pub fn dispatch<I, B>(&self, args: Vec<Arg<I, B>>, span: Span) -> (r: Result<
        Value<I, B>,
        Vec<EngineError>,
    >)
        ensures
            match r {
                Ok(v) => map_errors(args@).len() == 0 && is_map_of(v, args@),
                Err(e) => map_errors(args@).len() > 0 && e@ == map_errors(args@),
            },
    {
        map_of(args)
    }
}

impl MapBuiltin {
    /// Makes a map of the named arguments of a call; positional arguments are errors.
    pub fn dispatch<I, B>(&self, args: Vec<Arg<I, B>>, span: Span) -> (r: Result<
        Value<I, B>,
        Vec<EngineError>,
    >)
        ensures
            match r {
                Ok(v) => map_errors(args@).len() == 0 && is_map_of(v, args@),
                Err(e) => map_errors(args@).len() > 0 && e@ == map_errors(args@),
            },
    {
        map_of(args)
    }
}

} // verus!
