//! What the builtin commands and the checking of arguments do with the order of
//! the arguments of a call.
use crate::render::builtin::list_items;
use crate::render::command::{accepted_named, accepted_positional, arg_errors, call_errors, Arg, Parameter, Signature};
use crate::render::value::Value;
use crate::render::ty::Type;
use vstd::prelude::*;

verus! {

/// The positional values of a sequence of arguments that is one argument long are
/// its value, if the argument is positional, and nothing if it is named.
pub proof fn lemma_list_items_single<I, B>(a: Arg<I, B>)
    ensures
        list_items(seq![a]) == if a.name is None {
            seq![a.value]
        } else {
            Seq::<Value<I, B>>::empty()
        },
{
    assert(seq![a].drop_last() =~= Seq::<Arg<I, B>>::empty());
    assert(seq![a].last() == a);
    assert(list_items(Seq::<Arg<I, B>>::empty()) =~= Seq::<Value<I, B>>::empty());
    assert(Seq::<Value<I, B>>::empty() + seq![a.value] =~= seq![a.value]);
    assert(Seq::<Value<I, B>>::empty() + Seq::<Value<I, B>>::empty() =~= Seq::<Value<I, B>>::empty());
}

/// The positional values of arguments given one after the other are those of the
/// first ones followed by those of the later ones: a list keeps the order in which
/// its items were given.
pub proof fn lemma_list_items_concat<I, B>(a: Seq<Arg<I, B>>, b: Seq<Arg<I, B>>)
    ensures
        list_items(a + b) == list_items(a) + list_items(b),
    decreases b.len(),
{
    if b.len() == 0 {
        assert(a + b =~= a);
        assert(list_items(a) + Seq::<Value<I, B>>::empty() =~= list_items(a));
    } else {
        lemma_list_items_concat(a, b.drop_last());
        assert((a + b).drop_last() =~= a + b.drop_last());
        assert((a + b).last() == b.last());
        let t = if b.last().name is None {
            seq![b.last().value]
        } else {
            Seq::<Value<I, B>>::empty()
        };
        assert(list_items(a) + list_items(b.drop_last()) + t =~= list_items(a) + (list_items(
            b.drop_last(),
        ) + t));
    }
}

/// Where no argument is wrong, the positional arguments that checking accepts are
/// the values of all positional arguments, in the order they were given.
pub proof fn lemma_accepted_positional_in_order<I, B>(
    params: Seq<(String, Parameter<I, B>)>,
    positional: Seq<Type>,
    args: Seq<Arg<I, B>>,
)
    requires
        arg_errors(params, positional, args).len() == 0,
    ensures
        accepted_positional(params, positional, args) == list_items(args),
    decreases args.len(),
{
    if args.len() > 0 {
        let rest = args.drop_last();
        assert(arg_errors(params, positional, rest).len() == 0);
        lemma_accepted_positional_in_order(params, positional, rest);
    }
}

/// A call that checks without error hands on its positional arguments, and its
/// named arguments with their names, in the order they were given.
pub proof fn lemma_valid_call_keeps_argument_order<I, B>(
    sig: Signature<I, B>,
    args: Seq<Arg<I, B>>,
    span: crate::node::Span,
)
    requires
        call_errors(sig, args, span).len() == 0,
    ensures
        accepted_positional(sig.params@, sig.positional@, args) == list_items(args),
        accepted_named(sig.params@, sig.positional@, args) == named_args(args),
{
    lemma_accepted_positional_in_order(sig.params@, sig.positional@, args);
    lemma_accepted_named_in_order(sig.params@, sig.positional@, args);
}

/// The names and values of the named arguments, in the order they were given.
pub open spec fn named_args<I, B>(args: Seq<Arg<I, B>>) -> Seq<(String, Value<I, B>)>
    decreases args.len(),
{
    if args.len() == 0 {
        Seq::empty()
    } else {
        named_args(args.drop_last()) + match args.last().name {
            Some(n) => seq![(n, args.last().value)],
            None => Seq::empty(),
        }
    }
}

/// The named arguments of arguments given one after the other are those of the
/// first ones followed by those of the later ones.
pub proof fn lemma_named_args_concat<I, B>(a: Seq<Arg<I, B>>, b: Seq<Arg<I, B>>)
    ensures
        named_args(a + b) == named_args(a) + named_args(b),
    decreases b.len(),
{
    if b.len() == 0 {
        assert(a + b =~= a);
        assert(named_args(a) + Seq::<(String, Value<I, B>)>::empty() =~= named_args(a));
    } else {
        lemma_named_args_concat(a, b.drop_last());
        assert((a + b).drop_last() =~= a + b.drop_last());
        assert((a + b).last() == b.last());
        let t = match b.last().name {
            Some(n) => seq![(n, b.last().value)],
            None => Seq::<(String, Value<I, B>)>::empty(),
        };
        assert(named_args(a) + named_args(b.drop_last()) + t =~= named_args(a) + (named_args(
            b.drop_last(),
        ) + t));
    }
}

/// Where no argument is wrong, the named arguments that checking accepts are all
/// the named arguments, with their names and values, in the order they were given.
pub proof fn lemma_accepted_named_in_order<I, B>(
    params: Seq<(String, Parameter<I, B>)>,
    positional: Seq<Type>,
    args: Seq<Arg<I, B>>,
)
    requires
        arg_errors(params, positional, args).len() == 0,
    ensures
        accepted_named(params, positional, args) == named_args(args),
    decreases args.len(),
{
    if args.len() > 0 {
        let rest = args.drop_last();
        assert(arg_errors(params, positional, rest).len() == 0);
        lemma_accepted_named_in_order(params, positional, rest);
    }
}

} // verus!
