use typedown::node::Span;
use typedown::render::builtin::{Dict, List, MapBuiltin};
use typedown::render::command::{validate, Arg, Arguments, Command, Call, Signature, UnverifiedCall};
use typedown::render::error::{ArgumentError, EngineError, EngineErrorMessage};
use typedown::render::object::{Object, ObjectKind};
use typedown::render::output::Output;
use typedown::render::ty::Type;
use typedown::render::value::{Cast, Value};

type V = Value<(), ()>;
type O = Object<u8, char>;

fn sp(a: usize, b: usize) -> Span {
    Span { start: a, end: b }
}

fn named(name: &str, value: V, at: usize) -> Arg<(), ()> {
    Arg { name: Some(name.to_string()), span: sp(at, at + 1), value }
}

fn positional(value: V, at: usize) -> Arg<(), ()> {
    Arg { name: None, span: sp(at, at + 1), value }
}

#[test]
fn any_matches_every_type() {
    assert!(Type::Any == Type::Int);
    assert!(Type::Str == Type::Any);
    assert!(Type::Int == Type::Int);
    assert!(Type::Int != Type::Str);
    assert!(Type::Mapping != Type::List);
}

#[test]
fn matching_is_not_transitive() {
    assert!(Type::Int == Type::Any);
    assert!(Type::Any == Type::Str);
    assert!(Type::Int != Type::Str);
}

#[test]
fn type_and_kind_names() {
    assert_eq!(Type::Mapping.to_string(), "Map");
    assert_eq!(Type::Inline.to_string(), "Inline");
    assert_eq!(ObjectKind::Element.to_string(), "Element");
    assert_eq!(ObjectKind::Mapping.to_string(), "Map");
}

#[test]
fn value_types() {
    assert!(matches!(V::Int(3).ty(), Type::Int));
    assert!(matches!(V::Str("x".to_string()).ty(), Type::Str));
    assert!(matches!(V::List(vec![]).ty(), Type::List));
    assert!(matches!(V::Nothing.ty(), Type::Any));
    assert!(matches!(V::Float(1.5f64.to_bits()).ty(), Type::Float));
}

#[test]
fn value_projections() {
    assert_eq!(V::Int(7).into_int(), Some(7));
    assert_eq!(V::Bool(true).into_int(), None);
    assert_eq!(V::Bool(true).into_bool(), Some(true));
    assert_eq!(V::Str("s".to_string()).into_string(), Some("s".to_string()));
    assert_eq!(V::Float(2.0f64.to_bits()).into_float().map(f64::from_bits), Some(2.0));
    assert!(V::Nothing.into_list().is_none());
}

fn signature() -> Signature<(), ()> {
    Signature::new("image".to_string())
        .required("src".to_string(), Type::Str)
        .optional("width".to_string(), Type::Int, V::Int(100))
        .positional(Type::Str)
}

#[test]
fn validate_accepts_and_fills_defaults() {
    let args = vec![named("src", V::Str("a.png".to_string()), 0), positional(V::Str("alt".to_string()), 2)];
    let a = validate(signature(), args, sp(0, 10)).ok().expect("valid");
    assert_eq!(a.named.len(), 2);
    assert_eq!(a.named[0].0, "src");
    assert_eq!(a.named[1].0, "width");
    assert_eq!(a.named[1].1.clone_int(), Some(100));
    assert_eq!(a.positional.len(), 1);
}

trait IntOf {
    fn clone_int(&self) -> Option<i64>;
}

impl IntOf for V {
    fn clone_int(&self) -> Option<i64> {
        match self {
            Value::Int(i) => Some(*i),
            _ => None,
        }
    }
}

fn arg_error(e: &EngineError) -> &ArgumentError {
    match &e.msg {
        EngineErrorMessage::Argument(a) => a,
        _ => panic!("an argument error"),
    }
}

#[test]
fn validate_reports_every_error() {
    let args = vec![
        named("width", V::Str("wide".to_string()), 0),
        named("height", V::Int(3), 2),
        positional(V::Str("a".to_string()), 4),
        positional(V::Str("b".to_string()), 6),
    ];
    let errs = validate(signature(), args, sp(0, 9)).err().expect("invalid");
    assert_eq!(errs.len(), 4);
    assert!(matches!(arg_error(&errs[0]), ArgumentError::WrongType { got: Type::Str, expected: Type::Int }));
    assert!(matches!(arg_error(&errs[1]), ArgumentError::UnknownNamed { name } if name == "height"));
    assert!(matches!(arg_error(&errs[2]), ArgumentError::UnknownPositional { pos: 1 }));
    assert_eq!(errs[2].span, sp(6, 7));
    assert!(matches!(arg_error(&errs[3]), ArgumentError::MissingRequired { name, ty: Type::Str } if name == "src"));
    assert_eq!(errs[3].span, sp(0, 9));
}

#[test]
fn signature_insert_replaces() {
    let s: Signature<(), ()> = Signature::new("f".to_string())
        .required("a".to_string(), Type::Int)
        .required("a".to_string(), Type::Str);
    assert_eq!(s.params.len(), 1);
    assert!(matches!(s.param_type(&"a".to_string()), Some(Type::Str)));
    assert!(s.param_type(&"b".to_string()).is_none());
}

#[test]
fn list_builtin_collects_positional_arguments() {
    let v = List.dispatch(vec![positional(V::Int(1), 0), positional(V::Int(2), 2)], sp(0, 3)).ok().unwrap();
    match v {
        Value::List(items) => assert_eq!(items.len(), 2),
        _ => panic!("a list"),
    }
    let e = List.dispatch(vec![named("k", V::Int(1), 0)], sp(0, 3)).err().unwrap();
    assert!(matches!(arg_error(&e[0]), ArgumentError::UnknownNamed { name } if name == "k"));
}

#[test]
fn map_builtins_keep_the_last_value_of_a_name() {
    for m in 0..2 {
        let args = vec![named("a", V::Int(1), 0), named("b", V::Int(2), 2), named("a", V::Int(3), 4)];
        let v = if m == 0 { Dict.dispatch(args, sp(0, 5)) } else { MapBuiltin.dispatch(args, sp(0, 5)) };
        match v.ok().unwrap() {
            Value::Mapping(entries) => {
                assert_eq!(entries.len(), 2);
                let a = entries.iter().find(|(k, _)| k == "a").unwrap();
                assert_eq!(a.1.clone_int(), Some(3));
            },
            _ => panic!("a map"),
        }
    }
    let e = Dict.dispatch(vec![positional(V::Int(1), 0)], sp(0, 1)).err().unwrap();
    assert!(matches!(arg_error(&e[0]), ArgumentError::UnknownPositional { pos: 0 }));
}

#[test]
fn map_builtins_keep_names_in_order() {
    let args = vec![
        named("zeta", V::Int(1), 0),
        named("b", V::Int(2), 1),
        named("ab", V::Int(3), 2),
        named("a", V::Int(4), 3),
        named("b", V::Int(5), 4),
        named("é", V::Int(6), 5),
    ];
    match Dict.dispatch(args, sp(0, 6)).ok().unwrap() {
        Value::Mapping(entries) => {
            let names: Vec<&str> = entries.iter().map(|(k, _)| k.as_str()).collect();
            assert_eq!(names, vec!["a", "ab", "b", "zeta", "é"]);
            assert_eq!(entries[2].1.clone_int(), Some(5));
        },
        _ => panic!("a map"),
    }
}

#[test]
fn error_messages() {
    let m = EngineErrorMessage::WrongArgType { key: "x".to_string(), expected: Type::Int };
    assert_eq!(m.to_string(), "Wrong Type for argument x. Expected Int");
    assert_eq!(EngineErrorMessage::FunctionNotFound("f".to_string()).to_string(), "Function 'f' not found");
    assert_eq!(EngineErrorMessage::SymbolNotFound("s".to_string()).to_string(), "Symbol 's' not found");
    assert_eq!(EngineErrorMessage::MissingArgument("a".to_string()).to_string(), "Missing Argument a");
    let e = EngineError::new(sp(1, 2), EngineErrorMessage::Message("m".to_string()));
    assert_eq!(e.msg.to_string(), "m");
}

struct Echo;

impl Command<(), ()> for Echo {
    fn spec_signature(&self) -> Signature<(), ()> {
        self.signature()
    }

    fn signature(&self) -> Signature<(), ()> {
        Signature::new("echo".to_string()).positional(Type::Int)
    }

    fn run(&self, call: Call<(), ()>) -> Result<V, EngineError> {
        let mut args = call.args;
        Ok(args.remove_positonal(0))
    }
}

#[test]
fn dispatch_checks_before_running() {
    let ok = Echo.dispatch(UnverifiedCall { args: vec![positional(V::Int(5), 0)], span: sp(0, 2) });
    assert_eq!(ok.ok().unwrap().clone_int(), Some(5));
    let bad = Echo.dispatch(UnverifiedCall { args: vec![positional(V::Bool(true), 0)], span: sp(0, 2) });
    assert_eq!(bad.err().unwrap().len(), 1);
}

#[test]
fn outputs() {
    assert_eq!(Output::File("out.html".to_string()), Output::File("out.html".to_string()));
    assert!(Output::Stdout != Output::File("a".to_string()));
}

#[test]
fn object_kinds_and_projections() {
    assert_eq!(O::Bool(true).kind(), ObjectKind::Bool);
    assert_eq!(O::Block(3).kind(), ObjectKind::Block);
    assert_eq!(O::Element('e').into_element(), Some('e'));
    assert_eq!(O::Str("s".to_string()).into_string(), Some("s".to_string()));
    assert!(O::List(vec![]).into_map().is_none());
    assert_eq!(O::Mapping(vec![]).kind(), ObjectKind::Mapping);
}

#[test]
fn casting_values() {
    assert_eq!(<i64 as Cast<(), ()>>::cast(V::Int(7)), 7);
    assert!(<bool as Cast<(), ()>>::cast(V::Bool(true)));
    assert_eq!(<String as Cast<(), ()>>::cast(V::Str("s".to_string())), "s");
    let l: Vec<i64> = Cast::<(), ()>::cast(V::List(vec![V::Int(1), V::Int(2), V::Int(3)]));
    assert_eq!(l, vec![1, 2, 3]);
    let nested: Vec<Vec<bool>> = Cast::<(), ()>::cast(V::List(vec![V::List(vec![V::Bool(false)]), V::List(vec![])]));
    assert_eq!(nested, vec![vec![false], vec![]]);
    assert_eq!(<V as Cast<(), ()>>::cast(V::Int(4)).clone_int(), Some(4));
}

#[test]
fn removing_arguments_casts_them() {
    let mut a: Arguments<(), ()> = Arguments::new();
    a.named.push(("n".to_string(), V::Int(1)));
    a.named.push(("n".to_string(), V::Int(2)));
    a.named.push(("b".to_string(), V::Bool(true)));
    a.positional.push(V::Str("p".to_string()));
    let first: i64 = a.remove_named(&"n".to_string());
    assert_eq!(first, 1);
    let second: i64 = a.remove_named(&"n".to_string());
    assert_eq!(second, 2);
    let b: bool = a.remove_named(&"b".to_string());
    assert!(b);
    assert!(a.named.is_empty());
    let p: String = a.remove_positonal(0);
    assert_eq!(p, "p");
    assert!(a.positional.is_empty());
}
