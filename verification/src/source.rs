//! A source document: its path, its name and its text, also held as a rope.
use ropey::Rope;
use vstd::prelude::*;
use vstd::utf8::encode_utf8;

verus! {

/// The rope type of `ropey`, carried as it is.
#[verifier::external_type_specification]
#[verifier::external_body]
pub struct ExRope(Rope);

/// The characters a rope holds.
pub uninterp spec fn rope_chars(r: Rope) -> Seq<char>;

/// `Rope::from_str`: the rope holds exactly the characters of the text.
#[verifier::external_body]
fn rope_from_str(text: &str) -> (r: Rope)
    ensures
        rope_chars(r) == text@,
{
    Rope::from_str(text)
}

/// `Rope::clone`: the copy holds the same characters.
#[verifier::external_body]
fn rope_clone(r: &Rope) -> (c: Rope)
    ensures
        rope_chars(c) == rope_chars(*r),
{
    r.clone()
}

/// The parent of a path, as `std::path::Path::parent` gives it: `None` for a root or
/// an empty path.
pub uninterp spec fn path_parent(p: Seq<char>) -> Option<Seq<char>>;

/// Calls `std::path::Path::parent` on the path. What it gives is named `path_parent`,
/// a function of the path alone; a `&str` path is valid UTF-8, and so is its parent.
#[verifier::external_body]
fn std_path_parent(p: &str) -> (r: Option<String>)
    ensures
        r is None <==> path_parent(p@) is None,
        r matches Some(q) ==> path_parent(p@) == Some(q@),
{
    match std::path::Path::new(p).parent() {
        Some(q) => Some(q.to_string_lossy().into_owned()),
        None => None,
    }
}

/// A source document with its path, its name and its text.
pub struct Source {
    path: String,
    name: String,
    source: String,
    chars: Vec<char>,
    rope: Rope,
}

impl Source {
    /// The text and the rope hold the same characters, and the length of the text in
    /// bytes fits in a `usize`.
    #[verifier::type_invariant]
    spec fn wf(self) -> bool {
        &&& self.chars@ == self.source@
        &&& rope_chars(self.rope) == self.source@
        &&& encode_utf8(self.source@).len() <= usize::MAX
    }

    /// The characters of the text.
    pub closed spec fn text(self) -> Seq<char> {
        self.source@
    }

    /// The path of the source.
    pub closed spec fn path_view(self) -> Seq<char> {
        self.path@
    }

    /// The name of the source.
    pub closed spec fn name_view(self) -> Seq<char> {
        self.name@
    }

    /// A source from its path, name and text.
    pub fn new(path: &str, name: &str, source: &str) -> (r: Self)
        requires
            encode_utf8(source@).len() <= usize::MAX,
        ensures
            r.path_view() == path@,
            r.name_view() == name@,
            r.text() == source@,
    {
        let mut chars: Vec<char> = Vec::new();
        for c in it: source.chars()
            invariant
                chars@ == it.history(),
        {
            chars.push(c);
        }
        proof {
            broadcast use vstd::string::axiom_spec_iter;
        }
        assert(chars@ =~= source@);
        Source {
            path: path.to_owned(),
            name: name.to_owned(),
            source: source.to_owned(),
            chars,
            rope: rope_from_str(source),
        }
    }

    /// The name of the source.
    pub fn name(&self) -> (r: &str)
        ensures
            r@ == self.name_view(),
    {
        self.name.as_str()
    }

    /// The path of the source.
    pub fn path(&self) -> (r: &str)
        ensures
            r@ == self.path_view(),
    {
        self.path.as_str()
    }

    /// The text of the source.
    pub fn as_str(&self) -> (r: &str)
        ensures
            r@ == self.text(),
    {
        self.source.as_str()
    }

    /// The characters of the text, one by one.
    pub fn chars(&self) -> (r: &Vec<char>)
        ensures
            r@ == self.text(),
            encode_utf8(r@).len() <= usize::MAX,
    {
        proof {
            use_type_invariant(self);
        }
        &self.chars
    }

    /// The text as a rope.
    pub fn as_rope(&self) -> (r: Rope)
        ensures
            rope_chars(r) == self.text(),
    {
        proof {
            use_type_invariant(self);
        }
        rope_clone(&self.rope)
    }

    /// The length of the text in bytes of its UTF-8 encoding, the unit of every span.
    pub fn len(&self) -> (r: usize)
        ensures
            r == encode_utf8(self.text()).len(),
    {
        proof {
            use_type_invariant(self);
        }
        self.source.as_str().len()
    }

    /// The empty span at the end of the text.
    pub fn end_of_input(&self) -> (r: crate::node::Span)
        ensures
            r.start == encode_utf8(self.text()).len(),
            r.end == encode_utf8(self.text()).len(),
    {
        let n = self.len();
        crate::node::Span { start: n, end: n }
    }

    /// The directory of the source: the parent of its path.
    pub fn work_path(&self) -> (r: String)
        requires
            path_parent(self.path_view()) is Some,
        ensures
            path_parent(self.path_view()) == Some(r@),
    {
        match std_path_parent(self.path.as_str()) {
            Some(q) => q,
            None => {
                assert(false);
                String::new()
            },
        }
    }

    /// The directory of the source, where its path has a parent.
    pub fn try_work_path(&self) -> (r: Option<String>)
        ensures
            r is None <==> path_parent(self.path_view()) is None,
            r matches Some(q) ==> path_parent(self.path_view()) == Some(q@),
    {
        if std_path_parent(self.path.as_str()).is_some() {
            Some(self.work_path())
        } else {
            None
        }
    }
}

} // verus!
