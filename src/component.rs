use vstd::prelude::*;

verus! {

/// The separator between the components of a path.
pub open spec fn is_separator(c: char) -> bool {
    c == '/'
}

/// `s` names exactly one plain component: it is not empty, it is neither the
/// current directory `.` nor the parent directory `..`, and it holds no
/// separator (so it is neither the root nor several components).
pub open spec fn is_normal_component(s: Seq<char>) -> bool {
    &&& s.len() > 0
    &&& s != seq!['.']
    &&& s != seq!['.', '.']
    &&& forall|i: int| 0 <= i < s.len() ==> !is_separator(#[trigger] s[i])
}

/// The text that `sanitize_filename_reader_friendly::sanitize` makes of `s`.
pub uninterp spec fn sanitized(s: Seq<char>) -> Seq<char>;

/// Relies on `sanitize_filename_reader_friendly::sanitize`: its result depends
/// on the text alone, always replaces `/`, and trims `.` from the start of
/// every line, so its first character is never `.`.
#[verifier::external_body]
fn sanitize_text(s: &str) -> (r: String)
    ensures
        r@ == sanitized(s@),
        forall|i: int| 0 <= i < r@.len() ==> !is_separator(#[trigger] r@[i]),
        r@.len() > 0 ==> r@[0] != '.',
{
    sanitize_filename_reader_friendly::sanitize(s)
}

/// A path of exactly one plain component, such as a file or directory name.
///
/// It holds no separator, is not empty and is neither `.` nor `..`, so
/// appending it to a directory can never leave that directory.
#[derive(Debug, PartialEq, PartialOrd, Eq, Ord, Hash)]
pub struct SinglePathComponent {
    path: String,
}

impl Clone for SinglePathComponent {
    fn clone(&self) -> (r: Self)
        ensures
            r@ == self@,
    {
        proof {
            use_type_invariant(self);
        }
        SinglePathComponent { path: self.path.clone() }
    }
}

impl View for SinglePathComponent {
    type V = Seq<char>;

    closed spec fn view(&self) -> Seq<char> {
        self.path@
    }
}

impl SinglePathComponent {
    #[verifier::type_invariant]
    closed spec fn inv(self) -> bool {
        is_normal_component(self.path@)
    }

    /// Whether `s` names exactly one plain component.
    pub fn is_valid(s: &str) -> (r: bool)
        ensures
            r == is_normal_component(s@),
    {
        // How many characters were read, counting no further than three.
        let mut seen: u8 = 0;
        let mut all_dots = true;
        let mut has_separator = false;
        for c in it: s.chars()
            invariant
                it.seq() == s@,
                seen as int == if it.index() < 3 { it.index() as int } else { 3 },
                all_dots <==> (forall|i: int| 0 <= i < it.index() ==> s@[i] == '.'),
                has_separator <==> (exists|i: int| 0 <= i < it.index() && is_separator(s@[i])),
        {
            if c == '/' {
                has_separator = true;
            }
            if c != '.' {
                all_dots = false;
            }
            if seen < 3 {
                seen = seen + 1;
            }
        }
        proof {
            if all_dots && s@.len() == 1 {
                assert(s@ =~= seq!['.']);
            }
            if all_dots && s@.len() == 2 {
                assert(s@ =~= seq!['.', '.']);
            }
            if s@ == seq!['.'] || s@ == seq!['.', '.'] {
                assert(forall|i: int| 0 <= i < s@.len() ==> s@[i] == '.');
            }
        }
        !has_separator && seen > 0 && !(all_dots && seen <= 2)
    }

    /// Wraps `component` if it names exactly one plain component.
    pub fn new(component: &str) -> (r: Option<Self>)
        ensures
            r is Some <==> is_normal_component(component@),
            r matches Some(c) ==> c@ == component@,
    {
        if Self::is_valid(component) {
            Some(SinglePathComponent { path: component.to_owned() })
        } else {
            None
        }
    }

    /// Turns any text into a component by sanitising it.
    ///
    /// The sanitised text holds no separator and never starts with `.`, so
    /// it is a valid component whenever it is not empty; it is empty for
    /// inputs such as the empty text, `.` or `..`, which callers must rule
    /// out (see [`SinglePathComponent::try_with_sanitise`]).
    pub fn with_sanitise(component: &str) -> (r: Self)
        requires
            sanitized(component@).len() > 0,
        ensures
            r@ == sanitized(component@),
    {
        let text = sanitize_text(component);
        assert(text@[0] != seq!['.'][0]);
        assert(text@[0] != seq!['.', '.'][0]);
        SinglePathComponent { path: text }
    }

    /// Sanitises `component` and wraps the result, or gives `None` where the
    /// sanitised text is empty.
    pub fn try_with_sanitise(component: &str) -> (r: Option<Self>)
        ensures
            r is Some <==> sanitized(component@).len() > 0,
            r matches Some(c) ==> c@ == sanitized(component@),
    {
        let text = sanitize_text(component);
        if text.as_str().is_empty() {
            None
        } else {
            Some(Self::with_sanitise(component))
        }
    }

    /// The component's text, which names exactly one plain component:
    /// validating it again gives back an equal component.
    pub fn as_str(&self) -> (r: &str)
        ensures
            r@ == self@,
            is_normal_component(r@),
    {
        proof {
            use_type_invariant(self);
        }
        self.path.as_str()
    }
}

} // verus!
