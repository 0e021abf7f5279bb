use vstd::prelude::*;

use crate::component::{is_normal_component, is_separator, SinglePathComponent};

verus! {

/// The text of path `base` once `part` is appended to it: a part that starts
/// at the root replaces the path; otherwise a separator is put between the
/// two unless `base` is empty or already ends with one.
pub open spec fn pushed(base: Seq<char>, part: Seq<char>) -> Seq<char> {
    if part.len() > 0 && is_separator(part[0]) {
        part
    } else if base.len() > 0 && !is_separator(base.last()) {
        base + seq!['/'] + part
    } else {
        base + part
    }
}

/// The text of the path made by appending each of `parts` in turn to the
/// empty path.
pub open spec fn joined(parts: Seq<Seq<char>>) -> Seq<char>
    decreases parts.len(),
{
    if parts.len() == 0 {
        seq![]
    } else {
        pushed(joined(parts.drop_last()), parts.last())
    }
}

/// The pieces of `s` between its separators, in order, empty ones included:
/// a text with `n` separators has `n + 1` pieces.
pub open spec fn pieces(s: Seq<char>) -> Seq<Seq<char>>
    decreases s.len(),
{
    if s.len() == 0 {
        seq![seq![]]
    } else {
        let rest = pieces(s.drop_last());
        if is_separator(s.last()) {
            rest.push(seq![])
        } else {
            rest.update(rest.len() - 1, rest.last().push(s.last()))
        }
    }
}

/// Every text has at least one piece.
proof fn lemma_pieces_nonempty(s: Seq<char>)
    ensures
        pieces(s).len() > 0,
    decreases s.len(),
{
    if s.len() > 0 {
        lemma_pieces_nonempty(s.drop_last());
    }
}

/// Text without separators extends the last piece.
pub proof fn lemma_pieces_extend(a: Seq<char>, b: Seq<char>)
    requires
        forall|i: int| 0 <= i < b.len() ==> !is_separator(#[trigger] b[i]),
    ensures
        pieces(a + b) == pieces(a).update(pieces(a).len() - 1, pieces(a).last() + b),
        pieces(a).len() > 0,
    decreases b.len(),
{
    reveal_with_fuel(pieces, 2);
    lemma_pieces_nonempty(a);
    if b.len() == 0 {
        assert(a + b =~= a);
        assert(pieces(a).last() + b =~= pieces(a).last());
        assert(pieces(a).update(pieces(a).len() - 1, pieces(a).last()) =~= pieces(a));
    } else {
        let b0 = b.drop_last();
        lemma_pieces_extend(a, b0);
        assert((a + b).drop_last() =~= a + b0);
        assert((pieces(a).last() + b0).push(b.last()) =~= pieces(a).last() + b);
        assert(pieces(a + b) =~= pieces(a).update(pieces(a).len() - 1, pieces(a).last() + b));
    }
}

/// Joining plain components gives a text that is not empty and does not end
/// with a separator.
proof fn lemma_joined_open_end(parts: Seq<Seq<char>>)
    requires
        parts.len() > 0,
        forall|i: int| 0 <= i < parts.len() ==> is_normal_component(#[trigger] parts[i]),
    ensures
        joined(parts).len() > 0,
        !is_separator(joined(parts).last()),
    decreases parts.len(),
{
    let init = parts.drop_last();
    let last = parts.last();
    assert(is_normal_component(parts[parts.len() - 1]));
    assert(!is_separator(last[last.len() - 1]));
    if init.len() > 0 {
        assert forall|i: int| 0 <= i < init.len() implies is_normal_component(#[trigger] init[i]) by {
            assert(init[i] == parts[i]);
        }
        lemma_joined_open_end(init);
    }
}

/// Split at its separators, a path joined from plain components gives back
/// exactly those components, in order.
pub proof fn lemma_pieces_of_joined(parts: Seq<Seq<char>>)
    requires
        parts.len() > 0,
        forall|i: int| 0 <= i < parts.len() ==> is_normal_component(#[trigger] parts[i]),
    ensures
        pieces(joined(parts)) == parts,
    decreases parts.len(),
{
    let init = parts.drop_last();
    let last = parts.last();
    assert(is_normal_component(parts[parts.len() - 1]));
    assert(!is_separator(last[0]));
    if init.len() == 0 {
        assert(joined(init) =~= seq![]);
        assert(joined(parts) =~= seq![] + last);
        lemma_pieces_extend(seq![], last);
        assert(pieces(seq![]) =~= seq![seq![]]);
        assert(pieces(joined(parts)) =~= parts);
    } else {
        assert forall|i: int| 0 <= i < init.len() implies is_normal_component(#[trigger] init[i]) by {
            assert(init[i] == parts[i]);
        }
        lemma_pieces_of_joined(init);
        lemma_joined_open_end(init);
        let j = joined(init);
        let js = j + seq!['/'];
        assert(joined(parts) == js + last);
        assert(js.drop_last() =~= j);
        assert(pieces(js) == pieces(j).push(seq![]));
        lemma_pieces_extend(js, last);
        assert(pieces(joined(parts)) =~= parts);
    }
}

/// Relies on `String::push_str`: appends `t` to the end of `s`.
#[verifier::external_body]
fn append_str(s: &mut String, t: &str)
    ensures
        final(s)@ == old(s)@ + t@,
{
    s.push_str(t);
}

/// A path being assembled part by part, with POSIX conventions.
#[derive(Clone, Debug, PartialEq, Eq, Hash)]
pub struct PathBuilder {
    text: String,
}

impl View for PathBuilder {
    type V = Seq<char>;

    closed spec fn view(&self) -> Seq<char> {
        self.text@
    }
}

impl PathBuilder {
    /// The empty path.
    pub fn new() -> (r: Self)
        ensures
            r@ == Seq::<char>::empty(),
    {
        PathBuilder { text: String::new() }
    }

    /// Appends `part` without any check: a part that starts at the root
    /// replaces the whole path.
    pub fn push(&mut self, part: &str)
        ensures
            final(self)@ == pushed(old(self)@, part@),
    {
        if part.unicode_len() > 0 && part.get_char(0) == '/' {
            self.text = part.to_owned();
        } else {
            let len = self.text.as_str().unicode_len();
            if len > 0 && self.text.as_str().get_char(len - 1) != '/' {
                let sep = "/";
                proof {
                    reveal_strlit("/");
                }
                append_str(&mut self.text, sep);
            }
            append_str(&mut self.text, part);
        }
        assert(self.text@ =~= pushed(old(self)@, part@));
    }

    /// Appends a single plain component.
    pub fn append_component(&mut self, component: SinglePathComponent)
        ensures
            final(self)@ == pushed(old(self)@, component@),
    {
        self.push(component.as_str());
    }

    /// The path's text.
    pub fn as_str(&self) -> (r: &str)
        ensures
            r@ == self@,
    {
        self.text.as_str()
    }

    /// The path's text, taken out of the builder.
    pub fn into_string(self) -> (r: String)
        ensures
            r@ == self@,
    {
        self.text
    }
}

/// Appending one validated component to a path.
pub trait PushPathComponent: View<V = Seq<char>> {
    fn push_component(&mut self, component: SinglePathComponent)
        ensures
            final(self)@ == pushed(old(self)@, component@),
    ;
}

impl PushPathComponent for PathBuilder {
    fn push_component(&mut self, component: SinglePathComponent) {
        self.append_component(component);
    }
}

} // verus!
