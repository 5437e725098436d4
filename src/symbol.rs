//! Interned names: cheap, copyable handles whose equality is the equality of
//! the texts they were made from.

use ustr::Ustr;
use vstd::prelude::*;

verus! {

#[verifier::external_type_specification]
#[verifier::external_body]
pub struct ExUstr(Ustr);

/// Relies on `ustr::ustr`: it returns the handle that the process-wide string
/// cache holds for `text`, adding the text to the cache if it is new.
#[verifier::external_body]
fn intern_handle(text: &str) -> (r: Ustr) {
    ustr::ustr(text)
}

/// A name, interned once in the process-wide string cache.
///
/// Its view is the text it was made from. The handle is only ever produced by
/// interning that text, so two symbols have equal handles exactly when their
/// texts are equal.
#[derive(Clone, Copy)]
pub struct Symbol {
    handle: Ustr,
    text: Ghost<Seq<char>>,
}

impl View for Symbol {
    type V = Seq<char>;

    closed spec fn view(&self) -> Seq<char> {
        self.text@
    }
}

/// Relies on the derived `PartialEq` of `Ustr`, which compares the cached
/// pointers: the cache keeps one entry per distinct text, and a symbol's
/// handle always comes from interning its own text.
#[verifier::external_body]
fn same_handle(a: &Symbol, b: &Symbol) -> (r: bool)
    ensures
        r == (a@ == b@),
{
    a.handle == b.handle
}

impl Symbol {
    /// Interns `text`.
    pub fn intern(text: &str) -> (r: Symbol)
        ensures
            r@ == text@,
    {
        Symbol { handle: intern_handle(text), text: Ghost(text@) }
    }
}

impl PartialEq for Symbol {
    fn eq(&self, other: &Symbol) -> (r: bool) {
        same_handle(self, other)
    }
}

impl vstd::std_specs::cmp::PartialEqSpecImpl for Symbol {
    open spec fn obeys_eq_spec() -> bool {
        true
    }

    open spec fn eq_spec(&self, other: &Symbol) -> bool {
        self@ == other@
    }
}

impl Eq for Symbol {
}

} // verus!
