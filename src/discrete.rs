//! The discrete double theory of a finitely presented category: its basic
//! object and morphism types are the category's generators.

use crate::fin_category::{CategoryModel, FinCategory, FinHom, HomTerm};
use crate::symbol::Symbol;
use vstd::prelude::*;

verus! {

/// A discrete double theory, holding the category it is made from.
pub struct DiscreteDblTheory {
    category: FinCategory,
}

impl View for DiscreteDblTheory {
    type V = CategoryModel;

    closed spec fn view(&self) -> CategoryModel {
        self.category@
    }
}

impl DiscreteDblTheory {
    pub closed spec fn wf(&self) -> bool {
        self.category.wf()
    }

    /// The discrete theory on `category`, which it takes over as it is.
    pub fn from(category: FinCategory) -> (r: DiscreteDblTheory)
        requires
            category.wf(),
        ensures
            r.wf(),
            r@ == category@,
    {
        DiscreteDblTheory { category }
    }

    /// The underlying category.
    pub fn category(&self) -> (r: &FinCategory)
        requires
            self.wf(),
        ensures
            r.wf(),
            r@ == self@,
    {
        &self.category
    }

    /// The basic object types: the object generators, in declaration order.
    pub fn basic_ob_types(&self) -> (r: Vec<Symbol>)
        requires
            self.wf(),
        ensures
            r@.len() == self@.obs.len(),
            self@.obs.no_duplicates(),
            forall|i: int| 0 <= i < r@.len() ==> (#[trigger] r@[i])@ == self@.obs[i],
    {
        self.category.basic_ob_generators()
    }

    /// The basic morphism types: the morphism generators, in declaration
    /// order.
    pub fn basic_mor_types(&self) -> (r: Vec<FinHom>)
        requires
            self.wf(),
        ensures
            r@.len() == self@.homs.len(),
            forall|i: int| 0 <= i < r@.len() ==> (#[trigger] r@[i])@ == HomTerm::Generator(self@.homs[i]),
    {
        let homs = self.category.basic_hom_generators();
        let mut r: Vec<FinHom> = Vec::new();
        let mut i: usize = 0;
        while i < homs.len()
            invariant
                self.wf(),
                i <= homs@.len(),
                homs@.len() == self@.homs.len(),
                forall|j: int| 0 <= j < homs@.len() ==> (#[trigger] homs@[j]).name@ == self@.homs[j],
                r@.len() == i,
                forall|j: int| 0 <= j < i ==> (#[trigger] r@[j])@ == HomTerm::Generator(self@.homs[j]),
            decreases homs@.len() - i,
        {
            r.push(FinHom::Generator(homs[i].name));
            i = i + 1;
        }
        r
    }
}

} // verus!
