//! A small library of named double theories, each built by declarations.

use crate::discrete::DiscreteDblTheory;
use crate::fin_category::{CategoryModel, FinCategory, FinHom, HomTerm};
use crate::symbol::Symbol;
use crate::tabulator::{hom_type_of, tabulator_of, DiscreteTabTheory, ObTypeTerm, TabModel, TabObType};
use vstd::prelude::*;

verus! {

/// The theory of categories, aka the trivial double theory: one object
/// type and no morphism type. As a double category, this is the terminal
/// double category.
pub fn th_category() -> (r: DiscreteDblTheory)
    ensures
        r.wf(),
        r@ == CategoryModel::empty().with_ob("object"@),
{
    let mut cat = FinCategory::new();
    let _ = cat.add_ob_generator(Symbol::intern("object"));
    DiscreteDblTheory::from(cat)
}

/// The theory of database schemas with attributes: entities, attribute
/// types, and attributes from the one to the other. As a double category,
/// this is the "walking proarrow".
pub fn th_schema() -> (r: DiscreteDblTheory)
    ensures
        r.wf(),
        r@ == CategoryModel::empty().with_ob("entity"@).with_ob("attr_type"@).with_hom(
            "attr"@,
            "entity"@,
            "attr_type"@,
        ),
{
    let mut cat = FinCategory::new();
    let (x, y, p) = (Symbol::intern("entity"), Symbol::intern("attr_type"), Symbol::intern("attr"));
    proof {
        reveal_strlit("entity");
        reveal_strlit("attr_type");
        reveal_strlit("attr");
    }
    let _ = cat.add_ob_generator(x);
    assert(!cat@.obs.contains(y@)) by {
        assert(cat@.obs[0] == x@);
        assert(x@.len() == 6 && y@.len() == 9);
    }
    let _ = cat.add_ob_generator(y);
    assert(!cat@.has_name(p@)) by {
        assert(cat@.obs[0] == x@ && cat@.obs[1] == y@);
        assert(x@.len() == 6 && y@.len() == 9 && p@.len() == 4);
    }
    assert(cat@.obs[0] == x@ && cat@.obs[1] == y@);
    let _ = cat.add_hom_generator(p, x, y);
    DiscreteDblTheory::from(cat)
}

/// The theory of signed categories: one object type and a morphism type
/// `negative` that composed with itself is the identity. A signed category
/// is a category sliced over the group of signs.
pub fn th_signed_category() -> (r: DiscreteDblTheory)
    ensures
        r.wf(),
        r@ == CategoryModel::empty().with_ob("object"@).with_hom(
            "negative"@,
            "object"@,
            "object"@,
        ).with_rule("negative"@, "negative"@, HomTerm::Id("object"@)),
{
    let mut sgn = FinCategory::new();
    let (x, n) = (Symbol::intern("object"), Symbol::intern("negative"));
    proof {
        reveal_strlit("object");
        reveal_strlit("negative");
    }
    let _ = sgn.add_ob_generator(x);
    assert(!sgn@.has_name(n@)) by {
        assert(sgn@.obs[0] == x@);
        assert(x@.len() == 6 && n@.len() == 8);
    }
    assert(sgn@.obs[0] == x@);
    let _ = sgn.add_hom_generator(n, x, x);
    assert(sgn@.homs[0] == n@);
    let _ = sgn.set_composite(n, n, FinHom::Id(x));
    DiscreteDblTheory::from(sgn)
}

/// The theory of categories with links: one object type and a morphism type
/// `link` from it to the tabulator of its hom type. A category with links is
/// a category `C` together with a profunctor from `C` to `Arr(C)`, the arrow
/// category of `C`.
pub fn th_category_links() -> (r: DiscreteTabTheory)
    ensures
        r.wf(),
        r@ == TabModel::empty().with_ob("object"@).with_mor(
            "link"@,
            ObTypeTerm::Basic("object"@),
            tabulator_of(hom_type_of(ObTypeTerm::Basic("object"@))),
        ),
{
    let mut th = DiscreteTabTheory::new();
    let (x, link) = (Symbol::intern("object"), Symbol::intern("link"));
    proof {
        reveal_strlit("object");
        reveal_strlit("link");
    }
    let _ = th.add_ob_type(x);
    assert(!th@.has_name(link@)) by {
        assert(th@.obs[0] == x@);
        assert(x@.len() == 6 && link@.len() == 4);
    }
    assert(th@.obs[0] == x@);
    let arrows = th.tabulator(th.hom_type(TabObType::Basic(x)));
    let _ = th.add_mor_type(link, TabObType::Basic(x), arrows);
    th
}

} // verus!
