use catlog_theories::{CategoryError, DiscreteTabTheory, Symbol, TabMorType, TabObType};

#[test]
fn category_with_links_by_hand() {
    let mut th: DiscreteTabTheory = Default::default();
    let x = Symbol::intern("object");
    assert!(th.add_ob_type(x) == Ok(TabObType::Basic(x)));
    let arrows = th.tabulator(th.hom_type(TabObType::Basic(x)));
    let link = th.add_mor_type(Symbol::intern("link"), arrows, TabObType::Basic(x));
    assert!(link == Ok(TabMorType::Basic(Symbol::intern("link"))));
    assert_eq!(th.basic_mor_types().into_iter().count(), 1);
    assert_eq!(th.basic_ob_types().into_iter().count(), 1);
}

#[test]
fn derived_types_are_canonical() {
    let th = DiscreteTabTheory::new();
    let x = Symbol::intern("object");
    let y = Symbol::intern("other");
    assert!(th.hom_type(TabObType::Basic(x)) == th.hom_type(TabObType::Basic(x)));
    assert!(th.hom_type(TabObType::Basic(x)) != th.hom_type(TabObType::Basic(y)));
    let m = th.hom_type(TabObType::Basic(x));
    assert!(th.tabulator(m.clone()) == th.tabulator(m));
    assert!(th.tabulator(TabMorType::Basic(x)) != th.tabulator(TabMorType::Basic(y)));
    assert!(th.tabulator(TabMorType::Basic(x)) != th.tabulator(th.hom_type(TabObType::Basic(x))));
}

#[test]
fn tabulator_of_hom_type_is_not_basic() {
    let th = DiscreteTabTheory::new();
    let x = Symbol::intern("object");
    let t = th.tabulator(th.hom_type(TabObType::Basic(x)));
    assert!(t != TabObType::Basic(x));
    assert!(t != TabObType::Basic(Symbol::intern("other")));
    let nested = th.tabulator(th.hom_type(t.clone()));
    assert!(nested != TabObType::Basic(x));
    assert!(nested != t);
}

#[test]
fn hom_type_runs_from_its_object_type_to_itself() {
    let mut th = DiscreteTabTheory::new();
    let x = Symbol::intern("object");
    assert!(th.add_ob_type(x).is_ok());
    let h = th.hom_type(TabObType::Basic(x));
    assert!(th.src(&h) == TabObType::Basic(x));
    assert!(th.tgt(&h) == TabObType::Basic(x));
    let g = th.add_mor_type(Symbol::intern("g"), TabObType::Basic(x), th.tabulator(h)).ok().unwrap();
    assert!(th.src(&g) == TabObType::Basic(x));
    assert!(th.tgt(&g) == th.tabulator(th.hom_type(TabObType::Basic(x))));
}

#[test]
fn morphism_type_errors() {
    let mut th = DiscreteTabTheory::new();
    let x = Symbol::intern("object");
    let z = Symbol::intern("missing");
    let f = Symbol::intern("f");
    assert!(th.add_ob_type(x).is_ok());
    assert!(th.add_ob_type(x).err() == Some(CategoryError::DuplicateGenerator));
    assert!(th.add_mor_type(x, TabObType::Basic(x), TabObType::Basic(x)).err()
        == Some(CategoryError::DuplicateGenerator));
    assert!(th.add_mor_type(f, TabObType::Basic(z), TabObType::Basic(x)).err()
        == Some(CategoryError::UnknownReference));
    assert!(th.add_mor_type(f, TabObType::Basic(x), TabObType::Basic(z)).err()
        == Some(CategoryError::UnknownReference));
    let unregistered = th.tabulator(TabMorType::Basic(z));
    assert!(th.add_mor_type(f, unregistered, TabObType::Basic(x)).err()
        == Some(CategoryError::TypeMismatch));
    let of_missing = th.tabulator(th.hom_type(TabObType::Basic(z)));
    assert!(th.add_mor_type(f, TabObType::Basic(x), of_missing).err()
        == Some(CategoryError::TypeMismatch));
    assert!(th.add_mor_type(f, TabObType::Basic(x), TabObType::Basic(x)).is_ok());
    assert!(th.add_ob_type(f).err() == Some(CategoryError::DuplicateGenerator));
    let registered = th.tabulator(TabMorType::Basic(f));
    assert!(th.add_mor_type(Symbol::intern("k"), registered, TabObType::Basic(x)).is_ok());
    assert_eq!(th.basic_mor_types().len(), 2);
    assert_eq!(th.basic_ob_types().len(), 1);
}
