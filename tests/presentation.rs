use catlog_theories::{CategoryError, Composite, DiscreteDblTheory, FinCategory, FinHom, Symbol};

#[test]
fn single_object_presentation() {
    let mut cat = FinCategory::new();
    assert!(cat.add_ob_generator(Symbol::intern("object")).is_ok());
    let th = DiscreteDblTheory::from(cat);
    assert_eq!(th.basic_ob_types().into_iter().count(), 1);
    assert_eq!(th.basic_mor_types().into_iter().count(), 0);
}

#[test]
fn schema_presentation_by_hand() {
    let mut cat: FinCategory = Default::default();
    let (x, y, p) = (Symbol::intern("entity"), Symbol::intern("attr_type"), Symbol::intern("attr"));
    assert!(cat.add_ob_generator(x).is_ok());
    assert!(cat.add_ob_generator(y).is_ok());
    let h = cat.add_hom_generator(p, x, y).ok().unwrap();
    assert!(h.name == p && h.dom == x && h.cod == y);
    let th = DiscreteDblTheory::from(cat);
    assert_eq!(th.basic_ob_types().into_iter().count(), 2);
    assert_eq!(th.basic_mor_types().into_iter().count(), 1);
    assert!(th.category().dom(&FinHom::Generator(p)) == x);
    assert!(th.category().cod(&FinHom::Generator(p)) == y);
}

#[test]
fn signed_category_rules_by_hand() {
    let mut cat = FinCategory::new();
    let (x, n) = (Symbol::intern("object"), Symbol::intern("negative"));
    assert!(cat.add_ob_generator(x).is_ok());
    assert!(cat.add_hom_generator(n, x, x).is_ok());
    assert!(cat.set_composite(n, n, FinHom::Id(x)).is_ok());
    let neg = FinHom::Generator(n);
    assert!(cat.compose(neg, neg) == Composite::Reduced(FinHom::Id(x)));
    assert!(cat.set_composite(n, n, FinHom::Generator(n)) == Err(CategoryError::InconsistentRule));
    assert!(cat.compose(neg, neg) == Composite::Reduced(FinHom::Id(x)));
}

#[test]
fn object_types_come_back_in_declaration_order() {
    let mut cat = FinCategory::new();
    let names = ["a", "b", "c", "d"];
    let mut returned = Vec::new();
    for name in names {
        returned.push(cat.add_ob_generator(Symbol::intern(name)).ok().unwrap());
    }
    let th = DiscreteDblTheory::from(cat);
    let obs = th.basic_ob_types();
    assert_eq!(obs.len(), 4);
    for i in 0..4 {
        assert!(obs[i] == returned[i]);
        assert!(obs[i] == Symbol::intern(names[i]));
        for j in 0..4 {
            assert_eq!(obs[i] == obs[j], i == j);
        }
    }
}

#[test]
fn redeclaring_a_rule_is_idempotent_and_a_conflict_is_refused() {
    let mut cat = FinCategory::new();
    let (x, f, g) = (Symbol::intern("x"), Symbol::intern("f"), Symbol::intern("g"));
    assert!(cat.add_ob_generator(x).is_ok());
    assert!(cat.add_hom_generator(f, x, x).is_ok());
    assert!(cat.add_hom_generator(g, x, x).is_ok());
    assert!(cat.set_composite(f, g, FinHom::Generator(f)) == Ok(()));
    assert!(cat.set_composite(f, g, FinHom::Generator(f)) == Ok(()));
    assert!(cat.set_composite(f, g, FinHom::Generator(g)) == Err(CategoryError::InconsistentRule));
    assert!(cat.set_composite(f, g, FinHom::Id(x)) == Err(CategoryError::InconsistentRule));
    assert!(cat.compose(FinHom::Generator(f), FinHom::Generator(g)) == Composite::Reduced(FinHom::Generator(f)));
}

#[test]
fn composite_without_rule_stays_formal() {
    let mut cat = FinCategory::new();
    let (x, y, f, g) = (Symbol::intern("x"), Symbol::intern("y"), Symbol::intern("f"), Symbol::intern("g"));
    assert!(cat.add_ob_generator(x).is_ok());
    assert!(cat.add_ob_generator(y).is_ok());
    assert!(cat.add_hom_generator(f, x, y).is_ok());
    assert!(cat.add_hom_generator(g, y, x).is_ok());
    assert!(cat.compose(FinHom::Generator(f), FinHom::Generator(g)) == Composite::Formal(f, g));
    assert!(cat.compose(FinHom::Generator(f), FinHom::Id(y)) == Composite::Reduced(FinHom::Generator(f)));
    assert!(cat.compose(FinHom::Id(x), FinHom::Id(x)) == Composite::Reduced(FinHom::Id(x)));
}

#[test]
fn duplicate_generator_names_are_refused() {
    let mut cat = FinCategory::new();
    let (x, f) = (Symbol::intern("x"), Symbol::intern("f"));
    assert!(cat.add_ob_generator(x).is_ok());
    assert!(cat.add_ob_generator(x) == Err(CategoryError::DuplicateGenerator));
    assert!(cat.add_hom_generator(f, x, x).is_ok());
    assert!(cat.add_ob_generator(f) == Err(CategoryError::DuplicateGenerator));
    assert!(cat.add_hom_generator(x, x, x).err() == Some(CategoryError::DuplicateGenerator));
    assert!(cat.add_hom_generator(f, x, x).err() == Some(CategoryError::DuplicateGenerator));
    assert_eq!(cat.basic_ob_generators().len(), 1);
    assert_eq!(cat.basic_hom_generators().len(), 1);
}

#[test]
fn unknown_references_are_refused() {
    let mut cat = FinCategory::new();
    let (x, f, z) = (Symbol::intern("x"), Symbol::intern("f"), Symbol::intern("z"));
    assert!(cat.add_ob_generator(x).is_ok());
    assert!(cat.add_hom_generator(f, x, z).err() == Some(CategoryError::UnknownReference));
    assert!(cat.add_hom_generator(f, z, x).err() == Some(CategoryError::UnknownReference));
    assert!(cat.add_hom_generator(f, x, x).is_ok());
    assert!(cat.set_composite(f, z, FinHom::Id(x)) == Err(CategoryError::UnknownReference));
    assert!(cat.set_composite(f, f, FinHom::Id(z)) == Err(CategoryError::UnknownReference));
    assert!(cat.set_composite(f, f, FinHom::Generator(z)) == Err(CategoryError::UnknownReference));
}

#[test]
fn ill_typed_rules_are_refused() {
    let mut cat = FinCategory::new();
    let (x, y, f, g) = (Symbol::intern("x"), Symbol::intern("y"), Symbol::intern("f"), Symbol::intern("g"));
    assert!(cat.add_ob_generator(x).is_ok());
    assert!(cat.add_ob_generator(y).is_ok());
    assert!(cat.add_hom_generator(f, x, y).is_ok());
    assert!(cat.add_hom_generator(g, y, x).is_ok());
    assert!(cat.set_composite(f, f, FinHom::Id(x)) == Err(CategoryError::TypeMismatch));
    assert!(cat.set_composite(f, g, FinHom::Id(y)) == Err(CategoryError::TypeMismatch));
    assert!(cat.set_composite(f, g, FinHom::Generator(f)) == Err(CategoryError::TypeMismatch));
    assert!(cat.set_composite(f, g, FinHom::Id(x)) == Ok(()));
    assert!(cat.set_composite(g, f, FinHom::Id(y)) == Ok(()));
}
