use catlog_theories::{
    th_category, th_category_links, th_schema, th_signed_category, Composite, FinHom, Symbol,
    TabMorType, TabObType,
};

#[test]
fn theories() {
    assert_eq!(th_category().basic_ob_types().into_iter().count(), 1);
    assert_eq!(th_schema().basic_ob_types().into_iter().count(), 2);
    assert_eq!(th_signed_category().basic_mor_types().into_iter().count(), 1);
    assert_eq!(th_category_links().basic_mor_types().into_iter().count(), 1);
}

#[test]
fn category_has_one_object_and_no_morphism() {
    let th = th_category();
    assert_eq!(th.basic_ob_types().len(), 1);
    assert_eq!(th.basic_mor_types().len(), 0);
    assert!(th.basic_ob_types()[0] == Symbol::intern("object"));
}

#[test]
fn schema_attribute_goes_from_entity_to_attr_type() {
    let th = th_schema();
    assert_eq!(th.basic_ob_types().len(), 2);
    assert_eq!(th.basic_mor_types().len(), 1);
    let obs = th.basic_ob_types();
    assert!(obs[0] == Symbol::intern("entity"));
    assert!(obs[1] == Symbol::intern("attr_type"));
    let attr = FinHom::Generator(Symbol::intern("attr"));
    assert!(th.basic_mor_types()[0] == attr);
    assert!(th.category().dom(&attr) == Symbol::intern("entity"));
    assert!(th.category().cod(&attr) == Symbol::intern("attr_type"));
}

#[test]
fn signed_category_negative_squares_to_identity() {
    let th = th_signed_category();
    let x = Symbol::intern("object");
    let n = Symbol::intern("negative");
    let neg = FinHom::Generator(n);
    assert!(th.category().compose(neg, neg) == Composite::Reduced(FinHom::Id(x)));
    assert!(th.category().compose(FinHom::Id(x), neg) == Composite::Reduced(neg));
}

#[test]
fn category_links_excludes_the_tabulator_from_basic_types() {
    let th = th_category_links();
    assert_eq!(th.basic_ob_types().len(), 1);
    assert_eq!(th.basic_mor_types().len(), 1);
    let x = Symbol::intern("object");
    assert!(th.basic_ob_types()[0] == TabObType::Basic(x));
    let link = TabMorType::Basic(Symbol::intern("link"));
    assert!(th.basic_mor_types()[0] == link);
    assert!(th.src(&link) == TabObType::Basic(x));
    let arrows = th.tabulator(th.hom_type(TabObType::Basic(x)));
    assert!(th.tgt(&link) == arrows);
    assert!(th.tgt(&link) != TabObType::Basic(x));
}

#[test]
fn interning_gives_equal_symbols_exactly_for_equal_texts() {
    assert!(Symbol::intern("object") == Symbol::intern("object"));
    assert!(Symbol::intern("object") != Symbol::intern("objects"));
    assert!(Symbol::intern("entity") != Symbol::intern("attr_type"));
}
