//! Finitely presented categories: object generators, morphism generators
//! between them, and rules that collapse a composite of two generators.

use crate::symbol::Symbol;
use vstd::prelude::*;

verus! {

/// What can go wrong while a presentation or a theory is being declared.
#[derive(Clone, Copy, Debug, PartialEq, Eq, Structural)]
pub enum CategoryError {
    /// The name already denotes a generator of the presentation.
    DuplicateGenerator,
    /// A generator that the declaration refers to was never declared.
    UnknownReference,
    /// Domains and codomains do not line up.
    TypeMismatch,
    /// A different result is already declared for the same composite.
    InconsistentRule,
}

/// A morphism in normal form: an identity or a generating morphism.
#[derive(Clone, Copy)]
pub enum FinHom {
    Id(Symbol),
    Generator(Symbol),
}

/// The view of a [`FinHom`]: the same shape over the names' texts.
pub enum HomTerm {
    Id(Seq<char>),
    Generator(Seq<char>),
}

impl View for FinHom {
    type V = HomTerm;

    open spec fn view(&self) -> HomTerm {
        match self {
            FinHom::Id(x) => HomTerm::Id(x@),
            FinHom::Generator(e) => HomTerm::Generator(e@),
        }
    }
}

impl PartialEq for FinHom {
    fn eq(&self, other: &FinHom) -> (r: bool) {
        match (self, other) {
            (FinHom::Id(x), FinHom::Id(y)) => x == y,
            (FinHom::Generator(d), FinHom::Generator(e)) => d == e,
            _ => false,
        }
    }
}

impl vstd::std_specs::cmp::PartialEqSpecImpl for FinHom {
    open spec fn obeys_eq_spec() -> bool {
        true
    }

    open spec fn eq_spec(&self, other: &FinHom) -> bool {
        self@ == other@
    }
}

impl Eq for FinHom {
}

/// The result of composing two morphisms: a normal form where one is known,
/// or else the formal composite of two generators.
#[derive(Clone, Copy)]
pub enum Composite {
    Reduced(FinHom),
    Formal(Symbol, Symbol),
}

/// The view of a [`Composite`].
pub enum CompositeTerm {
    Reduced(HomTerm),
    Formal(Seq<char>, Seq<char>),
}

impl View for Composite {
    type V = CompositeTerm;

    open spec fn view(&self) -> CompositeTerm {
        match self {
            Composite::Reduced(f) => CompositeTerm::Reduced(f@),
            Composite::Formal(d, e) => CompositeTerm::Formal(d@, e@),
        }
    }
}

impl PartialEq for Composite {
    fn eq(&self, other: &Composite) -> (r: bool) {
        match (self, other) {
            (Composite::Reduced(f), Composite::Reduced(g)) => f == g,
            (Composite::Formal(a, b), Composite::Formal(c, d)) => a == c && b == d,
            _ => false,
        }
    }
}

impl vstd::std_specs::cmp::PartialEqSpecImpl for Composite {
    open spec fn obeys_eq_spec() -> bool {
        true
    }

    open spec fn eq_spec(&self, other: &Composite) -> bool {
        self@ == other@
    }
}

impl Eq for Composite {
}

/// A generating morphism with its domain and codomain.
#[derive(Clone, Copy)]
pub struct HomGenerator {
    pub name: Symbol,
    pub dom: Symbol,
    pub cod: Symbol,
}

/// A declared equation: `left` then `right` equals `target`.
#[derive(Clone, Copy)]
struct CompositeRule {
    left: Symbol,
    right: Symbol,
    target: FinHom,
}

/// The mathematical content of a presentation, over the names' texts.
pub struct CategoryModel {
    /// Object generators, in declaration order.
    pub obs: Seq<Seq<char>>,
    /// Morphism generators, in declaration order.
    pub homs: Seq<Seq<char>>,
    /// Domain of each morphism generator.
    pub dom: Map<Seq<char>, Seq<char>>,
    /// Codomain of each morphism generator.
    pub cod: Map<Seq<char>, Seq<char>>,
    /// The declared composites: `(left, right)` to the normal form of
    /// `left` then `right`.
    pub rules: Map<(Seq<char>, Seq<char>), HomTerm>,
}

impl CategoryModel {
    pub open spec fn empty() -> CategoryModel {
        CategoryModel {
            obs: Seq::empty(),
            homs: Seq::empty(),
            dom: Map::empty(),
            cod: Map::empty(),
            rules: Map::empty(),
        }
    }

    /// The name denotes a generator, object or morphism.
    pub open spec fn has_name(self, n: Seq<char>) -> bool {
        self.obs.contains(n) || self.homs.contains(n)
    }

    pub open spec fn has_hom(self, f: HomTerm) -> bool {
        match f {
            HomTerm::Id(x) => self.obs.contains(x),
            HomTerm::Generator(e) => self.homs.contains(e),
        }
    }

    pub open spec fn hom_dom(self, f: HomTerm) -> Seq<char> {
        match f {
            HomTerm::Id(x) => x,
            HomTerm::Generator(e) => self.dom[e],
        }
    }

    pub open spec fn hom_cod(self, f: HomTerm) -> Seq<char> {
        match f {
            HomTerm::Id(x) => x,
            HomTerm::Generator(e) => self.cod[e],
        }
    }

    /// `left` then `right` may be declared equal to `target`.
    pub open spec fn rule_typed(self, left: Seq<char>, right: Seq<char>, target: HomTerm) -> bool {
        &&& self.homs.contains(left)
        &&& self.homs.contains(right)
        &&& self.cod[left] == self.dom[right]
        &&& self.has_hom(target)
        &&& self.hom_dom(target) == self.dom[left]
        &&& self.hom_cod(target) == self.cod[right]
    }

    /// Names are unique, every generator's endpoints are declared objects and
    /// every rule is well typed. One normal form per composite holds by
    /// construction: the rules are a map.
    pub open spec fn wf(self) -> bool {
        &&& self.obs.no_duplicates()
        &&& self.homs.no_duplicates()
        &&& forall|n: Seq<char>| self.obs.contains(n) ==> !(#[trigger] self.homs.contains(n))
        &&& forall|e: Seq<char>| self.dom.contains_key(e) <==> #[trigger] self.homs.contains(e)
        &&& forall|e: Seq<char>| self.cod.contains_key(e) <==> #[trigger] self.homs.contains(e)
        &&& forall|e: Seq<char>| #[trigger]
            self.homs.contains(e) ==> self.obs.contains(self.dom[e]) && self.obs.contains(
                self.cod[e],
            )
        &&& forall|k: (Seq<char>, Seq<char>)| #[trigger]
            self.rules.contains_key(k) ==> self.rule_typed(k.0, k.1, self.rules[k])
    }

    pub open spec fn with_ob(self, n: Seq<char>) -> CategoryModel {
        CategoryModel { obs: self.obs.push(n), ..self }
    }

    pub open spec fn with_hom(self, n: Seq<char>, d: Seq<char>, c: Seq<char>) -> CategoryModel {
        CategoryModel {
            homs: self.homs.push(n),
            dom: self.dom.insert(n, d),
            cod: self.cod.insert(n, c),
            ..self
        }
    }

    pub open spec fn with_rule(self, left: Seq<char>, right: Seq<char>, target: HomTerm) -> CategoryModel {
        CategoryModel { rules: self.rules.insert((left, right), target), ..self }
    }

    /// What declaring the object generator `n` yields.
    pub open spec fn ob_outcome(self, n: Seq<char>) -> Result<CategoryModel, CategoryError> {
        if self.has_name(n) {
            Err(CategoryError::DuplicateGenerator)
        } else {
            Ok(self.with_ob(n))
        }
    }

    /// What declaring the morphism generator `n: d -> c` yields.
    pub open spec fn hom_outcome(self, n: Seq<char>, d: Seq<char>, c: Seq<char>) -> Result<
        CategoryModel,
        CategoryError,
    > {
        if self.has_name(n) {
            Err(CategoryError::DuplicateGenerator)
        } else if !self.obs.contains(d) || !self.obs.contains(c) {
            Err(CategoryError::UnknownReference)
        } else {
            Ok(self.with_hom(n, d, c))
        }
    }

    /// What declaring `left` then `right` equal to `target` yields. A rule
    /// already declared for the pair is checked first: the same target is
    /// accepted and changes nothing, any other is inconsistent.
    pub open spec fn composite_outcome(self, left: Seq<char>, right: Seq<char>, target: HomTerm) -> Result<
        CategoryModel,
        CategoryError,
    > {
        if !self.homs.contains(left) || !self.homs.contains(right) {
            Err(CategoryError::UnknownReference)
        } else if self.cod[left] != self.dom[right] {
            Err(CategoryError::TypeMismatch)
        } else if self.rules.contains_key((left, right)) {
            if self.rules[(left, right)] == target {
                Ok(self)
            } else {
                Err(CategoryError::InconsistentRule)
            }
        } else if !self.has_hom(target) {
            Err(CategoryError::UnknownReference)
        } else if self.hom_dom(target) != self.dom[left] || self.hom_cod(target) != self.cod[right] {
            Err(CategoryError::TypeMismatch)
        } else {
            Ok(self.with_rule(left, right, target))
        }
    }

    /// The composite of `f` then `g`: identities are units, a declared rule
    /// gives its target, and otherwise the composite stays formal.
    pub open spec fn composite(self, f: HomTerm, g: HomTerm) -> CompositeTerm {
        match (f, g) {
            (HomTerm::Id(_), _) => CompositeTerm::Reduced(g),
            (_, HomTerm::Id(_)) => CompositeTerm::Reduced(f),
            (HomTerm::Generator(d), HomTerm::Generator(e)) => if self.rules.contains_key((d, e)) {
                CompositeTerm::Reduced(self.rules[(d, e)])
            } else {
                CompositeTerm::Formal(d, e)
            },
        }
    }
}

/// Every declaration that succeeds keeps a well-formed presentation
/// well formed.
pub proof fn lemma_outcomes_keep_wf(m: CategoryModel, n: Seq<char>, d: Seq<char>, c: Seq<char>, t: HomTerm)
    requires
        m.wf(),
    ensures
        m.ob_outcome(n) is Ok ==> m.ob_outcome(n)->Ok_0.wf(),
        m.hom_outcome(n, d, c) is Ok ==> m.hom_outcome(n, d, c)->Ok_0.wf(),
        m.composite_outcome(n, d, t) is Ok ==> m.composite_outcome(n, d, t)->Ok_0.wf(),
{
    if m.ob_outcome(n) is Ok {
        let m2 = m.with_ob(n);
        assert forall|x: Seq<char>| m2.obs.contains(x) implies x == n || m.obs.contains(x) by {
            let i = choose|i: int| 0 <= i < m2.obs.len() && m2.obs[i] == x;
            if i < m.obs.len() {
                assert(m.obs[i] == x);
            }
        }
        assert forall|x: Seq<char>| m.obs.contains(x) implies m2.obs.contains(x) by {
            let i = choose|i: int| 0 <= i < m.obs.len() && m.obs[i] == x;
            assert(m2.obs[i] == x);
        }
        assert(m2.wf());
    }
    if m.hom_outcome(n, d, c) is Ok {
        let m2 = m.with_hom(n, d, c);
        assert forall|x: Seq<char>| m2.homs.contains(x) implies x == n || m.homs.contains(x) by {
            let i = choose|i: int| 0 <= i < m2.homs.len() && m2.homs[i] == x;
            if i < m.homs.len() {
                assert(m.homs[i] == x);
            }
        }
        assert forall|x: Seq<char>| m.homs.contains(x) implies m2.homs.contains(x) by {
            let i = choose|i: int| 0 <= i < m.homs.len() && m.homs[i] == x;
            assert(m2.homs[i] == x);
        }
        assert(m2.homs[m.homs.len() as int] == n);
        assert forall|k: (Seq<char>, Seq<char>)| #[trigger] m2.rules.contains_key(k) implies m2.rule_typed(
            k.0,
            k.1,
            m2.rules[k],
        ) by {
            assert(m.rule_typed(k.0, k.1, m.rules[k]));
            assert(k.0 != n && k.1 != n);
        }
        assert(m2.wf());
    }
    if m.composite_outcome(n, d, t) is Ok {
        let m2 = m.composite_outcome(n, d, t)->Ok_0;
        assert forall|k: (Seq<char>, Seq<char>)| #[trigger] m2.rules.contains_key(k) implies m2.rule_typed(
            k.0,
            k.1,
            m2.rules[k],
        ) by {
            if k != (n, d) {
                assert(m.rules.contains_key(k));
            }
        }
        assert(m2.wf());
    }
}

/// The presentation after declaring each of `names`, in order, as an object
/// generator, or the first error met.
pub open spec fn after_obs(m: CategoryModel, names: Seq<Seq<char>>) -> Result<CategoryModel, CategoryError>
    decreases names.len(),
{
    if names.len() == 0 {
        Ok(m)
    } else {
        match after_obs(m, names.drop_last()) {
            Ok(m2) => m2.ob_outcome(names.last()),
            Err(e) => Err(e),
        }
    }
}

/// Declaring k distinct fresh names as object generators succeeds every time
/// and leaves exactly those k names, in declaration order and all distinct,
/// after the objects that were there before.
pub proof fn lemma_declared_obs(m: CategoryModel, names: Seq<Seq<char>>)
    requires
        m.wf(),
        names.no_duplicates(),
        forall|n: Seq<char>| names.contains(n) ==> !m.has_name(n),
    ensures
        after_obs(m, names) is Ok,
        after_obs(m, names)->Ok_0.obs == m.obs + names,
        after_obs(m, names)->Ok_0.homs == m.homs,
        after_obs(m, names)->Ok_0.obs.no_duplicates(),
        after_obs(m, names)->Ok_0.wf(),
    decreases names.len(),
{
    if names.len() == 0 {
        assert(m.obs + names =~= m.obs);
    } else {
        let init = names.drop_last();
        let n = names.last();
        assert forall|x: Seq<char>| init.contains(x) implies !m.has_name(x) by {
            let i = choose|i: int| 0 <= i < init.len() && init[i] == x;
            assert(names[i] == x);
        }
        lemma_declared_obs(m, init);
        let m2 = after_obs(m, init)->Ok_0;
        assert(names[names.len() - 1] == n);
        assert(!m.has_name(n));
        assert(!m2.obs.contains(n)) by {
            if m2.obs.contains(n) {
                let i = choose|i: int| 0 <= i < m2.obs.len() && m2.obs[i] == n;
                if i >= m.obs.len() {
                    assert(names[i - m.obs.len()] == n);
                } else {
                    assert(m.obs[i] == n);
                }
            }
        }
        lemma_outcomes_keep_wf(m2, n, n, n, HomTerm::Id(n));
        assert(m2.obs.push(n) =~= m.obs + names);
    }
}

/// Declaring a rule that was accepted a second time succeeds and changes
/// nothing; declaring any other target for the same composite fails as
/// inconsistent.
pub proof fn lemma_set_composite_idempotent(m: CategoryModel, left: Seq<char>, right: Seq<char>, target: HomTerm)
    requires
        m.wf(),
        m.composite_outcome(left, right, target) is Ok,
    ensures
        ({
            let m2 = m.composite_outcome(left, right, target)->Ok_0;
            &&& m2.composite_outcome(left, right, target) == Ok::<CategoryModel, CategoryError>(m2)
            &&& forall|other: HomTerm|
                other != target ==> #[trigger] m2.composite_outcome(left, right, other) == Err::<
                    CategoryModel,
                    CategoryError,
                >(CategoryError::InconsistentRule)
        }),
{
}

/// The view of a slice of symbols: their texts.
pub open spec fn texts(s: Seq<Symbol>) -> Seq<Seq<char>> {
    s.map_values(|x: Symbol| x@)
}

/// A finitely presented category, grown by declarations.
pub struct FinCategory {
    obs: Vec<Symbol>,
    homs: Vec<HomGenerator>,
    rules: Vec<CompositeRule>,
    model: Ghost<CategoryModel>,
}

impl View for FinCategory {
    type V = CategoryModel;

    closed spec fn view(&self) -> CategoryModel {
        self.model@
    }
}

impl FinCategory {
    /// The stored generators and rules are exactly those of the model, and
    /// the model is well formed.
    pub closed spec fn wf(&self) -> bool {
        &&& self@.wf()
        &&& texts(self.obs@) == self@.obs
        &&& self.homs@.len() == self@.homs.len()
        &&& forall|i: int|
            0 <= i < self.homs@.len() ==> {
                let h = #[trigger] self.homs@[i];
                &&& h.name@ == self@.homs[i]
                &&& h.dom@ == self@.dom[h.name@]
                &&& h.cod@ == self@.cod[h.name@]
            }
        &&& forall|i: int|
            0 <= i < self.rules@.len() ==> {
                let r = #[trigger] self.rules@[i];
                &&& self@.rules.contains_key((r.left@, r.right@))
                &&& self@.rules[(r.left@, r.right@)] == r.target@
            }
        &&& forall|k: (Seq<char>, Seq<char>)|
            #![trigger self@.rules.contains_key(k)]
            self@.rules.contains_key(k) ==> exists|i: int|
                0 <= i < self.rules@.len() && (#[trigger] self.rules@[i]).left@ == k.0
                    && self.rules@[i].right@ == k.1
    }

    /// The empty presentation.
    pub fn new() -> (r: FinCategory)
        ensures
            r.wf(),
            r@ == CategoryModel::empty(),
    {
        let r = FinCategory {
            obs: Vec::new(),
            homs: Vec::new(),
            rules: Vec::new(),
            model: Ghost(CategoryModel::empty()),
        };
        assert(texts(r.obs@) =~= Seq::empty());
        r
    }

    fn has_ob(&self, n: &Symbol) -> (r: bool)
        requires
            self.wf(),
        ensures
            r == self@.obs.contains(n@),
    {
        let mut i: usize = 0;
        while i < self.obs.len()
            invariant
                self.wf(),
                i <= self.obs@.len(),
                forall|j: int| 0 <= j < i ==> self@.obs[j] != n@,
            decreases self.obs@.len() - i,
        {
            assert(self@.obs[i as int] == self.obs@[i as int]@);
            if self.obs[i] == *n {
                return true;
            }
            i = i + 1;
        }
        false
    }

    fn find_hom(&self, n: &Symbol) -> (r: Option<usize>)
        requires
            self.wf(),
        ensures
            match r {
                Some(i) => i < self.homs@.len() && self.homs@[i as int].name@ == n@,
                None => !self@.homs.contains(n@),
            },
    {
        let mut i: usize = 0;
        while i < self.homs.len()
            invariant
                self.wf(),
                i <= self.homs@.len(),
                forall|j: int| 0 <= j < i ==> self@.homs[j] != n@,
            decreases self.homs@.len() - i,
        {
            if self.homs[i].name == *n {
                return Some(i);
            }
            i = i + 1;
        }
        None
    }

    fn find_rule(&self, left: &Symbol, right: &Symbol) -> (r: Option<usize>)
        requires
            self.wf(),
        ensures
            match r {
                Some(i) => i < self.rules@.len() && self@.rules.contains_key((left@, right@))
                    && self@.rules[(left@, right@)] == self.rules@[i as int].target@,
                None => !self@.rules.contains_key((left@, right@)),
            },
    {
        let mut i: usize = 0;
        while i < self.rules.len()
            invariant
                self.wf(),
                i <= self.rules@.len(),
                forall|j: int|
                    0 <= j < i ==> !((#[trigger] self.rules@[j]).left@ == left@
                        && self.rules@[j].right@ == right@),
            decreases self.rules@.len() - i,
        {
            if self.rules[i].left == *left && self.rules[i].right == *right {
                return Some(i);
            }
            i = i + 1;
        }
        None
    }

    /// Whether `f` is a morphism of the presentation.
    fn has_hom(&self, f: &FinHom) -> (r: bool)
        requires
            self.wf(),
        ensures
            r == self@.has_hom(f@),
    {
        match f {
            FinHom::Id(x) => self.has_ob(x),
            FinHom::Generator(e) => self.find_hom(e).is_some(),
        }
    }

    /// The domain of a morphism of the presentation.
    pub fn dom(&self, f: &FinHom) -> (r: Symbol)
        requires
            self.wf(),
            self@.has_hom(f@),
        ensures
            r@ == self@.hom_dom(f@),
    {
        match f {
            FinHom::Id(x) => *x,
            FinHom::Generator(e) => {
                let i = self.find_hom(e).unwrap();
                self.homs[i].dom
            },
        }
    }

    /// The codomain of a morphism of the presentation.
    pub fn cod(&self, f: &FinHom) -> (r: Symbol)
        requires
            self.wf(),
            self@.has_hom(f@),
        ensures
            r@ == self@.hom_cod(f@),
    {
        match f {
            FinHom::Id(x) => *x,
            FinHom::Generator(e) => {
                let i = self.find_hom(e).unwrap();
                self.homs[i].cod
            },
        }
    }

    /// Declares the object generator `name`.
    pub fn add_ob_generator(&mut self, name: Symbol) -> (r: Result<Symbol, CategoryError>)
        requires
            old(self).wf(),
        ensures
            final(self).wf(),
            match old(self)@.ob_outcome(name@) {
                Ok(m) => r == Ok::<Symbol, CategoryError>(name) && final(self)@ == m,
                Err(e) => r == Err::<Symbol, CategoryError>(e) && final(self)@ == old(self)@,
            },
    {
        proof {
            lemma_outcomes_keep_wf(self@, name@, name@, name@, HomTerm::Id(name@));
        }
        if self.has_ob(&name) || self.find_hom(&name).is_some() {
            return Err(CategoryError::DuplicateGenerator);
        }
        let ghost next = self@.with_ob(name@);
        self.obs.push(name);
        self.model = Ghost(next);
        assert(texts(self.obs@) =~= self@.obs);
        Ok(name)
    }

    /// Declares the morphism generator `name: dom -> cod`.
    pub fn add_hom_generator(&mut self, name: Symbol, dom: Symbol, cod: Symbol) -> (r: Result<
        HomGenerator,
        CategoryError,
    >)
        requires
            old(self).wf(),
        ensures
            final(self).wf(),
            match old(self)@.hom_outcome(name@, dom@, cod@) {
                Ok(m) => r == Ok::<HomGenerator, CategoryError>(
                    HomGenerator { name, dom, cod },
                ) && final(self)@ == m,
                Err(e) => r == Err::<HomGenerator, CategoryError>(e) && final(self)@ == old(
                    self,
                )@,
            },
    {
        proof {
            lemma_outcomes_keep_wf(self@, name@, dom@, cod@, HomTerm::Id(name@));
        }
        if self.has_ob(&name) || self.find_hom(&name).is_some() {
            return Err(CategoryError::DuplicateGenerator);
        }
        if !self.has_ob(&dom) || !self.has_ob(&cod) {
            return Err(CategoryError::UnknownReference);
        }
        let ghost old_homs = self.homs@;
        let ghost next = self@.with_hom(name@, dom@, cod@);
        let h = HomGenerator { name, dom, cod };
        self.homs.push(h);
        self.model = Ghost(next);
        assert forall|i: int| 0 <= i < old_homs.len() implies self.homs@[i].name@ != name@ by {
            assert(old(self)@.homs[i] == old_homs[i].name@);
        }
        Ok(h)
    }

    /// Declares that `left` then `right` equals `target`.
    pub fn set_composite(&mut self, left: Symbol, right: Symbol, target: FinHom) -> (r: Result<
        (),
        CategoryError,
    >)
        requires
            old(self).wf(),
        ensures
            final(self).wf(),
            match old(self)@.composite_outcome(left@, right@, target@) {
                Ok(m) => r is Ok && final(self)@ == m,
                Err(e) => r == Err::<(), CategoryError>(e) && final(self)@ == old(self)@,
            },
    {
        proof {
            lemma_outcomes_keep_wf(self@, left@, right@, left@, target@);
        }
        let (li, ri) = match (self.find_hom(&left), self.find_hom(&right)) {
            (Some(li), Some(ri)) => (li, ri),
            _ => {
                return Err(CategoryError::UnknownReference);
            },
        };
        let lg = self.homs[li];
        let rg = self.homs[ri];
        if lg.cod != rg.dom {
            return Err(CategoryError::TypeMismatch);
        }
        match self.find_rule(&left, &right) {
            Some(k) => {
                if self.rules[k].target == target {
                    return Ok(());
                } else {
                    return Err(CategoryError::InconsistentRule);
                }
            },
            None => {},
        }
        if !self.has_hom(&target) {
            return Err(CategoryError::UnknownReference);
        }
        if self.dom(&target) != lg.dom || self.cod(&target) != rg.cod {
            return Err(CategoryError::TypeMismatch);
        }
        let ghost old_rules = self.rules@;
        let ghost next = self@.with_rule(left@, right@, target@);
        self.rules.push(CompositeRule { left, right, target });
        self.model = Ghost(next);
        assert forall|k: (Seq<char>, Seq<char>)| #[trigger]
            self@.rules.contains_key(k) implies exists|i: int|
                0 <= i < self.rules@.len() && (#[trigger] self.rules@[i]).left@ == k.0
                    && self.rules@[i].right@ == k.1 by {
            if k == (left@, right@) {
                assert(self.rules@[old_rules.len() as int].left@ == k.0);
            } else {
                assert(old(self)@.rules.contains_key(k));
                let i = choose|i: int|
                    0 <= i < old_rules.len() && (#[trigger] old_rules[i]).left@ == k.0
                        && old_rules[i].right@ == k.1;
                assert(self.rules@[i] == old_rules[i]);
            }
        }
        assert forall|i: int| 0 <= i < self.rules@.len() implies {
            let r = #[trigger] self.rules@[i];
            &&& self@.rules.contains_key((r.left@, r.right@))
            &&& self@.rules[(r.left@, r.right@)] == r.target@
        } by {
            if i < old_rules.len() {
                assert(self.rules@[i] == old_rules[i]);
            }
        }
        Ok(())
    }

    /// The composite of `f` then `g`, found by one lookup among the rules.
    pub fn compose(&self, f: FinHom, g: FinHom) -> (r: Composite)
        requires
            self.wf(),
            self@.has_hom(f@),
            self@.has_hom(g@),
            self@.hom_cod(f@) == self@.hom_dom(g@),
        ensures
            r@ == self@.composite(f@, g@),
    {
        match (f, g) {
            (FinHom::Id(_), _) => Composite::Reduced(g),
            (_, FinHom::Id(_)) => Composite::Reduced(f),
            (FinHom::Generator(d), FinHom::Generator(e)) => match self.find_rule(&d, &e) {
                Some(k) => Composite::Reduced(self.rules[k].target),
                None => Composite::Formal(d, e),
            },
        }
    }

    /// The object generators, in declaration order.
    pub fn basic_ob_generators(&self) -> (r: Vec<Symbol>)
        requires
            self.wf(),
        ensures
            r@.len() == self@.obs.len(),
            self@.obs.no_duplicates(),
            forall|i: int| 0 <= i < r@.len() ==> (#[trigger] r@[i])@ == self@.obs[i],
    {
        let mut r: Vec<Symbol> = Vec::new();
        let mut i: usize = 0;
        while i < self.obs.len()
            invariant
                self.wf(),
                i <= self.obs@.len(),
                r@ == self.obs@.subrange(0, i as int),
            decreases self.obs@.len() - i,
        {
            r.push(self.obs[i]);
            i = i + 1;
            assert(r@ =~= self.obs@.subrange(0, i as int));
        }
        assert(r@ =~= self.obs@);
        assert forall|i: int| 0 <= i < r@.len() implies (#[trigger] r@[i])@ == self@.obs[i] by {
            assert(texts(self.obs@)[i] == self.obs@[i]@);
        }
        r
    }

    /// The morphism generators, in declaration order.
    pub fn basic_hom_generators(&self) -> (r: Vec<HomGenerator>)
        requires
            self.wf(),
        ensures
            r@.len() == self@.homs.len(),
            forall|i: int|
                0 <= i < r@.len() ==> {
                    let h = #[trigger] r@[i];
                    &&& h.name@ == self@.homs[i]
                    &&& h.dom@ == self@.dom[h.name@]
                    &&& h.cod@ == self@.cod[h.name@]
                },
    {
        let mut r: Vec<HomGenerator> = Vec::new();
        let mut i: usize = 0;
        while i < self.homs.len()
            invariant
                self.wf(),
                i <= self.homs@.len(),
                r@ == self.homs@.subrange(0, i as int),
            decreases self.homs@.len() - i,
        {
            r.push(self.homs[i]);
            i = i + 1;
            assert(r@ =~= self.homs@.subrange(0, i as int));
        }
        assert(r@ =~= self.homs@);
        r
    }
}

impl Default for FinCategory {
    fn default() -> (r: FinCategory)
        ensures
            r.wf(),
            r@ == CategoryModel::empty(),
    {
        FinCategory::new()
    }
}

} // verus!
