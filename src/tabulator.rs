//! The discrete double theory with tabulators: object types are declared
//! basic types or tabulators of morphism types, and morphism types are
//! declared generators or the hom type of an object type.

use crate::fin_category::{texts, CategoryError};
use crate::symbol::Symbol;
use vstd::prelude::*;

verus! {

/// An object type: basic, or the tabulator of a morphism type.
pub enum TabObType {
    Basic(Symbol),
    Tabulator(Box<TabMorType>),
}

/// A morphism type: a declared generator, or the hom type of an object type.
pub enum TabMorType {
    Basic(Symbol),
    Hom(Box<TabObType>),
}

/// The view of a [`TabObType`], over the names' texts.
pub enum ObTypeTerm {
    Basic(Seq<char>),
    Tabulator(Box<MorTypeTerm>),
}

/// The view of a [`TabMorType`], over the names' texts.
pub enum MorTypeTerm {
    Basic(Seq<char>),
    Hom(Box<ObTypeTerm>),
}

pub open spec fn ob_type_term(t: TabObType) -> ObTypeTerm
    decreases t,
{
    match t {
        TabObType::Basic(x) => ObTypeTerm::Basic(x@),
        TabObType::Tabulator(m) => ObTypeTerm::Tabulator(Box::new(mor_type_term(*m))),
    }
}

pub open spec fn mor_type_term(m: TabMorType) -> MorTypeTerm
    decreases m,
{
    match m {
        TabMorType::Basic(e) => MorTypeTerm::Basic(e@),
        TabMorType::Hom(t) => MorTypeTerm::Hom(Box::new(ob_type_term(*t))),
    }
}

impl View for TabObType {
    type V = ObTypeTerm;

    open spec fn view(&self) -> ObTypeTerm {
        ob_type_term(*self)
    }
}

impl View for TabMorType {
    type V = MorTypeTerm;

    open spec fn view(&self) -> MorTypeTerm {
        mor_type_term(*self)
    }
}

/// The hom type of `t`: the generic morphism type from `t` to itself.
pub open spec fn hom_type_of(t: ObTypeTerm) -> MorTypeTerm {
    MorTypeTerm::Hom(Box::new(t))
}

/// The tabulator of `m`.
pub open spec fn tabulator_of(m: MorTypeTerm) -> ObTypeTerm {
    ObTypeTerm::Tabulator(Box::new(m))
}

fn ob_types_equal(a: &TabObType, b: &TabObType) -> (r: bool)
    ensures
        r == (a@ == b@),
    decreases a,
{
    match (a, b) {
        (TabObType::Basic(x), TabObType::Basic(y)) => x == y,
        (TabObType::Tabulator(m), TabObType::Tabulator(n)) => mor_types_equal(m, n),
        _ => false,
    }
}

fn mor_types_equal(a: &TabMorType, b: &TabMorType) -> (r: bool)
    ensures
        r == (a@ == b@),
    decreases a,
{
    match (a, b) {
        (TabMorType::Basic(d), TabMorType::Basic(e)) => d == e,
        (TabMorType::Hom(s), TabMorType::Hom(t)) => ob_types_equal(s, t),
        _ => false,
    }
}

fn copy_ob_type(t: &TabObType) -> (r: TabObType)
    ensures
        r == *t,
    decreases t,
{
    match t {
        TabObType::Basic(x) => TabObType::Basic(*x),
        TabObType::Tabulator(m) => TabObType::Tabulator(Box::new(copy_mor_type(m))),
    }
}

fn copy_mor_type(m: &TabMorType) -> (r: TabMorType)
    ensures
        r == *m,
    decreases m,
{
    match m {
        TabMorType::Basic(e) => TabMorType::Basic(*e),
        TabMorType::Hom(t) => TabMorType::Hom(Box::new(copy_ob_type(t))),
    }
}

impl PartialEq for TabObType {
    fn eq(&self, other: &TabObType) -> (r: bool) {
        ob_types_equal(self, other)
    }
}

impl vstd::std_specs::cmp::PartialEqSpecImpl for TabObType {
    open spec fn obeys_eq_spec() -> bool {
        true
    }

    open spec fn eq_spec(&self, other: &TabObType) -> bool {
        self@ == other@
    }
}

impl Eq for TabObType {
}

impl PartialEq for TabMorType {
    fn eq(&self, other: &TabMorType) -> (r: bool) {
        mor_types_equal(self, other)
    }
}

impl vstd::std_specs::cmp::PartialEqSpecImpl for TabMorType {
    open spec fn obeys_eq_spec() -> bool {
        true
    }

    open spec fn eq_spec(&self, other: &TabMorType) -> bool {
        self@ == other@
    }
}

impl Eq for TabMorType {
}

impl Clone for TabObType {
    fn clone(&self) -> (r: TabObType)
        ensures
            r == *self,
    {
        copy_ob_type(self)
    }
}

impl Clone for TabMorType {
    fn clone(&self) -> (r: TabMorType)
        ensures
            r == *self,
    {
        copy_mor_type(self)
    }
}

/// The mathematical content of a theory with tabulators.
pub struct TabModel {
    /// Basic object types, in declaration order.
    pub obs: Seq<Seq<char>>,
    /// Morphism type generators, in declaration order.
    pub mors: Seq<Seq<char>>,
    /// Source of each morphism type generator.
    pub src: Map<Seq<char>, ObTypeTerm>,
    /// Target of each morphism type generator.
    pub tgt: Map<Seq<char>, ObTypeTerm>,
}

impl TabModel {
    pub open spec fn empty() -> TabModel {
        TabModel { obs: Seq::empty(), mors: Seq::empty(), src: Map::empty(), tgt: Map::empty() }
    }

    pub open spec fn has_name(self, n: Seq<char>) -> bool {
        self.obs.contains(n) || self.mors.contains(n)
    }

    /// `t` is built from declared basic types and generators only.
    pub open spec fn ob_valid(self, t: ObTypeTerm) -> bool
        decreases t,
    {
        match t {
            ObTypeTerm::Basic(x) => self.obs.contains(x),
            ObTypeTerm::Tabulator(m) => self.mor_valid(*m),
        }
    }

    /// `m` is built from declared basic types and generators only.
    pub open spec fn mor_valid(self, m: MorTypeTerm) -> bool
        decreases m,
    {
        match m {
            MorTypeTerm::Basic(e) => self.mors.contains(e),
            MorTypeTerm::Hom(t) => self.ob_valid(*t),
        }
    }

    /// Source of a valid morphism type.
    pub open spec fn mor_src(self, m: MorTypeTerm) -> ObTypeTerm {
        match m {
            MorTypeTerm::Basic(e) => self.src[e],
            MorTypeTerm::Hom(t) => *t,
        }
    }

    /// Target of a valid morphism type.
    pub open spec fn mor_tgt(self, m: MorTypeTerm) -> ObTypeTerm {
        match m {
            MorTypeTerm::Basic(e) => self.tgt[e],
            MorTypeTerm::Hom(t) => *t,
        }
    }

    /// Why `t` cannot serve as an endpoint, if it cannot: a basic type that
    /// was never declared is an unknown reference, a tabulator of a morphism
    /// type that is not in the theory is a type mismatch.
    pub open spec fn endpoint_error(self, t: ObTypeTerm) -> Option<CategoryError> {
        match t {
            ObTypeTerm::Basic(x) => if self.obs.contains(x) {
                None
            } else {
                Some(CategoryError::UnknownReference)
            },
            ObTypeTerm::Tabulator(m) => if self.mor_valid(*m) {
                None
            } else {
                Some(CategoryError::TypeMismatch)
            },
        }
    }

    pub open spec fn wf(self) -> bool {
        &&& self.obs.no_duplicates()
        &&& self.mors.no_duplicates()
        &&& forall|n: Seq<char>| self.obs.contains(n) ==> !(#[trigger] self.mors.contains(n))
        &&& forall|e: Seq<char>| self.src.contains_key(e) <==> #[trigger] self.mors.contains(e)
        &&& forall|e: Seq<char>| self.tgt.contains_key(e) <==> #[trigger] self.mors.contains(e)
        &&& forall|e: Seq<char>| #[trigger]
            self.mors.contains(e) ==> self.ob_valid(self.src[e]) && self.ob_valid(self.tgt[e])
    }

    pub open spec fn with_ob(self, n: Seq<char>) -> TabModel {
        TabModel { obs: self.obs.push(n), ..self }
    }

    pub open spec fn with_mor(self, n: Seq<char>, s: ObTypeTerm, t: ObTypeTerm) -> TabModel {
        TabModel {
            mors: self.mors.push(n),
            src: self.src.insert(n, s),
            tgt: self.tgt.insert(n, t),
            ..self
        }
    }

    /// What declaring the basic object type `n` yields.
    pub open spec fn ob_outcome(self, n: Seq<char>) -> Result<TabModel, CategoryError> {
        if self.has_name(n) {
            Err(CategoryError::DuplicateGenerator)
        } else {
            Ok(self.with_ob(n))
        }
    }

    /// What declaring the morphism type generator `n: s -> t` yields.
    pub open spec fn mor_outcome(self, n: Seq<char>, s: ObTypeTerm, t: ObTypeTerm) -> Result<
        TabModel,
        CategoryError,
    > {
        if self.has_name(n) {
            Err(CategoryError::DuplicateGenerator)
        } else if self.endpoint_error(s) is Some {
            Err(self.endpoint_error(s)->0)
        } else if self.endpoint_error(t) is Some {
            Err(self.endpoint_error(t)->0)
        } else {
            Ok(self.with_mor(n, s, t))
        }
    }
}

/// A type valid in a theory stays valid when the theory grows.
pub proof fn lemma_ob_valid_grows(m: TabModel, m2: TabModel, t: ObTypeTerm)
    requires
        forall|x: Seq<char>| m.obs.contains(x) ==> m2.obs.contains(x),
        forall|x: Seq<char>| m.mors.contains(x) ==> m2.mors.contains(x),
        m.ob_valid(t),
    ensures
        m2.ob_valid(t),
    decreases t,
{
    match t {
        ObTypeTerm::Basic(_) => {},
        ObTypeTerm::Tabulator(b) => lemma_mor_valid_grows(m, m2, *b),
    }
}

/// A type valid in a theory stays valid when the theory grows.
pub proof fn lemma_mor_valid_grows(m: TabModel, m2: TabModel, t: MorTypeTerm)
    requires
        forall|x: Seq<char>| m.obs.contains(x) ==> m2.obs.contains(x),
        forall|x: Seq<char>| m.mors.contains(x) ==> m2.mors.contains(x),
        m.mor_valid(t),
    ensures
        m2.mor_valid(t),
    decreases t,
{
    match t {
        MorTypeTerm::Basic(_) => {},
        MorTypeTerm::Hom(b) => lemma_ob_valid_grows(m, m2, *b),
    }
}

/// Every declaration that succeeds keeps a well-formed theory well formed.
pub proof fn lemma_tab_outcomes_keep_wf(m: TabModel, n: Seq<char>, s: ObTypeTerm, t: ObTypeTerm)
    requires
        m.wf(),
    ensures
        m.ob_outcome(n) is Ok ==> m.ob_outcome(n)->Ok_0.wf(),
        m.mor_outcome(n, s, t) is Ok ==> m.mor_outcome(n, s, t)->Ok_0.wf(),
{
    if m.ob_outcome(n) is Ok {
        let m2 = m.with_ob(n);
        assert forall|x: Seq<char>| m2.obs.contains(x) implies x == n || m.obs.contains(x) by {
            let i = choose|i: int| 0 <= i < m2.obs.len() && m2.obs[i] == x;
            if i < m.obs.len() {
                assert(m.obs[i] == x);
            }
        }
        assert forall|x: Seq<char>| m.obs.contains(x) implies m2.obs.contains(x) by {
            let i = choose|i: int| 0 <= i < m.obs.len() && m.obs[i] == x;
            assert(m2.obs[i] == x);
        }
        assert forall|e: Seq<char>| #[trigger] m2.mors.contains(e) implies m2.ob_valid(m2.src[e])
            && m2.ob_valid(m2.tgt[e]) by {
            lemma_ob_valid_grows(m, m2, m.src[e]);
            lemma_ob_valid_grows(m, m2, m.tgt[e]);
        }
        assert(m2.wf());
    }
    if m.mor_outcome(n, s, t) is Ok {
        let m2 = m.with_mor(n, s, t);
        assert forall|x: Seq<char>| m2.mors.contains(x) implies x == n || m.mors.contains(x) by {
            let i = choose|i: int| 0 <= i < m2.mors.len() && m2.mors[i] == x;
            if i < m.mors.len() {
                assert(m.mors[i] == x);
            }
        }
        assert forall|x: Seq<char>| m.mors.contains(x) implies m2.mors.contains(x) by {
            let i = choose|i: int| 0 <= i < m.mors.len() && m.mors[i] == x;
            assert(m2.mors[i] == x);
        }
        assert(m2.mors[m.mors.len() as int] == n);
        assert(m.ob_valid(s));
        assert(m.ob_valid(t));
        assert forall|e: Seq<char>| #[trigger] m2.mors.contains(e) implies m2.ob_valid(m2.src[e])
            && m2.ob_valid(m2.tgt[e]) by {
            lemma_ob_valid_grows(m, m2, m2.src[e]);
            lemma_ob_valid_grows(m, m2, m2.tgt[e]);
        }
        assert(m2.wf());
    }
}

/// A declared morphism type generator with its endpoints.
struct MorTypeGenerator {
    name: Symbol,
    src: TabObType,
    tgt: TabObType,
}

/// A discrete double theory with tabulators, grown by declarations.
pub struct DiscreteTabTheory {
    obs: Vec<Symbol>,
    mors: Vec<MorTypeGenerator>,
    model: Ghost<TabModel>,
}

impl View for DiscreteTabTheory {
    type V = TabModel;

    closed spec fn view(&self) -> TabModel {
        self.model@
    }
}

impl DiscreteTabTheory {
    /// The stored declarations are exactly those of the model, and the
    /// model is well formed.
    pub closed spec fn wf(&self) -> bool {
        &&& self@.wf()
        &&& texts(self.obs@) == self@.obs
        &&& self.mors@.len() == self@.mors.len()
        &&& forall|i: int|
            0 <= i < self.mors@.len() ==> {
                let g = #[trigger] self.mors@[i];
                &&& g.name@ == self@.mors[i]
                &&& g.src@ == self@.src[g.name@]
                &&& g.tgt@ == self@.tgt[g.name@]
            }
    }

    /// The theory with nothing declared.
    pub fn new() -> (r: DiscreteTabTheory)
        ensures
            r.wf(),
            r@ == TabModel::empty(),
    {
        let r = DiscreteTabTheory { obs: Vec::new(), mors: Vec::new(), model: Ghost(TabModel::empty()) };
        assert(texts(r.obs@) =~= Seq::empty());
        r
    }

    fn has_ob(&self, n: &Symbol) -> (r: bool)
        requires
            self.wf(),
        ensures
            r == self@.obs.contains(n@),
    {
        let mut i: usize = 0;
        while i < self.obs.len()
            invariant
                self.wf(),
                i <= self.obs@.len(),
                forall|j: int| 0 <= j < i ==> self@.obs[j] != n@,
            decreases self.obs@.len() - i,
        {
            assert(self@.obs[i as int] == self.obs@[i as int]@);
            if self.obs[i] == *n {
                return true;
            }
            i = i + 1;
        }
        false
    }

    fn find_mor(&self, n: &Symbol) -> (r: Option<usize>)
        requires
            self.wf(),
        ensures
            match r {
                Some(i) => i < self.mors@.len() && self.mors@[i as int].name@ == n@,
                None => !self@.mors.contains(n@),
            },
    {
        let mut i: usize = 0;
        while i < self.mors.len()
            invariant
                self.wf(),
                i <= self.mors@.len(),
                forall|j: int| 0 <= j < i ==> self@.mors[j] != n@,
            decreases self.mors@.len() - i,
        {
            if self.mors[i].name == *n {
                return Some(i);
            }
            i = i + 1;
        }
        None
    }

    fn ob_valid(&self, t: &TabObType) -> (r: bool)
        requires
            self.wf(),
        ensures
            r == self@.ob_valid(t@),
        decreases t,
    {
        match t {
            TabObType::Basic(x) => self.has_ob(x),
            TabObType::Tabulator(m) => self.mor_valid(m),
        }
    }

    fn mor_valid(&self, m: &TabMorType) -> (r: bool)
        requires
            self.wf(),
        ensures
            r == self@.mor_valid(m@),
        decreases m,
    {
        match m {
            TabMorType::Basic(e) => self.find_mor(e).is_some(),
            TabMorType::Hom(t) => self.ob_valid(t),
        }
    }

    fn endpoint_error(&self, t: &TabObType) -> (r: Option<CategoryError>)
        requires
            self.wf(),
        ensures
            r == self@.endpoint_error(t@),
    {
        match t {
            TabObType::Basic(x) => if self.has_ob(x) {
                None
            } else {
                Some(CategoryError::UnknownReference)
            },
            TabObType::Tabulator(m) => if self.mor_valid(m) {
                None
            } else {
                Some(CategoryError::TypeMismatch)
            },
        }
    }

    /// Declares the basic object type `name`.
    pub fn add_ob_type(&mut self, name: Symbol) -> (r: Result<TabObType, CategoryError>)
        requires
            old(self).wf(),
        ensures
            final(self).wf(),
            match old(self)@.ob_outcome(name@) {
                Ok(m) => r == Ok::<TabObType, CategoryError>(TabObType::Basic(name))
                    && final(self)@ == m,
                Err(e) => r == Err::<TabObType, CategoryError>(e) && final(self)@ == old(self)@,
            },
    {
        proof {
            lemma_tab_outcomes_keep_wf(self@, name@, ObTypeTerm::Basic(name@), ObTypeTerm::Basic(name@));
        }
        if self.has_ob(&name) || self.find_mor(&name).is_some() {
            return Err(CategoryError::DuplicateGenerator);
        }
        let ghost next = self@.with_ob(name@);
        self.obs.push(name);
        self.model = Ghost(next);
        assert(texts(self.obs@) =~= self@.obs);
        Ok(TabObType::Basic(name))
    }

    /// Declares the morphism type generator `name: src -> tgt`.
    pub fn add_mor_type(&mut self, name: Symbol, src: TabObType, tgt: TabObType) -> (r: Result<
        TabMorType,
        CategoryError,
    >)
        requires
            old(self).wf(),
        ensures
            final(self).wf(),
            match old(self)@.mor_outcome(name@, src@, tgt@) {
                Ok(m) => r == Ok::<TabMorType, CategoryError>(TabMorType::Basic(name))
                    && final(self)@ == m,
                Err(e) => r == Err::<TabMorType, CategoryError>(e) && final(self)@ == old(self)@,
            },
    {
        proof {
            lemma_tab_outcomes_keep_wf(self@, name@, src@, tgt@);
        }
        if self.has_ob(&name) || self.find_mor(&name).is_some() {
            return Err(CategoryError::DuplicateGenerator);
        }
        match self.endpoint_error(&src) {
            Some(e) => {
                return Err(e);
            },
            None => {},
        }
        match self.endpoint_error(&tgt) {
            Some(e) => {
                return Err(e);
            },
            None => {},
        }
        let ghost old_mors = self.mors@;
        let ghost next = self@.with_mor(name@, src@, tgt@);
        self.mors.push(MorTypeGenerator { name, src, tgt });
        self.model = Ghost(next);
        assert forall|i: int| 0 <= i < old_mors.len() implies self.mors@[i].name@ != name@ by {
            assert(old(self)@.mors[i] == old_mors[i].name@);
        }
        Ok(TabMorType::Basic(name))
    }

    /// The hom type of `t`. The same `t` always gives an equal type.
    pub fn hom_type(&self, t: TabObType) -> (r: TabMorType)
        ensures
            r == TabMorType::Hom(Box::new(t)),
            r@ == hom_type_of(t@),
    {
        TabMorType::Hom(Box::new(t))
    }

    /// The tabulator of `m`. The same `m` always gives an equal type.
    pub fn tabulator(&self, m: TabMorType) -> (r: TabObType)
        ensures
            r == TabObType::Tabulator(Box::new(m)),
            r@ == tabulator_of(m@),
    {
        TabObType::Tabulator(Box::new(m))
    }

    /// The source of a morphism type of the theory.
    pub fn src(&self, m: &TabMorType) -> (r: TabObType)
        requires
            self.wf(),
            self@.mor_valid(m@),
        ensures
            r@ == self@.mor_src(m@),
    {
        match m {
            TabMorType::Basic(e) => {
                let i = self.find_mor(e).unwrap();
                self.mors[i].src.clone()
            },
            TabMorType::Hom(t) => copy_ob_type(t),
        }
    }

    /// The target of a morphism type of the theory.
    pub fn tgt(&self, m: &TabMorType) -> (r: TabObType)
        requires
            self.wf(),
            self@.mor_valid(m@),
        ensures
            r@ == self@.mor_tgt(m@),
    {
        match m {
            TabMorType::Basic(e) => {
                let i = self.find_mor(e).unwrap();
                self.mors[i].tgt.clone()
            },
            TabMorType::Hom(t) => copy_ob_type(t),
        }
    }

    /// The basic object types, in declaration order; tabulators are derived
    /// and never among them.
    pub fn basic_ob_types(&self) -> (r: Vec<TabObType>)
        requires
            self.wf(),
        ensures
            r@.len() == self@.obs.len(),
            self@.obs.no_duplicates(),
            forall|i: int| 0 <= i < r@.len() ==> (#[trigger] r@[i])@ == ObTypeTerm::Basic(self@.obs[i]),
    {
        let mut r: Vec<TabObType> = Vec::new();
        let mut i: usize = 0;
        while i < self.obs.len()
            invariant
                self.wf(),
                i <= self.obs@.len(),
                r@.len() == i,
                forall|j: int| 0 <= j < i ==> (#[trigger] r@[j])@ == ObTypeTerm::Basic(self@.obs[j]),
            decreases self.obs@.len() - i,
        {
            assert(self@.obs[i as int] == self.obs@[i as int]@);
            r.push(TabObType::Basic(self.obs[i]));
            i = i + 1;
        }
        r
    }

    /// The declared morphism type generators, in declaration order; hom
    /// types are derived and never among them.
    pub fn basic_mor_types(&self) -> (r: Vec<TabMorType>)
        requires
            self.wf(),
        ensures
            r@.len() == self@.mors.len(),
            forall|i: int| 0 <= i < r@.len() ==> (#[trigger] r@[i])@ == MorTypeTerm::Basic(self@.mors[i]),
    {
        let mut r: Vec<TabMorType> = Vec::new();
        let mut i: usize = 0;
        while i < self.mors.len()
            invariant
                self.wf(),
                i <= self.mors@.len(),
                r@.len() == i,
                forall|j: int| 0 <= j < i ==> (#[trigger] r@[j])@ == MorTypeTerm::Basic(self@.mors[j]),
            decreases self.mors@.len() - i,
        {
            r.push(TabMorType::Basic(self.mors[i].name));
            i = i + 1;
        }
        r
    }
}

/// Deriving types is canonical: `hom_type` gives equal results exactly on
/// equal object types, and `tabulator` exactly on equal morphism types, so a
/// repeated call never produces a second, different derived type.
pub proof fn lemma_derived_types_canonical(t1: ObTypeTerm, t2: ObTypeTerm, m1: MorTypeTerm, m2: MorTypeTerm)
    ensures
        (hom_type_of(t1) == hom_type_of(t2)) <==> (t1 == t2),
        (tabulator_of(m1) == tabulator_of(m2)) <==> (m1 == m2),
{
}

/// A tabulator is never a basic object type: in particular the tabulator of
/// the hom type of `t` differs from every basic type.
pub proof fn lemma_tabulator_not_basic(t: ObTypeTerm, x: Seq<char>)
    ensures
        tabulator_of(hom_type_of(t)) != ObTypeTerm::Basic(x),
        forall|m: MorTypeTerm| !(#[trigger] tabulator_of(m) is Basic),
{
}

impl Default for DiscreteTabTheory {
    fn default() -> (r: DiscreteTabTheory)
        ensures
            r.wf(),
            r@ == TabModel::empty(),
    {
        DiscreteTabTheory::new()
    }
}

} // verus!
