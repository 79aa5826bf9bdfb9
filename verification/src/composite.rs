//! Composite documents: several independent root queries sent as one GraphQL operation.
use vstd::prelude::*;
use vstd::string::*;
use crate::error::{MoongqlError, MoongqlResult};
use crate::payload::{VarModel, Variables};
use crate::query::QueryBuilder;
use crate::text::{join, str_eq, texts};
use crate::traits::{
    BuildableQuery, CompositeQueryDocument, GqlInspectable, GqlValidatable, composite_document,
    inline_document,
};
use crate::validation::ArgPredicate;

verus! {

/// A named place for one root query of a composite document.
pub type Slot<P> = (&'static str, Option<QueryBuilder<P>>);

/// Summed complexity of the present queries among the first `n` slots.
pub open spec fn slots_complexity<P: ArgPredicate>(slots: Seq<Slot<P>>, n: nat) -> nat
    decreases n,
{
    if n == 0 {
        0
    } else {
        slots_complexity(slots, (n - 1) as nat) + match slots[n - 1].1 {
            Some(q) => q.spec_complexity(),
            None => 0,
        }
    }
}

/// Largest depth among the present queries of the first `n` slots, and at least 1.
pub open spec fn slots_depth<P: ArgPredicate>(slots: Seq<Slot<P>>, n: nat) -> nat
    decreases n,
{
    if n == 0 {
        1
    } else {
        let prev = slots_depth(slots, (n - 1) as nat);
        match slots[n - 1].1 {
            Some(q) => if q.spec_depth() > prev { q.spec_depth() } else { prev },
            None => prev,
        }
    }
}

/// The larger of two optional limits; `None` only when both are `None`.
pub open spec fn larger_limit(a: Option<u32>, b: Option<u32>) -> Option<u32> {
    match (a, b) {
        (Some(x), Some(y)) => Some(if x >= y { x } else { y }),
        (Some(x), None) => Some(x),
        (None, _) => b,
    }
}

/// `larger_limit` groups freely.
pub proof fn lemma_larger_limit_assoc(a: Option<u32>, b: Option<u32>, c: Option<u32>)
    ensures
        larger_limit(a, larger_limit(b, c)) == larger_limit(larger_limit(a, b), c),
{
}

/// Computes `larger_limit`.
pub fn larger(a: Option<u32>, b: Option<u32>) -> (r: Option<u32>)
    ensures
        r == larger_limit(a, b),
{
    match (a, b) {
        (Some(x), Some(y)) => Some(if x >= y { x } else { y }),
        (Some(x), None) => Some(x),
        (None, _) => b,
    }
}

/// Largest local complexity limit among the present queries, from slot `i` on.
pub open spec fn slots_max_complexity<P: ArgPredicate>(slots: Seq<Slot<P>>, i: nat) -> Option<u32>
    decreases slots.len() - i,
{
    if i >= slots.len() {
        None
    } else {
        match slots[i as int].1 {
            Some(q) => larger_limit(q.spec_max_complexity(), slots_max_complexity(slots, i + 1)),
            None => slots_max_complexity(slots, i + 1),
        }
    }
}

/// Largest local depth limit among the present queries, from slot `i` on.
pub open spec fn slots_max_depth<P: ArgPredicate>(slots: Seq<Slot<P>>, i: nat) -> Option<u32>
    decreases slots.len() - i,
{
    if i >= slots.len() {
        None
    } else {
        match slots[i as int].1 {
            Some(q) => larger_limit(q.spec_max_depth(), slots_max_depth(slots, i + 1)),
            None => slots_max_depth(slots, i + 1),
        }
    }
}

/// First validation failure among the present queries, from slot `i` on.
pub open spec fn slots_validation<P: ArgPredicate>(slots: Seq<Slot<P>>, i: nat) -> Option<Seq<char>>
    decreases slots.len() - i,
{
    if i >= slots.len() {
        None
    } else {
        match slots[i as int].1 {
            Some(q) => match q.spec_validation() {
                Some(m) => Some(m),
                None => slots_validation(slots, i + 1),
            },
            None => slots_validation(slots, i + 1),
        }
    }
}

/// Bodies of the present queries of the first `n` slots.
pub open spec fn slots_roots<P: ArgPredicate>(slots: Seq<Slot<P>>, n: nat, use_variables: bool) -> Seq<Seq<char>>
    decreases n,
{
    if n == 0 {
        Seq::empty()
    } else {
        let prev = slots_roots(slots, (n - 1) as nat, use_variables);
        match slots[n - 1].1 {
            Some(q) => prev.push(q.spec_query_parts(use_variables).0),
            None => prev,
        }
    }
}

/// Variable declarations of the present queries of the first `n` slots, in order.
pub open spec fn slots_decls<P: ArgPredicate>(slots: Seq<Slot<P>>, n: nat, use_variables: bool) -> Seq<Seq<char>>
    decreases n,
{
    if n == 0 {
        Seq::empty()
    } else {
        let prev = slots_decls(slots, (n - 1) as nat, use_variables);
        match slots[n - 1].1 {
            Some(q) => prev + q.spec_query_parts(use_variables).1,
            None => prev,
        }
    }
}

/// Variables of the present queries of the first `n` slots; later slots win on shared names.
pub open spec fn slots_vars<P: ArgPredicate>(slots: Seq<Slot<P>>, n: nat, use_variables: bool) -> Map<Seq<char>, VarModel>
    decreases n,
{
    if n == 0 {
        Map::empty()
    } else {
        let prev = slots_vars(slots, (n - 1) as nat, use_variables);
        match slots[n - 1].1 {
            Some(q) => prev.union_prefer_right(q.spec_query_parts(use_variables).2),
            None => prev,
        }
    }
}

/// Index of the first slot named `name`, searching from `i` on.
pub open spec fn slot_position<P>(slots: Seq<Slot<P>>, name: Seq<char>, i: nat) -> Option<int>
    decreases slots.len() - i,
{
    if i >= slots.len() {
        None
    } else if slots[i as int].0@ == name {
        Some(i as int)
    } else {
        slot_position(slots, name, i + 1)
    }
}

/// A multi-root document: named slots, each holding an optional root query.
#[derive(Debug)]
pub struct CompositeQuery<P> {
    slots: Vec<Slot<P>>,
    fresh: Vec<Option<QueryBuilder<P>>>,
    max_complexity_override: Option<u32>,
    max_depth_override: Option<u32>,
    use_variables: bool,
    operation_name: Option<String>,
    custom_variables: Option<Variables>,
}

impl<P: ArgPredicate> CompositeQuery<P> {
    /// Every query, present or not yet configured, is internally consistent, and each slot
    /// that holds no query keeps the builder its configuration starts from.
    pub closed spec fn wf(&self) -> bool {
        &&& self.fresh@.len() == self.slots@.len()
        &&& forall|i: int| 0 <= i < self.slots@.len() ==> (#[trigger] self.slots@[i].1 matches Some(q) ==> q.wf())
        &&& forall|i: int| 0 <= i < self.slots@.len() ==> ((#[trigger] self.fresh@[i]) is Some) == (self.slots@[i].1 is None)
        &&& forall|i: int| 0 <= i < self.slots@.len() ==> (#[trigger] self.fresh@[i] matches Some(q) ==> q.wf())
    }

    /// For each slot that holds no query, the builder its first configuration starts from.
    pub closed spec fn fresh_builders(&self) -> Seq<Option<QueryBuilder<P>>> {
        self.fresh@
    }

    /// The builder the next configuration of slot `i` starts from: the query it holds, else
    /// the slot's initial builder.
    pub open spec fn start_builder(&self, i: int) -> QueryBuilder<P> {
        match self.slots()[i].1 {
            Some(q) => q,
            None => self.fresh_builders()[i]->0,
        }
    }

    /// The slots, in declaration order.
    pub closed spec fn slots(&self) -> Seq<Slot<P>> {
        self.slots@
    }

    /// Local complexity limit.
    pub closed spec fn complexity_override(&self) -> Option<u32> {
        self.max_complexity_override
    }

    /// Local depth limit.
    pub closed spec fn depth_override(&self) -> Option<u32> {
        self.max_depth_override
    }

    /// Whether variable parametrization is enabled.
    pub closed spec fn uses_variables(&self) -> bool {
        self.use_variables
    }

    /// The operation name of the payload.
    pub closed spec fn spec_operation_name(&self) -> Option<String> {
        self.operation_name
    }

    /// Extra variables merged into the payload.
    pub closed spec fn custom_variables(&self) -> Option<Variables> {
        self.custom_variables
    }

    /// A composite with one slot per `(name, builder)` pair, in the given order; each slot
    /// holds no query yet, and its first configuration starts from its builder.
    pub fn new(slots: Vec<(&'static str, QueryBuilder<P>)>) -> (r: Self)
        requires
            forall|i: int| 0 <= i < slots@.len() ==> (#[trigger] slots@[i]).1.wf(),
        ensures
            r.wf(),
            r.slots().len() == slots@.len(),
            forall|i: int| 0 <= i < slots@.len() ==> #[trigger] r.slots()[i] == (slots@[i].0, None::<QueryBuilder<P>>),
            forall|i: int| 0 <= i < slots@.len() ==> #[trigger] r.fresh_builders()[i] == Some(slots@[i].1),
            r.complexity_override() is None,
            r.depth_override() is None,
            !r.uses_variables(),
            r.spec_operation_name() is None,
            r.custom_variables() is None,
    {
        let ghost given = slots@;
        let n = slots.len();
        let mut rest = slots;
        let mut names: Vec<Slot<P>> = Vec::new();
        let mut fresh: Vec<Option<QueryBuilder<P>>> = Vec::new();
        let mut i: usize = 0;
        while i < n
            invariant
                n == given.len(),
                i <= n,
                rest@ == given.skip(i as int),
                names@.len() == i,
                fresh@.len() == i,
                forall|j: int| 0 <= j < i ==> #[trigger] names@[j] == (given[j].0, None::<QueryBuilder<P>>),
                forall|j: int| 0 <= j < i ==> #[trigger] fresh@[j] == Some(given[j].1),
                forall|j: int| 0 <= j < given.len() ==> (#[trigger] given[j]).1.wf(),
            decreases n - i,
        {
            let (name, builder) = rest.remove(0);
            assert((name, builder) == given[i as int]);
            assert(rest@ =~= given.skip(i + 1));
            names.push((name, None));
            fresh.push(Some(builder));
            i = i + 1;
        }
        CompositeQuery {
            slots: names,
            fresh,
            max_complexity_override: None,
            max_depth_override: None,
            use_variables: false,
            operation_name: None,
            custom_variables: None,
        }
    }

    fn find_slot(&self, name: &str) -> (r: Option<usize>)
        ensures
            r matches Some(i) ==> slot_position(self.slots@, name@, 0) == Some(i as int) && i < self.slots@.len(),
            r is None ==> slot_position(self.slots@, name@, 0) is None,
    {
        let n = self.slots.len();
        let mut i: usize = 0;
        while i < n
            invariant
                n == self.slots@.len(),
                i <= n,
                slot_position(self.slots@, name@, 0) == slot_position(self.slots@, name@, i as nat),
            decreases n - i,
        {
            if str_eq(self.slots[i].0, name) {
                return Some(i);
            }
            i = i + 1;
        }
        None
    }

    /// Configures the first slot named `name`: `configure` receives the query the slot holds
    /// (or, the first time, the slot's initial builder) and the slot then holds what it returns.
    /// Returns whether such a slot exists (when none does, nothing changes).
    pub fn set_subquery<F: FnOnce(QueryBuilder<P>) -> QueryBuilder<P>>(&mut self, name: &str, configure: F) -> (found: bool)
        requires
            old(self).wf(),
            forall|q: QueryBuilder<P>| q.wf() ==> #[trigger] configure.requires((q,)),
            forall|q: QueryBuilder<P>, r: QueryBuilder<P>| q.wf() && #[trigger] configure.ensures((q,), r) ==> r.wf(),
        ensures
            final(self).wf(),
            found == slot_position(old(self).slots(), name@, 0) is Some,
            match slot_position(old(self).slots(), name@, 0) {
                Some(i) => {
                    &&& final(self).slots()[i].1 is Some
                    &&& final(self).slots() == old(self).slots().update(i, (old(self).slots()[i].0, final(self).slots()[i].1))
                    &&& configure.ensures((old(self).start_builder(i),), final(self).slots()[i].1->0)
                    &&& final(self).fresh_builders() == old(self).fresh_builders().update(i, None)
                },
                None => final(self).slots() == old(self).slots() && final(self).fresh_builders() == old(self).fresh_builders(),
            },
            final(self).complexity_override() == old(self).complexity_override(),
            final(self).depth_override() == old(self).depth_override(),
            final(self).uses_variables() == old(self).uses_variables(),
            final(self).spec_operation_name() == old(self).spec_operation_name(),
            final(self).custom_variables() == old(self).custom_variables(),
    {
        match self.find_slot(name) {
            Some(i) => {
                let ghost start = self.start_builder(i as int);
                let ghost old_slots = self.slots@;
                let ghost old_fresh = self.fresh@;
                let (slot_name, held) = self.slots.remove(i);
                let initial = self.fresh.remove(i);
                let builder = match held {
                    Some(q) => q,
                    None => initial.unwrap(),
                };
                assert(builder == start);
                assert(builder.wf());
                let built = configure(builder);
                self.slots.insert(i, (slot_name, Some(built)));
                self.fresh.insert(i, None);
                proof {
                    assert(self.slots@ =~= old_slots.update(i as int, (old_slots[i as int].0, Some(built))));
                    assert(self.fresh@ =~= old_fresh.update(i as int, None));
                }
                true
            },
            None => false,
        }
    }

    /// The query held by the first slot named `name`, if any.
    pub fn subquery(&self, name: &str) -> (r: Option<&QueryBuilder<P>>)
        ensures
            match slot_position(self.slots(), name@, 0) {
                Some(i) => match self.slots()[i].1 {
                    Some(q) => r matches Some(x) && *x == q,
                    None => r is None,
                },
                None => r is None,
            },
    {
        match self.find_slot(name) {
            Some(i) => match &self.slots[i].1 {
                Some(q) => Some(q),
                None => None,
            },
            None => None,
        }
    }

    /// Enables or disables variable parametrization for every root query.
    pub fn set_use_variables(&mut self, enable: bool)
        requires
            old(self).wf(),
        ensures
            final(self).wf(),
            final(self).slots() == old(self).slots(),
            final(self).fresh_builders() == old(self).fresh_builders(),
            final(self).complexity_override() == old(self).complexity_override(),
            final(self).depth_override() == old(self).depth_override(),
            final(self).uses_variables() == enable,
            final(self).spec_operation_name() == old(self).spec_operation_name(),
            final(self).custom_variables() == old(self).custom_variables(),
    {
        self.use_variables = enable;
    }

    /// Sets the payload's operation name.
    pub fn with_operation_name(&mut self, name: String)
        requires
            old(self).wf(),
        ensures
            final(self).wf(),
            final(self).slots() == old(self).slots(),
            final(self).fresh_builders() == old(self).fresh_builders(),
            final(self).complexity_override() == old(self).complexity_override(),
            final(self).depth_override() == old(self).depth_override(),
            final(self).uses_variables() == old(self).uses_variables(),
            final(self).spec_operation_name() == Some(name),
            final(self).custom_variables() == old(self).custom_variables(),
    {
        self.operation_name = Some(name);
    }

    /// Supplies extra variables, merged into the payload over the queries' own.
    pub fn with_variables(&mut self, variables: Variables)
        requires
            old(self).wf(),
        ensures
            final(self).wf(),
            final(self).slots() == old(self).slots(),
            final(self).fresh_builders() == old(self).fresh_builders(),
            final(self).complexity_override() == old(self).complexity_override(),
            final(self).depth_override() == old(self).depth_override(),
            final(self).uses_variables() == old(self).uses_variables(),
            final(self).spec_operation_name() == old(self).spec_operation_name(),
            final(self).custom_variables() == Some(variables),
    {
        self.custom_variables = Some(variables);
    }

    /// The payload's operation name, if set.
    pub fn operation_name(&self) -> (r: Option<&str>)
        ensures
            match self.spec_operation_name() {
                Some(n) => r matches Some(s) && s@ == n@,
                None => r is None,
            },
    {
        match &self.operation_name {
            Some(n) => Some(n.as_str()),
            None => None,
        }
    }

    /// The extra variables, if supplied.
    pub fn variables(&self) -> (r: Option<&Variables>)
        ensures
            match self.custom_variables() {
                Some(v) => r matches Some(x) && *x == v,
                None => r is None,
            },
    {
        match &self.custom_variables {
            Some(v) => Some(v),
            None => None,
        }
    }

    /// Sets the local complexity limit.
    pub fn with_max_complexity(&mut self, max: u32)
        requires
            old(self).wf(),
        ensures
            final(self).wf(),
            final(self).slots() == old(self).slots(),
            final(self).fresh_builders() == old(self).fresh_builders(),
            final(self).complexity_override() == Some(max),
            final(self).depth_override() == old(self).depth_override(),
            final(self).uses_variables() == old(self).uses_variables(),
            final(self).spec_operation_name() == old(self).spec_operation_name(),
            final(self).custom_variables() == old(self).custom_variables(),
    {
        self.max_complexity_override = Some(max);
    }

    /// Sets the local depth limit.
    pub fn with_max_depth(&mut self, max: u32)
        requires
            old(self).wf(),
        ensures
            final(self).wf(),
            final(self).slots() == old(self).slots(),
            final(self).fresh_builders() == old(self).fresh_builders(),
            final(self).complexity_override() == old(self).complexity_override(),
            final(self).depth_override() == Some(max),
            final(self).uses_variables() == old(self).uses_variables(),
            final(self).spec_operation_name() == old(self).spec_operation_name(),
            final(self).custom_variables() == old(self).custom_variables(),
    {
        self.max_depth_override = Some(max);
    }
}

proof fn lemma_slots_complexity_prefix<P: ArgPredicate>(slots: Seq<Slot<P>>, k: nat, n: nat)
    requires
        k <= n <= slots.len(),
    ensures
        slots_complexity(slots, k) <= slots_complexity(slots, n),
    decreases n - k,
{
    if k < n {
        lemma_slots_complexity_prefix(slots, k, (n - 1) as nat);
    }
}

/// The depth of the present queries of the first `n` slots is at least 1 and fits in 32 bits.
pub proof fn lemma_slots_depth_bounded<P: ArgPredicate>(slots: Seq<Slot<P>>, n: nat)
    requires
        n <= slots.len(),
    ensures
        1 <= slots_depth(slots, n) <= u32::MAX,
    decreases n,
{
    if n > 0 {
        lemma_slots_depth_bounded(slots, (n - 1) as nat);
    }
}

impl<P: ArgPredicate> CompositeQuery<P> {
    /// Effective complexity limit: the composite's own, else the largest one set by a present query.
    pub open spec fn effective_max_complexity(&self) -> Option<u32> {
        match self.complexity_override() {
            Some(m) => Some(m),
            None => slots_max_complexity(self.slots(), 0),
        }
    }

    /// Effective depth limit: the composite's own, else the largest one set by a present query.
    pub open spec fn effective_max_depth(&self) -> Option<u32> {
        match self.depth_override() {
            Some(m) => Some(m),
            None => slots_max_depth(self.slots(), 0),
        }
    }

    /// Compiled root queries, merged declarations, and merged variables (the extra variables last).
    pub open spec fn payload_details(&self) -> (Seq<Seq<char>>, Seq<Seq<char>>, Map<Seq<char>, VarModel>) {
        let n = self.slots().len();
        let uv = self.uses_variables();
        let vars = slots_vars(self.slots(), n, uv);
        (
            slots_roots(self.slots(), n, uv),
            slots_decls(self.slots(), n, uv),
            match self.custom_variables() {
                Some(c) => vars.union_prefer_right(c@),
                None => vars,
            },
        )
    }

    /// The effective complexity limit.
    pub fn max_complexity(&self) -> (r: Option<u32>)
        requires
            self.wf(),
        ensures
            r == self.effective_max_complexity(),
    {
        if let Some(m) = self.max_complexity_override {
            return Some(m);
        }
        let n = self.slots.len();
        let mut acc: Option<u32> = None;
        let mut i: usize = 0;
        while i < n
            invariant
                n == self.slots@.len(),
                self.wf(),
                i <= n,
                self.max_complexity_override is None,
                slots_max_complexity(self.slots@, 0) == larger_limit(acc, slots_max_complexity(self.slots@, i as nat)),
            decreases n - i,
        {
            if let Some(q) = &self.slots[i].1 {
                assert(self.slots@[i as int].1 matches Some(x) && x.wf());
                let l = q.max_complexity();
                proof {
                    lemma_larger_limit_assoc(acc, l, slots_max_complexity(self.slots@, (i + 1) as nat));
                }
                acc = larger(acc, l);
            }
            i = i + 1;
        }
        acc
    }

    /// The effective depth limit.
    pub fn max_depth(&self) -> (r: Option<u32>)
        requires
            self.wf(),
        ensures
            r == self.effective_max_depth(),
    {
        if let Some(m) = self.max_depth_override {
            return Some(m);
        }
        let n = self.slots.len();
        let mut acc: Option<u32> = None;
        let mut i: usize = 0;
        while i < n
            invariant
                n == self.slots@.len(),
                self.wf(),
                i <= n,
                self.max_depth_override is None,
                slots_max_depth(self.slots@, 0) == larger_limit(acc, slots_max_depth(self.slots@, i as nat)),
            decreases n - i,
        {
            if let Some(q) = &self.slots[i].1 {
                assert(self.slots@[i as int].1 matches Some(x) && x.wf());
                let l = q.max_depth();
                proof {
                    lemma_larger_limit_assoc(acc, l, slots_max_depth(self.slots@, (i + 1) as nat));
                }
                acc = larger(acc, l);
            }
            i = i + 1;
        }
        acc
    }

    /// Summed complexity of all present root queries.
    pub fn complexity(&self) -> (r: u32)
        requires
            self.wf(),
            slots_complexity(self.slots(), self.slots().len()) <= u32::MAX,
        ensures
            r == slots_complexity(self.slots(), self.slots().len()),
    {
        let n = self.slots.len();
        let mut total: u32 = 0;
        let mut i: usize = 0;
        while i < n
            invariant
                n == self.slots@.len(),
                self.wf(),
                i <= n,
                slots_complexity(self.slots@, n as nat) <= u32::MAX,
                total == slots_complexity(self.slots@, i as nat),
            decreases n - i,
        {
            proof {
                lemma_slots_complexity_prefix(self.slots@, (i + 1) as nat, n as nat);
            }
            if let Some(q) = &self.slots[i].1 {
                assert(self.slots@[i as int].1 matches Some(x) && x.wf());
                total = total + q.complexity();
            }
            i = i + 1;
        }
        total
    }

    /// Largest depth among the present root queries (1 when there are none).
    pub fn depth(&self) -> (r: u32)
        requires
            self.wf(),
        ensures
            r == slots_depth(self.slots(), self.slots().len()),
    {
        let n = self.slots.len();
        let mut max_depth: u32 = 1;
        let mut i: usize = 0;
        while i < n
            invariant
                n == self.slots@.len(),
                self.wf(),
                i <= n,
                max_depth == slots_depth(self.slots@, i as nat),
            decreases n - i,
        {
            if let Some(q) = &self.slots[i].1 {
                assert(self.slots@[i as int].1 matches Some(x) && x.wf());
                let d = q.depth();
                if d > max_depth {
                    max_depth = d;
                }
            }
            i = i + 1;
        }
        max_depth
    }

    /// Validates the present root queries in slot order and reports the first failure.
    pub fn validate_subqueries(&self) -> (r: MoongqlResult<()>)
        requires
            self.wf(),
        ensures
            match slots_validation(self.slots(), 0) {
                None => r is Ok,
                Some(detail) => r matches Err(MoongqlError::ValidationError(m)) && m@ == detail,
            },
    {
        let n = self.slots.len();
        let mut i: usize = 0;
        while i < n
            invariant
                n == self.slots@.len(),
                self.wf(),
                i <= n,
                slots_validation(self.slots@, 0) == slots_validation(self.slots@, i as nat),
            decreases n - i,
        {
            if let Some(q) = &self.slots[i].1 {
                assert(self.slots@[i as int].1 matches Some(x) && x.wf());
                match q.validate_args() {
                    Err(e) => {
                        return Err(e);
                    },
                    Ok(()) => {},
                }
            }
            i = i + 1;
        }
        Ok(())
    }

    /// Compiles every present root query and merges declarations and variables, the extra
    /// variables last (they win on shared names).
    pub fn payload_details_exec(&self) -> (r: (Vec<String>, Vec<String>, Variables))
        requires
            self.wf(),
        ensures
            (texts(r.0@), texts(r.1@), r.2@) == self.payload_details(),
    {
        let n = self.slots.len();
        let mut roots: Vec<String> = Vec::new();
        let mut all_decls: Vec<String> = Vec::new();
        let mut all_vars = Variables::new();
        let mut i: usize = 0;
        while i < n
            invariant
                n == self.slots@.len(),
                self.wf(),
                i <= n,
                texts(roots@) == slots_roots(self.slots@, i as nat, self.use_variables),
                texts(all_decls@) == slots_decls(self.slots@, i as nat, self.use_variables),
                all_vars@ == slots_vars(self.slots@, i as nat, self.use_variables),
            decreases n - i,
        {
            if let Some(q) = &self.slots[i].1 {
                assert(self.slots@[i as int].1 matches Some(x) && x.wf());
                let (part, mut decls, vars) = q.build_query_parts(self.use_variables);
                let ghost r_before = texts(roots@);
                let ghost d_before = texts(all_decls@);
                let ghost d_part = texts(decls@);
                let ghost p_view = part@;
                roots.push(part);
                all_decls.append(&mut decls);
                all_vars.extend(&vars);
                assert(texts(roots@) =~= r_before.push(p_view));
                assert(texts(all_decls@) =~= d_before + d_part);
            }
            i = i + 1;
        }
        if let Some(c) = &self.custom_variables {
            all_vars.extend(c);
        }
        (roots, all_decls, all_vars)
    }

    /// Compiles the final document and its variables.
    pub fn build_query(&self) -> (r: String)
        requires
            self.wf(),
        ensures
            r@ == composite_document(self.payload_details().0, self.payload_details().1),
    {
        let (q, _) = self.build_payload_parts();
        q
    }
}

impl<P: ArgPredicate> GqlInspectable for CompositeQuery<P> {
    open spec fn spec_complexity(&self) -> nat {
        slots_complexity(self.slots(), self.slots().len())
    }

    open spec fn spec_depth(&self) -> nat {
        slots_depth(self.slots(), self.slots().len())
    }

    open spec fn spec_max_complexity(&self) -> Option<u32> {
        self.effective_max_complexity()
    }

    open spec fn spec_max_depth(&self) -> Option<u32> {
        self.effective_max_depth()
    }

    open spec fn spec_inspectable(&self) -> bool {
        self.wf()
    }

    fn complexity(&self) -> (r: u32) {
        CompositeQuery::complexity(self)
    }

    fn depth(&self) -> (r: u32) {
        CompositeQuery::depth(self)
    }

    fn max_complexity(&self) -> (r: Option<u32>) {
        CompositeQuery::max_complexity(self)
    }

    fn max_depth(&self) -> (r: Option<u32>) {
        CompositeQuery::max_depth(self)
    }
}

impl<P: ArgPredicate> GqlValidatable for CompositeQuery<P> {
    open spec fn spec_validation(&self) -> Option<Seq<char>> {
        slots_validation(self.slots(), 0)
    }

    open spec fn spec_validatable(&self) -> bool {
        self.wf()
    }

    fn validate_args(&self) -> (r: MoongqlResult<()>) {
        self.validate_subqueries()
    }
}

impl<P: ArgPredicate> CompositeQueryDocument for CompositeQuery<P> {
    open spec fn spec_payload_details(&self) -> (Seq<Seq<char>>, Seq<Seq<char>>, Map<Seq<char>, VarModel>) {
        self.payload_details()
    }

    open spec fn spec_uses_variables(&self) -> bool {
        self.uses_variables()
    }

    open spec fn spec_composable(&self) -> bool {
        self.wf()
    }

    fn use_variables(&mut self, enable: bool) {
        self.set_use_variables(enable);
    }

    fn build_payload_details(&self) -> (r: (Vec<String>, Vec<String>, Variables)) {
        let r = self.payload_details_exec();
        assert(texts(r.0@) == r.0@.map_values(|q: String| q@));
        assert(texts(r.1@) == r.1@.map_values(|d: String| d@));
        r
    }
}

proof fn lemma_slots_roots_single<P: ArgPredicate>(slots: Seq<Slot<P>>, n: nat, i: int, use_variables: bool)
    requires
        n <= slots.len(),
        0 <= i < slots.len(),
        slots[i].1 is Some,
        forall|j: int| 0 <= j < slots.len() && j != i ==> (#[trigger] slots[j].1) is None,
    ensures
        n <= i ==> slots_roots(slots, n, use_variables) == Seq::<Seq<char>>::empty(),
        n > i ==> slots_roots(slots, n, use_variables) == seq![slots[i].1->0.spec_query_parts(use_variables).0],
    decreases n,
{
    if n > 0 {
        lemma_slots_roots_single(slots, (n - 1) as nat, i, use_variables);
        assert(slots[n - 1].1 is None || n - 1 == i);
        if n - 1 == i {
            assert(Seq::<Seq<char>>::empty().push(slots[i].1->0.spec_query_parts(use_variables).0)
                =~= seq![slots[i].1->0.spec_query_parts(use_variables).0]);
        }
    }
}

proof fn lemma_slots_decls_inline<P: ArgPredicate>(slots: Seq<Slot<P>>, n: nat)
    requires
        n <= slots.len(),
    ensures
        slots_decls(slots, n, false) == Seq::<Seq<char>>::empty(),
        slots_vars(slots, n, false) == Map::<Seq<char>, VarModel>::empty(),
    decreases n,
{
    if n > 0 {
        lemma_slots_decls_inline(slots, (n - 1) as nat);
        if let Some(q) = slots[n - 1].1 {
            assert(slots_decls(slots, (n - 1) as nat, false) + q.spec_query_parts(false).1 =~= Seq::<Seq<char>>::empty());
            assert(Map::<Seq<char>, VarModel>::empty().union_prefer_right(q.spec_query_parts(false).2)
                =~= Map::<Seq<char>, VarModel>::empty());
        }
    }
}

/// Law (a composite generalises a single query): a composite holding one root query, compiled
/// without variables and without extra variables, is exactly that query's own inline document
/// and carries no variables.
pub proof fn law_single_query_composite_is_inline<P: ArgPredicate>(c: &CompositeQuery<P>, i: int)
    requires
        c.wf(),
        0 <= i < c.slots().len(),
        c.slots()[i].1 is Some,
        forall|j: int| 0 <= j < c.slots().len() && j != i ==> (#[trigger] c.slots()[j].1) is None,
        !c.uses_variables(),
        c.custom_variables() is None,
    ensures
        composite_document(c.payload_details().0, c.payload_details().1)
            == inline_document(c.slots()[i].1->0.spec_query_parts(false).0),
        c.payload_details().2.len() == 0,
{
    let slots = c.slots();
    let n = slots.len();
    lemma_slots_roots_single(slots, n, i, false);
    lemma_slots_decls_inline(slots, n);
    let body = slots[i].1->0.spec_query_parts(false).0;
    assert(join(seq![body], " "@) == body);
    assert(Map::<Seq<char>, VarModel>::empty().len() == 0);
}

proof fn lemma_slots_limits<P: ArgPredicate>(slots: Seq<Slot<P>>, i: nat)
    ensures
        forall|j: int| i <= j < slots.len() ==> ((#[trigger] slots[j].1) matches Some(q) ==> (q.spec_max_complexity() matches Some(x)
            ==> slots_max_complexity(slots, i) matches Some(y) && y >= x)),
        forall|j: int| i <= j < slots.len() ==> ((#[trigger] slots[j].1) matches Some(q) ==> (q.spec_max_depth() matches Some(x)
            ==> slots_max_depth(slots, i) matches Some(y) && y >= x)),
        slots_max_complexity(slots, i) matches Some(y) ==> exists|j: int| i <= j < slots.len()
            && (#[trigger] slots[j].1) is Some && slots[j].1->0.spec_max_complexity() == Some(y),
        slots_max_depth(slots, i) matches Some(y) ==> exists|j: int| i <= j < slots.len()
            && (#[trigger] slots[j].1) is Some && slots[j].1->0.spec_max_depth() == Some(y),
    decreases slots.len() - i,
{
    if i < slots.len() {
        lemma_slots_limits(slots, i + 1);
        assert(slots[i as int].1 == slots[i as int].1);
    }
}

/// Law (a composite's limit is the largest one its queries set): without its own limit, a
/// composite's complexity (and depth) limit is at least every limit a present query sets, is
/// one of them, and is `None` exactly when no present query sets one. Its own limit, when set,
/// is the one in force.
pub proof fn law_composite_limit_is_largest<P: ArgPredicate>(c: &CompositeQuery<P>)
    ensures
        c.complexity_override() matches Some(m) ==> c.effective_max_complexity() == Some(m),
        c.depth_override() matches Some(m) ==> c.effective_max_depth() == Some(m),
        c.complexity_override() is None ==> forall|j: int| 0 <= j < c.slots().len() ==> ((#[trigger] c.slots()[j].1) matches Some(q)
            ==> (q.spec_max_complexity() matches Some(x) ==> c.effective_max_complexity() matches Some(y) && y >= x)),
        c.depth_override() is None ==> forall|j: int| 0 <= j < c.slots().len() ==> ((#[trigger] c.slots()[j].1) matches Some(q)
            ==> (q.spec_max_depth() matches Some(x) ==> c.effective_max_depth() matches Some(y) && y >= x)),
        c.complexity_override() is None ==> (c.effective_max_complexity() matches Some(y) ==> exists|j: int| 0 <= j < c.slots().len()
            && (#[trigger] c.slots()[j].1) is Some && c.slots()[j].1->0.spec_max_complexity() == Some(y)),
        c.depth_override() is None ==> (c.effective_max_depth() matches Some(y) ==> exists|j: int| 0 <= j < c.slots().len()
            && (#[trigger] c.slots()[j].1) is Some && c.slots()[j].1->0.spec_max_depth() == Some(y)),
{
    lemma_slots_limits(c.slots(), 0);
}

proof fn lemma_slots_measures<P: ArgPredicate>(slots: Seq<Slot<P>>, n: nat)
    requires
        n <= slots.len(),
    ensures
        forall|j: int| 0 <= j < n ==> ((#[trigger] slots[j].1) matches Some(q) ==> slots_complexity(slots, n) >= q.spec_complexity()
            && slots_depth(slots, n) >= q.spec_depth()),
        slots_depth(slots, n) >= 1,
        slots_depth(slots, n) == 1 || exists|j: int| 0 <= j < n && (#[trigger] slots[j].1) is Some
            && slots_depth(slots, n) == slots[j].1->0.spec_depth(),
        (forall|j: int| 0 <= j < n ==> (#[trigger] slots[j].1) is None) ==> slots_complexity(slots, n) == 0 && slots_depth(slots, n) == 1,
    decreases n,
{
    if n > 0 {
        lemma_slots_measures(slots, (n - 1) as nat);
        assert(slots[n - 1].1 == slots[n - 1].1);
    }
}

proof fn lemma_slots_complexity_add<P: ArgPredicate>(slots: Seq<Slot<P>>, i: int, s: Slot<P>, n: nat)
    requires
        n <= slots.len(),
        0 <= i < slots.len(),
        slots[i].1 is None,
    ensures
        slots_complexity(slots.update(i, s), n) == slots_complexity(slots, n) + if i < n {
            match s.1 {
                Some(q) => q.spec_complexity(),
                None => 0,
            }
        } else {
            0
        },
    decreases n,
{
    if n > 0 {
        lemma_slots_complexity_add(slots, i, s, (n - 1) as nat);
    }
}

/// Law (a composite weighs the sum of its queries, and is as deep as its deepest): its
/// complexity is at least that of every present query, and filling an empty slot with a query
/// adds exactly that query's complexity; its depth is at least 1 and at least that of every
/// present query, and is 1 or one of them; with no query present it weighs 0 and is 1 deep.
pub proof fn law_composite_sum_and_depth<P: ArgPredicate>(c: &CompositeQuery<P>, i: int, q: QueryBuilder<P>)
    requires
        0 <= i < c.slots().len(),
        c.slots()[i].1 is None,
    ensures
        forall|j: int| 0 <= j < c.slots().len() ==> ((#[trigger] c.slots()[j].1) matches Some(p)
            ==> c.spec_complexity() >= p.spec_complexity() && c.spec_depth() >= p.spec_depth()),
        c.spec_depth() >= 1,
        c.spec_depth() == 1 || exists|j: int| 0 <= j < c.slots().len() && (#[trigger] c.slots()[j].1) is Some
            && c.spec_depth() == c.slots()[j].1->0.spec_depth(),
        (forall|j: int| 0 <= j < c.slots().len() ==> (#[trigger] c.slots()[j].1) is None) ==> c.spec_complexity() == 0 && c.spec_depth() == 1,
        slots_complexity(c.slots().update(i, (c.slots()[i].0, Some(q))), c.slots().len())
            == c.spec_complexity() + q.spec_complexity(),
{
    lemma_slots_measures(c.slots(), c.slots().len());
    lemma_slots_complexity_add(c.slots(), i, (c.slots()[i].0, Some(q)), c.slots().len());
}

} // verus!
