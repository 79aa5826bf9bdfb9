//! Request batching: independent composite documents, each with its own budget,
//! compiled into an ordered list of payloads.
use vstd::prelude::*;
use crate::composite::{
    CompositeQuery, larger, larger_limit, lemma_larger_limit_assoc, lemma_slots_depth_bounded,
};
use crate::error::{MoongqlError, MoongqlResult};
use crate::payload::{GraphQLPayload, VarModel};
use crate::traits::{CompositeQueryDocument, GqlInspectable, GqlValidatable, composite_document};
use crate::validation::ArgPredicate;

verus! {

/// Largest complexity among the first `n` documents (0 when there are none).
pub open spec fn docs_complexity<P: ArgPredicate>(docs: Seq<CompositeQuery<P>>, n: nat) -> nat
    decreases n,
{
    if n == 0 {
        0
    } else {
        let prev = docs_complexity(docs, (n - 1) as nat);
        let c = docs[n - 1].spec_complexity();
        if c > prev { c } else { prev }
    }
}

/// Largest depth among the first `n` documents (0 when there are none).
pub open spec fn docs_depth<P: ArgPredicate>(docs: Seq<CompositeQuery<P>>, n: nat) -> nat
    decreases n,
{
    if n == 0 {
        0
    } else {
        let prev = docs_depth(docs, (n - 1) as nat);
        let d = docs[n - 1].spec_depth();
        if d > prev { d } else { prev }
    }
}

/// Largest effective complexity limit among the documents, from index `i` on.
pub open spec fn docs_max_complexity<P: ArgPredicate>(docs: Seq<CompositeQuery<P>>, i: nat) -> Option<u32>
    decreases docs.len() - i,
{
    if i >= docs.len() {
        None
    } else {
        larger_limit(docs[i as int].spec_max_complexity(), docs_max_complexity(docs, i + 1))
    }
}

/// Largest effective depth limit among the documents, from index `i` on.
pub open spec fn docs_max_depth<P: ArgPredicate>(docs: Seq<CompositeQuery<P>>, i: nat) -> Option<u32>
    decreases docs.len() - i,
{
    if i >= docs.len() {
        None
    } else {
        larger_limit(docs[i as int].spec_max_depth(), docs_max_depth(docs, i + 1))
    }
}

/// First validation failure among the documents, from index `i` on.
pub open spec fn docs_validation<P: ArgPredicate>(docs: Seq<CompositeQuery<P>>, i: nat) -> Option<Seq<char>>
    decreases docs.len() - i,
{
    if i >= docs.len() {
        None
    } else {
        match docs[i as int].spec_validation() {
            Some(m) => Some(m),
            None => docs_validation(docs, i + 1),
        }
    }
}

/// `payload` is the compiled form of document `d`: no operation name, its document text,
/// and its variables (absent when it has none).
pub open spec fn payload_of<P: ArgPredicate>(d: CompositeQuery<P>, payload: GraphQLPayload) -> bool {
    let details = d.spec_payload_details();
    &&& payload.operation_name is None
    &&& payload.query@ == composite_document(details.0, details.1)
    &&& match payload.variables {
        None => details.2.len() == 0,
        Some(v) => v@ == details.2 && v@.len() > 0,
    }
}

/// `d` is `template` with its variable parametrization switched on when `on` holds.
pub open spec fn preset_of<P: ArgPredicate>(template: CompositeQuery<P>, on: bool, d: CompositeQuery<P>) -> bool {
    &&& d.wf()
    &&& d.slots() == template.slots()
    &&& d.fresh_builders() == template.fresh_builders()
    &&& d.complexity_override() == template.complexity_override()
    &&& d.depth_override() == template.depth_override()
    &&& d.uses_variables() == (on || template.uses_variables())
    &&& d.spec_operation_name() == template.spec_operation_name()
    &&& d.custom_variables() == template.custom_variables()
}

/// `d` is `o` with its variable parametrization set to `enable`.
pub open spec fn flag_set<P: ArgPredicate>(o: CompositeQuery<P>, enable: bool, d: CompositeQuery<P>) -> bool {
    &&& d.wf()
    &&& d.slots() == o.slots()
    &&& d.fresh_builders() == o.fresh_builders()
    &&& d.complexity_override() == o.complexity_override()
    &&& d.depth_override() == o.depth_override()
    &&& d.uses_variables() == enable
    &&& d.spec_operation_name() == o.spec_operation_name()
    &&& d.custom_variables() == o.custom_variables()
}

/// A batch of independent composite documents.
#[derive(Debug)]
pub struct BatchDocumentBuilder<P> {
    queries: Vec<CompositeQuery<P>>,
    max_complexity_override: Option<u32>,
    max_depth_override: Option<u32>,
    use_variables: bool,
}

impl<P: ArgPredicate> BatchDocumentBuilder<P> {
    /// Every document is internally consistent.
    pub closed spec fn wf(&self) -> bool {
        forall|i: int| 0 <= i < self.queries@.len() ==> #[trigger] self.queries@[i].wf()
    }

    /// The documents, in registration order.
    pub closed spec fn queries(&self) -> Seq<CompositeQuery<P>> {
        self.queries@
    }

    /// Local complexity limit.
    pub closed spec fn complexity_override(&self) -> Option<u32> {
        self.max_complexity_override
    }

    /// Local depth limit.
    pub closed spec fn depth_override(&self) -> Option<u32> {
        self.max_depth_override
    }

    /// Whether documents registered from now on get variable parametrization.
    pub closed spec fn uses_variables(&self) -> bool {
        self.use_variables
    }

    /// An empty batch.
    pub fn new() -> (r: Self)
        ensures
            r.wf(),
            r.queries() == Seq::<CompositeQuery<P>>::empty(),
            r.complexity_override() is None,
            r.depth_override() is None,
            !r.uses_variables(),
    {
        BatchDocumentBuilder { queries: Vec::new(), max_complexity_override: None, max_depth_override: None, use_variables: false }
    }

    /// Enables or disables variable parametrization for every document: those already held and
    /// those registered afterwards.
    pub fn use_variables(&mut self, enable: bool)
        requires
            old(self).wf(),
        ensures
            final(self).wf(),
            final(self).queries().len() == old(self).queries().len(),
            forall|i: int| 0 <= i < old(self).queries().len()
                ==> flag_set(old(self).queries()[i], enable, #[trigger] final(self).queries()[i]),
            final(self).complexity_override() == old(self).complexity_override(),
            final(self).depth_override() == old(self).depth_override(),
            final(self).uses_variables() == enable,
    {
        let ghost start = self.queries@;
        let mut held: Vec<CompositeQuery<P>> = Vec::new();
        std::mem::swap(&mut held, &mut self.queries);
        let n = held.len();
        let mut done: Vec<CompositeQuery<P>> = Vec::new();
        let mut i: usize = 0;
        while i < n
            invariant
                n == start.len(),
                i <= n,
                held@ == start.skip(i as int),
                done@.len() == i,
                forall|j: int| 0 <= j < start.len() ==> (#[trigger] start[j]).wf(),
                forall|j: int| 0 <= j < i ==> flag_set(start[j], enable, #[trigger] done@[j]),
            decreases n - i,
        {
            let mut d = held.remove(0);
            assert(d == start[i as int]);
            assert(held@ =~= start.skip(i + 1));
            d.set_use_variables(enable);
            done.push(d);
            i = i + 1;
        }
        self.queries = done;
        self.use_variables = enable;
    }

    /// Appends a document built by `configure` from `template`; the template's variable
    /// parametrization is switched on first when the batch has it on, so `configure` sees (and
    /// may still change) that setting.
    pub fn query<F: FnOnce(CompositeQuery<P>) -> CompositeQuery<P>>(&mut self, template: CompositeQuery<P>, configure: F)
        requires
            old(self).wf(),
            template.wf(),
            forall|d: CompositeQuery<P>| d.wf() ==> #[trigger] configure.requires((d,)),
            forall|d: CompositeQuery<P>, r: CompositeQuery<P>| d.wf() && #[trigger] configure.ensures((d,), r) ==> r.wf(),
        ensures
            final(self).wf(),
            final(self).queries().len() == old(self).queries().len() + 1,
            final(self).queries().take(old(self).queries().len() as int) == old(self).queries(),
            exists|d: CompositeQuery<P>| {
                &&& preset_of(template, old(self).uses_variables(), d)
                &&& #[trigger] configure.ensures((d,), final(self).queries().last())
            },
            final(self).complexity_override() == old(self).complexity_override(),
            final(self).depth_override() == old(self).depth_override(),
            final(self).uses_variables() == old(self).uses_variables(),
    {
        let mut doc = template;
        if self.use_variables {
            doc.set_use_variables(true);
        }
        let ghost preset = doc;
        assert(preset.wf());
        let built = configure(doc);
        assert(configure.ensures((preset,), built));
        let ghost before = self.queries@;
        self.queries.push(built);
        assert(self.queries@.take(before.len() as int) =~= before);
        assert(self.queries@.last() == built);
    }

    /// Sets the batch's complexity limit.
    pub fn with_max_complexity(&mut self, max: u32)
        ensures
            final(self).wf() == old(self).wf(),
            final(self).queries() == old(self).queries(),
            final(self).complexity_override() == Some(max),
            final(self).depth_override() == old(self).depth_override(),
            final(self).uses_variables() == old(self).uses_variables(),
    {
        let ghost before = *self;
        self.max_complexity_override = Some(max);
        assert(self.queries@ == before.queries@);
        assert(self.wf() == before.wf());
    }

    /// Sets the batch's depth limit.
    pub fn with_max_depth(&mut self, max: u32)
        ensures
            final(self).wf() == old(self).wf(),
            final(self).queries() == old(self).queries(),
            final(self).complexity_override() == old(self).complexity_override(),
            final(self).depth_override() == Some(max),
            final(self).uses_variables() == old(self).uses_variables(),
    {
        let ghost before = *self;
        self.max_depth_override = Some(max);
        assert(self.queries@ == before.queries@);
        assert(self.wf() == before.wf());
    }

    /// Effective complexity limit: the batch's own, else the largest one a document sets.
    pub open spec fn effective_max_complexity(&self) -> Option<u32> {
        match self.complexity_override() {
            Some(m) => Some(m),
            None => docs_max_complexity(self.queries(), 0),
        }
    }

    /// Effective depth limit: the batch's own, else the largest one a document sets.
    pub open spec fn effective_max_depth(&self) -> Option<u32> {
        match self.depth_override() {
            Some(m) => Some(m),
            None => docs_max_depth(self.queries(), 0),
        }
    }

    /// Whether every document's complexity fits in 32 bits.
    pub open spec fn complexities_fit(&self) -> bool {
        forall|i: int| 0 <= i < self.queries().len() ==> #[trigger] self.queries()[i].spec_complexity() <= u32::MAX
    }

    /// The effective complexity limit.
    pub fn max_complexity(&self) -> (r: Option<u32>)
        requires
            self.wf(),
        ensures
            r == self.effective_max_complexity(),
    {
        if let Some(m) = self.max_complexity_override {
            return Some(m);
        }
        let n = self.queries.len();
        let mut acc: Option<u32> = None;
        let mut i: usize = 0;
        while i < n
            invariant
                n == self.queries@.len(),
                self.wf(),
                self.max_complexity_override is None,
                i <= n,
                docs_max_complexity(self.queries@, 0) == larger_limit(acc, docs_max_complexity(self.queries@, i as nat)),
            decreases n - i,
        {
            assert(self.queries@[i as int].wf());
            let l = self.queries[i].max_complexity();
            proof {
                lemma_larger_limit_assoc(acc, l, docs_max_complexity(self.queries@, (i + 1) as nat));
            }
            acc = larger(acc, l);
            i = i + 1;
        }
        acc
    }

    /// The effective depth limit.
    pub fn max_depth(&self) -> (r: Option<u32>)
        requires
            self.wf(),
        ensures
            r == self.effective_max_depth(),
    {
        if let Some(m) = self.max_depth_override {
            return Some(m);
        }
        let n = self.queries.len();
        let mut acc: Option<u32> = None;
        let mut i: usize = 0;
        while i < n
            invariant
                n == self.queries@.len(),
                self.wf(),
                self.max_depth_override is None,
                i <= n,
                docs_max_depth(self.queries@, 0) == larger_limit(acc, docs_max_depth(self.queries@, i as nat)),
            decreases n - i,
        {
            assert(self.queries@[i as int].wf());
            let l = self.queries[i].max_depth();
            proof {
                lemma_larger_limit_assoc(acc, l, docs_max_depth(self.queries@, (i + 1) as nat));
            }
            acc = larger(acc, l);
            i = i + 1;
        }
        acc
    }

    /// Largest complexity of a single document (each document has its own budget); 0 when empty.
    pub fn complexity(&self) -> (r: u32)
        requires
            self.wf(),
            self.complexities_fit(),
        ensures
            r == docs_complexity(self.queries(), self.queries().len()),
    {
        let n = self.queries.len();
        let mut best: u32 = 0;
        let mut i: usize = 0;
        while i < n
            invariant
                n == self.queries@.len(),
                self.wf(),
                self.complexities_fit(),
                i <= n,
                best == docs_complexity(self.queries@, i as nat),
            decreases n - i,
        {
            assert(self.queries@[i as int].wf());
            assert(self.queries()[i as int].spec_complexity() <= u32::MAX);
            let c = self.queries[i].complexity();
            if c > best {
                best = c;
            }
            i = i + 1;
        }
        best
    }

    /// Largest depth of a single document; 1 when empty.
    pub fn depth(&self) -> (r: u32)
        requires
            self.wf(),
        ensures
            r == (if self.queries().len() == 0 { 1 } else { docs_depth(self.queries(), self.queries().len()) }),
    {
        let n = self.queries.len();
        if n == 0 {
            return 1;
        }
        let mut best: u32 = 0;
        let mut i: usize = 0;
        while i < n
            invariant
                n == self.queries@.len(),
                self.wf(),
                i <= n,
                best == docs_depth(self.queries@, i as nat),
            decreases n - i,
        {
            assert(self.queries@[i as int].wf());
            let d = self.queries[i].depth();
            if d > best {
                best = d;
            }
            i = i + 1;
        }
        best
    }

    /// Number of documents.
    pub fn len(&self) -> (r: usize)
        ensures
            r == self.queries().len(),
    {
        self.queries.len()
    }

    /// Whether the batch holds no document.
    pub fn is_empty(&self) -> (r: bool)
        ensures
            r == (self.queries().len() == 0),
    {
        self.queries.len() == 0
    }

    /// Compiles every document into a payload, in registration order.
    pub fn build_payloads(&self) -> (r: Vec<GraphQLPayload>)
        requires
            self.wf(),
        ensures
            r@.len() == self.queries().len(),
            forall|i: int| 0 <= i < r@.len() ==> payload_of(self.queries()[i], #[trigger] r@[i]),
    {
        let n = self.queries.len();
        let mut out: Vec<GraphQLPayload> = Vec::new();
        let mut i: usize = 0;
        while i < n
            invariant
                n == self.queries@.len(),
                self.wf(),
                i <= n,
                out@.len() == i,
                forall|j: int| 0 <= j < i ==> payload_of(self.queries@[j], #[trigger] out@[j]),
            decreases n - i,
        {
            assert(self.queries@[i as int].wf());
            let (query, variables) = self.queries[i].build_payload_parts();
            out.push(GraphQLPayload { operation_name: None, query, variables });
            i = i + 1;
        }
        out
    }

    /// Same as [`Self::build_payloads`].
    pub fn _build_payloads(&self) -> (r: Vec<GraphQLPayload>)
        requires
            self.wf(),
        ensures
            r@.len() == self.queries().len(),
            forall|i: int| 0 <= i < r@.len() ==> payload_of(self.queries()[i], #[trigger] r@[i]),
    {
        self.build_payloads()
    }
}

impl<P: ArgPredicate> GqlInspectable for BatchDocumentBuilder<P> {
    open spec fn spec_complexity(&self) -> nat {
        docs_complexity(self.queries(), self.queries().len())
    }

    open spec fn spec_depth(&self) -> nat {
        if self.queries().len() == 0 {
            1
        } else {
            docs_depth(self.queries(), self.queries().len())
        }
    }

    open spec fn spec_max_complexity(&self) -> Option<u32> {
        self.effective_max_complexity()
    }

    open spec fn spec_max_depth(&self) -> Option<u32> {
        self.effective_max_depth()
    }

    open spec fn spec_inspectable(&self) -> bool {
        self.wf() && self.complexities_fit()
    }

    fn complexity(&self) -> (r: u32) {
        BatchDocumentBuilder::complexity(self)
    }

    fn depth(&self) -> (r: u32) {
        BatchDocumentBuilder::depth(self)
    }

    fn max_complexity(&self) -> (r: Option<u32>) {
        BatchDocumentBuilder::max_complexity(self)
    }

    fn max_depth(&self) -> (r: Option<u32>) {
        BatchDocumentBuilder::max_depth(self)
    }
}

impl<P: ArgPredicate> GqlValidatable for BatchDocumentBuilder<P> {
    open spec fn spec_validation(&self) -> Option<Seq<char>> {
        docs_validation(self.queries(), 0)
    }

    open spec fn spec_validatable(&self) -> bool {
        self.wf()
    }

    fn validate_args(&self) -> (r: MoongqlResult<()>) {
        let n = self.queries.len();
        let mut i: usize = 0;
        while i < n
            invariant
                n == self.queries@.len(),
                self.wf(),
                i <= n,
                docs_validation(self.queries@, 0) == docs_validation(self.queries@, i as nat),
            decreases n - i,
        {
            assert(self.queries@[i as int].wf());
            match self.queries[i].validate_args() {
                Err(e) => {
                    return Err(e);
                },
                Ok(()) => {},
            }
            i = i + 1;
        }
        Ok(())
    }
}

/// Gathers the outcomes of the batch's requests, in request order: all values when every
/// request succeeded, else the first error in request order.
pub fn collect_results<T, E>(results: Vec<Result<T, E>>) -> (r: Result<Vec<T>, E>)
    ensures
        r matches Ok(values) ==> values@.len() == results@.len()
            && forall|i: int| 0 <= i < results@.len() ==> #[trigger] results@[i] == Ok::<T, E>(values@[i]),
        r matches Err(e) ==> exists|k: int| 0 <= k < results@.len()
            && #[trigger] results@[k] == Err::<T, E>(e)
            && forall|j: int| 0 <= j < k ==> #[trigger] results@[j] is Ok,
{
    let ghost all = results@;
    let mut responses: Vec<T> = Vec::new();
    let mut rest = results;
    let n = rest.len();
    let mut i: usize = 0;
    while i < n
        invariant
            n == all.len(),
            all == results@,
            i <= n,
            rest@ == all.skip(i as int),
            responses@.len() == i,
            forall|j: int| 0 <= j < i ==> #[trigger] all[j] == Ok::<T, E>(responses@[j]),
        decreases n - i,
    {
        let next = rest.remove(0);
        assert(next == all[i as int]);
        assert(rest@ =~= all.skip(i + 1));
        match next {
            Ok(v) => {
                responses.push(v);
            },
            Err(e) => {
                assert(forall|j: int| 0 <= j < i ==> #[trigger] all[j] is Ok);
                assert(all[i as int] == Err::<T, E>(e));
                assert(exists|k: int| 0 <= k < all.len()
                    && #[trigger] all[k] == Err::<T, E>(e)
                    && forall|j: int| 0 <= j < k ==> #[trigger] all[j] is Ok);
                return Err(e);
            },
        }
        i = i + 1;
    }
    Ok(responses)
}

proof fn lemma_docs_prefix<P: ArgPredicate>(a: Seq<CompositeQuery<P>>, b: Seq<CompositeQuery<P>>, n: nat)
    requires
        n <= a.len(),
        n <= b.len(),
        forall|i: int| 0 <= i < n ==> #[trigger] a[i] == b[i],
    ensures
        docs_complexity(a, n) == docs_complexity(b, n),
        docs_depth(a, n) == docs_depth(b, n),
    decreases n,
{
    if n > 0 {
        lemma_docs_prefix(a, b, (n - 1) as nat);
        assert(a[n - 1] == b[n - 1]);
    }
}

/// Law: registering a document never lowers the batch's complexity or its depth.
pub proof fn law_query_never_lowers_budget<P: ArgPredicate>(before: &BatchDocumentBuilder<P>, after: &BatchDocumentBuilder<P>)
    requires
        after.queries().len() == before.queries().len() + 1,
        after.queries().take(before.queries().len() as int) == before.queries(),
    ensures
        after.spec_complexity() >= before.spec_complexity(),
        after.spec_depth() >= before.spec_depth(),
{
    let a = after.queries();
    let b = before.queries();
    let n = b.len();
    assert forall|i: int| 0 <= i < n implies #[trigger] a[i] == b[i] by {
        assert(a.take(n as int)[i] == a[i]);
    }
    lemma_docs_prefix(a, b, n);
    lemma_slots_depth_bounded(a[n as int].slots(), a[n as int].slots().len());
}

/// A call made on a batch, as far as the number of its documents is concerned.
pub enum BatchCall {
    /// `query`: registers one document.
    Query,
    /// `use_variables`.
    UseVariables(bool),
    /// `with_max_complexity`.
    WithMaxComplexity(u32),
    /// `with_max_depth`.
    WithMaxDepth(u32),
    /// A method that only reads the batch (`len`, `complexity`, `build_payloads`, ...).
    Read,
}

/// What the contract of `call` guarantees of the documents of `after`, the batch it leaves
/// behind, given `before`, the batch it was made on.
pub open spec fn call_effect<P: ArgPredicate>(before: BatchDocumentBuilder<P>, call: BatchCall, after: BatchDocumentBuilder<P>) -> bool {
    match call {
        BatchCall::Query => {
            &&& after.queries().len() == before.queries().len() + 1
            &&& after.queries().take(before.queries().len() as int) == before.queries()
        },
        BatchCall::UseVariables(_) => after.queries().len() == before.queries().len(),
        BatchCall::WithMaxComplexity(_) | BatchCall::WithMaxDepth(_) => after.queries() == before.queries(),
        BatchCall::Read => after == before,
    }
}

/// Number of `Query` calls among the first `n` calls.
pub open spec fn query_calls(calls: Seq<BatchCall>, n: nat) -> nat
    decreases n,
{
    if n == 0 {
        0
    } else {
        query_calls(calls, (n - 1) as nat) + if calls[n - 1] is Query { 1nat } else { 0nat }
    }
}

/// Law (only `query` adds a document, and nothing removes one): starting from an empty batch
/// (as `new` gives), after any sequence of calls the batch holds exactly as many documents as
/// there were `query` calls. `batches[i + 1]` is the batch that call `calls[i]` leaves behind.
pub proof fn law_len_counts_query_calls<P: ArgPredicate>(batches: Seq<BatchDocumentBuilder<P>>, calls: Seq<BatchCall>)
    requires
        batches.len() == calls.len() + 1,
        batches[0].queries().len() == 0,
        forall|i: int| 0 <= i < calls.len() ==> call_effect(batches[i], calls[i], #[trigger] batches[i + 1]),
    ensures
        batches.last().queries().len() == query_calls(calls, calls.len()),
    decreases calls.len(),
{
    if calls.len() > 0 {
        let n = calls.len() - 1;
        law_len_counts_query_calls(batches.take(n + 1), calls.take(n));
        assert(batches.take(n + 1).last() == batches[n]);
        lemma_query_calls_prefix(calls, n, n as nat);
        assert(calls.take(n).len() == n);
        assert(batches.last() == batches[n + 1]);
        assert(call_effect(batches[n], calls[n], batches[n + 1]));
        assert(query_calls(calls, (n + 1) as nat) == query_calls(calls, n as nat) + if calls[n] is Query { 1nat } else { 0nat });
    } else {
        assert(batches.last() == batches[0]);
    }
}

proof fn lemma_query_calls_prefix(calls: Seq<BatchCall>, n: int, k: nat)
    requires
        0 <= n <= calls.len(),
        k <= n,
    ensures
        query_calls(calls.take(n), k) == query_calls(calls, k),
    decreases k,
{
    if k > 0 {
        lemma_query_calls_prefix(calls, n, (k - 1) as nat);
        assert(calls.take(n)[k - 1] == calls[k - 1]);
    }
}

/// Law (a batch weighs as its heaviest document): the batch's complexity is at least that of
/// every document it holds and equals one of them (0 when it holds none); likewise its depth
/// is at least that of every document and equals one of them (1 when it holds none).
pub proof fn law_batch_budget_is_heaviest_document<P: ArgPredicate>(b: &BatchDocumentBuilder<P>)
    ensures
        forall|i: int| 0 <= i < b.queries().len() ==> b.spec_complexity() >= (#[trigger] b.queries()[i]).spec_complexity(),
        forall|i: int| 0 <= i < b.queries().len() ==> b.spec_depth() >= (#[trigger] b.queries()[i]).spec_depth(),
        b.queries().len() == 0 ==> b.spec_complexity() == 0 && b.spec_depth() == 1,
        b.queries().len() > 0 ==> exists|i: int| 0 <= i < b.queries().len() && b.spec_complexity() == (#[trigger] b.queries()[i]).spec_complexity(),
        b.queries().len() > 0 ==> exists|i: int| 0 <= i < b.queries().len() && b.spec_depth() == (#[trigger] b.queries()[i]).spec_depth(),
{
    lemma_docs_max(b.queries(), b.queries().len());
}

proof fn lemma_docs_max<P: ArgPredicate>(docs: Seq<CompositeQuery<P>>, n: nat)
    requires
        n <= docs.len(),
    ensures
        forall|i: int| 0 <= i < n ==> docs_complexity(docs, n) >= (#[trigger] docs[i]).spec_complexity(),
        forall|i: int| 0 <= i < n ==> docs_depth(docs, n) >= (#[trigger] docs[i]).spec_depth(),
        n == 0 ==> docs_complexity(docs, n) == 0 && docs_depth(docs, n) == 0,
        n > 0 ==> exists|i: int| 0 <= i < n && docs_complexity(docs, n) == (#[trigger] docs[i]).spec_complexity(),
        n > 0 ==> exists|i: int| 0 <= i < n && docs_depth(docs, n) == (#[trigger] docs[i]).spec_depth(),
    decreases n,
{
    if n > 0 {
        lemma_docs_max(docs, (n - 1) as nat);
        let k = n - 1;
        if n == 1 {
            assert(docs_complexity(docs, n) == docs[0].spec_complexity());
            assert(docs_depth(docs, n) == docs[0].spec_depth());
        } else {
            let c = docs_complexity(docs, n);
            let d = docs_depth(docs, n);
            if c != docs[k].spec_complexity() {
                let j = choose|j: int| 0 <= j < k && docs_complexity(docs, k as nat) == (#[trigger] docs[j]).spec_complexity();
                assert(c == docs[j].spec_complexity());
            } else {
                assert(docs[k] == docs[k]);
            }
            if d != docs[k].spec_depth() {
                let j = choose|j: int| 0 <= j < k && docs_depth(docs, k as nat) == (#[trigger] docs[j]).spec_depth();
                assert(d == docs[j].spec_depth());
            } else {
                assert(docs[k] == docs[k]);
            }
        }
    }
}

proof fn lemma_docs_limits<P: ArgPredicate>(docs: Seq<CompositeQuery<P>>, i: nat)
    ensures
        forall|j: int| i <= j < docs.len() ==> ((#[trigger] docs[j]).spec_max_complexity() matches Some(x)
            ==> docs_max_complexity(docs, i) matches Some(y) && y >= x),
        forall|j: int| i <= j < docs.len() ==> ((#[trigger] docs[j]).spec_max_depth() matches Some(x)
            ==> docs_max_depth(docs, i) matches Some(y) && y >= x),
        docs_max_complexity(docs, i) matches Some(y) ==> exists|j: int| i <= j < docs.len()
            && (#[trigger] docs[j]).spec_max_complexity() == Some(y),
        docs_max_depth(docs, i) matches Some(y) ==> exists|j: int| i <= j < docs.len()
            && (#[trigger] docs[j]).spec_max_depth() == Some(y),
    decreases docs.len() - i,
{
    if i < docs.len() {
        lemma_docs_limits(docs, i + 1);
        assert(docs[i as int] == docs[i as int]);
    }
}

/// Law (a batch's limit is the largest one its documents set): without its own limit, the
/// batch's complexity (and depth) limit is at least every document's limit, is one of them, and
/// is `None` exactly when no document sets one. Its own limit, when set, is the one in force.
pub proof fn law_batch_limit_is_largest<P: ArgPredicate>(b: &BatchDocumentBuilder<P>)
    ensures
        b.complexity_override() matches Some(m) ==> b.effective_max_complexity() == Some(m),
        b.depth_override() matches Some(m) ==> b.effective_max_depth() == Some(m),
        b.complexity_override() is None ==> forall|j: int| 0 <= j < b.queries().len()
            ==> ((#[trigger] b.queries()[j]).spec_max_complexity() matches Some(x) ==> b.effective_max_complexity() matches Some(y) && y >= x),
        b.depth_override() is None ==> forall|j: int| 0 <= j < b.queries().len()
            ==> ((#[trigger] b.queries()[j]).spec_max_depth() matches Some(x) ==> b.effective_max_depth() matches Some(y) && y >= x),
        b.complexity_override() is None ==> (b.effective_max_complexity() matches Some(y) ==> exists|j: int|
            0 <= j < b.queries().len() && (#[trigger] b.queries()[j]).spec_max_complexity() == Some(y)),
        b.depth_override() is None ==> (b.effective_max_depth() matches Some(y) ==> exists|j: int|
            0 <= j < b.queries().len() && (#[trigger] b.queries()[j]).spec_max_depth() == Some(y)),
{
    lemma_docs_limits(b.queries(), 0);
}

} // verus!
