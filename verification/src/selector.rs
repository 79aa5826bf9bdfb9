//! Field selectors: canonical (sorted, duplicate-free) field selection with complexity and
//! depth accounting, driven by a declarative selector schema.
use vstd::prelude::*;
use vstd::string::*;
use crate::i18n::str_texts;
use crate::text::{
    insert_sorted, join, join_strings, lemma_sorted_unique, split_words, str_eq, strictly_sorted,
    texts, words,
};
use crate::traits::BuildableSelector;

verus! {

/// Declaration of one selectable field.
#[derive(Debug, Clone, Copy, PartialEq, Eq)]
pub struct FieldDef {
    /// Field name in the GraphQL schema.
    pub gql_name: &'static str,
    /// Complexity weight of the field (for a nested object: of the object node itself).
    pub complexity: u32,
    /// Whether the field is a nested object selected through a child selector.
    pub nested: bool,
}

impl FieldDef {
    /// A scalar field with the given weight.
    pub fn scalar(gql_name: &'static str, complexity: u32) -> (r: Self)
        ensures
            r == (FieldDef { gql_name, complexity, nested: false }),
    {
        FieldDef { gql_name, complexity, nested: false }
    }

    /// A nested object field with the given node weight.
    pub fn object(gql_name: &'static str, complexity: u32) -> (r: Self)
        ensures
            r == (FieldDef { gql_name, complexity, nested: true }),
    {
        FieldDef { gql_name, complexity, nested: true }
    }
}

/// Declaration of a selector: its default field set, root weight and selectable fields.
#[derive(Debug, Clone, PartialEq, Eq)]
pub struct SelectorSchema {
    /// Whitespace-separated fields rendered when nothing was selected explicitly.
    pub default_fields: &'static str,
    /// Complexity weight of the selector's root node.
    pub default_complexity: u32,
    /// The selectable fields.
    pub fields: Vec<FieldDef>,
}

/// Weight of field `name`: that of its first declaration, or 1 when undeclared.
pub open spec fn field_cost(fields: Seq<FieldDef>, name: Seq<char>) -> nat
    decreases fields.len(),
{
    if fields.len() == 0 {
        1
    } else if fields[0].gql_name@ == name {
        fields[0].complexity as nat
    } else {
        field_cost(fields.drop_first(), name)
    }
}

/// Whether field `name` is declared, and if so whether (first declaration) it is nested.
pub open spec fn field_nested(fields: Seq<FieldDef>, name: Seq<char>) -> Option<bool>
    decreases fields.len(),
{
    if fields.len() == 0 {
        None
    } else if fields[0].gql_name@ == name {
        Some(fields[0].nested)
    } else {
        field_nested(fields.drop_first(), name)
    }
}

/// Summed weight of a list of field names.
pub open spec fn names_cost(fields: Seq<FieldDef>, names: Seq<Seq<char>>) -> nat
    decreases names.len(),
{
    if names.len() == 0 {
        0
    } else {
        names_cost(fields, names.drop_last()) + field_cost(fields, names.last())
    }
}

/// Summed weight of the default field set.
pub open spec fn default_cost(schema: SelectorSchema) -> nat {
    names_cost(schema.fields@, words(schema.default_fields@))
}

/// The selection text of nested field `name` whose child selection renders as `child`.
pub open spec fn nested_entry(name: Seq<char>, child: Seq<char>) -> Seq<char> {
    name + " { "@ + child + " }"@
}

/// Abstract state of a selector.
pub struct SelectionModel {
    /// Field names picked so far, in call order.
    pub picked: Seq<Seq<char>>,
    /// Rendered selections.
    pub selections: Set<Seq<char>>,
    /// Summed complexity of the picked fields.
    pub total: nat,
    /// Nesting depth of the picked fields (at least 1).
    pub depth: nat,
}

/// Whether field `name` may be picked as a scalar (`nested == false`) or an object (`nested == true`).
pub open spec fn can_pick(m: SelectionModel, fields: Seq<FieldDef>, name: Seq<char>, nested: bool) -> bool {
    field_nested(fields, name) == Some(nested) && !m.picked.contains(name)
}

/// State after picking scalar field `name`; unchanged when it cannot be picked.
pub open spec fn pick_scalar(m: SelectionModel, fields: Seq<FieldDef>, name: Seq<char>) -> SelectionModel {
    if can_pick(m, fields, name, false) {
        SelectionModel {
            picked: m.picked.push(name),
            selections: m.selections.insert(name),
            total: m.total + field_cost(fields, name),
            depth: m.depth,
        }
    } else {
        m
    }
}

/// State after picking object field `name` with a child selection rendered as `child_text`,
/// weighing `child_cost` and `child_depth` deep; unchanged when it cannot be picked.
pub open spec fn pick_object(
    m: SelectionModel,
    fields: Seq<FieldDef>,
    name: Seq<char>,
    child_text: Seq<char>,
    child_cost: nat,
    child_depth: nat,
) -> SelectionModel {
    if can_pick(m, fields, name, true) {
        SelectionModel {
            picked: m.picked.push(name),
            selections: m.selections.insert(nested_entry(name, child_text)),
            total: m.total + field_cost(fields, name) + child_cost,
            depth: if m.depth >= 1 + child_depth { m.depth } else { 1 + child_depth },
        }
    } else {
        m
    }
}

/// Looks up field `name`: its weight and whether it is nested, from its first declaration.
pub fn field_lookup(fields: &Vec<FieldDef>, name: &str) -> (r: Option<(u32, bool)>)
    ensures
        r matches Some(p) ==> field_nested(fields@, name@) == Some(p.1) && field_cost(fields@, name@) == p.0,
        r is None ==> field_nested(fields@, name@) is None && field_cost(fields@, name@) == 1,
{
    let n = fields.len();
    let mut i: usize = 0;
    assert(fields@.skip(0) =~= fields@);
    while i < n
        invariant
            n == fields@.len(),
            i <= n,
            field_nested(fields@, name@) == field_nested(fields@.skip(i as int), name@),
            field_cost(fields@, name@) == field_cost(fields@.skip(i as int), name@),
        decreases n - i,
    {
        assert(fields@.skip(i as int).drop_first() =~= fields@.skip(i + 1));
        assert(fields@.skip(i as int)[0] == fields@[i as int]);
        if str_eq(fields[i].gql_name, name) {
            let f = fields[i];
            assert(fields@.skip(i as int).len() > 0);
            assert(field_nested(fields@.skip(i as int), name@) == Some(f.nested));
            assert(field_cost(fields@.skip(i as int), name@) == f.complexity as nat);
            return Some((f.complexity, f.nested));
        }
        i = i + 1;
    }
    None
}

/// Summed weight of the default field set of `schema`.
pub fn default_selection_cost(schema: &SelectorSchema) -> (r: u32)
    requires
        default_cost(*schema) <= u32::MAX,
    ensures
        r == default_cost(*schema),
{
    let ws = split_words(schema.default_fields);
    let ghost names = texts(ws@);
    let n = ws.len();
    let mut total: u32 = 0;
    let mut i: usize = 0;
    while i < n
        invariant
            n == ws@.len(),
            i <= n,
            names == texts(ws@),
            names == words(schema.default_fields@),
            names_cost(schema.fields@, names) <= u32::MAX,
            total == names_cost(schema.fields@, names.take(i as int)),
        decreases n - i,
    {
        proof {
            assert(names.take(i + 1).drop_last() =~= names.take(i as int));
            lemma_names_cost_prefix(schema.fields@, names, i + 1);
        }
        let c = match field_lookup(&schema.fields, ws[i].as_str()) {
            Some((c, _)) => c,
            None => 1,
        };
        total = total + c;
        i = i + 1;
    }
    assert(names.take(n as int) =~= names);
    total
}

/// A field selector built from a [`SelectorSchema`].
#[derive(Debug)]
pub struct Selector {
    schema: SelectorSchema,
    picked: Vec<&'static str>,
    entries: Vec<String>,
    total_complexity: u32,
    total_depth: u32,
}

impl Selector {
    /// Internal consistency: selections kept strictly sorted, depth at least 1,
    /// and some selection exists exactly when some field was picked.
    pub closed spec fn wf(&self) -> bool {
        &&& strictly_sorted(texts(self.entries@))
        &&& self.total_depth >= 1
        &&& (self.picked@.len() == 0) == (self.entries@.len() == 0)
    }

    /// The schema the selector was built from.
    pub closed spec fn schema(&self) -> SelectorSchema {
        self.schema
    }

    /// The abstract state.
    pub closed spec fn model(&self) -> SelectionModel {
        SelectionModel {
            picked: str_texts(self.picked@),
            selections: texts(self.entries@).to_set(),
            total: self.total_complexity as nat,
            depth: self.total_depth as nat,
        }
    }

    /// The selections in canonical (sorted) order.
    pub closed spec fn sorted_selections(&self) -> Seq<Seq<char>> {
        texts(self.entries@)
    }

    /// The canonical order lists every selection once, sorted; it is empty exactly when nothing was picked.
    pub proof fn lemma_canonical(&self)
        requires
            self.wf(),
        ensures
            strictly_sorted(self.sorted_selections()),
            self.sorted_selections().to_set() == self.model().selections,
            self.model().depth >= 1,
            (self.model().picked.len() == 0) == (self.sorted_selections().len() == 0),
            (self.model().picked.len() == 0) == (self.model().selections.len() == 0),
    {
        let s = texts(self.entries@);
        if s.len() == 0 {
            assert(s.to_set() =~= Set::<Seq<char>>::empty());
        } else {
            assert(s.to_set().contains(s[0]));
            assert(s.to_set().len() > 0) by {
                vstd::seq_lib::seq_to_set_is_finite(s);
                if s.to_set().len() == 0 {
                    s.to_set().lemma_len0_is_empty();
                }
            }
        }
        self.lemma_picked_len();
    }

    proof fn lemma_picked_len(&self)
        ensures
            self.model().picked.len() == self.picked@.len(),
    {
    }

    /// A selector of `schema` with nothing picked.
    pub fn new(schema: SelectorSchema) -> (r: Self)
        ensures
            r.wf(),
            r.schema() == schema,
            r.model() == (SelectionModel {
                picked: Seq::empty(),
                selections: Set::empty(),
                total: 0,
                depth: 1,
            }),
    {
        let r = Selector { schema, picked: Vec::new(), entries: Vec::new(), total_complexity: 0, total_depth: 1 };
        assert(str_texts(r.picked@) =~= Seq::<Seq<char>>::empty());
        assert(texts(r.entries@).to_set() =~= Set::<Seq<char>>::empty());
        r
    }

    fn lookup(&self, name: &str) -> (r: Option<(u32, bool)>)
        ensures
            r matches Some(p) ==> field_nested(self.schema.fields@, name@) == Some(p.1) && field_cost(self.schema.fields@, name@) == p.0,
            r is None ==> field_nested(self.schema.fields@, name@) is None && field_cost(self.schema.fields@, name@) == 1,
    {
        field_lookup(&self.schema.fields, name)
    }

    fn is_picked(&self, name: &str) -> (r: bool)
        ensures
            r == self.model().picked.contains(name@),
    {
        let n = self.picked.len();
        let mut i: usize = 0;
        while i < n
            invariant
                n == self.picked@.len(),
                i <= n,
                forall|j: int| 0 <= j < i ==> self.picked@[j]@ != name@,
            decreases n - i,
        {
            if str_eq(self.picked[i], name) {
                assert(self.model().picked[i as int] == name@);
                return true;
            }
            i = i + 1;
        }
        proof {
            if self.model().picked.contains(name@) {
                let j = choose|j: int| 0 <= j < self.model().picked.len() && self.model().picked[j] == name@;
                assert(self.picked@[j]@ == name@);
            }
        }
        false
    }

    /// Weight of field `gql_name`: that of its declaration, or 1 when undeclared.
    pub fn field_default_complexity(&self, gql_name: &str) -> (r: u32)
        ensures
            r == field_cost(self.schema().fields@, gql_name@),
    {
        match self.lookup(gql_name) {
            Some((c, _)) => c,
            None => 1,
        }
    }

    fn add(self, name: &'static str, entry: String, cost: u32, depth: u32) -> (r: Self)
        requires
            self.wf(),
            depth >= 1,
        ensures
            r.wf(),
            r.schema() == self.schema(),
            r.model() == (SelectionModel {
                picked: self.model().picked.push(name@),
                selections: self.model().selections.insert(entry@),
                total: cost as nat,
                depth: depth as nat,
            }),
    {
        let Selector { schema, mut picked, mut entries, total_complexity, total_depth } = self;
        let ghost old_picked = picked@;
        insert_sorted(&mut entries, entry);
        picked.push(name);
        let r = Selector { schema, picked, entries, total_complexity: cost, total_depth: depth };
        assert(str_texts(r.picked@) =~= str_texts(old_picked).push(name@));
        proof {
            if r.entries@.len() == 0 {
                assert(texts(r.entries@).to_set().contains(entry@));
            }
        }
        r
    }

    /// Picks scalar field `gql_name`. A field that is undeclared, declared as an object,
    /// or already picked leaves the selector unchanged.
    pub fn select(self, gql_name: &'static str) -> (r: Self)
        requires
            self.wf(),
            self.model().total + field_cost(self.schema().fields@, gql_name@) <= u32::MAX,
        ensures
            r.wf(),
            r.schema() == self.schema(),
            r.model() == pick_scalar(self.model(), self.schema().fields@, gql_name@),
    {
        match self.lookup(gql_name) {
            Some((cost, false)) => {
                if self.is_picked(gql_name) {
                    self
                } else {
                    let total = self.total_complexity + cost;
                    let depth = self.total_depth;
                    self.add(gql_name, String::from_str(gql_name), total, depth)
                }
            },
            _ => self,
        }
    }

    /// Picks object field `gql_name` with the child selection `child`. A field that is
    /// undeclared, declared as a scalar, or already picked leaves the selector unchanged.
    pub fn select_nested(self, gql_name: &'static str, child: Selector) -> (r: Self)
        requires
            self.wf(),
            child.wf(),
            self.model().total + field_cost(self.schema().fields@, gql_name@) + child.spec_fields_complexity() <= u32::MAX,
            child.spec_depth() + 1 <= u32::MAX,
        ensures
            r.wf(),
            r.schema() == self.schema(),
            r.model() == pick_object(
                self.model(),
                self.schema().fields@,
                gql_name@,
                child.spec_build(),
                child.spec_fields_complexity(),
                child.spec_depth(),
            ),
    {
        match self.lookup(gql_name) {
            Some((cost, true)) => {
                if self.is_picked(gql_name) {
                    self
                } else {
                    let child_text = child.build();
                    let child_cost = child.fields_complexity();
                    let child_depth = child.depth();
                    let mut entry = String::from_str(gql_name);
                    entry.append(" { ");
                    entry.append(child_text.as_str());
                    entry.append(" }");
                    proof {
                        reveal_strlit(" { ");
                        reveal_strlit(" }");
                    }
                    let total = self.total_complexity + cost + child_cost;
                    let depth = if self.total_depth >= 1 + child_depth {
                        self.total_depth
                    } else {
                        1 + child_depth
                    };
                    self.add(gql_name, entry, total, depth)
                }
            },
            _ => self,
        }
    }

    fn default_fields_cost(&self) -> (r: u32)
        requires
            default_cost(self.schema()) <= u32::MAX,
        ensures
            r == default_cost(self.schema()),
    {
        default_selection_cost(&self.schema)
    }
}

proof fn lemma_names_cost_prefix(fields: Seq<FieldDef>, names: Seq<Seq<char>>, k: int)
    requires
        0 <= k <= names.len(),
    ensures
        names_cost(fields, names.take(k)) <= names_cost(fields, names),
    decreases names.len() - k,
{
    if k < names.len() {
        lemma_names_cost_prefix(fields, names, k + 1);
        assert(names.take(k + 1).drop_last() =~= names.take(k));
    } else {
        assert(names.take(k) =~= names);
    }
}

impl BuildableSelector for Selector {
    open spec fn spec_build(&self) -> Seq<char> {
        if self.model().picked.len() == 0 {
            self.schema().default_fields@
        } else {
            join(self.sorted_selections(), " "@)
        }
    }

    open spec fn spec_root_complexity(&self) -> nat {
        self.schema().default_complexity as nat
    }

    open spec fn spec_fields_complexity(&self) -> nat {
        if self.model().picked.len() == 0 {
            default_cost(self.schema())
        } else {
            self.model().total
        }
    }

    open spec fn spec_depth(&self) -> nat {
        if self.model().picked.len() == 0 {
            1
        } else {
            self.model().depth
        }
    }

    open spec fn spec_valid(&self) -> bool {
        self.wf()
    }

    fn build(&self) -> (r: String) {
        proof {
            self.lemma_picked_len();
        }
        if self.picked.len() == 0 {
            String::from_str(self.schema.default_fields)
        } else {
            proof {
                reveal_strlit(" ");
            }
            join_strings(&self.entries, " ")
        }
    }

    fn root_complexity(&self) -> (r: u32) {
        self.schema.default_complexity
    }

    fn fields_complexity(&self) -> (r: u32) {
        proof {
            self.lemma_picked_len();
        }
        if self.picked.len() == 0 {
            self.default_fields_cost()
        } else {
            self.total_complexity
        }
    }

    fn depth(&self) -> (r: u32) {
        proof {
            self.lemma_picked_len();
        }
        if self.picked.len() == 0 {
            1
        } else {
            self.total_depth
        }
    }
}

/// A field selection handed to a nested selector: nothing (`()` or `None`), which stands for
/// the selector's default field set, or an explicit selection.
pub trait IntoSelectorClosure: Sized {
    /// Whether the selection can be evaluated against `schema` without overflow.
    spec fn spec_evaluable(&self, schema: SelectorSchema) -> bool;

    /// Selection text, child fields' complexity and depth of the selection.
    spec fn spec_evaluation(&self, schema: SelectorSchema) -> (Seq<char>, nat, nat);

    /// Evaluates the selection: its text, its child fields' complexity and its depth.
    fn evaluate_selection(self, schema: SelectorSchema) -> (r: (String, u32, u32))
        requires
            self.spec_evaluable(schema),
        ensures
            (r.0@, r.1 as nat, r.2 as nat) == self.spec_evaluation(schema),
    ;
}

/// Text, complexity and depth of the default field set of `schema`.
pub open spec fn default_evaluation(schema: SelectorSchema) -> (Seq<char>, nat, nat) {
    (schema.default_fields@, default_cost(schema), 1)
}

/// Text, child fields' complexity and depth of an explicit selection.
pub open spec fn explicit_evaluation(s: Selector) -> (Seq<char>, nat, nat) {
    (s.spec_build(), s.spec_fields_complexity(), s.spec_depth())
}

/// Whether an explicit selection can be evaluated without overflow.
pub open spec fn explicit_evaluable(s: Selector) -> bool {
    s.wf() && s.spec_fields_complexity() <= u32::MAX && s.spec_depth() <= u32::MAX
}

fn evaluate_default(schema: SelectorSchema) -> (r: (String, u32, u32))
    requires
        default_cost(schema) <= u32::MAX,
    ensures
        (r.0@, r.1 as nat, r.2 as nat) == default_evaluation(schema),
{
    let cost = default_selection_cost(&schema);
    (String::from_str(schema.default_fields), cost, 1)
}

fn evaluate_explicit(s: Selector) -> (r: (String, u32, u32))
    requires
        explicit_evaluable(s),
    ensures
        (r.0@, r.1 as nat, r.2 as nat) == explicit_evaluation(s),
{
    (s.build(), s.fields_complexity(), s.depth())
}

impl IntoSelectorClosure for () {
    open spec fn spec_evaluable(&self, schema: SelectorSchema) -> bool {
        default_cost(schema) <= u32::MAX
    }

    open spec fn spec_evaluation(&self, schema: SelectorSchema) -> (Seq<char>, nat, nat) {
        default_evaluation(schema)
    }

    fn evaluate_selection(self, schema: SelectorSchema) -> (r: (String, u32, u32)) {
        evaluate_default(schema)
    }
}

impl IntoSelectorClosure for Selector {
    open spec fn spec_evaluable(&self, schema: SelectorSchema) -> bool {
        explicit_evaluable(*self)
    }

    open spec fn spec_evaluation(&self, schema: SelectorSchema) -> (Seq<char>, nat, nat) {
        explicit_evaluation(*self)
    }

    fn evaluate_selection(self, schema: SelectorSchema) -> (r: (String, u32, u32)) {
        evaluate_explicit(self)
    }
}

impl IntoSelectorClosure for Option<Selector> {
    open spec fn spec_evaluable(&self, schema: SelectorSchema) -> bool {
        match self {
            Some(s) => explicit_evaluable(*s),
            None => default_cost(schema) <= u32::MAX,
        }
    }

    open spec fn spec_evaluation(&self, schema: SelectorSchema) -> (Seq<char>, nat, nat) {
        match self {
            Some(s) => explicit_evaluation(*s),
            None => default_evaluation(schema),
        }
    }

    fn evaluate_selection(self, schema: SelectorSchema) -> (r: (String, u32, u32)) {
        match self {
            Some(s) => evaluate_explicit(s),
            None => evaluate_default(schema),
        }
    }
}

/// Law (canonical output): the compiled selection of a selector depends only on the set
/// of selections made, not on the order in which the fields were picked.
pub proof fn law_build_depends_only_on_selections(a: &Selector, b: &Selector)
    requires
        a.wf(),
        b.wf(),
        a.schema().default_fields == b.schema().default_fields,
        a.model().selections == b.model().selections,
    ensures
        a.spec_build() == b.spec_build(),
{
    a.lemma_canonical();
    b.lemma_canonical();
    if a.model().picked.len() != 0 {
        lemma_sorted_unique(a.sorted_selections(), b.sorted_selections());
    }
}

/// Law (no duplicate fields): picking a scalar field a second time changes nothing.
pub proof fn law_pick_scalar_idempotent(m: SelectionModel, fields: Seq<FieldDef>, name: Seq<char>)
    ensures
        pick_scalar(pick_scalar(m, fields, name), fields, name) == pick_scalar(m, fields, name),
{
    if can_pick(m, fields, name, false) {
        let m1 = pick_scalar(m, fields, name);
        assert(m1.picked[m1.picked.len() - 1] == name);
        assert(m1.picked.contains(name));
    }
}

/// Law (order independence): picking two different scalar fields in either order yields
/// the same selections, the same complexity and the same depth.
pub proof fn law_pick_scalar_commutes(m: SelectionModel, fields: Seq<FieldDef>, x: Seq<char>, y: Seq<char>)
    requires
        x != y,
    ensures
        pick_scalar(pick_scalar(m, fields, x), fields, y).selections
            == pick_scalar(pick_scalar(m, fields, y), fields, x).selections,
        pick_scalar(pick_scalar(m, fields, x), fields, y).total
            == pick_scalar(pick_scalar(m, fields, y), fields, x).total,
        pick_scalar(pick_scalar(m, fields, x), fields, y).depth
            == pick_scalar(pick_scalar(m, fields, y), fields, x).depth,
        pick_scalar(pick_scalar(m, fields, x), fields, y).picked.len()
            == pick_scalar(pick_scalar(m, fields, y), fields, x).picked.len(),
{
    let mx = pick_scalar(m, fields, x);
    let my = pick_scalar(m, fields, y);
    assert(can_pick(mx, fields, y, false) == can_pick(m, fields, y, false)) by {
        if can_pick(m, fields, x, false) {
            assert(mx.picked.contains(y) == m.picked.contains(y)) by {
                if mx.picked.contains(y) {
                    let j = choose|j: int| 0 <= j < mx.picked.len() && mx.picked[j] == y;
                    if j < m.picked.len() {
                        assert(m.picked[j] == y);
                    }
                }
                if m.picked.contains(y) {
                    let j = choose|j: int| 0 <= j < m.picked.len() && m.picked[j] == y;
                    assert(mx.picked[j] == y);
                }
            }
        }
    }
    assert(can_pick(my, fields, x, false) == can_pick(m, fields, x, false)) by {
        if can_pick(m, fields, y, false) {
            assert(my.picked.contains(x) == m.picked.contains(x)) by {
                if my.picked.contains(x) {
                    let j = choose|j: int| 0 <= j < my.picked.len() && my.picked[j] == x;
                    if j < m.picked.len() {
                        assert(m.picked[j] == x);
                    }
                }
                if m.picked.contains(x) {
                    let j = choose|j: int| 0 <= j < m.picked.len() && m.picked[j] == x;
                    assert(my.picked[j] == x);
                }
            }
        }
    }
    assert(m.selections.insert(x).insert(y) =~= m.selections.insert(y).insert(x));
}

/// Law (canonical output, end to end): two selectors of one schema, reached from the same
/// selector by picking two different scalar fields in opposite orders, compile to the same
/// text and report the same complexity and depth.
pub proof fn law_selection_order_irrelevant(s: &Selector, t1: &Selector, t2: &Selector, x: Seq<char>, y: Seq<char>)
    requires
        s.wf(),
        t1.wf(),
        t2.wf(),
        t1.schema() == s.schema(),
        t2.schema() == s.schema(),
        x != y,
        t1.model() == pick_scalar(pick_scalar(s.model(), s.schema().fields@, x), s.schema().fields@, y),
        t2.model() == pick_scalar(pick_scalar(s.model(), s.schema().fields@, y), s.schema().fields@, x),
    ensures
        t1.spec_build() == t2.spec_build(),
        t1.spec_fields_complexity() == t2.spec_fields_complexity(),
        t1.spec_depth() == t2.spec_depth(),
{
    law_pick_scalar_commutes(s.model(), s.schema().fields@, x, y);
    law_build_depends_only_on_selections(t1, t2);
}

/// Law (nesting depth is the deepest branch): picking an object field never lowers the depth;
/// when the field is picked the depth afterwards is at least one more than the child's depth,
/// and it is either the depth before or exactly one more than the child's.
pub proof fn law_pick_object_depth(
    m: SelectionModel,
    fields: Seq<FieldDef>,
    name: Seq<char>,
    child_text: Seq<char>,
    child_cost: nat,
    child_depth: nat,
)
    ensures
        pick_object(m, fields, name, child_text, child_cost, child_depth).depth >= m.depth,
        can_pick(m, fields, name, true) ==> pick_object(m, fields, name, child_text, child_cost, child_depth).depth >= 1 + child_depth,
        pick_object(m, fields, name, child_text, child_cost, child_depth).depth == m.depth
            || pick_object(m, fields, name, child_text, child_cost, child_depth).depth == 1 + child_depth,
        !can_pick(m, fields, name, true) ==> pick_object(m, fields, name, child_text, child_cost, child_depth) == m,
{
}

/// Law (complexity adds up): picking an object field adds the field's weight and the child's
/// complexity to the total; picking a scalar field adds the field's weight; a field that cannot
/// be picked adds nothing.
pub proof fn law_pick_complexity(
    m: SelectionModel,
    fields: Seq<FieldDef>,
    name: Seq<char>,
    child_text: Seq<char>,
    child_cost: nat,
    child_depth: nat,
)
    ensures
        can_pick(m, fields, name, true) ==> pick_object(m, fields, name, child_text, child_cost, child_depth).total
            == m.total + field_cost(fields, name) + child_cost,
        can_pick(m, fields, name, false) ==> pick_scalar(m, fields, name).total == m.total + field_cost(fields, name),
        can_pick(m, fields, name, false) ==> pick_scalar(m, fields, name).depth == m.depth,
        !can_pick(m, fields, name, false) ==> pick_scalar(m, fields, name) == m,
{
}

/// Law (a selector's depth never drops): a selector reached from `s` by picking an object field
/// is at least as deep as `s`, and at least one level deeper than the child selection.
pub proof fn law_select_nested_depth(s: &Selector, r: &Selector, name: Seq<char>, child: &Selector)
    requires
        s.wf(),
        r.wf(),
        r.schema() == s.schema(),
        r.model() == pick_object(s.model(), s.schema().fields@, name, child.spec_build(), child.spec_fields_complexity(), child.spec_depth()),
        can_pick(s.model(), s.schema().fields@, name, true),
    ensures
        r.spec_depth() >= s.spec_depth(),
        r.spec_depth() >= 1 + child.spec_depth(),
{
    s.lemma_canonical();
    assert(r.model().picked.len() > 0);
}

} // verus!
