//! Query builders: typed root-query arguments with declarative validation, field selection,
//! and compilation into inline documents or parameterized documents with variables.
use vstd::prelude::*;
use vstd::string::*;
use crate::error::{MoongqlError, MoongqlResult};
use crate::i18n::{Locale, required_message, required_text};
use crate::payload::{VarModel, VarValue, Variables};
use crate::selector::{Selector, SelectorSchema, default_cost, default_selection_cost};
use crate::text::{append_i64, copy_strings, int_text, join, join_strings, str_eq, texts};
use crate::traits::{BuildableQuery, BuildableSelector, GqlInspectable, GqlValidatable};
use crate::validation::{
    ArgKind, ArgMeta, ArgPredicate, ArgValue, Rule, answer_views, ask_predicates, check_rules,
    fits_kind, is_required, rule_verdict, rules_require, rules_verdict, value_fits_kind,
};

verus! {

/// Declaration of one argument of a root query.
#[derive(Debug, Clone, PartialEq, Eq)]
pub struct ArgDef {
    /// Argument identifier on the builder.
    pub arg_name: &'static str,
    /// Argument name in the GraphQL schema.
    pub gql_name: &'static str,
    /// GraphQL type used in variable declarations (e.g. `"PositiveInt"`, `"[ID!]"`).
    pub gql_type: &'static str,
    /// How values are written into documents.
    pub kind: ArgKind,
    /// Validation rules, checked in this order.
    pub rules: Vec<Rule>,
}

/// Declaration of a root query: its name, its selector and its arguments.
#[derive(Debug, Clone, PartialEq, Eq)]
pub struct QuerySchema {
    /// Root field name in the GraphQL schema (e.g. `"animes"`).
    pub root: &'static str,
    /// Schema of the associated field selector.
    pub selector: SelectorSchema,
    /// The arguments, in declaration order.
    pub args: Vec<ArgDef>,
}

/// Whether the default selection's complexity of `schema` fits in 32 bits.
pub open spec fn query_schema_ok(schema: QuerySchema) -> bool {
    schema.selector.default_complexity + default_cost(schema.selector) <= u32::MAX
}

/// `"t"`: a text in double quotes.
pub open spec fn quoted(t: Seq<char>) -> Seq<char> {
    "\""@ + t + "\""@
}

/// Inline spelling of a boolean.
pub open spec fn bool_text(b: bool) -> Seq<char> {
    if b {
        "true"@
    } else {
        "false"@
    }
}

/// Inline spelling of a value of an argument of kind `k`.
pub open spec fn inline_value(k: ArgKind, v: ArgValue) -> Seq<char> {
    match v {
        ArgValue::Int(i) => int_text(i as int),
        ArgValue::Bool(b) => bool_text(b),
        ArgValue::Text(t) => match k {
            ArgKind::Str | ArgKind::Display => quoted(t@),
            _ => t@,
        },
        ArgValue::List(items) => "["@ + join(texts(items@).map_values(|t: Seq<char>| quoted(t)), ", "@) + "]"@,
    }
}

/// The JSON variable value of an argument value.
pub open spec fn var_model(v: ArgValue) -> VarModel {
    match v {
        ArgValue::Int(i) => VarModel::Int(i),
        ArgValue::Bool(b) => VarModel::Bool(b),
        ArgValue::Text(t) => VarModel::Str(t@),
        ArgValue::List(items) => VarModel::StrList(texts(items@)),
    }
}

/// Variable name of argument `arg` of root query `root`: `root_arg`.
pub open spec fn var_name(root: Seq<char>, arg: Seq<char>) -> Seq<char> {
    root + "_"@ + arg
}

/// Text of one given argument inside the root query's parentheses.
pub open spec fn arg_text(root: Seq<char>, d: ArgDef, v: ArgValue, use_variables: bool) -> Seq<char> {
    if use_variables {
        d.gql_name@ + ": $"@ + var_name(root, d.arg_name@)
    } else {
        d.gql_name@ + ": "@ + inline_value(d.kind, v)
    }
}

/// Variable declaration of one argument: `$root_arg: Type`.
pub open spec fn decl_text(root: Seq<char>, d: ArgDef) -> Seq<char> {
    "$"@ + var_name(root, d.arg_name@) + ": "@ + d.gql_type@
}

/// Texts of the given arguments among the first `n`, in declaration order.
pub open spec fn arg_texts(root: Seq<char>, defs: Seq<ArgDef>, vals: Seq<Option<ArgValue>>, use_variables: bool, n: nat) -> Seq<Seq<char>>
    decreases n,
{
    if n == 0 {
        Seq::empty()
    } else {
        let prev = arg_texts(root, defs, vals, use_variables, (n - 1) as nat);
        match vals[n - 1] {
            Some(v) => prev.push(arg_text(root, defs[n - 1], v, use_variables)),
            None => prev,
        }
    }
}

/// Variable declarations of the given arguments among the first `n` (parametrized mode).
pub open spec fn decl_texts(root: Seq<char>, defs: Seq<ArgDef>, vals: Seq<Option<ArgValue>>, n: nat) -> Seq<Seq<char>>
    decreases n,
{
    if n == 0 {
        Seq::empty()
    } else {
        let prev = decl_texts(root, defs, vals, (n - 1) as nat);
        match vals[n - 1] {
            Some(v) => prev.push(decl_text(root, defs[n - 1])),
            None => prev,
        }
    }
}

/// Variable values of the given arguments among the first `n` (parametrized mode).
pub open spec fn var_values(root: Seq<char>, defs: Seq<ArgDef>, vals: Seq<Option<ArgValue>>, n: nat) -> Map<Seq<char>, VarModel>
    decreases n,
{
    if n == 0 {
        Map::empty()
    } else {
        let prev = var_values(root, defs, vals, (n - 1) as nat);
        match vals[n - 1] {
            Some(v) => prev.insert(var_name(root, defs[n - 1].arg_name@), var_model(v)),
            None => prev,
        }
    }
}

/// `(a, b, ...)` around the argument texts, or nothing when there are none.
pub open spec fn args_clause(args: Seq<Seq<char>>) -> Seq<char> {
    if args.len() == 0 {
        Seq::empty()
    } else {
        "("@ + join(args, ", "@) + ")"@
    }
}

/// ` { fields }` after the root, or nothing when the selection text is empty.
pub open spec fn selection_clause(fields: Seq<char>) -> Seq<char> {
    if fields.len() == 0 {
        Seq::empty()
    } else {
        " { "@ + fields + " }"@
    }
}

/// Metadata of argument `d` of root query `root`.
pub open spec fn meta_of(root: &'static str, d: ArgDef) -> ArgMeta {
    ArgMeta { arg_name: d.arg_name, gql_arg_name: d.gql_name, root_query: root }
}

/// The first required argument, from index `i` on, that was not given.
pub open spec fn first_missing(l: Locale, root: &'static str, defs: Seq<ArgDef>, vals: Seq<Option<ArgValue>>, i: nat) -> Option<Seq<char>>
    decreases defs.len() - i,
{
    if i >= defs.len() {
        None
    } else if is_required(defs[i as int].rules@) && vals[i as int] is None {
        Some(required_text(l, defs[i as int].arg_name@, root@))
    } else {
        first_missing(l, root, defs, vals, i + 1)
    }
}

/// The first rule violation among the given arguments, from index `i` on; `answers` holds,
/// argument by argument and rule by rule, what the custom predicates answered.
pub open spec fn first_violation(
    l: Locale,
    root: &'static str,
    defs: Seq<ArgDef>,
    vals: Seq<Option<ArgValue>>,
    answers: Seq<Seq<Option<Seq<char>>>>,
    i: nat,
) -> Option<Seq<char>>
    decreases defs.len() - i,
{
    if i >= defs.len() {
        None
    } else {
        match vals[i as int] {
            Some(v) => match rules_verdict(l, defs[i as int].rules@, answers[i as int], v, meta_of(root, defs[i as int]), 0) {
                Some(m) => Some(m),
                None => first_violation(l, root, defs, vals, answers, i + 1),
            },
            None => first_violation(l, root, defs, vals, answers, i + 1),
        }
    }
}

/// Index of the first argument declared as `arg_name`, searching from index `i` on.
pub open spec fn arg_position(defs: Seq<ArgDef>, arg_name: Seq<char>, i: nat) -> Option<int>
    decreases defs.len() - i,
{
    if i >= defs.len() {
        None
    } else if defs[i as int].arg_name@ == arg_name {
        Some(i as int)
    } else {
        arg_position(defs, arg_name, i + 1)
    }
}

/// `n` empty answers.
fn no_answers(n: usize) -> (r: Vec<Option<String>>)
    ensures
        r@.len() == n,
        forall|k: int| 0 <= k < n ==> (#[trigger] r@[k]) is None,
{
    let mut r: Vec<Option<String>> = Vec::new();
    let mut i: usize = 0;
    while i < n
        invariant
            i <= n,
            r@.len() == i,
            forall|k: int| 0 <= k < i ==> (#[trigger] r@[k]) is None,
        decreases n - i,
    {
        r.push(None);
        i = i + 1;
    }
    r
}

/// A query builder for the root query described by a [`QuerySchema`].
#[derive(Debug)]
pub struct QueryBuilder<P> {
    schema: QuerySchema,
    predicates: P,
    locale: Locale,
    values: Vec<Option<ArgValue>>,
    answers: Vec<Vec<Option<String>>>,
    selector_depth: u32,
    selector_complexity: u32,
    fields_str: String,
    max_complexity_override: Option<u32>,
    max_depth_override: Option<u32>,
}

impl<P: ArgPredicate> QueryBuilder<P> {
    /// Internal consistency: one value slot and one answer per rule for each declared
    /// argument, each given value of the argument's kind, and a default selection whose
    /// complexity fits in 32 bits.
    pub closed spec fn wf(&self) -> bool {
        &&& self.values@.len() == self.schema.args@.len()
        &&& self.answers@.len() == self.schema.args@.len()
        &&& forall|i: int| 0 <= i < self.answers@.len() ==> (#[trigger] self.answers@[i])@.len() == self.schema.args@[i].rules@.len()
        &&& forall|i: int| 0 <= i < self.values@.len() ==> (#[trigger] self.values@[i] matches Some(v) ==> fits_kind(self.schema.args@[i].kind, v))
        &&& query_schema_ok(self.schema)
    }

    /// The query's schema.
    pub closed spec fn schema(&self) -> QuerySchema {
        self.schema
    }

    /// The custom validation predicates.
    pub closed spec fn predicates(&self) -> P {
        self.predicates
    }

    /// Locale of validation messages.
    pub closed spec fn locale(&self) -> Locale {
        self.locale
    }

    /// Given argument values, one slot per declared argument.
    pub closed spec fn values(&self) -> Seq<Option<ArgValue>> {
        self.values@
    }

    /// What the custom predicates answered about the given values, argument by argument and
    /// rule by rule (`None` for the rules that are not custom and for arguments not given).
    pub closed spec fn answers(&self) -> Seq<Seq<Option<Seq<char>>>> {
        Seq::new(self.answers@.len(), |i: int| answer_views(self.answers@[i]@))
    }

    /// Text of the explicit field selection (empty when none was made).
    pub closed spec fn fields_text(&self) -> Seq<char> {
        self.fields_str@
    }

    /// Complexity recorded from the explicit selection (0 when none was made).
    pub closed spec fn selector_complexity(&self) -> u32 {
        self.selector_complexity
    }

    /// Depth recorded from the explicit selection (0 when none was made).
    pub closed spec fn selector_depth(&self) -> u32 {
        self.selector_depth
    }

    /// Local complexity limit.
    pub closed spec fn complexity_override(&self) -> Option<u32> {
        self.max_complexity_override
    }

    /// Local depth limit.
    pub closed spec fn depth_override(&self) -> Option<u32> {
        self.max_depth_override
    }

    /// Index of the first argument declared as `arg_name`.
    pub open spec fn arg_index(&self, arg_name: Seq<char>) -> Option<int> {
        arg_position(self.schema().args@, arg_name, 0)
    }

    /// A builder with no argument given and no explicit selection.
    pub fn new(schema: QuerySchema, predicates: P) -> (r: Self)
        requires
            query_schema_ok(schema),
        ensures
            r.wf(),
            r.schema() == schema,
            r.predicates() == predicates,
            r.locale() == Locale::Ru,
            r.values() == Seq::new(schema.args@.len(), |i: int| None::<ArgValue>),
            r.answers() == Seq::new(schema.args@.len(), |i: int| Seq::new(schema.args@[i].rules@.len(), |j: int| None::<Seq<char>>)),
            r.fields_text() == Seq::<char>::empty(),
            r.selector_complexity() == 0,
            r.selector_depth() == 0,
            r.complexity_override() is None,
            r.depth_override() is None,
    {
        let n = schema.args.len();
        let mut values: Vec<Option<ArgValue>> = Vec::new();
        let mut answers: Vec<Vec<Option<String>>> = Vec::new();
        let mut i: usize = 0;
        while i < n
            invariant
                n == schema.args@.len(),
                i <= n,
                values@ == Seq::new(i as nat, |j: int| None::<ArgValue>),
                answers@.len() == i,
                forall|j: int| 0 <= j < i ==> (#[trigger] answers@[j])@.len() == schema.args@[j].rules@.len(),
                forall|j: int, k: int| 0 <= j < i && 0 <= k < answers@[j]@.len() ==> (#[trigger] answers@[j]@[k]) is None,
            decreases n - i,
        {
            values.push(None);
            answers.push(no_answers(schema.args[i].rules.len()));
            i = i + 1;
            assert(values@ =~= Seq::new(i as nat, |j: int| None::<ArgValue>));
        }
        let ghost expected = Seq::new(n as nat, |i: int| Seq::new(schema.args@[i].rules@.len(), |j: int| None::<Seq<char>>));
        assert forall|j: int| 0 <= j < n implies answer_views(answers@[j]@) == expected[j] by {
            assert(answer_views(answers@[j]@) =~= expected[j]);
        }
        assert(Seq::new(answers@.len(), |j: int| answer_views(answers@[j]@)) =~= expected);
        QueryBuilder {
            schema,
            predicates,
            locale: Locale::Ru,
            values,
            answers,
            selector_depth: 0,
            selector_complexity: 0,
            fields_str: String::new(),
            max_complexity_override: None,
            max_depth_override: None,
        }
    }

    fn find_arg(&self, arg_name: &str) -> (r: Option<usize>)
        requires
            self.wf(),
        ensures
            r matches Some(i) ==> self.arg_index(arg_name@) == Some(i as int) && i < self.schema().args@.len(),
            r is None ==> self.arg_index(arg_name@) is None,
    {
        let n = self.schema.args.len();
        let mut i: usize = 0;
        while i < n
            invariant
                n == self.schema.args@.len(),
                i <= n,
                arg_position(self.schema.args@, arg_name@, 0) == arg_position(self.schema.args@, arg_name@, i as nat),
            decreases n - i,
        {
            if str_eq(self.schema.args[i].arg_name, arg_name) {
                return Some(i);
            }
            i = i + 1;
        }
        None
    }

    /// Gives argument `arg_name` the value `value`. An undeclared argument, or a value that
    /// does not fit the argument's kind, leaves the builder unchanged.
    pub fn arg(self, arg_name: &str, value: ArgValue) -> (r: Self)
        requires
            self.wf(),
        ensures
            r.wf(),
            r.schema() == self.schema(),
            r.predicates() == self.predicates(),
            r.locale() == self.locale(),
            r.fields_text() == self.fields_text(),
            r.selector_complexity() == self.selector_complexity(),
            r.selector_depth() == self.selector_depth(),
            r.complexity_override() == self.complexity_override(),
            r.depth_override() == self.depth_override(),
            self.arg_index(arg_name@) matches Some(i) ==> (fits_kind(self.schema().args@[i].kind, value) ==> {
                &&& r.values() == self.values().update(i, Some(value))
                &&& r.answers().len() == self.answers().len()
                &&& forall|j: int| 0 <= j < r.answers().len() && j != i ==> #[trigger] r.answers()[j] == self.answers()[j]
                &&& r.answers()[i].len() == self.schema().args@[i].rules@.len()
                &&& forall|k: int| 0 <= k < r.answers()[i].len() && !(self.schema().args@[i].rules@[k] is Custom)
                    ==> #[trigger] r.answers()[i][k] is None
                &&& P::obeys_answer_spec() ==> forall|k: int| 0 <= k < r.answers()[i].len()
                    ==> (#[trigger] self.schema().args@[i].rules@[k] matches Rule::Custom(id)
                    ==> r.answers()[i][k] == self.predicates().answer(id, value, meta_of(self.schema().root, self.schema().args@[i])))
            }),
            self.arg_index(arg_name@) matches Some(i) ==> (!fits_kind(self.schema().args@[i].kind, value)
                ==> r.values() == self.values() && r.answers() == self.answers()),
            self.arg_index(arg_name@) is None ==> r.values() == self.values() && r.answers() == self.answers(),
    {
        match self.find_arg(arg_name) {
            Some(i) => {
                if value_fits_kind(self.schema.args[i].kind, &value) {
                    let d = &self.schema.args[i];
                    let meta = ArgMeta { arg_name: d.arg_name, gql_arg_name: d.gql_name, root_query: self.schema.root };
                    let asked = ask_predicates(&self.predicates, &d.rules, &value, &meta);
                    let ghost old_answers = self.answers();
                    let mut s = self;
                    s.values.set(i, Some(value));
                    s.answers.set(i, asked);
                    proof {
                        assert forall|j: int| 0 <= j < s.answers().len() && j != i implies #[trigger] s.answers()[j] == old_answers[j] by {}
                        assert(meta == meta_of(s.schema.root, s.schema.args@[i as int]));
                        assert(s.answers()[i as int] == answer_views(s.answers@[i as int]@));
                    }
                    s
                } else {
                    self
                }
            },
            None => self,
        }
    }

    /// Records the explicit field selection `selection`.
    pub fn select(self, selection: Selector) -> (r: Self)
        requires
            self.wf(),
            selection.wf(),
            selection.spec_root_complexity() + selection.spec_fields_complexity() <= u32::MAX,
            selection.spec_depth() <= u32::MAX,
        ensures
            r.wf(),
            r.schema() == self.schema(),
            r.predicates() == self.predicates(),
            r.locale() == self.locale(),
            r.values() == self.values(),
            r.answers() == self.answers(),
            r.fields_text() == selection.spec_build(),
            r.selector_complexity() == selection.spec_root_complexity() + selection.spec_fields_complexity(),
            r.selector_depth() == selection.spec_depth(),
            r.complexity_override() == self.complexity_override(),
            r.depth_override() == self.depth_override(),
    {
        let mut s = self;
        s.fields_str = selection.build();
        s.selector_complexity = selection.complexity();
        s.selector_depth = selection.depth();
        s
    }

    /// Sets the local complexity limit.
    pub fn with_max_complexity(self, max: u32) -> (r: Self)
        requires
            self.wf(),
        ensures
            r.wf(),
            r.schema() == self.schema(),
            r.predicates() == self.predicates(),
            r.locale() == self.locale(),
            r.values() == self.values(),
            r.answers() == self.answers(),
            r.fields_text() == self.fields_text(),
            r.selector_complexity() == self.selector_complexity(),
            r.selector_depth() == self.selector_depth(),
            r.complexity_override() == Some(max),
            r.depth_override() == self.depth_override(),
    {
        let mut s = self;
        s.max_complexity_override = Some(max);
        s
    }

    /// Sets the local depth limit.
    pub fn with_max_depth(self, max: u32) -> (r: Self)
        requires
            self.wf(),
        ensures
            r.wf(),
            r.schema() == self.schema(),
            r.predicates() == self.predicates(),
            r.locale() == self.locale(),
            r.values() == self.values(),
            r.answers() == self.answers(),
            r.fields_text() == self.fields_text(),
            r.selector_complexity() == self.selector_complexity(),
            r.selector_depth() == self.selector_depth(),
            r.complexity_override() == self.complexity_override(),
            r.depth_override() == Some(max),
    {
        let mut s = self;
        s.max_depth_override = Some(max);
        s
    }

    /// Sets the locale of validation messages.
    pub fn with_locale(self, locale: Locale) -> (r: Self)
        requires
            self.wf(),
        ensures
            r.wf(),
            r.schema() == self.schema(),
            r.predicates() == self.predicates(),
            r.locale() == locale,
            r.values() == self.values(),
            r.answers() == self.answers(),
            r.fields_text() == self.fields_text(),
            r.selector_complexity() == self.selector_complexity(),
            r.selector_depth() == self.selector_depth(),
            r.complexity_override() == self.complexity_override(),
            r.depth_override() == self.depth_override(),
    {
        let mut s = self;
        s.locale = locale;
        s
    }

    /// The outcome of validation: the first missing required argument (in declaration
    /// order), else the first rule violation of a given argument, else `None`.
    pub open spec fn validation(&self) -> Option<Seq<char>> {
        match first_missing(self.locale(), self.schema().root, self.schema().args@, self.values(), 0) {
            Some(m) => Some(m),
            None => first_violation(self.locale(), self.schema().root, self.schema().args@, self.values(), self.answers(), 0),
        }
    }

    /// Validates the given arguments: required ones first, then every rule of every given argument.
    pub fn _validate_args(&self) -> (r: MoongqlResult<()>)
        requires
            self.wf(),
        ensures
            match self.validation() {
                None => r is Ok,
                Some(detail) => r matches Err(MoongqlError::ValidationError(m)) && m@ == detail,
            },
    {
        let defs = &self.schema.args;
        let n = defs.len();
        let mut i: usize = 0;
        while i < n
            invariant
                n == defs@.len(),
                defs@ == self.schema.args@,
                self.wf(),
                i <= n,
                first_missing(self.locale, self.schema.root, defs@, self.values@, 0)
                    == first_missing(self.locale, self.schema.root, defs@, self.values@, i as nat),
            decreases n - i,
        {
            if rules_require(&defs[i].rules) && self.values[i].is_none() {
                let m = required_message(self.locale, defs[i].arg_name, self.schema.root);
                return Err(MoongqlError::ValidationError(m));
            }
            i = i + 1;
        }
        let mut i: usize = 0;
        while i < n
            invariant
                n == defs@.len(),
                defs@ == self.schema.args@,
                self.wf(),
                i <= n,
                first_missing(self.locale, self.schema.root, defs@, self.values@, 0) is None,
                first_violation(self.locale, self.schema.root, defs@, self.values@, self.answers(), 0)
                    == first_violation(self.locale, self.schema.root, defs@, self.values@, self.answers(), i as nat),
            decreases n - i,
        {
            match &self.values[i] {
                Some(v) => {
                    let meta = ArgMeta { arg_name: defs[i].arg_name, gql_arg_name: defs[i].gql_name, root_query: self.schema.root };
                    assert(meta == meta_of(self.schema.root, defs@[i as int]));
                    assert(self.answers()[i as int] == answer_views(self.answers@[i as int]@));
                    match check_rules(self.locale, &defs[i].rules, &self.answers[i], v, &meta) {
                        Some(m) => {
                            return Err(MoongqlError::ValidationError(m));
                        },
                        None => {},
                    }
                },
                None => {},
            }
            i = i + 1;
        }
        Ok(())
    }
}

/// Appends the inline spelling of `v` (argument of kind `k`) to `s`.
fn append_inline_value(s: &mut String, k: ArgKind, v: &ArgValue)
    ensures
        final(s)@ == old(s)@ + inline_value(k, *v),
{
    proof {
        reveal_strlit("true");
        reveal_strlit("false");
        reveal_strlit("\"");
        reveal_strlit("[");
        reveal_strlit("]");
        reveal_strlit(", ");
    }
    match v {
        ArgValue::Int(i) => append_i64(s, *i),
        ArgValue::Bool(b) => {
            if *b {
                s.append("true");
            } else {
                s.append("false");
            }
        },
        ArgValue::Text(t) => match k {
            ArgKind::Str | ArgKind::Display => {
                s.append("\"");
                s.append(t.as_str());
                s.append("\"");
            },
            _ => s.append(t.as_str()),
        },
        ArgValue::List(items) => {
            let mut quoted_items: Vec<String> = Vec::new();
            let n = items.len();
            let mut i: usize = 0;
            while i < n
                invariant
                    n == items@.len(),
                    i <= n,
                    texts(quoted_items@) == texts(items@).take(i as int).map_values(|t: Seq<char>| quoted(t)),
                decreases n - i,
            {
                let mut q = String::from_str("\"");
                q.append(items[i].as_str());
                q.append("\"");
                proof {
                    reveal_strlit("\"");
                }
                assert(q@ == quoted(items@[i as int]@));
                let ghost prev = texts(quoted_items@);
                let ghost qv = q@;
                quoted_items.push(q);
                assert(texts(quoted_items@) =~= prev.push(qv));
                assert(texts(items@).take(i + 1).map_values(|t: Seq<char>| quoted(t)) =~= texts(items@).take(
                    i as int,
                ).map_values(|t: Seq<char>| quoted(t)).push(quoted(items@[i as int]@)));
                i = i + 1;
            }
            assert(texts(items@).take(n as int) =~= texts(items@));
            let joined = join_strings(&quoted_items, ", ");
            s.append("[");
            s.append(joined.as_str());
            s.append("]");
        },
    }
}

/// The variable value of an argument value.
fn to_var_value(v: &ArgValue) -> (r: VarValue)
    ensures
        r@ == var_model(*v),
{
    match v {
        ArgValue::Int(i) => VarValue::Int(*i),
        ArgValue::Bool(b) => VarValue::Bool(*b),
        ArgValue::Text(t) => VarValue::Str(t.clone()),
        ArgValue::List(items) => {
            let c = copy_strings(items);
            assert(c@.map_values(|t: String| t@) =~= texts(items@));
            VarValue::StrList(c)
        },
    }
}

/// Appends `root_arg` to `s`.
fn append_var_name(s: &mut String, root: &str, arg: &str)
    ensures
        final(s)@ == old(s)@ + var_name(root@, arg@),
{
    s.append(root);
    s.append("_");
    s.append(arg);
    proof {
        reveal_strlit("_");
    }
}

impl<P: ArgPredicate> QueryBuilder<P> {
    /// The selection text rendered after the root: the explicit one, else the selector's default.
    pub open spec fn effective_fields(&self) -> Seq<char> {
        if self.fields_text().len() == 0 {
            self.schema().selector.default_fields@
        } else {
            self.fields_text()
        }
    }

    /// Body text, variable declarations and variable values of the compiled query.
    pub open spec fn query_parts(&self, use_variables: bool) -> (Seq<char>, Seq<Seq<char>>, Map<Seq<char>, VarModel>) {
        let root = self.schema().root@;
        let defs = self.schema().args@;
        let n = defs.len();
        let args = arg_texts(root, defs, self.values(), use_variables, n);
        let body = root + args_clause(args) + selection_clause(self.effective_fields());
        if use_variables {
            (body, decl_texts(root, defs, self.values(), n), var_values(root, defs, self.values(), n))
        } else {
            (body, Seq::empty(), Map::empty())
        }
    }

    /// Compiles the query: inline argument values, or (with `use_variables`) `$root_arg`
    /// references with their declarations and JSON values.
    pub fn build_query_parts(&self, use_variables: bool) -> (r: (String, Vec<String>, Variables))
        requires
            self.wf(),
        ensures
            (r.0@, texts(r.1@), r.2@) == self.query_parts(use_variables),
    {
        let root = self.schema.root;
        let defs = &self.schema.args;
        let n = defs.len();
        let mut args: Vec<String> = Vec::new();
        let mut decls: Vec<String> = Vec::new();
        let mut vars = Variables::new();
        let mut i: usize = 0;
        proof {
            reveal_strlit(": $");
            reveal_strlit(": ");
            reveal_strlit("$");
        }
        while i < n
            invariant
                n == defs@.len(),
                defs@ == self.schema.args@,
                root == self.schema.root,
                self.wf(),
                i <= n,
                texts(args@) == arg_texts(root@, defs@, self.values@, use_variables, i as nat),
                texts(decls@) == (if use_variables { decl_texts(root@, defs@, self.values@, i as nat) } else { Seq::empty() }),
                vars@ == (if use_variables { var_values(root@, defs@, self.values@, i as nat) } else { Map::empty() }),
            decreases n - i,
        {
            match &self.values[i] {
                Some(v) => {
                    let d = &defs[i];
                    if use_variables {
                        let mut a = String::from_str(d.gql_name);
                        a.append(": $");
                        append_var_name(&mut a, root, d.arg_name);
                        let mut decl = String::from_str("$");
                        append_var_name(&mut decl, root, d.arg_name);
                        decl.append(": ");
                        decl.append(d.gql_type);
                        let mut key = String::new();
                        append_var_name(&mut key, root, d.arg_name);
                        let ghost a_before = texts(args@);
                        let ghost d_before = texts(decls@);
                        args.push(a);
                        decls.push(decl);
                        vars.insert(key, to_var_value(v));
                        assert(texts(args@) =~= a_before.push(arg_text(root@, defs@[i as int], *v, true)));
                        assert(texts(decls@) =~= d_before.push(decl_text(root@, defs@[i as int])));
                    } else {
                        let mut a = String::from_str(d.gql_name);
                        a.append(": ");
                        append_inline_value(&mut a, d.kind, v);
                        let ghost a_before = texts(args@);
                        args.push(a);
                        assert(texts(args@) =~= a_before.push(arg_text(root@, defs@[i as int], *v, false)));
                    }
                },
                None => {},
            }
            i = i + 1;
        }
        let mut body = String::from_str(root);
        if args.len() > 0 {
            body.append("(");
            let joined = join_strings(&args, ", ");
            body.append(joined.as_str());
            body.append(")");
        }
        proof {
            reveal_strlit("(");
            reveal_strlit(")");
            reveal_strlit(", ");
            reveal_strlit(" { ");
            reveal_strlit(" }");
        }
        let fields = if self.fields_str.unicode_len() == 0 {
            String::from_str(self.schema.selector.default_fields)
        } else {
            self.fields_str.clone()
        };
        if fields.unicode_len() > 0 {
            body.append(" { ");
            body.append(fields.as_str());
            body.append(" }");
        }
        (body, decls, vars)
    }
}

impl<P: ArgPredicate> GqlInspectable for QueryBuilder<P> {
    open spec fn spec_complexity(&self) -> nat {
        if self.selector_complexity() == 0 {
            (self.schema().selector.default_complexity + default_cost(self.schema().selector)) as nat
        } else {
            self.selector_complexity() as nat
        }
    }

    open spec fn spec_depth(&self) -> nat {
        if self.selector_depth() == 0 {
            1
        } else {
            self.selector_depth() as nat
        }
    }

    open spec fn spec_max_complexity(&self) -> Option<u32> {
        self.complexity_override()
    }

    open spec fn spec_max_depth(&self) -> Option<u32> {
        self.depth_override()
    }

    open spec fn spec_inspectable(&self) -> bool {
        self.wf()
    }

    fn complexity(&self) -> (r: u32) {
        if self.selector_complexity == 0 {
            self.schema.selector.default_complexity + default_selection_cost(&self.schema.selector)
        } else {
            self.selector_complexity
        }
    }

    fn depth(&self) -> (r: u32) {
        if self.selector_depth == 0 {
            1
        } else {
            self.selector_depth
        }
    }

    fn max_complexity(&self) -> (r: Option<u32>) {
        self.max_complexity_override
    }

    fn max_depth(&self) -> (r: Option<u32>) {
        self.max_depth_override
    }
}

impl<P: ArgPredicate> GqlValidatable for QueryBuilder<P> {
    open spec fn spec_validation(&self) -> Option<Seq<char>> {
        self.validation()
    }

    open spec fn spec_validatable(&self) -> bool {
        self.wf()
    }

    fn validate_args(&self) -> (r: MoongqlResult<()>) {
        self._validate_args()
    }
}

impl<P: ArgPredicate> BuildableQuery for QueryBuilder<P> {
    open spec fn spec_query_parts(&self, use_variables: bool) -> (Seq<char>, Seq<Seq<char>>, Map<Seq<char>, VarModel>) {
        self.query_parts(use_variables)
    }

    open spec fn spec_buildable(&self) -> bool {
        self.wf()
    }

    fn _build_query_parts(&self, use_variables: bool) -> (r: (String, Vec<String>, Variables)) {
        let r = self.build_query_parts(use_variables);
        assert(texts(r.1@) == r.1@.map_values(|d: String| d@));
        r
    }
}

proof fn lemma_first_missing_none(l: Locale, root: &'static str, defs: Seq<ArgDef>, vals: Seq<Option<ArgValue>>, i: nat)
    ensures
        first_missing(l, root, defs, vals, i) is None <==> (forall|j: int|
            i <= j < defs.len() && is_required(#[trigger] defs[j].rules@) ==> vals[j] is Some),
    decreases defs.len() - i,
{
    if i < defs.len() {
        lemma_first_missing_none(l, root, defs, vals, i + 1);
    }
}

proof fn lemma_rules_verdict_none(l: Locale, rules: Seq<Rule>, answers: Seq<Option<Seq<char>>>, v: ArgValue, meta: ArgMeta, i: nat)
    ensures
        rules_verdict(l, rules, answers, v, meta, i) is None <==> (forall|k: int|
            i <= k < rules.len() ==> rule_verdict(l, #[trigger] rules[k], answers[k], v, meta) is None),
    decreases rules.len() - i,
{
    if i < rules.len() {
        lemma_rules_verdict_none(l, rules, answers, v, meta, i + 1);
    }
}

proof fn lemma_first_violation_none(
    l: Locale,
    root: &'static str,
    defs: Seq<ArgDef>,
    vals: Seq<Option<ArgValue>>,
    answers: Seq<Seq<Option<Seq<char>>>>,
    i: nat,
)
    ensures
        first_violation(l, root, defs, vals, answers, i) is None <==> (forall|j: int, k: int|
            i <= j < defs.len() && 0 <= k < defs[j].rules@.len() ==> (#[trigger] vals[j] matches Some(v) ==> rule_verdict(
                l,
                #[trigger] defs[j].rules@[k],
                answers[j][k],
                v,
                meta_of(root, defs[j]),
            ) is None)),
    decreases defs.len() - i,
{
    if i < defs.len() {
        lemma_first_violation_none(l, root, defs, vals, answers, i + 1);
        if let Some(v) = vals[i as int] {
            lemma_rules_verdict_none(l, defs[i as int].rules@, answers[i as int], v, meta_of(root, defs[i as int]), 0);
        }
    }
}

/// Law (validation): a query passes validation exactly when every required argument is given
/// and every rule of every given argument accepts its value.
pub proof fn law_validation_passes_iff_all_rules_hold<P: ArgPredicate>(q: &QueryBuilder<P>)
    requires
        q.wf(),
    ensures
        q.validation() is None <==> {
            &&& forall|i: int| 0 <= i < q.schema().args@.len() && is_required(#[trigger] q.schema().args@[i].rules@)
                ==> q.values()[i] is Some
            &&& forall|i: int, k: int| 0 <= i < q.schema().args@.len() && 0 <= k < q.schema().args@[i].rules@.len()
                ==> (#[trigger] q.values()[i] matches Some(v) ==> rule_verdict(
                    q.locale(),
                    #[trigger] q.schema().args@[i].rules@[k],
                    q.answers()[i][k],
                    v,
                    meta_of(q.schema().root, q.schema().args@[i]),
                ) is None)
        },
{
    let defs = q.schema().args@;
    lemma_first_missing_none(q.locale(), q.schema().root, defs, q.values(), 0);
    lemma_first_violation_none(q.locale(), q.schema().root, defs, q.values(), q.answers(), 0);
}

/// Law (no variable collisions across operations): with root names that hold no underscore,
/// two arguments get the same variable name only when both their roots and their names agree.
pub proof fn law_variable_names_distinct(r1: Seq<char>, a1: Seq<char>, r2: Seq<char>, a2: Seq<char>)
    requires
        !r1.contains('_'),
        !r2.contains('_'),
        r1 != r2 || a1 != a2,
    ensures
        var_name(r1, a1) != var_name(r2, a2),
{
    reveal_strlit("_");
    let s1 = var_name(r1, a1);
    let s2 = var_name(r2, a2);
    if s1 == s2 {
        let n1 = r1.len() as int;
        let n2 = r2.len() as int;
        assert(s1[n1] == '_');
        assert(s2[n2] == '_');
        if n1 < n2 {
            assert(s2[n1] == r2[n1]);
            assert(r2.contains('_'));
        } else if n2 < n1 {
            assert(s1[n2] == r1[n2]);
            assert(r1.contains('_'));
        } else {
            assert(r1 =~= s1.subrange(0, n1));
            assert(r2 =~= s2.subrange(0, n2));
            assert(a1 =~= s1.subrange(n1 + 1, s1.len() as int));
            assert(a2 =~= s2.subrange(n2 + 1, s2.len() as int));
        }
    }
}

/// Whether the arguments declared in `defs` have pairwise different names.
pub open spec fn distinct_arg_names(defs: Seq<ArgDef>) -> bool {
    forall|a: int, b: int| 0 <= a < b < defs.len() ==> #[trigger] defs[a].arg_name@ != #[trigger] defs[b].arg_name@
}

proof fn lemma_var_values_keys(root: Seq<char>, defs: Seq<ArgDef>, vals: Seq<Option<ArgValue>>, n: nat)
    ensures
        forall|k: Seq<char>| #[trigger] var_values(root, defs, vals, n).contains_key(k) <==> exists|j: int|
            0 <= j < n && vals[j] is Some && k == var_name(root, (#[trigger] defs[j]).arg_name@),
    decreases n,
{
    if n > 0 {
        lemma_var_values_keys(root, defs, vals, (n - 1) as nat);
        let m = var_values(root, defs, vals, n);
        assert forall|k: Seq<char>| m.contains_key(k) implies exists|j: int|
            0 <= j < n && vals[j] is Some && k == var_name(root, (#[trigger] defs[j]).arg_name@) by {
            let prev = var_values(root, defs, vals, (n - 1) as nat);
            if vals[n - 1] is Some && k == var_name(root, defs[n - 1].arg_name@) {
                assert(defs[n - 1] == defs[n - 1]);
            } else {
                assert(prev.contains_key(k));
                let j = choose|j: int| 0 <= j < n - 1 && vals[j] is Some && k == var_name(root, (#[trigger] defs[j]).arg_name@);
                assert(defs[j] == defs[j]);
            }
        }
        assert forall|k: Seq<char>| (exists|j: int|
            0 <= j < n && vals[j] is Some && k == var_name(root, (#[trigger] defs[j]).arg_name@)) implies m.contains_key(k) by {
            let j = choose|j: int| 0 <= j < n && vals[j] is Some && k == var_name(root, (#[trigger] defs[j]).arg_name@);
            if j < n - 1 {
                assert(var_values(root, defs, vals, (n - 1) as nat).contains_key(k));
            }
        }
    }
}

proof fn lemma_var_values_value(root: Seq<char>, defs: Seq<ArgDef>, vals: Seq<Option<ArgValue>>, n: nat, i: int)
    requires
        0 <= i < n <= defs.len(),
        distinct_arg_names(defs),
        vals[i] is Some,
    ensures
        var_values(root, defs, vals, n).contains_key(var_name(root, defs[i].arg_name@)),
        var_values(root, defs, vals, n)[var_name(root, defs[i].arg_name@)] == var_model(vals[i]->0),
    decreases n,
{
    if i < n - 1 {
        lemma_var_values_value(root, defs, vals, (n - 1) as nat, i);
        if vals[n - 1] is Some {
            assert(defs[i].arg_name@ != defs[n - 1].arg_name@);
            assert(var_name(root, defs[i].arg_name@) != var_name(root, defs[n - 1].arg_name@)) by {
                reveal_strlit("_");
                let a = var_name(root, defs[i].arg_name@);
                let b = var_name(root, defs[n - 1].arg_name@);
                if a == b {
                    let off = root.len() as int + 1;
                    assert(defs[i].arg_name@ =~= a.subrange(off, a.len() as int));
                    assert(defs[n - 1].arg_name@ =~= b.subrange(off, b.len() as int));
                }
            }
        }
    }
}

proof fn lemma_decl_texts_contain(root: Seq<char>, defs: Seq<ArgDef>, vals: Seq<Option<ArgValue>>, n: nat, i: int)
    requires
        0 <= i < n,
        vals[i] is Some,
    ensures
        decl_texts(root, defs, vals, n).contains(decl_text(root, defs[i])),
    decreases n,
{
    let d = decl_texts(root, defs, vals, n);
    if i < n - 1 {
        lemma_decl_texts_contain(root, defs, vals, (n - 1) as nat, i);
        let prev = decl_texts(root, defs, vals, (n - 1) as nat);
        let w = choose|w: int| 0 <= w < prev.len() && prev[w] == decl_text(root, defs[i]);
        if vals[n - 1] is Some {
            assert(d[w] == prev[w]);
        }
    } else {
        assert(d[d.len() - 1] == decl_text(root, defs[i]));
    }
}

proof fn lemma_arg_texts_contain(root: Seq<char>, defs: Seq<ArgDef>, vals: Seq<Option<ArgValue>>, use_variables: bool, n: nat, i: int)
    requires
        0 <= i < n,
        vals[i] is Some,
    ensures
        arg_texts(root, defs, vals, use_variables, n).contains(arg_text(root, defs[i], vals[i]->0, use_variables)),
    decreases n,
{
    let d = arg_texts(root, defs, vals, use_variables, n);
    if i < n - 1 {
        lemma_arg_texts_contain(root, defs, vals, use_variables, (n - 1) as nat, i);
        let prev = arg_texts(root, defs, vals, use_variables, (n - 1) as nat);
        let w = choose|w: int| 0 <= w < prev.len() && prev[w] == arg_text(root, defs[i], vals[i]->0, use_variables);
        if vals[n - 1] is Some {
            assert(d[w] == prev[w]);
        }
    } else {
        assert(d[d.len() - 1] == arg_text(root, defs[i], vals[i]->0, use_variables));
    }
}

/// Law (parameterized mode binds every variable): when a query is compiled with variables,
/// every given argument is written as a `$` reference, is declared with its GraphQL type, and
/// has its own value in the variables; the variables name given arguments only.
pub proof fn law_parameterized_arguments_bound<P: ArgPredicate>(q: &QueryBuilder<P>, i: int)
    requires
        q.wf(),
        distinct_arg_names(q.schema().args@),
        0 <= i < q.schema().args@.len(),
        q.values()[i] is Some,
    ensures
        arg_texts(q.schema().root@, q.schema().args@, q.values(), true, q.schema().args@.len()).contains(
            q.schema().args@[i].gql_name@ + ": $"@ + var_name(q.schema().root@, q.schema().args@[i].arg_name@),
        ),
        q.query_parts(true).1.contains(
            "$"@ + var_name(q.schema().root@, q.schema().args@[i].arg_name@) + ": "@ + q.schema().args@[i].gql_type@,
        ),
        q.query_parts(true).2.contains_key(var_name(q.schema().root@, q.schema().args@[i].arg_name@)),
        q.query_parts(true).2[var_name(q.schema().root@, q.schema().args@[i].arg_name@)] == var_model(q.values()[i]->0),
        forall|k: Seq<char>| #[trigger] q.query_parts(true).2.contains_key(k) ==> exists|j: int|
            0 <= j < q.schema().args@.len() && q.values()[j] is Some && k == var_name(
                q.schema().root@,
                (#[trigger] q.schema().args@[j]).arg_name@,
            ),
{
    let root = q.schema().root@;
    let defs = q.schema().args@;
    let n = defs.len();
    lemma_arg_texts_contain(root, defs, q.values(), true, n, i);
    lemma_decl_texts_contain(root, defs, q.values(), n, i);
    lemma_var_values_value(root, defs, q.values(), n, i);
    lemma_var_values_keys(root, defs, q.values(), n);
}

/// Law (booleans are written as themselves): inline compilation writes a boolean argument as
/// `true` or `false` according to its value, whatever the argument's kind, so the two values
/// give different texts; a given boolean argument reads `name: true` or `name: false`.
pub proof fn law_inline_boolean_literal(k: ArgKind, b: bool, root: Seq<char>, d: ArgDef)
    ensures
        inline_value(k, ArgValue::Bool(b)) == (if b { seq!['t', 'r', 'u', 'e'] } else { seq!['f', 'a', 'l', 's', 'e'] }),
        inline_value(k, ArgValue::Bool(true)) != inline_value(k, ArgValue::Bool(false)),
        arg_text(root, d, ArgValue::Bool(b), false) == d.gql_name@ + seq![':', ' '] + (if b {
            seq!['t', 'r', 'u', 'e']
        } else {
            seq!['f', 'a', 'l', 's', 'e']
        }),
{
    reveal_strlit("true");
    reveal_strlit("false");
    reveal_strlit(": ");
    assert("true"@ =~= seq!['t', 'r', 'u', 'e']);
    assert("false"@ =~= seq!['f', 'a', 'l', 's', 'e']);
    assert(": "@ =~= seq![':', ' ']);
    assert(seq!['t', 'r', 'u', 'e'][0] != seq!['f', 'a', 'l', 's', 'e'][0]);
}

} // verus!
