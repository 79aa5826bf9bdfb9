//! Argument metadata, argument values and the declarative validation rules applied to them.
use vstd::prelude::*;
use vstd::string::*;
use crate::i18n::{BoundKind, Locale, bound_message, bound_text};
use crate::text::{append_i64, dec_digits, int_text, u128_text, utf8_byte_len, utf8_len};

verus! {

/// Metadata describing a validated argument, handed to custom validation predicates.
#[derive(Debug, Clone, Copy, PartialEq, Eq)]
pub struct ArgMeta {
    /// Argument identifier on the builder (e.g. `"limit"`).
    pub arg_name: &'static str,
    /// Argument identifier in the remote GraphQL schema (e.g. `"excludeIds"`).
    pub gql_arg_name: &'static str,
    /// Root query the argument belongs to (e.g. `"animes"`).
    pub root_query: &'static str,
}

impl ArgMeta {
    /// Builds an argument metadata descriptor.
    pub fn new(arg_name: &'static str, gql_arg_name: &'static str, root_query: &'static str) -> (r: Self)
        ensures
            r.arg_name == arg_name,
            r.gql_arg_name == gql_arg_name,
            r.root_query == root_query,
    {
        ArgMeta { arg_name, gql_arg_name, root_query }
    }
}

/// How an argument is represented in a GraphQL document.
#[derive(Debug, Clone, Copy, PartialEq, Eq)]
pub enum ArgKind {
    /// Numbers and booleans, written bare (`limit: 10`).
    Scalar,
    /// Text, written in double quotes (`search: "Overlord"`).
    Str,
    /// A value rendered through its textual form, written in double quotes (`order: "ranked"`).
    Display,
    /// A schema enum value, written bare (`order: ranked`).
    Enum,
    /// A list of texts, written as a bracketed list of quoted items (`ids: ["1", "2"]`).
    List,
}

/// The value given to an argument.
#[derive(Debug, Clone, PartialEq, Eq)]
pub enum ArgValue {
    /// An integer.
    Int(i64),
    /// A boolean.
    Bool(bool),
    /// A text (for `Str`, `Display` and `Enum` arguments).
    Text(String),
    /// A list of texts.
    List(Vec<String>),
}

/// Whether a value of this shape may be given to an argument of kind `k`.
pub open spec fn fits_kind(k: ArgKind, v: ArgValue) -> bool {
    match k {
        ArgKind::Scalar => v is Int || v is Bool,
        ArgKind::Str | ArgKind::Display | ArgKind::Enum => v is Text,
        ArgKind::List => v is List,
    }
}

/// Decides `fits_kind`.
pub fn value_fits_kind(k: ArgKind, v: &ArgValue) -> (r: bool)
    ensures
        r == fits_kind(k, *v),
{
    match k {
        ArgKind::Scalar => matches!(v, ArgValue::Int(_)) || matches!(v, ArgValue::Bool(_)),
        ArgKind::Str | ArgKind::Display | ArgKind::Enum => matches!(v, ArgValue::Text(_)),
        ArgKind::List => matches!(v, ArgValue::List(_)),
    }
}

/// A declarative validation rule attached to an argument.
#[derive(Debug, Clone, Copy, PartialEq, Eq)]
pub enum Rule {
    /// The argument must be given.
    Required,
    /// An integer argument must lie in `lo..=hi`.
    Range { lo: i64, hi: i64 },
    /// An integer argument must be at least this value.
    Min(i64),
    /// An integer argument must be at most this value.
    Max(i64),
    /// A text (by UTF-8 byte length) or list (by item count) must be at least this long.
    MinLen(u64),
    /// A text (by UTF-8 byte length) or list (by item count) must be at most this long.
    MaxLen(u64),
    /// A predicate supplied by the user, identified by this number.
    Custom(u32),
}

/// User-supplied validation predicates, referenced by `Rule::Custom`.
///
/// A builder asks its predicates when an argument is given and keeps each answer beside the
/// value; validation then reports the kept answers in rule order. An implementation states its
/// answers by defining `answer` and setting `obeys_answer_spec` to `true`; one that keeps the
/// defaults (as one written outside verified code does) claims nothing about them.
pub trait ArgPredicate {
    /// Whether `check` answers as `answer` says.
    open spec fn obeys_answer_spec() -> bool {
        false
    }

    /// What predicate `rule` answers about `value`: `None` to accept, `Some(message)` to reject.
    open spec fn answer(&self, rule: u32, value: ArgValue, meta: ArgMeta) -> Option<Seq<char>> {
        None
    }

    /// Runs predicate `rule` on `value`: `None` when it accepts, `Some(message)` when it rejects.
    fn check(&self, rule: u32, value: &ArgValue, meta: &ArgMeta) -> (r: Option<String>)
        ensures
            Self::obeys_answer_spec() ==> answer_view(r) == self.answer(rule, *value, *meta),
    ;
}

/// The predicate set that accepts every value.
#[derive(Debug, Clone, Copy, PartialEq, Eq, Default)]
pub struct NoCustomRules;

impl ArgPredicate for NoCustomRules {
    open spec fn obeys_answer_spec() -> bool {
        true
    }

    open spec fn answer(&self, rule: u32, value: ArgValue, meta: ArgMeta) -> Option<Seq<char>> {
        None
    }

    fn check(&self, rule: u32, value: &ArgValue, meta: &ArgMeta) -> (r: Option<String>) {
        None
    }
}

/// The view of a predicate's answer.
pub open spec fn answer_view(a: Option<String>) -> Option<Seq<char>> {
    match a {
        Some(m) => Some(m@),
        None => None,
    }
}

/// The views of kept predicate answers.
pub open spec fn answer_views(answers: Seq<Option<String>>) -> Seq<Option<Seq<char>>> {
    answers.map_values(|a: Option<String>| answer_view(a))
}

/// The length that length rules measure: UTF-8 bytes of a text, items of a list.
pub open spec fn value_len(v: ArgValue) -> Option<nat> {
    match v {
        ArgValue::Text(t) => Some(utf8_len(t@)),
        ArgValue::List(items) => Some(items@.len()),
        _ => None,
    }
}

/// Spelling of an inclusive range as `lo..=hi`.
pub open spec fn range_text(lo: i64, hi: i64) -> Seq<char> {
    int_text(lo as int) + "..="@ + int_text(hi as int)
}

/// The message with which `rule` rejects `v`, or `None` when it accepts `v`.
/// Numeric rules only judge integers and length rules only judge texts and lists; a custom
/// rule judges as its predicate answered (`answer`).
pub open spec fn rule_verdict(l: Locale, rule: Rule, answer: Option<Seq<char>>, v: ArgValue, meta: ArgMeta) -> Option<Seq<char>> {
    let arg = meta.arg_name@;
    let q = meta.root_query@;
    match rule {
        Rule::Required => None,
        Rule::Range { lo, hi } => match v {
            ArgValue::Int(x) => if lo <= x && x <= hi {
                None
            } else {
                Some(bound_text(l, BoundKind::Range, arg, q, range_text(lo, hi), int_text(x as int)))
            },
            _ => None,
        },
        Rule::Min(m) => match v {
            ArgValue::Int(x) => if x < m {
                Some(bound_text(l, BoundKind::Min, arg, q, int_text(m as int), int_text(x as int)))
            } else {
                None
            },
            _ => None,
        },
        Rule::Max(m) => match v {
            ArgValue::Int(x) => if x > m {
                Some(bound_text(l, BoundKind::Max, arg, q, int_text(m as int), int_text(x as int)))
            } else {
                None
            },
            _ => None,
        },
        Rule::MinLen(n) => match value_len(v) {
            Some(len) => if len < n {
                Some(bound_text(l, BoundKind::MinLen, arg, q, dec_digits(n as nat), dec_digits(len)))
            } else {
                None
            },
            None => None,
        },
        Rule::MaxLen(n) => match value_len(v) {
            Some(len) => if len > n {
                Some(bound_text(l, BoundKind::MaxLen, arg, q, dec_digits(n as nat), dec_digits(len)))
            } else {
                None
            },
            None => None,
        },
        Rule::Custom(id) => answer,
    }
}

/// The message of the first rule of `rules`, from index `i` on, that rejects `v` (`answers`
/// holds the predicates' answers, rule by rule), or `None` when all accept it.
pub open spec fn rules_verdict(
    l: Locale,
    rules: Seq<Rule>,
    answers: Seq<Option<Seq<char>>>,
    v: ArgValue,
    meta: ArgMeta,
    i: nat,
) -> Option<Seq<char>>
    decreases rules.len() - i,
{
    if i >= rules.len() {
        None
    } else {
        match rule_verdict(l, rules[i as int], answers[i as int], v, meta) {
            Some(m) => Some(m),
            None => rules_verdict(l, rules, answers, v, meta, i + 1),
        }
    }
}

/// Whether `rules` declares the argument required.
pub open spec fn is_required(rules: Seq<Rule>) -> bool {
    exists|i: int| 0 <= i < rules.len() && rules[i] is Required
}

/// Decides `is_required`.
pub fn rules_require(rules: &Vec<Rule>) -> (r: bool)
    ensures
        r == is_required(rules@),
{
    let n = rules.len();
    let mut i: usize = 0;
    while i < n
        invariant
            n == rules@.len(),
            i <= n,
            forall|j: int| 0 <= j < i ==> !(rules@[j] is Required),
        decreases n - i,
    {
        if matches!(rules[i], Rule::Required) {
            return true;
        }
        i = i + 1;
    }
    false
}

fn range_string(lo: i64, hi: i64) -> (r: String)
    ensures
        r@ == range_text(lo, hi),
{
    let mut s = String::new();
    append_i64(&mut s, lo);
    s.append("..=");
    append_i64(&mut s, hi);
    proof {
        reveal_strlit("..=");
    }
    s
}

fn i64_string(v: i64) -> (r: String)
    ensures
        r@ == int_text(v as int),
{
    let mut s = String::new();
    append_i64(&mut s, v);
    s
}

fn measured_len(v: &ArgValue) -> (r: Option<u128>)
    ensures
        match value_len(*v) {
            Some(n) => r == Some(n as u128) && n <= u128::MAX,
            None => r is None,
        },
{
    match v {
        ArgValue::Text(t) => Some(utf8_byte_len(t.as_str())),
        ArgValue::List(items) => Some(items.len() as u128),
        _ => None,
    }
}

/// Applies one rule to a value; a custom rule gives back `answer`, the predicate's answer.
pub fn check_rule(l: Locale, rule: Rule, answer: &Option<String>, v: &ArgValue, meta: &ArgMeta) -> (r: Option<String>)
    ensures
        r is None <==> rule_verdict(l, rule, answer_view(*answer), *v, *meta) is None,
        r matches Some(m) ==> rule_verdict(l, rule, answer_view(*answer), *v, *meta) == Some(m@),
{
    match rule {
        Rule::Required => None,
        Rule::Range { lo, hi } => match v {
            ArgValue::Int(x) => if lo <= *x && *x <= hi {
                None
            } else {
                Some(bound_message(l, BoundKind::Range, meta.arg_name, meta.root_query, range_string(lo, hi), i64_string(*x)))
            },
            _ => None,
        },
        Rule::Min(m) => match v {
            ArgValue::Int(x) => if *x < m {
                Some(bound_message(l, BoundKind::Min, meta.arg_name, meta.root_query, i64_string(m), i64_string(*x)))
            } else {
                None
            },
            _ => None,
        },
        Rule::Max(m) => match v {
            ArgValue::Int(x) => if *x > m {
                Some(bound_message(l, BoundKind::Max, meta.arg_name, meta.root_query, i64_string(m), i64_string(*x)))
            } else {
                None
            },
            _ => None,
        },
        Rule::MinLen(n) => match measured_len(v) {
            Some(len) => if len < n as u128 {
                Some(bound_message(l, BoundKind::MinLen, meta.arg_name, meta.root_query, u128_text(n as u128), u128_text(len)))
            } else {
                None
            },
            None => None,
        },
        Rule::MaxLen(n) => match measured_len(v) {
            Some(len) => if len > n as u128 {
                Some(bound_message(l, BoundKind::MaxLen, meta.arg_name, meta.root_query, u128_text(n as u128), u128_text(len)))
            } else {
                None
            },
            None => None,
        },
        Rule::Custom(_) => match answer {
            Some(m) => Some(m.clone()),
            None => None,
        },
    }
}

/// Applies `rules` in order and reports the first rejection; `answers` holds the predicates'
/// answers, rule by rule.
pub fn check_rules(l: Locale, rules: &Vec<Rule>, answers: &Vec<Option<String>>, v: &ArgValue, meta: &ArgMeta) -> (r: Option<String>)
    requires
        answers@.len() == rules@.len(),
    ensures
        r is None <==> rules_verdict(l, rules@, answer_views(answers@), *v, *meta, 0) is None,
        r matches Some(m) ==> rules_verdict(l, rules@, answer_views(answers@), *v, *meta, 0) == Some(m@),
{
    let n = rules.len();
    let mut i: usize = 0;
    while i < n
        invariant
            n == rules@.len(),
            n == answers@.len(),
            i <= n,
            rules_verdict(l, rules@, answer_views(answers@), *v, *meta, 0)
                == rules_verdict(l, rules@, answer_views(answers@), *v, *meta, i as nat),
        decreases n - i,
    {
        assert(answer_view(answers@[i as int]) == answer_views(answers@)[i as int]);
        match check_rule(l, rules[i], &answers[i], v, meta) {
            Some(m) => {
                return Some(m);
            },
            None => {},
        }
        i = i + 1;
    }
    None
}

/// Asks the predicates of every custom rule of `rules` about `v`; other rules get `None`.
pub fn ask_predicates<P: ArgPredicate>(p: &P, rules: &Vec<Rule>, v: &ArgValue, meta: &ArgMeta) -> (r: Vec<Option<String>>)
    ensures
        r@.len() == rules@.len(),
        forall|j: int| 0 <= j < rules@.len() && !(rules@[j] is Custom) ==> #[trigger] r@[j] is None,
        P::obeys_answer_spec() ==> forall|j: int| 0 <= j < rules@.len() ==> (#[trigger] rules@[j] matches Rule::Custom(id)
            ==> answer_view(r@[j]) == p.answer(id, *v, *meta)),
{
    let n = rules.len();
    let mut answers: Vec<Option<String>> = Vec::new();
    let mut i: usize = 0;
    while i < n
        invariant
            n == rules@.len(),
            i <= n,
            answers@.len() == i,
            forall|j: int| 0 <= j < i && !(rules@[j] is Custom) ==> #[trigger] answers@[j] is None,
            P::obeys_answer_spec() ==> forall|j: int| 0 <= j < i ==> (#[trigger] rules@[j] matches Rule::Custom(id)
                ==> answer_view(answers@[j]) == p.answer(id, *v, *meta)),
        decreases n - i,
    {
        match rules[i] {
            Rule::Custom(id) => answers.push(p.check(id, v, meta)),
            _ => answers.push(None),
        }
        i = i + 1;
    }
    answers
}

/// Law (bounds mean what they say): a `Range { lo, hi }` rule accepts an integer exactly when
/// `lo <= x <= hi`, a `Min(m)` rule exactly when `x >= m`, a `Max(m)` rule exactly when
/// `x <= m`; a rejection carries the rule's range, minimum or maximum message for `x`.
pub proof fn law_numeric_rules(l: Locale, lo: i64, hi: i64, m: i64, x: i64, answer: Option<Seq<char>>, meta: ArgMeta)
    ensures
        rule_verdict(l, Rule::Range { lo, hi }, answer, ArgValue::Int(x), meta) is None <==> (lo <= x && x <= hi),
        !(lo <= x && x <= hi) ==> rule_verdict(l, Rule::Range { lo, hi }, answer, ArgValue::Int(x), meta) == Some(
            bound_text(l, BoundKind::Range, meta.arg_name@, meta.root_query@, range_text(lo, hi), int_text(x as int)),
        ),
        rule_verdict(l, Rule::Min(m), answer, ArgValue::Int(x), meta) is None <==> x >= m,
        x < m ==> rule_verdict(l, Rule::Min(m), answer, ArgValue::Int(x), meta) == Some(
            bound_text(l, BoundKind::Min, meta.arg_name@, meta.root_query@, int_text(m as int), int_text(x as int)),
        ),
        rule_verdict(l, Rule::Max(m), answer, ArgValue::Int(x), meta) is None <==> x <= m,
        x > m ==> rule_verdict(l, Rule::Max(m), answer, ArgValue::Int(x), meta) == Some(
            bound_text(l, BoundKind::Max, meta.arg_name@, meta.root_query@, int_text(m as int), int_text(x as int)),
        ),
{
}

/// Law (length bounds): a `MinLen(n)` rule accepts a text exactly when its UTF-8 length is at
/// least `n`, and a list exactly when it has at least `n` items; a `MaxLen(n)` rule accepts
/// exactly when the length is at most `n`. Neither judges integers or booleans.
pub proof fn law_length_rules(l: Locale, n: u64, v: ArgValue, answer: Option<Seq<char>>, meta: ArgMeta)
    ensures
        v matches ArgValue::Text(t) ==> (rule_verdict(l, Rule::MinLen(n), answer, v, meta) is None <==> utf8_len(t@) >= n),
        v matches ArgValue::Text(t) ==> (rule_verdict(l, Rule::MaxLen(n), answer, v, meta) is None <==> utf8_len(t@) <= n),
        v matches ArgValue::List(items) ==> (rule_verdict(l, Rule::MinLen(n), answer, v, meta) is None <==> items@.len() >= n),
        v matches ArgValue::List(items) ==> (rule_verdict(l, Rule::MaxLen(n), answer, v, meta) is None <==> items@.len() <= n),
        (v is Int || v is Bool) ==> rule_verdict(l, Rule::MinLen(n), answer, v, meta) is None
            && rule_verdict(l, Rule::MaxLen(n), answer, v, meta) is None,
{
}

/// Law (a custom rule reports its predicate's answer, and `Required` never rejects a given value).
pub proof fn law_custom_and_required_rules(l: Locale, id: u32, v: ArgValue, answer: Option<Seq<char>>, meta: ArgMeta)
    ensures
        rule_verdict(l, Rule::Custom(id), answer, v, meta) == answer,
        rule_verdict(l, Rule::Required, answer, v, meta) is None,
{
}

} // verus!
