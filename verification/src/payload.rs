//! GraphQL transport models: variable dictionaries, request payloads and server responses.
use vstd::prelude::*;
use crate::text::{copy_strings, str_eq};

verus! {

/// A GraphQL variable value.
#[derive(Debug, Clone, PartialEq, Eq)]
pub enum VarValue {
    /// A JSON integer.
    Int(i64),
    /// A JSON boolean.
    Bool(bool),
    /// A JSON string.
    Str(String),
    /// A JSON array of strings.
    StrList(Vec<String>),
    /// Any other JSON value, kept as its serialized JSON text.
    Raw(String),
}

impl VarValue {
    /// A copy of this value.
    pub fn duplicate(&self) -> (r: VarValue)
        ensures
            r@ == self@,
    {
        match self {
            VarValue::Int(i) => VarValue::Int(*i),
            VarValue::Bool(b) => VarValue::Bool(*b),
            VarValue::Str(s) => VarValue::Str(s.clone()),
            VarValue::StrList(items) => VarValue::StrList(copy_strings(items)),
            VarValue::Raw(s) => VarValue::Raw(s.clone()),
        }
    }
}

/// The mathematical content of a [`VarValue`].
pub enum VarModel {
    Int(i64),
    Bool(bool),
    Str(Seq<char>),
    StrList(Seq<Seq<char>>),
    Raw(Seq<char>),
}

impl View for VarValue {
    type V = VarModel;

    open spec fn view(&self) -> VarModel {
        match self {
            VarValue::Int(i) => VarModel::Int(*i),
            VarValue::Bool(b) => VarModel::Bool(*b),
            VarValue::Str(s) => VarModel::Str(s@),
            VarValue::StrList(items) => VarModel::StrList(items@.map_values(|t: String| t@)),
            VarValue::Raw(s) => VarModel::Raw(s@),
        }
    }
}

/// The model of a sequence of key/value entries.
pub open spec fn entry_models(s: Seq<(String, VarValue)>) -> Seq<(Seq<char>, VarModel)> {
    s.map_values(|e: (String, VarValue)| (e.0@, e.1@))
}

/// No key occurs twice.
pub open spec fn distinct_keys(s: Seq<(Seq<char>, VarModel)>) -> bool {
    forall|i: int, j: int| 0 <= i < j < s.len() ==> #[trigger] s[i].0 != #[trigger] s[j].0
}

/// The dictionary that a sequence of entries denotes; a later entry wins over an earlier one.
pub open spec fn entries_map(s: Seq<(Seq<char>, VarModel)>) -> Map<Seq<char>, VarModel>
    decreases s.len(),
{
    if s.len() == 0 {
        Map::empty()
    } else {
        entries_map(s.drop_last()).insert(s.last().0, s.last().1)
    }
}

/// With distinct keys, the dictionary holds exactly the entries' keys, each with its entry's value.
pub proof fn lemma_entries_map(s: Seq<(Seq<char>, VarModel)>)
    requires
        distinct_keys(s),
    ensures
        forall|k: Seq<char>| entries_map(s).contains_key(k) <==> exists|i: int| 0 <= i < s.len() && s[i].0 == k,
        forall|i: int| 0 <= i < s.len() ==> entries_map(s)[#[trigger] s[i].0] == s[i].1,
        entries_map(s).dom().finite(),
        entries_map(s).dom().len() == s.len(),
    decreases s.len(),
{
    if s.len() > 0 {
        let t = s.drop_last();
        assert(distinct_keys(t)) by {
            assert forall|i: int, j: int| 0 <= i < j < t.len() implies #[trigger] t[i].0 != #[trigger] t[j].0 by {
                assert(s[i].0 != s[j].0);
            }
        }
        lemma_entries_map(t);
        let k = s.last().0;
        assert(!entries_map(t).contains_key(k)) by {
            if entries_map(t).contains_key(k) {
                let i = choose|i: int| 0 <= i < t.len() && t[i].0 == k;
                assert(s[i].0 != s[s.len() - 1].0);
            }
        }
        assert forall|k2: Seq<char>| entries_map(s).contains_key(k2) implies exists|i: int| 0 <= i < s.len() && s[i].0 == k2 by {
            if k2 == k {
                assert(s[s.len() - 1].0 == k2);
            } else {
                let i = choose|i: int| 0 <= i < t.len() && t[i].0 == k2;
                assert(s[i].0 == k2);
            }
        }
        assert forall|k2: Seq<char>| (exists|i: int| 0 <= i < s.len() && s[i].0 == k2) implies entries_map(s).contains_key(k2) by {
            let i = choose|i: int| 0 <= i < s.len() && s[i].0 == k2;
            if i < s.len() - 1 {
                assert(t[i].0 == k2);
            }
        }
        assert forall|i: int| 0 <= i < s.len() implies entries_map(s)[#[trigger] s[i].0] == s[i].1 by {
            if i < s.len() - 1 {
                assert(t[i] == s[i]);
                assert(s[i].0 != k);
            }
        }
        assert(entries_map(s).dom() =~= entries_map(t).dom().insert(k));
    }
}

/// A dictionary of GraphQL variables (JSON object), keyed by variable name.
#[derive(Debug, PartialEq, Eq)]
pub struct Variables {
    entries: Vec<(String, VarValue)>,
}

impl View for Variables {
    type V = Map<Seq<char>, VarModel>;

    closed spec fn view(&self) -> Map<Seq<char>, VarModel> {
        entries_map(entry_models(self.entries@))
    }
}

impl Variables {
    #[verifier::type_invariant]
    closed spec fn inv(self) -> bool {
        distinct_keys(entry_models(self.entries@))
    }

    /// The empty dictionary.
    pub fn new() -> (r: Self)
        ensures
            r@ == Map::<Seq<char>, VarModel>::empty(),
    {
        let r = Variables { entries: Vec::new() };
        assert(entry_models(r.entries@) =~= Seq::<(Seq<char>, VarModel)>::empty());
        r
    }

    proof fn lemma_view(&self)
        requires
            distinct_keys(entry_models(self.entries@)),
        ensures
            forall|k: Seq<char>| self@.contains_key(k) <==> exists|i: int| 0 <= i < self.entries@.len() && self.entries@[i].0@ == k,
            forall|i: int| 0 <= i < self.entries@.len() ==> self@[#[trigger] self.entries@[i].0@] == self.entries@[i].1@,
            self@.dom().finite(),
            self@.dom().len() == self.entries@.len(),
    {
        let m = entry_models(self.entries@);
        lemma_entries_map(m);
        assert forall|k: Seq<char>| self@.contains_key(k) implies exists|i: int| 0 <= i < self.entries@.len() && self.entries@[i].0@ == k by {
            let i = choose|i: int| 0 <= i < m.len() && m[i].0 == k;
            assert(self.entries@[i].0@ == k);
        }
        assert forall|k: Seq<char>| (exists|i: int| 0 <= i < self.entries@.len() && self.entries@[i].0@ == k) implies self@.contains_key(k) by {
            let i = choose|i: int| 0 <= i < self.entries@.len() && self.entries@[i].0@ == k;
            assert(m[i].0 == k);
        }
        assert forall|i: int| 0 <= i < self.entries@.len() implies self@[#[trigger] self.entries@[i].0@] == self.entries@[i].1@ by {
            assert(m[i].0 == self.entries@[i].0@);
        }
    }

    /// Number of variables.
    pub fn len(&self) -> (r: usize)
        ensures
            r == self@.len(),
    {
        proof {
            use_type_invariant(&*self);
            self.lemma_view();
        }
        self.entries.len()
    }

    /// Whether the dictionary holds no variable.
    pub fn is_empty(&self) -> (r: bool)
        ensures
            r == (self@.len() == 0),
    {
        proof {
            use_type_invariant(&*self);
            self.lemma_view();
        }
        self.entries.len() == 0
    }

    fn find(&self, key: &str) -> (r: Option<usize>)
        ensures
            match r {
                Some(i) => i < self.entries@.len() && self.entries@[i as int].0@ == key@,
                None => !self@.contains_key(key@),
            },
    {
        proof {
            use_type_invariant(&*self);
            self.lemma_view();
        }
        let n = self.entries.len();
        let mut i: usize = 0;
        while i < n
            invariant
                n == self.entries@.len(),
                i <= n,
                forall|j: int| 0 <= j < i ==> self.entries@[j].0@ != key@,
            decreases n - i,
        {
            if str_eq(self.entries[i].0.as_str(), key) {
                return Some(i);
            }
            i = i + 1;
        }
        None
    }

    /// The value of variable `key`, if present.
    pub fn get(&self, key: &str) -> (r: Option<&VarValue>)
        ensures
            r is Some <==> self@.contains_key(key@),
            r matches Some(v) ==> self@[key@] == v@,
    {
        proof {
            use_type_invariant(&*self);
            self.lemma_view();
        }
        match self.find(key) {
            Some(i) => Some(&self.entries[i].1),
            None => None,
        }
    }

    /// Sets variable `key` to `value`, replacing any previous value.
    pub fn insert(&mut self, key: String, value: VarValue)
        ensures
            final(self)@ == old(self)@.insert(key@, value@),
    {
        proof {
            use_type_invariant(&*self);
            self.lemma_view();
        }
        let ghost old_map = self@;
        let ghost old_m = entry_models(self.entries@);
        match self.find(key.as_str()) {
            Some(i) => {
                let ghost k = key@;
                let ghost vm = value@;
                let mut entries: Vec<(String, VarValue)> = Vec::new();
                std::mem::swap(&mut entries, &mut self.entries);
                entries.set(i, (key, value));
                let ghost new_m = entry_models(entries@);
                assert(new_m =~= old_m.update(i as int, (k, vm)));
                assert(distinct_keys(new_m)) by {
                    assert forall|a: int, b: int| 0 <= a < b < new_m.len() implies #[trigger] new_m[a].0 != #[trigger] new_m[b].0 by {
                        if a != i && b != i {
                            assert(old_m[a].0 != old_m[b].0);
                        } else if a == i {
                            assert(old_m[a].0 != old_m[b].0);
                        } else {
                            assert(old_m[a].0 != old_m[b].0);
                        }
                    }
                }
                proof {
                    lemma_entries_map(new_m);
                    lemma_entries_map(old_m);
                    assert forall|k2: Seq<char>| entries_map(new_m).contains_key(k2) <==> old_map.insert(k, vm).contains_key(k2) by {
                        if entries_map(new_m).contains_key(k2) {
                            let j = choose|j: int| 0 <= j < new_m.len() && new_m[j].0 == k2;
                            if j != i {
                                assert(old_m[j].0 == k2);
                            }
                        }
                        if old_map.contains_key(k2) && k2 != k {
                            let j = choose|j: int| 0 <= j < old_m.len() && old_m[j].0 == k2;
                            assert(new_m[j].0 == k2);
                        }
                        if k2 == k {
                            assert(new_m[i as int].0 == k2);
                        }
                    }
                    assert forall|k2: Seq<char>| #[trigger] entries_map(new_m).contains_key(k2) implies entries_map(new_m)[k2] == old_map.insert(k, vm)[k2] by {
                        let j = choose|j: int| 0 <= j < new_m.len() && new_m[j].0 == k2;
                        assert(entries_map(new_m)[new_m[j].0] == new_m[j].1);
                        assert(new_m[i as int] == (k, vm));
                        if j == i {
                            assert(old_map.insert(k, vm)[k] == vm);
                        } else {
                            assert(new_m[j].0 != new_m[i as int].0);
                            assert(old_m[j] == new_m[j]);
                            assert(old_m[j].0 == k2);
                            assert(old_map[old_m[j].0] == old_m[j].1);
                            assert(k2 != k);
                        }
                    }
                    assert(entries_map(new_m) =~= old_map.insert(k, vm));
                }
                self.entries = entries;
            },
            None => {
                let ghost k = key@;
                let ghost vm = value@;
                let mut entries: Vec<(String, VarValue)> = Vec::new();
                std::mem::swap(&mut entries, &mut self.entries);
                entries.push((key, value));
                let ghost new_m = entry_models(entries@);
                assert(new_m =~= old_m.push((k, vm)));
                assert(new_m.drop_last() =~= old_m);
                assert(distinct_keys(new_m)) by {
                    assert forall|a: int, b: int| 0 <= a < b < new_m.len() implies #[trigger] new_m[a].0 != #[trigger] new_m[b].0 by {
                        if b < old_m.len() {
                            assert(old_m[a].0 != old_m[b].0);
                        } else {
                            assert(old_map.contains_key(old_m[a].0));
                        }
                    }
                }
                self.entries = entries;
            },
        }
    }

    /// Copies every variable of `other` into `self`; values of `other` win on shared names.
    pub fn extend(&mut self, other: &Variables)
        ensures
            final(self)@ == old(self)@.union_prefer_right(other@),
    {
        proof {
            use_type_invariant(other);
            other.lemma_view();
        }
        let ghost start = self@;
        let n = other.entries.len();
        let mut i: usize = 0;
        while i < n
            invariant
                n == other.entries@.len(),
                i <= n,
                distinct_keys(entry_models(other.entries@)),
                forall|k: Seq<char>| other@.contains_key(k) <==> exists|j: int| 0 <= j < other.entries@.len() && other.entries@[j].0@ == k,
                forall|j: int| 0 <= j < other.entries@.len() ==> other@[#[trigger] other.entries@[j].0@] == other.entries@[j].1@,
                self@ == start.union_prefer_right(entries_map(entry_models(other.entries@.take(i as int)))),
            decreases n - i,
        {
            let key = other.entries[i].0.clone();
            let value = other.entries[i].1.duplicate();
            let ghost before = self@;
            self.insert(key, value);
            i = i + 1;
            proof {
                let t = entry_models(other.entries@.take(i as int));
                assert(t.drop_last() =~= entry_models(other.entries@.take(i - 1)));
                assert(self@ =~= start.union_prefer_right(entries_map(t)));
            }
        }
        proof {
            assert(other.entries@.take(n as int) =~= other.entries@);
        }
    }

    /// The variables as (name, value) entries, each name once.
    pub fn entries(&self) -> (r: &Vec<(String, VarValue)>)
        ensures
            r@.len() == self@.len(),
            forall|i: int| 0 <= i < r@.len() ==> self@.contains_key(#[trigger] r@[i].0@) && self@[r@[i].0@] == r@[i].1@,
            forall|k: Seq<char>| self@.contains_key(k) ==> exists|i: int| 0 <= i < r@.len() && r@[i].0@ == k,
    {
        proof {
            use_type_invariant(&*self);
            self.lemma_view();
        }
        &self.entries
    }
}

impl Clone for Variables {
    fn clone(&self) -> (r: Self)
        ensures
            r@ == self@,
    {
        let mut r = Variables::new();
        r.extend(self);
        assert(r@ =~= self@);
        r
    }
}

/// Line and column (both 1-based) of an error within the GraphQL document.
#[derive(Debug, Clone, PartialEq, Eq)]
pub struct GraphQLLocation {
    /// Line number.
    pub line: u32,
    /// Column number.
    pub column: u32,
}

/// One element of the path to the field that caused a server error.
#[derive(Debug, Clone, PartialEq, Eq)]
pub enum PathSegment {
    /// An object field name.
    Key(String),
    /// A list index.
    Index(u64),
}

/// A server-side GraphQL execution error.
#[derive(Debug, Clone, PartialEq, Eq)]
pub struct GraphQLError {
    /// Human-readable error message.
    pub message: String,
    /// Locations in the document where the error arose.
    pub locations: Option<Vec<GraphQLLocation>>,
    /// Path to the offending field.
    pub path: Option<Vec<PathSegment>>,
}

/// The response envelope of a GraphQL endpoint: data, errors, or both.
#[derive(Debug, Clone, PartialEq)]
pub struct GraphQLResponse<T> {
    /// Data returned on full or partial success.
    pub data: Option<T>,
    /// Errors reported by the server.
    pub errors: Option<Vec<GraphQLError>>,
}

/// The JSON body sent to a GraphQL endpoint.
#[derive(Debug, Clone, PartialEq, Eq)]
pub struct GraphQLPayload {
    /// Operation to run when the document holds several.
    pub operation_name: Option<String>,
    /// The GraphQL document.
    pub query: String,
    /// Variable values.
    pub variables: Option<Variables>,
}

} // verus!
