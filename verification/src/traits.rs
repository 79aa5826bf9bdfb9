//! Trait contracts for field selectors, query builders, composite documents and metrics.
use vstd::prelude::*;
use vstd::string::*;
use crate::error::{MoongqlError, MoongqlResult};
use crate::payload::{VarModel, Variables};
use crate::text::join;

verus! {

/// A field selector: renders its selection and measures its complexity and depth.
pub trait BuildableSelector {
    /// Text of the compiled field selection.
    spec fn spec_build(&self) -> Seq<char>;

    /// Complexity weight of the selector's root node; 1 unless the selector states its own.
    open spec fn spec_root_complexity(&self) -> nat {
        1
    }

    /// Summed complexity of the selected child fields (root excluded).
    spec fn spec_fields_complexity(&self) -> nat;

    /// Nesting depth of the selection (1 for scalar-only selections).
    spec fn spec_depth(&self) -> nat;

    /// Whether the selector's internal state is consistent.
    spec fn spec_valid(&self) -> bool;

    /// Compiles the selected fields into a canonical, alphabetically sorted selection text.
    fn build(&self) -> (r: String)
        requires
            self.spec_valid(),
        ensures
            r@ == self.spec_build(),
    ;

    /// Complexity weight of the root node.
    fn root_complexity(&self) -> (r: u32)
        requires
            self.spec_valid(),
        ensures
            r == self.spec_root_complexity(),
    ;

    /// Summed complexity of the selected child fields.
    fn fields_complexity(&self) -> (r: u32)
        requires
            self.spec_valid(),
            self.spec_fields_complexity() <= u32::MAX,
        ensures
            r == self.spec_fields_complexity(),
    ;

    /// Total complexity: root weight plus the child fields' complexity.
    fn complexity(&self) -> (r: u32)
        requires
            self.spec_valid(),
            self.spec_root_complexity() + self.spec_fields_complexity() <= u32::MAX,
        ensures
            r == self.spec_root_complexity() + self.spec_fields_complexity(),
    {
        self.root_complexity() + self.fields_complexity()
    }

    /// Nesting depth of the selection.
    fn depth(&self) -> (r: u32)
        requires
            self.spec_valid(),
            self.spec_depth() <= u32::MAX,
        ensures
            r == self.spec_depth(),
    ;
}

/// A query structure whose complexity and depth can be inspected before dispatch.
pub trait GqlInspectable {
    /// Calculated complexity score.
    spec fn spec_complexity(&self) -> nat;

    /// Calculated nesting depth.
    spec fn spec_depth(&self) -> nat;

    /// Locally configured complexity limit; none unless the structure states one.
    open spec fn spec_max_complexity(&self) -> Option<u32> {
        None
    }

    /// Locally configured depth limit; none unless the structure states one.
    open spec fn spec_max_depth(&self) -> Option<u32> {
        None
    }

    /// Whether the structure's internal state is consistent.
    spec fn spec_inspectable(&self) -> bool;

    /// The calculated complexity score.
    fn complexity(&self) -> (r: u32)
        requires
            self.spec_inspectable(),
            self.spec_complexity() <= u32::MAX,
        ensures
            r == self.spec_complexity(),
    ;

    /// The calculated nesting depth.
    fn depth(&self) -> (r: u32)
        requires
            self.spec_inspectable(),
            self.spec_depth() <= u32::MAX,
        ensures
            r == self.spec_depth(),
    ;

    /// The locally configured complexity limit, or `None` to use the validator's default.
    fn max_complexity(&self) -> (r: Option<u32>)
        requires
            self.spec_inspectable(),
        ensures
            r == self.spec_max_complexity(),
    ;

    /// The locally configured depth limit, or `None` to use the validator's default.
    fn max_depth(&self) -> (r: Option<u32>)
        requires
            self.spec_inspectable(),
        ensures
            r == self.spec_max_depth(),
    ;
}

/// A query structure whose arguments can be validated before dispatch.
pub trait GqlValidatable {
    /// `None` when every argument satisfies its rules, else the detail of the first violation.
    spec fn spec_validation(&self) -> Option<Seq<char>>;

    /// Whether the structure's internal state is consistent.
    spec fn spec_validatable(&self) -> bool;

    /// Validates all configured arguments against their rules.
    fn validate_args(&self) -> (r: MoongqlResult<()>)
        requires
            self.spec_validatable(),
        ensures
            match self.spec_validation() {
                None => r is Ok,
                Some(detail) => r matches Err(MoongqlError::ValidationError(m)) && m@ == detail,
            },
    ;
}

/// The inline document that wraps one compiled root query.
pub open spec fn inline_document(body: Seq<char>) -> Seq<char> {
    "query { "@ + body + " }"@
}

/// A fully configured query, ready to be compiled.
pub trait BuildableQuery: GqlInspectable + GqlValidatable {
    /// Body text, variable declarations and variable values of the compiled query.
    spec fn spec_query_parts(&self, use_variables: bool) -> (Seq<char>, Seq<Seq<char>>, Map<Seq<char>, VarModel>);

    /// Whether the structure's internal state is consistent.
    spec fn spec_buildable(&self) -> bool;

    /// Compiles the query into its body, its variable declarations and its variable values.
    fn _build_query_parts(&self, use_variables: bool) -> (r: (String, Vec<String>, Variables))
        requires
            self.spec_buildable(),
        ensures
            (r.0@, r.1@.map_values(|d: String| d@), r.2@) == self.spec_query_parts(use_variables),
    ;

    /// Compiles a self-contained inline document `query { ... }`.
    fn _build_query(&self) -> (r: String)
        requires
            self.spec_buildable(),
        ensures
            r@ == inline_document(self.spec_query_parts(false).0),
    {
        let (q, _, _) = self._build_query_parts(false);
        let mut r = String::from_str("query { ");
        r.append(q.as_str());
        r.append(" }");
        proof {
            reveal_strlit("query { ");
            reveal_strlit(" }");
        }
        r
    }
}

/// The document that joins the root queries of a composite under one operation.
pub open spec fn composite_document(roots: Seq<Seq<char>>, decls: Seq<Seq<char>>) -> Seq<char> {
    let body = join(roots, " "@);
    if decls.len() > 0 {
        "query ("@ + join(decls, ", "@) + ") { "@ + body + " }"@
    } else {
        "query { "@ + body + " }"@
    }
}

/// A multi-root document combining several independent queries into one request.
pub trait CompositeQueryDocument: GqlInspectable + GqlValidatable {
    /// Compiled root queries, merged variable declarations and merged variable values.
    spec fn spec_payload_details(&self) -> (Seq<Seq<char>>, Seq<Seq<char>>, Map<Seq<char>, VarModel>);

    /// Whether variable parametrization is enabled.
    spec fn spec_uses_variables(&self) -> bool;

    /// Whether the structure's internal state is consistent.
    spec fn spec_composable(&self) -> bool;

    /// Enables or disables variable parametrization.
    fn use_variables(&mut self, enable: bool)
        requires
            old(self).spec_composable(),
        ensures
            final(self).spec_composable(),
            final(self).spec_uses_variables() == enable,
    ;

    /// Compiles every root query and merges their declarations and variables.
    fn build_payload_details(&self) -> (r: (Vec<String>, Vec<String>, Variables))
        requires
            self.spec_composable(),
        ensures
            (r.0@.map_values(|q: String| q@), r.1@.map_values(|d: String| d@), r.2@) == self.spec_payload_details(),
    ;

    /// Compiles the final document and its variables (`None` when there are none).
    fn build_payload_parts(&self) -> (r: (String, Option<Variables>))
        requires
            self.spec_composable(),
        ensures
            r.0@ == composite_document(self.spec_payload_details().0, self.spec_payload_details().1),
            match r.1 {
                None => self.spec_payload_details().2.len() == 0,
                Some(v) => v@ == self.spec_payload_details().2 && v@.len() > 0,
            },
    {
        let (roots, decls, vars) = self.build_payload_details();
        let body = crate::text::join_strings(&roots, " ");
        let mut doc: String;
        proof {
            reveal_strlit(" ");
            reveal_strlit(", ");
            reveal_strlit("query (");
            reveal_strlit(") { ");
            reveal_strlit("query { ");
            reveal_strlit(" }");
        }
        if decls.len() > 0 {
            doc = String::from_str("query (");
            let d = crate::text::join_strings(&decls, ", ");
            doc.append(d.as_str());
            doc.append(") { ");
        } else {
            doc = String::from_str("query { ");
        }
        doc.append(body.as_str());
        doc.append(" }");
        assert(crate::text::texts(roots@) == roots@.map_values(|q: String| q@));
        assert(crate::text::texts(decls@) == decls@.map_values(|d: String| d@));
        let v = if vars.is_empty() {
            None
        } else {
            Some(vars)
        };
        (doc, v)
    }
}

} // verus!
