//! The library's main items, for import in one place.
pub use crate::batch::{BatchDocumentBuilder, collect_results};
pub use crate::composite::CompositeQuery;
pub use crate::error::{MoongqlError, MoongqlResult};
pub use crate::i18n::Locale;
pub use crate::metrics::MetricValidator;
pub use crate::payload::{
    GraphQLError, GraphQLLocation, GraphQLPayload, GraphQLResponse, PathSegment, VarValue, Variables,
};
pub use crate::query::{ArgDef, QueryBuilder, QuerySchema};
pub use crate::selector::{FieldDef, IntoSelectorClosure, Selector, SelectorSchema};
pub use crate::traits::{
    BuildableQuery, BuildableSelector, CompositeQueryDocument, GqlInspectable, GqlValidatable,
};
pub use crate::validation::{ArgKind, ArgMeta, ArgPredicate, ArgValue, NoCustomRules, Rule};
