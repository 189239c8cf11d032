//! A runtime library for dynamic abstract type inference: values carry ids,
//! interactions between values join their ids in a union-find, and at each
//! program point the variables are partitioned into abstract types.

pub mod analysis;
pub mod callbacks;
pub mod collection;
pub mod ati_info;
pub mod expr_plan;
pub mod first_pass;
pub mod hoisting;
pub mod index;
pub mod laws;
pub mod levels;
pub mod names;
pub mod operators;
pub mod rewrite;
pub mod site;

pub mod signatures;
pub mod site_binds;
pub mod span_key;
pub mod stubs;
pub mod tagged;
pub mod tagged_value;
pub mod tagger;
pub mod text;
pub mod ty_shape;
pub mod uf_model;
pub mod union_find;

pub use analysis::ATI;
pub use callbacks::TransformSourceCallback;
pub use collection::Collect;
pub use collection::Collect as Trackable;
pub use ati_info::{CompoundTypeInfo, DefKey, StructFieldInfo, UntrackedReturnKind};
pub use index::{TaggedSliceIndex, TaggedSliceable};
pub use site::{Site, Sites};
pub use site_binds::SiteBind;
pub use site_binds::SiteBind as BindToSite;
pub use span_key::{FileKey, SpanKey};
pub use tagged::Tagged;
pub use tagged_value::{TaggedArray, TaggedSlice, TaggedValue};
pub use tagger::{Id, Tagger};
pub use uf_model::UfModel;
pub use union_find::UnionFind;
