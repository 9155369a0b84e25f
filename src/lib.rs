//! A cell whose value can be replaced while every value it held before is kept, until the
//! owner reclaims them.

mod arrayvec;
mod lineage;
mod unique;

pub use crate::arrayvec::ArrayVec;
pub use crate::lineage::{
    after_sets, after_updates, apply, lemma_after_sets_appends, lemma_current_is_latest,
    lemma_drain_order, lemma_read_after_replace, Lineage, Update,
};
pub use crate::unique::Unique;
