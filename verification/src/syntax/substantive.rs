use vstd::prelude::*;

use crate::catalog::CatalogIndex;

verus! {

/// A noun (substantive): a word of the catalog.
#[derive(Debug, Clone, Copy, PartialEq, Eq, Structural)]
pub struct Substantive {
    pub catalog_index: CatalogIndex,
}

} // verus!
