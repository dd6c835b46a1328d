//! The data of the person forms (delete, insert, update, filter), kept as
//! plain records.

use vstd::prelude::*;

verus! {

/// Which persons to delete: a comma-separated list of ids.
#[derive(Debug, Clone, PartialEq, Eq)]
pub struct ToDelete {
    pub id_list: Option<String>,
}

/// A person to insert.
#[derive(Debug, Clone, PartialEq, Eq)]
pub struct ToInsert {
    pub name: Option<String>,
}

/// A person to update: its id and new name.
#[derive(Debug, Clone, PartialEq, Eq)]
pub struct ToUpdate {
    pub id: Option<u32>,
    pub name: Option<String>,
}

/// A filter on the persons listed: part of a name.
#[derive(Debug, Clone, PartialEq, Eq)]
pub struct Filter {
    pub partial_name: Option<String>,
}

} // verus!
