//! Requests to the record store that keeps players and their characters.
//!
//! The library decides what is to be stored and describes it as an
//! [`InsertRequest`]; carrying the request out is left to the caller.

use vstd::prelude::*;

verus! {

/// One named value of a record.
pub struct DataColumn {
    pub name: String,
    pub value: String,
}

impl View for DataColumn {
    type V = (Seq<char>, Seq<char>);

    open spec fn view(&self) -> (Seq<char>, Seq<char>) {
        (self.name@, self.value@)
    }
}

impl DataColumn {
    pub fn new(name: String, value: String) -> (c: DataColumn)
        ensures
            c@ == (name@, value@),
    {
        DataColumn { name, value }
    }
}

/// The names and values of a list of columns.
pub open spec fn columns(data: Seq<DataColumn>) -> Seq<(Seq<char>, Seq<char>)> {
    data.map_values(|c: DataColumn| c@)
}

/// What an [`InsertRequest`] asks for, as plain text.
pub struct InsertRequestView {
    pub table: Seq<char>,
    pub key: Seq<char>,
    pub data: Seq<(Seq<char>, Seq<char>)>,
}

/// A request to store one record under a key of a table.
pub struct InsertRequest {
    pub table: String,
    pub key: String,
    pub data: Vec<DataColumn>,
}

impl View for InsertRequest {
    type V = InsertRequestView;

    open spec fn view(&self) -> InsertRequestView {
        InsertRequestView {
            table: self.table@,
            key: self.key@,
            data: columns(self.data@),
        }
    }
}

} // verus!
