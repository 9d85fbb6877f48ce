use vstd::prelude::*;

verus! {

/// One clipboard snapshot as captured by the recorder, before the store
/// assigns it an id.
pub struct ClipboardEntry {
    pub date: String,
    pub time: String,
    pub content: String,
}

/// A row of the store: a captured snapshot together with the id the store
/// assigned to it. Ids are assigned by the storage engine in insertion order.
pub struct StoredEntry {
    pub id: i64,
    pub date: String,
    pub time: String,
    pub content: String,
}

/// The mathematical value of a stored row: its id as an integer and its three
/// text fields as character sequences.
pub struct EntryModel {
    pub id: int,
    pub date: Seq<char>,
    pub time: Seq<char>,
    pub content: Seq<char>,
}

impl View for StoredEntry {
    type V = EntryModel;

    open spec fn view(&self) -> EntryModel {
        EntryModel {
            id: self.id as int,
            date: self.date@,
            time: self.time@,
            content: self.content@,
        }
    }
}

} // verus!
