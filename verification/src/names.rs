//! Finding a record of a face's `name` table by its name ID.
use vstd::prelude::*;

verus! {

/// The name ID of a face's full name.
pub const FULL_NAME_ID: u16 = 4;

/// A record of a `name` table: its name ID and its encoded string.
pub struct NameRecord {
    /// What the string names (4 is the full name).
    pub name_id: u16,
    /// The string, as encoded in the font.
    pub bytes: Vec<u8>,
}

/// The records of a `name` table as plain values: name ID and bytes of each
/// readable record, `None` for one whose string lies outside the table.
pub open spec fn records_view(r: Seq<Option<NameRecord>>) -> Seq<Option<(u16, Seq<u8>)>> {
    r.map_values(
        |o: Option<NameRecord>|
            match o {
                Some(n) => Some((n.name_id, n.bytes@)),
                None => None,
            },
    )
}

/// The record is readable and carries name ID `id`.
pub open spec fn has_id(record: Option<(u16, Seq<u8>)>, id: u16) -> bool {
    record matches Some(rec) && rec.0 == id
}

/// `i` is the first readable record with name ID `id`.
pub open spec fn first_with_id(records: Seq<Option<(u16, Seq<u8>)>>, id: u16, i: int) -> bool {
    &&& 0 <= i < records.len()
    &&& has_id(records[i], id)
    &&& forall|j: int| 0 <= j < i ==> !has_id(#[trigger] records[j], id)
}

/// The bytes of the first readable record with name ID `id`, or `None` when
/// no readable record has it.
pub open spec fn name_lookup(records: Seq<Option<(u16, Seq<u8>)>>, id: u16) -> Option<Seq<u8>> {
    if exists|i: int| first_with_id(records, id, i) {
        Some(records[choose|i: int| first_with_id(records, id, i)]->Some_0.1)
    } else {
        None
    }
}

/// Finds the first readable record carrying name ID `id`.
pub fn find_name_record(records: &Vec<Option<NameRecord>>, id: u16) -> (r: Option<usize>)
    ensures
        r matches Some(i) ==> first_with_id(records_view(records@), id, i as int),
        r is None ==> forall|j: int|
            0 <= j < records@.len() ==> !has_id(#[trigger] records_view(records@)[j], id),
{
    let n = records.len();
    let ghost view = records_view(records@);
    for i in 0..n
        invariant
            n == records@.len(),
            view == records_view(records@),
            forall|j: int| 0 <= j < i ==> !has_id(#[trigger] view[j], id),
    {
        match &records[i] {
            Some(rec) => {
                if rec.name_id == id {
                    return Some(i);
                }
            },
            None => {},
        }
    }
    None
}

/// There is at most one first readable record with a name ID.
pub proof fn lemma_first_with_id_unique(records: Seq<Option<(u16, Seq<u8>)>>, id: u16, i: int, j: int)
    requires
        first_with_id(records, id, i),
        first_with_id(records, id, j),
    ensures
        i == j,
{
    if i < j {
        assert(has_id(records[i], id));
    } else if j < i {
        assert(has_id(records[j], id));
    }
}

} // verus!
