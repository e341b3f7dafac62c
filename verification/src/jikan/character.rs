use vstd::prelude::*;

verus! {

/// One page of the provider's character listing.
#[derive(Clone)]
pub struct CharacterResponse {
    pub pagination: CharacterPagination,
    pub data: Vec<Character>,
}

/// The pagination envelope: the sole signal that controls fetch
/// termination.
#[derive(Clone)]
pub struct CharacterPagination {
    pub last_visible_page: i32,
    pub has_next_page: bool,
    pub items: CharacterItems,
}

#[derive(Clone)]
pub struct CharacterItems {
    pub count: i32,
    pub total: usize,
}

/// One character record; immutable once decoded.
#[derive(Clone)]
pub struct Character {
    /// Provider-assigned primary key.
    pub mal_id: i32,
    pub url: String,
    pub images: CharacterImageTypes,
    pub name: String,
    pub name_kanji: Option<String>,
    pub nicknames: Vec<String>,
    pub about: Option<String>,
}

#[derive(Clone)]
pub struct CharacterImageTypes {
    pub webp: CharacterImageWebp,
}

#[derive(Clone)]
pub struct CharacterImageWebp {
    pub image_url: Option<String>,
}

/// The primary key of each record, in order: what a batch upsert keys on.
pub fn primary_keys(records: &Vec<Character>) -> (keys: Vec<i64>)
    ensures
        keys@.len() == records@.len(),
        forall|i: int| 0 <= i < records@.len() ==> keys@[i] == records@[i].mal_id as i64,
{
    let mut keys: Vec<i64> = Vec::new();
    let mut i: usize = 0;
    while i < records.len()
        invariant
            i <= records@.len(),
            keys@.len() == i,
            forall|j: int| 0 <= j < i ==> keys@[j] == records@[j].mal_id as i64,
        decreases records@.len() - i,
    {
        keys.push(records[i].mal_id as i64);
        i += 1;
    }
    keys
}

} // verus!
