use vstd::prelude::*;

verus! {

/// One page of the provider's manga listing.
#[derive(Clone)]
pub struct MangaResponse {
    pub data: Vec<Manga>,
    pub pagination: MangaPagination,
}

/// The pagination envelope: the sole signal that controls fetch
/// termination.
#[derive(Clone)]
pub struct MangaPagination {
    pub last_visible_page: i32,
    pub has_next_page: bool,
    pub items: MangaItems,
}

#[derive(Clone)]
pub struct MangaItems {
    pub count: i32,
    pub total: usize,
}

/// One manga record; immutable once decoded. Every absent numeric field
/// stays an explicit absence, never a sentinel zero.
#[derive(Clone)]
pub struct Manga {
    /// Provider-assigned primary key.
    pub mal_id: i32,
    pub url: String,
    pub images: MangaImageTypes,
    pub approved: bool,
    pub trailer: MangaTrailerInfo,
    pub titles: Vec<MangaTitleTypes>,
    pub manga_type: Option<String>,
    pub chapters: Option<i32>,
    pub volumes: Option<i32>,
    pub status: String,
    pub publishing: bool,
    pub published: MangaAired,
    /// Average score in hundredths of a point.
    pub score: Option<u32>,
    pub rank: Option<i32>,
    pub popularity: Option<i32>,
    pub favorites: Option<i32>,
    pub synopsis: Option<String>,
    pub background: Option<String>,
    pub genres: Vec<MangaGenres>,
    pub authors: Vec<MangaAuthors>,
}

#[derive(Clone)]
pub struct MangaImageTypes {
    pub webp: MangaImageWebp,
}

#[derive(Clone)]
pub struct MangaImageWebp {
    pub image_url: Option<String>,
}

#[derive(Clone)]
pub struct MangaTrailerInfo {
    pub url: Option<String>,
}

#[derive(Clone)]
pub struct MangaTitleTypes {
    pub title_type: String,
    pub title: String,
}

#[derive(Clone)]
pub struct MangaAired {
    pub aired_string: Option<String>,
}

#[derive(Clone)]
pub struct MangaGenres {
    pub name: String,
}

#[derive(Clone)]
pub struct MangaAuthors {
    pub name: String,
}

/// The primary key of each record, in order: what a batch upsert keys on.
pub fn primary_keys(records: &Vec<Manga>) -> (keys: Vec<i64>)
    ensures
        keys@.len() == records@.len(),
        forall|i: int| 0 <= i < records@.len() ==> keys@[i] == records@[i].mal_id as i64,
{
    let mut keys: Vec<i64> = Vec::new();
    let mut i: usize = 0;
    while i < records.len()
        invariant
            i <= records@.len(),
            keys@.len() == i,
            forall|j: int| 0 <= j < i ==> keys@[j] == records@[j].mal_id as i64,
        decreases records@.len() - i,
    {
        keys.push(records[i].mal_id as i64);
        i += 1;
    }
    keys
}

} // verus!
