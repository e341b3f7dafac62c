use vstd::prelude::*;

verus! {

/// One page of the provider's anime listing.
#[derive(Clone)]
pub struct AnimeResponse {
    pub pagination: AnimePagination,
    pub data: Vec<Anime>,
}

/// The pagination envelope: the sole signal that controls fetch
/// termination.
#[derive(Clone)]
pub struct AnimePagination {
    pub last_visible_page: i32,
    pub has_next_page: bool,
    pub items: AnimeItems,
}

#[derive(Clone)]
pub struct AnimeItems {
    pub count: i32,
    pub total: usize,
}

/// One anime record; immutable once decoded. Every absent numeric field
/// stays an explicit absence, never a sentinel zero.
#[derive(Clone)]
pub struct Anime {
    /// Provider-assigned primary key.
    pub mal_id: i32,
    pub url: String,
    pub images: AnimeImageTypes,
    pub trailer: AnimeTrailerInfo,
    pub approved: bool,
    pub titles: Vec<AnimeTitleTypes>,
    pub anime_type: Option<String>,
    pub source: Option<String>,
    pub episodes: Option<i32>,
    pub status: Option<String>,
    pub airing: bool,
    pub aired: AnimeAired,
    pub duration: Option<String>,
    pub rating: Option<String>,
    /// Average score in hundredths of a point.
    pub score: Option<u32>,
    pub rank: Option<i32>,
    pub popularity: Option<i32>,
    pub favorites: Option<i32>,
    pub synopsis: Option<String>,
    pub background: Option<String>,
    pub season: Option<String>,
    pub year: Option<i32>,
    pub broadcast: AnimeBroadcast,
    pub genres: Vec<AnimeGenres>,
    pub studios: Vec<AnimeStudios>,
}

#[derive(Clone)]
pub struct AnimeImageTypes {
    pub webp: AnimeImageWebp,
}

#[derive(Clone)]
pub struct AnimeImageWebp {
    pub image_url: Option<String>,
}

#[derive(Clone)]
pub struct AnimeTrailerInfo {
    pub url: Option<String>,
}

#[derive(Clone)]
pub struct AnimeTitleTypes {
    pub title_type: String,
    pub title: String,
}

#[derive(Clone)]
pub struct AnimeAired {
    pub aired_string: Option<String>,
}

#[derive(Clone)]
pub struct AnimeBroadcast {
    pub day: Option<String>,
    pub time: Option<String>,
    pub timezone: Option<String>,
}

#[derive(Clone)]
pub struct AnimeGenres {
    pub name: String,
}

#[derive(Clone)]
pub struct AnimeStudios {
    pub name: String,
}

/// The primary key of each record, in order: what a batch upsert keys on.
pub fn primary_keys(records: &Vec<Anime>) -> (keys: Vec<i64>)
    ensures
        keys@.len() == records@.len(),
        forall|i: int| 0 <= i < records@.len() ==> keys@[i] == records@[i].mal_id as i64,
{
    let mut keys: Vec<i64> = Vec::new();
    let mut i: usize = 0;
    while i < records.len()
        invariant
            i <= records@.len(),
            keys@.len() == i,
            forall|j: int| 0 <= j < i ==> keys@[j] == records@[j].mal_id as i64,
        decreases records@.len() - i,
    {
        keys.push(records[i].mal_id as i64);
        i += 1;
    }
    keys
}

} // verus!
