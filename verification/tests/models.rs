use otakuhub::anilist::manga::{
    Manga, MangaAired, MangaImageTypes, MangaImageWebp, MangaTrailerInfo,
};
use otakuhub::auth::users::SessionUser;
use otakuhub::config::settings::{APISConfig, MainConfig};
use otakuhub::db::backend::PostgreSQLBackend;
use otakuhub::jikan::character::{
    Character, CharacterImageTypes, CharacterImageWebp,
};

fn character(mal_id: i32, name: &str) -> Character {
    Character {
        mal_id,
        url: format!("https://example.net/character/{mal_id}"),
        images: CharacterImageTypes {
            webp: CharacterImageWebp { image_url: None },
        },
        name: String::from(name),
        name_kanji: None,
        nicknames: Vec::new(),
        about: None,
    }
}

#[test]
fn character_primary_keys_follow_record_order() {
    let records = vec![character(3, "c"), character(1, "a"), character(2, "b")];
    let keys = otakuhub::jikan::character::primary_keys(&records);
    assert_eq!(keys, vec![3i64, 1, 2]);
    assert_eq!(
        otakuhub::jikan::character::primary_keys(&Vec::new()),
        Vec::<i64>::new()
    );
}

#[test]
fn anilist_manga_primary_keys_follow_record_order() {
    let manga = |mal_id: i32| Manga {
        mal_id,
        url: format!("https://example.net/manga/{mal_id}"),
        images: MangaImageTypes {
            webp: MangaImageWebp { image_url: String::new() },
        },
        trailer: MangaTrailerInfo { url: None },
        titles: Vec::new(),
        manga_type: String::from("Manga"),
        chapters: None,
        volumes: None,
        status: String::from("Finished"),
        published: MangaAired { aired_string: None },
        duration: None,
        score: None,
        rank: None,
        popularity: None,
        favorites: None,
        synopsis: None,
        background: None,
        genres: Vec::new(),
    };
    let records = vec![manga(9), manga(4)];
    assert_eq!(
        otakuhub::anilist::manga::primary_keys(&records),
        vec![9i64, 4]
    );
}

#[test]
fn credentials_bounds_are_inclusive() {
    let ok_name = "ab"; // minimum username length
    let ok_pass = "012345678901"; // minimum password length
    assert!(PostgreSQLBackend::credentials_acceptable(ok_name, ok_pass));
    assert!(!PostgreSQLBackend::credentials_acceptable("a", ok_pass));
    assert!(!PostgreSQLBackend::credentials_acceptable(
        ok_name,
        "01234567890"
    ));
    let long_name = "x".repeat(128);
    let long_pass = "y".repeat(128);
    assert!(PostgreSQLBackend::credentials_acceptable(
        &long_name, &long_pass
    ));
    let too_long = "z".repeat(129);
    assert!(!PostgreSQLBackend::credentials_acceptable(
        &too_long, &long_pass
    ));
    assert!(!PostgreSQLBackend::credentials_acceptable(
        &long_name, &too_long
    ));
}

#[test]
fn default_session_user_is_empty() {
    let user = SessionUser::default();
    assert_eq!(user.id, 0);
    assert!(user.username.is_empty());
    assert!(user.session_auth_hash.is_empty());
    let other = user.clone();
    assert_eq!(user, other);
}

#[test]
fn settings_hold_their_fields() {
    let main = MainConfig {
        log_level: String::from("info"),
        jaeger: String::from("http://localhost:4317"),
        site_name: String::from("otakuhub"),
    };
    assert_eq!(main.clone().site_name, "otakuhub");
    let apis = APISConfig { fetch_interval_hours: 6 };
    assert_eq!(apis.fetch_interval_hours, 6);
}
