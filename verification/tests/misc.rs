use std::str::FromStr;

use chrono::NaiveDate;
use myapp::auth::AuthBody;
use myapp::catalog::{
    ApiResponse, FrontDefault, Monster, MonsterFromApi, OtherSprite, ResponseItem, Sprite,
    Type, TypeSlot,
};
use myapp::configuration::Environment;
use myapp::date::{get_end_date, get_next_working_day, weekday};
use myapp::entity::{Pagination, QueryName, Service};
use myapp::error::{AnyError, CatalogError, CommonError};
use myapp::etl::{build_scrap_url, collect_scrap_links};
use myapp::time::{get_expiry_from, get_now_from};

fn day_number(year: i32, month: u32, day: u32) -> i64 {
    let date = NaiveDate::from_ymd_opt(year, month, day).expect("Invalid date");
    let epoch = NaiveDate::from_ymd_opt(1970, 1, 1).unwrap();
    (date - epoch).num_days()
}

#[test]
fn check_end_date() {
    let start = day_number(2023, 7, 18);
    let computed_end_date = get_end_date(start, 7);
    let proper_end_date = day_number(2023, 7, 27);
    assert_eq!(computed_end_date, proper_end_date);
}

#[test]
fn weekdays_match_the_calendar() {
    // 1970-01-01 was a Thursday
    assert_eq!(weekday(0), 4);
    // 2023-07-22 was a Saturday: skipped to the Monday after
    let saturday = day_number(2023, 7, 22);
    assert_eq!(weekday(saturday), 6);
    assert_eq!(get_next_working_day(saturday), day_number(2023, 7, 24));
    let sunday = day_number(2023, 7, 23);
    assert_eq!(get_next_working_day(sunday), day_number(2023, 7, 24));
    let tuesday = day_number(2023, 7, 18);
    assert_eq!(get_next_working_day(tuesday), tuesday);
}

#[test]
fn environment_names_round_trip() {
    assert_eq!(Environment::Local.as_str(), "local");
    assert_eq!(Environment::Development.as_str(), "development");
    assert_eq!(Environment::Production.as_str(), "production");
    assert_eq!(Environment::try_from_name("local"), Ok(Environment::Local));
    assert_eq!(Environment::try_from_name("LOCAL"), Ok(Environment::Local));
    assert_eq!(
        Environment::try_from_name("Production"),
        Ok(Environment::Production)
    );
    let err = Environment::try_from_name("staging").unwrap_err();
    assert_eq!(
        err,
        "staging is not a supported environment. \
         Use either `local`, `development`, or `production`."
    );
}

#[test]
fn service_name_round_trips() {
    assert_eq!(Service::Pokemon.as_str(), "pokemon");
    assert_eq!(Service::from_str("pokemon"), Ok(Service::Pokemon));
    assert!(Service::from_str("digimon").is_err());
}

#[test]
fn query_name_requires_two_bytes() {
    assert!(matches!(
        QueryName::parse("p".to_string()),
        Err(CommonError::ValidationError(_))
    ));
    let q = QueryName::parse("pi".to_string()).unwrap();
    assert_eq!(q.name, "pi");
}

#[test]
fn common_error_statuses() {
    assert_eq!(CommonError::NotFound.status_code(), 404);
    assert_eq!(
        CommonError::ValidationError("x".to_string()).status_code(),
        400
    );
    assert_eq!(
        CommonError::UnexpectedError("x".to_string()).status_code(),
        500
    );
    assert_eq!(CatalogError::NotFound.status_code(), 404);
    assert_eq!(CatalogError::NotImplemented.status_code(), 404);
    assert_eq!(
        CatalogError::UnexpectedError("x".to_string()).status_code(),
        500
    );
    let any = AnyError {
        message: "boom".to_string(),
    };
    assert_eq!(any.status_code(), 500);
}

#[test]
fn auth_body_wraps_bearer_tokens() {
    let body = AuthBody::new("tok".to_string());
    assert_eq!(body.access_token, "tok");
    assert_eq!(body.token_type, "Bearer");
}

#[test]
fn scrap_url_carries_the_window() {
    let pagination = Pagination {
        page: 0,
        page_size: 20000,
    };
    assert_eq!(
        build_scrap_url(&pagination),
        "https://pokeapi.co/api/v2/pokemon?limit=20000&offset=0"
    );
    let second = Pagination {
        page: 3,
        page_size: 16,
    };
    assert_eq!(
        build_scrap_url(&second),
        "https://pokeapi.co/api/v2/pokemon?limit=16&offset=48"
    );
}

#[test]
fn scrap_links_follow_the_listing() {
    let response = ApiResponse {
        count: 2,
        next: None,
        previous: None,
        results: vec![
            ResponseItem {
                name: "bulbasaur".to_string(),
                url: "https://pokeapi.co/api/v2/pokemon/1/".to_string(),
            },
            ResponseItem {
                name: "ivysaur".to_string(),
                url: "https://pokeapi.co/api/v2/pokemon/2/".to_string(),
            },
        ],
    };
    assert_eq!(
        collect_scrap_links(&response),
        vec![
            "https://pokeapi.co/api/v2/pokemon/1/".to_string(),
            "https://pokeapi.co/api/v2/pokemon/2/".to_string(),
        ]
    );
}

#[test]
fn skewed_clock_and_expiry() {
    assert_eq!(get_now_from(1000), 700);
    assert_eq!(get_expiry_from(700, 60), 700 + 65 * 60);
    let skewed = myapp::time::get_now();
    let wall = chrono::Utc::now().timestamp();
    let skew = wall - skewed;
    assert!((299..=302).contains(&skew), "unexpected skew {skew}");
    let expiry = myapp::time::get_expiry(60);
    assert!((expiry - skewed - 65 * 60).abs() <= 2);
}

fn sample_monster() -> MonsterFromApi {
    MonsterFromApi {
        id: 25,
        name: "pikachu".to_string(),
        sprites: Sprite {
            front_default: Some("front.png".to_string()),
            back_default: None,
            front_shiny: Some("shiny.png".to_string()),
            back_shiny: None,
            other: OtherSprite {
                dream_world: FrontDefault {
                    front_default: Some("dream.svg".to_string()),
                },
                official_artwork: FrontDefault {
                    front_default: Some("art.png".to_string()),
                },
            },
        },
        height: 4,
        weight: 60,
        types: vec![
            TypeSlot {
                slot: 1,
                type_: Type {
                    name: "electric".to_string(),
                    url: "t/13".to_string(),
                },
            },
        ],
    }
}

#[test]
fn monster_getters_read_the_sprite_tree() {
    let m = sample_monster();
    assert_eq!(m.get_types(), vec!["electric".to_string()]);
    assert_eq!(m.get_image_svg(), Some("dream.svg".to_string()));
    assert_eq!(m.get_image_url(), Some("art.png".to_string()));
    assert_eq!(m.get_image_url_game_front(), Some("front.png".to_string()));
    assert_eq!(m.get_image_url_game_back(), None);
    assert_eq!(
        m.get_image_url_game_front_shiny(),
        Some("shiny.png".to_string())
    );
    assert_eq!(m.get_image_url_game_back_shiny(), None);
}

#[test]
fn monster_flattening_keeps_every_field() {
    let flat = Monster::from_api(sample_monster());
    assert_eq!(flat.id, 25);
    assert_eq!(flat.name, "pikachu");
    assert_eq!(flat.height, 4);
    assert_eq!(flat.weight, 60);
    assert_eq!(flat.types, vec!["electric".to_string()]);
    assert_eq!(flat.image_url, Some("art.png".to_string()));
    assert_eq!(flat.image_url_game_front, Some("front.png".to_string()));
    assert_eq!(flat.image_url_game_back, None);
    assert_eq!(flat.image_url_game_front_shiny, Some("shiny.png".to_string()));
    assert_eq!(flat.image_url_game_back_shiny, None);
}
