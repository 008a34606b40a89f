//! Catalog entities: the listing returned by the upstream monster API,
//! the flattened record the application stores and renders, and the
//! marker types the catalog's routing is organized around.

use vstd::prelude::*;

use crate::entity::PaginationNavigation;

verus! {

/// One page of the upstream listing.
pub struct ApiResponse {
    pub count: usize,
    pub next: Option<String>,
    pub previous: Option<String>,
    pub results: Vec<ResponseItem>,
}

/// One entry of the upstream listing.
pub struct ResponseItem {
    pub name: String,
    pub url: String,
}

/// The image variants the upstream API offers for one monster.
pub struct Sprite {
    pub front_default: Option<String>,
    pub back_default: Option<String>,
    pub front_shiny: Option<String>,
    pub back_shiny: Option<String>,
    pub other: OtherSprite,
}

/// Alternative artwork collections.
pub struct OtherSprite {
    pub dream_world: FrontDefault,
    pub official_artwork: FrontDefault,
}

/// A collection holding at most a front view.
pub struct FrontDefault {
    pub front_default: Option<String>,
}

/// A monster as the upstream API describes it.
pub struct MonsterFromApi {
    pub id: i32,
    pub name: String,
    pub sprites: Sprite,
    pub height: i16,
    pub weight: i16,
    pub types: Vec<TypeSlot>,
}

/// One slot of a monster's type list.
pub struct TypeSlot {
    pub slot: u8,
    pub type_: Type,
}

/// A named type reference.
pub struct Type {
    pub name: String,
    pub url: String,
}

/// The flattened monster record the application stores and renders.
pub struct Monster {
    pub id: i32,
    pub name: String,
    pub height: i16,
    pub weight: i16,
    pub types: Vec<String>,
    pub image_url: Option<String>,
    pub image_url_game_front: Option<String>,
    pub image_url_game_back: Option<String>,
    pub image_url_game_front_shiny: Option<String>,
    pub image_url_game_back_shiny: Option<String>,
}

/// An optional string field, cloned out.
fn clone_opt(v: &Option<String>) -> (r: Option<String>)
    ensures
        match v {
            Some(s) => r matches Some(rs) && rs@ == s@,
            None => r is None,
        },
{
    match v {
        Some(s) => Some(s.clone()),
        None => None,
    }
}

impl MonsterFromApi {
    /// The type names, in slot order.
    pub fn get_types(&self) -> (r: Vec<String>)
        ensures
            r@.len() == self.types@.len(),
            forall|i: int| 0 <= i < r@.len() ==> r@[i]@ == self.types@[i].type_.name@,
    {
        let mut r: Vec<String> = Vec::new();
        let n = self.types.len();
        let mut k: usize = 0;
        while k < n
            invariant
                k <= n,
                n == self.types@.len(),
                r@.len() == k,
                forall|i: int| 0 <= i < k ==> r@[i]@ == self.types@[i].type_.name@,
            decreases n - k,
        {
            r.push(self.types[k].type_.name.clone());
            k = k + 1;
        }
        r
    }

    /// The dream-world vector image, if the API offered one.
    pub fn get_image_svg(&self) -> (r: Option<String>)
        ensures
            match self.sprites.other.dream_world.front_default {
                Some(s) => r matches Some(rs) && rs@ == s@,
                None => r is None,
            },
    {
        clone_opt(&self.sprites.other.dream_world.front_default)
    }

    /// The official artwork, if the API offered one.
    pub fn get_image_url(&self) -> (r: Option<String>)
        ensures
            match self.sprites.other.official_artwork.front_default {
                Some(s) => r matches Some(rs) && rs@ == s@,
                None => r is None,
            },
    {
        clone_opt(&self.sprites.other.official_artwork.front_default)
    }

    /// The in-game front sprite, if the API offered one.
    pub fn get_image_url_game_front(&self) -> (r: Option<String>)
        ensures
            match self.sprites.front_default {
                Some(s) => r matches Some(rs) && rs@ == s@,
                None => r is None,
            },
    {
        clone_opt(&self.sprites.front_default)
    }

    /// The in-game back sprite, if the API offered one.
    pub fn get_image_url_game_back(&self) -> (r: Option<String>)
        ensures
            match self.sprites.back_default {
                Some(s) => r matches Some(rs) && rs@ == s@,
                None => r is None,
            },
    {
        clone_opt(&self.sprites.back_default)
    }

    /// The shiny front sprite, if the API offered one.
    pub fn get_image_url_game_front_shiny(&self) -> (r: Option<String>)
        ensures
            match self.sprites.front_shiny {
                Some(s) => r matches Some(rs) && rs@ == s@,
                None => r is None,
            },
    {
        clone_opt(&self.sprites.front_shiny)
    }

    /// The shiny back sprite, if the API offered one.
    pub fn get_image_url_game_back_shiny(&self) -> (r: Option<String>)
        ensures
            match self.sprites.back_shiny {
                Some(s) => r matches Some(rs) && rs@ == s@,
                None => r is None,
            },
    {
        clone_opt(&self.sprites.back_shiny)
    }
}

impl Monster {
    /// Flattens an API monster into the stored record: scalar fields
    /// carried over, type names extracted in order, each image variant
    /// taken from its place in the sprite tree.
    pub fn from_api(monster: MonsterFromApi) -> (r: Monster)
        ensures
            r.id == monster.id,
            r.name@ == monster.name@,
            r.height == monster.height,
            r.weight == monster.weight,
            r.types@.len() == monster.types@.len(),
            forall|i: int|
                0 <= i < r.types@.len() ==> r.types@[i]@ == monster.types@[i].type_.name@,
            match monster.sprites.other.official_artwork.front_default {
                Some(s) => r.image_url matches Some(rs) && rs@ == s@,
                None => r.image_url is None,
            },
            match monster.sprites.front_default {
                Some(s) => r.image_url_game_front matches Some(rs) && rs@ == s@,
                None => r.image_url_game_front is None,
            },
            match monster.sprites.back_default {
                Some(s) => r.image_url_game_back matches Some(rs) && rs@ == s@,
                None => r.image_url_game_back is None,
            },
            match monster.sprites.front_shiny {
                Some(s) => r.image_url_game_front_shiny matches Some(rs) && rs@ == s@,
                None => r.image_url_game_front_shiny is None,
            },
            match monster.sprites.back_shiny {
                Some(s) => r.image_url_game_back_shiny matches Some(rs) && rs@ == s@,
                None => r.image_url_game_back_shiny is None,
            },
    {
        let types = monster.get_types();
        let image_url = monster.get_image_url();
        let image_url_game_front = monster.get_image_url_game_front();
        let image_url_game_back = monster.get_image_url_game_back();
        let image_url_game_front_shiny = monster.get_image_url_game_front_shiny();
        let image_url_game_back_shiny = monster.get_image_url_game_back_shiny();
        Monster {
            id: monster.id,
            name: monster.name,
            height: monster.height,
            weight: monster.weight,
            types,
            image_url,
            image_url_game_front,
            image_url_game_back,
            image_url_game_front_shiny,
            image_url_game_back_shiny,
        }
    }
}

/// Marker carrier for a catalog's data access.
pub struct CatalogService<T> {
    _service: core::marker::PhantomData<T>,
}

/// Marker carrier for a catalog's structured-data routes.
pub struct CatalogHandlers<T> {
    _service: core::marker::PhantomData<T>,
}

/// Marker carrier for a catalog's page routes.
pub struct CatalogPages<T> {
    _service: core::marker::PhantomData<T>,
}

/// Everything the item-listing page renders.
pub struct PokemonItemsTemplate {
    pub pokemon: Vec<Monster>,
    pub total_pages: usize,
    pub page_size: usize,
    pub current_page: usize,
    pub pagination: PaginationNavigation,
}

/// Everything the single-item page renders.
pub struct PokemonItemTemplate {
    pub pokemon: Monster,
}

} // verus!
