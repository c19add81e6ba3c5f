//! The rules of the recipe service that do not depend on how the store is
//! reached: what a stored row is, which page of the catalog a request asks
//! for, what counts as missing, and how a failure is reported.

use crate::auth::AuthError;
use crate::decimal::{render_i64, signed_decimal_digits};
use crate::model::{embedding_view, Ingredient, IngredientView, Recipe, RecipeView, RecipeWithId, RecipeWithIdView};
use vstd::prelude::*;
use vstd::string::*;

verus! {

/// The largest page that may be asked for.
pub const MAX_PAGE_SIZE: i64 = 100;

/// The page size of the catalog's listing.
pub const PAGE_SIZE: i64 = 9;

/// What can go wrong in the recipe service.
#[derive(Debug, Clone, PartialEq, Eq)]
pub enum Error {
    Fail,
    Serde(String),
    DB(String),
    ParseInt(String),
    Missing { item_type: String, id: i64 },
    IncorrectPageSize(i64),
    Auth(AuthError),
    Search(String),
    NotFoundId(i64),
    Vector(String),
}

/// What a failure of the recipe service holds.
pub enum ErrorView {
    Fail,
    Serde(Seq<char>),
    DB(Seq<char>),
    ParseInt(Seq<char>),
    Missing { item_type: Seq<char>, id: i64 },
    IncorrectPageSize(i64),
    Auth(AuthError),
    Search(Seq<char>),
    NotFoundId(i64),
    Vector(Seq<char>),
}

impl View for Error {
    type V = ErrorView;

    open spec fn view(&self) -> ErrorView {
        match *self {
            Error::Fail => ErrorView::Fail,
            Error::Serde(m) => ErrorView::Serde(m@),
            Error::DB(m) => ErrorView::DB(m@),
            Error::ParseInt(m) => ErrorView::ParseInt(m@),
            Error::Missing { item_type, id } => ErrorView::Missing { item_type: item_type@, id },
            Error::IncorrectPageSize(n) => ErrorView::IncorrectPageSize(n),
            Error::Auth(e) => ErrorView::Auth(e),
            Error::Search(m) => ErrorView::Search(m@),
            Error::NotFoundId(id) => ErrorView::NotFoundId(id),
            Error::Vector(m) => ErrorView::Vector(m@),
        }
    }
}

impl ErrorView {
    /// The HTTP status that answers a request which failed in this way.
    pub open spec fn status(self) -> u16 {
        match self {
            ErrorView::Missing { .. } => 404,
            ErrorView::NotFoundId(_) => 404,
            ErrorView::IncorrectPageSize(_) => 400,
            ErrorView::Auth(_) => 401,
            _ => 500,
        }
    }

    /// The failure in words.
    pub open spec fn message(self) -> Seq<char> {
        match self {
            ErrorView::Fail => "RecipeService failed"@,
            ErrorView::Serde(m) => "Failed to serialise recipe: Serde Error: "@ + m,
            ErrorView::DB(m) => "Database Error: "@ + m,
            ErrorView::ParseInt(m) => "Parse in error: "@ + m,
            ErrorView::Missing { item_type, id } => "Missing item of type: "@ + item_type
                + " with id: "@ + signed_decimal_digits(id as int),
            ErrorView::IncorrectPageSize(n) => "Incorrect page size: "@ + signed_decimal_digits(
                n as int,
            ) + ". Must be between 1 and 100"@,
            ErrorView::Auth(e) => "Error with authentication: "@ + e.spec_display(),
            ErrorView::Search(m) => "Search error: "@ + m,
            ErrorView::NotFoundId(id) => "Resource with Id "@ + signed_decimal_digits(id as int)
                + " not found"@,
            ErrorView::Vector(m) => "Error with vector DB "@ + m + "."@,
        }
    }
}

impl Error {
    /// The failure of a call to the vector index, from its report.
    pub fn qdrant(report: String) -> (r: Error)
        ensures
            r@ == ErrorView::Vector(report@),
    {
        Error::Vector(report)
    }

    /// The HTTP status that answers a request which failed in this way.
    pub fn status(&self) -> (r: u16)
        ensures
            r == self@.status(),
    {
        match self {
            Error::Fail => 500,
            Error::Serde(_) => 500,
            Error::DB(_) => 500,
            Error::ParseInt(_) => 500,
            Error::Missing { .. } => 404,
            Error::IncorrectPageSize(_) => 400,
            Error::Auth(_) => 401,
            Error::Search(_) => 500,
            Error::NotFoundId(_) => 404,
            Error::Vector(_) => 500,
        }
    }

    /// The failure in words.
    pub fn message(&self) -> (r: String)
        ensures
            r@ == self@.message(),
    {
        match self {
            Error::Fail => String::from_str("RecipeService failed"),
            Error::Serde(m) => {
                let mut r = String::from_str("Failed to serialise recipe: Serde Error: ");
                r.append(m.as_str());
                r
            },
            Error::DB(m) => {
                let mut r = String::from_str("Database Error: ");
                r.append(m.as_str());
                r
            },
            Error::ParseInt(m) => {
                let mut r = String::from_str("Parse in error: ");
                r.append(m.as_str());
                r
            },
            Error::Missing { item_type, id } => {
                let mut r = String::from_str("Missing item of type: ");
                r.append(item_type.as_str());
                r.append(" with id: ");
                r.append(render_i64(*id).as_str());
                r
            },
            Error::IncorrectPageSize(n) => {
                let mut r = String::from_str("Incorrect page size: ");
                r.append(render_i64(*n).as_str());
                r.append(". Must be between 1 and 100");
                r
            },
            Error::Auth(e) => {
                let mut r = String::from_str("Error with authentication: ");
                r.append(e.display());
                r
            },
            Error::Search(m) => {
                let mut r = String::from_str("Search error: ");
                r.append(m.as_str());
                r
            },
            Error::NotFoundId(id) => {
                let mut r = String::from_str("Resource with Id ");
                r.append(render_i64(*id).as_str());
                r.append(" not found");
                r
            },
            Error::Vector(m) => {
                let mut r = String::from_str("Error with vector DB ");
                r.append(m.as_str());
                r.append(".");
                r
            },
        }
    }
}

/// A recipe as the store holds it: the recipe, its key, and whether both
/// indexes hold its present content.
#[derive(Debug, Clone, PartialEq, Eq)]
pub struct RecipeRep {
    pub id: i64,
    pub name: String,
    pub ingredients: Vec<Ingredient>,
    pub description: String,
    pub liked: Option<bool>,
    pub searchable: bool,
    pub embedding: Option<Vec<u32>>,
}

/// What a row holds.
pub struct RecipeRepView {
    pub id: i64,
    pub name: Seq<char>,
    pub ingredients: Seq<IngredientView>,
    pub description: Seq<char>,
    pub liked: Option<bool>,
    pub searchable: bool,
    pub embedding: Option<Seq<u32>>,
}

impl View for RecipeRep {
    type V = RecipeRepView;

    open spec fn view(&self) -> RecipeRepView {
        RecipeRepView {
            id: self.id,
            name: self.name@,
            ingredients: self.ingredients@.map_values(|i: Ingredient| i@),
            description: self.description@,
            liked: self.liked,
            searchable: self.searchable,
            embedding: embedding_view(self.embedding),
        }
    }
}

impl RecipeRepView {
    /// The recipe of the row.
    pub open spec fn model(self) -> RecipeView {
        RecipeView {
            name: self.name,
            ingredients: self.ingredients,
            description: self.description,
            liked: self.liked,
            embedding: self.embedding,
        }
    }

    /// The recipe of the row under the row's key.
    pub open spec fn model_with_id(self) -> RecipeWithIdView {
        RecipeWithIdView { id: self.id, data: self.model() }
    }
}

impl RecipeRep {
    /// The recipe of the row.
    pub fn model(self) -> (r: Recipe)
        ensures
            r@ == self@.model(),
    {
        Recipe {
            name: self.name,
            ingredients: self.ingredients,
            description: self.description,
            liked: self.liked,
            embedding: self.embedding,
        }
    }

    /// The recipe of the row under the row's key.
    pub fn model_with_id(self) -> (r: RecipeWithId)
        ensures
            r@ == self@.model_with_id(),
    {
        let id = self.id;
        let data = self.model();
        RecipeWithId { id, data }
    }
}

/// Which page of the catalog a listing request asks for.
#[derive(Debug, Clone, PartialEq, Eq)]
pub struct Paging {
    pub offset: Option<i64>,
}

/// The rows that a listing reads: `limit` of them after the first `offset`.
#[derive(Debug, Clone, Copy, PartialEq, Eq, Structural)]
pub struct PageWindow {
    pub offset: i64,
    pub limit: i64,
}

impl Paging {
    /// The page asked for: the first one where the request names none.
    pub fn page(&self) -> (r: i64)
        ensures
            r == match self.offset {
                Some(page) => page,
                None => 0,
            },
    {
        match self.offset {
            Some(page) => page,
            None => 0,
        }
    }
}

/// The rows of page `page` where each page holds `page_size` rows. A page
/// size outside `1..=100` is refused, and so is a page whose first row's
/// number does not fit in 64 bits.
pub fn page_window(page: i64, page_size: i64) -> (r: Result<PageWindow, Error>)
    ensures
        page_size <= 0 || page_size > MAX_PAGE_SIZE ==> (r matches Err(e) && e@
            == ErrorView::IncorrectPageSize(page_size)),
        0 < page_size <= MAX_PAGE_SIZE && i64::MIN <= page * page_size <= i64::MAX ==> r == Ok::<
            PageWindow,
            Error,
        >(PageWindow { offset: (page * page_size) as i64, limit: page_size }),
        0 < page_size <= MAX_PAGE_SIZE && !(i64::MIN <= page * page_size <= i64::MAX) ==> (
        r matches Err(e) && e@ == ErrorView::Fail),
{
    if page_size <= 0 || page_size > MAX_PAGE_SIZE {
        return Err(Error::IncorrectPageSize(page_size));
    }
    match page.checked_mul(page_size) {
        Some(offset) => Ok(PageWindow { offset, limit: page_size }),
        None => Err(Error::Fail),
    }
}

/// What a lookup by key answers: the recipe, or that there is none under
/// that key.
pub fn found_or_missing(found: Option<RecipeWithId>, id: i64) -> (r: Result<RecipeWithId, Error>)
    ensures
        found matches Some(recipe) ==> r == Ok::<RecipeWithId, Error>(recipe),
        found is None ==> (r matches Err(e) && e@ == (ErrorView::Missing {
            item_type: "recipe"@,
            id,
        })),
{
    match found {
        Some(recipe) => Ok(recipe),
        None => Err(Error::Missing { item_type: String::from_str("recipe"), id }),
    }
}

/// What an update answers: the key of the row it changed, or that there is
/// none under that key.
pub fn updated_or_missing(updated: Option<i64>, id: i64) -> (r: Result<i64, Error>)
    ensures
        updated matches Some(key) ==> r == Ok::<i64, Error>(key),
        updated is None ==> (r matches Err(e) && e@ == (ErrorView::Missing {
            item_type: "recipe"@,
            id,
        })),
{
    match updated {
        Some(key) => Ok(key),
        None => Err(Error::Missing { item_type: String::from_str("recipe"), id }),
    }
}

/// What a removal answers: done where the store reports that it removed the
/// row under `id`, else that nothing was found under it.
pub fn deleted_or_not_found(deleted: Option<i64>, id: i64) -> (r: Result<(), Error>)
    ensures
        deleted == Some(id) ==> r is Ok,
        deleted != Some(id) ==> (r matches Err(e) && e@ == ErrorView::NotFoundId(id)),
{
    match deleted {
        Some(key) => {
            if key == id {
                Ok(())
            } else {
                Err(Error::NotFoundId(id))
            }
        },
        None => Err(Error::NotFoundId(id)),
    }
}

} // verus!
