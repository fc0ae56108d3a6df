use vstd::prelude::*;

verus! {

/// One entry of the provider catalog: a display label, the stable source
/// identifier (`value`) and the game-mode flags.
#[derive(Clone, Debug)]
pub struct Source {
    pub label: String,
    pub value: String,
    pub is_aram: Option<bool>,
    pub is_urf: Option<bool>,
}

/// A champion as the roster service describes it.
#[derive(Clone, Debug)]
pub struct Champion {
    pub version: String,
    pub id: String,
    pub key: String,
    pub name: String,
    pub title: String,
}

/// The roster: every champion of one game version.
#[derive(Clone, Debug)]
pub struct ChampionMapResp {
    pub type_field: String,
    pub format: String,
    pub version: String,
    pub data: Vec<Champion>,
}

/// Where a published package's archive can be downloaded.
#[derive(Clone, Debug)]
pub struct Dist {
    pub tarball: String,
    pub file_count: i64,
    pub unpacked_size: i64,
}

/// The "latest" metadata record of a source's package.
#[derive(Clone, Debug)]
pub struct Package {
    pub name: String,
    pub version: String,
    pub source_version: String,
    pub description: String,
    pub dist: Dist,
}

/// A block of an item set: its kind and the items it lists.
#[derive(Clone, Debug)]
pub struct Block {
    pub type_field: String,
    pub items: Option<Vec<Item>>,
}

/// One item of a block, with how many to buy.
#[derive(Clone, Debug)]
pub struct Item {
    pub id: String,
    pub count: u8,
}

/// The `type` value that a rune record carries when the payload leaves it out.
pub fn empty_rune_type() -> (r: String)
    ensures
        r@ == Seq::<char>::empty(),
{
    String::new()
}

/// Failures that the read API reports to its clients.
#[derive(Clone, Copy, Debug, PartialEq, Eq, Structural)]
pub enum CustomError {
    BadRequest,
    InternalServerError,
}

impl CustomError {
    /// The HTTP status code of each error.
    pub open spec fn spec_status(self) -> u16 {
        match self {
            CustomError::BadRequest => 400,
            CustomError::InternalServerError => 500,
        }
    }

    /// The HTTP status code that the error is answered with.
    pub fn status_code(&self) -> (r: u16)
        ensures
            r == self.spec_status(),
    {
        match self {
            CustomError::BadRequest => 400,
            CustomError::InternalServerError => 500,
        }
    }

    /// The message placed in the `error` member of the response body.
    pub fn message(&self) -> (r: &'static str)
        ensures
            *self == CustomError::BadRequest ==> r@ == "Bad Request"@,
            *self == CustomError::InternalServerError ==> r@ == "Internal Server Error"@,
    {
        match self {
            CustomError::BadRequest => "Bad Request",
            CustomError::InternalServerError => "Internal Server Error",
        }
    }
}

} // verus!
