use vstd::prelude::*;

use crate::model::{Recipe, RecipePartial};

verus! {

/// Immutable per-build context threaded into every page view.
#[derive(Debug, Clone, PartialEq)]
pub struct SiteView {
    pub public_url: String,
    pub version: String,
}

impl SiteView {
    pub fn new(public_url: &str, version: &str) -> (r: SiteView)
        ensures
            r.public_url@ == public_url@,
            r.version@ == version@,
    {
        SiteView { public_url: String::from_str(public_url), version: String::from_str(version) }
    }

    /// A copy equal to this value.
    pub fn duplicate(&self) -> (r: SiteView)
        ensures
            r == *self,
    {
        SiteView { public_url: self.public_url.clone(), version: self.version.clone() }
    }
}

/// The home page: the list of published locales.
#[derive(Debug, PartialEq)]
pub struct HomeView {
    pub locales: Vec<String>,
    pub title: String,
    pub site: SiteView,
    pub self_url: String,
}

/// A flat per-locale list of all recipes.
#[derive(Debug, PartialEq)]
pub struct IndexView {
    pub locale: String,
    pub title: String,
    pub recipes: Vec<Recipe>,
    pub site: SiteView,
    pub self_url: String,
}

/// One recipe page in one locale.
#[derive(Debug, PartialEq)]
pub struct RecipeView {
    pub locale: String,
    pub title: String,
    pub recipe: RecipePartial,
    pub site: SiteView,
    pub flat_steps: Vec<String>,
    pub self_url: String,
    pub oembed_url: String,
    pub meta: Vec<(String, String)>,
}

/// A free-form content page.
#[derive(Debug, PartialEq)]
pub struct PageView {
    pub locale: String,
    pub title: String,
    pub content: String,
    pub site: SiteView,
    pub self_url: String,
}

/// One entry of a per-locale search index.
#[derive(Debug, PartialEq)]
pub struct SearchView {
    pub name: String,
    pub link: String,
}

/// Every link the build produced, for the sitemap.
#[derive(Debug, PartialEq)]
pub struct SiteMapView {
    pub links: Vec<String>,
    pub site: SiteView,
}

/// A titled list of links (locale indexes, category and cuisine trees).
#[derive(Debug, PartialEq)]
pub struct LinkListView {
    pub locale: String,
    pub title: String,
    pub links_label: String,
    pub links: Vec<(String, String)>,
    pub site: SiteView,
    pub self_url: String,
}

/// The embeddable page for one recipe.
#[derive(Debug, PartialEq)]
pub struct OembedView {
    pub locale: String,
    pub title: String,
    pub recipe: RecipePartial,
    pub site: SiteView,
    pub recipe_url: String,
    pub image_url: Option<String>,
}

/// The fixed-shape embed descriptor served beside the embeddable page.
#[derive(Debug, PartialEq)]
pub struct OembedJsonView {
    pub response_type: String,
    pub version: String,
    pub title: Option<String>,
    pub author_name: Option<String>,
    pub author_url: Option<String>,
    pub provider_name: Option<String>,
    pub provider_url: Option<String>,
    pub cache_age: Option<String>,
    pub thumbnail_url: Option<String>,
    pub thumbnail_width: Option<i32>,
    pub thumbnail_height: Option<i32>,
    pub html: String,
    pub width: Option<i32>,
    pub height: Option<i32>,
}

} // verus!
