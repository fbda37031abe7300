//! What every page of a site is rendered with.

use vstd::prelude::*;
use crate::settings::Settings;
use crate::text::owned;

verus! {

/// The site that the documents belong to.
#[derive(Debug)]
pub struct Site {
    pub title: String,
    pub language: Option<String>,
    pub url: String,
}

/// The model of a [`Site`].
pub struct SiteView {
    pub title: Seq<char>,
    pub language: Option<Seq<char>>,
    pub url: Seq<char>,
}

/// The model of an optional string.
pub open spec fn option_view(s: Option<String>) -> Option<Seq<char>> {
    match s {
        Some(text) => Some(text@),
        None => None,
    }
}

impl View for Site {
    type V = SiteView;

    open spec fn view(&self) -> SiteView {
        SiteView { title: self.title@, language: option_view(self.language), url: self.url@ }
    }
}

impl Default for Site {
    fn default() -> (site: Site)
        ensures
            site@ == (SiteView { title: "Untitled website"@, language: None, url: "/"@ }),
    {
        Site { title: owned("Untitled website"), language: None, url: owned("/") }
    }
}

impl Site {
    /// The site that `settings` describe.
    pub fn new(settings: &Settings) -> (site: Site)
        ensures
            site@ == (SiteView {
                title: settings.site_title@,
                language: option_view(settings.site_language),
                url: settings.site_url@,
            }),
    {
        Site {
            title: settings.site_title.clone(),
            url: settings.site_url.clone(),
            language: settings.site_language.clone(),
        }
    }
}

} // verus!
