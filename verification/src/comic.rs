//! The unified comic record that every site's extractor normalizes into.

use vstd::prelude::*;

verus! {

/// One resolved, downloadable page image.
#[derive(Debug, Clone)]
pub struct Page {
    /// File name under the comic's storage directory; unique within one
    /// comic's page set.
    pub file_name: String,
    /// Height in pixels, when the source declares it.
    pub heigth: Option<u32>,
    /// The resolved resource URL.
    pub url: String,
    /// Width in pixels, when the source declares it.
    pub width: Option<u32>,
}

/// A struct containing vital information about a comic.
#[derive(Debug)]
pub struct Comic {
    /// The authors of the comic.
    pub authors: Vec<String>,
    pub categories: Vec<String>,
    /// The characters appearing in the comic.
    pub characters: Vec<String>,
    pub cover: Page,
    /// The unique identifier of the comic.
    ///
    /// This is guaranteed to be unique only on the original site, so it
    /// should always be used together with the site property.
    pub id: String,
    pub groups: Vec<String>,
    /// The languages this comic is available in; usually one, but a list
    /// because sites may report several.
    pub languages: Vec<String>,
    /// In reading order: the order the source declares.
    pub pages: Vec<Page>,
    /// The site this comic comes from.
    pub site: String,
    pub tags: Vec<String>,
    pub title: String,
    /// Set when the source marks the comic as a translation.
    pub translated: bool,
    /// Upload date, in seconds since the epoch.
    pub upload_date: u64,
}

/// A single stand-alone image resource.
#[derive(Debug)]
pub struct Image {
    pub url: String,
}

/// The relative storage directory for a comic: `<site>/<id>`.
pub open spec fn storage_dir_spec(site: Seq<char>, id: Seq<char>) -> Seq<char> {
    site + "/"@ + id
}

impl Comic {
    /// The relative directory this comic's pages are stored under.
    pub fn storage_dir(&self) -> (r: String)
        ensures
            r@ == storage_dir_spec(self.site@, self.id@),
    {
        let mut r = self.site.clone();
        r.append("/");
        r.append(self.id.as_str());
        r
    }

    /// The relative storage path of one page: `<site>/<id>/<file_name>`.
    pub fn page_path(&self, page: &Page) -> (r: String)
        ensures
            r@ == storage_dir_spec(self.site@, self.id@) + "/"@ + page.file_name@,
    {
        let mut r = self.storage_dir();
        r.append("/");
        r.append(page.file_name.as_str());
        r
    }
}

} // verus!
