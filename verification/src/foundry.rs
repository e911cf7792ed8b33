//! A single-image page: its centered image, with a protocol-relative URL
//! made absolute.

use vstd::prelude::*;

use crate::comic::Image;
use crate::error::Error;
use crate::html::{select_first_attr, selected_attr};
use crate::text::{replace_first, replaced_first};

verus! {

/// Extract the centered image of the page. The image's `src` is
/// protocol-relative, so its leading `//` is rewritten to `https://`.
pub fn foundry_image(html: &str) -> (r: Result<Image, Error>)
    ensures
        match selected_attr(html@, "img.center"@, "src"@) {
            Some(u) => r matches Ok(img) && img.url@ == replaced_first(u, "//"@, "https://"@),
            None => r matches Err(Error::MissingFragment(_)),
        },
{
    proof {
        reveal_strlit("//");
    }
    match select_first_attr(html, "img.center", "src") {
        Some(src) => {
            let url = replace_first(src.as_str(), "//", "https://");
            Ok(Image { url })
        },
        None => Err(Error::MissingFragment(String::from_str("img.center src"))),
    }
}

} // verus!
