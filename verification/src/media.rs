//! The media-library entry type: an image with its source path, captions
//! and timestamps, as the catalog attaches one to each product.

use vstd::prelude::*;

verus! {

/// A media-library entry.
#[derive(Debug)]
pub struct Media {
    pub id: i32,
    pub src: String,
    pub name: String,
    pub alt: String,
    pub date_created: Option<String>,
    pub date_modified: Option<String>,
}

impl Media {
    /// An empty entry: zero id, empty strings, no timestamps.
    pub fn default() -> (m: Media)
        ensures
            m.id == 0,
            m.src@.len() == 0,
            m.name@.len() == 0,
            m.alt@.len() == 0,
            m.date_created is None,
            m.date_modified is None,
    {
        proof {
            reveal_strlit("");
        }
        Media {
            id: 0,
            src: "".to_owned(),
            name: "".to_owned(),
            alt: "".to_owned(),
            date_created: None,
            date_modified: None,
        }
    }
}

} // verus!
