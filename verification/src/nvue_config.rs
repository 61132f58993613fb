//! The revision reported by the NVUE configuration API.

use vstd::prelude::*;

verus! {

/// A revision as the NVUE API reports it: a JSON object keyed by revision
/// id. Held here as the keys of that object, or none when the reply was
/// not an object.
pub struct NvueRevision {
    object_keys: Option<Vec<String>>,
}

impl View for NvueRevision {
    type V = Option<Seq<Seq<char>>>;

    closed spec fn view(&self) -> Option<Seq<Seq<char>>> {
        match self.object_keys {
            Some(keys) => Some(keys@.map_values(|k: String| k@)),
            None => None,
        }
    }
}

/// The revision id of a reply: its only key, when it is an object with
/// exactly one key.
pub open spec fn revision_id_of(reply: Option<Seq<Seq<char>>>) -> Option<Seq<char>> {
    match reply {
        Some(keys) => if keys.len() == 1 {
            Some(keys[0])
        } else {
            None
        },
        None => None,
    }
}

impl NvueRevision {
    /// A revision from the keys of the reply object, or from a reply that
    /// was not an object (`None`).
    pub fn from_object_keys(object_keys: Option<Vec<String>>) -> (r: NvueRevision)
        ensures
            r@ == (match object_keys {
                Some(keys) => Some(keys@.map_values(|k: String| k@)),
                None => None,
            }),
    {
        NvueRevision { object_keys }
    }

    /// The revision id, when the reply names exactly one revision.
    pub fn get_revision_id(&self) -> (r: Option<String>)
        ensures
            match r {
                Some(id) => revision_id_of(self@) == Some(id@),
                None => revision_id_of(self@) is None,
            },
    {
        match &self.object_keys {
            Some(keys) => {
                if keys.len() == 1 {
                    Some(keys[0].clone())
                } else {
                    None
                }
            },
            None => None,
        }
    }
}

} // verus!
