//! Links to befriended sites.

use vstd::prelude::*;

verus! {

/// A link to a befriended site.
#[derive(Debug, Clone, PartialEq, Eq)]
pub struct FriendLink {
    /// The name shown.
    pub name: String,
    /// The address linked to.
    pub url: String,
    /// Address of the picture shown with the link.
    pub avatar: String,
    /// A line that describes the site.
    pub desc: String,
}

} // verus!
