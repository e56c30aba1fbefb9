//! Posts: the records that name the images to fetch.

use vstd::prelude::*;
use vstd::string::*;

verus! {

/// A post: a title and the URLs of its images, in order.
#[derive(Debug)]
pub struct Post {
    pub title: String,
    pub images: Vec<String>,
}

/// The text that a status message starts with.
pub open spec fn status_prefix() -> Seq<char> {
    "Downloading image for: "@
}

/// The text shown when every post is completed.
pub open spec fn completion_message() -> Seq<char> {
    "Image downloads complete!"@
}

impl Post {
    /// The URLs of the post's images, in order.
    pub open spec fn urls(&self) -> Seq<Seq<char>> {
        self.images.deep_view()
    }

    /// A post with the given title and image URLs.
    pub fn new(title: String, images: Vec<String>) -> (post: Post)
        ensures
            post.title == title,
            post.images == images,
    {
        Post { title, images }
    }

    /// The status message shown while the images of this post are fetched.
    pub fn status_message(&self) -> (message: String)
        ensures
            message@ == status_prefix() + self.title@,
    {
        let mut message = String::from_str("Downloading image for: ");
        message.append(self.title.as_str());
        message
    }
}

/// The message shown when every post is completed.
pub fn completion_text() -> (message: String)
    ensures
        message@ == completion_message(),
{
    String::from_str("Image downloads complete!")
}

} // verus!
