use vstd::prelude::*;

verus! {

/// The minimum number of characters a comment body must have.
pub const MIN_COMMENT_LEN: usize = 10;

/// A body of text attached to a post, authored independently.
///
/// A comment entity is never destroyed: deleting a comment only unlinks its
/// id from the owning post, and the entity stays retrievable by id.
pub struct Comment {
    pub id: usize,
    pub body: String,
    pub author: String,
    pub created_at: u64,
}

impl Comment {
    pub fn get_comment_id(&self) -> (r: usize)
        ensures
            r == self.id,
    {
        self.id
    }

    pub fn get_body(&self) -> (r: String)
        ensures
            r == self.body,
    {
        self.body.clone()
    }

    pub fn get_author(&self) -> (r: String)
        ensures
            r == self.author,
    {
        self.author.clone()
    }

    pub fn get_created_at(&self) -> (r: u64)
        ensures
            r == self.created_at,
    {
        self.created_at
    }
}

impl Clone for Comment {
    fn clone(&self) -> (r: Self)
        ensures
            r == *self,
    {
        Comment {
            id: self.id,
            body: self.body.clone(),
            author: self.author.clone(),
            created_at: self.created_at,
        }
    }
}

} // verus!
