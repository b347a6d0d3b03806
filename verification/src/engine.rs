use vstd::prelude::*;
use crate::comment::{Comment, MIN_COMMENT_LEN};
use crate::donation::DonationLog;
use crate::errors::BlogError;
use crate::ids::IdCounter;
use crate::post::Post;
use crate::votes::{vote_status_of, VoteStatus};

verus! {

/// What the hosting environment supplies with every call: the identity the
/// call was made under, the current timestamp, and the balance available to
/// the call for value transfers.
pub struct ExecutionContext {
    pub caller: String,
    pub timestamp: u64,
    pub balance: u128,
}

/// A value transfer the engine asks the hosting environment to perform:
/// `amount` goes to the identity `recipient`.
pub struct Transfer {
    pub recipient: String,
    pub amount: u128,
}

/// One author's entry in the author index: the ids of the posts this
/// identity created, in creation order.  The entry is not cleaned up when a
/// post is deleted, so it may name ids that no longer resolve.
pub struct AuthorPosts {
    pub author: String,
    pub post_ids: Vec<usize>,
}

impl Clone for AuthorPosts {
    fn clone(&self) -> (r: Self)
        ensures
            r.author == self.author,
            r.post_ids@ == self.post_ids@,
    {
        let r = AuthorPosts { author: self.author.clone(), post_ids: self.post_ids.clone() };
        proof {
            assert(r.post_ids@ =~= self.post_ids@);
        }
        r
    }
}

/// Some live post carries the id.
pub open spec fn has_post_id(posts: Seq<Post>, id: usize) -> bool {
    exists|i: int| 0 <= i < posts.len() && posts[i].id == id
}

/// The position of the post carrying `id` (meaningful when `has_post_id`
/// holds and ids are distinct).
pub open spec fn post_index(posts: Seq<Post>, id: usize) -> int {
    choose|i: int| 0 <= i < posts.len() && posts[i].id == id
}

/// The post carrying `id`.
pub open spec fn the_post(posts: Seq<Post>, id: usize) -> Post {
    posts[post_index(posts, id)]
}

/// No two live posts carry the same id.
pub open spec fn distinct_post_ids(posts: Seq<Post>) -> bool {
    forall|i: int, j: int| 0 <= i < j < posts.len() ==> posts[i].id != posts[j].id
}

/// Element-wise sameness of two post sequences (see [`Post::post_eq`]).
pub open spec fn posts_eq(a: Seq<Post>, b: Seq<Post>) -> bool {
    a.len() == b.len() && forall|i: int| 0 <= i < a.len() ==> (#[trigger] a[i]).post_eq(b[i])
}

/// No id occurs in both lists.
pub open spec fn ids_disjoint(a: Seq<usize>, b: Seq<usize>) -> bool {
    forall|v: usize| a.contains(v) ==> !b.contains(v)
}

/// All donation ids in `a` differ from all donation ids in `b`.
pub open spec fn donation_ids_disjoint(a: Seq<DonationLog>, b: Seq<DonationLog>) -> bool {
    forall|p: int, q: int|
        0 <= p < a.len() && 0 <= q < b.len() ==> (#[trigger] a[p]).id != (#[trigger] b[q]).id
}

/// No donation id occurs twice in one log.
pub open spec fn distinct_donation_ids(s: Seq<DonationLog>) -> bool {
    forall|p: int, q: int| 0 <= p < q < s.len() ==> s[p].id != s[q].id
}

/// `name` owns an entry of the author index.
pub open spec fn author_in(entries: Seq<AuthorPosts>, name: Seq<char>) -> bool {
    exists|i: int| 0 <= i < entries.len() && entries[i].author@ == name
}

/// The position of `name`'s entry (meaningful when `author_in` holds and
/// authors are distinct).
pub open spec fn author_index(entries: Seq<AuthorPosts>, name: Seq<char>) -> int {
    choose|i: int| 0 <= i < entries.len() && entries[i].author@ == name
}

/// Every author owns at most one entry.
pub open spec fn distinct_authors(entries: Seq<AuthorPosts>) -> bool {
    forall|i: int, j: int| 0 <= i < j < entries.len() ==> entries[i].author@ != entries[j].author@
}

/// The ids recorded for `name` in the author index, in creation order; empty
/// when the author owns no entry.
pub open spec fn user_post_list(entries: Seq<AuthorPosts>, name: Seq<char>) -> Seq<usize> {
    if author_in(entries, name) {
        entries[author_index(entries, name)].post_ids@
    } else {
        Seq::empty()
    }
}

/// One page of an enumeration, 1-based: the slice `[(page-1)*size,
/// (page-1)*size + size)` clamped to the sequence's length.  A page that
/// starts at or past the end is empty.
pub open spec fn page_slice<T>(s: Seq<T>, page: int, size: int) -> Seq<T> {
    let total = s.len() as int;
    let start = (page - 1) * size;
    let lo = if start > total {
        total
    } else {
        start
    };
    let hi = if start + size > total {
        total
    } else {
        start + size
    };
    s.subrange(lo, hi)
}

/// The record-keeping engine: the single entry point the hosting environment
/// drives, owning the posts, the comments, the author index, and the three
/// id counters.
pub struct Blog {
    /// The configured owner identity; only it may delete posts and comments.
    pub owner: String,
    /// The author index.
    pub user_posts: Vec<AuthorPosts>,
    /// The live posts, in creation order (deletion closes the gap and keeps
    /// the order of the rest).
    pub posts: Vec<Post>,
    /// Every comment ever created, never destroyed; the comment with id `k`
    /// sits at position `k`.
    pub comments: Vec<Comment>,
    pub next_post_id: IdCounter,
    pub next_comment_id: IdCounter,
    pub next_donation_id: IdCounter,
}

impl Blog {
    /// Post ids are distinct, below the counter, and each post is internally
    /// consistent.
    pub open spec fn posts_wf(self) -> bool {
        &&& distinct_post_ids(self.posts@)
        &&& forall|i: int|
            0 <= i < self.posts@.len() ==> (#[trigger] self.posts@[i]).wf() && self.posts@[i].id
                < self.next_post_id.current()
    }

    /// Comment ids are dense: the comment with id `k` sits at position `k`,
    /// and the counter equals the number of comments ever created.
    pub open spec fn comments_wf(self) -> bool {
        &&& self.comments@.len() == self.next_comment_id.current()
        &&& forall|i: int| 0 <= i < self.comments@.len() ==> (#[trigger] self.comments@[i]).id == i
    }

    /// Every comment id linked from a post resolves, and no comment id is
    /// linked from two posts.
    pub open spec fn links_wf(self) -> bool {
        &&& forall|i: int, k: int|
            0 <= i < self.posts@.len() && 0 <= k < self.posts@[i].comment_ids@.len() ==> (
            #[trigger] self.posts@[i].comment_ids@[k]) < self.next_comment_id.current()
        &&& forall|i: int, j: int|
            0 <= i < j < self.posts@.len() ==> ids_disjoint(
                (#[trigger] self.posts@[i]).comment_ids@,
                (#[trigger] self.posts@[j]).comment_ids@,
            )
    }

    /// Donation ids are below the counter and unique across all logs.
    pub open spec fn donations_wf(self) -> bool {
        &&& forall|i: int, k: int|
            0 <= i < self.posts@.len() && 0 <= k < self.posts@[i].donations@.len() ==> (
            #[trigger] self.posts@[i].donations@[k]).id < self.next_donation_id.current()
        &&& forall|i: int|
            0 <= i < self.posts@.len() ==> distinct_donation_ids(
                (#[trigger] self.posts@[i]).donations@,
            )
        &&& forall|i: int, j: int|
            0 <= i < j < self.posts@.len() ==> donation_ids_disjoint(
                (#[trigger] self.posts@[i]).donations@,
                (#[trigger] self.posts@[j]).donations@,
            )
    }

    /// Authors own at most one entry each, and entries hold duplicate-free
    /// ids below the post counter (possibly dangling after a deletion).
    pub open spec fn authors_wf(self) -> bool {
        &&& distinct_authors(self.user_posts@)
        &&& forall|i: int|
            0 <= i < self.user_posts@.len() ==> (
            #[trigger] self.user_posts@[i]).post_ids@.no_duplicates()
        &&& forall|i: int, k: int|
            0 <= i < self.user_posts@.len() && 0 <= k < self.user_posts@[i].post_ids@.len() ==> (
            #[trigger] self.user_posts@[i].post_ids@[k]) < self.next_post_id.current()
    }

    /// The engine's cross-entity invariant; established by `new` and
    /// preserved by every operation.
    pub open spec fn wf(self) -> bool {
        &&& self.posts_wf()
        &&& self.comments_wf()
        &&& self.links_wf()
        &&& self.donations_wf()
        &&& self.authors_wf()
    }

    /// No id counter ever moves backwards, whatever the operation.
    pub open spec fn counters_monotone(pre: Blog, post: Blog) -> bool {
        &&& pre.next_post_id.current() <= post.next_post_id.current()
        &&& pre.next_comment_id.current() <= post.next_comment_id.current()
        &&& pre.next_donation_id.current() <= post.next_donation_id.current()
    }

    /// An empty engine owned by `owner`: no posts, no comments, all counters
    /// at zero.
    pub fn new(owner: String) -> (r: Blog)
        ensures
            r.wf(),
            r.owner == owner,
            r.posts@ == Seq::<Post>::empty(),
            r.comments@ == Seq::<Comment>::empty(),
            r.user_posts@ == Seq::<AuthorPosts>::empty(),
            r.next_post_id.current() == 0,
            r.next_comment_id.current() == 0,
            r.next_donation_id.current() == 0,
    {
        Blog {
            owner,
            user_posts: Vec::new(),
            posts: Vec::new(),
            comments: Vec::new(),
            next_post_id: IdCounter::new(),
            next_comment_id: IdCounter::new(),
            next_donation_id: IdCounter::new(),
        }
    }

    /// The position of the post carrying `post_id`, if it is live.
    fn find_post(&self, post_id: usize) -> (r: Option<usize>)
        requires
            distinct_post_ids(self.posts@),
        ensures
            match r {
                Some(i) => i < self.posts@.len() && self.posts@[i as int].id == post_id
                    && has_post_id(self.posts@, post_id) && post_index(self.posts@, post_id)
                    == i as int,
                None => !has_post_id(self.posts@, post_id),
            },
    {
        let mut i: usize = 0;
        let n = self.posts.len();
        while i < n
            invariant
                n == self.posts@.len(),
                distinct_post_ids(self.posts@),
                i <= n,
                forall|j: int| 0 <= j < i ==> (#[trigger] self.posts@[j]).id != post_id,
            decreases n - i,
        {
            if self.posts[i].id == post_id {
                proof {
                    assert(has_post_id(self.posts@, post_id));
                    let k = post_index(self.posts@, post_id);
                    if k < i as int {
                        assert(self.posts@[k].id != self.posts@[i as int].id);
                    }
                    if k > i as int {
                        assert(self.posts@[i as int].id != self.posts@[k].id);
                    }
                }
                return Some(i);
            }
            i = i + 1;
        }
        None
    }

    /// The position of `name`'s entry in the author index, if any.
    fn find_author(&self, name: &String) -> (r: Option<usize>)
        requires
            distinct_authors(self.user_posts@),
        ensures
            match r {
                Some(i) => i < self.user_posts@.len() && self.user_posts@[i as int].author@
                    == name@ && author_in(self.user_posts@, name@) && author_index(
                    self.user_posts@,
                    name@,
                ) == i as int,
                None => !author_in(self.user_posts@, name@),
            },
    {
        let mut i: usize = 0;
        let n = self.user_posts.len();
        while i < n
            invariant
                n == self.user_posts@.len(),
                distinct_authors(self.user_posts@),
                i <= n,
                forall|j: int| 0 <= j < i ==> (#[trigger] self.user_posts@[j]).author@ != name@,
            decreases n - i,
        {
            if self.user_posts[i].author == *name {
                proof {
                    assert(self.user_posts@[i as int].author@ == name@);
                    assert(author_in(self.user_posts@, name@));
                    let k = author_index(self.user_posts@, name@);
                    if k < i as int {
                        assert(self.user_posts@[k].author@ != self.user_posts@[i as int].author@);
                    }
                    if k > i as int {
                        assert(self.user_posts@[i as int].author@ != self.user_posts@[k].author@);
                    }
                }
                return Some(i);
            }
            i = i + 1;
        }
        None
    }

    /// The configured owner identity.
    pub fn get_owner(&self) -> (r: String)
        ensures
            r == self.owner,
    {
        self.owner.clone()
    }

    /// Pure lookup of one post by id.
    pub fn get_post(&self, post_id: usize) -> (r: Option<Post>)
        requires
            self.wf(),
        ensures
            match r {
                Some(p) => has_post_id(self.posts@, post_id) && p.post_eq(
                    the_post(self.posts@, post_id),
                ),
                None => !has_post_id(self.posts@, post_id),
            },
    {
        match self.find_post(post_id) {
            Some(i) => Some(self.posts[i].clone()),
            None => None,
        }
    }

    /// All live posts, in the store's enumeration order.
    pub fn get_posts(&self) -> (r: Vec<Post>)
        requires
            self.wf(),
        ensures
            posts_eq(r@, self.posts@),
    {
        let mut r: Vec<Post> = Vec::new();
        let n = self.posts.len();
        let mut i: usize = 0;
        while i < n
            invariant
                n == self.posts@.len(),
                i <= n,
                r@.len() == i,
                forall|k: int| 0 <= k < i ==> (#[trigger] r@[k]).post_eq(self.posts@[k]),
            decreases n - i,
        {
            r.push(self.posts[i].clone());
            i = i + 1;
        }
        r
    }

    /// The posts an author's index entry names, in creation order; the empty
    /// sequence for an unknown author.  Aborts with `NotFound` if the entry
    /// names a post that was deleted (the index is not cleaned up on
    /// deletion).
    pub fn get_user_posts(&self, user_id: String) -> (r: Result<Vec<Post>, BlogError>)
        requires
            self.wf(),
        ensures
            match r {
                Ok(v) => {
                    let list = user_post_list(self.user_posts@, user_id@);
                    &&& v@.len() == list.len()
                    &&& forall|k: int|
                        0 <= k < list.len() ==> has_post_id(self.posts@, list[k]) && (
                        #[trigger] v@[k]).post_eq(the_post(self.posts@, list[k]))
                },
                Err(e) => e == BlogError::NotFound && exists|k: int|
                    0 <= k < user_post_list(self.user_posts@, user_id@).len() && !has_post_id(
                        self.posts@,
                        user_post_list(self.user_posts@, user_id@)[k],
                    ),
            },
    {
        let mut r: Vec<Post> = Vec::new();
        let entry = match self.find_author(&user_id) {
            Some(i) => i,
            None => {
                return Ok(r);
            },
        };
        let ghost list = user_post_list(self.user_posts@, user_id@);
        let n = self.user_posts[entry].post_ids.len();
        let mut k: usize = 0;
        while k < n
            invariant
                self.wf(),
                entry < self.user_posts@.len(),
                list == self.user_posts@[entry as int].post_ids@,
                list == user_post_list(self.user_posts@, user_id@),
                n == list.len(),
                k <= n,
                r@.len() == k,
                forall|j: int| 0 <= j < k ==> has_post_id(self.posts@, #[trigger] list[j]),
                forall|j: int|
                    0 <= j < k ==> (#[trigger] r@[j]).post_eq(the_post(self.posts@, list[j])),
            decreases n - k,
        {
            let pid = self.user_posts[entry].post_ids[k];
            match self.find_post(pid) {
                Some(i) => {
                    let ghost prev = r@;
                    r.push(self.posts[i].clone());
                    proof {
                        assert forall|j: int| 0 <= j < k + 1 implies has_post_id(
                            self.posts@,
                            #[trigger] list[j],
                        ) by {
                            if j == k as int {
                                assert(list[j] == pid);
                            }
                        }
                        assert forall|j: int| 0 <= j < k + 1 implies (#[trigger] r@[j]).post_eq(
                            the_post(self.posts@, list[j]),
                        ) by {
                            if j < k as int {
                                assert(r@[j] == prev[j]);
                            } else {
                                assert(r@[j] == r@[prev.len() as int]);
                                assert(list[j] == pid);
                                assert(the_post(self.posts@, pid) == self.posts@[i as int]);
                            }
                        }
                    }
                },
                None => {
                    proof {
                        assert(list[k as int] == pid);
                        assert(!has_post_id(
                            self.posts@,
                            user_post_list(self.user_posts@, user_id@)[k as int],
                        ));
                    }
                    return Err(BlogError::NotFound);
                },
            }
            k = k + 1;
        }
        Ok(r)
    }

    /// The clamped index window `[lo, hi)` of the 1-based page `page` of
    /// size `page_size` over an enumeration of `total` elements.
    fn page_bounds(total: usize, page: usize, page_size: usize) -> (r: (usize, usize))
        requires
            page >= 1,
            page_size >= 1,
        ensures
            r.0 as int == ({
                let start = (page as int - 1) * (page_size as int);
                if start > total as int {
                    total as int
                } else {
                    start
                }
            }),
            r.1 as int == ({
                let start = (page as int - 1) * (page_size as int);
                if start + page_size as int > total as int {
                    total as int
                } else {
                    start + page_size as int
                }
            }),
            r.0 <= r.1 <= total,
            r.1 - r.0 <= page_size,
    {
        proof {
            assert((page as int - 1) * (page_size as int) <= (u64::MAX as int) * (
            u64::MAX as int) && (page as int - 1) * (page_size as int) >= 0) by (nonlinear_arith)
                requires
                    1 <= page as int <= u64::MAX as int && 1 <= page_size as int <= u64::MAX as int,
            ;
        }
        let start128 = (page as u128 - 1) * (page_size as u128);
        let total128 = total as u128;
        let lo = if start128 >= total128 {
            total
        } else {
            start128 as usize
        };
        let end128 = start128 + page_size as u128;
        let hi = if end128 >= total128 {
            total
        } else {
            end128 as usize
        };
        (lo, hi)
    }

    /// One 1-based page of the post enumeration; rejects a zero page or page
    /// size, and returns an empty page past the end.
    pub fn get_paging_posts(&self, page: usize, page_size: usize) -> (r: Result<
        Vec<Post>,
        BlogError,
    >)
        requires
            self.wf(),
        ensures
            (page == 0 || page_size == 0) <==> r == Err::<Vec<Post>, BlogError>(
                BlogError::ValidationError,
            ),
            match r {
                Ok(v) => posts_eq(v@, page_slice(self.posts@, page as int, page_size as int))
                    && v@.len() <= page_size,
                Err(e) => e == BlogError::ValidationError,
            },
    {
        if page_size == 0 || page == 0 {
            return Err(BlogError::ValidationError);
        }
        let (start, end) = Self::page_bounds(self.posts.len(), page, page_size);
        let mut v: Vec<Post> = Vec::new();
        let ghost slice = page_slice(self.posts@, page as int, page_size as int);
        proof {
            assert(slice =~= self.posts@.subrange(start as int, end as int));
        }
        let mut i: usize = start;
        while i < end
            invariant
                self.wf(),
                start <= i <= end,
                end <= self.posts@.len(),
                slice == self.posts@.subrange(start as int, end as int),
                v@.len() == i - start,
                forall|k: int|
                    0 <= k < v@.len() ==> (#[trigger] v@[k]).post_eq(self.posts@[start + k]),
            decreases end - i,
        {
            v.push(self.posts[i].clone());
            i = i + 1;
        }
        proof {
            assert forall|k: int| 0 <= k < v@.len() implies (#[trigger] v@[k]).post_eq(
                slice[k],
            ) by {
                assert(slice[k] == self.posts@[start + k]);
            }
        }
        Ok(v)
    }

    /// How many posts are live (created and not deleted).
    pub fn get_total_posts(&self) -> (r: u64)
        ensures
            r == self.posts@.len(),
    {
        self.posts.len() as u64
    }

    /// The id the next created post will get.
    pub fn get_next_post_id(&self) -> (r: usize)
        ensures
            r == self.next_post_id.current(),
    {
        self.next_post_id.peek()
    }

    /// The comments linked to a post, in the order the post links them.
    pub fn get_comments(&self, post_id: usize) -> (r: Result<Vec<Comment>, BlogError>)
        requires
            self.wf(),
        ensures
            match r {
                Ok(v) => has_post_id(self.posts@, post_id) && {
                    let list = the_post(self.posts@, post_id).comment_ids@;
                    &&& v@.len() == list.len()
                    &&& forall|k: int|
                        0 <= k < list.len() ==> (#[trigger] v@[k]) == self.comments@[list[k] as int]
                },
                Err(e) => e == BlogError::NotFound && !has_post_id(self.posts@, post_id),
            },
    {
        let idx = match self.find_post(post_id) {
            Some(i) => i,
            None => {
                return Err(BlogError::NotFound);
            },
        };
        let ghost list = self.posts@[idx as int].comment_ids@;
        let n = self.posts[idx].comment_ids.len();
        let mut v: Vec<Comment> = Vec::new();
        let mut k: usize = 0;
        while k < n
            invariant
                self.wf(),
                idx < self.posts@.len(),
                list == self.posts@[idx as int].comment_ids@,
                n == list.len(),
                k <= n,
                v@.len() == k,
                forall|j: int| 0 <= j < k ==> (#[trigger] v@[j]) == self.comments@[list[j] as int],
            decreases n - k,
        {
            let cid = self.posts[idx].comment_ids[k];
            assert(cid < self.comments@.len());
            v.push(self.comments[cid].clone());
            k = k + 1;
        }
        Ok(v)
    }

    /// One 1-based page of a post's comment list; rejects a zero page or
    /// page size before resolving the post.
    pub fn get_paging_comments(&self, post_id: usize, page: usize, page_size: usize) -> (r: Result<
        Vec<Comment>,
        BlogError,
    >)
        requires
            self.wf(),
        ensures
            (page == 0 || page_size == 0) <==> r == Err::<Vec<Comment>, BlogError>(
                BlogError::ValidationError,
            ),
            match r {
                Ok(v) => has_post_id(self.posts@, post_id) && {
                    let sub = page_slice(
                        the_post(self.posts@, post_id).comment_ids@,
                        page as int,
                        page_size as int,
                    );
                    &&& v@.len() == sub.len()
                    &&& v@.len() <= page_size
                    &&& forall|k: int|
                        0 <= k < sub.len() ==> (#[trigger] v@[k]) == self.comments@[sub[k] as int]
                },
                Err(e) => e == BlogError::ValidationError || (e == BlogError::NotFound
                    && !has_post_id(self.posts@, post_id)),
            },
    {
        if page_size == 0 || page == 0 {
            return Err(BlogError::ValidationError);
        }
        let idx = match self.find_post(post_id) {
            Some(i) => i,
            None => {
                return Err(BlogError::NotFound);
            },
        };
        let ghost list = self.posts@[idx as int].comment_ids@;
        let (start, end) = Self::page_bounds(self.posts[idx].comment_ids.len(), page, page_size);
        let mut v: Vec<Comment> = Vec::new();
        let ghost sub = page_slice(list, page as int, page_size as int);
        proof {
            assert(sub =~= list.subrange(start as int, end as int));
        }
        let mut k: usize = start;
        while k < end
            invariant
                self.wf(),
                idx < self.posts@.len(),
                list == self.posts@[idx as int].comment_ids@,
                start <= k <= end,
                end <= list.len(),
                sub == list.subrange(start as int, end as int),
                v@.len() == k - start,
                forall|j: int|
                    0 <= j < v@.len() ==> (#[trigger] v@[j]) == self.comments@[list[start + j] as int],
            decreases end - k,
        {
            let cid = self.posts[idx].comment_ids[k];
            assert(cid < self.comments@.len());
            v.push(self.comments[cid].clone());
            k = k + 1;
        }
        proof {
            assert forall|j: int| 0 <= j < v@.len() implies (#[trigger] v@[j])
                == self.comments@[sub[j] as int] by {
                assert(sub[j] == list[start + j]);
            }
        }
        Ok(v)
    }

    /// How many comments were ever created, over all posts.
    pub fn get_total_comments(&self) -> (r: u64)
        ensures
            r == self.comments@.len(),
    {
        self.comments.len() as u64
    }

    /// Lookup of one comment entity by id; a comment stays retrievable even
    /// after it was unlinked from its post.
    pub fn get_comment(&self, comment_id: usize) -> (r: Result<Comment, BlogError>)
        requires
            self.wf(),
        ensures
            match r {
                Ok(c) => comment_id < self.comments@.len() && c == self.comments@[comment_id as int],
                Err(e) => e == BlogError::NotFound && comment_id >= self.comments@.len(),
            },
    {
        if comment_id < self.comments.len() {
            Ok(self.comments[comment_id].clone())
        } else {
            Err(BlogError::NotFound)
        }
    }

    /// How many comments a post currently links.
    pub fn get_post_total_comments(&self, post_id: usize) -> (r: Result<u64, BlogError>)
        requires
            self.wf(),
        ensures
            match r {
                Ok(n) => has_post_id(self.posts@, post_id) && n == the_post(
                    self.posts@,
                    post_id,
                ).comment_ids@.len(),
                Err(e) => e == BlogError::NotFound && !has_post_id(self.posts@, post_id),
            },
    {
        match self.find_post(post_id) {
            Some(i) => Ok(self.posts[i].comment_ids.len() as u64),
            None => Err(BlogError::NotFound),
        }
    }

    /// The number of upvoters and of downvoters of a post.
    pub fn get_votes_statistics(&self, post_id: usize) -> (r: Result<(usize, usize), BlogError>)
        requires
            self.wf(),
        ensures
            match r {
                Ok(c) => has_post_id(self.posts@, post_id) && c.0 == the_post(
                    self.posts@,
                    post_id,
                ).upvoters@.len() && c.1 == the_post(self.posts@, post_id).downvoters@.len(),
                Err(e) => e == BlogError::NotFound && !has_post_id(self.posts@, post_id),
            },
    {
        match self.find_post(post_id) {
            Some(i) => Ok((self.posts[i].upvoters.len(), self.posts[i].downvoters.len())),
            None => Err(BlogError::NotFound),
        }
    }

    /// The tri-state vote classification of one identity against one post.
    pub fn get_user_vote_status(&self, post_id: usize, user_id: String) -> (r: Result<
        VoteStatus,
        BlogError,
    >)
        requires
            self.wf(),
        ensures
            match r {
                Ok(s) => has_post_id(self.posts@, post_id) && s == vote_status_of(
                    the_post(self.posts@, post_id).upvoters@,
                    the_post(self.posts@, post_id).downvoters@,
                    user_id@,
                ),
                Err(e) => e == BlogError::NotFound && !has_post_id(self.posts@, post_id),
            },
    {
        let idx = match self.find_post(post_id) {
            Some(i) => i,
            None => {
                return Err(BlogError::NotFound);
            },
        };
        let up = crate::votes::roster_contains(&self.posts[idx].upvoters, &user_id);
        let down = crate::votes::roster_contains(&self.posts[idx].downvoters, &user_id);
        if up && !down {
            Ok(VoteStatus::Upvoted)
        } else if !up && down {
            Ok(VoteStatus::Downvoted)
        } else {
            Ok(VoteStatus::NoVote)
        }
    }
}

/// The state change of a successful post creation: the fresh id is the old
/// counter value, the post is appended with empty collections, the counter
/// advances, and the creator's index entry grows by the id.
pub open spec fn create_post_applied(
    pre: Blog,
    post: Blog,
    title: String,
    body: String,
    caller: String,
    ts: u64,
    id: usize,
) -> bool {
    &&& id == pre.next_post_id.current()
    &&& post.next_post_id.current() == pre.next_post_id.current() + 1
    &&& post.next_comment_id == pre.next_comment_id
    &&& post.next_donation_id == pre.next_donation_id
    &&& post.owner == pre.owner
    &&& post.comments@ == pre.comments@
    &&& post.posts@.len() == pre.posts@.len() + 1
    &&& post.posts@.drop_last() == pre.posts@
    &&& post.posts@.last().id == id
    &&& post.posts@.last().title == title
    &&& post.posts@.last().body == body
    &&& post.posts@.last().author == caller
    &&& post.posts@.last().created_at == ts
    &&& post.posts@.last().comment_ids@ == Seq::<usize>::empty()
    &&& post.posts@.last().upvoters@ == Seq::<String>::empty()
    &&& post.posts@.last().downvoters@ == Seq::<String>::empty()
    &&& post.posts@.last().donations@ == Seq::<crate::donation::DonationLog>::empty()
    &&& post.posts@.last().total_donated == 0
    &&& if author_in(pre.user_posts@, caller@) {
        let k = author_index(pre.user_posts@, caller@);
        &&& post.user_posts@ == pre.user_posts@.update(k, post.user_posts@[k])
        &&& post.user_posts@[k].author == pre.user_posts@[k].author
        &&& post.user_posts@[k].post_ids@ == pre.user_posts@[k].post_ids@.push(id)
    } else {
        &&& post.user_posts@.len() == pre.user_posts@.len() + 1
        &&& post.user_posts@.drop_last() == pre.user_posts@
        &&& post.user_posts@.last().author == caller
        &&& post.user_posts@.last().post_ids@ == seq![id]
    }
}

/// The state change of a successful post deletion: the post (if live) leaves
/// the store, everything else — comments, author index, counters — stays.
pub open spec fn delete_post_applied(pre: Blog, post: Blog, post_id: usize) -> bool {
    &&& post.owner == pre.owner
    &&& post.comments@ == pre.comments@
    &&& post.user_posts@ == pre.user_posts@
    &&& post.next_post_id == pre.next_post_id
    &&& post.next_comment_id == pre.next_comment_id
    &&& post.next_donation_id == pre.next_donation_id
    &&& if has_post_id(pre.posts@, post_id) {
        post.posts@ == pre.posts@.remove(post_index(pre.posts@, post_id))
    } else {
        post.posts@ == pre.posts@
    }
}

/// The state change of a successful comment creation: the comment entity is
/// appended under the fresh id (the old counter value), the counter
/// advances, and the id is appended to the addressed post's comment list.
pub open spec fn create_comment_applied(
    pre: Blog,
    post: Blog,
    post_id: usize,
    body: String,
    caller: String,
    ts: u64,
) -> bool {
    &&& has_post_id(pre.posts@, post_id)
    &&& post.comments@ == pre.comments@.push(
        (Comment {
            id: pre.next_comment_id.current(),
            body: body,
            author: caller,
            created_at: ts,
        }),
    )
    &&& post.next_comment_id.current() == pre.next_comment_id.current() + 1
    &&& post.next_post_id == pre.next_post_id
    &&& post.next_donation_id == pre.next_donation_id
    &&& post.owner == pre.owner
    &&& post.user_posts@ == pre.user_posts@
    &&& {
        let i = post_index(pre.posts@, post_id);
        &&& post.posts@ == pre.posts@.update(i, post.posts@[i])
        &&& post.posts@[i].same_core(pre.posts@[i])
        &&& post.posts@[i].same_votes(pre.posts@[i])
        &&& post.posts@[i].same_donations(pre.posts@[i])
        &&& post.posts@[i].comment_ids@ == pre.posts@[i].comment_ids@.push(
            pre.next_comment_id.current(),
        )
    }
}

/// The state change of unlinking a comment from a post: the id leaves the
/// post's comment list (if it was there); the comment entity itself stays.
pub open spec fn delete_comment_applied(
    pre: Blog,
    post: Blog,
    post_id: usize,
    comment_id: usize,
) -> bool {
    &&& has_post_id(pre.posts@, post_id)
    &&& post.comments@ == pre.comments@
    &&& post.owner == pre.owner
    &&& post.user_posts@ == pre.user_posts@
    &&& post.next_post_id == pre.next_post_id
    &&& post.next_comment_id == pre.next_comment_id
    &&& post.next_donation_id == pre.next_donation_id
    &&& {
        let i = post_index(pre.posts@, post_id);
        &&& post.posts@ == pre.posts@.update(i, post.posts@[i])
        &&& post.posts@[i].same_core(pre.posts@[i])
        &&& post.posts@[i].same_votes(pre.posts@[i])
        &&& post.posts@[i].same_donations(pre.posts@[i])
        &&& post.posts@[i].comment_ids@ == pre.posts@[i].comment_ids@.remove_value(comment_id)
    }
}

/// The state change of recording one donation: a record carrying the fresh
/// id (the old counter value) is appended to the addressed post's log, the
/// running total grows by the amount, and the counter advances.
pub open spec fn donation_recorded(
    pre: Blog,
    post: Blog,
    post_id: usize,
    amount: u128,
    donor: String,
    ts: u64,
    message: String,
) -> bool {
    &&& has_post_id(pre.posts@, post_id)
    &&& post.next_donation_id.current() == pre.next_donation_id.current() + 1
    &&& post.next_post_id == pre.next_post_id
    &&& post.next_comment_id == pre.next_comment_id
    &&& post.owner == pre.owner
    &&& post.comments@ == pre.comments@
    &&& post.user_posts@ == pre.user_posts@
    &&& {
        let i = post_index(pre.posts@, post_id);
        &&& post.posts@ == pre.posts@.update(i, post.posts@[i])
        &&& post.posts@[i].same_core(pre.posts@[i])
        &&& post.posts@[i].same_votes(pre.posts@[i])
        &&& post.posts@[i].same_comments(pre.posts@[i])
        &&& post.posts@[i].donations@ == pre.posts@[i].donations@.push(
            (DonationLog {
                id: pre.next_donation_id.current(),
                amount: amount,
                donor: donor,
                created_at: ts,
                message: message,
                post_id: post_id,
            }),
        )
        &&& post.posts@[i].total_donated == pre.posts@[i].total_donated + amount
    }
}

/// The state change of a vote operation on one post: only the two voter
/// rosters of that post change, as `up_to` and `down_to` say.
pub open spec fn vote_applied(
    pre: Blog,
    post: Blog,
    post_id: usize,
    up_to: Seq<String>,
    down_to: Seq<String>,
) -> bool {
    &&& has_post_id(pre.posts@, post_id)
    &&& post.owner == pre.owner
    &&& post.comments@ == pre.comments@
    &&& post.user_posts@ == pre.user_posts@
    &&& post.next_post_id == pre.next_post_id
    &&& post.next_comment_id == pre.next_comment_id
    &&& post.next_donation_id == pre.next_donation_id
    &&& {
        let i = post_index(pre.posts@, post_id);
        &&& post.posts@ == pre.posts@.update(i, post.posts@[i])
        &&& post.posts@[i].same_core(pre.posts@[i])
        &&& post.posts@[i].same_comments(pre.posts@[i])
        &&& post.posts@[i].same_donations(pre.posts@[i])
        &&& post.posts@[i].upvoters@ == up_to
        &&& post.posts@[i].downvoters@ == down_to
    }
}

impl Blog {
    /// Replacing one post by a well-formed one with the same id, the same
    /// comment list and the same donation log preserves the engine
    /// invariant.
    proof fn lemma_wf_update_votes(pre: Blog, post: Blog, i: int)
        requires
            pre.wf(),
            0 <= i < pre.posts@.len(),
            post.posts@ == pre.posts@.update(i, post.posts@[i]),
            post.posts@[i].wf(),
            post.posts@[i].same_core(pre.posts@[i]),
            post.posts@[i].same_comments(pre.posts@[i]),
            post.posts@[i].same_donations(pre.posts@[i]),
            post.owner == pre.owner,
            post.comments@ == pre.comments@,
            post.user_posts@ == pre.user_posts@,
            post.next_post_id == pre.next_post_id,
            post.next_comment_id == pre.next_comment_id,
            post.next_donation_id == pre.next_donation_id,
        ensures
            post.wf(),
    {
        assert(post.posts@.len() == pre.posts@.len());
        assert forall|j: int| 0 <= j < post.posts@.len() implies (#[trigger] post.posts@[j]).wf()
            && post.posts@[j].id < post.next_post_id.current() && post.posts@[j].comment_ids@
            == pre.posts@[j].comment_ids@ && post.posts@[j].donations@
            == pre.posts@[j].donations@ && post.posts@[j].id == pre.posts@[j].id by {
            if j != i {
                assert(post.posts@[j] == pre.posts@[j]);
            }
        }
    }

    /// Creates a post from the supplied title and body under the caller's
    /// identity: the returned id is the allocator's current value, which is
    /// then advanced; the post starts with no comments, no votes and no
    /// donations, and the id is appended to the caller's author-index entry.
    pub fn create_post(&mut self, title: String, body: String, ctx: &ExecutionContext) -> (r:
        usize)
        requires
            old(self).wf(),
            old(self).next_post_id.current() < usize::MAX,
        ensures
            final(self).wf(),
            Blog::counters_monotone(*old(self), *final(self)),
            create_post_applied(
                *old(self),
                *final(self),
                title,
                body,
                ctx.caller,
                ctx.timestamp,
                r,
            ),
    {
        let id = self.next_post_id.next();
        let post = Post::new(id, title, body, ctx.caller.clone(), ctx.timestamp);
        self.posts.push(post);
        proof {
            assert forall|p: int, q: int| 0 <= p < q < self.posts@.len() implies self.posts@[p].id
                != self.posts@[q].id by {
                if q < self.posts@.len() - 1 {
                    assert(self.posts@[p] == old(self).posts@[p]);
                    assert(self.posts@[q] == old(self).posts@[q]);
                } else {
                    assert(self.posts@[p] == old(self).posts@[p]);
                    assert(old(self).posts@[p].id < id);
                }
            }
            assert(self.posts@.drop_last() =~= old(self).posts@);
        }
        match self.find_author(&ctx.caller) {
            Some(k) => {
                let mut e = self.user_posts[k].clone();
                e.post_ids.push(id);
                self.user_posts.set(k, e);
                proof {
                    let pk = old(self).user_posts@[k as int].post_ids@;
                    assert(self.user_posts@[k as int].post_ids@ == pk.push(id));
                    assert forall|p: int, q: int|
                        0 <= p < q < pk.push(id).len() implies pk.push(id)[p] != pk.push(
                        id,
                    )[q] by {
                        if q < pk.len() {
                            assert(pk[p] == pk.push(id)[p] && pk[q] == pk.push(id)[q]);
                        } else {
                            assert(pk.push(id)[p] == pk[p]);
                            assert(pk[p] < id);
                        }
                    }
                    assert(self.user_posts@[k as int].post_ids@.no_duplicates());
                    self.lemma_wf_after_create(*old(self), k as int);
                }
            },
            None => {
                let mut ids_vec: Vec<usize> = Vec::new();
                ids_vec.push(id);
                self.user_posts.push(AuthorPosts { author: ctx.caller.clone(), post_ids: ids_vec });
                proof {
                    assert(self.user_posts@.drop_last() =~= old(self).user_posts@);
                    assert(self.user_posts@.last().post_ids@ =~= seq![id]);
                    self.lemma_wf_after_create(*old(self), self.user_posts@.len() - 1);
                }
            },
        }
        id
    }

    /// The engine invariant holds again once a creation has appended the new
    /// post and updated (or appended) the creator's index entry at `k`.
    proof fn lemma_wf_after_create(self, pre: Blog, k: int)
        requires
            pre.wf(),
            pre.next_post_id.current() < usize::MAX,
            self.next_post_id.current() == pre.next_post_id.current() + 1,
            self.next_comment_id == pre.next_comment_id,
            self.next_donation_id == pre.next_donation_id,
            self.comments@ == pre.comments@,
            self.posts@.len() == pre.posts@.len() + 1,
            self.posts@.drop_last() == pre.posts@,
            distinct_post_ids(self.posts@),
            self.posts@.last().wf(),
            self.posts@.last().id == pre.next_post_id.current(),
            self.posts@.last().comment_ids@ == Seq::<usize>::empty(),
            self.posts@.last().donations@ == Seq::<DonationLog>::empty(),
            0 <= k < self.user_posts@.len(),
            self.user_posts@.len() == pre.user_posts@.len() || self.user_posts@.len()
                == pre.user_posts@.len() + 1,
            self.user_posts@.len() == pre.user_posts@.len() + 1 ==> k == pre.user_posts@.len(),
            forall|j: int|
                0 <= j < self.user_posts@.len() && j != k ==> #[trigger] self.user_posts@[j]
                    == pre.user_posts@[j],
            forall|j: int|
                0 <= j < self.user_posts@.len() && j < pre.user_posts@.len() ==> (
                #[trigger] self.user_posts@[j]).author@ == pre.user_posts@[j].author@,
            k == pre.user_posts@.len() ==> !author_in(pre.user_posts@, self.user_posts@[k].author@),
            self.user_posts@[k].post_ids@.no_duplicates(),
            forall|t: int|
                0 <= t < self.user_posts@[k].post_ids@.len() ==> (
                #[trigger] self.user_posts@[k].post_ids@[t]) < self.next_post_id.current(),
        ensures
            self.wf(),
    {
        let n = pre.posts@.len() as int;
        assert forall|j: int| 0 <= j < self.posts@.len() implies (#[trigger] self.posts@[j]).wf()
            && self.posts@[j].id < self.next_post_id.current() by {
            if j < n {
                assert(self.posts@[j] == pre.posts@[j]);
            }
        }
        assert forall|i: int, t: int|
            0 <= i < self.posts@.len() && 0 <= t < self.posts@[i].comment_ids@.len() implies (
        #[trigger] self.posts@[i].comment_ids@[t]) < self.next_comment_id.current() by {
            if i < n {
                assert(self.posts@[i] == pre.posts@[i]);
            }
        }
        assert forall|i: int, j: int| 0 <= i < j < self.posts@.len() implies ids_disjoint(
            (#[trigger] self.posts@[i]).comment_ids@,
            (#[trigger] self.posts@[j]).comment_ids@,
        ) by {
            if j < n {
                assert(self.posts@[i] == pre.posts@[i]);
                assert(self.posts@[j] == pre.posts@[j]);
            } else {
                assert(self.posts@[i] == pre.posts@[i]);
                assert(self.posts@[j].comment_ids@.len() == 0);
            }
        }
        assert forall|i: int, t: int|
            0 <= i < self.posts@.len() && 0 <= t < self.posts@[i].donations@.len() implies (
        #[trigger] self.posts@[i].donations@[t]).id < self.next_donation_id.current() by {
            if i < n {
                assert(self.posts@[i] == pre.posts@[i]);
            }
        }
        assert forall|i: int| 0 <= i < self.posts@.len() implies distinct_donation_ids(
            (#[trigger] self.posts@[i]).donations@,
        ) by {
            if i < n {
                assert(self.posts@[i] == pre.posts@[i]);
            }
        }
        assert forall|i: int, j: int| 0 <= i < j < self.posts@.len() implies donation_ids_disjoint(
            (#[trigger] self.posts@[i]).donations@,
            (#[trigger] self.posts@[j]).donations@,
        ) by {
            if j < n {
                assert(self.posts@[i] == pre.posts@[i]);
                assert(self.posts@[j] == pre.posts@[j]);
            } else {
                assert(self.posts@[j].donations@.len() == 0);
            }
        }
        assert forall|i: int, j: int|
            0 <= i < j < self.user_posts@.len() implies self.user_posts@[i].author@
            != self.user_posts@[j].author@ by {
            if j < pre.user_posts@.len() {
                assert(self.user_posts@[i].author@ == pre.user_posts@[i].author@);
                assert(self.user_posts@[j].author@ == pre.user_posts@[j].author@);
            } else {
                assert(j == k);
                assert(self.user_posts@[i] == pre.user_posts@[i]);
            }
        }
        assert forall|i: int|
            0 <= i < self.user_posts@.len() implies (
        #[trigger] self.user_posts@[i]).post_ids@.no_duplicates() by {
            if i != k {
                assert(self.user_posts@[i] == pre.user_posts@[i]);
            }
        }
        assert forall|i: int, t: int|
            0 <= i < self.user_posts@.len() && 0 <= t < self.user_posts@[i].post_ids@.len() implies (
        #[trigger] self.user_posts@[i].post_ids@[t]) < self.next_post_id.current() by {
            if i != k {
                assert(self.user_posts@[i] == pre.user_posts@[i]);
            }
        }
    }

    /// Taking one post out of the store preserves the engine invariant.
    proof fn lemma_wf_after_remove(self, pre: Blog, i: int)
        requires
            pre.wf(),
            0 <= i < pre.posts@.len(),
            self.posts@ == pre.posts@.remove(i),
            self.owner == pre.owner,
            self.comments@ == pre.comments@,
            self.user_posts@ == pre.user_posts@,
            self.next_post_id == pre.next_post_id,
            self.next_comment_id == pre.next_comment_id,
            self.next_donation_id == pre.next_donation_id,
        ensures
            self.wf(),
    {
        pre.posts@.remove_ensures(i);
        let s = self.posts@;
        assert forall|p: int, q: int| 0 <= p < q < s.len() implies s[p].id != s[q].id by {
            let p0 = if p < i {
                p
            } else {
                p + 1
            };
            let q0 = if q < i {
                q
            } else {
                q + 1
            };
            assert(s[p] == pre.posts@[p0] && s[q] == pre.posts@[q0]);
        }
        assert forall|p: int| 0 <= p < s.len() implies (#[trigger] s[p]).wf() && s[p].id
            < self.next_post_id.current() by {
            let p0 = if p < i {
                p
            } else {
                p + 1
            };
            assert(s[p] == pre.posts@[p0]);
        }
        assert forall|p: int, t: int|
            0 <= p < s.len() && 0 <= t < s[p].comment_ids@.len() implies (
        #[trigger] s[p].comment_ids@[t]) < self.next_comment_id.current() by {
            let p0 = if p < i {
                p
            } else {
                p + 1
            };
            assert(s[p] == pre.posts@[p0]);
        }
        assert forall|p: int, q: int| 0 <= p < q < s.len() implies ids_disjoint(
            (#[trigger] s[p]).comment_ids@,
            (#[trigger] s[q]).comment_ids@,
        ) by {
            let p0 = if p < i {
                p
            } else {
                p + 1
            };
            let q0 = if q < i {
                q
            } else {
                q + 1
            };
            assert(s[p] == pre.posts@[p0] && s[q] == pre.posts@[q0]);
        }
        assert forall|p: int, t: int|
            0 <= p < s.len() && 0 <= t < s[p].donations@.len() implies (
        #[trigger] s[p].donations@[t]).id < self.next_donation_id.current() by {
            let p0 = if p < i {
                p
            } else {
                p + 1
            };
            assert(s[p] == pre.posts@[p0]);
        }
        assert forall|p: int| 0 <= p < s.len() implies distinct_donation_ids(
            (#[trigger] s[p]).donations@,
        ) by {
            let p0 = if p < i {
                p
            } else {
                p + 1
            };
            assert(s[p] == pre.posts@[p0]);
        }
        assert forall|p: int, q: int| 0 <= p < q < s.len() implies donation_ids_disjoint(
            (#[trigger] s[p]).donations@,
            (#[trigger] s[q]).donations@,
        ) by {
            let p0 = if p < i {
                p
            } else {
                p + 1
            };
            let q0 = if q < i {
                q
            } else {
                q + 1
            };
            assert(s[p] == pre.posts@[p0] && s[q] == pre.posts@[q0]);
        }
    }

    /// Deletes a post; only the configured owner may do so.  Deleting an id
    /// that does not resolve is a no-op (the operation is idempotent), and
    /// the deletion does not cascade: the post's comments stay retrievable
    /// by id, and the author index keeps naming the deleted id.
    pub fn delete_post(&mut self, post_id: usize, ctx: &ExecutionContext) -> (r: Result<
        (),
        BlogError,
    >)
        requires
            old(self).wf(),
        ensures
            final(self).wf(),
            Blog::counters_monotone(*old(self), *final(self)),
            ctx.caller@ != old(self).owner@ ==> r == Err::<(), BlogError>(BlogError::Unauthorized)
                && *final(self) == *old(self),
            ctx.caller@ == old(self).owner@ ==> r == Ok::<(), BlogError>(())
                && delete_post_applied(*old(self), *final(self), post_id),
    {
        if !(self.owner == ctx.caller) {
            return Err(BlogError::Unauthorized);
        }
        match self.find_post(post_id) {
            None => Ok(()),
            Some(i) => {
                self.posts.remove(i);
                proof {
                    self.lemma_wf_after_remove(*old(self), i as int);
                }
                Ok(())
            },
        }
    }

    /// The engine invariant holds again once a comment creation has pushed
    /// the new entity and linked its id to the post at position `i`.
    proof fn lemma_wf_after_comment(self, pre: Blog, i: int)
        requires
            pre.wf(),
            pre.next_comment_id.current() < usize::MAX,
            0 <= i < pre.posts@.len(),
            self.posts@ == pre.posts@.update(i, self.posts@[i]),
            self.posts@[i].wf(),
            self.posts@[i].same_core(pre.posts@[i]),
            self.posts@[i].same_votes(pre.posts@[i]),
            self.posts@[i].same_donations(pre.posts@[i]),
            self.posts@[i].comment_ids@ == pre.posts@[i].comment_ids@.push(
                pre.next_comment_id.current(),
            ),
            self.comments@.len() == pre.comments@.len() + 1,
            self.comments@.drop_last() == pre.comments@,
            self.comments@.last().id == pre.next_comment_id.current(),
            self.next_comment_id.current() == pre.next_comment_id.current() + 1,
            self.owner == pre.owner,
            self.user_posts@ == pre.user_posts@,
            self.next_post_id == pre.next_post_id,
            self.next_donation_id == pre.next_donation_id,
        ensures
            self.wf(),
    {
        let s = self.posts@;
        let cid = pre.next_comment_id.current();
        assert forall|p: int| 0 <= p < s.len() implies (#[trigger] s[p]).wf() && s[p].id
            < self.next_post_id.current() && s[p].donations@ == pre.posts@[p].donations@ && s[p].id
            == pre.posts@[p].id by {
            if p != i {
                assert(s[p] == pre.posts@[p]);
            }
        }
        assert forall|p: int, q: int| 0 <= p < q < s.len() implies s[p].id != s[q].id by {
            assert(s[p].id == pre.posts@[p].id && s[q].id == pre.posts@[q].id);
        }
        assert forall|j: int| 0 <= j < self.comments@.len() implies (
        #[trigger] self.comments@[j]).id == j by {
            if j < pre.comments@.len() {
                assert(self.comments@[j] == pre.comments@[j]);
            }
        }
        assert forall|p: int, t: int|
            0 <= p < s.len() && 0 <= t < s[p].comment_ids@.len() implies (
        #[trigger] s[p].comment_ids@[t]) < self.next_comment_id.current() by {
            if p != i {
                assert(s[p] == pre.posts@[p]);
            } else {
                if t < pre.posts@[i].comment_ids@.len() {
                    assert(s[p].comment_ids@[t] == pre.posts@[i].comment_ids@[t]);
                } else {
                    assert(s[p].comment_ids@[t] == cid);
                }
            }
        }
        assert forall|p: int, q: int| 0 <= p < q < s.len() implies ids_disjoint(
            (#[trigger] s[p]).comment_ids@,
            (#[trigger] s[q]).comment_ids@,
        ) by {
            assert(ids_disjoint(pre.posts@[p].comment_ids@, pre.posts@[q].comment_ids@));
            assert forall|v: usize| s[p].comment_ids@.contains(v) implies !s[q].comment_ids@.contains(
                v,
            ) by {
                if p == i || q == i {
                    // the one changed list only gained the fresh id, which no
                    // list of `pre` holds
                    assert forall|m: int, t: int|
                        0 <= m < pre.posts@.len() && 0 <= t
                            < pre.posts@[m].comment_ids@.len() implies (
                    #[trigger] pre.posts@[m].comment_ids@[t]) != cid by {
                        assert(pre.posts@[m].comment_ids@[t] < cid);
                    }
                    lemma_push_membership(pre.posts@[i].comment_ids@, cid);
                    if p != i {
                        assert(s[p] == pre.posts@[p]);
                    }
                    if q != i {
                        assert(s[q] == pre.posts@[q]);
                    }
                } else {
                    assert(s[p] == pre.posts@[p] && s[q] == pre.posts@[q]);
                }
            }
        }
        assert forall|p: int, t: int|
            0 <= p < s.len() && 0 <= t < s[p].donations@.len() implies (
        #[trigger] s[p].donations@[t]).id < self.next_donation_id.current() by {
            assert(s[p].donations@ == pre.posts@[p].donations@);
        }
        assert forall|p: int| 0 <= p < s.len() implies distinct_donation_ids(
            (#[trigger] s[p]).donations@,
        ) by {
            assert(s[p].donations@ == pre.posts@[p].donations@);
            assert(distinct_donation_ids(pre.posts@[p].donations@));
        }
        assert forall|p: int, q: int| 0 <= p < q < s.len() implies donation_ids_disjoint(
            (#[trigger] s[p]).donations@,
            (#[trigger] s[q]).donations@,
        ) by {
            assert(s[p].donations@ == pre.posts@[p].donations@);
            assert(s[q].donations@ == pre.posts@[q].donations@);
            assert(donation_ids_disjoint(pre.posts@[p].donations@, pre.posts@[q].donations@));
        }
    }

    /// Creates a comment on a post under the caller's identity.  The post
    /// must resolve (`NotFound` otherwise, checked first), and the body must
    /// have at least [`MIN_COMMENT_LEN`] characters (`ValidationError`
    /// otherwise); the fresh comment id is the allocator's current value.
    pub fn create_comment(&mut self, post_id: usize, body: String, ctx: &ExecutionContext) -> (r:
        Result<(), BlogError>)
        requires
            old(self).wf(),
            old(self).next_comment_id.current() < usize::MAX,
        ensures
            final(self).wf(),
            Blog::counters_monotone(*old(self), *final(self)),
            !has_post_id(old(self).posts@, post_id) ==> r == Err::<(), BlogError>(
                BlogError::NotFound,
            ) && *final(self) == *old(self),
            has_post_id(old(self).posts@, post_id) && body@.len() < MIN_COMMENT_LEN ==> r == Err::<
                (),
                BlogError,
            >(BlogError::ValidationError) && *final(self) == *old(self),
            has_post_id(old(self).posts@, post_id) && body@.len() >= MIN_COMMENT_LEN ==> r == Ok::<
                (),
                BlogError,
            >(()) && create_comment_applied(
                *old(self),
                *final(self),
                post_id,
                body,
                ctx.caller,
                ctx.timestamp,
            ),
    {
        let idx = match self.find_post(post_id) {
            Some(i) => i,
            None => {
                return Err(BlogError::NotFound);
            },
        };
        if body.as_str().unicode_len() < MIN_COMMENT_LEN {
            return Err(BlogError::ValidationError);
        }
        let cid = self.next_comment_id.next();
        let comment = Comment {
            id: cid,
            body: body,
            author: ctx.caller.clone(),
            created_at: ctx.timestamp,
        };
        self.comments.push(comment);
        let mut p = self.posts[idx].clone();
        proof {
            assert(p.comment_ids@ == old(self).posts@[idx as int].comment_ids@);
            assert forall|t: int| 0 <= t < p.comment_ids@.len() implies (
            #[trigger] p.comment_ids@[t]) != cid by {
                assert(old(self).posts@[idx as int].comment_ids@[t] < cid);
            }
            if p.comment_ids@.contains(cid) {
                let t = choose|t: int| 0 <= t < p.comment_ids@.len() && p.comment_ids@[t] == cid;
                assert(false);
            }
        }
        p.add_comment(cid);
        self.posts.set(idx, p);
        proof {
            assert(self.comments@.drop_last() =~= old(self).comments@);
            self.lemma_wf_after_comment(*old(self), idx as int);
        }
        Ok(())
    }

    /// Unlinks a comment from a post; only the configured owner may do so.
    /// The post and the comment must resolve (`NotFound`); the comment
    /// entity itself stays retrievable by id afterwards.
    pub fn delete_comment(&mut self, post_id: usize, comment_id: usize, ctx: &ExecutionContext) -> (
    r: Result<(), BlogError>)
        requires
            old(self).wf(),
        ensures
            final(self).wf(),
            Blog::counters_monotone(*old(self), *final(self)),
            ctx.caller@ != old(self).owner@ ==> r == Err::<(), BlogError>(BlogError::Unauthorized)
                && *final(self) == *old(self),
            ctx.caller@ == old(self).owner@ && !has_post_id(old(self).posts@, post_id) ==> r
                == Err::<(), BlogError>(BlogError::NotFound) && *final(self) == *old(self),
            ctx.caller@ == old(self).owner@ && has_post_id(old(self).posts@, post_id) && comment_id
                >= old(self).comments@.len() ==> r == Err::<(), BlogError>(BlogError::NotFound)
                && *final(self) == *old(self),
            ctx.caller@ == old(self).owner@ && has_post_id(old(self).posts@, post_id) && comment_id
                < old(self).comments@.len() ==> r == Ok::<(), BlogError>(())
                && delete_comment_applied(*old(self), *final(self), post_id, comment_id),
    {
        if !(self.owner == ctx.caller) {
            return Err(BlogError::Unauthorized);
        }
        let idx = match self.find_post(post_id) {
            Some(i) => i,
            None => {
                return Err(BlogError::NotFound);
            },
        };
        if comment_id >= self.comments.len() {
            return Err(BlogError::NotFound);
        }
        let mut p = self.posts[idx].clone();
        p.remove_comment(comment_id);
        self.posts.set(idx, p);
        proof {
            assert forall|v: usize|
                #[trigger] self.posts@[idx as int].comment_ids@.contains(v) implies old(
                self,
            ).posts@[idx as int].comment_ids@.contains(v) by {
                assert(v != comment_id);
            }
            Blog::lemma_wf_update_comments(*old(self), *self, idx as int);
        }
        Ok(())
    }

    /// Replacing one post by a well-formed one with the same id, the same
    /// rosters and the same donation log, whose comment list lost ids at
    /// most, preserves the engine invariant.
    proof fn lemma_wf_update_comments(pre: Blog, post: Blog, i: int)
        requires
            pre.wf(),
            0 <= i < pre.posts@.len(),
            post.posts@ == pre.posts@.update(i, post.posts@[i]),
            post.posts@[i].wf(),
            post.posts@[i].same_core(pre.posts@[i]),
            post.posts@[i].same_votes(pre.posts@[i]),
            post.posts@[i].same_donations(pre.posts@[i]),
            forall|v: usize|
                #[trigger] post.posts@[i].comment_ids@.contains(v)
                    ==> pre.posts@[i].comment_ids@.contains(v),
            post.owner == pre.owner,
            post.comments@ == pre.comments@,
            post.user_posts@ == pre.user_posts@,
            post.next_post_id == pre.next_post_id,
            post.next_comment_id == pre.next_comment_id,
            post.next_donation_id == pre.next_donation_id,
        ensures
            post.wf(),
    {
        let s = post.posts@;
        assert forall|p: int| 0 <= p < s.len() implies (#[trigger] s[p]).wf() && s[p].id
            < post.next_post_id.current() && s[p].donations@ == pre.posts@[p].donations@ && s[p].id
            == pre.posts@[p].id by {
            if p != i {
                assert(s[p] == pre.posts@[p]);
            }
        }
        assert forall|p: int, q: int| 0 <= p < q < s.len() implies s[p].id != s[q].id by {
            assert(s[p].id == pre.posts@[p].id && s[q].id == pre.posts@[q].id);
        }
        assert forall|p: int, t: int|
            0 <= p < s.len() && 0 <= t < s[p].comment_ids@.len() implies (
        #[trigger] s[p].comment_ids@[t]) < post.next_comment_id.current() by {
            if p != i {
                assert(s[p] == pre.posts@[p]);
            } else {
                assert(s[p].comment_ids@.contains(s[p].comment_ids@[t]));
                assert(pre.posts@[i].comment_ids@.contains(s[p].comment_ids@[t]));
                let t0 = choose|t0: int|
                    0 <= t0 < pre.posts@[i].comment_ids@.len() && pre.posts@[i].comment_ids@[t0]
                        == s[p].comment_ids@[t];
                assert(pre.posts@[i].comment_ids@[t0] < pre.next_comment_id.current());
            }
        }
        assert forall|p: int, q: int| 0 <= p < q < s.len() implies ids_disjoint(
            (#[trigger] s[p]).comment_ids@,
            (#[trigger] s[q]).comment_ids@,
        ) by {
            assert(ids_disjoint(pre.posts@[p].comment_ids@, pre.posts@[q].comment_ids@));
            assert forall|v: usize| s[p].comment_ids@.contains(v) implies !s[q].comment_ids@.contains(
                v,
            ) by {
                if p != i {
                    assert(s[p] == pre.posts@[p]);
                }
                if q != i {
                    assert(s[q] == pre.posts@[q]);
                }
                assert(pre.posts@[p].comment_ids@.contains(v));
                if s[q].comment_ids@.contains(v) {
                    assert(pre.posts@[q].comment_ids@.contains(v));
                }
            }
        }
        assert forall|p: int, t: int|
            0 <= p < s.len() && 0 <= t < s[p].donations@.len() implies (
        #[trigger] s[p].donations@[t]).id < post.next_donation_id.current() by {
            assert(s[p].donations@ == pre.posts@[p].donations@);
        }
        assert forall|p: int| 0 <= p < s.len() implies distinct_donation_ids(
            (#[trigger] s[p]).donations@,
        ) by {
            assert(s[p].donations@ == pre.posts@[p].donations@);
            assert(distinct_donation_ids(pre.posts@[p].donations@));
        }
        assert forall|p: int, q: int| 0 <= p < q < s.len() implies donation_ids_disjoint(
            (#[trigger] s[p]).donations@,
            (#[trigger] s[q]).donations@,
        ) by {
            assert(s[p].donations@ == pre.posts@[p].donations@);
            assert(s[q].donations@ == pre.posts@[q].donations@);
            assert(donation_ids_disjoint(pre.posts@[p].donations@, pre.posts@[q].donations@));
        }
    }
}

impl Blog {
    /// Records the caller's upvote on a post, withdrawing any downvote the
    /// caller had there; voting again is a no-op.
    pub fn upvote(&mut self, post_id: usize, ctx: &ExecutionContext) -> (r: Result<(), BlogError>)
        requires
            old(self).wf(),
        ensures
            final(self).wf(),
            Blog::counters_monotone(*old(self), *final(self)),
            !has_post_id(old(self).posts@, post_id) ==> r == Err::<(), BlogError>(
                BlogError::NotFound,
            ) && *final(self) == *old(self),
            has_post_id(old(self).posts@, post_id) ==> r == Ok::<(), BlogError>(())
                && vote_applied(
                *old(self),
                *final(self),
                post_id,
                crate::votes::inserted_name(the_post(old(self).posts@, post_id).upvoters@, ctx.caller),
                crate::votes::removed_name(the_post(old(self).posts@, post_id).downvoters@, ctx.caller@),
            ),
    {
        let idx = match self.find_post(post_id) {
            Some(i) => i,
            None => {
                return Err(BlogError::NotFound);
            },
        };
        let mut p = self.posts[idx].clone();
        p.add_upvote(&ctx.caller);
        self.posts.set(idx, p);
        proof {
            Blog::lemma_wf_update_votes(*old(self), *self, idx as int);
        }
        Ok(())
    }

    /// Withdraws the caller's upvote on a post; a no-op if it had none.
    pub fn remove_upvote(&mut self, post_id: usize, ctx: &ExecutionContext) -> (r: Result<
        (),
        BlogError,
    >)
        requires
            old(self).wf(),
        ensures
            final(self).wf(),
            Blog::counters_monotone(*old(self), *final(self)),
            !has_post_id(old(self).posts@, post_id) ==> r == Err::<(), BlogError>(
                BlogError::NotFound,
            ) && *final(self) == *old(self),
            has_post_id(old(self).posts@, post_id) ==> r == Ok::<(), BlogError>(())
                && vote_applied(
                *old(self),
                *final(self),
                post_id,
                crate::votes::removed_name(the_post(old(self).posts@, post_id).upvoters@, ctx.caller@),
                the_post(old(self).posts@, post_id).downvoters@,
            ),
    {
        let idx = match self.find_post(post_id) {
            Some(i) => i,
            None => {
                return Err(BlogError::NotFound);
            },
        };
        let mut p = self.posts[idx].clone();
        p.remove_upvote(&ctx.caller);
        self.posts.set(idx, p);
        proof {
            Blog::lemma_wf_update_votes(*old(self), *self, idx as int);
        }
        Ok(())
    }

    /// Records the caller's downvote on a post, withdrawing any upvote the
    /// caller had there; voting again is a no-op.
    pub fn downvote(&mut self, post_id: usize, ctx: &ExecutionContext) -> (r: Result<
        (),
        BlogError,
    >)
        requires
            old(self).wf(),
        ensures
            final(self).wf(),
            Blog::counters_monotone(*old(self), *final(self)),
            !has_post_id(old(self).posts@, post_id) ==> r == Err::<(), BlogError>(
                BlogError::NotFound,
            ) && *final(self) == *old(self),
            has_post_id(old(self).posts@, post_id) ==> r == Ok::<(), BlogError>(())
                && vote_applied(
                *old(self),
                *final(self),
                post_id,
                crate::votes::removed_name(the_post(old(self).posts@, post_id).upvoters@, ctx.caller@),
                crate::votes::inserted_name(the_post(old(self).posts@, post_id).downvoters@, ctx.caller),
            ),
    {
        let idx = match self.find_post(post_id) {
            Some(i) => i,
            None => {
                return Err(BlogError::NotFound);
            },
        };
        let mut p = self.posts[idx].clone();
        p.add_downvote(&ctx.caller);
        self.posts.set(idx, p);
        proof {
            Blog::lemma_wf_update_votes(*old(self), *self, idx as int);
        }
        Ok(())
    }

    /// Withdraws the caller's downvote on a post; a no-op if it had none.
    pub fn remove_downvote(&mut self, post_id: usize, ctx: &ExecutionContext) -> (r: Result<
        (),
        BlogError,
    >)
        requires
            old(self).wf(),
        ensures
            final(self).wf(),
            Blog::counters_monotone(*old(self), *final(self)),
            !has_post_id(old(self).posts@, post_id) ==> r == Err::<(), BlogError>(
                BlogError::NotFound,
            ) && *final(self) == *old(self),
            has_post_id(old(self).posts@, post_id) ==> r == Ok::<(), BlogError>(())
                && vote_applied(
                *old(self),
                *final(self),
                post_id,
                the_post(old(self).posts@, post_id).upvoters@,
                crate::votes::removed_name(the_post(old(self).posts@, post_id).downvoters@, ctx.caller@),
            ),
    {
        let idx = match self.find_post(post_id) {
            Some(i) => i,
            None => {
                return Err(BlogError::NotFound);
            },
        };
        let mut p = self.posts[idx].clone();
        p.remove_downvote(&ctx.caller);
        self.posts.set(idx, p);
        proof {
            Blog::lemma_wf_update_votes(*old(self), *self, idx as int);
        }
        Ok(())
    }

    /// Replacing one post by a well-formed one that only gained one donation
    /// record carrying the fresh id preserves the engine invariant.
    proof fn lemma_wf_update_donations(pre: Blog, post: Blog, i: int, d: DonationLog)
        requires
            pre.wf(),
            pre.next_donation_id.current() < usize::MAX,
            0 <= i < pre.posts@.len(),
            post.posts@ == pre.posts@.update(i, post.posts@[i]),
            post.posts@[i].wf(),
            post.posts@[i].same_core(pre.posts@[i]),
            post.posts@[i].same_votes(pre.posts@[i]),
            post.posts@[i].same_comments(pre.posts@[i]),
            post.posts@[i].donations@ == pre.posts@[i].donations@.push(d),
            d.id == pre.next_donation_id.current(),
            post.next_donation_id.current() == pre.next_donation_id.current() + 1,
            post.owner == pre.owner,
            post.comments@ == pre.comments@,
            post.user_posts@ == pre.user_posts@,
            post.next_post_id == pre.next_post_id,
            post.next_comment_id == pre.next_comment_id,
        ensures
            post.wf(),
    {
        let s = post.posts@;
        let did = pre.next_donation_id.current();
        assert forall|p: int| 0 <= p < s.len() implies (#[trigger] s[p]).wf() && s[p].id
            < post.next_post_id.current() && s[p].comment_ids@ == pre.posts@[p].comment_ids@
            && s[p].id == pre.posts@[p].id by {
            if p != i {
                assert(s[p] == pre.posts@[p]);
            }
        }
        assert forall|p: int, q: int| 0 <= p < q < s.len() implies s[p].id != s[q].id by {
            assert(s[p].id == pre.posts@[p].id && s[q].id == pre.posts@[q].id);
        }
        assert forall|p: int, t: int|
            0 <= p < s.len() && 0 <= t < s[p].comment_ids@.len() implies (
        #[trigger] s[p].comment_ids@[t]) < post.next_comment_id.current() by {
            assert(s[p].comment_ids@ == pre.posts@[p].comment_ids@);
        }
        assert forall|p: int, q: int| 0 <= p < q < s.len() implies ids_disjoint(
            (#[trigger] s[p]).comment_ids@,
            (#[trigger] s[q]).comment_ids@,
        ) by {
            assert(s[p].comment_ids@ == pre.posts@[p].comment_ids@);
            assert(s[q].comment_ids@ == pre.posts@[q].comment_ids@);
            assert(ids_disjoint(pre.posts@[p].comment_ids@, pre.posts@[q].comment_ids@));
        }
        assert forall|p: int, t: int|
            0 <= p < s.len() && 0 <= t < s[p].donations@.len() implies (
        #[trigger] s[p].donations@[t]).id < post.next_donation_id.current() by {
            if p != i {
                assert(s[p] == pre.posts@[p]);
            } else {
                if t < pre.posts@[i].donations@.len() {
                    assert(s[p].donations@[t] == pre.posts@[i].donations@[t]);
                } else {
                    assert(s[p].donations@[t] == d);
                }
            }
        }
        assert forall|p: int| 0 <= p < s.len() implies distinct_donation_ids(
            (#[trigger] s[p]).donations@,
        ) by {
            if p != i {
                assert(s[p] == pre.posts@[p]);
                assert(distinct_donation_ids(pre.posts@[p].donations@));
            } else {
                let pd = pre.posts@[i].donations@;
                assert(distinct_donation_ids(pd));
                assert forall|a: int, b: int|
                    0 <= a < b < s[p].donations@.len() implies s[p].donations@[a].id
                    != s[p].donations@[b].id by {
                    if b < pd.len() {
                        assert(s[p].donations@[a] == pd[a] && s[p].donations@[b] == pd[b]);
                    } else {
                        assert(s[p].donations@[a] == pd[a]);
                        assert(pd[a].id < did);
                        assert(s[p].donations@[b] == d);
                    }
                }
            }
        }
        assert forall|p: int, q: int| 0 <= p < q < s.len() implies donation_ids_disjoint(
            (#[trigger] s[p]).donations@,
            (#[trigger] s[q]).donations@,
        ) by {
            assert(donation_ids_disjoint(pre.posts@[p].donations@, pre.posts@[q].donations@));
            assert forall|a: int, b: int|
                0 <= a < s[p].donations@.len() && 0 <= b < s[q].donations@.len() implies (
            #[trigger] s[p].donations@[a]).id != (#[trigger] s[q].donations@[b]).id by {
                if p != i && q != i {
                    assert(s[p] == pre.posts@[p] && s[q] == pre.posts@[q]);
                } else if p == i {
                    assert(s[q] == pre.posts@[q]);
                    if a < pre.posts@[i].donations@.len() {
                        assert(s[p].donations@[a] == pre.posts@[i].donations@[a]);
                    } else {
                        assert(s[p].donations@[a] == d);
                        assert(s[q].donations@[b].id < did);
                    }
                } else {
                    assert(s[p] == pre.posts@[p]);
                    if b < pre.posts@[i].donations@.len() {
                        assert(s[q].donations@[b] == pre.posts@[i].donations@[b]);
                    } else {
                        assert(s[q].donations@[b] == d);
                        assert(s[p].donations@[a].id < did);
                    }
                }
            }
        }
    }

    /// The completion step of the donation flow: appends the record under
    /// the fresh id to the addressed post's log, whatever the outcome of the
    /// value transfer the environment performed.  The caller has validated
    /// the amount; the post must still resolve (`NotFound` otherwise).
    pub fn save_to_donation_log(
        &mut self,
        post_id: usize,
        amount: u128,
        message: String,
        ctx: &ExecutionContext,
    ) -> (r: Result<(), BlogError>)
        requires
            old(self).wf(),
            amount >= 1,
            old(self).next_donation_id.current() < usize::MAX,
            has_post_id(old(self).posts@, post_id) ==> the_post(
                old(self).posts@,
                post_id,
            ).total_donated + amount <= u128::MAX,
        ensures
            final(self).wf(),
            Blog::counters_monotone(*old(self), *final(self)),
            !has_post_id(old(self).posts@, post_id) ==> r == Err::<(), BlogError>(
                BlogError::NotFound,
            ) && *final(self) == *old(self),
            has_post_id(old(self).posts@, post_id) ==> r == Ok::<(), BlogError>(())
                && donation_recorded(
                *old(self),
                *final(self),
                post_id,
                amount,
                ctx.caller,
                ctx.timestamp,
                message,
            ),
    {
        let idx = match self.find_post(post_id) {
            Some(i) => i,
            None => {
                return Err(BlogError::NotFound);
            },
        };
        let did = self.next_donation_id.next();
        let d = DonationLog {
            id: did,
            amount: amount,
            donor: ctx.caller.clone(),
            created_at: ctx.timestamp,
            message: message,
            post_id: post_id,
        };
        let mut p = self.posts[idx].clone();
        p.record_donation(d);
        self.posts.set(idx, p);
        proof {
            Blog::lemma_wf_update_donations(
                *old(self),
                *self,
                idx as int,
                (DonationLog {
                    id: old(self).next_donation_id.current(),
                    amount: amount,
                    donor: ctx.caller,
                    created_at: ctx.timestamp,
                    message: message,
                    post_id: post_id,
                }),
            );
        }
        Ok(())
    }

    /// Validates and performs a donation to a post's author: the post must
    /// resolve (`NotFound`), the amount must be at least one
    /// (`ValidationError`), and the call's balance must cover it
    /// (`InsufficientResources`).  On success the donation is recorded at
    /// once — regardless of how the returned transfer will fare — and the
    /// engine hands the environment the transfer to perform.
    pub fn donate(
        &mut self,
        post_id: usize,
        amount: u128,
        message: String,
        ctx: &ExecutionContext,
    ) -> (r: Result<Transfer, BlogError>)
        requires
            old(self).wf(),
            old(self).next_donation_id.current() < usize::MAX,
            has_post_id(old(self).posts@, post_id) ==> the_post(
                old(self).posts@,
                post_id,
            ).total_donated + amount <= u128::MAX,
        ensures
            final(self).wf(),
            Blog::counters_monotone(*old(self), *final(self)),
            !has_post_id(old(self).posts@, post_id) ==> r == Err::<Transfer, BlogError>(
                BlogError::NotFound,
            ) && *final(self) == *old(self),
            has_post_id(old(self).posts@, post_id) && amount < 1 ==> r == Err::<
                Transfer,
                BlogError,
            >(BlogError::ValidationError) && *final(self) == *old(self),
            has_post_id(old(self).posts@, post_id) && amount >= 1 && ctx.balance < amount ==> r
                == Err::<Transfer, BlogError>(BlogError::InsufficientResources) && *final(self)
                == *old(self),
            has_post_id(old(self).posts@, post_id) && amount >= 1 && ctx.balance >= amount ==> r
                == Ok::<Transfer, BlogError>(
                (Transfer { recipient: the_post(old(self).posts@, post_id).author, amount: amount }),
            ) && donation_recorded(
                *old(self),
                *final(self),
                post_id,
                amount,
                ctx.caller,
                ctx.timestamp,
                message,
            ),
    {
        let idx = match self.find_post(post_id) {
            Some(i) => i,
            None => {
                return Err(BlogError::NotFound);
            },
        };
        if amount < 1 {
            return Err(BlogError::ValidationError);
        }
        if ctx.balance < amount {
            return Err(BlogError::InsufficientResources);
        }
        let recipient = self.posts[idx].author.clone();
        match self.save_to_donation_log(post_id, amount, message, ctx) {
            Ok(()) => Ok(Transfer { recipient, amount }),
            Err(e) => Err(e),
        }
    }
}

/// Membership in a list after pushing one id: the pushed id and exactly the
/// old members.
proof fn lemma_push_membership(s: Seq<usize>, v: usize)
    ensures
        s.push(v).contains(v),
        forall|w: usize| #[trigger] s.push(v).contains(w) ==> s.contains(w) || w == v,
        forall|w: usize| #[trigger] s.contains(w) ==> s.push(v).contains(w),
{
    assert(s.push(v)[s.len() as int] == v);
    assert forall|w: usize| #[trigger] s.push(v).contains(w) implies s.contains(w) || w == v by {
        let t = choose|t: int| 0 <= t < s.push(v).len() && s.push(v)[t] == w;
        if t < s.len() {
            assert(s[t] == w);
        }
    }
    assert forall|w: usize| #[trigger] s.contains(w) implies s.push(v).contains(w) by {
        let t = choose|t: int| 0 <= t < s.len() && s[t] == w;
        assert(s.push(v)[t] == w);
    }
}

} // verus!
