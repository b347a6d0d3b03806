use vstd::prelude::*;
use crate::donation::{donation_sum, lemma_donation_sum_push, DonationLog};
use crate::votes::{
    disjoint_names, distinct_names, inserted_name, name_in, removed_name, roster_contains,
    roster_insert, roster_remove,
};

verus! {

/// A top-level authored content item: title, body, the ordered ids of its
/// comments, its voter rosters, and its donation log.
pub struct Post {
    pub id: usize,
    pub title: String,
    pub body: String,
    pub author: String,
    pub created_at: u64,
    /// Ids of the post's comments, in creation order.
    pub comment_ids: Vec<usize>,
    /// Identities that upvoted the post; disjoint from `downvoters`.
    pub upvoters: Vec<String>,
    /// Identities that downvoted the post; disjoint from `upvoters`.
    pub downvoters: Vec<String>,
    /// Append-only log of the donations made to this post.
    pub donations: Vec<DonationLog>,
    /// Running total of the logged donation amounts.
    pub total_donated: u128,
}

impl Post {
    /// The internal consistency of one post: duplicate-free comment list,
    /// duplicate-free and mutually exclusive voter rosters, and a donation
    /// log of positive amounts pointing back at this post, whose sum is the
    /// running total.
    pub open spec fn wf(self) -> bool {
        &&& self.comment_ids@.no_duplicates()
        &&& distinct_names(self.upvoters@)
        &&& distinct_names(self.downvoters@)
        &&& disjoint_names(self.upvoters@, self.downvoters@)
        &&& self.total_donated as int == donation_sum(self.donations@)
        &&& forall|i: int|
            0 <= i < self.donations@.len() ==> (#[trigger] self.donations@[i]).amount >= 1
                && self.donations@[i].post_id == self.id
    }

    /// `self` and `other` carry the same post: equal scalar and text fields,
    /// and element-wise equal comment list, voter rosters and donation log.
    pub open spec fn post_eq(self, other: Post) -> bool {
        &&& self.same_core(other)
        &&& self.same_comments(other)
        &&& self.same_votes(other)
        &&& self.same_donations(other)
    }

    /// The fields fixed at creation never change.
    pub open spec fn same_core(self, other: Post) -> bool {
        &&& self.id == other.id
        &&& self.title == other.title
        &&& self.body == other.body
        &&& self.author == other.author
        &&& self.created_at == other.created_at
    }

    pub open spec fn same_comments(self, other: Post) -> bool {
        self.comment_ids@ == other.comment_ids@
    }

    pub open spec fn same_votes(self, other: Post) -> bool {
        self.upvoters@ == other.upvoters@ && self.downvoters@ == other.downvoters@
    }

    pub open spec fn same_donations(self, other: Post) -> bool {
        self.donations@ == other.donations@ && self.total_donated == other.total_donated
    }

    pub fn new(id: usize, title: String, body: String, author: String, created_at: u64) -> (r:
        Post)
        ensures
            r.wf(),
            r.id == id,
            r.title == title,
            r.body == body,
            r.author == author,
            r.created_at == created_at,
            r.comment_ids@ == Seq::<usize>::empty(),
            r.upvoters@ == Seq::<String>::empty(),
            r.downvoters@ == Seq::<String>::empty(),
            r.donations@ == Seq::<DonationLog>::empty(),
            r.total_donated == 0,
    {
        Post {
            id,
            title,
            body,
            author,
            created_at,
            comment_ids: Vec::new(),
            upvoters: Vec::new(),
            downvoters: Vec::new(),
            donations: Vec::new(),
            total_donated: 0,
        }
    }

    pub fn get_post_id(&self) -> (r: usize)
        ensures
            r == self.id,
    {
        self.id
    }

    pub fn get_title(&self) -> (r: String)
        ensures
            r == self.title,
    {
        self.title.clone()
    }

    pub fn get_body(&self) -> (r: String)
        ensures
            r == self.body,
    {
        self.body.clone()
    }

    pub fn get_author(&self) -> (r: String)
        ensures
            r == self.author,
    {
        self.author.clone()
    }

    pub fn get_created_at(&self) -> (r: u64)
        ensures
            r == self.created_at,
    {
        self.created_at
    }

    /// The ids of the post's comments, in creation order.
    pub fn get_comments(&self) -> (r: Vec<usize>)
        ensures
            r@ == self.comment_ids@,
    {
        let r = self.comment_ids.clone();
        assert(r@ =~= self.comment_ids@);
        r
    }

    pub fn get_upvotes(&self) -> (r: Vec<String>)
        ensures
            r@ == self.upvoters@,
    {
        let r = self.upvoters.clone();
        assert(r@ =~= self.upvoters@);
        r
    }

    pub fn get_downvotes(&self) -> (r: Vec<String>)
        ensures
            r@ == self.downvoters@,
    {
        let r = self.downvoters.clone();
        assert(r@ =~= self.downvoters@);
        r
    }

    /// How many donations were logged for this post.
    pub fn get_total_donation(&self) -> (r: u64)
        ensures
            r == self.donations@.len(),
    {
        self.donations.len() as u64
    }

    /// The sum of the logged donation amounts.
    pub fn get_total_donated(&self) -> (r: u128)
        ensures
            r == self.total_donated,
    {
        self.total_donated
    }

    /// Link a (fresh) comment id to this post.
    pub fn add_comment(&mut self, comment_id: usize)
        requires
            old(self).wf(),
            !old(self).comment_ids@.contains(comment_id),
        ensures
            final(self).wf(),
            final(self).same_core(*old(self)),
            final(self).same_votes(*old(self)),
            final(self).same_donations(*old(self)),
            final(self).comment_ids@ == old(self).comment_ids@.push(comment_id),
    {
        self.comment_ids.push(comment_id);
    }

    /// Unlink a comment id from this post; a no-op if it is not linked.
    /// The comment entity itself is not touched.
    pub fn remove_comment(&mut self, comment_id: usize)
        requires
            old(self).wf(),
        ensures
            final(self).wf(),
            final(self).same_core(*old(self)),
            final(self).same_votes(*old(self)),
            final(self).same_donations(*old(self)),
            final(self).comment_ids@ == old(self).comment_ids@.remove_value(comment_id),
            !final(self).comment_ids@.contains(comment_id),
            forall|c: usize|
                c != comment_id ==> (final(self).comment_ids@.contains(c) <==> old(
                    self,
                ).comment_ids@.contains(c)),
    {
        let ghost pre = self.comment_ids@;
        let mut i: usize = 0;
        let n = self.comment_ids.len();
        while i < n
            invariant
                *self == *old(self),
                old(self).wf(),
                pre == old(self).comment_ids@,
                n == pre.len(),
                i <= n,
                forall|j: int| 0 <= j < i ==> pre[j] != comment_id,
        decreases n - i,
        {
            if self.comment_ids[i] == comment_id {
                proof {
                    pre.index_of_first_ensures(comment_id);
                    assert(pre[i as int] == comment_id);
                    match pre.index_of_first(comment_id) {
                        Option::Some(k) => {
                            assert(pre[k] == comment_id);
                            if k < i as int {
                                assert(pre[k] != comment_id);  // loop prefix held no match
                            }
                            if k > i as int {
                                assert(pre[i as int] != comment_id);  // first occurrence
                            }
                            assert(k == i as int);
                        },
                        Option::None => {
                            assert(false);
                        },
                    }
                    pre.remove_ensures(i as int);
                }
                self.comment_ids.remove(i);
                proof {
                    lemma_removed_id_membership(pre, i as int, comment_id);
                }
                return ;
            }
            i = i + 1;
        }
        proof {
            assert(!pre.contains(comment_id));
            pre.index_of_first_ensures(comment_id);
        }
    }

    /// Record the caller as an upvoter, withdrawing any downvote it had, so
    /// the two rosters stay mutually exclusive.
    pub fn add_upvote(&mut self, voter: &String)
        requires
            old(self).wf(),
        ensures
            final(self).wf(),
            final(self).same_core(*old(self)),
            final(self).same_comments(*old(self)),
            final(self).same_donations(*old(self)),
            final(self).upvoters@ == inserted_name(old(self).upvoters@, *voter),
            final(self).downvoters@ == removed_name(old(self).downvoters@, voter@),
            name_in(final(self).upvoters@, voter@),
            !name_in(final(self).downvoters@, voter@),
    {
        roster_remove(&mut self.downvoters, voter);
        roster_insert(&mut self.upvoters, voter);
        proof {
            assert forall|n: Seq<char>| name_in(self.upvoters@, n) implies !name_in(
                self.downvoters@,
                n,
            ) by {
                if n != voter@ {
                    assert(name_in(old(self).upvoters@, n));
                }
            }
        }
    }

    /// Withdraw the caller's upvote; a no-op if it had none.
    pub fn remove_upvote(&mut self, voter: &String)
        requires
            old(self).wf(),
        ensures
            final(self).wf(),
            final(self).same_core(*old(self)),
            final(self).same_comments(*old(self)),
            final(self).same_donations(*old(self)),
            final(self).upvoters@ == removed_name(old(self).upvoters@, voter@),
            final(self).downvoters@ == old(self).downvoters@,
            !name_in(final(self).upvoters@, voter@),
    {
        roster_remove(&mut self.upvoters, voter);
        proof {
            assert forall|n: Seq<char>| name_in(self.upvoters@, n) implies !name_in(
                self.downvoters@,
                n,
            ) by {
                assert(name_in(old(self).upvoters@, n));
            }
        }
    }

    /// Record the caller as a downvoter, withdrawing any upvote it had, so
    /// the two rosters stay mutually exclusive.
    pub fn add_downvote(&mut self, voter: &String)
        requires
            old(self).wf(),
        ensures
            final(self).wf(),
            final(self).same_core(*old(self)),
            final(self).same_comments(*old(self)),
            final(self).same_donations(*old(self)),
            final(self).downvoters@ == inserted_name(old(self).downvoters@, *voter),
            final(self).upvoters@ == removed_name(old(self).upvoters@, voter@),
            name_in(final(self).downvoters@, voter@),
            !name_in(final(self).upvoters@, voter@),
    {
        roster_remove(&mut self.upvoters, voter);
        roster_insert(&mut self.downvoters, voter);
        proof {
            assert forall|n: Seq<char>| name_in(self.upvoters@, n) implies !name_in(
                self.downvoters@,
                n,
            ) by {
                assert(n != voter@);
                assert(name_in(old(self).upvoters@, n));
                assert(!name_in(old(self).downvoters@, n));
            }
        }
    }

    /// Withdraw the caller's downvote; a no-op if it had none.
    pub fn remove_downvote(&mut self, voter: &String)
        requires
            old(self).wf(),
        ensures
            final(self).wf(),
            final(self).same_core(*old(self)),
            final(self).same_comments(*old(self)),
            final(self).same_donations(*old(self)),
            final(self).downvoters@ == removed_name(old(self).downvoters@, voter@),
            final(self).upvoters@ == old(self).upvoters@,
            !name_in(final(self).downvoters@, voter@),
    {
        roster_remove(&mut self.downvoters, voter);
        proof {
            assert forall|n: Seq<char>| name_in(self.upvoters@, n) implies !name_in(
                self.downvoters@,
                n,
            ) by {
                if name_in(self.downvoters@, n) {
                    assert(name_in(old(self).downvoters@, n));
                }
            }
        }
    }

    /// Append one donation record to the log and raise the running total by
    /// its amount.
    pub fn record_donation(&mut self, d: DonationLog)
        requires
            old(self).wf(),
            d.amount >= 1,
            d.post_id == old(self).id,
            old(self).total_donated + d.amount <= u128::MAX,
        ensures
            final(self).wf(),
            final(self).same_core(*old(self)),
            final(self).same_comments(*old(self)),
            final(self).same_votes(*old(self)),
            final(self).donations@ == old(self).donations@.push(d),
            final(self).total_donated == old(self).total_donated + d.amount,
    {
        proof {
            lemma_donation_sum_push(self.donations@, d);
        }
        let amount = d.amount;
        self.donations.push(d);
        self.total_donated = self.total_donated + amount;
    }
}

impl Clone for Post {
    fn clone(&self) -> (r: Self)
        ensures
            r.post_eq(*self),
    {
        let r = Post {
            id: self.id,
            title: self.title.clone(),
            body: self.body.clone(),
            author: self.author.clone(),
            created_at: self.created_at,
            comment_ids: self.comment_ids.clone(),
            upvoters: self.upvoters.clone(),
            downvoters: self.downvoters.clone(),
            donations: self.donations.clone(),
            total_donated: self.total_donated,
        };
        proof {
            assert(r.comment_ids@ =~= self.comment_ids@);
            assert(r.upvoters@ =~= self.upvoters@);
            assert(r.downvoters@ =~= self.downvoters@);
            assert(r.donations@ =~= self.donations@);
        }
        r
    }
}

/// Membership in a duplicate-free id list after removing position `i`:
/// exactly the other ids remain.
proof fn lemma_removed_id_membership(pre: Seq<usize>, i: int, id: usize)
    requires
        pre.no_duplicates(),
        0 <= i < pre.len(),
        pre[i] == id,
    ensures
        pre.remove(i).no_duplicates(),
        !pre.remove(i).contains(id),
        forall|c: usize| c != id ==> (pre.remove(i).contains(c) <==> pre.contains(c)),
{
    pre.remove_ensures(i);
    let post = pre.remove(i);
    assert forall|p: int, q: int| 0 <= p < q < post.len() implies post[p] != post[q] by {
        let p0 = if p < i { p } else { p + 1 };
        let q0 = if q < i { q } else { q + 1 };
        assert(post[p] == pre[p0]);
        assert(post[q] == pre[q0]);
    }
    assert forall|j: int| 0 <= j < post.len() implies post[j] != id by {
        let j0 = if j < i { j } else { j + 1 };
        assert(post[j] == pre[j0]);
    }
    assert forall|c: usize| c != id implies (post.contains(c) <==> pre.contains(c)) by {
        if pre.contains(c) {
            let j = choose|j: int| 0 <= j < pre.len() && pre[j] == c;
            let j1 = if j < i { j } else { j - 1 };
            assert(j != i);
            assert(post[j1] == pre[j]);
            assert(post.contains(c));
        }
        if post.contains(c) {
            let j = choose|j: int| 0 <= j < post.len() && post[j] == c;
            let j0 = if j < i { j } else { j + 1 };
            assert(post[j] == pre[j0]);
            assert(pre.contains(c));
        }
    }
}

} // verus!
