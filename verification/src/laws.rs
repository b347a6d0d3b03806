use vstd::prelude::*;
use crate::donation::donation_sum;
use crate::engine::{
    create_post_applied, donation_recorded, has_post_id, page_slice, post_index, the_post,
    vote_applied, Blog,
};
use crate::votes::{
    inserted_name, lemma_inserted_name_membership, lemma_removed_name_membership_of, name_in,
    removed_name, vote_status_of, VoteStatus,
};

verus! {

/// Post ids never repeat and strictly increase: a creation mints the
/// allocator's current value, which no live post of the starting state
/// carries, and after any further operations (none of which moves a counter
/// backwards) the next creation mints a strictly larger id.
pub proof fn lemma_post_ids_fresh_and_increasing(
    b0: Blog,
    b1: Blog,
    b2: Blog,
    b3: Blog,
    title1: String,
    body1: String,
    caller1: String,
    ts1: u64,
    id1: usize,
    title2: String,
    body2: String,
    caller2: String,
    ts2: u64,
    id2: usize,
)
    requires
        b0.wf(),
        create_post_applied(b0, b1, title1, body1, caller1, ts1, id1),
        Blog::counters_monotone(b1, b2),
        create_post_applied(b2, b3, title2, body2, caller2, ts2, id2),
    ensures
        id2 > id1,
        !has_post_id(b0.posts@, id1),
{
    if has_post_id(b0.posts@, id1) {
        let i = choose|i: int| 0 <= i < b0.posts@.len() && b0.posts@[i].id == id1;
        assert(b0.posts@[i].wf() && b0.posts@[i].id < b0.next_post_id.current());
    }
}

/// The concatenation of the first `n` pages of size `size`, in page order.
pub open spec fn pages_concat<T>(s: Seq<T>, size: int, n: int) -> Seq<T>
    decreases n,
{
    if n <= 0 {
        Seq::empty()
    } else {
        pages_concat(s, size, n - 1) + page_slice(s, n, size)
    }
}

/// A page never holds more than `size` elements.
pub proof fn lemma_page_slice_len<T>(s: Seq<T>, page: int, size: int)
    requires
        page >= 1,
        size >= 1,
    ensures
        page_slice(s, page, size).len() <= size,
        page_slice(s, page, size).len() == 0 || (page - 1) * size < s.len(),
{
}

/// The first `n` pages, concatenated in order, are exactly the first
/// `n * size` elements of the enumeration (or all of it, when it is
/// shorter): pagination neither duplicates nor omits nor reorders.
pub proof fn lemma_pages_concat_take<T>(s: Seq<T>, size: int, n: int)
    requires
        size >= 1,
        n >= 0,
    ensures
        pages_concat(s, size, n) == s.take(
            if n * size > s.len() {
                s.len() as int
            } else {
                n * size
            },
        ),
    decreases n,
{
    let len = s.len() as int;
    if n <= 0 {
        assert(n * size == 0) by (nonlinear_arith)
            requires
                n <= 0,
                n >= 0,
        ;
        assert(pages_concat(s, size, 0) =~= s.take(0));
    } else {
        lemma_pages_concat_take(s, size, n - 1);
        assert(n * size == (n - 1) * size + size) by (nonlinear_arith);
        assert((n - 1) * size >= 0) by (nonlinear_arith)
            requires
                n >= 1,
                size >= 1,
        ;
        let prev = (n - 1) * size;
        let cur = n * size;
        let lo = if prev > len {
            len
        } else {
            prev
        };
        let hi = if cur > len {
            len
        } else {
            cur
        };
        assert(page_slice(s, n, size) == s.subrange(lo, hi));
        assert(pages_concat(s, size, n) == s.take(lo) + s.subrange(lo, hi));
        assert(s.take(lo) + s.subrange(lo, hi) =~= s.take(hi));
    }
}

/// Enough pages reconstruct the whole enumeration.
pub proof fn lemma_paging_reconstructs<T>(s: Seq<T>, size: int, n: int)
    requires
        size >= 1,
        n >= 0,
        n * size >= s.len(),
    ensures
        pages_concat(s, size, n) == s,
{
    lemma_pages_concat_take(s, size, n);
    assert(s.take(s.len() as int) =~= s);
}

/// An upvote followed by a downvote by the same identity on the same post
/// leaves that identity classified as `Downvoted` — deterministically: the
/// downvote withdraws the recorded upvote, the rosters staying mutually
/// exclusive throughout.
pub proof fn lemma_upvote_then_downvote_is_downvoted(
    b0: Blog,
    b1: Blog,
    b2: Blog,
    post_id: usize,
    caller: String,
)
    requires
        b0.wf(),
        b1.wf(),
        vote_applied(
            b0,
            b1,
            post_id,
            inserted_name(the_post(b0.posts@, post_id).upvoters@, caller),
            removed_name(the_post(b0.posts@, post_id).downvoters@, caller@),
        ),
        vote_applied(
            b1,
            b2,
            post_id,
            removed_name(the_post(b1.posts@, post_id).upvoters@, caller@),
            inserted_name(the_post(b1.posts@, post_id).downvoters@, caller),
        ),
    ensures
        vote_status_of(
            the_post(b2.posts@, post_id).upvoters@,
            the_post(b2.posts@, post_id).downvoters@,
            caller@,
        ) == VoteStatus::Downvoted,
{
    let i0 = post_index(b0.posts@, post_id);
    let i1 = post_index(b1.posts@, post_id);
    assert(b1.posts@[i0].id == post_id);
    if i1 != i0 {
        assert(b1.posts@[i1].id != b1.posts@[i0].id || i1 == i0);
        assert(false);
    }
    let p1 = the_post(b1.posts@, post_id);
    let p2 = the_post(b2.posts@, post_id);
    assert(p2.upvoters@ == removed_name(p1.upvoters@, caller@));
    assert(p2.downvoters@ == inserted_name(p1.downvoters@, caller));
    assert(crate::votes::distinct_names(p1.upvoters@));
    lemma_removed_name_membership_of(p1.upvoters@, caller@);
    lemma_inserted_name_membership(p1.downvoters@, caller);
    assert(!name_in(p2.upvoters@, caller@));
    assert(name_in(p2.downvoters@, caller@));
}

/// After the first donation to a post, the post's running total and its
/// ledger sum both equal that donation's amount; in general a recorded
/// donation raises both by exactly its amount.
pub proof fn lemma_first_donation_total(
    b0: Blog,
    b1: Blog,
    post_id: usize,
    amount: u128,
    donor: String,
    ts: u64,
    message: String,
)
    requires
        b0.wf(),
        b1.wf(),
        donation_recorded(b0, b1, post_id, amount, donor, ts, message),
        the_post(b0.posts@, post_id).donations@.len() == 0,
    ensures
        the_post(b1.posts@, post_id).total_donated == amount,
        donation_sum(the_post(b1.posts@, post_id).donations@) == amount,
{
    let i0 = post_index(b0.posts@, post_id);
    let i1 = post_index(b1.posts@, post_id);
    assert(b1.posts@[i0].id == post_id);
    if i1 != i0 {
        assert(b1.posts@[i1].id != b1.posts@[i0].id || i1 == i0);
        assert(false);
    }
    let p0 = the_post(b0.posts@, post_id);
    let p1 = the_post(b1.posts@, post_id);
    assert(p0.wf());
    assert(p0.total_donated as int == donation_sum(p0.donations@));
    assert(p1.total_donated == p0.total_donated + amount);
    assert(p1.wf());
    assert(p1.total_donated as int == donation_sum(p1.donations@));
}

} // verus!

