use decentrablog::engine::{Blog, ExecutionContext, Transfer};
use decentrablog::errors::BlogError;
use decentrablog::votes::VoteStatus;

fn ctx_for(caller: &str, balance: u128) -> ExecutionContext {
    ExecutionContext {
        caller: caller.to_string(),
        timestamp: 7,
        balance,
    }
}

fn blog_with_posts(n: usize) -> (Blog, ExecutionContext) {
    let ctx = ctx_for("alice_near", 1_000_000);
    let mut blog = Blog::new("alice_near".to_string());
    for i in 0..n {
        blog.create_post(format!("title {}", i), format!("body {}", i), &ctx);
    }
    (blog, ctx)
}

#[test]
fn comment_body_length_boundary() {
    let (mut blog, ctx) = blog_with_posts(1);
    // nine characters are rejected, exactly ten are accepted
    assert_eq!(
        Err(BlogError::ValidationError),
        blog.create_comment(0, "123456789".to_string(), &ctx)
    );
    assert_eq!(Ok(()), blog.create_comment(0, "1234567890".to_string(), &ctx));
    assert_eq!(1, blog.get_post_total_comments(0).unwrap());
}

#[test]
fn comment_on_missing_post_is_not_found() {
    let (mut blog, ctx) = blog_with_posts(1);
    // existence is checked before the body length
    assert_eq!(
        Err(BlogError::NotFound),
        blog.create_comment(9, "short".to_string(), &ctx)
    );
    assert_eq!(
        Err(BlogError::NotFound),
        blog.create_comment(9, "long enough body".to_string(), &ctx)
    );
}

#[test]
fn paging_rejects_zero_arguments() {
    let (blog, _ctx) = blog_with_posts(3);
    assert_eq!(Err(BlogError::ValidationError), blog.get_paging_posts(0, 10).map(|_| ()));
    assert_eq!(Err(BlogError::ValidationError), blog.get_paging_posts(1, 0).map(|_| ()));
    assert_eq!(
        Err(BlogError::ValidationError),
        blog.get_paging_comments(0, 0, 10).map(|_| ())
    );
    assert_eq!(
        Err(BlogError::ValidationError),
        blog.get_paging_comments(0, 1, 0).map(|_| ())
    );
}

#[test]
fn paging_concatenation_reconstructs_enumeration() {
    let (blog, _ctx) = blog_with_posts(7);
    let mut seen: Vec<usize> = Vec::new();
    for page in 1..=3 {
        let posts = blog.get_paging_posts(page, 3).unwrap();
        assert!(posts.len() <= 3);
        for p in posts {
            seen.push(p.get_post_id());
        }
    }
    assert_eq!(vec![0, 1, 2, 3, 4, 5, 6], seen);
    // a page past the end is empty, not an error
    assert_eq!(0, blog.get_paging_posts(4, 3).unwrap().len());
    assert_eq!(0, blog.get_paging_posts(1000, 1000).unwrap().len());
}

#[test]
fn paging_comments_takes_the_right_slice() {
    let (mut blog, ctx) = blog_with_posts(1);
    for i in 0..5 {
        blog.create_comment(0, format!("comment body {}", i), &ctx)
            .unwrap();
    }
    let page = blog.get_paging_comments(0, 2, 2).unwrap();
    assert_eq!(2, page.len());
    assert_eq!(2, page[0].get_comment_id());
    assert_eq!(3, page[1].get_comment_id());
    let last = blog.get_paging_comments(0, 3, 2).unwrap();
    assert_eq!(1, last.len());
    assert_eq!(4, last[0].get_comment_id());
}

#[test]
fn vote_status_is_deterministic() {
    let (mut blog, ctx) = blog_with_posts(1);
    assert_eq!(
        Ok(VoteStatus::NoVote),
        blog.get_user_vote_status(0, "alice_near".to_string())
    );
    blog.upvote(0, &ctx).unwrap();
    assert_eq!(
        Ok(VoteStatus::Upvoted),
        blog.get_user_vote_status(0, "alice_near".to_string())
    );
    // the later downvote withdraws the upvote: the classification is
    // Downvoted, not ambiguous
    blog.downvote(0, &ctx).unwrap();
    assert_eq!(
        Ok(VoteStatus::Downvoted),
        blog.get_user_vote_status(0, "alice_near".to_string())
    );
    blog.upvote(0, &ctx).unwrap();
    assert_eq!(
        Ok(VoteStatus::Upvoted),
        blog.get_user_vote_status(0, "alice_near".to_string())
    );
    assert_eq!((1, 0), blog.get_votes_statistics(0).unwrap());
    // another identity is unaffected
    assert_eq!(
        Ok(VoteStatus::NoVote),
        blog.get_user_vote_status(0, "bob_near".to_string())
    );
}

#[test]
fn removing_votes_is_independent_and_idempotent() {
    let (mut blog, ctx) = blog_with_posts(1);
    let bob = ctx_for("bob_near", 0);
    blog.upvote(0, &ctx).unwrap();
    blog.downvote(0, &bob).unwrap();
    assert_eq!((1, 1), blog.get_votes_statistics(0).unwrap());
    blog.remove_upvote(0, &ctx).unwrap();
    blog.remove_upvote(0, &ctx).unwrap();
    assert_eq!((0, 1), blog.get_votes_statistics(0).unwrap());
    blog.remove_downvote(0, &bob).unwrap();
    assert_eq!((0, 0), blog.get_votes_statistics(0).unwrap());
    assert_eq!(Err(BlogError::NotFound), blog.upvote(3, &ctx));
    assert_eq!(Err(BlogError::NotFound), blog.remove_downvote(3, &ctx));
    assert_eq!(
        Err(BlogError::NotFound),
        blog.get_user_vote_status(3, "alice_near".to_string())
    );
}

#[test]
fn donation_validation_and_totals() {
    let (mut blog, ctx) = blog_with_posts(1);
    assert_eq!(
        Err(BlogError::NotFound),
        blog.donate(5, 10, "hello".to_string(), &ctx).map(|_| ())
    );
    assert_eq!(
        Err(BlogError::ValidationError),
        blog.donate(0, 0, "hello".to_string(), &ctx).map(|_| ())
    );
    assert_eq!(
        Err(BlogError::InsufficientResources),
        blog.donate(0, 2_000_000, "hello".to_string(), &ctx).map(|_| ())
    );
    assert_eq!(0, blog.get_post(0).unwrap().get_total_donation());

    let t: Transfer = blog.donate(0, 300, "first".to_string(), &ctx).unwrap();
    assert_eq!("alice_near".to_string(), t.recipient);
    assert_eq!(300, t.amount);
    assert_eq!(300, blog.get_post(0).unwrap().total_donated);

    blog.donate(0, 1, "second".to_string(), &ctx).unwrap();
    assert_eq!(301, blog.get_post(0).unwrap().get_total_donated());
    assert_eq!(2, blog.get_post(0).unwrap().get_total_donation());
}

#[test]
fn save_to_donation_log_records_regardless_of_transfer() {
    let (mut blog, ctx) = blog_with_posts(1);
    // the completion step can be driven by the environment on its own and
    // always records
    blog.save_to_donation_log(0, 42, "direct".to_string(), &ctx)
        .unwrap();
    assert_eq!(42, blog.get_post(0).unwrap().total_donated);
    assert_eq!(
        Err(BlogError::NotFound),
        blog.save_to_donation_log(9, 42, "direct".to_string(), &ctx)
    );
}

#[test]
fn only_the_owner_deletes() {
    let (mut blog, ctx) = blog_with_posts(1);
    let bob = ctx_for("bob_near", 0);
    blog.create_comment(0, "a body long enough".to_string(), &ctx)
        .unwrap();
    assert_eq!(Err(BlogError::Unauthorized), blog.delete_post(0, &bob));
    assert_eq!(Err(BlogError::Unauthorized), blog.delete_comment(0, 0, &bob));
    assert_eq!(1, blog.get_total_posts());
    assert_eq!(Ok(()), blog.delete_comment(0, 0, &ctx));
    assert_eq!(Ok(()), blog.delete_post(0, &ctx));
    assert_eq!(0, blog.get_total_posts());
    // deleting an id that no longer resolves stays a no-op for the owner
    assert_eq!(Ok(()), blog.delete_post(0, &ctx));
}

#[test]
fn deleted_comment_is_a_tombstone() {
    let (mut blog, ctx) = blog_with_posts(1);
    blog.create_comment(0, "a body long enough".to_string(), &ctx)
        .unwrap();
    blog.delete_comment(0, 0, &ctx).unwrap();
    // unlinked from the post ...
    assert_eq!(0, blog.get_post_total_comments(0).unwrap());
    // ... but the entity stays retrievable by id
    assert_eq!(
        "a body long enough".to_string(),
        blog.get_comment(0).unwrap().get_body()
    );
    assert_eq!(1, blog.get_total_comments());
    // a comment id that was never minted is NotFound
    assert_eq!(Err(BlogError::NotFound), blog.get_comment(1).map(|_| ()));
    assert_eq!(Err(BlogError::NotFound), blog.delete_comment(0, 1, &ctx));
}

#[test]
fn author_index_keeps_deleted_ids() {
    let (mut blog, ctx) = blog_with_posts(2);
    blog.delete_post(0, &ctx).unwrap();
    // the author index still names the deleted id, so the read aborts
    assert_eq!(
        Err(BlogError::NotFound),
        blog.get_user_posts("alice_near".to_string()).map(|_| ())
    );
    // an identity that never posted reads an empty list
    assert_eq!(0, blog.get_user_posts("carol_near".to_string()).unwrap().len());
}

#[test]
fn ids_continue_after_deletion() {
    let (mut blog, ctx) = blog_with_posts(2);
    blog.delete_post(0, &ctx).unwrap();
    let id = blog.create_post("t".to_string(), "b".to_string(), &ctx);
    assert_eq!(2, id);
    assert_eq!(3, blog.get_next_post_id());
    let ids: Vec<usize> = blog.get_posts().iter().map(|p| p.get_post_id()).collect();
    assert_eq!(vec![1, 2], ids);
    assert_eq!(2, blog.get_total_posts());
}

#[test]
fn get_comments_follows_link_order() {
    let (mut blog, ctx) = blog_with_posts(2);
    blog.create_comment(0, "first comment here".to_string(), &ctx)
        .unwrap();
    blog.create_comment(1, "second comment here".to_string(), &ctx)
        .unwrap();
    blog.create_comment(0, "third comment here".to_string(), &ctx)
        .unwrap();
    let on_first = blog.get_comments(0).unwrap();
    assert_eq!(2, on_first.len());
    assert_eq!(0, on_first[0].get_comment_id());
    assert_eq!(2, on_first[1].get_comment_id());
    assert_eq!("alice_near".to_string(), on_first[0].get_author());
    assert_eq!(7, on_first[0].get_created_at());
    assert_eq!(Err(BlogError::NotFound), blog.get_comments(9).map(|_| ()));
}
