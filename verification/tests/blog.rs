use decentrablog::engine::{Blog, ExecutionContext};

fn alice_ctx() -> ExecutionContext {
    ExecutionContext {
        caller: "alice_near".to_string(),
        timestamp: 0,
        balance: 1000000000000000000000000,
    }
}

#[test]
fn create_post() {
    let ctx = alice_ctx();
    let mut contract = Blog::new("alice_near".to_string());
    contract.create_post(
        "This is the title".to_string(),
        "Lets go Brandon!".to_string(),
        &ctx,
    );

    assert_eq!(
        "This is the title".to_string(),
        contract.get_post(0).unwrap().get_title()
    );
    assert_eq!(
        "Lets go Brandon!".to_string(),
        contract.get_post(0).unwrap().get_body()
    );
    assert_eq!(1, contract.get_total_posts());
    assert_eq!(0, contract.get_post(0).unwrap().get_post_id());

    let user_posts = contract.get_user_posts("alice_near".to_string()).unwrap();
    assert_eq!(1, user_posts.len());
    assert_eq!(0, user_posts[0].get_post_id());
}

#[test]
fn delete_a_post_then_add_two_posts() {
    let ctx = alice_ctx();
    let mut contract = Blog::new("alice_near".to_string());
    contract.create_post(
        "This is the title".to_string(),
        "Lets go Brandon!".to_string(),
        &ctx,
    );
    contract.delete_post(0, &ctx).unwrap();

    assert_eq!(0, contract.get_total_posts(), "Total posts should be 0");

    contract.create_post(
        "This is the title".to_string(),
        "Lets go Brandon!".to_string(),
        &ctx,
    );
    contract.create_post(
        "This is the title".to_string(),
        "Lets go Brandon!".to_string(),
        &ctx,
    );
    assert_eq!(2, contract.get_total_posts());

    assert_eq!(3, contract.get_next_post_id());
}

#[test]
fn return_owner_account_id() {
    let contract = Blog::new("alice_near".to_string());
    assert_eq!("alice_near".to_string(), contract.get_owner());
}

#[test]
fn create_comment() {
    let ctx = alice_ctx();
    let mut contract = Blog::new("alice_near".to_string());

    contract.create_post(
        "This is the title".to_string(),
        "Lets go Brandon!".to_string(),
        &ctx,
    );
    contract
        .create_comment(0, "This is the comment".to_string(), &ctx)
        .unwrap();

    assert_eq!(
        "This is the comment".to_string(),
        contract.get_comment(0).unwrap().get_body()
    );
    assert_eq!(0, contract.get_comment(0).unwrap().get_comment_id());

    contract
        .create_comment(0, "This is comment 2, id 1".to_string(), &ctx)
        .unwrap();
    contract
        .create_comment(0, "This is comment 3, id 2".to_string(), &ctx)
        .unwrap();

    assert_eq!(
        "This is comment 2, id 1".to_string(),
        contract.get_comment(1).unwrap().get_body()
    );
    assert_eq!(
        "This is comment 3, id 2".to_string(),
        contract.get_comment(2).unwrap().get_body()
    );

    let comments = contract.get_post(0).unwrap().get_comments();
    assert_eq!(3, comments.len(), "Comments size is not 3");
    assert_eq!(
        3,
        contract.get_post_total_comments(0).unwrap(),
        "get_post_total_comments is not 3"
    );

    assert_eq!(
        "This is comment 2, id 1".to_string(),
        contract.get_comment(1).unwrap().get_body()
    );
    assert_eq!(
        "This is comment 3, id 2".to_string(),
        contract.get_comment(2).unwrap().get_body()
    );
}

#[test]
fn upvote_test() {
    let ctx = alice_ctx();
    let mut contract = Blog::new("alice_near".to_string());

    contract.create_post(
        "This is the title".to_string(),
        "Lets go Brandon!".to_string(),
        &ctx,
    );

    contract.upvote(0, &ctx).unwrap();

    assert_eq!(1, contract.get_post(0).unwrap().get_upvotes().len());

    for _ in 0..10 {
        contract.upvote(0, &ctx).unwrap();
    }

    for _ in 0..5 {
        contract.downvote(0, &ctx).unwrap();
    }

    // however often one identity votes, it counts once; its later downvotes
    // withdrew its upvote
    assert_eq!((0, 1), contract.get_votes_statistics(0).unwrap());
}

#[test]
fn test_paging_post() {
    let ctx = alice_ctx();
    let mut contract = Blog::new("alice_near".to_string());

    for i in 0..45 {
        contract.create_post(
            format!("This is the title {}", i),
            format!("Lets go Brandon! {}", i),
            &ctx,
        );
    }

    assert_eq!(45, contract.get_total_posts(), "Total post is not 45");

    let posts = contract.get_paging_posts(5, 10).unwrap();

    assert_eq!(5, posts.len(), "Paging post size is not 5");
    assert_eq!(40, posts[0].get_post_id(), "Paging post id is not 40");
    assert_eq!(44, posts[4].get_post_id(), "Paging post id is not 44");
}

#[test]
fn test_donation() {
    let ctx = alice_ctx();
    let mut contract = Blog::new("alice_near".to_string());

    contract.create_post(
        "This is the title".to_string(),
        "Lets go Brandon!".to_string(),
        &ctx,
    );

    contract
        .donate(0, 1000000, "Support Trump for the USA".to_string(), &ctx)
        .unwrap();

    assert_eq!(1, contract.get_post(0).unwrap().get_total_donation());
}
