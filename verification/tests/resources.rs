use example_crud_blog_seaorm::abstract_trait::{
    CategoryServiceTrait, PostsRepositoryTrait, UserServiceTrait,
};
use example_crud_blog_seaorm::domain::{
    CreateCategoryRequest, CreateCommentRequest, CreatePostRequest, CreateUserRequest,
    UpdateCategoryRequest, UpdateCommentRequest, UpdateUserRequest,
};
use example_crud_blog_seaorm::error::AppError;
use example_crud_blog_seaorm::repository::{
    CategoryRepository, CommentRepository, PostRepository, UserRepository,
};
use example_crud_blog_seaorm::response::ErrorResponse;
use example_crud_blog_seaorm::service::{
    CategoryService, CommentService, PostService, UserService,
};

#[test]
fn category_crud_scenario() {
    let mut s = CategoryService::new(CategoryRepository::new());
    let created = s.create_category(&CreateCategoryRequest { name: "Tech".to_owned() }).unwrap();
    assert_eq!(created.status, "success");
    let id = created.data.id;
    assert_eq!(created.data.name, "Tech");

    let fetched = s.get_category(id).unwrap().expect("created category must be found");
    assert_eq!(fetched.data.id, id);
    assert_eq!(fetched.data.name, "Tech");

    let updated = s
        .update_category(&UpdateCategoryRequest { id, name: Some("Science".to_owned()) })
        .unwrap()
        .unwrap();
    assert_eq!(updated.data.id, id);
    assert_eq!(updated.data.name, "Science");

    let deleted = s.delete_category(id).unwrap();
    assert_eq!(deleted.status, "success");
    assert!(s.get_category(id).unwrap().is_none(), "deleted category must be absent");
}

#[test]
fn category_update_without_name_keeps_it() {
    let mut s = CategoryService::new(CategoryRepository::new());
    let id = s.create_category(&CreateCategoryRequest { name: "Tech".to_owned() }).unwrap().data.id;
    let updated = s.update_category(&UpdateCategoryRequest { id, name: None }).unwrap().unwrap();
    assert_eq!(updated.data.name, "Tech");
}

#[test]
fn category_list_is_ordered_and_enveloped_per_item() {
    let mut s = CategoryService::new(CategoryRepository::new());
    s.create_category(&CreateCategoryRequest { name: "A".to_owned() }).unwrap();
    s.create_category(&CreateCategoryRequest { name: "B".to_owned() }).unwrap();
    let list = s.get_categories().unwrap();
    assert_eq!(list.len(), 2);
    assert_eq!(list[0].data.name, "A");
    assert_eq!(list[1].data.name, "B");
    assert!(list.iter().all(|e| e.status == "success"));
}

#[test]
fn category_write_absence_is_not_found() {
    let mut s = CategoryService::new(CategoryRepository::new());
    let up = s.update_category(&UpdateCategoryRequest { id: 99, name: None });
    assert_eq!(up.unwrap_err(), AppError::NotFound("Category not found".to_owned()));
    let del = s.delete_category(99);
    assert_eq!(del.unwrap_err(), AppError::NotFound("Category not found".to_owned()));
    assert!(s.get_category(99).unwrap().is_none(), "read absence is Ok(None)");
}

#[test]
fn comment_crud_scenario() {
    let mut s = CommentService::new(CommentRepository::new());
    let created = s
        .create_comment(&CreateCommentRequest {
            id_post_comment: 3,
            user_name_comment: "ada".to_owned(),
            comment: "first!".to_owned(),
        })
        .unwrap();
    let id = created.data.id;
    assert_eq!(created.data.id_post_comment, 3);

    let updated = s
        .update_comment(&UpdateCommentRequest {
            id,
            user_name_comment: "ada".to_owned(),
            comment: "edited".to_owned(),
        })
        .unwrap()
        .unwrap();
    assert_eq!(updated.data.comment, "edited");
    assert_eq!(updated.data.id_post_comment, 3, "the anchored post is kept");

    assert_eq!(s.delete_comment(id).unwrap().status, "success");
    assert_eq!(
        s.delete_comment(id).unwrap_err(),
        AppError::NotFound("Comment not found".to_owned())
    );
}

#[test]
fn post_relation_two_comments_two_rows() {
    let mut repo = PostRepository::new();
    let post = repo.create_post(&CreatePostRequest {
        title: "Hello".to_owned(),
        body: "world".to_owned(),
        img: "hello.png".to_owned(),
        category_id: 1,
        user_id: 1,
        user_name: "ada".to_owned(),
    });
    let other = repo.create_post(&CreatePostRequest {
        title: "Other".to_owned(),
        body: "post".to_owned(),
        img: "other.png".to_owned(),
        category_id: 1,
        user_id: 1,
        user_name: "ada".to_owned(),
    });
    repo.add_comment(&CreateCommentRequest {
        id_post_comment: post.id,
        user_name_comment: "bob".to_owned(),
        comment: "nice".to_owned(),
    });
    repo.add_comment(&CreateCommentRequest {
        id_post_comment: other.id,
        user_name_comment: "eve".to_owned(),
        comment: "elsewhere".to_owned(),
    });
    repo.add_comment(&CreateCommentRequest {
        id_post_comment: post.id,
        user_name_comment: "carol".to_owned(),
        comment: "agreed".to_owned(),
    });

    let s = PostService::new(repo);
    let rows = s.get_post_relation(post.id).unwrap().data;
    assert_eq!(rows.len(), 2, "a post with two comments yields exactly two rows");
    assert_eq!(rows[0].post_id, post.id);
    assert_eq!(rows[0].post_title, "Hello");
    assert_eq!(rows[0].user_name_comment, "bob");
    assert_eq!(rows[1].user_name_comment, "carol");

    let none = s.get_post_relation(other.id + 100).unwrap().data;
    assert!(none.is_empty(), "an unknown post yields an empty sequence, not an error");
}

#[test]
fn post_relation_zero_comments_is_empty() {
    let mut repo = PostRepository::new();
    let post = repo.create_post(&CreatePostRequest {
        title: "Lonely".to_owned(),
        body: "no comments".to_owned(),
        img: "l.png".to_owned(),
        category_id: 1,
        user_id: 1,
        user_name: "ada".to_owned(),
    });
    let s = PostService::new(repo);
    let rows = s.get_post_relation(post.id).unwrap().data;
    assert!(rows.is_empty());
}

#[test]
fn post_crud_and_full_update() {
    let mut s = PostService::new(PostRepository::new());
    let created = s
        .create_post(&CreatePostRequest {
            title: "Hello".to_owned(),
            body: "world".to_owned(),
            img: "hello.png".to_owned(),
            category_id: 2,
            user_id: 9,
            user_name: "ada".to_owned(),
        })
        .unwrap();
    let id = created.data.id;
    let fetched = s.get_post(id).unwrap().unwrap();
    assert_eq!(fetched.data.title, "Hello");

    let updated = s
        .update_post(&example_crud_blog_seaorm::domain::UpdatePostRequest {
            post_id: Some(id),
            title: "Hi".to_owned(),
            body: "there".to_owned(),
            img: "hi.png".to_owned(),
            category_id: 2,
            user_id: 9,
            user_name: "ada".to_owned(),
        })
        .unwrap()
        .unwrap();
    assert_eq!(updated.data.title, "Hi");

    let all = s.get_all_posts().unwrap();
    assert_eq!(all.data.len(), 1);

    assert_eq!(s.delete_post(id).unwrap().status, "success");
    assert_eq!(s.delete_post(id).unwrap_err(), AppError::NotFound("Post not found".to_owned()));
}

#[test]
fn user_service_crud_and_email_rules() {
    let mut s = UserService::new(UserRepository::new());
    let created = s
        .create_user(&CreateUserRequest {
            firstname: "Ada".to_owned(),
            lastname: "Lovelace".to_owned(),
            email: "a@x.com".to_owned(),
            password: "already-hashed".to_owned(),
        })
        .unwrap();
    let id = created.data.id;
    assert_eq!(created.data.email, "a@x.com");

    let dup = s.create_user(&CreateUserRequest {
        firstname: "Eve".to_owned(),
        lastname: "Mallory".to_owned(),
        email: "a@x.com".to_owned(),
        password: "h".to_owned(),
    });
    assert_eq!(dup.unwrap_err(), AppError::EmailAlreadyExists);

    assert!(s.find_by_email_exists(&"a@x.com".to_owned()).unwrap().data);
    assert!(!s.find_by_email_exists(&"b@x.com".to_owned()).unwrap().data);
    assert!(s.find_user_by_email(&"b@x.com".to_owned()).unwrap().is_none());
    assert_eq!(s.find_by_id(id).unwrap().unwrap().data.firstname, "Ada");

    let second = s
        .create_user(&CreateUserRequest {
            firstname: "Bob".to_owned(),
            lastname: "B".to_owned(),
            email: "b@x.com".to_owned(),
            password: "h".to_owned(),
        })
        .unwrap();
    // an update may not take another identity's email
    let collide = s.update_user(&UpdateUserRequest {
        id: Some(second.data.id),
        firstname: None,
        lastname: None,
        email: Some("a@x.com".to_owned()),
        password: None,
    });
    assert_eq!(collide.unwrap_err(), AppError::EmailAlreadyExists);

    // a partial update changes only the present fields
    let updated = s
        .update_user(&UpdateUserRequest {
            id: Some(id),
            firstname: Some("Augusta".to_owned()),
            lastname: None,
            email: None,
            password: None,
        })
        .unwrap()
        .unwrap();
    assert_eq!(updated.data.firstname, "Augusta");
    assert_eq!(updated.data.lastname, "Lovelace");
    assert_eq!(updated.data.email, "a@x.com");

    assert_eq!(s.delete_user(&"a@x.com".to_owned()).unwrap().status, "success");
    assert_eq!(
        s.delete_user(&"a@x.com".to_owned()).unwrap_err(),
        AppError::NotFound("User not found".to_owned())
    );
}

#[test]
fn error_envelope_statuses() {
    let nf = ErrorResponse::of_error(&AppError::NotFound("Category not found".to_owned()));
    assert_eq!(nf.status, "fail");
    assert_eq!(nf.message, "Category not found");
    let db = ErrorResponse::of_error(&AppError::DbError("boom".to_owned()));
    assert_eq!(db.status, "error");
    assert_eq!(db.message, "boom");
    let hash = ErrorResponse::of_error(&AppError::HashingError);
    assert_eq!(hash.status, "error");
    let auth = ErrorResponse::of_error(&AppError::Unauthenticated);
    assert_eq!(auth.status, "fail");
    assert_eq!(auth.message, "unauthenticated");
    let creds = ErrorResponse::of_error(&AppError::InvalidCredentials);
    assert_eq!(creds.status, "fail");
}
