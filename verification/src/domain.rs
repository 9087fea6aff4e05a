//! Domain entities, request inputs and response projections.
//!
//! Entities carry the durable state; requests are what callers hand in;
//! responses are the public projections handed back (never a password hash).

use vstd::prelude::*;

verus! {

/// A registered identity. `password` holds the bcrypt hash, never plaintext.
#[derive(Clone, Debug)]
pub struct User {
    pub id: u64,
    pub firstname: String,
    pub lastname: String,
    pub email: String,
    pub password: String,
}

#[derive(Clone, Debug)]
pub struct Category {
    pub id: u64,
    pub name: String,
}

#[derive(Clone, Debug)]
pub struct Post {
    pub id: u64,
    pub title: String,
    pub body: String,
    pub img: String,
    pub category_id: u64,
    pub user_id: u64,
    pub user_name: String,
}

#[derive(Clone, Debug)]
pub struct Comment {
    pub id: u64,
    pub id_post_comment: u64,
    pub user_name_comment: String,
    pub comment: String,
}

/// Registration input: plaintext credentials plus profile names. Transient;
/// never stored or echoed back as given.
pub struct RegisterRequest {
    pub firstname: String,
    pub lastname: String,
    pub email: String,
    pub password: String,
}

/// Login input: plaintext credentials. Transient.
pub struct LoginRequest {
    pub email: String,
    pub password: String,
}

/// User creation as the repository sees it: `password` is already hashed.
pub struct CreateUserRequest {
    pub firstname: String,
    pub lastname: String,
    pub email: String,
    pub password: String,
}

/// Partial profile update; absent fields are left unchanged.
pub struct UpdateUserRequest {
    pub id: Option<u64>,
    pub firstname: Option<String>,
    pub lastname: Option<String>,
    pub email: Option<String>,
    pub password: Option<String>,
}

pub struct CreateCategoryRequest {
    pub name: String,
}

/// Partial category update; an absent name is left unchanged.
pub struct UpdateCategoryRequest {
    pub id: u64,
    pub name: Option<String>,
}

pub struct CreatePostRequest {
    pub title: String,
    pub body: String,
    pub img: String,
    pub category_id: u64,
    pub user_id: u64,
    pub user_name: String,
}

/// Full post replacement for the post named by `post_id`.
pub struct UpdatePostRequest {
    pub post_id: Option<u64>,
    pub title: String,
    pub body: String,
    pub img: String,
    pub category_id: u64,
    pub user_id: u64,
    pub user_name: String,
}

pub struct CreateCommentRequest {
    pub id_post_comment: u64,
    pub user_name_comment: String,
    pub comment: String,
}

/// Full replacement of the comment named by `id`.
pub struct UpdateCommentRequest {
    pub id: u64,
    pub user_name_comment: String,
    pub comment: String,
}

/// Public projection of a `User`: everything but the password hash.
#[derive(Clone, Debug)]
pub struct UserResponse {
    pub id: u64,
    pub firstname: String,
    pub lastname: String,
    pub email: String,
}

impl UserResponse {
    /// The projection: same identity, the hash left behind.
    pub fn of_user(u: &User) -> (r: UserResponse)
        ensures
            r.id == u.id,
            r.firstname@ == u.firstname@,
            r.lastname@ == u.lastname@,
            r.email@ == u.email@,
    {
        UserResponse {
            id: u.id,
            firstname: u.firstname.clone(),
            lastname: u.lastname.clone(),
            email: u.email.clone(),
        }
    }
}

#[derive(Clone, Debug)]
pub struct CategoryResponse {
    pub id: u64,
    pub name: String,
}

impl CategoryResponse {
    pub fn of_category(c: &Category) -> (r: CategoryResponse)
        ensures
            r.id == c.id,
            r.name@ == c.name@,
    {
        CategoryResponse { id: c.id, name: c.name.clone() }
    }
}

#[derive(Clone, Debug)]
pub struct PostResponse {
    pub id: u64,
    pub title: String,
    pub body: String,
    pub img: String,
    pub category_id: u64,
    pub user_id: u64,
    pub user_name: String,
}

impl PostResponse {
    pub fn of_post(p: &Post) -> (r: PostResponse)
        ensures
            r.id == p.id,
            r.title@ == p.title@,
            r.body@ == p.body@,
            r.img@ == p.img@,
            r.category_id == p.category_id,
            r.user_id == p.user_id,
            r.user_name@ == p.user_name@,
    {
        PostResponse {
            id: p.id,
            title: p.title.clone(),
            body: p.body.clone(),
            img: p.img.clone(),
            category_id: p.category_id,
            user_id: p.user_id,
            user_name: p.user_name.clone(),
        }
    }
}

#[derive(Clone, Debug)]
pub struct CommentResponse {
    pub id: u64,
    pub id_post_comment: u64,
    pub user_name_comment: String,
    pub comment: String,
}

impl CommentResponse {
    pub fn of_comment(c: &Comment) -> (r: CommentResponse)
        ensures
            r.id == c.id,
            r.id_post_comment == c.id_post_comment,
            r.user_name_comment@ == c.user_name_comment@,
            r.comment@ == c.comment@,
    {
        CommentResponse {
            id: c.id,
            id_post_comment: c.id_post_comment,
            user_name_comment: c.user_name_comment.clone(),
            comment: c.comment.clone(),
        }
    }
}

/// One flattened row of the post-with-comments relation query.
#[derive(Clone, Debug)]
pub struct PostRelationResponse {
    pub post_id: u64,
    pub post_title: String,
    pub comment_id: u64,
    pub user_name_comment: String,
    pub comment: String,
}

impl PostRelationResponse {
    pub fn from_post_and_comment(p: &Post, c: &Comment) -> (r: PostRelationResponse)
        ensures
            r.post_id == p.id,
            r.post_title@ == p.title@,
            r.comment_id == c.id,
            r.user_name_comment@ == c.user_name_comment@,
            r.comment@ == c.comment@,
    {
        PostRelationResponse {
            post_id: p.id,
            post_title: p.title.clone(),
            comment_id: c.id,
            user_name_comment: c.user_name_comment.clone(),
            comment: c.comment.clone(),
        }
    }
}

} // verus!
