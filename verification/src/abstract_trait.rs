//! The capability-set contracts: what any store of identities, categories,
//! posts or comments must do, stated over the mathematical content of the
//! store, independent of which concrete store implements it.
//!
//! The in-memory repositories implement and prove these contracts; adapters
//! over durable storage live outside the verified core and are held to the
//! same shape.

use vstd::prelude::*;
use crate::domain::{
    Category, CategoryResponse, Comment, CreateCategoryRequest, CreateCommentRequest,
    CreatePostRequest, CreateUserRequest, LoginRequest, Post, PostRelationResponse,
    RegisterRequest, UpdateCategoryRequest, UpdateCommentRequest, UpdatePostRequest,
    UpdateUserRequest, User, UserResponse,
};
use crate::error::AppError;
use crate::hashing::bcrypt_verify_outcome;
use crate::response::ApiResponse;
use crate::token::spec_token;

verus! {

// ---------------------------------------------------------------- identities
pub open spec fn has_user_email(rows: Seq<User>, email: Seq<char>) -> bool {
    exists|i: int| 0 <= i < rows.len() && #[trigger] rows[i].email@ == email
}

pub open spec fn has_user_id(rows: Seq<User>, id: u64) -> bool {
    exists|i: int| 0 <= i < rows.len() && #[trigger] rows[i].id == id
}

/// Identifiers and emails are unique across the store.
pub open spec fn users_wf(rows: Seq<User>) -> bool {
    forall|i: int, j: int|
        #![trigger rows[i], rows[j]]
        0 <= i < j < rows.len() ==> rows[i].id != rows[j].id && rows[i].email@ != rows[j].email@
}

/// The stored or returned user a creation must produce: the given id, the
/// requested profile, and the already-hashed password, field for field.
/// The store invariant every identity repository maintains: unique ids and
/// emails, and every id below the assignment counter.
pub open spec fn user_store_inv(rows: Seq<User>, next: u64) -> bool {
    users_wf(rows) && (forall|i: int| 0 <= i < rows.len() ==> (#[trigger] rows[i]).id < next)
}

pub open spec fn user_matches_create(u: User, id: u64, input: CreateUserRequest) -> bool {
    u.id == id && u.firstname@ == input.firstname@ && u.lastname@ == input.lastname@
        && u.email@ == input.email@ && u.password@ == input.password@
}

/// A partial update: present fields replaced, absent fields kept.
pub open spec fn user_updated(before: User, after: User, input: UpdateUserRequest) -> bool {
    after.id == before.id && after.firstname@ == (match input.firstname {
        Some(f) => f@,
        None => before.firstname@,
    }) && after.lastname@ == (match input.lastname {
        Some(l) => l@,
        None => before.lastname@,
    }) && after.email@ == (match input.email {
        Some(e) => e@,
        None => before.email@,
    }) && after.password@ == (match input.password {
        Some(p) => p@,
        None => before.password@,
    })
}

pub open spec fn user_same_fields(a: User, b: User) -> bool {
    a.id == b.id && a.firstname@ == b.firstname@ && a.lastname@ == b.lastname@
        && a.email@ == b.email@ && a.password@ == b.password@
}

/// An email update may not take an email another identity already holds.
pub open spec fn user_update_keeps_emails_unique(rows: Seq<User>, input: UpdateUserRequest) -> bool {
    match (input.id, input.email) {
        (Some(id), Some(e)) => forall|i: int|
            0 <= i < rows.len() && #[trigger] rows[i].id != id ==> rows[i].email@ != e@,
        _ => true,
    }
}

/// Durable storage of identities: lookup by email or id, creation with a
/// store-assigned id, partial update, deletion by email.
pub trait UserRepositoryTrait: Sized {
    spec fn rows(&self) -> Seq<User>;

    /// The identifier the next creation will assign; every stored id is
    /// below it.
    spec fn next_id(&self) -> u64;

    /// Whether the identifier space is exhausted.
    fn at_capacity(&self) -> (r: bool)
        ensures
            r == (self.next_id() == u64::MAX),
    ;

    fn find_by_email_exists(&self, email: &String) -> (r: bool)
        ensures
            r == has_user_email(self.rows(), email@),
    ;

    fn find_by_email(&self, email: &String) -> (r: Option<&User>)
        ensures
            match r {
                Some(u) => exists|i: int|
                    0 <= i < self.rows().len() && #[trigger] self.rows()[i] == *u && u.email@
                        == email@,
                None => !has_user_email(self.rows(), email@),
            },
    ;

    fn find_by_id(&self, id: u64) -> (r: Option<&User>)
        ensures
            match r {
                Some(u) => exists|i: int|
                    0 <= i < self.rows().len() && #[trigger] self.rows()[i] == *u && u.id == id,
                None => !has_user_id(self.rows(), id),
            },
    ;

    fn create_user(&mut self, input: &CreateUserRequest) -> (r: User)
        requires
            user_store_inv(old(self).rows(), old(self).next_id()),
            old(self).next_id() < u64::MAX,
            !has_user_email(old(self).rows(), input.email@),
        ensures
            user_store_inv(final(self).rows(), final(self).next_id()),
            r.id == old(self).next_id(),
            final(self).next_id() == old(self).next_id() + 1,
            final(self).rows().len() == old(self).rows().len() + 1,
            final(self).rows().subrange(0, old(self).rows().len() as int) == old(self).rows(),
            !has_user_id(old(self).rows(), r.id),
            user_matches_create(final(self).rows().last(), r.id, *input),
            user_matches_create(r, r.id, *input),
    ;

    fn update_user(&mut self, input: &UpdateUserRequest) -> (r: Option<User>)
        requires
            user_store_inv(old(self).rows(), old(self).next_id()),
            user_update_keeps_emails_unique(old(self).rows(), *input),
        ensures
            user_store_inv(final(self).rows(), final(self).next_id()),
            final(self).next_id() == old(self).next_id(),
            input.id is None ==> r is None && final(self).rows() == old(self).rows(),
            (match input.id {
                Some(id) => !has_user_id(old(self).rows(), id),
                None => false,
            }) ==> r is None && final(self).rows() == old(self).rows(),
            (match input.id {
                Some(id) => has_user_id(old(self).rows(), id),
                None => false,
            }) ==> r is Some,
            r matches Some(u) ==> exists|i: int|
                0 <= i < old(self).rows().len() && #[trigger] old(self).rows()[i].id
                    == input.id->0 && final(self).rows().len() == old(self).rows().len() && (
                forall|j: int|
                    0 <= j < old(self).rows().len() && j != i ==> final(self).rows()[j] == old(self).rows()[j]) && user_updated(old(self).rows()[i], final(self).rows()[i], *input)
                    && user_same_fields(u, final(self).rows()[i]),
    ;

    fn delete_user(&mut self, email: &String) -> (r: bool)
        requires
            user_store_inv(old(self).rows(), old(self).next_id()),
        ensures
            user_store_inv(final(self).rows(), final(self).next_id()),
            final(self).next_id() == old(self).next_id(),
            r == has_user_email(old(self).rows(), email@),
            !r ==> final(self).rows() == old(self).rows(),
            r ==> exists|i: int|
                0 <= i < old(self).rows().len() && #[trigger] old(self).rows()[i].email@ == email@
                    && final(self).rows() == old(self).rows().remove(i),
    ;
}

// ---------------------------------------------------------------- categories
pub open spec fn has_category_id(rows: Seq<Category>, id: u64) -> bool {
    exists|i: int| 0 <= i < rows.len() && #[trigger] rows[i].id == id
}

pub open spec fn categories_wf(rows: Seq<Category>) -> bool {
    forall|i: int, j: int|
        #![trigger rows[i], rows[j]]
        0 <= i < j < rows.len() ==> rows[i].id != rows[j].id
}

/// The store invariant of a category repository: unique ids, all below the
/// assignment counter.
pub open spec fn category_store_inv(rows: Seq<Category>, next: u64) -> bool {
    categories_wf(rows) && (forall|i: int| 0 <= i < rows.len() ==> (#[trigger] rows[i]).id < next)
}

pub open spec fn category_updated(
    before: Category,
    after: Category,
    input: UpdateCategoryRequest,
) -> bool {
    after.id == before.id && after.name@ == (match input.name {
        Some(n) => n@,
        None => before.name@,
    })
}

/// The uniform resource capability set, here for categories: find-all,
/// find-by-id, create with a store-assigned id, update, delete.
pub trait CategoryRepositoryTrait: Sized {
    spec fn rows(&self) -> Seq<Category>;

    /// The identifier the next creation will assign; every stored id is
    /// below it.
    spec fn next_id(&self) -> u64;

    /// Whether the identifier space is exhausted.
    fn at_capacity(&self) -> (r: bool)
        ensures
            r == (self.next_id() == u64::MAX),
    ;

    /// The full stored sequence, in stored (hence stable) order.
    fn find_all(&self) -> (r: &Vec<Category>)
        ensures
            r@ == self.rows(),
    ;

    fn find_by_id(&self, id: u64) -> (r: Option<&Category>)
        ensures
            match r {
                Some(c) => exists|i: int|
                    0 <= i < self.rows().len() && #[trigger] self.rows()[i] == *c && c.id == id,
                None => !has_category_id(self.rows(), id),
            },
    ;

    fn create(&mut self, input: &CreateCategoryRequest) -> (r: Category)
        requires
            category_store_inv(old(self).rows(), old(self).next_id()),
            old(self).next_id() < u64::MAX,
        ensures
            category_store_inv(final(self).rows(), final(self).next_id()),
            r.id == old(self).next_id(),
            final(self).next_id() == old(self).next_id() + 1,
            final(self).rows().len() == old(self).rows().len() + 1,
            final(self).rows().subrange(0, old(self).rows().len() as int) == old(self).rows(),
            !has_category_id(old(self).rows(), r.id),
            ({
                let c = final(self).rows().last();
                c.id == r.id && c.name@ == input.name@ && r.name@ == input.name@
            }),
    ;

    fn update(&mut self, input: &UpdateCategoryRequest) -> (r: Option<Category>)
        requires
            category_store_inv(old(self).rows(), old(self).next_id()),
        ensures
            category_store_inv(final(self).rows(), final(self).next_id()),
            final(self).next_id() == old(self).next_id(),
            r is Some == has_category_id(old(self).rows(), input.id),
            r is None ==> final(self).rows() == old(self).rows(),
            r matches Some(c) ==> exists|i: int|
                0 <= i < old(self).rows().len() && #[trigger] old(self).rows()[i].id == input.id
                    && final(self).rows().len() == old(self).rows().len() && (forall|j: int|
                    0 <= j < old(self).rows().len() && j != i ==> final(self).rows()[j] == old(self).rows()[j]) && category_updated(
                    old(self).rows()[i],
                    final(self).rows()[i],
                    *input,
                ) && c.id == final(self).rows()[i].id && c.name@ == final(self).rows()[i].name@,
    ;

    fn delete(&mut self, id: u64) -> (r: bool)
        requires
            category_store_inv(old(self).rows(), old(self).next_id()),
        ensures
            category_store_inv(final(self).rows(), final(self).next_id()),
            final(self).next_id() == old(self).next_id(),
            r == has_category_id(old(self).rows(), id),
            !r ==> final(self).rows() == old(self).rows(),
            r ==> exists|i: int|
                0 <= i < old(self).rows().len() && #[trigger] old(self).rows()[i].id == id && final(self).rows() == old(self).rows().remove(i),
    ;
}

// ------------------------------------------------------------------ comments
pub open spec fn has_comment_id(rows: Seq<Comment>, id: u64) -> bool {
    exists|i: int| 0 <= i < rows.len() && #[trigger] rows[i].id == id
}

pub open spec fn comments_wf(rows: Seq<Comment>) -> bool {
    forall|i: int, j: int|
        #![trigger rows[i], rows[j]]
        0 <= i < j < rows.len() ==> rows[i].id != rows[j].id
}

/// The store invariant of a comment repository: unique ids, all below the
/// assignment counter.
pub open spec fn comment_store_inv(rows: Seq<Comment>, next: u64) -> bool {
    comments_wf(rows) && (forall|i: int| 0 <= i < rows.len() ==> (#[trigger] rows[i]).id < next)
}

pub open spec fn comment_matches_create(c: Comment, id: u64, input: CreateCommentRequest) -> bool {
    c.id == id && c.id_post_comment == input.id_post_comment && c.user_name_comment@
        == input.user_name_comment@ && c.comment@ == input.comment@
}

/// A comment update replaces author and text in full; the anchored post is
/// kept.
pub open spec fn comment_updated(before: Comment, after: Comment, input: UpdateCommentRequest) -> bool {
    after.id == before.id && after.id_post_comment == before.id_post_comment
        && after.user_name_comment@ == input.user_name_comment@ && after.comment@ == input.comment@
}

pub trait CommentRepositoryTrait: Sized {
    spec fn rows(&self) -> Seq<Comment>;

    /// The identifier the next creation will assign; every stored id is
    /// below it.
    spec fn next_id(&self) -> u64;

    /// Whether the identifier space is exhausted.
    fn at_capacity(&self) -> (r: bool)
        ensures
            r == (self.next_id() == u64::MAX),
    ;

    fn find_all(&self) -> (r: &Vec<Comment>)
        ensures
            r@ == self.rows(),
    ;

    fn find_by_id(&self, id: u64) -> (r: Option<&Comment>)
        ensures
            match r {
                Some(c) => exists|i: int|
                    0 <= i < self.rows().len() && #[trigger] self.rows()[i] == *c && c.id == id,
                None => !has_comment_id(self.rows(), id),
            },
    ;

    fn create(&mut self, input: &CreateCommentRequest) -> (r: Comment)
        requires
            comment_store_inv(old(self).rows(), old(self).next_id()),
            old(self).next_id() < u64::MAX,
        ensures
            comment_store_inv(final(self).rows(), final(self).next_id()),
            r.id == old(self).next_id(),
            final(self).next_id() == old(self).next_id() + 1,
            final(self).rows().len() == old(self).rows().len() + 1,
            final(self).rows().subrange(0, old(self).rows().len() as int) == old(self).rows(),
            !has_comment_id(old(self).rows(), r.id),
            comment_matches_create(final(self).rows().last(), r.id, *input),
            comment_matches_create(r, r.id, *input),
    ;

    fn update(&mut self, input: &UpdateCommentRequest) -> (r: Option<Comment>)
        requires
            comment_store_inv(old(self).rows(), old(self).next_id()),
        ensures
            comment_store_inv(final(self).rows(), final(self).next_id()),
            final(self).next_id() == old(self).next_id(),
            r is Some == has_comment_id(old(self).rows(), input.id),
            r is None ==> final(self).rows() == old(self).rows(),
            r matches Some(c) ==> exists|i: int|
                0 <= i < old(self).rows().len() && #[trigger] old(self).rows()[i].id == input.id
                    && final(self).rows().len() == old(self).rows().len() && (forall|j: int|
                    0 <= j < old(self).rows().len() && j != i ==> final(self).rows()[j] == old(self).rows()[j]) && comment_updated(
                    old(self).rows()[i],
                    final(self).rows()[i],
                    *input,
                ) && c.id == final(self).rows()[i].id && c.id_post_comment == final(self).rows()[i].id_post_comment && c.user_name_comment@ == final(self).rows()[i].user_name_comment@ && c.comment@ == final(self).rows()[i].comment@,
    ;

    fn delete(&mut self, id: u64) -> (r: bool)
        requires
            comment_store_inv(old(self).rows(), old(self).next_id()),
        ensures
            comment_store_inv(final(self).rows(), final(self).next_id()),
            final(self).next_id() == old(self).next_id(),
            r == has_comment_id(old(self).rows(), id),
            !r ==> final(self).rows() == old(self).rows(),
            r ==> exists|i: int|
                0 <= i < old(self).rows().len() && #[trigger] old(self).rows()[i].id == id && final(self).rows() == old(self).rows().remove(i),
    ;
}

// --------------------------------------------------------------------- posts
pub open spec fn has_post_id(rows: Seq<Post>, id: u64) -> bool {
    exists|i: int| 0 <= i < rows.len() && #[trigger] rows[i].id == id
}

pub open spec fn posts_wf(rows: Seq<Post>) -> bool {
    forall|i: int, j: int|
        #![trigger rows[i], rows[j]]
        0 <= i < j < rows.len() ==> rows[i].id != rows[j].id
}

/// The store invariant of a post repository: unique post ids, all below the
/// assignment counter.
pub open spec fn post_store_inv(rows: Seq<Post>, next: u64) -> bool {
    posts_wf(rows) && (forall|i: int| 0 <= i < rows.len() ==> (#[trigger] rows[i]).id < next)
}

pub open spec fn post_matches_create(p: Post, id: u64, input: CreatePostRequest) -> bool {
    p.id == id && p.title@ == input.title@ && p.body@ == input.body@ && p.img@ == input.img@
        && p.category_id == input.category_id && p.user_id == input.user_id && p.user_name@
        == input.user_name@
}

/// A post update replaces every field; the identifier is kept.
pub open spec fn post_updated(before: Post, after: Post, input: UpdatePostRequest) -> bool {
    after.id == before.id && after.title@ == input.title@ && after.body@ == input.body@
        && after.img@ == input.img@ && after.category_id == input.category_id && after.user_id
        == input.user_id && after.user_name@ == input.user_name@
}

/// The comments anchored to `post_id`, in stored order.
pub open spec fn matching_comments(comments: Seq<Comment>, post_id: u64) -> Seq<Comment>
    decreases comments.len(),
{
    if comments.len() == 0 {
        Seq::empty()
    } else {
        let rest = matching_comments(comments.drop_last(), post_id);
        if comments.last().id_post_comment == post_id {
            rest.push(comments.last())
        } else {
            rest
        }
    }
}

/// One flattened relation row pairs the post with one of its comments.
pub open spec fn relation_row_matches(r: PostRelationResponse, p: Post, c: Comment) -> bool {
    r.post_id == p.id && r.post_title@ == p.title@ && r.comment_id == c.id && r.user_name_comment@
        == c.user_name_comment@ && r.comment@ == c.comment@
}

pub trait PostsRepositoryTrait: Sized {
    spec fn posts(&self) -> Seq<Post>;

    spec fn comments(&self) -> Seq<Comment>;

    /// The identifier the next post creation will assign; every stored post
    /// id is below it.
    spec fn next_id(&self) -> u64;

    /// Whether the post identifier space is exhausted.
    fn at_capacity(&self) -> (r: bool)
        ensures
            r == (self.next_id() == u64::MAX),
    ;

    fn get_all_posts(&self) -> (r: &Vec<Post>)
        ensures
            r@ == self.posts(),
    ;

    fn get_post(&self, post_id: u64) -> (r: Option<&Post>)
        ensures
            match r {
                Some(p) => exists|i: int|
                    0 <= i < self.posts().len() && #[trigger] self.posts()[i] == *p && p.id
                        == post_id,
                None => !has_post_id(self.posts(), post_id),
            },
    ;

    /// The relation query: one row per (post, comment) pair, in stored
    /// comment order; a post with no comments, or no post at all, yields an
    /// empty sequence, never an error.
    fn get_post_relation(&self, post_id: u64) -> (r: Vec<PostRelationResponse>)
        requires
            post_store_inv(self.posts(), self.next_id()),
        ensures
            !has_post_id(self.posts(), post_id) ==> r@.len() == 0,
            forall|i: int|
                0 <= i < self.posts().len() && #[trigger] self.posts()[i].id == post_id ==> r@.len()
                    == matching_comments(self.comments(), post_id).len() && (forall|k: int|
                    0 <= k < r@.len() ==> relation_row_matches(
                        #[trigger] r@[k],
                        self.posts()[i],
                        matching_comments(self.comments(), post_id)[k],
                    )),
    ;

    fn create_post(&mut self, input: &CreatePostRequest) -> (r: Post)
        requires
            post_store_inv(old(self).posts(), old(self).next_id()),
            old(self).next_id() < u64::MAX,
        ensures
            post_store_inv(final(self).posts(), final(self).next_id()),
            r.id == old(self).next_id(),
            final(self).next_id() == old(self).next_id() + 1,
            final(self).comments() == old(self).comments(),
            final(self).posts().len() == old(self).posts().len() + 1,
            final(self).posts().subrange(0, old(self).posts().len() as int) == old(self).posts(),
            !has_post_id(old(self).posts(), r.id),
            post_matches_create(final(self).posts().last(), r.id, *input),
            post_matches_create(r, r.id, *input),
    ;

    fn update_post(&mut self, input: &UpdatePostRequest) -> (r: Option<Post>)
        requires
            post_store_inv(old(self).posts(), old(self).next_id()),
        ensures
            post_store_inv(final(self).posts(), final(self).next_id()),
            final(self).next_id() == old(self).next_id(),
            final(self).comments() == old(self).comments(),
            input.post_id is None ==> r is None && final(self).posts() == old(self).posts(),
            r is Some == (match input.post_id {
                Some(id) => has_post_id(old(self).posts(), id),
                None => false,
            }),
            r is None ==> final(self).posts() == old(self).posts(),
            r matches Some(p) ==> exists|i: int|
                0 <= i < old(self).posts().len() && #[trigger] old(self).posts()[i].id
                    == input.post_id->0 && final(self).posts().len() == old(self).posts().len() && (
                forall|j: int|
                    0 <= j < old(self).posts().len() && j != i ==> final(self).posts()[j] == old(self).posts()[j]) && post_updated(old(self).posts()[i], final(self).posts()[i], *input)
                    && post_updated(old(self).posts()[i], p, *input),
    ;

    fn delete_post(&mut self, post_id: u64) -> (r: bool)
        requires
            post_store_inv(old(self).posts(), old(self).next_id()),
        ensures
            post_store_inv(final(self).posts(), final(self).next_id()),
            final(self).next_id() == old(self).next_id(),
            final(self).comments() == old(self).comments(),
            r == has_post_id(old(self).posts(), post_id),
            !r ==> final(self).posts() == old(self).posts(),
            r ==> exists|i: int|
                0 <= i < old(self).posts().len() && #[trigger] old(self).posts()[i].id == post_id
                    && final(self).posts() == old(self).posts().remove(i),
    ;
}

// ------------------------------------------------------------ service traits
/// The uniform service layer for categories: a pure translation of store
/// results into response envelopes. Absence on read is `Ok(None)`; absence
/// on write is an explicit `NotFound`; an exhausted id space on create is a
/// storage error.
pub trait CategoryServiceTrait: Sized {
    spec fn rows(&self) -> Seq<Category>;

    spec fn wf(&self) -> bool;

    spec fn next_id(&self) -> u64;

    fn get_categories(&self) -> (r: Result<Vec<ApiResponse<CategoryResponse>>, AppError>)
        requires
            self.wf(),
        ensures
            r matches Ok(v) && v@.len() == self.rows().len() && (forall|i: int|
                0 <= i < v@.len() ==> (#[trigger] v@[i]).status@ == "success"@ && v@[i].data.id
                    == self.rows()[i].id && v@[i].data.name@ == self.rows()[i].name@),
    ;

    fn get_category(&self, id: u64) -> (r: Result<Option<ApiResponse<CategoryResponse>>, AppError>)
        requires
            self.wf(),
        ensures
            r is Ok,
            !has_category_id(self.rows(), id) ==> (r matches Ok(o) && o is None),
            forall|i: int|
                0 <= i < self.rows().len() && #[trigger] self.rows()[i].id == id ==> (r matches Ok(o)
                    && o matches Some(env) && env.status@ == "success"@ && env.data.id == id
                    && env.data.name@ == self.rows()[i].name@),
    ;

    fn create_category(&mut self, input: &CreateCategoryRequest) -> (r: Result<
        ApiResponse<CategoryResponse>,
        AppError,
    >)
        requires
            old(self).wf(),
        ensures
            final(self).wf(),
            old(self).next_id() == u64::MAX ==> (r matches Err(e) && e matches AppError::DbError(_)
                && final(self).rows() == old(self).rows() && final(self).next_id() == old(self).next_id()),
            old(self).next_id() < u64::MAX ==> (r matches Ok(env) && final(self).next_id() == old(self).next_id() + 1 && final(self).rows().len() == old(self).rows().len() + 1 && final(self).rows().subrange(0, old(self).rows().len() as int) == old(self).rows() && ({
                let c = final(self).rows().last();
                c.id == old(self).next_id() && c.name@ == input.name@ && env.status@ == "success"@
                    && env.data.id == c.id && env.data.name@ == input.name@
            })),
    ;

    fn update_category(&mut self, input: &UpdateCategoryRequest) -> (r: Result<
        Option<ApiResponse<CategoryResponse>>,
        AppError,
    >)
        requires
            old(self).wf(),
        ensures
            final(self).wf(),
            final(self).next_id() == old(self).next_id(),
            !has_category_id(old(self).rows(), input.id) ==> (r matches Err(e) && e matches
                AppError::NotFound(m) && m@ == "Category not found"@ && final(self).rows() == old(self).rows()),
            forall|i: int|
                0 <= i < old(self).rows().len() && #[trigger] old(self).rows()[i].id == input.id
                    ==> (r matches Ok(o) && o matches Some(env) && final(self).rows().len() == old(self).rows().len() && (forall|j: int|
                    0 <= j < old(self).rows().len() && j != i ==> final(self).rows()[j] == old(self).rows()[j]) && category_updated(old(self).rows()[i], final(self).rows()[i], *input)
                    && env.status@ == "success"@ && env.data.id == input.id && env.data.name@
                    == final(self).rows()[i].name@),
    ;

    fn delete_category(&mut self, id: u64) -> (r: Result<ApiResponse<()>, AppError>)
        requires
            old(self).wf(),
        ensures
            final(self).wf(),
            final(self).next_id() == old(self).next_id(),
            !has_category_id(old(self).rows(), id) ==> (r matches Err(e) && e matches
                AppError::NotFound(m) && m@ == "Category not found"@ && final(self).rows() == old(self).rows()),
            has_category_id(old(self).rows(), id) ==> (r matches Ok(env) && env.status@
                == "success"@ && exists|i: int|
                0 <= i < old(self).rows().len() && #[trigger] old(self).rows()[i].id == id && final(self).rows() == old(self).rows().remove(i)),
    ;
}

/// The uniform service layer for identities outside the auth flow. A taken
/// email is rejected on create and on an email-changing update, so the
/// store's email uniqueness is preserved.
pub trait UserServiceTrait: Sized {
    spec fn rows(&self) -> Seq<User>;

    spec fn wf(&self) -> bool;

    spec fn next_id(&self) -> u64;

    fn create_user(&mut self, input: &CreateUserRequest) -> (r: Result<
        ApiResponse<UserResponse>,
        AppError,
    >)
        requires
            old(self).wf(),
        ensures
            final(self).wf(),
            has_user_email(old(self).rows(), input.email@) ==> r == Err::<
                ApiResponse<UserResponse>,
                AppError,
            >(AppError::EmailAlreadyExists) && final(self).rows() == old(self).rows() && final(self).next_id() == old(self).next_id(),
            !has_user_email(old(self).rows(), input.email@) && old(self).next_id() == u64::MAX ==> (
            r matches Err(e) && e matches AppError::DbError(_) && final(self).rows() == old(self).rows() && final(self).next_id() == old(self).next_id()),
            !has_user_email(old(self).rows(), input.email@) && old(self).next_id() < u64::MAX ==> (
            r matches Ok(env) && final(self).next_id() == old(self).next_id() + 1 && final(self).rows().len() == old(self).rows().len() + 1 && final(self).rows().subrange(
                0,
                old(self).rows().len() as int,
            ) == old(self).rows() && user_matches_create(
                final(self).rows().last(),
                old(self).next_id(),
                *input,
            ) && env.status@ == "success"@ && env.data.id == old(self).next_id() && env.data.email@
                == input.email@ && env.data.firstname@ == input.firstname@ && env.data.lastname@
                == input.lastname@),
    ;

    fn find_by_email_exists(&self, email: &String) -> (r: Result<ApiResponse<bool>, AppError>)
        ensures
            r matches Ok(env) && env.status@ == "success"@ && env.data == has_user_email(
                self.rows(),
                email@,
            ),
    ;

    fn find_user_by_email(&self, email: &String) -> (r: Result<
        Option<ApiResponse<UserResponse>>,
        AppError,
    >)
        requires
            self.wf(),
        ensures
            r is Ok,
            !has_user_email(self.rows(), email@) ==> (r matches Ok(o) && o is None),
            forall|i: int|
                0 <= i < self.rows().len() && #[trigger] self.rows()[i].email@ == email@ ==> (r
                    matches Ok(o) && o matches Some(env) && env.status@ == "success"@
                    && env.data.id == self.rows()[i].id && env.data.email@ == email@
                    && env.data.firstname@ == self.rows()[i].firstname@ && env.data.lastname@
                    == self.rows()[i].lastname@),
    ;

    fn find_by_id(&self, id: u64) -> (r: Result<Option<ApiResponse<UserResponse>>, AppError>)
        requires
            self.wf(),
        ensures
            r is Ok,
            !has_user_id(self.rows(), id) ==> (r matches Ok(o) && o is None),
            forall|i: int|
                0 <= i < self.rows().len() && #[trigger] self.rows()[i].id == id ==> (r matches Ok(o)
                    && o matches Some(env) && env.status@ == "success"@ && env.data.id == id
                    && env.data.email@ == self.rows()[i].email@ && env.data.firstname@
                    == self.rows()[i].firstname@ && env.data.lastname@
                    == self.rows()[i].lastname@),
    ;

    fn update_user(&mut self, input: &UpdateUserRequest) -> (r: Result<
        Option<ApiResponse<UserResponse>>,
        AppError,
    >)
        requires
            old(self).wf(),
        ensures
            final(self).wf(),
            final(self).next_id() == old(self).next_id(),
            input.id is None ==> (r matches Err(e) && e matches AppError::NotFound(m) && m@
                == "User not found"@ && final(self).rows() == old(self).rows()),
            (match (input.id, input.email) {
                (Some(id), Some(e)) => !has_user_id(old(self).rows(), id) && !has_user_email(
                    old(self).rows(),
                    e@,
                ),
                (Some(id), None) => !has_user_id(old(self).rows(), id),
                (None, _) => false,
            }) ==> (r matches Err(e) && e matches AppError::NotFound(m) && m@ == "User not found"@
                && final(self).rows() == old(self).rows()),
            (match (input.id, input.email) {
                (Some(id), Some(e)) => exists|i: int|
                    0 <= i < old(self).rows().len() && #[trigger] old(self).rows()[i].email@ == e@
                        && old(self).rows()[i].id != id,
                _ => false,
            }) ==> (r matches Err(e) && e matches AppError::EmailAlreadyExists && final(self).rows()
                == old(self).rows()),
            r matches Ok(o) ==> (o matches Some(env) && exists|i: int|
                0 <= i < old(self).rows().len() && #[trigger] old(self).rows()[i].id
                    == input.id->0 && final(self).rows().len() == old(self).rows().len() && (
                forall|j: int|
                    0 <= j < old(self).rows().len() && j != i ==> final(self).rows()[j] == old(self).rows()[j]) && user_updated(old(self).rows()[i], final(self).rows()[i], *input)
                    && env.status@ == "success"@ && env.data.id == input.id->0 && env.data.email@
                    == final(self).rows()[i].email@ && env.data.firstname@ == final(self).rows()[i].firstname@ && env.data.lastname@ == final(self).rows()[i].lastname@),
            (match (input.id, input.email) {
                (Some(id), Some(e)) => has_user_id(old(self).rows(), id) && (forall|i: int|
                    0 <= i < old(self).rows().len() && #[trigger] old(self).rows()[i].email@ == e@
                        ==> old(self).rows()[i].id == id),
                (Some(id), None) => has_user_id(old(self).rows(), id),
                _ => false,
            }) ==> r is Ok,
    ;

    fn delete_user(&mut self, email: &String) -> (r: Result<ApiResponse<()>, AppError>)
        requires
            old(self).wf(),
        ensures
            final(self).wf(),
            final(self).next_id() == old(self).next_id(),
            !has_user_email(old(self).rows(), email@) ==> (r matches Err(e) && e matches
                AppError::NotFound(m) && m@ == "User not found"@ && final(self).rows() == old(self).rows()),
            has_user_email(old(self).rows(), email@) ==> (r matches Ok(env) && env.status@
                == "success"@ && exists|i: int|
                0 <= i < old(self).rows().len() && #[trigger] old(self).rows()[i].email@ == email@
                    && final(self).rows() == old(self).rows().remove(i)),
    ;
}

/// Registration, login and token verification, orchestrating the hasher,
/// the token codec and an identity repository.
pub trait AuthServiceTrait: Sized {
    spec fn users(&self) -> Seq<User>;

    spec fn users_ok(&self) -> bool;

    /// The signing secret of the codec this service issues tokens with.
    spec fn key(&self) -> Seq<u8>;

    /// The fixed token time-to-live, in seconds.
    spec fn ttl(&self) -> u64;

    /// The id the underlying identity store will assign next; the store can
    /// assign no further id once this reaches its ceiling.
    spec fn users_next(&self) -> u64;

    /// Whether the underlying identity store can assign no further id.
    open spec fn users_full(&self) -> bool {
        self.users_next() == u64::MAX
    }

    /// Registration: reject a taken email; otherwise hash the password and
    /// persist the new identity, returning its public projection.
    fn register_user(&mut self, input: &RegisterRequest) -> (r: Result<
        ApiResponse<UserResponse>,
        AppError,
    >)
        requires
            old(self).users_ok(),
        ensures
            final(self).users_ok(),
            final(self).key() == old(self).key(),
            final(self).ttl() == old(self).ttl(),
            r is Ok ==> final(self).users_next() == old(self).users_next() + 1,
            r is Err ==> final(self).users_next() == old(self).users_next(),
            has_user_email(old(self).users(), input.email@) ==> r == Err::<
                ApiResponse<UserResponse>,
                AppError,
            >(AppError::EmailAlreadyExists) && final(self).users() == old(self).users(),
            !has_user_email(old(self).users(), input.email@) && old(self).users_full() ==> (
            r matches Err(e) && e matches AppError::DbError(_) && final(self).users() == old(self).users()),
            !has_user_email(old(self).users(), input.email@) && !old(self).users_full() ==> match r {
                Ok(resp) => final(self).users().len() == old(self).users().len() + 1 && final(self).users().subrange(0, old(self).users().len() as int) == old(self).users() && ({
                    let u = final(self).users().last();
                    u.email@ == input.email@ && u.firstname@ == input.firstname@ && u.lastname@
                        == input.lastname@ && bcrypt_verify_outcome(input.password@, u.password@)
                        == Some(true) && !has_user_id(old(self).users(), u.id) && resp.status@
                        == "success"@ && resp.data.id == u.id && resp.data.email@ == u.email@
                        && resp.data.firstname@ == u.firstname@ && resp.data.lastname@
                        == u.lastname@
                }),
                Err(e) => e == AppError::HashingError && final(self).users() == old(self).users(),
            },
    ;

    /// Login: find the identity by email, verify the password, and issue a
    /// session token for its id. A missing email and a wrong password are
    /// reported as the same `InvalidCredentials`, so that the failure does
    /// not reveal which emails are registered.
    fn login_user(&self, input: &LoginRequest, now: u64) -> (r: Result<
        ApiResponse<Vec<u8>>,
        AppError,
    >)
        requires
            self.users_ok(),
            now + self.ttl() <= u64::MAX,
        ensures
            !has_user_email(self.users(), input.email@) ==> r == Err::<
                ApiResponse<Vec<u8>>,
                AppError,
            >(AppError::InvalidCredentials),
            forall|i: int|
                0 <= i < self.users().len() && #[trigger] self.users()[i].email@ == input.email@
                    ==> match bcrypt_verify_outcome(input.password@, self.users()[i].password@) {
                    Some(true) => r matches Ok(resp) && resp.status@ == "success"@ && resp.data@
                        == spec_token(
                        self.key(),
                        self.users()[i].id,
                        now,
                        (now + self.ttl()) as u64,
                    ),
                    Some(false) => r == Err::<ApiResponse<Vec<u8>>, AppError>(
                        AppError::InvalidCredentials,
                    ),
                    None => r == Err::<ApiResponse<Vec<u8>>, AppError>(AppError::HashingError),
                },
    ;

    /// Pure delegation to the token codec.
    fn verify_token(&self, token: &[u8], now: u64) -> (r: Result<u64, AppError>)
        ensures
            r == crate::token::spec_verify(self.key(), token@, now),
    ;
}

} // verus!
