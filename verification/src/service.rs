//! The service layer: thin, verified orchestration per resource. Each
//! service owns its repository (constructor-injected) and translates store
//! results into response envelopes, with one error-mapping rule: absence on
//! a read path is an `Ok(None)`, absence on a write path is a `NotFound`.
//! The auth service additionally orchestrates the hasher and token codec.

use vstd::prelude::*;
use crate::abstract_trait::{
    category_store_inv, comment_store_inv, comment_updated, has_comment_id, has_post_id,
    matching_comments, post_matches_create, post_store_inv, post_updated, relation_row_matches,
    user_store_inv, AuthServiceTrait, CategoryRepositoryTrait, CategoryServiceTrait,
    CommentRepositoryTrait, PostsRepositoryTrait, UserRepositoryTrait, UserServiceTrait,
};
use crate::domain::{
    CategoryResponse, Comment, CommentResponse, CreateCategoryRequest, CreateCommentRequest,
    CreatePostRequest, CreateUserRequest, LoginRequest, Post, PostRelationResponse, PostResponse,
    RegisterRequest, UpdateCategoryRequest, UpdateCommentRequest, UpdatePostRequest,
    UpdateUserRequest, UserResponse,
};
use crate::error::AppError;
use crate::hashing::Hashing;
use crate::response::ApiResponse;
use crate::token::TokenCodec;

verus! {

// -------------------------------------------------------------------- categories
pub struct CategoryService<R> {
    repository: R,
}

impl<R: CategoryRepositoryTrait> CategoryService<R> {
    pub fn new(repository: R) -> (r: Self)
        ensures
            r.rows() == repository.rows(),
            r.wf() == category_store_inv(repository.rows(), repository.next_id()),
            r.next_id() == repository.next_id(),
    {
        CategoryService { repository }
    }
}

impl<R: CategoryRepositoryTrait> CategoryServiceTrait for CategoryService<R> {
    closed spec fn rows(&self) -> Seq<crate::domain::Category> {
        self.repository.rows()
    }

    closed spec fn wf(&self) -> bool {
        category_store_inv(self.repository.rows(), self.repository.next_id())
    }

    closed spec fn next_id(&self) -> u64 {
        self.repository.next_id()
    }

    #[verifier::loop_isolation(false)]
    fn get_categories(&self) -> (r: Result<Vec<ApiResponse<CategoryResponse>>, AppError>) {
        let rows = self.repository.find_all();
        let n = rows.len();
        let mut v: Vec<ApiResponse<CategoryResponse>> = Vec::new();
        let mut i: usize = 0;
        while i < n
            invariant
                n == rows@.len(),
                rows@ == self.rows(),
                0 <= i <= n,
                v@.len() == i,
                forall|t: int|
                    0 <= t < i ==> (#[trigger] v@[t]).status@ == "success"@ && v@[t].data.id
                        == rows@[t].id && v@[t].data.name@ == rows@[t].name@,
            decreases n - i,
        {
            let env = ApiResponse::success(
                "Categories retrieved successfully",
                CategoryResponse::of_category(&rows[i]),
            );
            v.push(env);
            i += 1;
        }
        Ok(v)
    }

    fn get_category(&self, id: u64) -> (r: Result<
        Option<ApiResponse<CategoryResponse>>,
        AppError,
    >) {
        match self.repository.find_by_id(id) {
            Some(c) => {
                let env = ApiResponse::success(
                    "Category retrieved successfully",
                    CategoryResponse::of_category(c),
                );
                proof {
                    assert forall|i: int|
                        0 <= i < self.rows().len() && #[trigger] self.rows()[i].id == id implies
                        self.rows()[i].name@ == env.data.name@ by {
                        let j = choose|j: int|
                            0 <= j < self.rows().len() && #[trigger] self.rows()[j] == *c && c.id
                                == id;
                        if i != j {
                            assert(self.rows()[i].id != self.rows()[j].id);
                        }
                    }
                }
                Ok(Some(env))
            },
            None => Ok(None),
        }
    }

    fn create_category(&mut self, input: &CreateCategoryRequest) -> (r: Result<
        ApiResponse<CategoryResponse>,
        AppError,
    >) {
        if self.repository.at_capacity() {
            return Err(AppError::DbError("identifier space exhausted".to_owned()));
        }
        let c = self.repository.create(input);
        Ok(ApiResponse::success("Category created successfully", CategoryResponse::of_category(&c)))
    }

    fn update_category(&mut self, input: &UpdateCategoryRequest) -> (r: Result<
        Option<ApiResponse<CategoryResponse>>,
        AppError,
    >) {
        match self.repository.update(input) {
            Some(c) => {
                let env = ApiResponse::success(
                    "Category updated successfully",
                    CategoryResponse::of_category(&c),
                );
                proof {
                    let j = choose|j: int|
                        0 <= j < old(self).rows().len() && #[trigger] old(self).rows()[j].id
                            == input.id && final(self).rows().len() == old(self).rows().len() && (
                        forall|k: int|
                            0 <= k < old(self).rows().len() && k != j ==> final(self).rows()[k]
                                == old(self).rows()[k]) && crate::abstract_trait::category_updated(
                            old(self).rows()[j],
                            final(self).rows()[j],
                            *input,
                        ) && c.id == final(self).rows()[j].id && c.name@ == final(self).rows()[j].name@;
                    assert forall|i: int|
                        0 <= i < old(self).rows().len() && #[trigger] old(self).rows()[i].id
                            == input.id implies i == j by {
                        if i != j {
                            assert(old(self).rows()[i].id != old(self).rows()[j].id);
                        }
                    }
                }
                Ok(Some(env))
            },
            None => Err(AppError::NotFound("Category not found".to_owned())),
        }
    }

    fn delete_category(&mut self, id: u64) -> (r: Result<ApiResponse<()>, AppError>) {
        if self.repository.delete(id) {
            Ok(ApiResponse::success("Category deleted successfully", ()))
        } else {
            Err(AppError::NotFound("Category not found".to_owned()))
        }
    }
}

// ----------------------------------------------------------------------- comments
pub struct CommentService<R> {
    repository: R,
}

impl<R: CommentRepositoryTrait> CommentService<R> {
    pub closed spec fn rows(&self) -> Seq<Comment> {
        self.repository.rows()
    }

    pub closed spec fn wf(&self) -> bool {
        comment_store_inv(self.repository.rows(), self.repository.next_id())
    }

    pub closed spec fn next_id(&self) -> u64 {
        self.repository.next_id()
    }

    pub fn new(repository: R) -> (r: Self)
        ensures
            r.rows() == repository.rows(),
            r.wf() == comment_store_inv(repository.rows(), repository.next_id()),
            r.next_id() == repository.next_id(),
    {
        CommentService { repository }
    }

    #[verifier::loop_isolation(false)]
    pub fn get_comments(&self) -> (r: Result<Vec<ApiResponse<CommentResponse>>, AppError>)
        requires
            self.wf(),
        ensures
            r matches Ok(v) && v@.len() == self.rows().len() && (forall|i: int|
                0 <= i < v@.len() ==> (#[trigger] v@[i]).status@ == "success"@ && v@[i].data.id
                    == self.rows()[i].id && v@[i].data.id_post_comment
                    == self.rows()[i].id_post_comment && v@[i].data.comment@
                    == self.rows()[i].comment@ && v@[i].data.user_name_comment@
                    == self.rows()[i].user_name_comment@),
    {
        let rows = self.repository.find_all();
        let n = rows.len();
        let mut v: Vec<ApiResponse<CommentResponse>> = Vec::new();
        let mut i: usize = 0;
        while i < n
            invariant
                n == rows@.len(),
                rows@ == self.rows(),
                0 <= i <= n,
                v@.len() == i,
                forall|t: int|
                    0 <= t < i ==> (#[trigger] v@[t]).status@ == "success"@ && v@[t].data.id
                        == rows@[t].id && v@[t].data.id_post_comment == rows@[t].id_post_comment
                        && v@[t].data.comment@ == rows@[t].comment@ && v@[t].data.user_name_comment@
                        == rows@[t].user_name_comment@,
            decreases n - i,
        {
            let env = ApiResponse::success(
                "Comments retrieved successfully",
                CommentResponse::of_comment(&rows[i]),
            );
            v.push(env);
            i += 1;
        }
        Ok(v)
    }

    pub fn get_comment(&self, id: u64) -> (r: Result<Option<ApiResponse<CommentResponse>>, AppError>)
        requires
            self.wf(),
        ensures
            r is Ok,
            !has_comment_id(self.rows(), id) ==> (r matches Ok(o) && o is None),
            forall|i: int|
                0 <= i < self.rows().len() && #[trigger] self.rows()[i].id == id ==> (r matches Ok(o)
                    && o matches Some(env) && env.status@ == "success"@ && env.data.id == id
                    && env.data.id_post_comment == self.rows()[i].id_post_comment
                    && env.data.comment@ == self.rows()[i].comment@),
    {
        match self.repository.find_by_id(id) {
            Some(c) => {
                let env = ApiResponse::success(
                    "Comment retrieved successfully",
                    CommentResponse::of_comment(c),
                );
                proof {
                    let j = choose|j: int|
                        0 <= j < self.rows().len() && #[trigger] self.rows()[j] == *c && c.id == id;
                    assert forall|i: int|
                        0 <= i < self.rows().len() && #[trigger] self.rows()[i].id == id implies i
                            == j by {
                        if i != j {
                            assert(self.rows()[i].id != self.rows()[j].id);
                        }
                    }
                }
                Ok(Some(env))
            },
            None => Ok(None),
        }
    }

    pub fn create_comment(&mut self, input: &CreateCommentRequest) -> (r: Result<
        ApiResponse<CommentResponse>,
        AppError,
    >)
        requires
            old(self).wf(),
        ensures
            final(self).wf(),
            old(self).next_id() == u64::MAX ==> (r matches Err(e) && e matches AppError::DbError(_)
                && final(self).rows() == old(self).rows() && final(self).next_id() == old(self).next_id()),
            old(self).next_id() < u64::MAX ==> (r matches Ok(env) && final(self).next_id() == old(self).next_id() + 1 && final(self).rows().len() == old(self).rows().len() + 1 && final(self).rows().subrange(0, old(self).rows().len() as int) == old(self).rows()
                && crate::abstract_trait::comment_matches_create(
                final(self).rows().last(),
                old(self).next_id(),
                *input,
            ) && env.status@ == "success"@ && env.data.id == old(self).next_id()
                && env.data.id_post_comment == input.id_post_comment && env.data.comment@
                == input.comment@),
    {
        if self.repository.at_capacity() {
            return Err(AppError::DbError("identifier space exhausted".to_owned()));
        }
        let c = self.repository.create(input);
        Ok(ApiResponse::success("Comment created successfully", CommentResponse::of_comment(&c)))
    }

    pub fn update_comment(&mut self, input: &UpdateCommentRequest) -> (r: Result<
        Option<ApiResponse<CommentResponse>>,
        AppError,
    >)
        requires
            old(self).wf(),
        ensures
            final(self).wf(),
            final(self).next_id() == old(self).next_id(),
            !has_comment_id(old(self).rows(), input.id) ==> (r matches Err(e) && e matches
                AppError::NotFound(m) && m@ == "Comment not found"@ && final(self).rows() == old(self).rows()),
            forall|i: int|
                0 <= i < old(self).rows().len() && #[trigger] old(self).rows()[i].id == input.id
                    ==> (r matches Ok(o) && o matches Some(env) && final(self).rows().len() == old(self).rows().len() && (forall|j: int|
                    0 <= j < old(self).rows().len() && j != i ==> final(self).rows()[j] == old(self).rows()[j]) && comment_updated(old(self).rows()[i], final(self).rows()[i], *input)
                    && env.status@ == "success"@ && env.data.id == input.id && env.data.comment@
                    == input.comment@),
    {
        match self.repository.update(input) {
            Some(c) => {
                let env = ApiResponse::success(
                    "Comment updated successfully",
                    CommentResponse::of_comment(&c),
                );
                proof {
                    let j = choose|j: int|
                        0 <= j < old(self).rows().len() && #[trigger] old(self).rows()[j].id
                            == input.id && final(self).rows().len() == old(self).rows().len() && (
                        forall|k: int|
                            0 <= k < old(self).rows().len() && k != j ==> final(self).rows()[k]
                                == old(self).rows()[k]) && comment_updated(
                            old(self).rows()[j],
                            final(self).rows()[j],
                            *input,
                        ) && c.id == final(self).rows()[j].id && c.comment@ == final(self).rows()[j].comment@;
                    assert forall|i: int|
                        0 <= i < old(self).rows().len() && #[trigger] old(self).rows()[i].id
                            == input.id implies i == j by {
                        if i != j {
                            assert(old(self).rows()[i].id != old(self).rows()[j].id);
                        }
                    }
                }
                Ok(Some(env))
            },
            None => Err(AppError::NotFound("Comment not found".to_owned())),
        }
    }

    pub fn delete_comment(&mut self, id: u64) -> (r: Result<ApiResponse<()>, AppError>)
        requires
            old(self).wf(),
        ensures
            final(self).wf(),
            final(self).next_id() == old(self).next_id(),
            !has_comment_id(old(self).rows(), id) ==> (r matches Err(e) && e matches
                AppError::NotFound(m) && m@ == "Comment not found"@ && final(self).rows() == old(self).rows()),
            has_comment_id(old(self).rows(), id) ==> (r matches Ok(env) && env.status@
                == "success"@ && exists|i: int|
                0 <= i < old(self).rows().len() && #[trigger] old(self).rows()[i].id == id && final(self).rows() == old(self).rows().remove(i)),
    {
        if self.repository.delete(id) {
            Ok(ApiResponse::success("Comment deleted successfully", ()))
        } else {
            Err(AppError::NotFound("Comment not found".to_owned()))
        }
    }
}

// -------------------------------------------------------------------------- users
pub struct UserService<R> {
    repository: R,
}

impl<R: UserRepositoryTrait> UserService<R> {
    pub fn new(repository: R) -> (r: Self)
        ensures
            r.rows() == repository.rows(),
            r.wf() == user_store_inv(repository.rows(), repository.next_id()),
            r.next_id() == repository.next_id(),
    {
        UserService { repository }
    }
}

impl<R: UserRepositoryTrait> UserServiceTrait for UserService<R> {
    closed spec fn rows(&self) -> Seq<crate::domain::User> {
        self.repository.rows()
    }

    closed spec fn wf(&self) -> bool {
        user_store_inv(self.repository.rows(), self.repository.next_id())
    }

    closed spec fn next_id(&self) -> u64 {
        self.repository.next_id()
    }

    fn create_user(&mut self, input: &CreateUserRequest) -> (r: Result<
        ApiResponse<UserResponse>,
        AppError,
    >) {
        if self.repository.find_by_email_exists(&input.email) {
            return Err(AppError::EmailAlreadyExists);
        }
        if self.repository.at_capacity() {
            return Err(AppError::DbError("identifier space exhausted".to_owned()));
        }
        let created = self.repository.create_user(input);
        Ok(ApiResponse::success("User created successfully", UserResponse::of_user(&created)))
    }

    fn find_by_email_exists(&self, email: &String) -> (r: Result<ApiResponse<bool>, AppError>) {
        let exists = self.repository.find_by_email_exists(email);
        let message = if exists {
            "User exists"
        } else {
            "User does not exist"
        };
        Ok(ApiResponse::success(message, exists))
    }

    fn find_user_by_email(&self, email: &String) -> (r: Result<
        Option<ApiResponse<UserResponse>>,
        AppError,
    >) {
        match self.repository.find_by_email(email) {
            Some(u) => {
                let env = ApiResponse::success(
                    "User retrieved successfully",
                    UserResponse::of_user(u),
                );
                proof {
                    let j = choose|j: int|
                        0 <= j < self.rows().len() && #[trigger] self.rows()[j] == *u && u.email@
                            == email@;
                    assert forall|i: int|
                        0 <= i < self.rows().len() && #[trigger] self.rows()[i].email@ == email@
                            implies i == j by {
                        if i != j {
                            assert(self.rows()[i].email@ != self.rows()[j].email@);
                        }
                    }
                }
                Ok(Some(env))
            },
            None => Ok(None),
        }
    }

    fn find_by_id(&self, id: u64) -> (r: Result<Option<ApiResponse<UserResponse>>, AppError>) {
        match self.repository.find_by_id(id) {
            Some(u) => {
                let env = ApiResponse::success(
                    "User retrieved successfully",
                    UserResponse::of_user(u),
                );
                proof {
                    let j = choose|j: int|
                        0 <= j < self.rows().len() && #[trigger] self.rows()[j] == *u && u.id == id;
                    assert forall|i: int|
                        0 <= i < self.rows().len() && #[trigger] self.rows()[i].id == id implies i
                            == j by {
                        if i != j {
                            assert(self.rows()[i].id != self.rows()[j].id);
                        }
                    }
                }
                Ok(Some(env))
            },
            None => Ok(None),
        }
    }

    fn update_user(&mut self, input: &UpdateUserRequest) -> (r: Result<
        Option<ApiResponse<UserResponse>>,
        AppError,
    >) {
        let id = match input.id {
            Some(id) => id,
            None => {
                return Err(AppError::NotFound("User not found".to_owned()));
            },
        };
        if let Some(e) = &input.email {
            match self.repository.find_by_email(e) {
                Some(u) => {
                    if u.id != id {
                        return Err(AppError::EmailAlreadyExists);
                    }
                    proof {
                        let j = choose|j: int|
                            0 <= j < self.rows().len() && #[trigger] self.rows()[j] == *u
                                && u.email@ == e@;
                        assert forall|i: int|
                            0 <= i < self.rows().len() && #[trigger] self.rows()[i].id != id
                                implies self.rows()[i].email@ != e@ by {
                            if i != j && self.rows()[i].email@ == e@ {
                                assert(self.rows()[i].email@ != self.rows()[j].email@);
                            }
                        }
                    }
                },
                None => {},
            }
        }
        match self.repository.update_user(input) {
            Some(u) => {
                let env = ApiResponse::success(
                    "User updated successfully",
                    UserResponse::of_user(&u),
                );
                proof {
                    let j = choose|j: int|
                        0 <= j < old(self).rows().len() && #[trigger] old(self).rows()[j].id
                            == input.id->0 && final(self).rows().len() == old(self).rows().len()
                            && (forall|k: int|
                            0 <= k < old(self).rows().len() && k != j ==> final(self).rows()[k]
                                == old(self).rows()[k]) && crate::abstract_trait::user_updated(
                            old(self).rows()[j],
                            final(self).rows()[j],
                            *input,
                        ) && crate::abstract_trait::user_same_fields(u, final(self).rows()[j]);
                    assert(0 <= j < old(self).rows().len() && old(self).rows()[j].id == id);
                }
                Ok(Some(env))
            },
            None => Err(AppError::NotFound("User not found".to_owned())),
        }
    }

    fn delete_user(&mut self, email: &String) -> (r: Result<ApiResponse<()>, AppError>) {
        if self.repository.delete_user(email) {
            Ok(ApiResponse::success("User deleted successfully", ()))
        } else {
            Err(AppError::NotFound("User not found".to_owned()))
        }
    }
}

// -------------------------------------------------------------------------- posts
pub struct PostService<R> {
    repository: R,
}

impl<R: PostsRepositoryTrait> PostService<R> {
    pub closed spec fn posts(&self) -> Seq<Post> {
        self.repository.posts()
    }

    pub closed spec fn comments(&self) -> Seq<Comment> {
        self.repository.comments()
    }

    pub closed spec fn wf(&self) -> bool {
        post_store_inv(self.repository.posts(), self.repository.next_id())
    }

    pub closed spec fn next_id(&self) -> u64 {
        self.repository.next_id()
    }

    pub fn new(repository: R) -> (r: Self)
        ensures
            r.posts() == repository.posts(),
            r.comments() == repository.comments(),
            r.wf() == post_store_inv(repository.posts(), repository.next_id()),
            r.next_id() == repository.next_id(),
    {
        PostService { repository }
    }

    /// The whole post list, wrapped in a single envelope.
    #[verifier::loop_isolation(false)]
    pub fn get_all_posts(&self) -> (r: Result<ApiResponse<Vec<PostResponse>>, AppError>)
        ensures
            r matches Ok(env) && env.status@ == "success"@ && env.data@.len() == self.posts().len()
                && (forall|i: int|
                0 <= i < env.data@.len() ==> (#[trigger] env.data@[i]).id == self.posts()[i].id
                    && env.data@[i].title@ == self.posts()[i].title@ && env.data@[i].body@
                    == self.posts()[i].body@ && env.data@[i].category_id
                    == self.posts()[i].category_id && env.data@[i].user_id
                    == self.posts()[i].user_id),
    {
        let rows = self.repository.get_all_posts();
        let n = rows.len();
        let mut v: Vec<PostResponse> = Vec::new();
        let mut i: usize = 0;
        while i < n
            invariant
                n == rows@.len(),
                rows@ == self.posts(),
                0 <= i <= n,
                v@.len() == i,
                forall|t: int|
                    0 <= t < i ==> (#[trigger] v@[t]).id == rows@[t].id && v@[t].title@
                        == rows@[t].title@ && v@[t].body@ == rows@[t].body@ && v@[t].category_id
                        == rows@[t].category_id && v@[t].user_id == rows@[t].user_id,
            decreases n - i,
        {
            v.push(PostResponse::of_post(&rows[i]));
            i += 1;
        }
        Ok(ApiResponse::success("Posts fetched successfully", v))
    }

    pub fn get_post(&self, post_id: u64) -> (r: Result<Option<ApiResponse<PostResponse>>, AppError>)
        requires
            self.wf(),
        ensures
            r is Ok,
            !has_post_id(self.posts(), post_id) ==> (r matches Ok(o) && o is None),
            forall|i: int|
                0 <= i < self.posts().len() && #[trigger] self.posts()[i].id == post_id ==> (r
                    matches Ok(o) && o matches Some(env) && env.status@ == "success"@
                    && env.data.id == post_id && env.data.title@ == self.posts()[i].title@
                    && env.data.body@ == self.posts()[i].body@),
    {
        match self.repository.get_post(post_id) {
            Some(p) => {
                let env = ApiResponse::success("Post retrieved successfully", PostResponse::of_post(p));
                proof {
                    let j = choose|j: int|
                        0 <= j < self.posts().len() && #[trigger] self.posts()[j] == *p && p.id
                            == post_id;
                    assert forall|i: int|
                        0 <= i < self.posts().len() && #[trigger] self.posts()[i].id == post_id
                            implies i == j by {
                        if i != j {
                            assert(self.posts()[i].id != self.posts()[j].id);
                        }
                    }
                }
                Ok(Some(env))
            },
            None => Ok(None),
        }
    }

    /// The relation query: a post joined with its comments, one flattened
    /// row per pair; an unknown post or one without comments yields an
    /// empty list, never an error.
    pub fn get_post_relation(&self, post_id: u64) -> (r: Result<
        ApiResponse<Vec<PostRelationResponse>>,
        AppError,
    >)
        requires
            self.wf(),
        ensures
            r matches Ok(env) && env.status@ == "success"@,
            !has_post_id(self.posts(), post_id) ==> (r matches Ok(env) && env.data@.len() == 0),
            forall|i: int|
                0 <= i < self.posts().len() && #[trigger] self.posts()[i].id == post_id ==> (r
                    matches Ok(env) && env.data@.len() == matching_comments(
                    self.comments(),
                    post_id,
                ).len() && (forall|k: int|
                    0 <= k < env.data@.len() ==> relation_row_matches(
                        #[trigger] env.data@[k],
                        self.posts()[i],
                        matching_comments(self.comments(), post_id)[k],
                    ))),
    {
        let rows = self.repository.get_post_relation(post_id);
        Ok(ApiResponse::success("Post relation fetched successfully", rows))
    }

    pub fn create_post(&mut self, input: &CreatePostRequest) -> (r: Result<
        ApiResponse<PostResponse>,
        AppError,
    >)
        requires
            old(self).wf(),
        ensures
            final(self).wf(),
            final(self).comments() == old(self).comments(),
            old(self).next_id() == u64::MAX ==> (r matches Err(e) && e matches AppError::DbError(_)
                && final(self).posts() == old(self).posts() && final(self).next_id() == old(self).next_id()),
            old(self).next_id() < u64::MAX ==> (r matches Ok(env) && final(self).next_id() == old(self).next_id() + 1 && final(self).posts().len() == old(self).posts().len() + 1 && final(self).posts().subrange(0, old(self).posts().len() as int) == old(self).posts()
                && post_matches_create(final(self).posts().last(), old(self).next_id(), *input)
                && env.status@ == "success"@ && env.data.id == old(self).next_id()
                && env.data.title@ == input.title@ && env.data.body@ == input.body@),
    {
        if self.repository.at_capacity() {
            return Err(AppError::DbError("identifier space exhausted".to_owned()));
        }
        let p = self.repository.create_post(input);
        Ok(ApiResponse::success("Post created successfully", PostResponse::of_post(&p)))
    }

    pub fn update_post(&mut self, input: &UpdatePostRequest) -> (r: Result<
        Option<ApiResponse<PostResponse>>,
        AppError,
    >)
        requires
            old(self).wf(),
        ensures
            final(self).wf(),
            final(self).next_id() == old(self).next_id(),
            final(self).comments() == old(self).comments(),
            input.post_id is None ==> (r matches Err(e) && e matches AppError::NotFound(m) && m@
                == "Post not found"@ && final(self).posts() == old(self).posts()),
            (match input.post_id {
                Some(id) => !has_post_id(old(self).posts(), id),
                None => false,
            }) ==> (r matches Err(e) && e matches AppError::NotFound(m) && m@ == "Post not found"@
                && final(self).posts() == old(self).posts()),
            forall|i: int|
                0 <= i < old(self).posts().len() && #[trigger] old(self).posts()[i].id == (
                match input.post_id {
                    Some(id) => id as int,
                    None => -1,
                }) ==> (r matches Ok(o) && o matches Some(env) && final(self).posts().len() == old(self).posts().len() && (forall|j: int|
                    0 <= j < old(self).posts().len() && j != i ==> final(self).posts()[j] == old(self).posts()[j]) && post_updated(old(self).posts()[i], final(self).posts()[i], *input)
                    && env.status@ == "success"@ && env.data.id == old(self).posts()[i].id
                    && env.data.title@ == input.title@ && env.data.body@ == input.body@),
    {
        match self.repository.update_post(input) {
            Some(p) => {
                let env = ApiResponse::success("Post updated successfully", PostResponse::of_post(&p));
                proof {
                    let j = choose|j: int|
                        0 <= j < old(self).posts().len() && #[trigger] old(self).posts()[j].id
                            == input.post_id->0 && final(self).posts().len() == old(self).posts().len() && (forall|k: int|
                            0 <= k < old(self).posts().len() && k != j ==> final(self).posts()[k]
                                == old(self).posts()[k]) && post_updated(
                            old(self).posts()[j],
                            final(self).posts()[j],
                            *input,
                        ) && post_updated(old(self).posts()[j], p, *input);
                    assert forall|i: int|
                        0 <= i < old(self).posts().len() && #[trigger] old(self).posts()[i].id
                            == input.post_id->0 as int implies i == j by {
                        if i != j {
                            assert(old(self).posts()[i].id != old(self).posts()[j].id);
                        }
                    }
                }
                Ok(Some(env))
            },
            None => Err(AppError::NotFound("Post not found".to_owned())),
        }
    }

    pub fn delete_post(&mut self, post_id: u64) -> (r: Result<ApiResponse<()>, AppError>)
        requires
            old(self).wf(),
        ensures
            final(self).wf(),
            final(self).next_id() == old(self).next_id(),
            final(self).comments() == old(self).comments(),
            !has_post_id(old(self).posts(), post_id) ==> (r matches Err(e) && e matches
                AppError::NotFound(m) && m@ == "Post not found"@ && final(self).posts() == old(self).posts()),
            has_post_id(old(self).posts(), post_id) ==> (r matches Ok(env) && env.status@
                == "success"@ && exists|i: int|
                0 <= i < old(self).posts().len() && #[trigger] old(self).posts()[i].id == post_id
                    && final(self).posts() == old(self).posts().remove(i)),
    {
        if self.repository.delete_post(post_id) {
            Ok(ApiResponse::success("Post deleted successfully", ()))
        } else {
            Err(AppError::NotFound("Post not found".to_owned()))
        }
    }
}

// --------------------------------------------------------------------------- auth
/// Registration, login and token verification, built from an identity
/// repository, the credential hasher and the token codec.
pub struct AuthService<R> {
    repository: R,
    hashing: Hashing,
    token_codec: TokenCodec,
}

impl<R: UserRepositoryTrait> AuthService<R> {
    pub fn new(repository: R, hashing: Hashing, token_codec: TokenCodec) -> (r: Self)
        ensures
            r.users() == repository.rows(),
            r.users_ok() == user_store_inv(repository.rows(), repository.next_id()),
            r.users_next() == repository.next_id(),
            r.key() == token_codec.key(),
            r.ttl() == token_codec.ttl(),
    {
        AuthService { repository, hashing, token_codec }
    }
}

impl<R: UserRepositoryTrait> AuthServiceTrait for AuthService<R> {
    closed spec fn users(&self) -> Seq<crate::domain::User> {
        self.repository.rows()
    }

    closed spec fn users_ok(&self) -> bool {
        user_store_inv(self.repository.rows(), self.repository.next_id())
    }

    closed spec fn key(&self) -> Seq<u8> {
        self.token_codec.key()
    }

    closed spec fn ttl(&self) -> u64 {
        self.token_codec.ttl()
    }

    closed spec fn users_next(&self) -> u64 {
        self.repository.next_id()
    }

    fn register_user(&mut self, input: &RegisterRequest) -> (r: Result<
        ApiResponse<UserResponse>,
        AppError,
    >) {
        if self.repository.find_by_email_exists(&input.email) {
            return Err(AppError::EmailAlreadyExists);
        }
        if self.repository.at_capacity() {
            return Err(AppError::DbError("identifier space exhausted".to_owned()));
        }
        let hashed = match self.hashing.hash_password(input.password.as_str()) {
            Ok(h) => h,
            Err(e) => {
                return Err(e);
            },
        };
        let request = CreateUserRequest {
            firstname: input.firstname.clone(),
            lastname: input.lastname.clone(),
            email: input.email.clone(),
            password: hashed,
        };
        let created = self.repository.create_user(&request);
        Ok(ApiResponse::success("User registered successfully", UserResponse::of_user(&created)))
    }

    fn login_user(&self, input: &LoginRequest, now: u64) -> (r: Result<
        ApiResponse<Vec<u8>>,
        AppError,
    >) {
        let user = match self.repository.find_by_email(&input.email) {
            Some(u) => u,
            None => {
                return Err(AppError::InvalidCredentials);
            },
        };
        proof {
            let j = choose|j: int|
                0 <= j < self.users().len() && #[trigger] self.users()[j] == *user && user.email@
                    == input.email@;
            assert forall|i: int|
                0 <= i < self.users().len() && #[trigger] self.users()[i].email@ == input.email@
                    implies i == j by {
                if i != j {
                    assert(self.users()[i].email@ != self.users()[j].email@);
                }
            }
        }
        match self.hashing.compare_password(user.password.as_str(), input.password.as_str()) {
            Ok(true) => {
                let token = self.token_codec.generate_token(user.id, now);
                Ok(ApiResponse::success("Login successful", token))
            },
            Ok(false) => Err(AppError::InvalidCredentials),
            Err(e) => Err(e),
        }
    }

    fn verify_token(&self, token: &[u8], now: u64) -> (r: Result<u64, AppError>) {
        self.token_codec.verify_token(token, now)
    }
}

} // verus!
