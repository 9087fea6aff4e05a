//! Process-wide state: one instance of every service, constructed once at
//! startup around fresh in-memory stores, plus the shared token codec the
//! session guard verifies against. Immutable configuration (signing secret,
//! time-to-live, hashing cost) is fixed here and never recomputed.

use vstd::prelude::*;
use crate::abstract_trait::{
    category_store_inv, comment_store_inv, post_store_inv, user_store_inv, AuthServiceTrait,
    CategoryServiceTrait, UserServiceTrait,
};
use crate::hashing::Hashing;
use crate::repository::{CategoryRepository, CommentRepository, PostRepository, UserRepository};
use crate::service::{AuthService, CategoryService, CommentService, PostService, UserService};
use crate::token::TokenCodec;

verus! {

/// The one long-lived instance of each service, each owning its store.
pub struct DependenciesInject {
    pub auth_service: AuthService<UserRepository>,
    pub user_service: UserService<UserRepository>,
    pub category_service: CategoryService<CategoryRepository>,
    pub comment_service: CommentService<CommentRepository>,
    pub post_service: PostService<PostRepository>,
}

impl DependenciesInject {
    pub fn new(hashing: Hashing, token_codec: TokenCodec) -> (r: Self)
        ensures
            r.auth_service.users() == Seq::<crate::domain::User>::empty(),
            r.auth_service.users_ok(),
            r.auth_service.users_next() == 0,
            r.auth_service.key() == token_codec.key(),
            r.auth_service.ttl() == token_codec.ttl(),
            r.user_service.rows() == Seq::<crate::domain::User>::empty(),
            r.user_service.wf(),
            r.user_service.next_id() == 0,
            r.category_service.rows() == Seq::<crate::domain::Category>::empty(),
            r.category_service.wf(),
            r.category_service.next_id() == 0,
            r.comment_service.rows() == Seq::<crate::domain::Comment>::empty(),
            r.comment_service.wf(),
            r.comment_service.next_id() == 0,
            r.post_service.posts() == Seq::<crate::domain::Post>::empty(),
            r.post_service.comments() == Seq::<crate::domain::Comment>::empty(),
            r.post_service.wf(),
            r.post_service.next_id() == 0,
    {
        let auth_service = AuthService::new(UserRepository::new(), hashing, token_codec);
        let user_service = UserService::new(UserRepository::new());
        let category_service = CategoryService::new(CategoryRepository::new());
        let comment_service = CommentService::new(CommentRepository::new());
        let post_service = PostService::new(PostRepository::new());
        DependenciesInject {
            auth_service,
            user_service,
            category_service,
            comment_service,
            post_service,
        }
    }
}

/// Everything a running process shares across requests.
pub struct AppState {
    pub di_container: DependenciesInject,
    pub jwt_config: TokenCodec,
}

impl AppState {
    pub fn new(secret: Vec<u8>, ttl_seconds: u64, cost: u32) -> (r: Self)
        ensures
            r.jwt_config.key() == secret@,
            r.jwt_config.ttl() == ttl_seconds,
            r.di_container.auth_service.users() == Seq::<crate::domain::User>::empty(),
            r.di_container.auth_service.users_ok(),
            r.di_container.auth_service.users_next() == 0,
            r.di_container.auth_service.key() == secret@,
            r.di_container.auth_service.ttl() == ttl_seconds,
    {
        let jwt_config = TokenCodec::new(secret, ttl_seconds);
        let hashing = Hashing::with_cost(cost);
        let di_container = DependenciesInject::new(hashing, jwt_config.duplicate());
        AppState { di_container, jwt_config }
    }
}

} // verus!
