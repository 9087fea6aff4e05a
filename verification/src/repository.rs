//! Verified in-memory repositories: the reference implementations of the
//! capability-set contracts. Each store keeps its rows in insertion order
//! and assigns identifiers from a counter, so every stored id is below the
//! counter and ids never repeat.

use vstd::prelude::*;
use crate::abstract_trait::{
    matching_comments, relation_row_matches, CategoryRepositoryTrait, CommentRepositoryTrait,
    PostsRepositoryTrait, UserRepositoryTrait,
};
use crate::domain::{
    Category, Comment, CreateCategoryRequest, CreateCommentRequest, CreatePostRequest,
    CreateUserRequest, Post, PostRelationResponse, UpdateCategoryRequest, UpdateCommentRequest,
    UpdatePostRequest, UpdateUserRequest, User,
};

verus! {

/// In-memory identity store.
pub struct UserRepository {
    users: Vec<User>,
    next: u64,
}

impl UserRepository {
    pub fn new() -> (r: Self)
        ensures
            crate::abstract_trait::user_store_inv(r.rows(), r.next_id()),
            r.rows() == Seq::<User>::empty(),
            r.next_id() == 0,
    {
        UserRepository { users: Vec::new(), next: 0 }
    }
}

impl UserRepositoryTrait for UserRepository {
    closed spec fn rows(&self) -> Seq<User> {
        self.users@
    }

    closed spec fn next_id(&self) -> u64 {
        self.next
    }

    fn at_capacity(&self) -> (r: bool) {
        self.next == u64::MAX
    }

    #[verifier::loop_isolation(false)]
    fn find_by_email_exists(&self, email: &String) -> (r: bool) {
        let n = self.users.len();
        let mut i: usize = 0;
        while i < n
            invariant
                n == self.users@.len(),
                0 <= i <= n,
                forall|j: int| 0 <= j < i ==> #[trigger] self.users@[j].email@ != email@,
            decreases n - i,
        {
            if self.users[i].email == *email {
                proof {
                    assert(self.rows()[i as int].email@ == email@);
                }
                return true;
            }
            i += 1;
        }
        false
    }

    #[verifier::loop_isolation(false)]
    fn find_by_email(&self, email: &String) -> (r: Option<&User>) {
        let n = self.users.len();
        let mut i: usize = 0;
        while i < n
            invariant
                n == self.users@.len(),
                0 <= i <= n,
                forall|j: int| 0 <= j < i ==> #[trigger] self.users@[j].email@ != email@,
            decreases n - i,
        {
            if self.users[i].email == *email {
                proof {
                    assert(self.rows()[i as int].email@ == email@);
                }
                return Some(&self.users[i]);
            }
            i += 1;
        }
        None
    }

    #[verifier::loop_isolation(false)]
    fn find_by_id(&self, id: u64) -> (r: Option<&User>) {
        let n = self.users.len();
        let mut i: usize = 0;
        while i < n
            invariant
                n == self.users@.len(),
                0 <= i <= n,
                forall|j: int| 0 <= j < i ==> #[trigger] self.users@[j].id != id,
            decreases n - i,
        {
            if self.users[i].id == id {
                proof {
                    assert(self.rows()[i as int].id == id);
                }
                return Some(&self.users[i]);
            }
            i += 1;
        }
        None
    }

    fn create_user(&mut self, input: &CreateUserRequest) -> (r: User) {
        let id = self.next;
        let stored = User {
            id,
            firstname: input.firstname.clone(),
            lastname: input.lastname.clone(),
            email: input.email.clone(),
            password: input.password.clone(),
        };
        let returned = User {
            id,
            firstname: input.firstname.clone(),
            lastname: input.lastname.clone(),
            email: input.email.clone(),
            password: input.password.clone(),
        };
        self.users.push(stored);
        self.next = self.next + 1;
        proof {
            assert(self.users@.subrange(0, old(self).users@.len() as int) =~= old(self).users@);
            assert forall|i: int| 0 <= i < old(self).users@.len() implies #[trigger] old(self).users@[i].id != id by {}
        }
        returned
    }

    #[verifier::loop_isolation(false)]
    fn update_user(&mut self, input: &UpdateUserRequest) -> (r: Option<User>) {
        let id = match input.id {
            Some(id) => id,
            None => {
                return None;
            },
        };
        let n = self.users.len();
        let mut i: usize = 0;
        while i < n
            invariant
                n == self.users@.len(),
                0 <= i <= n,
                self.users@ == old(self).users@,
                self.next == old(self).next,
                input.id == Some(id),
                forall|j: int| 0 <= j < i ==> #[trigger] self.users@[j].id != id,
            decreases n - i,
        {
            if self.users[i].id == id {
                let updated = User {
                    id: self.users[i].id,
                    firstname: match &input.firstname {
                        Some(f) => f.clone(),
                        None => self.users[i].firstname.clone(),
                    },
                    lastname: match &input.lastname {
                        Some(l) => l.clone(),
                        None => self.users[i].lastname.clone(),
                    },
                    email: match &input.email {
                        Some(e) => e.clone(),
                        None => self.users[i].email.clone(),
                    },
                    password: match &input.password {
                        Some(p) => p.clone(),
                        None => self.users[i].password.clone(),
                    },
                };
                let returned = User {
                    id: updated.id,
                    firstname: updated.firstname.clone(),
                    lastname: updated.lastname.clone(),
                    email: updated.email.clone(),
                    password: updated.password.clone(),
                };
                let ghost up = updated;
                self.users.remove(i);
                self.users.insert(i, updated);
                proof {
                    let o = old(self).users@;
                    assert(self.users@ =~= o.update(i as int, up));
                    assert(o[i as int].id == id);
                    assert forall|a: int, b: int| 0 <= a < b < self.users@.len() implies
                        #[trigger] self.users@[a].id != #[trigger] self.users@[b].id
                            && self.users@[a].email@ != self.users@[b].email@ by {
                        assert(o[a].id != o[b].id && o[a].email@ != o[b].email@);
                        if a == i as int {
                            assert(o[b].id != id);
                            assert(self.users@[b] == o[b]);
                            if input.email is Some {
                                assert(o[b].email@ != input.email->0@);
                            }
                        } else if b == i as int {
                            assert(o[a].id != id);
                            assert(self.users@[a] == o[a]);
                            if input.email is Some {
                                assert(o[a].email@ != input.email->0@);
                            }
                        }
                    }
                    assert forall|a: int| 0 <= a < self.users@.len() implies
                        #[trigger] self.users@[a].id < self.next by {
                        if a != i as int {
                            assert(self.users@[a] == o[a]);
                        }
                    }
                }
                return Some(returned);
            }
            i += 1;
        }
        None
    }

    #[verifier::loop_isolation(false)]
    fn delete_user(&mut self, email: &String) -> (r: bool) {
        let n = self.users.len();
        let mut i: usize = 0;
        while i < n
            invariant
                n == self.users@.len(),
                0 <= i <= n,
                self.users@ == old(self).users@,
                self.next == old(self).next,
                forall|j: int| 0 <= j < i ==> #[trigger] self.users@[j].email@ != email@,
            decreases n - i,
        {
            if self.users[i].email == *email {
                proof {
                    assert(old(self).rows()[i as int].email@ == email@);
                }
                self.users.remove(i);
                proof {
                    let o = old(self).users@;
                    assert forall|a: int, b: int| 0 <= a < b < self.users@.len() implies
                        #[trigger] self.users@[a].id != #[trigger] self.users@[b].id
                            && self.users@[a].email@ != self.users@[b].email@ by {
                        let a2: int = if a < i as int { a } else { a + 1 };
                        let b2: int = if b < i as int { b } else { b + 1 };
                        assert(self.users@[a] == o[a2]);
                        assert(self.users@[b] == o[b2]);
                        assert(o[a2].id != o[b2].id && o[a2].email@ != o[b2].email@);
                    }
                    assert forall|a: int| 0 <= a < self.users@.len() implies
                        #[trigger] self.users@[a].id < self.next by {
                        let a2: int = if a < i as int { a } else { a + 1 };
                        assert(self.users@[a] == o[a2]);
                    }
                }
                return true;
            }
            i += 1;
        }
        false
    }
}

/// In-memory category store.
pub struct CategoryRepository {
    rows: Vec<Category>,
    next: u64,
}

impl CategoryRepository {
    pub fn new() -> (r: Self)
        ensures
            crate::abstract_trait::category_store_inv(r.rows(), r.next_id()),
            r.rows() == Seq::<Category>::empty(),
            r.next_id() == 0,
    {
        CategoryRepository { rows: Vec::new(), next: 0 }
    }
}

impl CategoryRepositoryTrait for CategoryRepository {
    closed spec fn rows(&self) -> Seq<Category> {
        self.rows@
    }

    closed spec fn next_id(&self) -> u64 {
        self.next
    }

    fn at_capacity(&self) -> (r: bool) {
        self.next == u64::MAX
    }

    fn find_all(&self) -> (r: &Vec<Category>) {
        &self.rows
    }

    #[verifier::loop_isolation(false)]
    fn find_by_id(&self, id: u64) -> (r: Option<&Category>) {
        let n = self.rows.len();
        let mut i: usize = 0;
        while i < n
            invariant
                n == self.rows@.len(),
                0 <= i <= n,
                forall|j: int| 0 <= j < i ==> #[trigger] self.rows@[j].id != id,
            decreases n - i,
        {
            if self.rows[i].id == id {
                proof {
                    assert(CategoryRepositoryTrait::rows(self)[i as int].id == id);
                }
                return Some(&self.rows[i]);
            }
            i += 1;
        }
        None
    }

    fn create(&mut self, input: &CreateCategoryRequest) -> (r: Category) {
        let id = self.next;
        let stored = Category { id, name: input.name.clone() };
        let returned = Category { id, name: stored.name.clone() };
        self.rows.push(stored);
        self.next = self.next + 1;
        proof {
            assert(self.rows@.subrange(0, old(self).rows@.len() as int) =~= old(self).rows@);
        }
        returned
    }

    #[verifier::loop_isolation(false)]
    fn update(&mut self, input: &UpdateCategoryRequest) -> (r: Option<Category>) {
        let n = self.rows.len();
        let mut i: usize = 0;
        while i < n
            invariant
                n == self.rows@.len(),
                0 <= i <= n,
                self.rows@ == old(self).rows@,
                self.next == old(self).next,
                forall|j: int| 0 <= j < i ==> #[trigger] self.rows@[j].id != input.id,
            decreases n - i,
        {
            if self.rows[i].id == input.id {
                let updated = Category {
                    id: self.rows[i].id,
                    name: match &input.name {
                        Some(nm) => nm.clone(),
                        None => self.rows[i].name.clone(),
                    },
                };
                let returned = Category { id: updated.id, name: updated.name.clone() };
                let ghost up = updated;
                self.rows.remove(i);
                self.rows.insert(i, updated);
                proof {
                    let o = old(self).rows@;
                    assert(self.rows@ =~= o.update(i as int, up));
                    assert(o[i as int].id == input.id);
                    assert(CategoryRepositoryTrait::rows(old(self))[i as int].id == input.id);
                    assert(CategoryRepositoryTrait::rows(self)[i as int].name@ == up.name@);
                    assert forall|a: int| 0 <= a < self.rows@.len() && a != i as int implies
                        self.rows@[a] == o[a] by {}
                }
                return Some(returned);
            }
            i += 1;
        }
        None
    }

    #[verifier::loop_isolation(false)]
    fn delete(&mut self, id: u64) -> (r: bool) {
        let n = self.rows.len();
        let mut i: usize = 0;
        while i < n
            invariant
                n == self.rows@.len(),
                0 <= i <= n,
                self.rows@ == old(self).rows@,
                self.next == old(self).next,
                forall|j: int| 0 <= j < i ==> #[trigger] self.rows@[j].id != id,
            decreases n - i,
        {
            if self.rows[i].id == id {
                proof {
                    assert(old(self).rows@[i as int].id == id);
                }
                self.rows.remove(i);
                proof {
                    let o = old(self).rows@;
                    assert forall|a: int| 0 <= a < self.rows@.len() implies
                        #[trigger] self.rows@[a].id < self.next && (forall|b: int|
                            a < b < self.rows@.len() ==> self.rows@[a].id != #[trigger] self.rows@[b].id) by {
                        let a2: int = if a < i as int { a } else { a + 1 };
                        assert(self.rows@[a] == o[a2]);
                        assert forall|b: int| a < b < self.rows@.len() implies
                            self.rows@[a].id != #[trigger] self.rows@[b].id by {
                            let b2: int = if b < i as int { b } else { b + 1 };
                            assert(self.rows@[b] == o[b2]);
                            assert(o[a2].id != o[b2].id);
                        }
                    }
                }
                return true;
            }
            i += 1;
        }
        false
    }
}

/// In-memory comment store.
pub struct CommentRepository {
    rows: Vec<Comment>,
    next: u64,
}

impl CommentRepository {
    pub fn new() -> (r: Self)
        ensures
            crate::abstract_trait::comment_store_inv(r.rows(), r.next_id()),
            r.rows() == Seq::<Comment>::empty(),
            r.next_id() == 0,
    {
        CommentRepository { rows: Vec::new(), next: 0 }
    }
}

impl CommentRepositoryTrait for CommentRepository {
    closed spec fn rows(&self) -> Seq<Comment> {
        self.rows@
    }

    closed spec fn next_id(&self) -> u64 {
        self.next
    }

    fn at_capacity(&self) -> (r: bool) {
        self.next == u64::MAX
    }

    fn find_all(&self) -> (r: &Vec<Comment>) {
        &self.rows
    }

    #[verifier::loop_isolation(false)]
    fn find_by_id(&self, id: u64) -> (r: Option<&Comment>) {
        let n = self.rows.len();
        let mut i: usize = 0;
        while i < n
            invariant
                n == self.rows@.len(),
                0 <= i <= n,
                forall|j: int| 0 <= j < i ==> #[trigger] self.rows@[j].id != id,
            decreases n - i,
        {
            if self.rows[i].id == id {
                proof {
                    assert(CommentRepositoryTrait::rows(self)[i as int].id == id);
                }
                return Some(&self.rows[i]);
            }
            i += 1;
        }
        None
    }

    fn create(&mut self, input: &CreateCommentRequest) -> (r: Comment) {
        let id = self.next;
        let stored = Comment {
            id,
            id_post_comment: input.id_post_comment,
            user_name_comment: input.user_name_comment.clone(),
            comment: input.comment.clone(),
        };
        let returned = Comment {
            id,
            id_post_comment: input.id_post_comment,
            user_name_comment: stored.user_name_comment.clone(),
            comment: stored.comment.clone(),
        };
        self.rows.push(stored);
        self.next = self.next + 1;
        proof {
            assert(self.rows@.subrange(0, old(self).rows@.len() as int) =~= old(self).rows@);
        }
        returned
    }

    #[verifier::loop_isolation(false)]
    fn update(&mut self, input: &UpdateCommentRequest) -> (r: Option<Comment>) {
        let n = self.rows.len();
        let mut i: usize = 0;
        while i < n
            invariant
                n == self.rows@.len(),
                0 <= i <= n,
                self.rows@ == old(self).rows@,
                self.next == old(self).next,
                forall|j: int| 0 <= j < i ==> #[trigger] self.rows@[j].id != input.id,
            decreases n - i,
        {
            if self.rows[i].id == input.id {
                let updated = Comment {
                    id: self.rows[i].id,
                    id_post_comment: self.rows[i].id_post_comment,
                    user_name_comment: input.user_name_comment.clone(),
                    comment: input.comment.clone(),
                };
                let returned = Comment {
                    id: updated.id,
                    id_post_comment: updated.id_post_comment,
                    user_name_comment: updated.user_name_comment.clone(),
                    comment: updated.comment.clone(),
                };
                let ghost up = updated;
                self.rows.remove(i);
                self.rows.insert(i, updated);
                proof {
                    let o = old(self).rows@;
                    assert(self.rows@ =~= o.update(i as int, up));
                    assert(CommentRepositoryTrait::rows(old(self))[i as int].id == input.id);
                    assert(CommentRepositoryTrait::rows(self)[i as int].comment@ == up.comment@);
                }
                return Some(returned);
            }
            i += 1;
        }
        None
    }

    #[verifier::loop_isolation(false)]
    fn delete(&mut self, id: u64) -> (r: bool) {
        let n = self.rows.len();
        let mut i: usize = 0;
        while i < n
            invariant
                n == self.rows@.len(),
                0 <= i <= n,
                self.rows@ == old(self).rows@,
                self.next == old(self).next,
                forall|j: int| 0 <= j < i ==> #[trigger] self.rows@[j].id != id,
            decreases n - i,
        {
            if self.rows[i].id == id {
                proof {
                    assert(old(self).rows@[i as int].id == id);
                }
                self.rows.remove(i);
                proof {
                    let o = old(self).rows@;
                    assert forall|a: int| 0 <= a < self.rows@.len() implies
                        #[trigger] self.rows@[a].id < self.next && (forall|b: int|
                            a < b < self.rows@.len() ==> self.rows@[a].id != #[trigger] self.rows@[b].id) by {
                        let a2: int = if a < i as int { a } else { a + 1 };
                        assert(self.rows@[a] == o[a2]);
                        assert forall|b: int| a < b < self.rows@.len() implies
                            self.rows@[a].id != #[trigger] self.rows@[b].id by {
                            let b2: int = if b < i as int { b } else { b + 1 };
                            assert(self.rows@[b] == o[b2]);
                            assert(o[a2].id != o[b2].id);
                        }
                    }
                }
                return true;
            }
            i += 1;
        }
        false
    }
}

/// In-memory post store, holding the posts table and, for the relation
/// query, its own view of the comments table.
pub struct PostRepository {
    posts: Vec<Post>,
    comments: Vec<Comment>,
    next: u64,
    next_comment: u64,
}

impl PostRepository {
    pub fn new() -> (r: Self)
        ensures
            crate::abstract_trait::post_store_inv(r.posts(), r.next_id()),
            r.posts() == Seq::<Post>::empty(),
            r.comments() == Seq::<Comment>::empty(),
            r.next_id() == 0,
    {
        PostRepository { posts: Vec::new(), comments: Vec::new(), next: 0, next_comment: 0 }
    }

    /// Attaches a comment row to this store's comments table, assigning it
    /// a fresh comment id; the anchor for the relation query.
    pub fn add_comment(&mut self, input: &CreateCommentRequest) -> (r: Comment)
        requires
            crate::abstract_trait::post_store_inv(old(self).posts(), old(self).next_id()),
            old(self).comment_next_id() < u64::MAX,
        ensures
            crate::abstract_trait::post_store_inv(final(self).posts(), final(self).next_id()),
            final(self).posts() == old(self).posts(),
            final(self).next_id() == old(self).next_id(),
            r.id == old(self).comment_next_id(),
            final(self).comment_next_id() == old(self).comment_next_id() + 1,
            final(self).comments().len() == old(self).comments().len() + 1,
            final(self).comments().subrange(0, old(self).comments().len() as int) == old(
                self,
            ).comments(),
            crate::abstract_trait::comment_matches_create(final(self).comments().last(), r.id, *input),
            crate::abstract_trait::comment_matches_create(r, r.id, *input),
    {
        let id = self.next_comment;
        let stored = Comment {
            id,
            id_post_comment: input.id_post_comment,
            user_name_comment: input.user_name_comment.clone(),
            comment: input.comment.clone(),
        };
        let returned = Comment {
            id,
            id_post_comment: input.id_post_comment,
            user_name_comment: stored.user_name_comment.clone(),
            comment: stored.comment.clone(),
        };
        self.comments.push(stored);
        self.next_comment = self.next_comment + 1;
        proof {
            assert(self.comments@.subrange(0, old(self).comments@.len() as int) =~= old(
                self,
            ).comments@);
        }
        returned
    }

    /// The id the next attached comment will get.
    pub closed spec fn comment_next_id(&self) -> u64 {
        self.next_comment
    }

    /// Whether the comment id space of this store is exhausted.
    pub fn comment_at_capacity(&self) -> (r: bool)
        ensures
            r == (self.comment_next_id() == u64::MAX),
    {
        self.next_comment == u64::MAX
    }
}

impl PostsRepositoryTrait for PostRepository {
    closed spec fn posts(&self) -> Seq<Post> {
        self.posts@
    }

    closed spec fn comments(&self) -> Seq<Comment> {
        self.comments@
    }

    closed spec fn next_id(&self) -> u64 {
        self.next
    }

    fn at_capacity(&self) -> (r: bool) {
        self.next == u64::MAX
    }

    fn get_all_posts(&self) -> (r: &Vec<Post>) {
        &self.posts
    }

    #[verifier::loop_isolation(false)]
    fn get_post(&self, post_id: u64) -> (r: Option<&Post>) {
        let n = self.posts.len();
        let mut i: usize = 0;
        while i < n
            invariant
                n == self.posts@.len(),
                0 <= i <= n,
                forall|j: int| 0 <= j < i ==> #[trigger] self.posts@[j].id != post_id,
            decreases n - i,
        {
            if self.posts[i].id == post_id {
                proof {
                    assert(PostsRepositoryTrait::posts(self)[i as int].id == post_id);
                }
                return Some(&self.posts[i]);
            }
            i += 1;
        }
        None
    }

    #[verifier::loop_isolation(false)]
    fn get_post_relation(&self, post_id: u64) -> (r: Vec<PostRelationResponse>) {
        let out: Vec<PostRelationResponse> = Vec::new();
        let n = self.posts.len();
        let mut pi: usize = 0;
        while pi < n
            invariant
                n == self.posts@.len(),
                0 <= pi <= n,
                out@.len() == 0,
                forall|j: int| 0 <= j < pi ==> #[trigger] self.posts@[j].id != post_id,
            decreases n - pi,
        {
            if self.posts[pi].id == post_id {
                let rows = self.relation_rows_for(pi, post_id, out);
                proof {
                    assert forall|j: int|
                        0 <= j < self.posts@.len() && #[trigger] self.posts@[j].id == post_id
                            implies j == pi as int by {
                        if j != pi as int {
                            assert(self.posts@[j].id != self.posts@[pi as int].id);
                        }
                    }
                }
                return rows;
            }
            pi += 1;
        }
        out
    }

    fn create_post(&mut self, input: &CreatePostRequest) -> (r: Post) {
        let id = self.next;
        let stored = Post {
            id,
            title: input.title.clone(),
            body: input.body.clone(),
            img: input.img.clone(),
            category_id: input.category_id,
            user_id: input.user_id,
            user_name: input.user_name.clone(),
        };
        let returned = Post {
            id,
            title: stored.title.clone(),
            body: stored.body.clone(),
            img: stored.img.clone(),
            category_id: input.category_id,
            user_id: input.user_id,
            user_name: stored.user_name.clone(),
        };
        self.posts.push(stored);
        self.next = self.next + 1;
        proof {
            assert(self.posts@.subrange(0, old(self).posts@.len() as int) =~= old(self).posts@);
        }
        returned
    }

    #[verifier::loop_isolation(false)]
    fn update_post(&mut self, input: &UpdatePostRequest) -> (r: Option<Post>) {
        let id = match input.post_id {
            Some(id) => id,
            None => {
                return None;
            },
        };
        let n = self.posts.len();
        let mut i: usize = 0;
        while i < n
            invariant
                n == self.posts@.len(),
                0 <= i <= n,
                self.posts@ == old(self).posts@,
                self.comments@ == old(self).comments@,
                self.next == old(self).next,
                self.next_comment == old(self).next_comment,
                input.post_id == Some(id),
                forall|j: int| 0 <= j < i ==> #[trigger] self.posts@[j].id != id,
            decreases n - i,
        {
            if self.posts[i].id == id {
                let updated = Post {
                    id: self.posts[i].id,
                    title: input.title.clone(),
                    body: input.body.clone(),
                    img: input.img.clone(),
                    category_id: input.category_id,
                    user_id: input.user_id,
                    user_name: input.user_name.clone(),
                };
                let returned = Post {
                    id: updated.id,
                    title: updated.title.clone(),
                    body: updated.body.clone(),
                    img: updated.img.clone(),
                    category_id: updated.category_id,
                    user_id: updated.user_id,
                    user_name: updated.user_name.clone(),
                };
                let ghost up = updated;
                self.posts.remove(i);
                self.posts.insert(i, updated);
                proof {
                    let o = old(self).posts@;
                    assert(self.posts@ =~= o.update(i as int, up));
                    assert(PostsRepositoryTrait::posts(old(self))[i as int].id == id);
                    assert(PostsRepositoryTrait::posts(self)[i as int].title@ == up.title@);
                }
                return Some(returned);
            }
            i += 1;
        }
        None
    }

    #[verifier::loop_isolation(false)]
    fn delete_post(&mut self, post_id: u64) -> (r: bool) {
        let n = self.posts.len();
        let mut i: usize = 0;
        while i < n
            invariant
                n == self.posts@.len(),
                0 <= i <= n,
                self.posts@ == old(self).posts@,
                self.comments@ == old(self).comments@,
                self.next == old(self).next,
                self.next_comment == old(self).next_comment,
                forall|j: int| 0 <= j < i ==> #[trigger] self.posts@[j].id != post_id,
            decreases n - i,
        {
            if self.posts[i].id == post_id {
                proof {
                    assert(old(self).posts@[i as int].id == post_id);
                }
                self.posts.remove(i);
                proof {
                    let o = old(self).posts@;
                    assert forall|a: int| 0 <= a < self.posts@.len() implies
                        #[trigger] self.posts@[a].id < self.next && (forall|b: int|
                            a < b < self.posts@.len() ==> self.posts@[a].id != #[trigger] self.posts@[b].id) by {
                        let a2: int = if a < i as int { a } else { a + 1 };
                        assert(self.posts@[a] == o[a2]);
                        assert forall|b: int| a < b < self.posts@.len() implies
                            self.posts@[a].id != #[trigger] self.posts@[b].id by {
                            let b2: int = if b < i as int { b } else { b + 1 };
                            assert(self.posts@[b] == o[b2]);
                            assert(o[a2].id != o[b2].id);
                        }
                    }
                }
                return true;
            }
            i += 1;
        }
        false
    }
}

impl PostRepository {
    /// Flattens the comments anchored to `post_id` against the post at
    /// index `pi`, one relation row per comment, in stored order.
    #[verifier::loop_isolation(false)]
    fn relation_rows_for(&self, pi: usize, post_id: u64, out: Vec<PostRelationResponse>) -> (r:
        Vec<PostRelationResponse>)
        requires
            0 <= pi < self.posts@.len(),
            self.posts@[pi as int].id == post_id,
            out@.len() == 0,
        ensures
            r@.len() == matching_comments(self.comments@, post_id).len(),
            forall|k: int|
                0 <= k < r@.len() ==> relation_row_matches(
                    #[trigger] r@[k],
                    self.posts@[pi as int],
                    matching_comments(self.comments@, post_id)[k],
                ),
    {
        let mut rows = out;
        let m = self.comments.len();
        let mut k: usize = 0;
        while k < m
            invariant
                m == self.comments@.len(),
                0 <= k <= m,
                rows@.len() == matching_comments(self.comments@.take(k as int), post_id).len(),
                forall|t: int|
                    0 <= t < rows@.len() ==> relation_row_matches(
                        #[trigger] rows@[t],
                        self.posts@[pi as int],
                        matching_comments(self.comments@.take(k as int), post_id)[t],
                    ),
            decreases m - k,
        {
            proof {
                assert(self.comments@.take(k as int + 1).drop_last() =~= self.comments@.take(
                    k as int,
                ));
            }
            if self.comments[k].id_post_comment == post_id {
                let row = PostRelationResponse::from_post_and_comment(
                    &self.posts[pi],
                    &self.comments[k],
                );
                rows.push(row);
            }
            k += 1;
        }
        proof {
            assert(self.comments@.take(m as int) =~= self.comments@);
        }
        rows
    }
}

} // verus!
