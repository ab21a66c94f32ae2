pub mod memory;
pub mod random;
pub mod session;
pub mod store;
pub mod usecase;

use vstd::prelude::*;

verus! {

/// Every way an operation of this library can fail: validation of entity
/// fields, a task lookup that found nothing, and failures of the storage or
/// password-hashing collaborators.
#[derive(Clone, Copy, Debug, PartialEq, Eq, Structural)]
pub enum Error {
    EmptyId,
    EmptyEmail,
    EmptyPassword,
    EmptyUserId,
    EmptyName,
    NoSuchTask,
    Storage,
    Hashing,
}

fn verify_not_empty(s: &str) -> (r: Result<(), String>)
    ensures
        r is Ok <==> s@.len() > 0,
{
    if s.is_empty() {
        Err("empty".to_owned())
    } else {
        Ok(())
    }
}

/// Whether `bcrypt::verify(plain, hash)` succeeds and reports a match; the
/// outcome is a function of the plaintext and the hash string alone.
pub uninterp spec fn bcrypt_accepts(plain: Seq<char>, hash: Seq<char>) -> bool;

#[verifier::external_type_specification]
#[verifier::external_body]
pub struct ExBcryptError(bcrypt::BcryptError);

/// Relies on bcrypt::hash: on success it returns a salted hash string that
/// bcrypt::verify accepts together with the hashed plaintext. The salt is
/// random, so nothing else is promised of the returned string.
#[verifier::external_body]
fn hash_password(plain: &str) -> (r: Result<String, bcrypt::BcryptError>)
    ensures
        r matches Ok(h) ==> bcrypt_accepts(plain@, h@),
{
    bcrypt::hash(plain, bcrypt::DEFAULT_COST)
}

/// Relies on bcrypt::verify: it parses the hash string, re-computes the hash
/// of the plaintext with the salt and cost found there, and compares; the
/// outcome depends on the two arguments alone, so a reported match is in
/// particular a successful call.
#[verifier::external_body]
fn check_password(plain: &str, hashed: &str) -> (r: Result<bool, bcrypt::BcryptError>)
    ensures
        r matches Ok(b) ==> b == bcrypt_accepts(plain@, hashed@),
        bcrypt_accepts(plain@, hashed@) ==> r is Ok,
{
    bcrypt::verify(plain, hashed)
}

/// A salted one-way digest of a plaintext password. The plaintext itself is
/// never stored; the wrapped string may also come from a persisted store.
#[derive(Debug)]
pub struct Hash(String);

impl View for Hash {
    type V = Seq<char>;

    closed spec fn view(&self) -> Seq<char> {
        self.0@
    }
}

impl Clone for Hash {
    fn clone(&self) -> (r: Self)
        ensures
            r == *self,
    {
        Hash(self.0.clone())
    }
}

impl PartialEq for Hash {
    fn eq(&self, other: &Self) -> (r: bool) {
        self.0 == other.0
    }
}

impl vstd::std_specs::cmp::PartialEqSpecImpl for Hash {
    open spec fn obeys_eq_spec() -> bool {
        true
    }

    open spec fn eq_spec(&self, other: &Self) -> bool {
        self@ == other@
    }
}

impl Hash {
    /// Hashes a non-empty plaintext. The result verifies against exactly the
    /// plaintexts that bcrypt accepts for the produced hash string.
    pub fn new(plain: &str) -> (r: Result<Self, Error>)
        ensures
            plain@.len() == 0 ==> r == Err::<Hash, Error>(Error::EmptyPassword),
            r matches Ok(h) ==> plain@.len() > 0 && bcrypt_accepts(plain@, h@),
            r matches Err(e) ==> e == Error::EmptyPassword || e == Error::Hashing,
            plain@.len() > 0 && r is Err ==> r == Err::<Hash, Error>(Error::Hashing),
    {
        if let Err(_) = Self::verify_plain_password(plain) {
            return Err(Error::EmptyPassword);
        }
        match hash_password(plain) {
            Ok(hashed) => Ok(Hash(hashed)),
            Err(_) => Err(Error::Hashing),
        }
    }

    /// Checks the plaintext against this hash: a plaintext the hash accepts
    /// always verifies; an error arises only when the hashing collaborator
    /// rejects the stored hash string.
    pub fn verify(&self, plain: &str) -> (r: Result<bool, Error>)
        ensures
            r matches Ok(b) ==> b == bcrypt_accepts(plain@, self@),
            bcrypt_accepts(plain@, self@) ==> r == Ok::<bool, Error>(true),
            r matches Err(e) ==> e == Error::Hashing,
    {
        match check_password(plain, self.0.as_str()) {
            Ok(valid) => Ok(valid),
            Err(_) => Err(Error::Hashing),
        }
    }

    /// The stored hash string, for building a persistent snapshot.
    pub(crate) fn stored(&self) -> (r: &String)
        ensures
            r@ == self@,
    {
        &self.0
    }

    /// Wraps a hash string loaded from a persistent snapshot.
    pub(crate) fn from_stored(hash: String) -> (r: Self)
        ensures
            r@ == hash@,
    {
        Hash(hash)
    }

    fn verify_plain_password(plain: &str) -> (r: Result<(), Error>)
        ensures
            r is Ok <==> plain@.len() > 0,
            r is Err ==> r == Err::<(), Error>(Error::EmptyPassword),
    {
        match verify_not_empty(plain) {
            Ok(_) => Ok(()),
            Err(_) => Err(Error::EmptyPassword),
        }
    }
}

impl From<String> for Hash {
    /// Wraps a hash string loaded from a persisted store.
    fn from(hash: String) -> (r: Self) {
        Hash(hash)
    }
}

impl vstd::std_specs::convert::FromSpecImpl<String> for Hash {
    closed spec fn obeys_from_spec() -> bool {
        true
    }

    closed spec fn from_spec(hash: String) -> Hash {
        Hash(hash)
    }
}

/// The mathematical content of a `User`.
pub ghost struct UserView {
    pub id: Seq<char>,
    pub email: Seq<char>,
    pub password: Seq<char>,
}

/// A registered account. Both `id` and `email` are always non-empty.
#[derive(Debug)]
pub struct User {
    id: String,
    email: String,
    password: Hash,
}

impl View for User {
    type V = UserView;

    closed spec fn view(&self) -> UserView {
        UserView { id: self.id@, email: self.email@, password: self.password@ }
    }
}

impl Clone for User {
    fn clone(&self) -> (r: Self)
        ensures
            r == *self,
    {
        proof {
            use_type_invariant(&*self);
        }
        User { id: self.id.clone(), email: self.email.clone(), password: self.password.clone() }
    }
}

impl PartialEq for User {
    fn eq(&self, other: &Self) -> (r: bool) {
        self.id == other.id && self.email == other.email && self.password == other.password
    }
}

impl vstd::std_specs::cmp::PartialEqSpecImpl for User {
    open spec fn obeys_eq_spec() -> bool {
        true
    }

    open spec fn eq_spec(&self, other: &Self) -> bool {
        self@ == other@
    }
}

impl User {
    #[verifier::type_invariant]
    spec fn type_inv(&self) -> bool {
        self.id@.len() > 0 && self.email@.len() > 0
    }

    /// Builds a user from an id, an email and a password hash; both strings
    /// must be non-empty, and the error says which one was not.
    pub fn new(id: &str, email: &str, password: &Hash) -> (r: Result<Self, Error>)
        ensures
            r matches Ok(u) ==> u@ == (UserView { id: id@, email: email@, password: password@ }),
            id@.len() == 0 ==> r == Err::<User, Error>(Error::EmptyId),
            id@.len() > 0 && email@.len() == 0 ==> r == Err::<User, Error>(Error::EmptyEmail),
            id@.len() > 0 && email@.len() > 0 ==> r is Ok,
    {
        if let Err(e) = Self::verify_id(id) {
            return Err(e);
        }
        if let Err(e) = Self::verify_email(email) {
            return Err(e);
        }
        Ok(User { id: id.to_owned(), email: email.to_owned(), password: password.clone() })
    }

    pub fn id(&self) -> (r: &String)
        ensures
            r@ == self@.id,
            r@.len() > 0,
    {
        proof {
            use_type_invariant(&*self);
        }
        &self.id
    }

    pub fn email(&self) -> (r: &String)
        ensures
            r@ == self@.email,
            r@.len() > 0,
    {
        proof {
            use_type_invariant(&*self);
        }
        &self.email
    }

    pub fn password(&self) -> (r: &Hash)
        ensures
            r@ == self@.password,
    {
        &self.password
    }

    fn verify_id(id: &str) -> (r: Result<(), Error>)
        ensures
            r is Ok <==> id@.len() > 0,
            r is Err ==> r == Err::<(), Error>(Error::EmptyId),
    {
        match verify_not_empty(id) {
            Ok(_) => Ok(()),
            Err(_) => Err(Error::EmptyId),
        }
    }

    fn verify_email(email: &str) -> (r: Result<(), Error>)
        ensures
            r is Ok <==> email@.len() > 0,
            r is Err ==> r == Err::<(), Error>(Error::EmptyEmail),
    {
        match verify_not_empty(email) {
            Ok(_) => Ok(()),
            Err(_) => Err(Error::EmptyEmail),
        }
    }
}

/// The mathematical content of a `Task`.
pub ghost struct TaskView {
    pub id: Seq<char>,
    pub user_id: Seq<char>,
    pub name: Seq<char>,
    pub completed: bool,
}

/// A task owned by one user. `id`, `user_id` and `name` are always non-empty;
/// a freshly created task is not completed.
#[derive(Debug)]
pub struct Task {
    id: String,
    user_id: String,
    name: String,
    completed: bool,
}

impl View for Task {
    type V = TaskView;

    closed spec fn view(&self) -> TaskView {
        TaskView {
            id: self.id@,
            user_id: self.user_id@,
            name: self.name@,
            completed: self.completed,
        }
    }
}

impl Clone for Task {
    fn clone(&self) -> (r: Self)
        ensures
            r == *self,
    {
        proof {
            use_type_invariant(&*self);
        }
        Task {
            id: self.id.clone(),
            user_id: self.user_id.clone(),
            name: self.name.clone(),
            completed: self.completed,
        }
    }
}

impl PartialEq for Task {
    fn eq(&self, other: &Self) -> (r: bool) {
        self.id == other.id && self.user_id == other.user_id && self.name == other.name
            && self.completed == other.completed
    }
}

impl vstd::std_specs::cmp::PartialEqSpecImpl for Task {
    open spec fn obeys_eq_spec() -> bool {
        true
    }

    open spec fn eq_spec(&self, other: &Self) -> bool {
        self@ == other@
    }
}

impl Task {
    #[verifier::type_invariant]
    spec fn type_inv(&self) -> bool {
        self.id@.len() > 0 && self.user_id@.len() > 0 && self.name@.len() > 0
    }

    /// Builds a task from an id, an owner id and a name; all three must be
    /// non-empty, and the error says which one was not. A new task starts out
    /// not completed.
    pub fn new(id: &str, user_id: &str, name: &str) -> (r: Result<Self, Error>)
        ensures
            r matches Ok(t) ==> t@ == (TaskView {
                id: id@,
                user_id: user_id@,
                name: name@,
                completed: false,
            }),
            id@.len() == 0 ==> r == Err::<Task, Error>(Error::EmptyId),
            id@.len() > 0 && user_id@.len() == 0 ==> r == Err::<Task, Error>(Error::EmptyUserId),
            id@.len() > 0 && user_id@.len() > 0 && name@.len() == 0 ==> r == Err::<Task, Error>(
                Error::EmptyName,
            ),
            id@.len() > 0 && user_id@.len() > 0 && name@.len() > 0 ==> r is Ok,
    {
        if let Err(e) = Self::verify_id(id) {
            return Err(e);
        }
        if let Err(e) = Self::verify_user_id(user_id) {
            return Err(e);
        }
        if let Err(e) = Self::verify_name(name) {
            return Err(e);
        }
        Ok(Task {
            id: id.to_owned(),
            user_id: user_id.to_owned(),
            name: name.to_owned(),
            completed: false,
        })
    }

    pub fn id(&self) -> (r: &String)
        ensures
            r@ == self@.id,
            r@.len() > 0,
    {
        proof {
            use_type_invariant(&*self);
        }
        &self.id
    }

    pub fn user_id(&self) -> (r: &String)
        ensures
            r@ == self@.user_id,
            r@.len() > 0,
    {
        proof {
            use_type_invariant(&*self);
        }
        &self.user_id
    }

    pub fn name(&self) -> (r: &String)
        ensures
            r@ == self@.name,
            r@.len() > 0,
    {
        proof {
            use_type_invariant(&*self);
        }
        &self.name
    }

    pub fn is_completed(&self) -> (r: bool)
        ensures
            r == self@.completed,
    {
        self.completed
    }

    /// Marks the task as done; every other field keeps its value.
    pub fn complete(&mut self)
        ensures
            final(self)@ == (TaskView { completed: true, ..old(self)@ }),
    {
        proof {
            use_type_invariant(&*self);
        }
        self.completed = true;
    }

    fn verify_id(id: &str) -> (r: Result<(), Error>)
        ensures
            r is Ok <==> id@.len() > 0,
            r is Err ==> r == Err::<(), Error>(Error::EmptyId),
    {
        match verify_not_empty(id) {
            Ok(_) => Ok(()),
            Err(_) => Err(Error::EmptyId),
        }
    }

    fn verify_user_id(user_id: &str) -> (r: Result<(), Error>)
        ensures
            r is Ok <==> user_id@.len() > 0,
            r is Err ==> r == Err::<(), Error>(Error::EmptyUserId),
    {
        match verify_not_empty(user_id) {
            Ok(_) => Ok(()),
            Err(_) => Err(Error::EmptyUserId),
        }
    }

    fn verify_name(name: &str) -> (r: Result<(), Error>)
        ensures
            r is Ok <==> name@.len() > 0,
            r is Err ==> r == Err::<(), Error>(Error::EmptyName),
    {
        match verify_not_empty(name) {
            Ok(_) => Ok(()),
            Err(_) => Err(Error::EmptyName),
        }
    }
}

} // verus!

use vstd::prelude::*;

verus! {

/// Whether the task map holds a task with this id owned by this user.
pub open spec fn owned_task(m: Map<Seq<char>, TaskView>, id: Seq<char>, user_id: Seq<char>) -> bool {
    m.contains_key(id) && m[id].user_id == user_id
}

/// The task map with every task of this user removed.
pub open spec fn tasks_without_user(m: Map<Seq<char>, TaskView>, user_id: Seq<char>) -> Map<
    Seq<char>,
    TaskView,
> {
    Map::new(|id: Seq<char>| m.contains_key(id) && m[id].user_id != user_id, |id: Seq<char>| m[id])
}

/// The sequence `ts` lists exactly the tasks of `user_id` in the task map `m`,
/// without duplicates and in no particular order.
pub open spec fn tasks_of_user(
    m: Map<Seq<char>, TaskView>,
    user_id: Seq<char>,
    ts: Seq<TaskView>,
) -> bool {
    &&& forall|i: int|
        0 <= i < ts.len() ==> {
            &&& m.contains_key((#[trigger] ts[i]).id)
            &&& m[ts[i].id] == ts[i]
            &&& ts[i].user_id == user_id
        }
    &&& forall|id: Seq<char>|
        #[trigger] m.contains_key(id) && m[id].user_id == user_id ==> exists|i: int|
            0 <= i < ts.len() && (#[trigger] ts[i]).id == id
    &&& forall|i: int, j: int| 0 <= i < j < ts.len() ==> ts[i].id != ts[j].id
}

/// Storage contract for users: a persisted partial map from user id to user,
/// with upsert and idempotent delete. A "not found" lookup is a value, never
/// an error; only storage faults are errors.
pub trait UserRepo {
    /// The stored users, keyed by id.
    spec fn users(&self) -> Map<Seq<char>, UserView>;

    fn next_id(&self) -> (r: Result<String, Error>)
        ensures
            r matches Ok(id) ==> id@.len() > 0,
            r matches Err(e) ==> e == Error::Storage,
    ;

    fn find_by_email(&self, email: &str) -> (r: Result<Option<User>, Error>)
        ensures
            r matches Ok(Some(u)) ==> self.users().contains_key(u@.id) && self.users()[u@.id]
                == u@ && u@.email == email@,
            r matches Ok(None) ==> forall|id: Seq<char>|
                #[trigger] self.users().contains_key(id) ==> self.users()[id].email != email@,
            r matches Err(e) ==> e == Error::Storage,
    ;

    fn save(&mut self, user: &User) -> (r: Result<(), Error>)
        ensures
            r is Ok ==> final(self).users() == old(self).users().insert(user@.id, user@),
            r matches Err(e) ==> e == Error::Storage,
    ;

    fn delete(&mut self, id: &str) -> (r: Result<(), Error>)
        ensures
            r is Ok ==> final(self).users() == old(self).users().remove(id@),
            r matches Err(e) ==> e == Error::Storage,
    ;
}

/// Storage contract for tasks: a persisted partial map from task id to task.
/// Lookups are scoped to an owner; `find_of_user` returns nothing for a task
/// id that belongs to another user.
pub trait TaskRepo {
    /// The stored tasks, keyed by id.
    spec fn tasks(&self) -> Map<Seq<char>, TaskView>;

    fn next_id(&self) -> (r: Result<String, Error>)
        ensures
            r matches Ok(id) ==> id@.len() > 0,
            r matches Err(e) ==> e == Error::Storage,
    ;

    fn get(&self, user_id: &str) -> (r: Result<Vec<Task>, Error>)
        ensures
            r matches Ok(ts) ==> tasks_of_user(
                self.tasks(),
                user_id@,
                ts@.map_values(|t: Task| t@),
            ),
            r matches Err(e) ==> e == Error::Storage,
    ;

    fn find_of_user(&self, id: &str, user_id: &str) -> (r: Result<Option<Task>, Error>)
        ensures
            r matches Ok(Some(t)) ==> self.tasks().contains_key(id@) && self.tasks()[id@] == t@
                && t@.id == id@ && t@.user_id == user_id@,
            r matches Ok(None) ==> !owned_task(self.tasks(), id@, user_id@),
            r matches Err(e) ==> e == Error::Storage,
    ;

    fn save(&mut self, task: &Task) -> (r: Result<(), Error>)
        ensures
            r is Ok ==> final(self).tasks() == old(self).tasks().insert(task@.id, task@),
            r matches Err(e) ==> e == Error::Storage,
    ;

    fn delete(&mut self, id: &str) -> (r: Result<(), Error>)
        ensures
            r is Ok ==> final(self).tasks() == old(self).tasks().remove(id@),
            r matches Err(e) ==> e == Error::Storage,
    ;

    fn delete_of_user(&mut self, user_id: &str) -> (r: Result<(), Error>)
        ensures
            r is Ok ==> final(self).tasks() == tasks_without_user(old(self).tasks(), user_id@),
            r matches Err(e) ==> e == Error::Storage,
    ;
}

} // verus!
