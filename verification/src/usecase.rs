use vstd::prelude::*;

use crate::bcrypt_accepts;
use crate::owned_task;
use crate::tasks_of_user;
use crate::tasks_without_user;
use crate::Error;
use crate::Task;
use crate::TaskRepo;
use crate::TaskView;
use crate::User;
use crate::UserRepo;
use crate::UserView;

verus! {

/// The view of an optional user, for stating results of lookups.
pub open spec fn user_option_view(found: Option<User>) -> Option<UserView> {
    match found {
        Some(u) => Some(u@),
        None => None,
    }
}

/// What a finished authentication attempt means against the stored users:
/// a match is a stored user with the given email whose hash accepts the
/// password; "no match" means either nobody has the email, or some stored
/// user has it and their hash rejects the password.
pub open spec fn authenticate_result(
    m: Map<Seq<char>, UserView>,
    email: Seq<char>,
    password: Seq<char>,
    found: Option<UserView>,
) -> bool {
    match found {
        Some(u) => m.contains_key(u.id) && m[u.id] == u && u.email == email && bcrypt_accepts(
            password,
            u.password,
        ),
        None => (forall|id: Seq<char>| #[trigger] m.contains_key(id) ==> m[id].email != email) || (
        exists|id: Seq<char>|
            #[trigger] m.contains_key(id) && m[id].email == email && !bcrypt_accepts(
                password,
                m[id].password,
            )),
    }
}

/// Registers a user: a fresh id, the password hashed, the entity validated
/// and saved.
pub struct CreateUser {}

impl CreateUser {
    pub fn new() -> (r: Self) {
        CreateUser {  }
    }

    pub fn invoke<R: UserRepo>(&mut self, repo: &mut R, email: &str, password: &str) -> (r: Result<
        User,
        Error,
    >)
        ensures
            r matches Ok(u) ==> {
                &&& u@.email == email@
                &&& u@.id.len() > 0
                &&& email@.len() > 0
                &&& password@.len() > 0
                &&& bcrypt_accepts(password@, u@.password)
                &&& final(repo).users() == old(repo).users().insert(u@.id, u@)
            },
            email@.len() == 0 ==> r is Err,
            password@.len() == 0 ==> r is Err,
            r matches Err(e) ==> {
                ||| e == Error::Storage
                ||| (e == Error::Hashing && password@.len() > 0)
                ||| (e == Error::EmptyPassword && password@.len() == 0)
                ||| (e == Error::EmptyEmail && email@.len() == 0)
            },
            r matches Err(e) ==> (e != Error::Storage ==> final(repo).users() == old(
                repo,
            ).users()),
    {
        let id = match repo.next_id() {
            Ok(id) => id,
            Err(e) => return Err(e),
        };
        let password_hash = match crate::Hash::new(password) {
            Ok(h) => h,
            Err(e) => return Err(e),
        };
        let user = match User::new(id.as_str(), email, &password_hash) {
            Ok(u) => u,
            Err(e) => return Err(e),
        };
        match repo.save(&user) {
            Ok(_) => Ok(user),
            Err(e) => Err(e),
        }
    }
}

/// Checks credentials: an unknown email or a rejected password is a "no
/// match" value, not an error.
pub struct AuthenticateUser {}

impl AuthenticateUser {
    pub fn new() -> (r: Self) {
        AuthenticateUser {  }
    }

    pub fn invoke<R: UserRepo>(&self, repo: &R, email: &str, password: &str) -> (r: Result<
        Option<User>,
        Error,
    >)
        ensures
            r matches Ok(found) ==> authenticate_result(
                repo.users(),
                email@,
                password@,
                user_option_view(found),
            ),
            r matches Err(e) ==> e == Error::Storage || e == Error::Hashing,
            r == Err::<Option<User>, Error>(Error::Hashing) ==> exists|id: Seq<char>|
                #[trigger] repo.users().contains_key(id) && repo.users()[id].email == email@
                    && !bcrypt_accepts(password@, repo.users()[id].password),
    {
        let found = match repo.find_by_email(email) {
            Ok(found) => found,
            Err(e) => return Err(e),
        };
        match found {
            Some(user) => {
                let accepted = match user.password().verify(password) {
                    Ok(accepted) => accepted,
                    Err(e) => return Err(e),
                };
                if accepted {
                    Ok(Some(user))
                } else {
                    proof {
                        assert(repo.users().contains_key(user@.id) && repo.users()[user@.id].email
                            == email@ && !bcrypt_accepts(
                            password@,
                            repo.users()[user@.id].password,
                        ));
                    }
                    Ok(None)
                }
            },
            None => Ok(None),
        }
    }
}

/// Removes an account: first every task the user owns, then the user record.
/// The two steps are best-effort sequential; if the second fails after the
/// first succeeded, the tasks stay deleted while the user record remains.
pub struct DeleteUser {}

impl DeleteUser {
    pub fn new() -> (r: Self) {
        DeleteUser {  }
    }

    pub fn invoke<U: UserRepo, T: TaskRepo>(
        &mut self,
        user_repo: &mut U,
        task_repo: &mut T,
        id: &str,
    ) -> (r: Result<(), Error>)
        ensures
            r is Ok ==> final(user_repo).users() == old(user_repo).users().remove(id@)
                && final(task_repo).tasks() == tasks_without_user(old(task_repo).tasks(), id@),
            r matches Err(e) ==> e == Error::Storage,
    {
        if let Err(e) = task_repo.delete_of_user(id) {
            return Err(e);
        }
        user_repo.delete(id)
    }
}

/// Lists every task owned by one user, in no particular order.
pub struct GetTasks {}

impl GetTasks {
    pub fn new() -> (r: Self) {
        GetTasks {  }
    }

    pub fn invoke<R: TaskRepo>(&self, repo: &R, user_id: &str) -> (r: Result<Vec<Task>, Error>)
        ensures
            r matches Ok(ts) ==> tasks_of_user(repo.tasks(), user_id@, ts@.map_values(|t: Task| t@)),
            r matches Err(e) ==> e == Error::Storage,
    {
        repo.get(user_id)
    }
}

/// Creates a task for a user: a fresh id, the entity validated and saved;
/// the new task starts not completed.
pub struct CreateTask {}

impl CreateTask {
    pub fn new() -> (r: Self) {
        CreateTask {  }
    }

    pub fn invoke<R: TaskRepo>(&mut self, repo: &mut R, user_id: &str, name: &str) -> (r: Result<
        Task,
        Error,
    >)
        ensures
            r matches Ok(t) ==> {
                &&& t@.user_id == user_id@
                &&& t@.name == name@
                &&& t@.completed == false
                &&& t@.id.len() > 0
                &&& final(repo).tasks() == old(repo).tasks().insert(t@.id, t@)
            },
            user_id@.len() == 0 ==> r is Err,
            name@.len() == 0 ==> r is Err,
            r matches Err(e) ==> {
                ||| e == Error::Storage
                ||| (e == Error::EmptyUserId && user_id@.len() == 0)
                ||| (e == Error::EmptyName && name@.len() == 0)
            },
            r matches Err(e) ==> (e != Error::Storage ==> final(repo).tasks() == old(
                repo,
            ).tasks()),
    {
        let id = match repo.next_id() {
            Ok(id) => id,
            Err(e) => return Err(e),
        };
        let task = match Task::new(id.as_str(), user_id, name) {
            Ok(t) => t,
            Err(e) => return Err(e),
        };
        match repo.save(&task) {
            Ok(_) => Ok(task),
            Err(e) => Err(e),
        }
    }
}

/// Marks a task as done, but only when it belongs to the calling user; a
/// foreign or unknown task id is reported as "no such task".
pub struct CompleteTask {}

impl CompleteTask {
    pub fn new() -> (r: Self) {
        CompleteTask {  }
    }

    pub fn invoke<R: TaskRepo>(&mut self, repo: &mut R, id: &str, user_id: &str) -> (r: Result<
        Task,
        Error,
    >)
        ensures
            r matches Ok(t) ==> {
                &&& owned_task(old(repo).tasks(), id@, user_id@)
                &&& t@ == (TaskView { completed: true, ..old(repo).tasks()[id@] })
                &&& final(repo).tasks() == old(repo).tasks().insert(id@, t@)
            },
            !owned_task(old(repo).tasks(), id@, user_id@) ==> !(r is Ok) && final(repo).tasks()
                == old(repo).tasks(),
            r == Err::<Task, Error>(Error::NoSuchTask) ==> !owned_task(
                old(repo).tasks(),
                id@,
                user_id@,
            ),
            r matches Err(e) ==> e == Error::NoSuchTask || e == Error::Storage,
    {
        let mut task = match repo.find_of_user(id, user_id) {
            Ok(Some(t)) => t,
            Ok(None) => return Err(Error::NoSuchTask),
            Err(e) => return Err(e),
        };
        task.complete();
        match repo.save(&task) {
            Ok(_) => Ok(task),
            Err(e) => Err(e),
        }
    }
}

/// Deletes a task by id, unconditionally: this layer does not check
/// ownership, so the caller must have verified that the requester is
/// authenticated before invoking it.
pub struct DeleteTask {}

impl DeleteTask {
    pub fn new() -> (r: Self) {
        DeleteTask {  }
    }

    pub fn invoke<R: TaskRepo>(&mut self, repo: &mut R, id: &str) -> (r: Result<(), Error>)
        ensures
            r is Ok ==> final(repo).tasks() == old(repo).tasks().remove(id@),
            r matches Err(e) ==> e == Error::Storage,
    {
        repo.delete(id)
    }
}

/// With correct credentials against a store where the created user is the
/// only one carrying the email, a finished authentication returns exactly
/// that user.
pub proof fn lemma_authenticate_finds_created_user(
    m: Map<Seq<char>, UserView>,
    u: UserView,
    email: Seq<char>,
    password: Seq<char>,
    found: Option<UserView>,
)
    requires
        m.contains_key(u.id),
        m[u.id] == u,
        u.email == email,
        bcrypt_accepts(password, u.password),
        forall|id: Seq<char>| #[trigger] m.contains_key(id) && m[id].email == email ==> m[id] == u,
        authenticate_result(m, email, password, found),
    ensures
        found == Some(u),
{
    match found {
        Some(v) => {
            assert(m[v.id] == u);
        },
        None => {
            assert(m.contains_key(u.id) && m[u.id].email == email);
            let id = choose|id: Seq<char>|
                #[trigger] m.contains_key(id) && m[id].email == email && !bcrypt_accepts(
                    password,
                    m[id].password,
                );
            assert(m[id] == u);
        },
    }
}

/// An email that no stored user carries never authenticates: the result is
/// "no match", not an error.
pub proof fn lemma_authenticate_unknown_email(
    m: Map<Seq<char>, UserView>,
    email: Seq<char>,
    password: Seq<char>,
    found: Option<UserView>,
)
    requires
        forall|id: Seq<char>| #[trigger] m.contains_key(id) ==> m[id].email != email,
        authenticate_result(m, email, password, found),
    ensures
        found is None,
{
    if let Some(v) = found {
        assert(m.contains_key(v.id));
    }
}

/// A password that every holder of the email rejects never authenticates:
/// the result is "no match", not an error.
pub proof fn lemma_authenticate_wrong_password(
    m: Map<Seq<char>, UserView>,
    email: Seq<char>,
    password: Seq<char>,
    found: Option<UserView>,
)
    requires
        forall|id: Seq<char>|
            #[trigger] m.contains_key(id) && m[id].email == email ==> !bcrypt_accepts(
                password,
                m[id].password,
            ),
        authenticate_result(m, email, password, found),
    ensures
        found is None,
{
    if let Some(v) = found {
        assert(m.contains_key(v.id));
    }
}

/// Deleting a user removes the user record — when the user was the only
/// holder of the email, no remaining user carries it — removes every task
/// the user owned, and leaves every other user's tasks untouched.
pub proof fn lemma_delete_user_cascade(
    users: Map<Seq<char>, UserView>,
    tasks: Map<Seq<char>, TaskView>,
    user_id: Seq<char>,
    email: Seq<char>,
)
    requires
        forall|id: Seq<char>|
            #[trigger] users.contains_key(id) && users[id].email == email ==> id == user_id,
    ensures
        !users.remove(user_id).contains_key(user_id),
        forall|id: Seq<char>|
            #[trigger] users.remove(user_id).contains_key(id) ==> users.remove(user_id)[id].email
                != email,
        forall|tid: Seq<char>|
            #[trigger] tasks_without_user(tasks, user_id).contains_key(tid)
                ==> tasks_without_user(tasks, user_id)[tid].user_id != user_id,
        forall|tid: Seq<char>|
            #[trigger] tasks.contains_key(tid) && tasks[tid].user_id != user_id
                ==> tasks_without_user(tasks, user_id).contains_key(tid) && tasks_without_user(
                tasks,
                user_id,
            )[tid] == tasks[tid],
{
}

/// After a user is deleted, a lookup by the deleted user's email — against
/// the contract of `find_by_email` — can only answer "nobody".
pub proof fn lemma_find_by_email_after_delete_user(
    users: Map<Seq<char>, UserView>,
    user_id: Seq<char>,
    email: Seq<char>,
    found: Option<UserView>,
)
    requires
        forall|id: Seq<char>|
            #[trigger] users.contains_key(id) && users[id].email == email ==> id == user_id,
        match found {
            Some(u) => users.remove(user_id).contains_key(u.id) && users.remove(user_id)[u.id]
                == u && u.email == email,
            None => true,
        },
    ensures
        found is None,
{
}

/// After a user is deleted, listing that user's tasks yields nothing.
pub proof fn lemma_get_tasks_after_delete_user(
    tasks: Map<Seq<char>, TaskView>,
    user_id: Seq<char>,
    ts: Seq<TaskView>,
)
    requires
        tasks_of_user(tasks_without_user(tasks, user_id), user_id, ts),
    ensures
        ts.len() == 0,
{
    if ts.len() > 0 {
        assert(tasks_without_user(tasks, user_id).contains_key(ts[0].id));
    }
}

/// Creating a task for a user who had none, then listing that user's tasks,
/// yields exactly the new task.
pub proof fn lemma_get_tasks_after_create(
    tasks: Map<Seq<char>, TaskView>,
    t: TaskView,
    ts: Seq<TaskView>,
)
    requires
        forall|tid: Seq<char>| #[trigger] tasks.contains_key(tid) ==> tasks[tid].user_id
            != t.user_id,
        tasks_of_user(tasks.insert(t.id, t), t.user_id, ts),
    ensures
        ts.len() == 1,
        ts[0] == t,
{
    let m = tasks.insert(t.id, t);
    assert(m.contains_key(t.id) && m[t.id].user_id == t.user_id);
    let i = choose|i: int| 0 <= i < ts.len() && (#[trigger] ts[i]).id == t.id;
    assert forall|j: int| 0 <= j < ts.len() implies (#[trigger] ts[j]).id == t.id by {
        assert(m.contains_key(ts[j].id) && m[ts[j].id] == ts[j] && ts[j].user_id == t.user_id);
        if ts[j].id != t.id {
            assert(tasks.contains_key(ts[j].id) && tasks[ts[j].id] == ts[j]);
        }
    }
    if ts.len() >= 2 {
        assert(ts[0].id == ts[1].id);
        assert(false);
    }
    assert(ts.len() == 1);
    assert(m.contains_key(ts[0].id) && m[ts[0].id] == ts[0]);
    assert(ts[0] == t);
}

/// After a task is deleted, listing its former owner's tasks no longer
/// includes it.
pub proof fn lemma_get_tasks_after_delete(
    tasks: Map<Seq<char>, TaskView>,
    id: Seq<char>,
    user_id: Seq<char>,
    ts: Seq<TaskView>,
)
    requires
        tasks_of_user(tasks.remove(id), user_id, ts),
    ensures
        forall|i: int| 0 <= i < ts.len() ==> (#[trigger] ts[i]).id != id,
{
    assert forall|i: int| 0 <= i < ts.len() implies (#[trigger] ts[i]).id != id by {
        assert(tasks.remove(id).contains_key(ts[i].id));
    }
}

} // verus!
