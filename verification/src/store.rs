use vstd::prelude::*;

use crate::memory;
use crate::memory::task_map;
use crate::memory::unique_task_ids;
use crate::memory::unique_user_ids;
use crate::memory::user_map;
use crate::session::SessionManager as SessionContract;
use crate::Error;
use crate::Task;
use crate::TaskRepo as TaskStore;
use crate::TaskView;
use crate::User;
use crate::UserRepo as UserStore;
use crate::UserView;

verus! {

/// A user as it is written to a persisted store: plain strings, the hash
/// kept as its stored text.
#[derive(Debug, Clone)]
pub struct UserRecord {
    pub id: String,
    pub email: String,
    pub password: String,
}

impl View for UserRecord {
    type V = UserView;

    open spec fn view(&self) -> UserView {
        UserView { id: self.id@, email: self.email@, password: self.password@ }
    }
}

/// A task as it is written to a persisted store.
#[derive(Debug, Clone)]
pub struct TaskRecord {
    pub id: String,
    pub user_id: String,
    pub name: String,
    pub completed: bool,
}

impl View for TaskRecord {
    type V = TaskView;

    open spec fn view(&self) -> TaskView {
        TaskView {
            id: self.id@,
            user_id: self.user_id@,
            name: self.name@,
            completed: self.completed,
        }
    }
}

/// Everything a persisted store holds: user records, task records and the
/// session slot, where an empty string means "nobody is authenticated".
#[derive(Debug, Clone)]
pub struct StoreRecords {
    pub users: Vec<UserRecord>,
    pub tasks: Vec<TaskRecord>,
    pub authenticated_user_id: String,
}

/// The views of a sequence of user records.
pub open spec fn user_record_views(s: Seq<UserRecord>) -> Seq<UserView> {
    s.map_values(|r: UserRecord| r@)
}

/// The views of a sequence of task records.
pub open spec fn task_record_views(s: Seq<TaskRecord>) -> Seq<TaskView> {
    s.map_values(|r: TaskRecord| r@)
}

/// A user record fit to load: non-empty id and email.
pub open spec fn user_record_valid(v: UserView) -> bool {
    v.id.len() > 0 && v.email.len() > 0
}

/// A task record fit to load: non-empty id, owner id and name.
pub open spec fn task_record_valid(v: TaskView) -> bool {
    v.id.len() > 0 && v.user_id.len() > 0 && v.name.len() > 0
}

/// Every user record carries a non-empty id and email.
pub open spec fn user_records_valid(s: Seq<UserView>) -> bool {
    forall|i: int| 0 <= i < s.len() ==> user_record_valid(#[trigger] s[i])
}

/// Every task record carries a non-empty id, owner id and name.
pub open spec fn task_records_valid(s: Seq<TaskView>) -> bool {
    forall|i: int| 0 <= i < s.len() ==> task_record_valid(#[trigger] s[i])
}

/// The validation error that loading this user record raises: the id is
/// checked before the email.
pub open spec fn user_record_error(v: UserView) -> Error {
    if v.id.len() == 0 {
        Error::EmptyId
    } else {
        Error::EmptyEmail
    }
}

/// The validation error that loading a task record raises: an empty id
/// outranks an empty owner id, which outranks an empty name.
pub open spec fn task_record_error(v: TaskView) -> Error {
    if v.id.len() == 0 {
        Error::EmptyId
    } else if v.user_id.len() == 0 {
        Error::EmptyUserId
    } else {
        Error::EmptyName
    }
}

/// The error from the first user record that does not load, if any.
pub open spec fn first_user_record_error(s: Seq<UserView>) -> Option<Error>
    decreases s.len(),
{
    if s.len() == 0 {
        None
    } else if !user_record_valid(s[0]) {
        Some(user_record_error(s[0]))
    } else {
        first_user_record_error(s.drop_first())
    }
}

/// The error from the first task record that does not load, if any.
pub open spec fn first_task_record_error(s: Seq<TaskView>) -> Option<Error>
    decreases s.len(),
{
    if s.len() == 0 {
        None
    } else if !task_record_valid(s[0]) {
        Some(task_record_error(s[0]))
    } else {
        first_task_record_error(s.drop_first())
    }
}

/// The error that loading these records raises, if any: user records are
/// checked before task records, each sequence in order.
pub open spec fn restore_error(r: &StoreRecords) -> Option<Error> {
    match first_user_record_error(user_record_views(r.users@)) {
        Some(e) => Some(e),
        None => first_task_record_error(task_record_views(r.tasks@)),
    }
}

proof fn lemma_first_user_record_error_at(s: Seq<UserView>, k: int)
    requires
        0 <= k < s.len(),
        forall|j: int| 0 <= j < k ==> user_record_valid(#[trigger] s[j]),
        !user_record_valid(s[k]),
    ensures
        first_user_record_error(s) == Some(user_record_error(s[k])),
    decreases k,
{
    if k > 0 {
        assert(user_record_valid(s[0]));
        assert forall|j: int| 0 <= j < k - 1 implies user_record_valid(
            #[trigger] s.drop_first()[j],
        ) by {
            assert(s.drop_first()[j] == s[j + 1]);
        }
        assert(s.drop_first()[k - 1] == s[k]);
        lemma_first_user_record_error_at(s.drop_first(), k - 1);
    }
}

proof fn lemma_first_task_record_error_at(s: Seq<TaskView>, k: int)
    requires
        0 <= k < s.len(),
        forall|j: int| 0 <= j < k ==> task_record_valid(#[trigger] s[j]),
        !task_record_valid(s[k]),
    ensures
        first_task_record_error(s) == Some(task_record_error(s[k])),
    decreases k,
{
    if k > 0 {
        assert(task_record_valid(s[0]));
        assert forall|j: int| 0 <= j < k - 1 implies task_record_valid(
            #[trigger] s.drop_first()[j],
        ) by {
            assert(s.drop_first()[j] == s[j + 1]);
        }
        assert(s.drop_first()[k - 1] == s[k]);
        lemma_first_task_record_error_at(s.drop_first(), k - 1);
    }
}

proof fn lemma_first_user_record_error_none(s: Seq<UserView>)
    requires
        user_records_valid(s),
    ensures
        first_user_record_error(s) is None,
    decreases s.len(),
{
    if s.len() > 0 {
        assert forall|j: int| 0 <= j < s.drop_first().len() implies user_record_valid(
            #[trigger] s.drop_first()[j],
        ) by {
            assert(s.drop_first()[j] == s[j + 1]);
        }
        lemma_first_user_record_error_none(s.drop_first());
    }
}

/// The session state that a stored session string denotes.
pub open spec fn session_of_record(s: Seq<char>) -> Option<Seq<char>> {
    if s.len() == 0 {
        None
    } else {
        Some(s)
    }
}

/// The records can be loaded back into a store.
pub open spec fn records_valid(r: &StoreRecords) -> bool {
    user_records_valid(user_record_views(r.users@)) && task_records_valid(
        task_record_views(r.tasks@),
    )
}

/// The records describe exactly this store's logical content.
pub open spec fn snapshot_describes(s: &Store, r: &StoreRecords) -> bool {
    &&& user_map(user_record_views(r.users@)) == s.users.users()
    &&& unique_user_ids(user_record_views(r.users@))
    &&& user_records_valid(user_record_views(r.users@))
    &&& task_map(task_record_views(r.tasks@)) == s.tasks.tasks()
    &&& unique_task_ids(task_record_views(r.tasks@))
    &&& task_records_valid(task_record_views(r.tasks@))
    &&& session_of_record(r.authenticated_user_id@) == s.session.authenticated()
}

/// The store holds exactly what the records describe: the users and tasks
/// they denote as maps, and the session state the session string denotes.
pub open spec fn restore_describes(r: &StoreRecords, s: &Store) -> bool {
    &&& s.users.users() == user_map(user_record_views(r.users@))
    &&& s.tasks.tasks() == task_map(task_record_views(r.tasks@))
    &&& s.session.authenticated() == session_of_record(r.authenticated_user_id@)
}

/// Two stores with the same logical content: same users, same tasks, same
/// session state.
pub open spec fn same_logical_store(a: &Store, b: &Store) -> bool {
    &&& a.users.users() == b.users.users()
    &&& a.tasks.tasks() == b.tasks.tasks()
    &&& a.session.authenticated() == b.session.authenticated()
}

/// The whole logical content of one storage context: the two repositories
/// and the session slot that a single persisted document backs.
pub struct Store {
    pub users: memory::UserRepo,
    pub tasks: memory::TaskRepo,
    pub session: memory::SessionManager,
}

impl Store {
    /// An empty store: no users, no tasks, nobody authenticated.
    pub fn new() -> (r: Self)
        ensures
            r.users.users() == Map::<Seq<char>, UserView>::empty(),
            r.tasks.tasks() == Map::<Seq<char>, TaskView>::empty(),
            r.session.authenticated() is None,
    {
        Store {
            users: memory::UserRepo::new(),
            tasks: memory::TaskRepo::new(),
            session: memory::SessionManager::new(),
        }
    }

    /// Writes the store out as records; what they describe is exactly this
    /// store's content, and they can always be loaded back.
    pub fn snapshot(&self) -> (r: StoreRecords)
        ensures
            snapshot_describes(self, &r),
    {
        let users = self.users.entries();
        let mut user_records: Vec<UserRecord> = Vec::new();
        let mut k: usize = 0;
        while k < users.len()
            invariant
                k <= users@.len(),
                user_record_views(user_records@) =~= memory::user_views(users@).subrange(
                    0,
                    k as int,
                ),
                user_records_valid(user_record_views(user_records@)),
            decreases users@.len() - k,
        {
            proof {
                assert(user_record_views(user_records@).len() == k as int);
            }
            let u = &users[k];
            let record = UserRecord {
                id: u.id().clone(),
                email: u.email().clone(),
                password: u.password().stored().clone(),
            };
            proof {
                assert(record@ == users@[k as int]@);
            }
            user_records.push(record);
            proof {
                assert forall|i: int|
                    0 <= i < user_record_views(user_records@).len() implies user_record_views(
                    user_records@,
                )[i] == memory::user_views(users@).subrange(0, k as int + 1)[i] by {
                    assert(user_record_views(user_records@)[i] == user_records@[i]@);
                    assert(0 <= i < k + 1);
                    assert(k + 1 <= users@.len());
                    assert(memory::user_views(users@).len() == users@.len());
                    assert(memory::user_views(users@).subrange(0, k as int + 1)[i]
                        == memory::user_views(users@)[i]);
                    assert(memory::user_views(users@)[i] == users@[i]@);
                }
                assert(user_record_views(user_records@) =~= memory::user_views(users@).subrange(
                    0,
                    k as int + 1,
                ));
            }
            k += 1;
        }
        proof {
            assert(memory::user_views(users@).subrange(0, users@.len() as int) =~= memory::user_views(
                users@,
            ));
        }
        let tasks = self.tasks.entries();
        let mut task_records: Vec<TaskRecord> = Vec::new();
        let mut j: usize = 0;
        while j < tasks.len()
            invariant
                j <= tasks@.len(),
                task_record_views(task_records@) =~= memory::task_views(tasks@).subrange(
                    0,
                    j as int,
                ),
                task_records_valid(task_record_views(task_records@)),
            decreases tasks@.len() - j,
        {
            proof {
                assert(task_record_views(task_records@).len() == j as int);
            }
            let t = &tasks[j];
            let record = TaskRecord {
                id: t.id().clone(),
                user_id: t.user_id().clone(),
                name: t.name().clone(),
                completed: t.is_completed(),
            };
            proof {
                assert(record@ == tasks@[j as int]@);
            }
            task_records.push(record);
            proof {
                assert forall|i: int|
                    0 <= i < task_record_views(task_records@).len() implies task_record_views(
                    task_records@,
                )[i] == memory::task_views(tasks@).subrange(0, j as int + 1)[i] by {
                    assert(task_record_views(task_records@)[i] == task_records@[i]@);
                    assert(0 <= i < j + 1);
                    assert(j + 1 <= tasks@.len());
                    assert(memory::task_views(tasks@).len() == tasks@.len());
                    assert(memory::task_views(tasks@).subrange(0, j as int + 1)[i]
                        == memory::task_views(tasks@)[i]);
                    assert(memory::task_views(tasks@)[i] == tasks@[i]@);
                }
                assert(task_record_views(task_records@) =~= memory::task_views(tasks@).subrange(
                    0,
                    j as int + 1,
                ));
            }
            j += 1;
        }
        proof {
            assert(memory::task_views(tasks@).subrange(0, tasks@.len() as int) =~= memory::task_views(
                tasks@,
            ));
        }
        let authenticated_user_id = match self.session.current_user_id() {
            Some(id) => id.clone(),
            None => String::new(),
        };
        StoreRecords { users: user_records, tasks: task_records, authenticated_user_id }
    }

    /// Loads records into a fresh store. Exactly the valid records load; the
    /// first record with an empty required field, user records checked
    /// before task records, is rejected with the matching validation error.
    pub fn restore(records: &StoreRecords) -> (r: Result<Self, Error>)
        ensures
            r matches Ok(s) ==> restore_describes(records, &s),
            r is Ok <==> records_valid(records),
            r matches Err(e) ==> restore_error(records) == Some(e),
    {
        let ghost user_recs = user_record_views(records.users@);
        let ghost task_recs = task_record_views(records.tasks@);
        let mut users = memory::UserRepo::new();
        let mut k: usize = 0;
        while k < records.users.len()
            invariant
                k <= records.users@.len(),
                user_recs == user_record_views(records.users@),
                users.users() == user_map(user_recs.subrange(0, k as int)),
                forall|i: int| 0 <= i < k ==> user_record_valid(#[trigger] user_recs[i]),
            decreases records.users@.len() - k,
        {
            let rec = &records.users[k];
            let password = crate::Hash::from_stored(rec.password.clone());
            let user = match User::new(rec.id.as_str(), rec.email.as_str(), &password) {
                Ok(u) => u,
                Err(e) => {
                    proof {
                        assert(rec@ == user_recs[k as int]);
                        assert(!user_record_valid(user_recs[k as int]));
                        lemma_first_user_record_error_at(user_recs, k as int);
                        assert(first_user_record_error(user_record_views(records.users@))
                            == Some(user_record_error(user_recs[k as int])));
                        assert(restore_error(records) == Some(
                            user_record_error(user_recs[k as int]),
                        ));
                        assert(e == user_record_error(user_recs[k as int]));
                    }
                    return Err(e);
                },
            };
            users.put_user(&user);
            proof {
                assert(user_recs.subrange(0, k as int + 1).drop_last() =~= user_recs.subrange(
                    0,
                    k as int,
                ));
                assert(user_recs.subrange(0, k as int + 1).last() == user_recs[k as int]);
                assert(user@ == user_recs[k as int]);
            }
            k += 1;
        }
        proof {
            assert(user_recs.subrange(0, records.users@.len() as int) =~= user_recs);
        }
        let mut tasks = memory::TaskRepo::new();
        let mut j: usize = 0;
        while j < records.tasks.len()
            invariant
                j <= records.tasks@.len(),
                user_recs == user_record_views(records.users@),
                task_recs == task_record_views(records.tasks@),
                tasks.tasks() == task_map(task_recs.subrange(0, j as int)),
                forall|i: int| 0 <= i < j ==> task_record_valid(#[trigger] task_recs[i]),
                user_records_valid(user_recs),
                users.users() == user_map(user_recs),
            decreases records.tasks@.len() - j,
        {
            let rec = &records.tasks[j];
            let mut task = match Task::new(
                rec.id.as_str(),
                rec.user_id.as_str(),
                rec.name.as_str(),
            ) {
                Ok(t) => t,
                Err(e) => {
                    proof {
                        assert(rec@ == task_recs[j as int]);
                        assert(!task_record_valid(task_recs[j as int]));
                        lemma_first_user_record_error_none(user_recs);
                        lemma_first_task_record_error_at(task_recs, j as int);
                        assert(first_user_record_error(user_record_views(records.users@))
                            is None);
                        assert(restore_error(records) == Some(
                            task_record_error(task_recs[j as int]),
                        ));
                        assert(e == task_record_error(task_recs[j as int]));
                    }
                    return Err(e);
                },
            };
            if rec.completed {
                task.complete();
            }
            tasks.put_task(&task);
            proof {
                assert(task_recs.subrange(0, j as int + 1).drop_last() =~= task_recs.subrange(
                    0,
                    j as int,
                ));
                assert(task_recs.subrange(0, j as int + 1).last() == task_recs[j as int]);
                assert(task@ == task_recs[j as int]);
            }
            j += 1;
        }
        proof {
            assert(task_recs.subrange(0, records.tasks@.len() as int) =~= task_recs);
        }
        let mut session = memory::SessionManager::new();
        if !records.authenticated_user_id.as_str().is_empty() {
            session.set_user_id(records.authenticated_user_id.as_str());
        }
        Ok(Store { users, tasks, session })
    }
}

/// The records a snapshot produces always load back.
pub proof fn lemma_snapshot_loads(s: &Store, r: &StoreRecords)
    requires
        snapshot_describes(s, r),
    ensures
        records_valid(r),
{
}

/// Writing a store out and loading the result back loses nothing: any store
/// loaded from a snapshot's records holds the same users, the same tasks and
/// the same session state as the store the snapshot was taken of.
pub proof fn lemma_store_round_trip(s: &Store, r: &StoreRecords, loaded: &Store)
    requires
        snapshot_describes(s, r),
        restore_describes(r, loaded),
    ensures
        same_logical_store(s, loaded),
{
}

} // verus!
