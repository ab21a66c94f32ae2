use vstd::prelude::*;

use crate::random::generate_string;
use crate::random::is_id_char;
use crate::session::SessionManager as SessionContract;
use crate::Error;
use crate::Task;
use crate::TaskRepo as TaskStore;
use crate::TaskView;
use crate::User;
use crate::UserRepo as UserStore;
use crate::UserView;

verus! {

/// The views of a sequence of stored users.
pub open spec fn user_views(s: Seq<User>) -> Seq<UserView> {
    s.map_values(|u: User| u@)
}

/// The views of a sequence of stored tasks.
pub open spec fn task_views(s: Seq<Task>) -> Seq<TaskView> {
    s.map_values(|t: Task| t@)
}

/// The map that a sequence of users denotes: each user keyed by its id, a
/// later entry overwriting an earlier one with the same id.
pub open spec fn user_map(s: Seq<UserView>) -> Map<Seq<char>, UserView>
    decreases s.len(),
{
    if s.len() == 0 {
        Map::empty()
    } else {
        user_map(s.drop_last()).insert(s.last().id, s.last())
    }
}

/// The map that a sequence of tasks denotes, keyed by task id.
pub open spec fn task_map(s: Seq<TaskView>) -> Map<Seq<char>, TaskView>
    decreases s.len(),
{
    if s.len() == 0 {
        Map::empty()
    } else {
        task_map(s.drop_last()).insert(s.last().id, s.last())
    }
}

/// No two users in the sequence share an id.
pub open spec fn unique_user_ids(s: Seq<UserView>) -> bool {
    forall|i: int, j: int| 0 <= i < j < s.len() ==> s[i].id != s[j].id
}

/// No two tasks in the sequence share an id.
pub open spec fn unique_task_ids(s: Seq<TaskView>) -> bool {
    forall|i: int, j: int| 0 <= i < j < s.len() ==> s[i].id != s[j].id
}

proof fn lemma_user_map_contains(s: Seq<UserView>, id: Seq<char>)
    ensures
        user_map(s).contains_key(id) <==> exists|k: int| 0 <= k < s.len() && (#[trigger] s[k]).id
            == id,
    decreases s.len(),
{
    if s.len() > 0 {
        lemma_user_map_contains(s.drop_last(), id);
        if user_map(s).contains_key(id) {
            if s.last().id == id {
                assert(s[s.len() - 1].id == id);
            } else {
                let k = choose|k: int|
                    0 <= k < s.drop_last().len() && (#[trigger] s.drop_last()[k]).id == id;
                assert(s[k].id == id);
            }
        }
        if exists|k: int| 0 <= k < s.len() && (#[trigger] s[k]).id == id {
            let k = choose|k: int| 0 <= k < s.len() && (#[trigger] s[k]).id == id;
            if k < s.len() - 1 {
                assert(s.drop_last()[k].id == id);
            }
        }
    }
}

proof fn lemma_task_map_contains(s: Seq<TaskView>, id: Seq<char>)
    ensures
        task_map(s).contains_key(id) <==> exists|k: int| 0 <= k < s.len() && (#[trigger] s[k]).id
            == id,
    decreases s.len(),
{
    if s.len() > 0 {
        lemma_task_map_contains(s.drop_last(), id);
        if task_map(s).contains_key(id) {
            if s.last().id == id {
                assert(s[s.len() - 1].id == id);
            } else {
                let k = choose|k: int|
                    0 <= k < s.drop_last().len() && (#[trigger] s.drop_last()[k]).id == id;
                assert(s[k].id == id);
            }
        }
        if exists|k: int| 0 <= k < s.len() && (#[trigger] s[k]).id == id {
            let k = choose|k: int| 0 <= k < s.len() && (#[trigger] s[k]).id == id;
            if k < s.len() - 1 {
                assert(s.drop_last()[k].id == id);
            }
        }
    }
}

proof fn lemma_user_map_index(s: Seq<UserView>, k: int)
    requires
        unique_user_ids(s),
        0 <= k < s.len(),
    ensures
        user_map(s).contains_key(s[k].id),
        user_map(s)[s[k].id] == s[k],
    decreases s.len(),
{
    if k < s.len() - 1 {
        assert(unique_user_ids(s.drop_last()));
        lemma_user_map_index(s.drop_last(), k);
        assert(s.drop_last()[k] == s[k]);
        assert(s.last().id != s[k].id);
    }
}

proof fn lemma_task_map_index(s: Seq<TaskView>, k: int)
    requires
        unique_task_ids(s),
        0 <= k < s.len(),
    ensures
        task_map(s).contains_key(s[k].id),
        task_map(s)[s[k].id] == s[k],
    decreases s.len(),
{
    if k < s.len() - 1 {
        assert(unique_task_ids(s.drop_last()));
        lemma_task_map_index(s.drop_last(), k);
        assert(s.drop_last()[k] == s[k]);
        assert(s.last().id != s[k].id);
    }
}

proof fn lemma_user_map_push(s: Seq<UserView>, v: UserView)
    ensures
        user_map(s.push(v)) == user_map(s).insert(v.id, v),
{
    assert(s.push(v).drop_last() =~= s);
    assert(s.push(v).last() == v);
}

proof fn lemma_task_map_push(s: Seq<TaskView>, v: TaskView)
    ensures
        task_map(s.push(v)) == task_map(s).insert(v.id, v),
{
    assert(s.push(v).drop_last() =~= s);
    assert(s.push(v).last() == v);
}

proof fn lemma_user_map_remove(s: Seq<UserView>, k: int)
    requires
        unique_user_ids(s),
        0 <= k < s.len(),
    ensures
        user_map(s.remove(k)) == user_map(s).remove(s[k].id),
    decreases s.len(),
{
    if k == s.len() - 1 {
        assert(s.remove(k) =~= s.drop_last());
        lemma_user_map_contains(s.drop_last(), s[k].id);
        assert(forall|j: int|
            0 <= j < s.drop_last().len() ==> (#[trigger] s.drop_last()[j]).id != s[k].id);
        assert(user_map(s.drop_last()) =~= user_map(s.drop_last()).insert(
            s.last().id,
            s.last(),
        ).remove(s[k].id));
    } else {
        assert(unique_user_ids(s.drop_last()));
        lemma_user_map_remove(s.drop_last(), k);
        assert(s.remove(k).drop_last() =~= s.drop_last().remove(k));
        assert(s.remove(k).last() == s.last());
        assert(s.last().id != s[k].id);
        assert(user_map(s.drop_last()).remove(s[k].id).insert(s.last().id, s.last())
            =~= user_map(s.drop_last()).insert(s.last().id, s.last()).remove(s[k].id));
    }
}

proof fn lemma_task_map_remove(s: Seq<TaskView>, k: int)
    requires
        unique_task_ids(s),
        0 <= k < s.len(),
    ensures
        task_map(s.remove(k)) == task_map(s).remove(s[k].id),
    decreases s.len(),
{
    if k == s.len() - 1 {
        assert(s.remove(k) =~= s.drop_last());
        lemma_task_map_contains(s.drop_last(), s[k].id);
        assert(forall|j: int|
            0 <= j < s.drop_last().len() ==> (#[trigger] s.drop_last()[j]).id != s[k].id);
        assert(task_map(s.drop_last()) =~= task_map(s.drop_last()).insert(
            s.last().id,
            s.last(),
        ).remove(s[k].id));
    } else {
        assert(unique_task_ids(s.drop_last()));
        lemma_task_map_remove(s.drop_last(), k);
        assert(s.remove(k).drop_last() =~= s.drop_last().remove(k));
        assert(s.remove(k).last() == s.last());
        assert(s.last().id != s[k].id);
        assert(task_map(s.drop_last()).remove(s[k].id).insert(s.last().id, s.last())
            =~= task_map(s.drop_last()).insert(s.last().id, s.last()).remove(s[k].id));
    }
}

/// An in-memory user store: a vector of users, no two of which share an id.
pub struct UserRepo {
    users: Vec<User>,
}

impl UserRepo {
    #[verifier::type_invariant]
    spec fn type_inv(&self) -> bool {
        unique_user_ids(user_views(self.users@))
    }

    pub fn new() -> (r: Self)
        ensures
            r.users() == Map::<Seq<char>, UserView>::empty(),
    {
        UserRepo { users: Vec::new() }
    }

    /// Stores the user, overwriting any record with the same id.
    pub(crate) fn put_user(&mut self, user: &User)
        ensures
            final(self).users() == old(self).users().insert(user@.id, user@),
    {
        proof {
            use_type_invariant(&*self);
        }
        let mut users: Vec<User> = Vec::new();
        core::mem::swap(&mut users, &mut self.users);
        let ghost s0 = user_views(users@);
        let ghost m0 = user_map(s0);
        let idx = find_user_index(&users, user.id());
        if idx < users.len() {
            users.remove(idx);
            proof {
                lemma_user_map_remove(s0, idx as int);
                assert(user_views(users@) =~= s0.remove(idx as int));
                lemma_user_map_contains(s0.remove(idx as int), user@.id);
                assert(forall|j: int|
                    0 <= j < s0.remove(idx as int).len() ==> (#[trigger] s0.remove(
                        idx as int,
                    )[j]) == (if j < idx {
                        s0[j]
                    } else {
                        s0[j + 1]
                    }));
                assert(unique_user_ids(s0.remove(idx as int)));
                assert(forall|j: int|
                    0 <= j < s0.remove(idx as int).len() ==> (#[trigger] s0.remove(idx as int)[j]).id
                        != user@.id);
            }
        } else {
            proof {
                lemma_user_map_contains(s0, user@.id);
            }
        }
        let ghost s1 = user_views(users@);
        proof {
            assert(!user_map(s1).contains_key(user@.id)) by {
                lemma_user_map_contains(s1, user@.id);
            }
        }
        users.push(user.clone());
        proof {
            assert(user_views(users@) =~= s1.push(user@));
            lemma_user_map_push(s1, user@);
            assert(unique_user_ids(s1.push(user@))) by {
                lemma_user_map_contains(s1, user@.id);
                assert(forall|j: int| 0 <= j < s1.len() ==> (#[trigger] s1[j]).id != user@.id);
            }
            assert(user_map(s1).insert(user@.id, user@) =~= m0.insert(user@.id, user@));
        }
        self.users = users;
    }

    /// Removes the record with this id; removing an absent id changes nothing.
    pub(crate) fn drop_user(&mut self, id: &str)
        ensures
            final(self).users() == old(self).users().remove(id@),
    {
        proof {
            use_type_invariant(&*self);
        }
        let mut users: Vec<User> = Vec::new();
        core::mem::swap(&mut users, &mut self.users);
        let ghost s0 = user_views(users@);
        let target = id.to_owned();
        let idx = find_user_index(&users, &target);
        if idx < users.len() {
            proof {
                lemma_user_map_remove(s0, idx as int);
            }
            users.remove(idx);
            proof {
                assert(user_views(users@) =~= s0.remove(idx as int));
                assert(forall|j: int|
                    0 <= j < s0.remove(idx as int).len() ==> (#[trigger] s0.remove(
                        idx as int,
                    )[j]) == (if j < idx {
                        s0[j]
                    } else {
                        s0[j + 1]
                    }));
                assert(unique_user_ids(s0.remove(idx as int)));
            }
        } else {
            proof {
                lemma_user_map_contains(s0, id@);
                assert(user_map(s0) =~= user_map(s0).remove(id@));
            }
        }
        self.users = users;
    }

    /// The stored users, for building a persistent snapshot.
    pub(crate) fn entries(&self) -> (r: &Vec<User>)
        ensures
            user_map(user_views(r@)) == self.users(),
            unique_user_ids(user_views(r@)),
    {
        proof {
            use_type_invariant(&*self);
        }
        &self.users
    }
}

/// The position of the user with this id, or the length when there is none.
fn find_user_index(users: &Vec<User>, id: &String) -> (r: usize)
    ensures
        r <= users@.len(),
        r < users@.len() ==> user_views(users@)[r as int].id == id@,
        r == users@.len() ==> forall|j: int|
            0 <= j < users@.len() ==> (#[trigger] user_views(users@)[j]).id != id@,
{
    let mut k: usize = 0;
    while k < users.len()
        invariant
            k <= users@.len(),
            forall|j: int| 0 <= j < k ==> (#[trigger] user_views(users@)[j]).id != id@,
        decreases users@.len() - k,
    {
        let candidate = &users[k];
        if *candidate.id() == *id {
            return k;
        }
        k += 1;
    }
    k
}

impl UserStore for UserRepo {
    closed spec fn users(&self) -> Map<Seq<char>, UserView> {
        user_map(user_views(self.users@))
    }

    fn next_id(&self) -> (r: Result<String, Error>)
        ensures
            r is Ok,
            r matches Ok(id) ==> id@.len() == 50 && forall|i: int|
                0 <= i < id@.len() ==> is_id_char(#[trigger] id@[i]),
    {
        Ok(generate_string(50))
    }

    fn find_by_email(&self, email: &str) -> (r: Result<Option<User>, Error>)
        ensures
            r is Ok,
    {
        proof {
            use_type_invariant(&*self);
        }
        let ghost s0 = user_views(self.users@);
        let target = email.to_owned();
        let mut k: usize = 0;
        while k < self.users.len()
            invariant
                k <= self.users@.len(),
                s0 == user_views(self.users@),
                unique_user_ids(s0),
                target@ == email@,
                forall|j: int| 0 <= j < k ==> (#[trigger] s0[j]).email != email@,
            decreases self.users@.len() - k,
        {
            let candidate = &self.users[k];
            if *candidate.email() == target {
                proof {
                    lemma_user_map_index(s0, k as int);
                }
                return Ok(Some(candidate.clone()));
            }
            k += 1;
        }
        proof {
            assert forall|id: Seq<char>| #[trigger]
                user_map(s0).contains_key(id) implies user_map(s0)[id].email != email@ by {
                lemma_user_map_contains(s0, id);
                let j = choose|j: int| 0 <= j < s0.len() && (#[trigger] s0[j]).id == id;
                lemma_user_map_index(s0, j);
            }
        }
        Ok(None)
    }

    fn save(&mut self, user: &User) -> (r: Result<(), Error>)
        ensures
            r is Ok,
    {
        self.put_user(user);
        Ok(())
    }

    fn delete(&mut self, id: &str) -> (r: Result<(), Error>)
        ensures
            r is Ok,
    {
        self.drop_user(id);
        Ok(())
    }
}

/// An in-memory task store: a vector of tasks, no two of which share an id.
pub struct TaskRepo {
    tasks: Vec<Task>,
}

impl TaskRepo {
    #[verifier::type_invariant]
    spec fn type_inv(&self) -> bool {
        unique_task_ids(task_views(self.tasks@))
    }

    pub fn new() -> (r: Self)
        ensures
            r.tasks() == Map::<Seq<char>, TaskView>::empty(),
    {
        TaskRepo { tasks: Vec::new() }
    }

    /// Stores the task, overwriting any record with the same id.
    pub(crate) fn put_task(&mut self, task: &Task)
        ensures
            final(self).tasks() == old(self).tasks().insert(task@.id, task@),
    {
        proof {
            use_type_invariant(&*self);
        }
        let mut tasks: Vec<Task> = Vec::new();
        core::mem::swap(&mut tasks, &mut self.tasks);
        let ghost s0 = task_views(tasks@);
        let ghost m0 = task_map(s0);
        let idx = find_task_index(&tasks, task.id());
        if idx < tasks.len() {
            tasks.remove(idx);
            proof {
                lemma_task_map_remove(s0, idx as int);
                assert(task_views(tasks@) =~= s0.remove(idx as int));
                assert(forall|j: int|
                    0 <= j < s0.remove(idx as int).len() ==> (#[trigger] s0.remove(
                        idx as int,
                    )[j]) == (if j < idx {
                        s0[j]
                    } else {
                        s0[j + 1]
                    }));
                assert(unique_task_ids(s0.remove(idx as int)));
                assert(forall|j: int|
                    0 <= j < s0.remove(idx as int).len() ==> (#[trigger] s0.remove(idx as int)[j]).id
                        != task@.id);
            }
        } else {
            proof {
                lemma_task_map_contains(s0, task@.id);
            }
        }
        let ghost s1 = task_views(tasks@);
        proof {
            assert(!task_map(s1).contains_key(task@.id)) by {
                lemma_task_map_contains(s1, task@.id);
            }
        }
        tasks.push(task.clone());
        proof {
            assert(task_views(tasks@) =~= s1.push(task@));
            lemma_task_map_push(s1, task@);
            assert(unique_task_ids(s1.push(task@))) by {
                lemma_task_map_contains(s1, task@.id);
                assert(forall|j: int| 0 <= j < s1.len() ==> (#[trigger] s1[j]).id != task@.id);
            }
            assert(task_map(s1).insert(task@.id, task@) =~= m0.insert(task@.id, task@));
        }
        self.tasks = tasks;
    }

    /// Removes the record with this id; removing an absent id changes nothing.
    pub(crate) fn drop_task(&mut self, id: &str)
        ensures
            final(self).tasks() == old(self).tasks().remove(id@),
    {
        proof {
            use_type_invariant(&*self);
        }
        let mut tasks: Vec<Task> = Vec::new();
        core::mem::swap(&mut tasks, &mut self.tasks);
        let ghost s0 = task_views(tasks@);
        let target = id.to_owned();
        let idx = find_task_index(&tasks, &target);
        if idx < tasks.len() {
            proof {
                lemma_task_map_remove(s0, idx as int);
            }
            tasks.remove(idx);
            proof {
                assert(task_views(tasks@) =~= s0.remove(idx as int));
                assert(forall|j: int|
                    0 <= j < s0.remove(idx as int).len() ==> (#[trigger] s0.remove(
                        idx as int,
                    )[j]) == (if j < idx {
                        s0[j]
                    } else {
                        s0[j + 1]
                    }));
                assert(unique_task_ids(s0.remove(idx as int)));
            }
        } else {
            proof {
                lemma_task_map_contains(s0, id@);
                assert(task_map(s0) =~= task_map(s0).remove(id@));
            }
        }
        self.tasks = tasks;
    }

    /// Removes every task owned by this user.
    pub(crate) fn drop_tasks_of(&mut self, user_id: &str)
        ensures
            final(self).tasks() == crate::tasks_without_user(old(self).tasks(), user_id@),
    {
        proof {
            use_type_invariant(&*self);
        }
        let mut tasks: Vec<Task> = Vec::new();
        core::mem::swap(&mut tasks, &mut self.tasks);
        let ghost s0 = task_views(tasks@);
        let target = user_id.to_owned();
        let mut kept: Vec<Task> = Vec::new();
        let mut k: usize = 0;
        while k < tasks.len()
            invariant
                k <= tasks@.len(),
                s0 == task_views(tasks@),
                unique_task_ids(s0),
                target@ == user_id@,
                unique_task_ids(task_views(kept@)),
                task_map(task_views(kept@)) == crate::tasks_without_user(
                    task_map(s0.subrange(0, k as int)),
                    user_id@,
                ),
                forall|i: int|
                    0 <= i < task_views(kept@).len() ==> exists|j: int|
                        0 <= j < k && (#[trigger] task_views(kept@)[i]) == s0[j],
            decreases tasks@.len() - k,
        {
            let ghost pre = task_views(kept@);
            let ghost subk = s0.subrange(0, k as int);
            proof {
                assert(s0.subrange(0, k as int + 1) =~= subk.push(s0[k as int]));
                lemma_task_map_push(subk, s0[k as int]);
                assert(forall|j: int| 0 <= j < subk.len() ==> subk[j] == s0[j]);
                lemma_task_map_contains(subk, s0[k as int].id);
                assert(!task_map(subk).contains_key(s0[k as int].id));
            }
            let candidate = &tasks[k];
            if *candidate.user_id() != target {
                proof {
                    assert forall|i: int| 0 <= i < pre.len() implies (#[trigger] pre[i]).id
                        != s0[k as int].id by {
                        let j = choose|j: int| 0 <= j < k && (#[trigger] pre[i]) == s0[j];
                    }
                }
                kept.push(candidate.clone());
                proof {
                    assert(task_views(kept@) =~= pre.push(s0[k as int]));
                    lemma_task_map_push(pre, s0[k as int]);
                    assert(task_map(pre).insert(s0[k as int].id, s0[k as int])
                        =~= crate::tasks_without_user(
                        task_map(subk).insert(s0[k as int].id, s0[k as int]),
                        user_id@,
                    ));
                    assert forall|i: int|
                        0 <= i < task_views(kept@).len() implies exists|j: int|
                        0 <= j < k + 1 && (#[trigger] task_views(kept@)[i]) == s0[j] by {
                        if i < pre.len() {
                            let j = choose|j: int| 0 <= j < k && (#[trigger] pre[i]) == s0[j];
                            assert(task_views(kept@)[i] == s0[j]);
                        } else {
                            assert(task_views(kept@)[i] == s0[k as int]);
                        }
                    }
                }
            } else {
                proof {
                    assert(task_map(pre) =~= crate::tasks_without_user(
                        task_map(subk).insert(s0[k as int].id, s0[k as int]),
                        user_id@,
                    ));
                }
            }
            k += 1;
        }
        proof {
            assert(s0.subrange(0, tasks@.len() as int) =~= s0);
        }
        self.tasks = kept;
    }

    /// The stored tasks, for building a persistent snapshot.
    pub(crate) fn entries(&self) -> (r: &Vec<Task>)
        ensures
            task_map(task_views(r@)) == self.tasks(),
            unique_task_ids(task_views(r@)),
    {
        proof {
            use_type_invariant(&*self);
        }
        &self.tasks
    }
}

/// The position of the task with this id, or the length when there is none.
fn find_task_index(tasks: &Vec<Task>, id: &String) -> (r: usize)
    ensures
        r <= tasks@.len(),
        r < tasks@.len() ==> task_views(tasks@)[r as int].id == id@,
        r == tasks@.len() ==> forall|j: int|
            0 <= j < tasks@.len() ==> (#[trigger] task_views(tasks@)[j]).id != id@,
{
    let mut k: usize = 0;
    while k < tasks.len()
        invariant
            k <= tasks@.len(),
            forall|j: int| 0 <= j < k ==> (#[trigger] task_views(tasks@)[j]).id != id@,
        decreases tasks@.len() - k,
    {
        let candidate = &tasks[k];
        if *candidate.id() == *id {
            return k;
        }
        k += 1;
    }
    k
}

impl TaskStore for TaskRepo {
    closed spec fn tasks(&self) -> Map<Seq<char>, TaskView> {
        task_map(task_views(self.tasks@))
    }

    fn next_id(&self) -> (r: Result<String, Error>)
        ensures
            r is Ok,
            r matches Ok(id) ==> id@.len() == 70 && forall|i: int|
                0 <= i < id@.len() ==> is_id_char(#[trigger] id@[i]),
    {
        Ok(generate_string(70))
    }

    fn get(&self, user_id: &str) -> (r: Result<Vec<Task>, Error>)
        ensures
            r is Ok,
    {
        proof {
            use_type_invariant(&*self);
        }
        let ghost s0 = task_views(self.tasks@);
        let ghost m0 = task_map(s0);
        let target = user_id.to_owned();
        let mut out: Vec<Task> = Vec::new();
        let mut k: usize = 0;
        while k < self.tasks.len()
            invariant
                k <= self.tasks@.len(),
                s0 == task_views(self.tasks@),
                m0 == task_map(s0),
                unique_task_ids(s0),
                target@ == user_id@,
                forall|i: int|
                    0 <= i < task_views(out@).len() ==> {
                        &&& m0.contains_key((#[trigger] task_views(out@)[i]).id)
                        &&& m0[task_views(out@)[i].id] == task_views(out@)[i]
                        &&& task_views(out@)[i].user_id == user_id@
                    },
                forall|j: int|
                    0 <= j < k && (#[trigger] s0[j]).user_id == user_id@ ==> exists|i: int|
                        0 <= i < task_views(out@).len() && (#[trigger] task_views(out@)[i]).id
                            == s0[j].id,
                forall|i: int|
                    0 <= i < task_views(out@).len() ==> exists|j: int|
                        0 <= j < k && (#[trigger] task_views(out@)[i]) == s0[j],
                forall|i1: int, i2: int|
                    0 <= i1 < i2 < task_views(out@).len() ==> task_views(out@)[i1].id
                        != task_views(out@)[i2].id,
            decreases self.tasks@.len() - k,
        {
            let ghost pre = task_views(out@);
            let candidate = &self.tasks[k];
            proof {
                assert(s0[k as int] == self.tasks@[k as int]@);
            }
            if *candidate.user_id() == target {
                proof {
                    lemma_task_map_index(s0, k as int);
                    assert forall|i: int| 0 <= i < pre.len() implies (#[trigger] pre[i]).id
                        != s0[k as int].id by {
                        let j = choose|j: int| 0 <= j < k && (#[trigger] pre[i]) == s0[j];
                    }
                }
                out.push(candidate.clone());
                proof {
                    assert(task_views(out@) =~= pre.push(s0[k as int]));
                    assert forall|i: int|
                        0 <= i < task_views(out@).len() implies exists|j: int|
                        0 <= j < k + 1 && (#[trigger] task_views(out@)[i]) == s0[j] by {
                        if i < pre.len() {
                            let j = choose|j: int| 0 <= j < k && (#[trigger] pre[i]) == s0[j];
                            assert(task_views(out@)[i] == s0[j]);
                        } else {
                            assert(task_views(out@)[i] == s0[k as int]);
                        }
                    }
                    assert forall|j: int|
                        0 <= j < k + 1 && (#[trigger] s0[j]).user_id == user_id@ implies exists|
                        i: int,
                    |
                        0 <= i < task_views(out@).len() && (#[trigger] task_views(out@)[i]).id
                            == s0[j].id by {
                        if j < k {
                            let i = choose|i: int|
                                0 <= i < pre.len() && (#[trigger] pre[i]).id == s0[j].id;
                            assert(task_views(out@)[i].id == s0[j].id);
                        } else {
                            assert(task_views(out@)[pre.len() as int].id == s0[k as int].id);
                        }
                    }
                }
            } else {
                proof {
                    assert(s0[k as int].user_id != user_id@);
                    assert forall|i: int|
                        0 <= i < task_views(out@).len() implies exists|j: int|
                        0 <= j < k + 1 && (#[trigger] task_views(out@)[i]) == s0[j] by {
                        let j = choose|j: int|
                            0 <= j < k && (#[trigger] task_views(out@)[i]) == s0[j];
                        assert(0 <= j < k + 1 && task_views(out@)[i] == s0[j]);
                    }
                    assert forall|j: int|
                        0 <= j < k + 1 && (#[trigger] s0[j]).user_id == user_id@ implies exists|
                        i: int,
                    |
                        0 <= i < task_views(out@).len() && (#[trigger] task_views(out@)[i]).id
                            == s0[j].id by {
                        assert(j < k);
                        let i = choose|i: int|
                            0 <= i < task_views(out@).len() && (#[trigger] task_views(out@)[i]).id
                                == s0[j].id;
                    }
                }
            }
            k += 1;
        }
        proof {
            assert forall|id: Seq<char>| #[trigger]
                m0.contains_key(id) && m0[id].user_id == user_id@ implies exists|i: int|
                0 <= i < task_views(out@).len() && (#[trigger] task_views(out@)[i]).id == id by {
                lemma_task_map_contains(s0, id);
                let j = choose|j: int| 0 <= j < s0.len() && (#[trigger] s0[j]).id == id;
                lemma_task_map_index(s0, j);
                assert(s0[j].user_id == user_id@);
            }
            assert(crate::tasks_of_user(m0, user_id@, task_views(out@)));
        }
        Ok(out)
    }

    fn find_of_user(&self, id: &str, user_id: &str) -> (r: Result<Option<Task>, Error>)
        ensures
            r is Ok,
    {
        proof {
            use_type_invariant(&*self);
        }
        let ghost s0 = task_views(self.tasks@);
        let tid = id.to_owned();
        let uid = user_id.to_owned();
        let mut k: usize = 0;
        while k < self.tasks.len()
            invariant
                k <= self.tasks@.len(),
                s0 == task_views(self.tasks@),
                unique_task_ids(s0),
                tid@ == id@,
                uid@ == user_id@,
                forall|j: int|
                    0 <= j < k ==> !((#[trigger] s0[j]).id == id@ && s0[j].user_id == user_id@),
            decreases self.tasks@.len() - k,
        {
            let candidate = &self.tasks[k];
            if *candidate.id() == tid && *candidate.user_id() == uid {
                proof {
                    lemma_task_map_index(s0, k as int);
                }
                return Ok(Some(candidate.clone()));
            }
            k += 1;
        }
        proof {
            if crate::owned_task(task_map(s0), id@, user_id@) {
                lemma_task_map_contains(s0, id@);
                let j = choose|j: int| 0 <= j < s0.len() && (#[trigger] s0[j]).id == id@;
                lemma_task_map_index(s0, j);
            }
        }
        Ok(None)
    }

    fn save(&mut self, task: &Task) -> (r: Result<(), Error>)
        ensures
            r is Ok,
    {
        self.put_task(task);
        Ok(())
    }

    fn delete(&mut self, id: &str) -> (r: Result<(), Error>)
        ensures
            r is Ok,
    {
        self.drop_task(id);
        Ok(())
    }

    fn delete_of_user(&mut self, user_id: &str) -> (r: Result<(), Error>)
        ensures
            r is Ok,
    {
        self.drop_tasks_of(user_id);
        Ok(())
    }
}

/// An in-memory session slot; the id it holds, if any, is never empty.
pub struct SessionManager {
    user_id: Option<String>,
}

impl SessionManager {
    #[verifier::type_invariant]
    spec fn type_inv(&self) -> bool {
        match self.user_id {
            Some(id) => id@.len() > 0,
            None => true,
        }
    }

    pub fn new() -> (r: Self)
        ensures
            r.authenticated() is None,
    {
        SessionManager { user_id: None }
    }

    /// Sets the slot directly; unlike the storage-backed contract this can
    /// never fail.
    pub(crate) fn set_user_id(&mut self, user_id: &str)
        requires
            user_id@.len() > 0,
        ensures
            final(self).authenticated() == Some(user_id@),
    {
        self.user_id = Some(user_id.to_owned());
    }

    /// The held user id, for building a persistent snapshot.
    pub(crate) fn current_user_id(&self) -> (r: Option<&String>)
        ensures
            match r {
                Some(id) => self.authenticated() == Some(id@) && id@.len() > 0,
                None => self.authenticated() is None,
            },
    {
        proof {
            use_type_invariant(&*self);
        }
        match &self.user_id {
            Some(id) => Some(id),
            None => None,
        }
    }
}

impl SessionContract for SessionManager {
    closed spec fn authenticated(&self) -> Option<Seq<char>> {
        match self.user_id {
            Some(id) => Some(id@),
            None => None,
        }
    }

    fn push_authenticated_user_id(&mut self, user_id: &str) -> (r: Result<(), Error>)
        ensures
            r is Ok,
    {
        self.set_user_id(user_id);
        Ok(())
    }

    fn pop_authenticated_user_id(&self) -> (r: Result<Option<String>, Error>)
        ensures
            r is Ok,
    {
        proof {
            use_type_invariant(&*self);
        }
        match &self.user_id {
            Some(id) => Ok(Some(id.clone())),
            None => Ok(None),
        }
    }

    fn drop_authenticated_user_id(&mut self) -> (r: Result<(), Error>)
        ensures
            r is Ok,
    {
        self.user_id = None;
        Ok(())
    }
}

} // verus!
