use taskman::memory;
use taskman::random::generate_string;
use taskman::session::SessionManager;
use taskman::store::Store;
use taskman::usecase::AuthenticateUser;
use taskman::usecase::CompleteTask;
use taskman::usecase::CreateTask;
use taskman::usecase::CreateUser;
use taskman::usecase::DeleteTask;
use taskman::usecase::DeleteUser;
use taskman::usecase::GetTasks;
use taskman::Error;
use taskman::TaskRepo;
use taskman::UserRepo;

#[test]
fn created_password_hash_rejects_other_plaintext() {
    let mut repo = memory::UserRepo::new();
    let user = CreateUser::new()
        .invoke(&mut repo, "a@example.com", "right password")
        .unwrap();

    assert!(user.password().verify("right password").unwrap());
    assert!(!user.password().verify("wrong password").unwrap());
}

#[test]
fn authenticate_wrong_password_is_no_match() {
    let mut repo = memory::UserRepo::new();
    CreateUser::new()
        .invoke(&mut repo, "a@example.com", "right password")
        .unwrap();

    let found = AuthenticateUser::new()
        .invoke(&repo, "a@example.com", "wrong password")
        .expect("a wrong password is not an error");
    assert_eq!(None, found);
}

#[test]
fn authenticate_unknown_email_is_no_match() {
    let mut repo = memory::UserRepo::new();
    CreateUser::new()
        .invoke(&mut repo, "a@example.com", "pw")
        .unwrap();

    let found = AuthenticateUser::new()
        .invoke(&repo, "nobody@example.com", "pw")
        .expect("an unknown email is not an error");
    assert_eq!(None, found);
}

#[test]
fn delete_user_leaves_other_users_tasks() {
    let mut user_repo = memory::UserRepo::new();
    let mut task_repo = memory::TaskRepo::new();

    let doomed = CreateUser::new()
        .invoke(&mut user_repo, "doomed@example.com", "pw1")
        .unwrap();
    let other = CreateUser::new()
        .invoke(&mut user_repo, "other@example.com", "pw2")
        .unwrap();

    CreateTask::new()
        .invoke(&mut task_repo, doomed.id().as_str(), "doomed task")
        .unwrap();
    let kept = CreateTask::new()
        .invoke(&mut task_repo, other.id().as_str(), "kept task")
        .unwrap();

    DeleteUser::new()
        .invoke(&mut user_repo, &mut task_repo, doomed.id().as_str())
        .unwrap();

    assert_eq!(
        None,
        user_repo.find_by_email(doomed.email().as_str()).unwrap()
    );
    assert_eq!(
        0,
        GetTasks::new()
            .invoke(&task_repo, doomed.id().as_str())
            .unwrap()
            .len()
    );
    let others = GetTasks::new()
        .invoke(&task_repo, other.id().as_str())
        .unwrap();
    assert_eq!(1, others.len());
    assert_eq!(kept, *others.get(0).unwrap());
    assert_eq!(
        Some(other.clone()),
        user_repo.find_by_email(other.email().as_str()).unwrap()
    );
}

#[test]
fn created_task_starts_not_completed() {
    let mut repo = memory::TaskRepo::new();
    let task = CreateTask::new()
        .invoke(&mut repo, "owner", "a task")
        .unwrap();

    assert_eq!("owner", task.user_id().as_str());
    assert!(!task.is_completed());

    let listed = GetTasks::new().invoke(&repo, "owner").unwrap();
    assert_eq!(1, listed.len());
    assert_eq!(task, *listed.get(0).unwrap());
}

#[test]
fn complete_task_persists_the_flag() {
    let mut repo = memory::TaskRepo::new();
    let created = CreateTask::new()
        .invoke(&mut repo, "owner", "a task")
        .unwrap();

    CompleteTask::new()
        .invoke(&mut repo, created.id().as_str(), "owner")
        .unwrap();

    let listed = GetTasks::new().invoke(&repo, "owner").unwrap();
    assert_eq!(1, listed.len());
    assert!(listed.get(0).unwrap().is_completed());
}

#[test]
fn complete_foreign_task_is_not_found() {
    let mut repo = memory::TaskRepo::new();
    let created = CreateTask::new()
        .invoke(&mut repo, "owner", "a task")
        .unwrap();

    let result = CompleteTask::new().invoke(&mut repo, created.id().as_str(), "intruder");
    assert_eq!(Err(Error::NoSuchTask), result);

    let listed = GetTasks::new().invoke(&repo, "owner").unwrap();
    assert!(!listed.get(0).unwrap().is_completed());
}

#[test]
fn complete_unknown_task_is_not_found() {
    let mut repo = memory::TaskRepo::new();
    let result = CompleteTask::new().invoke(&mut repo, "no such id", "owner");
    assert_eq!(Err(Error::NoSuchTask), result);
}

#[test]
fn delete_task_leaves_other_tasks() {
    let mut repo = memory::TaskRepo::new();
    let doomed = CreateTask::new()
        .invoke(&mut repo, "owner", "doomed task")
        .unwrap();
    let kept = CreateTask::new()
        .invoke(&mut repo, "owner", "kept task")
        .unwrap();

    DeleteTask::new()
        .invoke(&mut repo, doomed.id().as_str())
        .unwrap();

    let listed = GetTasks::new().invoke(&repo, "owner").unwrap();
    assert_eq!(1, listed.len());
    assert_eq!(kept, *listed.get(0).unwrap());
}

#[test]
fn create_user_rejects_empty_email() {
    let mut repo = memory::UserRepo::new();
    let result = CreateUser::new().invoke(&mut repo, "", "pw");
    assert_eq!(Err(Error::EmptyEmail), result);
}

#[test]
fn create_user_rejects_empty_password() {
    let mut repo = memory::UserRepo::new();
    let result = CreateUser::new().invoke(&mut repo, "a@example.com", "");
    assert_eq!(Err(Error::EmptyPassword), result);
}

#[test]
fn create_task_rejects_empty_user_id() {
    let mut repo = memory::TaskRepo::new();
    let result = CreateTask::new().invoke(&mut repo, "", "a task");
    assert_eq!(Err(Error::EmptyUserId), result);
}

#[test]
fn create_task_rejects_empty_name() {
    let mut repo = memory::TaskRepo::new();
    let result = CreateTask::new().invoke(&mut repo, "owner", "");
    assert_eq!(Err(Error::EmptyName), result);
}

#[test]
fn user_new_rejects_empty_id() {
    let hash = taskman::Hash::new("pw").unwrap();
    let result = taskman::User::new("", "a@example.com", &hash);
    assert_eq!(Err(Error::EmptyId), result);
}

#[test]
fn verify_rejects_garbage_hash_as_error() {
    let hash = taskman::Hash::from(String::from("not a bcrypt hash"));
    assert_eq!(Err(Error::Hashing), hash.verify("pw"));
}

#[test]
fn generated_ids_are_alphanumeric_of_requested_length() {
    let id = generate_string(50);
    assert_eq!(50, id.chars().count());
    assert!(id.chars().all(|c| c.is_ascii_alphanumeric()));
    let longer = generate_string(70);
    assert_eq!(70, longer.chars().count());
}

#[test]
fn store_round_trip_reproduces_users_tasks_and_session() {
    let mut store = Store::new();

    let user = CreateUser::new()
        .invoke(&mut store.users, "a@example.com", "pw")
        .unwrap();
    let task = CreateTask::new()
        .invoke(&mut store.tasks, user.id().as_str(), "a task")
        .unwrap();
    store
        .session
        .push_authenticated_user_id(user.id().as_str())
        .unwrap();

    let records = store.snapshot();
    let loaded = Store::restore(&records).expect("a snapshot always loads");

    assert_eq!(
        Some(user.clone()),
        loaded.users.find_by_email("a@example.com").unwrap()
    );
    let tasks = loaded.tasks.get(user.id().as_str()).unwrap();
    assert_eq!(1, tasks.len());
    assert_eq!(task, *tasks.get(0).unwrap());
    assert_eq!(
        Some(user.id().clone()),
        loaded.session.pop_authenticated_user_id().unwrap()
    );
}

#[test]
fn empty_store_round_trip_is_empty() {
    let store = Store::new();
    let records = store.snapshot();
    assert_eq!(0, records.users.len());
    assert_eq!(0, records.tasks.len());
    assert_eq!("", records.authenticated_user_id.as_str());

    let loaded = Store::restore(&records).unwrap();
    assert_eq!(None, loaded.users.find_by_email("a@example.com").unwrap());
    assert_eq!(None, loaded.session.pop_authenticated_user_id().unwrap());
}

#[test]
fn restore_rejects_invalid_records() {
    let mut store = Store::new();
    CreateUser::new()
        .invoke(&mut store.users, "a@example.com", "pw")
        .unwrap();
    let mut records = store.snapshot();
    records.users[0].email = String::new();
    assert_eq!(Some(Error::EmptyEmail), Store::restore(&records).err());
}

#[test]
fn restore_rejects_invalid_task_records() {
    let mut store = Store::new();
    CreateTask::new()
        .invoke(&mut store.tasks, "owner", "a task")
        .unwrap();
    let mut records = store.snapshot();
    records.tasks[0].name = String::new();
    assert_eq!(Some(Error::EmptyName), Store::restore(&records).err());
}

#[test]
fn save_is_an_upsert_keyed_by_id() {
    let mut repo = memory::UserRepo::new();
    let user = CreateUser::new()
        .invoke(&mut repo, "a@example.com", "pw")
        .unwrap();
    repo.save(&user).unwrap();
    repo.save(&user).unwrap();

    let found = repo.find_by_email("a@example.com").unwrap();
    assert_eq!(Some(user), found);
}

#[test]
fn session_push_overwrites_and_drop_clears() {
    let mut session = memory::SessionManager::new();
    assert_eq!(None, session.pop_authenticated_user_id().unwrap());

    session.push_authenticated_user_id("first").unwrap();
    session.push_authenticated_user_id("second").unwrap();
    assert_eq!(
        Some(String::from("second")),
        session.pop_authenticated_user_id().unwrap()
    );
    assert_eq!(
        Some(String::from("second")),
        session.pop_authenticated_user_id().unwrap()
    );

    session.drop_authenticated_user_id().unwrap();
    assert_eq!(None, session.pop_authenticated_user_id().unwrap());
}
