use taskman::memory;
use taskman::usecase::AuthenticateUser;
use taskman::usecase::CompleteTask;
use taskman::usecase::CreateTask;
use taskman::usecase::CreateUser;
use taskman::usecase::DeleteTask;
use taskman::usecase::DeleteUser;
use taskman::usecase::GetTasks;
use taskman::UserRepo;

#[test]
fn usecase_test_create_user() {
    let mut repo = memory::UserRepo::new();

    let (email, password) = ("test@example.com", "aiueo");
    let user = CreateUser::new()
        .invoke(&mut repo, email, password)
        .expect("should have created user");

    assert_eq!(email, user.email().as_str());
    assert!(user
        .password()
        .verify(password)
        .expect("should have verified password"));
}

#[test]
fn usecase_test_authenticate_user() {
    let mut repo = memory::UserRepo::new();

    let (email, password) = ("test@example.com", "aiueo");
    let created = CreateUser::new().invoke(&mut repo, email, password).unwrap();

    let user = AuthenticateUser::new()
        .invoke(&repo, email, password)
        .expect("should have succeeded to authenticate user")
        .expect("should have authenticated user");

    assert_eq!(created, user);
}

#[test]
fn usecase_test_delete_user() {
    let mut user_repo = memory::UserRepo::new();
    let mut task_repo = memory::TaskRepo::new();

    let (email, password) = ("test@example.com", "aiueo");
    let user = CreateUser::new()
        .invoke(&mut user_repo, email, password)
        .unwrap();

    CreateTask::new()
        .invoke(&mut task_repo, user.id().as_str(), "test task name 1")
        .unwrap();
    CreateTask::new()
        .invoke(&mut task_repo, user.id().as_str(), "test task name 2")
        .unwrap();

    DeleteUser::new()
        .invoke(&mut user_repo, &mut task_repo, user.id().as_str())
        .expect("should have succeeded to delete user");

    assert_eq!(None, user_repo.find_by_email(user.email().as_str()).unwrap());
    assert_eq!(
        0,
        GetTasks::new()
            .invoke(&task_repo, user.id().as_str())
            .unwrap()
            .len()
    );
}

#[test]
fn usecase_test_get_tasks() {
    let mut repo = memory::TaskRepo::new();

    let user_id = "test user id";
    let created = CreateTask::new()
        .invoke(&mut repo, user_id, "test task name")
        .unwrap();

    let tasks = GetTasks::new()
        .invoke(&repo, user_id)
        .expect("should have succeeded to get tasks");

    assert_eq!(1, tasks.len());
    assert_eq!(created, *tasks.get(0).unwrap());
}

#[test]
fn usecase_test_create_task() {
    let mut repo = memory::TaskRepo::new();

    let (user_id, name) = ("test user id", "test task name");
    let task = CreateTask::new()
        .invoke(&mut repo, user_id, name)
        .expect("should have succeeded to create task");

    assert_eq!(user_id, task.user_id().as_str());
    assert_eq!(name, task.name().as_str());
}

#[test]
fn usecase_test_complete_task() {
    let mut repo = memory::TaskRepo::new();

    let user_id = "test user id";
    let created = CreateTask::new()
        .invoke(&mut repo, user_id, "test task name")
        .expect("should have succeeded to create task");

    let task = CompleteTask::new()
        .invoke(&mut repo, created.id().as_str(), user_id)
        .expect("should have succeeded to complete task");

    assert!(task.is_completed());
}

#[test]
fn usecase_test_delete_task() {
    let mut repo = memory::TaskRepo::new();
    let user_id = "test user id";
    let created = CreateTask::new()
        .invoke(&mut repo, user_id, "test task name")
        .unwrap();

    DeleteTask::new()
        .invoke(&mut repo, created.id().as_str())
        .expect("should have succeeded to delete task");

    let got = GetTasks::new().invoke(&repo, user_id).unwrap();
    assert_eq!(0, got.len());
}

#[test]
fn mod_create_user() {
    let mut repo = memory::UserRepo::new();

    let (email, password) = ("test@example.com", "aiueo");
    let user = CreateUser::new()
        .invoke(&mut repo, email, password)
        .expect("should have created user");

    assert_eq!(email, user.email().as_str());
    assert!(user
        .password()
        .verify(password)
        .expect("should have verified password"));
}

#[test]
fn mod_authenticate_user() {
    let mut repo = memory::UserRepo::new();

    let (email, password) = ("test@example.com", "aiueo");
    let created = CreateUser::new().invoke(&mut repo, email, password).unwrap();

    let user = AuthenticateUser::new()
        .invoke(&repo, email, password)
        .expect("should have succeeded to authenticate user")
        .expect("should have authenticated user");

    assert_eq!(created, user);
}

#[test]
fn mod_delete_user() {
    let mut user_repo = memory::UserRepo::new();
    let mut task_repo = memory::TaskRepo::new();

    let (email, password) = ("test@example.com", "aiueo");
    let user = CreateUser::new()
        .invoke(&mut user_repo, email, password)
        .unwrap();

    CreateTask::new()
        .invoke(&mut task_repo, user.id().as_str(), "test task name 1")
        .unwrap();
    CreateTask::new()
        .invoke(&mut task_repo, user.id().as_str(), "test task name 2")
        .unwrap();

    DeleteUser::new()
        .invoke(&mut user_repo, &mut task_repo, user.id().as_str())
        .expect("should have succeeded to delete user");

    assert_eq!(None, user_repo.find_by_email(user.email().as_str()).unwrap());
    assert_eq!(
        0,
        GetTasks::new()
            .invoke(&task_repo, user.id().as_str())
            .unwrap()
            .len()
    );
}

#[test]
fn mod_get_tasks() {
    let mut repo = memory::TaskRepo::new();

    let user_id = "test user id";
    let created = CreateTask::new()
        .invoke(&mut repo, user_id, "test task name")
        .unwrap();

    let tasks = GetTasks::new()
        .invoke(&repo, user_id)
        .expect("should have succeeded to get tasks");

    assert_eq!(1, tasks.len());
    assert_eq!(created, *tasks.get(0).unwrap());
}

#[test]
fn mod_create_task() {
    let mut repo = memory::TaskRepo::new();

    let (user_id, name) = ("test user id", "test task name");
    let task = CreateTask::new()
        .invoke(&mut repo, user_id, name)
        .expect("should have succeeded to create task");

    assert_eq!(user_id, task.user_id().as_str());
    assert_eq!(name, task.name().as_str());
}

#[test]
fn mod_complete_task() {
    let mut repo = memory::TaskRepo::new();

    let user_id = "test user id";
    let created = CreateTask::new()
        .invoke(&mut repo, user_id, "test task name")
        .expect("should have succeeded to create task");

    let task = CompleteTask::new()
        .invoke(&mut repo, created.id().as_str(), user_id)
        .expect("should have succeeded to complete task");

    assert!(task.is_completed());
}

#[test]
fn mod_delete_task() {
    let mut repo = memory::TaskRepo::new();
    let user_id = "test user id";
    let created = CreateTask::new()
        .invoke(&mut repo, user_id, "test task name")
        .unwrap();

    DeleteTask::new()
        .invoke(&mut repo, created.id().as_str())
        .expect("should have succeeded to delete task");

    let got = GetTasks::new().invoke(&repo, user_id).unwrap();
    assert_eq!(0, got.len());
}
