//! End-to-end scenarios through the allocation engine.

use dormmatch::application::ApplicationStatus;
use dormmatch::engine::AllocationEngine;
use dormmatch::errors::{AllocationError, WorkflowError};
use dormmatch::profile::Sex;
use dormmatch::room::{Room, RoomStatus};
use dormmatch::types::WakeType;

fn open_room(id: u128, capacity: i32) -> Room {
    Room {
        id,
        number: format!("room-{}", id),
        description: "double room".to_string(),
        photo_url: None,
        capacity,
        current_occupants: 0,
        faculty_restriction: None,
        course_restriction: None,
        sex_restriction: "any".to_string(),
        status: RoomStatus::Available,
    }
}

fn register(e: &mut AllocationEngine, id: u128, email: &str, faculty: &str, course: i32, sex: Sex) {
    let r = e.register_student(
        id,
        email.to_string(),
        "hash".to_string(),
        faculty.to_string(),
        course,
        sex,
        20,
        WakeType::Flexible,
        vec!["music".to_string()],
        None,
        0,
    );
    assert!(r.is_ok());
}

#[test]
fn scenario_open_room_is_found_and_auto_assigned() {
    let mut e = AllocationEngine::new();
    assert!(e.create_room(open_room(1, 2)).is_ok());
    register(&mut e, 10, "ann@example.org", "CS", 2, Sex::Female);

    let found = e.search_rooms(10).unwrap();
    assert_eq!(found.len(), 1);
    assert_eq!(found[0].id, 1);

    let app = e.auto_assign(10, 100, 50).unwrap();
    assert_eq!(app.status, ApplicationStatus::Approved);
    assert_eq!(app.room_id, 1);
    assert_eq!(app.user_id, 10);
    assert_eq!(app.comment.as_deref(), Some("auto-assigned"));
    assert_eq!(app.created_at, 50);

    assert_eq!(e.rooms.rooms[0].current_occupants, 1);
    assert_eq!(e.rooms.rooms[0].status, RoomStatus::Available);
}

#[test]
fn scenario_full_room_is_invisible_and_unassignable() {
    let mut e = AllocationEngine::new();
    assert!(e.create_room(open_room(1, 1)).is_ok());
    register(&mut e, 10, "ann@example.org", "CS", 2, Sex::Female);
    register(&mut e, 11, "bo@example.org", "CS", 2, Sex::Female);

    // fill the single slot
    let app = e.auto_assign(10, 100, 50).unwrap();
    assert_eq!(app.status, ApplicationStatus::Approved);
    assert_eq!(e.rooms.rooms[0].current_occupants, 1);
    assert_eq!(e.rooms.rooms[0].status, RoomStatus::Occupied);

    let found = e.search_rooms(11).unwrap();
    assert!(found.is_empty());
    assert!(matches!(e.auto_assign(11, 101, 60), Err(AllocationError::NoEligibleRoom)));
    assert_eq!(e.rooms.rooms[0].current_occupants, 1);
}

#[test]
fn scenario_rejecting_an_approved_application_fails() {
    let mut e = AllocationEngine::new();
    assert!(e.create_room(open_room(1, 2)).is_ok());
    register(&mut e, 10, "ann@example.org", "CS", 2, Sex::Female);
    e.submit_application(10, 1, 100, 5).unwrap();
    e.approve_application(100, None).unwrap();

    let r = e.reject_application(100, Some("too late".to_string()));
    assert!(matches!(r, Err(WorkflowError::InvalidTransition)));
    assert_eq!(e.applications.applications[0].status, ApplicationStatus::Approved);
    // the approved application kept its comment too
    assert_eq!(e.applications.applications[0].comment, None);
}

#[test]
fn scenario_two_approvals_race_for_the_last_slot() {
    let mut e = AllocationEngine::new();
    assert!(e.create_room(open_room(1, 1)).is_ok());
    register(&mut e, 10, "ann@example.org", "CS", 2, Sex::Female);
    register(&mut e, 11, "bo@example.org", "CS", 2, Sex::Female);
    e.submit_application(10, 1, 100, 5).unwrap();
    e.submit_application(11, 1, 101, 6).unwrap();

    // the store serializes the two approvals: exactly one wins the slot
    let first = e.approve_application(100, None);
    let second = e.approve_application(101, None);
    assert!(first.is_ok());
    assert!(matches!(second, Err(WorkflowError::CapacityExceeded)));
    assert_eq!(e.rooms.rooms[0].current_occupants, 1);
    // the loser stays pending for an administrator to resolve
    assert_eq!(e.applications.applications[1].status, ApplicationStatus::Pending);
}

#[test]
fn create_room_rejects_an_unknown_sex_restriction() {
    let mut e = AllocationEngine::new();
    let mut bad = open_room(1, 2);
    bad.sex_restriction = "purple".to_string();
    assert!(matches!(
        e.create_room(bad),
        Err(dormmatch::errors::ValidationError::InvalidSexRestriction)
    ));
    assert!(e.rooms.rooms.is_empty());
}

#[test]
fn approval_failure_order_and_absent_ids() {
    let mut e = AllocationEngine::new();
    assert!(matches!(e.approve_application(7, None), Err(WorkflowError::NotFound)));
    assert!(matches!(e.reject_application(7, None), Err(WorkflowError::NotFound)));

    assert!(e.create_room(open_room(1, 2)).is_ok());
    register(&mut e, 10, "ann@example.org", "CS", 2, Sex::Female);
    assert!(matches!(e.submit_application(99, 1, 100, 5), Err(AllocationError::UserNotFound)));
    assert!(matches!(e.submit_application(10, 99, 100, 5), Err(AllocationError::RoomNotFound)));
    e.submit_application(10, 1, 100, 5).unwrap();
    assert!(matches!(e.submit_application(10, 1, 100, 6), Err(AllocationError::DuplicateApplication)));
}

#[test]
fn rejection_finalizes_with_comment_and_frees_nothing() {
    let mut e = AllocationEngine::new();
    assert!(e.create_room(open_room(1, 2)).is_ok());
    register(&mut e, 10, "ann@example.org", "CS", 2, Sex::Female);
    e.submit_application(10, 1, 100, 5).unwrap();

    let rejected = e.reject_application(100, Some("no".to_string())).unwrap();
    assert_eq!(rejected.status, ApplicationStatus::Rejected);
    assert_eq!(rejected.comment.as_deref(), Some("no"));
    assert_eq!(e.rooms.rooms[0].current_occupants, 0);

    // terminal either way: approving the rejected application fails too
    assert!(matches!(e.approve_application(100, None), Err(WorkflowError::InvalidTransition)));
}

#[test]
fn auto_assign_resolves_applicant_before_matching() {
    let mut e = AllocationEngine::new();
    assert!(e.create_room(open_room(1, 2)).is_ok());
    assert!(matches!(e.auto_assign(10, 100, 0), Err(AllocationError::UserNotFound)));
    assert!(matches!(e.search_rooms(10), Err(AllocationError::UserNotFound)));

    // an account without a profile cannot be matched
    e.users.users.push(dormmatch::user::User {
        id: 10,
        email: "ann@example.org".to_string(),
        password_hash: "hash".to_string(),
        role: "student".to_string(),
        status: dormmatch::user::UserStatus::Verified,
        created_at: 0,
        updated_at: 0,
    });
    assert!(matches!(e.auto_assign(10, 100, 0), Err(AllocationError::ProfileNotFound)));
    assert!(matches!(e.search_rooms(10), Err(AllocationError::ProfileNotFound)));
}

#[test]
fn auto_assign_takes_the_first_fit_in_store_order() {
    let mut e = AllocationEngine::new();
    let mut restricted = open_room(1, 2);
    restricted.faculty_restriction = Some("Engineering".to_string());
    assert!(e.create_room(restricted).is_ok());
    assert!(e.create_room(open_room(2, 2)).is_ok());
    assert!(e.create_room(open_room(3, 2)).is_ok());
    register(&mut e, 10, "ann@example.org", "CS", 2, Sex::Female);

    let app = e.auto_assign(10, 100, 0).unwrap();
    assert_eq!(app.room_id, 2);

    assert!(matches!(e.auto_assign(10, 100, 0), Err(AllocationError::DuplicateApplication)));
}

#[test]
fn registration_rejects_taken_identities() {
    let mut e = AllocationEngine::new();
    register(&mut e, 10, "ann@example.org", "CS", 2, Sex::Female);
    let dup_email = e.register_student(
        11,
        "ann@example.org".to_string(),
        "hash".to_string(),
        "CS".to_string(),
        2,
        Sex::Male,
        21,
        WakeType::EarlyBird,
        vec![],
        None,
        0,
    );
    assert!(dup_email.is_err());
    let dup_id = e.register_student(
        10,
        "new@example.org".to_string(),
        "hash".to_string(),
        "CS".to_string(),
        2,
        Sex::Male,
        21,
        WakeType::EarlyBird,
        vec![],
        None,
        0,
    );
    assert!(dup_id.is_err());
    assert_eq!(e.users.users.len(), 1);
    assert_eq!(e.profiles.profiles.len(), 1);
}

#[test]
fn verify_student_resolves_to_the_chosen_status() {
    let mut e = AllocationEngine::new();
    register(&mut e, 10, "ann@example.org", "CS", 2, Sex::Female);
    let verified = e.verify_student(10, true, 9).unwrap();
    assert_eq!(verified.status, dormmatch::user::UserStatus::Verified);
    assert_eq!(verified.updated_at, 9);
    let rejected = e.verify_student(10, false, 11).unwrap();
    assert_eq!(rejected.status, dormmatch::user::UserStatus::Rejected);
    assert!(e.verify_student(99, true, 0).is_err());
}

#[test]
fn list_applications_filters_by_applicant() {
    let mut e = AllocationEngine::new();
    assert!(e.create_room(open_room(1, 4)).is_ok());
    register(&mut e, 10, "ann@example.org", "CS", 2, Sex::Female);
    register(&mut e, 11, "bo@example.org", "CS", 2, Sex::Female);
    e.submit_application(10, 1, 100, 5).unwrap();
    e.submit_application(11, 1, 101, 6).unwrap();
    e.submit_application(10, 1, 102, 7).unwrap();

    let of_ann = e.list_applications(10).unwrap();
    assert_eq!(of_ann.len(), 2);
    assert_eq!(of_ann[0].id, 100);
    assert_eq!(of_ann[1].id, 102);
    assert!(matches!(e.list_applications(99), Err(AllocationError::UserNotFound)));
}

#[test]
fn stats_count_rooms_by_status_and_pending_applications() {
    let mut e = AllocationEngine::new();
    assert!(e.create_room(open_room(1, 1)).is_ok());
    assert!(e.create_room(open_room(2, 2)).is_ok());
    let mut reserved = open_room(3, 2);
    reserved.status = RoomStatus::Reserved;
    assert!(e.create_room(reserved).is_ok());
    register(&mut e, 10, "ann@example.org", "CS", 2, Sex::Female);
    e.submit_application(10, 1, 100, 5).unwrap();
    e.submit_application(10, 2, 101, 6).unwrap();
    e.approve_application(100, None).unwrap();

    let stats = e.get_stats();
    assert_eq!(stats.available_rooms, 1);
    assert_eq!(stats.occupied_rooms, 1);
    assert_eq!(stats.reserved_rooms, 1);
    assert_eq!(stats.pending_applications, 1);
}
