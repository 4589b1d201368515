//! The capacity ledger and the individual stores.

use dormmatch::application::{Application, ApplicationStatus};
use dormmatch::application_repo::ApplicationRepository;
use dormmatch::claims::Claims;
use dormmatch::errors::{CapacityError, ValidationError, WorkflowError};
use dormmatch::ledger::CapacityLedger;
use dormmatch::profile::Sex;
use dormmatch::profile_repo::StudentProfileRepository;
use dormmatch::room::{Room, RoomStatus};
use dormmatch::room_repo::RoomRepository;
use dormmatch::types::{MbtiType, WakeType};
use dormmatch::user::{parse_role, UserRole, UserStatus};
use dormmatch::user_repo::UserRepository;

fn room(id: u128, capacity: i32) -> Room {
    Room {
        id,
        number: format!("room-{}", id),
        description: String::new(),
        photo_url: None,
        capacity,
        current_occupants: 0,
        faculty_restriction: None,
        course_restriction: None,
        sex_restriction: "any".to_string(),
        status: RoomStatus::Available,
    }
}

#[test]
fn reserve_fills_a_room_slot_by_slot_and_flips_its_status() {
    let mut rooms = RoomRepository::new();
    rooms.create(room(1, 2)).unwrap();

    let after_one = CapacityLedger::reserve_slot(&mut rooms, 1).unwrap();
    assert_eq!(after_one.current_occupants, 1);
    assert_eq!(after_one.status, RoomStatus::Available);

    let after_two = CapacityLedger::reserve_slot(&mut rooms, 1).unwrap();
    assert_eq!(after_two.current_occupants, 2);
    assert_eq!(after_two.status, RoomStatus::Occupied);

    assert!(matches!(
        CapacityLedger::reserve_slot(&mut rooms, 1),
        Err(CapacityError::CapacityExceeded)
        ));
    assert_eq!(rooms.rooms[0].current_occupants, 2);
}

#[test]
fn reserve_rejects_absent_and_reserved_rooms() {
    let mut rooms = RoomRepository::new();
    assert!(matches!(
        CapacityLedger::reserve_slot(&mut rooms, 7),
        Err(CapacityError::CapacityExceeded)
        ));
    let mut r = room(1, 2);
    r.status = RoomStatus::Reserved;
    rooms.create(r).unwrap();
    assert!(matches!(
        CapacityLedger::reserve_slot(&mut rooms, 1),
        Err(CapacityError::CapacityExceeded)
        ));
}

#[test]
fn release_frees_a_slot_and_reopens_a_full_room() {
    let mut rooms = RoomRepository::new();
    rooms.create(room(1, 1)).unwrap();
    CapacityLedger::reserve_slot(&mut rooms, 1).unwrap();
    assert_eq!(rooms.rooms[0].status, RoomStatus::Occupied);

    let released = CapacityLedger::release_slot(&mut rooms, 1).unwrap();
    assert_eq!(released.current_occupants, 0);
    assert_eq!(released.status, RoomStatus::Available);

    assert!(matches!(
        CapacityLedger::release_slot(&mut rooms, 1),
        Err(CapacityError::CapacityExceeded)
        ));
}

#[test]
fn room_creation_validates_each_field_in_turn() {
    let mut rooms = RoomRepository::new();
    rooms.create(room(1, 2)).unwrap();

    assert!(matches!(rooms.create(room(1, 3)), Err(ValidationError::DuplicateId)));

    let mut bad_cap = room(2, 0);
    bad_cap.capacity = 0;
    assert!(matches!(rooms.create(bad_cap), Err(ValidationError::InvalidCapacity)));

    let mut occupied_on_entry = room(2, 2);
    occupied_on_entry.current_occupants = 1;
    assert!(matches!(rooms.create(occupied_on_entry), Err(ValidationError::InvalidOccupancy)));

    let mut wrong_status = room(2, 2);
    wrong_status.status = RoomStatus::Occupied;
    assert!(matches!(rooms.create(wrong_status), Err(ValidationError::InvalidStatus)));

    let mut unknown_sex = room(2, 2);
    unknown_sex.sex_restriction = "purple".to_string();
    assert!(matches!(rooms.create(unknown_sex), Err(ValidationError::InvalidSexRestriction)));

    assert_eq!(rooms.rooms.len(), 1);

    // the fixed values themselves are accepted
    let mut men_only = room(2, 2);
    men_only.sex_restriction = "male".to_string();
    assert!(rooms.create(men_only).is_ok());
    let mut women_only = room(3, 2);
    women_only.sex_restriction = "female".to_string();
    assert!(rooms.create(women_only).is_ok());
    assert_eq!(rooms.rooms.len(), 3);
}

#[test]
fn room_find_by_id_and_search() {
    let mut rooms = RoomRepository::new();
    rooms.create(room(1, 2)).unwrap();
    let mut women_only = room(2, 2);
    women_only.sex_restriction = "female".to_string();
    rooms.create(women_only).unwrap();

    assert_eq!(rooms.find_by_id(2).unwrap().sex_restriction, "female");
    assert!(rooms.find_by_id(9).is_none());

    let sex = "male".to_string();
    let found = rooms.find_available(None, None, &sex);
    assert_eq!(found.len(), 1);
    assert_eq!(found[0].id, 1);
}

#[test]
fn application_transitions_are_guarded() {
    let mut apps = ApplicationRepository::new();
    let pending = Application {
        id: 100,
        user_id: 10,
        room_id: 1,
        status: ApplicationStatus::Pending,
        comment: None,
        created_at: 0,
    };
    apps.create(pending).unwrap();
    assert!(apps.create(Application {
        id: 100,
        user_id: 11,
        room_id: 2,
        status: ApplicationStatus::Pending,
        comment: None,
        created_at: 1,
    })
    .is_err());

    assert!(matches!(
        apps.update_status(9, ApplicationStatus::Approved, None),
        Err(WorkflowError::NotFound)
        ));

    let approved = apps
        .update_status(100, ApplicationStatus::Approved, Some("ok".to_string()))
        .unwrap();
    assert_eq!(approved.status, ApplicationStatus::Approved);
    assert_eq!(approved.comment.as_deref(), Some("ok"));

    assert!(matches!(
        apps.update_status(100, ApplicationStatus::Rejected, None),
        Err(WorkflowError::InvalidTransition)
        ));
    assert_eq!(apps.applications[0].status, ApplicationStatus::Approved);
    assert_eq!(apps.applications[0].comment.as_deref(), Some("ok"));

    let of_ten = apps.find_by_user_id(10);
    assert_eq!(of_ten.len(), 1);
    assert!(apps.find_by_user_id(99).is_empty());
}

#[test]
fn user_store_keeps_identities_and_addresses_unique() {
    let mut users = UserRepository::new();
    let u = users
        .create(10, "ann@example.org".to_string(), "hash".to_string(), UserRole::Student, UserStatus::Pending, 7)
        .unwrap();
    assert_eq!(u.role, "student");
    assert_eq!(u.created_at, 7);

    assert!(users
        .create(11, "ann@example.org".to_string(), "hash".to_string(), UserRole::Admin, UserStatus::Pending, 8)
        .is_err());
    assert!(users
        .create(10, "new@example.org".to_string(), "hash".to_string(), UserRole::Admin, UserStatus::Pending, 8)
        .is_err());

    assert_eq!(users.find_by_email(&"ann@example.org".to_string()).unwrap().id, 10);
    assert!(users.find_by_email(&"who@example.org".to_string()).is_none());
    assert_eq!(users.find_by_id(10).unwrap().email, "ann@example.org");

    let updated = users.update_status(10, UserStatus::Verified, 9).unwrap();
    assert_eq!(updated.status, UserStatus::Verified);
    assert_eq!(updated.updated_at, 9);
    assert!(users.update_status(99, UserStatus::Verified, 9).is_err());
}

#[test]
fn profile_update_overwrites_only_what_it_is_given() {
    let mut profiles = StudentProfileRepository::new();
    profiles
        .create(
            10,
            "CS".to_string(),
            2,
            Sex::Female,
            20,
            WakeType::NightOwl,
            vec!["music".to_string()],
            None,
            0,
        )
        .unwrap();
    assert!(profiles
        .create(10, "CS".to_string(), 2, Sex::Female, 20, WakeType::NightOwl, vec![], None, 0)
        .is_err());

    let updated = profiles
        .update(
            10,
            Some("Math".to_string()),
            None,
            None,
            Some(21),
            None,
            None,
            Some(MbtiType::Intj),
            5,
        )
        .unwrap();
    assert_eq!(updated.faculty, "Math");
    assert_eq!(updated.course, 2);
    assert_eq!(updated.gender, "female");
    assert_eq!(updated.age, 21);
    assert_eq!(updated.wake_hours, WakeType::NightOwl);
    assert_eq!(updated.hobbies, vec!["music".to_string()]);
    assert_eq!(updated.mbti, Some(MbtiType::Intj));
    assert_eq!(updated.updated_at, 5);

    assert!(profiles
        .update(99, None, None, None, None, None, None, None, 5)
        .is_err());
    assert_eq!(profiles.get_by_user_id(10).unwrap().faculty, "Math");
    assert!(profiles.get_by_user_id(99).is_none());
}

#[test]
fn roles_and_claims_round_out_the_session_path() {
    assert_eq!(parse_role(&"student".to_string()), Some(UserRole::Student));
    assert_eq!(parse_role(&"admin".to_string()), Some(UserRole::Admin));
    assert_eq!(parse_role(&"root".to_string()), None);
    assert_eq!(UserRole::Student.to_role_string(), "student");
    assert_eq!(UserRole::Admin.to_role_string(), "admin");
    assert_eq!(Sex::Male.to_gender_string(), "male");
    assert_eq!(Sex::Female.to_gender_string(), "female");

    let claims = Claims::new("10".to_string(), "student".to_string(), 1_000);
    assert_eq!(claims.sub, "10");
    assert_eq!(claims.role, "student");
    assert_eq!(claims.exp, 4_600);
}
