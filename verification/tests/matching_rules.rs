//! The eligibility rules, one by one, and the first-fit search.

use dormmatch::matching::MatchingService;
use dormmatch::profile::StudentProfile;
use dormmatch::room::{Room, RoomStatus};
use dormmatch::types::WakeType;

fn room() -> Room {
    Room {
        id: 1,
        number: "101".to_string(),
        description: String::new(),
        photo_url: None,
        capacity: 2,
        current_occupants: 0,
        faculty_restriction: None,
        course_restriction: None,
        sex_restriction: "any".to_string(),
        status: RoomStatus::Available,
    }
}

fn profile() -> StudentProfile {
    StudentProfile {
        user_id: 10,
        faculty: "CS".to_string(),
        course: 2,
        gender: "female".to_string(),
        age: 20,
        wake_hours: WakeType::Flexible,
        hobbies: vec![],
        mbti: None,
        updated_at: 0,
    }
}

#[test]
fn open_room_accepts_any_profile() {
    assert!(MatchingService::is_compatible(&room(), &profile()));
}

#[test]
fn faculty_restriction_must_match_regardless_of_other_fields() {
    let mut r = room();
    r.faculty_restriction = Some("Engineering".to_string());
    let mut p = profile();
    p.faculty = "Arts".to_string();
    assert!(!MatchingService::is_compatible(&r, &p));

    // varying every other field changes nothing
    p.course = 5;
    p.gender = "male".to_string();
    p.age = 30;
    r.sex_restriction = "male".to_string();
    r.capacity = 10;
    assert!(!MatchingService::is_compatible(&r, &p));

    // and with the faculty aligned, the same room admits the profile
    p.faculty = "Engineering".to_string();
    assert!(MatchingService::is_compatible(&r, &p));
}

#[test]
fn full_reserved_or_occupied_rooms_are_incompatible() {
    let mut full = room();
    full.current_occupants = 2;
    assert!(!MatchingService::is_compatible(&full, &profile()));

    let mut reserved = room();
    reserved.status = RoomStatus::Reserved;
    assert!(!MatchingService::is_compatible(&reserved, &profile()));

    let mut occupied = room();
    occupied.status = RoomStatus::Occupied;
    assert!(!MatchingService::is_compatible(&occupied, &profile()));
}

#[test]
fn sex_and_course_restrictions_must_match() {
    let mut r = room();
    r.sex_restriction = "male".to_string();
    assert!(!MatchingService::is_compatible(&r, &profile()));
    r.sex_restriction = "female".to_string();
    assert!(MatchingService::is_compatible(&r, &profile()));

    let mut rc = room();
    rc.course_restriction = Some(3);
    assert!(!MatchingService::is_compatible(&rc, &profile()));
    rc.course_restriction = Some(2);
    assert!(MatchingService::is_compatible(&rc, &profile()));
}

#[test]
fn compatibility_is_deterministic() {
    let r = room();
    let p = profile();
    let first = MatchingService::is_compatible(&r, &p);
    let second = MatchingService::is_compatible(&r, &p);
    assert_eq!(first, second);
    assert!(first);
}

#[test]
fn find_best_room_returns_the_first_fit_or_nothing() {
    let mut blocked = room();
    blocked.id = 1;
    blocked.faculty_restriction = Some("Engineering".to_string());
    let mut second = room();
    second.id = 2;
    let mut third = room();
    third.id = 3;
    let rooms = vec![blocked, second, third];

    let found = MatchingService::find_best_room(&profile(), &rooms).unwrap();
    assert_eq!(found.id, 2);

    let mut p = profile();
    p.faculty = "Math".to_string();
    p.gender = "male".to_string();
    let mut men_only = room();
    men_only.sex_restriction = "female".to_string();
    let single = [men_only];
    let none = MatchingService::find_best_room(&p, &single);
    assert!(none.is_none());

    assert!(MatchingService::find_best_room(&profile(), &[]).is_none());
}
