use htn_backend::models::{
    SkillFrequency, SkillsForm, Skill, Timestamp, User, UserWithSkillsForm, UNASSIGNED_USER,
};
use htn_backend::server::{plan_user_put, skills_for_user, skills_response, user_one_response, ApiError};

fn user(id: i32, name: &str) -> User {
    User {
        id,
        name: name.to_string(),
        company: "Acme".to_string(),
        email: "a@b.c".to_string(),
        phone: "1".to_string(),
        created_at: Timestamp { secs: 1, nanos: 0 },
        updated_at: Timestamp { secs: 2, nanos: 0 },
    }
}

fn skill(user_id: i32, name: &str, rating: i32) -> Skill {
    Skill {
        id: 1,
        user_id,
        skill: name.to_string(),
        rating,
        created_at: Timestamp { secs: 3, nanos: 0 },
        updated_at: Timestamp { secs: 4, nanos: 0 },
    }
}

fn freq(name: &str, frequency: i32) -> SkillFrequency {
    SkillFrequency { name: name.to_string(), frequency }
}

fn freqs() -> Vec<SkillFrequency> {
    vec![freq("a", 1), freq("b", 2), freq("c", 3), freq("d", 5), freq("e", 6), freq("f", 0)]
}

fn freq_names(v: &[SkillFrequency]) -> Vec<String> {
    v.iter().map(|f| f.name.clone()).collect()
}

fn form(skills: Option<Vec<SkillsForm>>) -> UserWithSkillsForm {
    UserWithSkillsForm {
        name: Some("New".to_string()),
        company: None,
        email: Some("x@y.z".to_string()),
        phone: None,
        skills,
    }
}

#[test]
fn user_one_unknown_id_is_not_found() {
    let r = user_one_response(Some(42), vec![]);
    assert_eq!(r.unwrap_err(), ApiError::NotFound);
}

#[test]
fn user_one_unparsable_id_is_bad_request() {
    let r = user_one_response(None, vec![]);
    assert_eq!(r.unwrap_err(), ApiError::BadRequest);
}

#[test]
fn user_one_found() {
    let rows = vec![(user(3, "Hal"), Some(skill(3, "Rust", 4))), (user(3, "Hal"), Some(skill(3, "C", 2)))];
    let r = user_one_response(Some(3), rows).unwrap();
    assert_eq!(r.name, "Hal");
    assert_eq!(r.company, "Acme");
    assert_eq!(r.skills.len(), 2);
    assert_eq!(r.skills[1].name, "C");
    assert_eq!(r.skills[1].rating, 2);
}

#[test]
fn skills_between_two_and_five() {
    let r = skills_response(freqs(), Some(2), Some(5));
    assert_eq!(freq_names(&r), vec!["b", "c", "d"]);
}

#[test]
fn skills_min_only() {
    let r = skills_response(freqs(), Some(3), None);
    assert_eq!(freq_names(&r), vec!["c", "d", "e"]);
}

#[test]
fn skills_max_only() {
    let r = skills_response(freqs(), None, Some(2));
    assert_eq!(freq_names(&r), vec!["a", "b", "f"]);
}

#[test]
fn skills_unbounded() {
    let r = skills_response(freqs(), None, None);
    assert_eq!(freq_names(&r), vec!["a", "b", "c", "d", "e", "f"]);
}

#[test]
fn skills_empty_range() {
    let r = skills_response(freqs(), Some(5), Some(2));
    assert!(r.is_empty());
}

#[test]
fn put_unparsable_body_is_bad_request() {
    assert_eq!(plan_user_put(None, Some(1), true).unwrap_err(), ApiError::BadRequest);
    assert_eq!(plan_user_put(None, None, false).unwrap_err(), ApiError::BadRequest);
}

#[test]
fn put_unknown_user_is_not_found() {
    assert_eq!(plan_user_put(Some(form(None)), Some(1), false).unwrap_err(), ApiError::NotFound);
}

#[test]
fn put_unparsable_id_is_bad_request() {
    assert_eq!(plan_user_put(Some(form(None)), None, true).unwrap_err(), ApiError::BadRequest);
    assert_eq!(plan_user_put(Some(form(None)), None, false).unwrap_err(), ApiError::BadRequest);
}

#[test]
fn put_plan_sets_owner_of_skills() {
    let skills = vec![
        SkillsForm { name: "Rust".to_string(), rating: 5 },
        SkillsForm { name: "Go".to_string(), rating: 3 },
    ];
    let plan = plan_user_put(Some(form(Some(skills))), Some(12), true).unwrap();
    assert_eq!(plan.user_id, 12);
    assert_eq!(plan.user.name.as_deref(), Some("New"));
    assert_eq!(plan.user.company, None);
    assert_eq!(plan.user.email.as_deref(), Some("x@y.z"));
    assert_eq!(plan.skills.len(), 2);
    assert_eq!(plan.skills[0].user_id, 12);
    assert_eq!(plan.skills[0].name, "Rust");
    assert_eq!(plan.skills[1].user_id, 12);
    assert_eq!(plan.skills[1].rating, 3);
}

#[test]
fn put_plan_without_skills() {
    let plan = plan_user_put(Some(form(None)), Some(2), true).unwrap();
    assert!(plan.skills.is_empty());
}

#[test]
fn skills_for_user_replaces_placeholder_owner() {
    let v = skills_for_user(8, vec![SkillsForm { name: "Ada".to_string(), rating: 1 }]);
    assert_eq!(v.len(), 1);
    assert_ne!(v[0].user_id, UNASSIGNED_USER);
    assert_eq!(v[0].user_id, 8);
}
