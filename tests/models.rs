use htn_backend::models::{
    ClientUserWithSkillsForm, NewSkill, NewUser, Skill, SkillsForm, Timestamp, User, UserForm,
    UserWithSkills, UserWithSkillsForm, UNASSIGNED_USER,
};
use htn_backend::{Config, DEFAULT_PORT};

fn ts(secs: i64) -> Timestamp {
    Timestamp { secs, nanos: 5 }
}

fn skill() -> Skill {
    Skill {
        id: 2,
        user_id: 7,
        skill: "Rust".to_string(),
        rating: 4,
        created_at: ts(1),
        updated_at: ts(2),
    }
}

fn user() -> User {
    User {
        id: 7,
        name: "Ida".to_string(),
        company: "Co".to_string(),
        email: "ida@co".to_string(),
        phone: "9".to_string(),
        created_at: ts(1),
        updated_at: ts(2),
    }
}

#[test]
fn empty_user_form() {
    let f = UserForm { name: None, company: None, email: None, phone: None };
    assert!(f.is_empty());
}

#[test]
fn user_form_with_one_field_is_not_empty() {
    let f = UserForm { name: None, company: None, email: None, phone: Some(String::new()) };
    assert!(!f.is_empty());
    let g = UserForm { name: Some("n".to_string()), company: None, email: None, phone: None };
    assert!(!g.is_empty());
}

#[test]
fn user_with_skills_from_parts() {
    let u = UserWithSkills::from((user(), vec![skill()]));
    assert_eq!(u.id, 7);
    assert_eq!(u.name, "Ida");
    assert_eq!(u.phone, "9");
    assert_eq!(u.created_at, ts(1));
    assert_eq!(u.skills.len(), 1);
}

#[test]
fn client_form_of_user() {
    let u = UserWithSkills::from((user(), vec![skill(), skill()]));
    let c = ClientUserWithSkillsForm::from(u);
    assert_eq!(c.name, "Ida");
    assert_eq!(c.email, "ida@co");
    assert_eq!(c.skills.len(), 2);
    assert_eq!(c.skills[0].name, "Rust");
    assert_eq!(c.skills[0].rating, 4);
}

#[test]
fn skills_form_of_skill() {
    let f = SkillsForm::from(skill());
    assert_eq!(f.name, "Rust");
    assert_eq!(f.rating, 4);
}

#[test]
fn new_skill_of_skill_keeps_owner() {
    let n = NewSkill::from(skill());
    assert_eq!(n.user_id, 7);
    assert_eq!(n.name, "Rust");
    assert_eq!(n.rating, 4);
}

#[test]
fn new_skill_of_form_has_no_owner() {
    let n = NewSkill::from(SkillsForm { name: "Go".to_string(), rating: 2 });
    assert_eq!(n.user_id, UNASSIGNED_USER);
    assert_eq!(n.user_id, -1);
    assert_eq!(n.name, "Go");
}

#[test]
fn new_user_of_user() {
    let u = user();
    let n = NewUser::from(&u);
    assert_eq!(n.name, "Ida");
    assert_eq!(n.company, "Co");
    assert_eq!(n.email, "ida@co");
    assert_eq!(n.phone, "9");
}

#[test]
fn update_form_splits() {
    let form = UserWithSkillsForm {
        name: Some("J".to_string()),
        company: None,
        email: None,
        phone: Some("2".to_string()),
        skills: Some(vec![SkillsForm { name: "C".to_string(), rating: 1 }]),
    };
    let (u, s): (UserForm, Option<Vec<SkillsForm>>) = form.into();
    assert_eq!(u.name.as_deref(), Some("J"));
    assert_eq!(u.phone.as_deref(), Some("2"));
    assert!(u.company.is_none());
    assert_eq!(s.unwrap()[0].name, "C");
}

#[test]
fn config_port_default_and_set() {
    assert_eq!(Config::from_settings(None, "db".to_string()).port, DEFAULT_PORT);
    assert_eq!(Config::from_settings(None, "db".to_string()).port, 8080);
    assert_eq!(Config::from_settings(Some(None), "db".to_string()).port, 8080);
    let c = Config::from_settings(Some(Some(3000)), "file.db".to_string());
    assert_eq!(c.port, 3000);
    assert_eq!(c.database_url, "file.db");
}
