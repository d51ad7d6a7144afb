use vstd::prelude::*;

verus! {

/// A point in time without a time zone: whole seconds since the Unix epoch
/// plus a sub-second part in nanoseconds.
#[derive(Clone, Copy, Debug, PartialEq, Eq, Structural)]
pub struct Timestamp {
    pub secs: i64,
    pub nanos: u32,
}

/// One row of the `skills` table.
#[derive(Debug, Clone)]
pub struct Skill {
    pub id: i32,
    pub user_id: i32,
    /// The skill's name, e.g. "Rust".
    pub skill: String,
    pub rating: i32,
    pub created_at: Timestamp,
    pub updated_at: Timestamp,
}

/// One row of the `users` table.
#[derive(Debug, Clone)]
pub struct User {
    pub id: i32,
    pub name: String,
    pub company: String,
    pub email: String,
    pub phone: String,
    pub created_at: Timestamp,
    pub updated_at: Timestamp,
}

/// A user with the skills that belong to it, in the order the query gave them.
#[derive(Debug, Clone)]
pub struct UserWithSkills {
    pub id: i32,
    pub name: String,
    pub company: String,
    pub email: String,
    pub phone: String,
    pub created_at: Timestamp,
    pub updated_at: Timestamp,
    pub skills: Vec<Skill>,
}

impl UserWithSkills {
    /// The user row this value was built from.
    pub open spec fn user(self) -> User {
        User {
            id: self.id,
            name: self.name,
            company: self.company,
            email: self.email,
            phone: self.phone,
            created_at: self.created_at,
            updated_at: self.updated_at,
        }
    }

    /// The value as a user and the sequence of its skills.
    pub open spec fn model(self) -> (User, Seq<Skill>) {
        (self.user(), self.skills@)
    }
}

impl From<(User, Vec<Skill>)> for UserWithSkills {
    fn from(parts: (User, Vec<Skill>)) -> (r: UserWithSkills) {
        let (user, skills) = parts;
        UserWithSkills {
            id: user.id,
            name: user.name,
            company: user.company,
            email: user.email,
            phone: user.phone,
            created_at: user.created_at,
            updated_at: user.updated_at,
            skills,
        }
    }
}

impl vstd::std_specs::convert::FromSpecImpl<(User, Vec<Skill>)> for UserWithSkills {
    open spec fn obeys_from_spec() -> bool {
        true
    }

    open spec fn from_spec(parts: (User, Vec<Skill>)) -> UserWithSkills {
        UserWithSkills {
            id: parts.0.id,
            name: parts.0.name,
            company: parts.0.company,
            email: parts.0.email,
            phone: parts.0.phone,
            created_at: parts.0.created_at,
            updated_at: parts.0.updated_at,
            skills: parts.1,
        }
    }
}

/// A skill as the client sees it: its name and rating.
#[derive(Debug, Clone)]
pub struct SkillsForm {
    pub name: String,
    pub rating: i32,
}

impl From<Skill> for SkillsForm {
    fn from(skill: Skill) -> (r: SkillsForm) {
        SkillsForm { name: skill.skill, rating: skill.rating }
    }
}

impl vstd::std_specs::convert::FromSpecImpl<Skill> for SkillsForm {
    open spec fn obeys_from_spec() -> bool {
        true
    }

    open spec fn from_spec(skill: Skill) -> SkillsForm {
        SkillsForm { name: skill.skill, rating: skill.rating }
    }
}

/// A user as the client sees it, with its skills as name and rating.
#[derive(Debug, Clone)]
pub struct ClientUserWithSkillsForm {
    pub name: String,
    pub company: String,
    pub email: String,
    pub phone: String,
    pub skills: Vec<SkillsForm>,
}

/// The client form of a skill row, as a spec value.
pub open spec fn skill_form(s: Skill) -> SkillsForm {
    SkillsForm { name: s.skill, rating: s.rating }
}

impl ClientUserWithSkillsForm {
    /// The form as its four text fields and its skill forms.
    pub open spec fn model(self) -> (String, String, String, String, Seq<SkillsForm>) {
        (self.name, self.company, self.email, self.phone, self.skills@)
    }

    /// What the client sees of `user`: its text fields, and each skill
    /// as its name and rating, in the same order.
    pub open spec fn spec_of(user: (User, Seq<Skill>)) -> (
        String,
        String,
        String,
        String,
        Seq<SkillsForm>,
    ) {
        (user.0.name, user.0.company, user.0.email, user.0.phone, user.1.map_values(|s: Skill| skill_form(s)))
    }

    /// Builds the client form of `user`.
    pub fn from_user(user: UserWithSkills) -> (r: ClientUserWithSkillsForm)
        ensures
            r.model() == Self::spec_of(user.model()),
    {
        let UserWithSkills { name, company, email, phone, skills, .. } = user;
        let ghost all = skills@;
        let mut forms: Vec<SkillsForm> = Vec::new();
        for s in it: skills.into_iter()
            invariant
                it.seq() == all,
                forms@ == all.take(it.index() as int).map_values(|s: Skill| skill_form(s)),
        {
            forms.push(SkillsForm::from(s));
            proof {
                assert(all.take(it.index() as int + 1) == all.take(it.index() as int).push(s));
            }
        }
        proof {
            assert(all.take(all.len() as int) == all);
        }
        ClientUserWithSkillsForm { name, company, email, phone, skills: forms }
    }
}

impl From<UserWithSkills> for ClientUserWithSkillsForm {
    /// Same as `from_user`.
    fn from(user: UserWithSkills) -> (r: ClientUserWithSkillsForm)
        ensures
            r.model() == Self::spec_of(user.model()),
    {
        ClientUserWithSkillsForm::from_user(user)
    }
}

impl vstd::std_specs::convert::FromSpecImpl<UserWithSkills> for ClientUserWithSkillsForm {
    /// A vector built element by element has no closed form as a spec value;
    /// the `ensures` of `from` states the result instead.
    open spec fn obeys_from_spec() -> bool {
        false
    }

    open spec fn from_spec(user: UserWithSkills) -> ClientUserWithSkillsForm {
        arbitrary()
    }
}

/// A partial update of a user: a field that is `None` stays as it is.
#[derive(Debug, Clone)]
pub struct UserForm {
    pub name: Option<String>,
    pub company: Option<String>,
    pub email: Option<String>,
    pub phone: Option<String>,
}

impl UserForm {
    /// Whether the form changes no field at all.
    pub fn is_empty(&self) -> (r: bool)
        ensures
            r == (self.name is None && self.company is None && self.email is None
                && self.phone is None),
    {
        self.name.is_none() && self.company.is_none() && self.email.is_none()
            && self.phone.is_none()
    }
}

/// The body of a user update: a partial update of its fields and,
/// optionally, skills to insert or update.
#[derive(Debug, Clone)]
pub struct UserWithSkillsForm {
    pub name: Option<String>,
    pub company: Option<String>,
    pub email: Option<String>,
    pub phone: Option<String>,
    pub skills: Option<Vec<SkillsForm>>,
}

impl From<UserWithSkillsForm> for (UserForm, Option<Vec<SkillsForm>>) {
    fn from(form: UserWithSkillsForm) -> (r: (UserForm, Option<Vec<SkillsForm>>)) {
        (
            UserForm { name: form.name, company: form.company, email: form.email, phone: form.phone },
            form.skills,
        )
    }
}

impl vstd::std_specs::convert::FromSpecImpl<UserWithSkillsForm> for (UserForm, Option<Vec<SkillsForm>>) {
    open spec fn obeys_from_spec() -> bool {
        true
    }

    open spec fn from_spec(form: UserWithSkillsForm) -> (UserForm, Option<Vec<SkillsForm>>) {
        (
            UserForm { name: form.name, company: form.company, email: form.email, phone: form.phone },
            form.skills,
        )
    }
}

/// A user to insert: the text fields, borrowed.
#[derive(Debug, Clone)]
pub struct NewUser<'a> {
    pub name: &'a str,
    pub company: &'a str,
    pub email: &'a str,
    pub phone: &'a str,
}

impl<'a> NewUser<'a> {
    /// The insertable text fields of `user`.
    pub fn of_user(user: &'a User) -> (r: NewUser<'a>)
        ensures
            r.name@ == user.name@,
            r.company@ == user.company@,
            r.email@ == user.email@,
            r.phone@ == user.phone@,
    {
        NewUser {
            name: user.name.as_str(),
            company: user.company.as_str(),
            email: user.email.as_str(),
            phone: user.phone.as_str(),
        }
    }
}

impl<'a> From<&'a User> for NewUser<'a> {
    /// Same as `of_user`.
    fn from(user: &'a User) -> (r: NewUser<'a>)
        ensures
            r.name@ == user.name@,
            r.company@ == user.company@,
            r.email@ == user.email@,
            r.phone@ == user.phone@,
    {
        NewUser::of_user(user)
    }
}

impl<'a> vstd::std_specs::convert::FromSpecImpl<&'a User> for NewUser<'a> {
    /// Borrowed text has no spec constructor here; the `ensures` of `from`
    /// states the fields instead.
    open spec fn obeys_from_spec() -> bool {
        false
    }

    open spec fn from_spec(user: &'a User) -> NewUser<'a> {
        arbitrary()
    }
}

/// A skill to insert, or to update where its owner already has a skill of
/// that name.
#[derive(Debug, Clone)]
pub struct NewSkill {
    pub user_id: i32,
    pub name: String,
    pub rating: i32,
}

impl From<Skill> for NewSkill {
    fn from(skill: Skill) -> (r: NewSkill) {
        NewSkill { user_id: skill.user_id, name: skill.skill, rating: skill.rating }
    }
}

impl vstd::std_specs::convert::FromSpecImpl<Skill> for NewSkill {
    open spec fn obeys_from_spec() -> bool {
        true
    }

    open spec fn from_spec(skill: Skill) -> NewSkill {
        NewSkill { user_id: skill.user_id, name: skill.skill, rating: skill.rating }
    }
}

/// The owner id that a skill built from a form carries until the owner is
/// known.
pub const UNASSIGNED_USER: i32 = -1;

impl From<SkillsForm> for NewSkill {
    fn from(data: SkillsForm) -> (r: NewSkill) {
        NewSkill { user_id: UNASSIGNED_USER, name: data.name, rating: data.rating }
    }
}

impl vstd::std_specs::convert::FromSpecImpl<SkillsForm> for NewSkill {
    open spec fn obeys_from_spec() -> bool {
        true
    }

    open spec fn from_spec(data: SkillsForm) -> NewSkill {
        NewSkill { user_id: UNASSIGNED_USER, name: data.name, rating: data.rating }
    }
}

/// How many users have a skill of the given name.
#[derive(Debug, Clone)]
pub struct SkillFrequency {
    pub name: String,
    pub frequency: i32,
}

} // verus!
