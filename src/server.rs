use vstd::prelude::*;

use crate::grouping::regroup;
use crate::models::{
    ClientUserWithSkillsForm, NewSkill, Skill, SkillFrequency, SkillsForm, User, UserForm,
    UserWithSkillsForm,
};
use crate::to_users_with_skills;

verus! {

/// The outcomes of a request that carry no payload.
#[derive(Debug, Clone, Copy, PartialEq, Eq, Structural)]
pub enum ApiError {
    /// No user has the requested id.
    NotFound,
    /// The request body is not a valid update, or the id in the path is not
    /// a number.
    BadRequest,
}

/// The client forms of regrouped rows, one per entry, in the same order.
pub open spec fn client_forms(groups: Seq<(User, Seq<Skill>)>) -> Seq<
    (String, String, String, String, Seq<SkillsForm>),
> {
    groups.map_values(|g: (User, Seq<Skill>)| ClientUserWithSkillsForm::spec_of(g))
}

/// The response to a listing of users: the join rows regrouped per user,
/// each in its client form.
pub fn users_response(rows: Vec<(User, Option<Skill>)>) -> (r: Vec<ClientUserWithSkillsForm>)
    ensures
        r@.map_values(|f: ClientUserWithSkillsForm| f.model()) == client_forms(regroup(rows@)),
{
    let groups = to_users_with_skills(rows);
    let ghost g = groups@;
    let mut res: Vec<ClientUserWithSkillsForm> = Vec::new();
    for u in it: groups.into_iter()
        invariant
            it.seq() == g,
            g.map_values(|u: crate::models::UserWithSkills| u.model()) == regroup(rows@),
            res@.len() == it.index(),
            res@.map_values(|f: ClientUserWithSkillsForm| f.model()) == client_forms(
                regroup(rows@).take(it.index() as int),
            ),
    {
        let ghost i = it.index() as int;
        let ghost before = res@;
        let form = ClientUserWithSkillsForm::from_user(u);
        res.push(form);
        proof {
            assert(regroup(rows@)[i] == g[i].model());
            assert(regroup(rows@).take(i + 1) == regroup(rows@).take(i).push(g[i].model()));
            assert(res@ == before.push(form));
            assert(form.model() == ClientUserWithSkillsForm::spec_of(regroup(rows@)[i]));
            assert(res@.map_values(|f: ClientUserWithSkillsForm| f.model()) =~= before.map_values(
                |f: ClientUserWithSkillsForm| f.model(),
            ).push(form.model()));
            assert(client_forms(regroup(rows@).take(i + 1)) =~= client_forms(
                regroup(rows@).take(i),
            ).push(ClientUserWithSkillsForm::spec_of(regroup(rows@)[i])));
            assert(res@.map_values(|f: ClientUserWithSkillsForm| f.model()) =~= client_forms(
                regroup(rows@).take(i + 1),
            ));
        }
    }
    proof {
        assert(regroup(rows@).take(g.len() as int) == regroup(rows@));
    }
    res
}

/// The response to a request for one user: `id` is the requested id, if it
/// is a number, and `rows` the join rows of the user with that id.
pub fn user_one_response(id: Option<i32>, rows: Vec<(User, Option<Skill>)>) -> (r: Result<
    ClientUserWithSkillsForm,
    ApiError,
>)
    ensures
        r is Err <==> (id is None || rows@.len() == 0),
        id is None ==> r == Err::<ClientUserWithSkillsForm, ApiError>(ApiError::BadRequest),
        id is Some && rows@.len() == 0 ==> r == Err::<ClientUserWithSkillsForm, ApiError>(
            ApiError::NotFound,
        ),
        r is Ok ==> r->Ok_0.model() == ClientUserWithSkillsForm::spec_of(regroup(rows@)[0]),
{
    if id.is_none() {
        return Err(ApiError::BadRequest);
    }
    if rows.len() == 0 {
        return Err(ApiError::NotFound);
    }
    let ghost groups = regroup(rows@);
    assert(groups.len() > 0);
    let mut forms = users_response(rows);
    proof {
        assert(forms@.map_values(|f: ClientUserWithSkillsForm| f.model()).len() == groups.len());
        assert(forms@.map_values(|f: ClientUserWithSkillsForm| f.model())[0] == client_forms(
            regroup(rows@),
        )[0]);
    }
    Ok(forms.swap_remove(0))
}

/// The frequency bounds of a request: a bound that is `None` does not limit.
pub open spec fn in_range(frequency: i32, min: Option<i32>, max: Option<i32>) -> bool {
    &&& (min matches Some(lo) ==> lo <= frequency)
    &&& (max matches Some(hi) ==> frequency <= hi)
}

/// The rows whose frequency lies within the bounds, inclusive, in order.
pub open spec fn rows_in_range(rows: Seq<SkillFrequency>, min: Option<i32>, max: Option<i32>) -> Seq<
    SkillFrequency,
> {
    rows.filter(|f: SkillFrequency| in_range(f.frequency, min, max))
}

/// A row is in the filtered rows exactly when it is one of the rows and its
/// frequency lies within the bounds; a bound that is `None` leaves its side
/// open.
pub proof fn lemma_rows_in_range_members(rows: Seq<SkillFrequency>, min: Option<i32>, max: Option<i32>)
    ensures
        forall|f: SkillFrequency|
            #[trigger] rows_in_range(rows, min, max).contains(f) <==> (rows.contains(f) && in_range(
                f.frequency,
                min,
                max,
            )),
{
    broadcast use vstd::seq_lib::group_filter_ensures;

    let pred = |f: SkillFrequency| in_range(f.frequency, min, max);
    assert forall|f: SkillFrequency| #[trigger] rows_in_range(rows, min, max).contains(f) implies
        rows.contains(f) && in_range(f.frequency, min, max) by {
        rows.lemma_filter_contains_rev(pred, f);
        let i = choose|i: int| 0 <= i < rows.filter(pred).len() && rows.filter(pred)[i] == f;
        assert(pred(rows.filter(pred)[i]));
    }
    assert forall|f: SkillFrequency| rows.contains(f) && in_range(f.frequency, min, max) implies
        #[trigger] rows_in_range(rows, min, max).contains(f) by {
        let i = choose|i: int| 0 <= i < rows.len() && rows[i] == f;
        assert(rows_in_range(rows, min, max).contains(rows[i]));
    }
}

/// The response to a request for skill frequencies: the rows whose frequency
/// lies between `min` and `max`, both inclusive; a bound that is `None`
/// leaves that side open.
pub fn skills_response(rows: Vec<SkillFrequency>, min: Option<i32>, max: Option<i32>) -> (r: Vec<
    SkillFrequency,
>)
    ensures
        r@ == rows_in_range(rows@, min, max),
{
    let ghost all = rows@;
    let mut res: Vec<SkillFrequency> = Vec::new();
    for f in it: rows.into_iter()
        invariant
            it.seq() == all,
            res@ == rows_in_range(all.take(it.index() as int), min, max),
    {
        let ghost i = it.index() as int;
        proof {
            reveal_with_fuel(Seq::filter, 1);
            assert(all.take(i + 1).drop_last() == all.take(i));
        }
        let above = match min {
            Some(lo) => lo <= f.frequency,
            None => true,
        };
        let below = match max {
            Some(hi) => f.frequency <= hi,
            None => true,
        };
        if above && below {
            res.push(f);
        }
    }
    proof {
        assert(all.take(all.len() as int) == all);
    }
    res
}

/// The writes that an update of a user asks for.
#[derive(Debug, Clone)]
pub struct PutPlan {
    /// The user to update.
    pub user_id: i32,
    /// The fields to change.
    pub user: UserForm,
    /// The skills to insert, or to update where the user has one of that name.
    pub skills: Vec<NewSkill>,
}

/// The skill rows that the forms ask for, all owned by `user_id`.
pub open spec fn owned_skills(user_id: i32, forms: Seq<SkillsForm>) -> Seq<NewSkill> {
    forms.map_values(|f: SkillsForm| NewSkill { user_id, name: f.name, rating: f.rating })
}

/// The skill rows that the forms ask for, all owned by `user_id`, in order.
pub fn skills_for_user(user_id: i32, forms: Vec<SkillsForm>) -> (r: Vec<NewSkill>)
    ensures
        r@ == owned_skills(user_id, forms@),
{
    let ghost all = forms@;
    let mut res: Vec<NewSkill> = Vec::new();
    for f in it: forms.into_iter()
        invariant
            it.seq() == all,
            res@ == owned_skills(user_id, all.take(it.index() as int)),
    {
        let ghost i = it.index() as int;
        let mut s = NewSkill::from(f);
        s.user_id = user_id;
        res.push(s);
        proof {
            assert(all.take(i + 1) == all.take(i).push(f));
            assert(res@ =~= owned_skills(user_id, all.take(i + 1)));
        }
    }
    proof {
        assert(all.take(all.len() as int) == all);
    }
    res
}

/// Decides an update of a user. `body` is the parsed request body, `None`
/// where it did not parse; `id` the requested id, `None` where it is not a
/// number; `user_exists` whether a user has that id. Only a plan that comes
/// back is to be written: every error leaves the store as it is.
pub fn plan_user_put(body: Option<UserWithSkillsForm>, id: Option<i32>, user_exists: bool) -> (r: Result<
    PutPlan,
    ApiError,
>)
    ensures
        body is None ==> r == Err::<PutPlan, ApiError>(ApiError::BadRequest),
        body is Some && id is None ==> r == Err::<PutPlan, ApiError>(ApiError::BadRequest),
        body is Some && id is Some && !user_exists ==> r == Err::<PutPlan, ApiError>(
            ApiError::NotFound,
        ),
        body is Some && id is Some && user_exists <==> r is Ok,
        r is Ok ==> ({
            let form = body->Some_0;
            let plan = r->Ok_0;
            &&& plan.user_id == id->Some_0
            &&& plan.user == (UserForm {
                name: form.name,
                company: form.company,
                email: form.email,
                phone: form.phone,
            })
            &&& plan.skills@ == match form.skills {
                Some(v) => owned_skills(id->Some_0, v@),
                None => Seq::empty(),
            }
        }),
{
    let form = match body {
        Some(f) => f,
        None => return Err(ApiError::BadRequest),
    };
    let user_id = match id {
        Some(i) => i,
        None => return Err(ApiError::BadRequest),
    };
    if !user_exists {
        return Err(ApiError::NotFound);
    }
    let (user, skill_forms): (UserForm, Option<Vec<SkillsForm>>) = form.into();
    let skills = match skill_forms {
        Some(v) => skills_for_user(user_id, v),
        None => Vec::new(),
    };
    Ok(PutPlan { user_id, user, skills })
}

} // verus!
