use vstd::prelude::*;

pub mod grouping;
pub mod models;
pub mod server;
pub mod store;
pub mod utils;

use crate::grouping::{regroup, row_skills};
use crate::models::{Skill, User, UserWithSkills};

verus! {

/// The port the server listens on when none is configured.
pub const DEFAULT_PORT: u32 = 8080;

/// Settings of the server process.
#[derive(Debug, Clone)]
pub struct Config {
    pub port: u32,
    pub database_url: String,
}

impl Config {
    /// Builds the settings from what the environment gave: `port_setting` is
    /// `None` where no port is set, `Some(None)` where the setting is not a
    /// valid port number and `Some(Some(p))` for port `p`. Only a valid
    /// number replaces the default port.
    pub fn from_settings(port_setting: Option<Option<u32>>, database_url: String) -> (r: Config)
        ensures
            r.port == match port_setting {
                Some(Some(p)) => p,
                _ => DEFAULT_PORT,
            },
            r.database_url == database_url,
    {
        let port = match port_setting {
            Some(Some(p)) => p,
            _ => DEFAULT_PORT,
        };
        Config { port, database_url }
    }
}

/// Turns rows of a left join of users with skills, ordered by user id,
/// into one value per user that holds all of its skills.
pub fn to_users_with_skills(data: Vec<(User, Option<Skill>)>) -> (res: Vec<UserWithSkills>)
    ensures
        res@.map_values(|u: UserWithSkills| u.model()) == regroup(data@),
{
    let ghost rows = data@;
    let mut res: Vec<UserWithSkills> = Vec::new();
    let mut prev: Option<User> = None;
    let mut current_skills: Vec<Skill> = Vec::new();
    for row in it: data.into_iter()
        invariant
            it.seq() == rows,
            prev is None <==> it.index() == 0,
            prev is None ==> res@.len() == 0 && current_skills@.len() == 0,
            prev is Some ==> regroup(rows.take(it.index() as int)) == res@.map_values(
                |u: UserWithSkills| u.model(),
            ).push((prev.unwrap(), current_skills@)),
    {
        let ghost i = it.index() as int;
        let ghost before = regroup(rows.take(i));
        let (user, skill) = row;
        proof {
            assert(rows.take(i + 1).drop_last() == rows.take(i));
            assert(rows.take(i + 1).last() == (user, skill));
        }
        let group_user = match prev.take() {
            Some(p) => {
                if p.id != user.id {
                    let u = UserWithSkills::from((p, current_skills));
                    res.push(u);
                    current_skills = Vec::new();
                    proof {
                        assert(res@.map_values(|u: UserWithSkills| u.model()) == before);
                    }
                    user
                } else {
                    p
                }
            },
            None => {
                proof {
                    assert(res@.map_values(|u: UserWithSkills| u.model()) == before);
                }
                user
            },
        };
        let ghost base = current_skills@;
        if let Some(k) = skill {
            current_skills.push(k);
        }
        assert(current_skills@ =~= base + row_skills(skill));
        prev = Some(group_user);
        proof {
            let m = res@.map_values(|u: UserWithSkills| u.model());
            assert(regroup(rows.take(i + 1)) =~= m.push((prev.unwrap(), current_skills@)));
        }
    }
    proof {
        assert(rows.take(rows.len() as int) == rows);
    }
    if let Some(p) = prev {
        res.push(UserWithSkills::from((p, current_skills)));
    }
    res
}

/// The user that the join rows of one user describe, with its skills: the
/// first regrouped entry, or `None` where there are no rows.
pub fn first_user_with_skills(data: Vec<(User, Option<Skill>)>) -> (r: Option<UserWithSkills>)
    ensures
        r is None <==> data@.len() == 0,
        r is Some ==> r->Some_0.model() == regroup(data@)[0],
{
    let ghost groups = regroup(data@);
    assert(data@.len() > 0 ==> groups.len() > 0);
    assert(data@.len() == 0 ==> groups.len() == 0);
    let mut res = to_users_with_skills(data);
    if res.len() == 0 {
        None
    } else {
        proof {
            assert(res@.map_values(|u: UserWithSkills| u.model())[0] == groups[0]);
        }
        Some(res.swap_remove(0))
    }
}

} // verus!
