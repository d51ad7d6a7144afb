use vstd::prelude::*;

use crate::models::{Skill, User};

verus! {

/// The skills that one join row carries: none, or the one it holds.
pub open spec fn row_skills(s: Option<Skill>) -> Seq<Skill> {
    match s {
        Some(k) => seq![k],
        None => Seq::empty(),
    }
}

/// Regrouping of left-join rows, read from the front: a row whose user id
/// is that of the last group adds its skill to that group; any other row
/// opens a new group with its user and its skill, if any.
pub open spec fn regroup(rows: Seq<(User, Option<Skill>)>) -> Seq<(User, Seq<Skill>)>
    decreases rows.len(),
{
    if rows.len() == 0 {
        Seq::empty()
    } else {
        let rest = regroup(rows.drop_last());
        let row = rows.last();
        if rest.len() > 0 && rest.last().0.id == row.0.id {
            rest.update(rest.len() - 1, (rest.last().0, rest.last().1 + row_skills(row.1)))
        } else {
            rest.push((row.0, row_skills(row.1)))
        }
    }
}

/// Rows of a join are grouped when rows that share a user id stand next to
/// each other: no row of another user lies between two rows of one user.
#[verifier::opaque]
pub open spec fn grouped(rows: Seq<(User, Option<Skill>)>) -> bool {
    forall|i: int, j: int, k: int|
        0 <= i < j < k < rows.len() && #[trigger] rows[i].0.id == #[trigger] rows[k].0.id
            ==> #[trigger] rows[j].0.id == rows[i].0.id
}

proof fn lemma_grouped_prefix(rows: Seq<(User, Option<Skill>)>)
    requires
        rows.len() > 0,
        grouped(rows),
    ensures
        grouped(rows.drop_last()),
{
    reveal(grouped);
    let pre = rows.drop_last();
    assert forall|i: int, j: int, k: int|
        0 <= i < j < k < pre.len() && #[trigger] pre[i].0.id == #[trigger] pre[k].0.id
            implies #[trigger] pre[j].0.id == pre[i].0.id by {
        assert(rows[i] == pre[i] && rows[j] == pre[j] && rows[k] == pre[k]);
    }
}

proof fn lemma_grouped_at(rows: Seq<(User, Option<Skill>)>, i: int, j: int, k: int)
    requires
        grouped(rows),
        0 <= i < j < k < rows.len(),
        rows[i].0.id == rows[k].0.id,
    ensures
        rows[j].0.id == rows[i].0.id,
{
    reveal(grouped);
}

/// All skills that the rows carry for user `id`, in row order.
pub open spec fn skills_of(rows: Seq<(User, Option<Skill>)>, id: i32) -> Seq<Skill>
    decreases rows.len(),
{
    if rows.len() == 0 {
        Seq::empty()
    } else {
        skills_of(rows.drop_last(), id) + if rows.last().0.id == id {
            row_skills(rows.last().1)
        } else {
            Seq::empty()
        }
    }
}

/// Where no row of user `id` carries a skill, the rows carry no skill for it.
proof fn lemma_skills_of_none(rows: Seq<(User, Option<Skill>)>, id: i32)
    requires
        forall|i: int| 0 <= i < rows.len() && rows[i].0.id == id ==> rows[i].1 is None,
    ensures
        skills_of(rows, id) == Seq::<Skill>::empty(),
    decreases rows.len(),
{
    if rows.len() > 0 {
        lemma_skills_of_none(rows.drop_last(), id);
        assert(skills_of(rows, id) =~= Seq::<Skill>::empty());
    }
}

/// What regrouping grouped rows gives: exactly one entry per distinct user
/// id. No two entries share an id, every id of the rows has an entry, each
/// entry holds the user of the first row with its id, and its skills are all
/// the skills that the rows carry for that id, in row order. The last entry
/// is that of the last row.
#[verifier::opaque]
pub open spec fn one_entry_per_user(rows: Seq<(User, Option<Skill>)>) -> bool {
    let out = regroup(rows);
    &&& out.len() == 0 <==> rows.len() == 0
    &&& rows.len() > 0 ==> out.last().0.id == rows.last().0.id
    &&& forall|a: int, b: int|
        0 <= a < out.len() && 0 <= b < out.len() && a != b ==> out[a].0.id != out[b].0.id
    &&& forall|i: int|
        0 <= i < rows.len() ==> exists|k: int|
            0 <= k < out.len() && #[trigger] out[k].0.id == #[trigger] rows[i].0.id
    &&& forall|k: int|
        0 <= k < out.len() ==> exists|j: int|
            0 <= j < rows.len() && #[trigger] rows[j].0 == #[trigger] out[k].0 && (forall|j2: int|
                0 <= j2 < j ==> rows[j2].0.id != out[k].0.id)
    &&& forall|k: int| 0 <= k < out.len() ==> #[trigger] out[k].1 == skills_of(rows, out[k].0.id)
}

/// Regrouping grouped rows gives exactly one entry per distinct user id,
/// holding the user of its first row and all of its skills in row order
/// (see `one_entry_per_user`).
pub proof fn lemma_regroup_one_entry_per_user(rows: Seq<(User, Option<Skill>)>)
    requires
        grouped(rows),
    ensures
        one_entry_per_user(rows),
    decreases rows.len(),
{
    if rows.len() == 0 {
        reveal(one_entry_per_user);
    } else {
        lemma_grouped_prefix(rows);
        lemma_regroup_one_entry_per_user(rows.drop_last());
        let op = regroup(rows.drop_last());
        if op.len() > 0 && op.last().0.id == rows.last().0.id {
            lemma_regroup_step_same(rows);
        } else {
            lemma_regroup_step_new(rows);
        }
    }
}

proof fn lemma_regroup_step_same(rows: Seq<(User, Option<Skill>)>)
    requires
        rows.len() > 0,
        one_entry_per_user(rows.drop_last()),
        regroup(rows.drop_last()).len() > 0,
        regroup(rows.drop_last()).last().0.id == rows.last().0.id,
    ensures
        one_entry_per_user(rows),
{
    reveal(one_entry_per_user);
    let pre = rows.drop_last();
    let row = rows.last();
    let n = pre.len() as int;
    let op = regroup(pre);
    let out = regroup(rows);
    assert(forall|i: int| 0 <= i < n ==> rows[i] == pre[i]);
    assert(out == op.update(op.len() - 1, (op.last().0, op.last().1 + row_skills(row.1))));
    assert forall|i: int| 0 <= i < rows.len() implies exists|k: int|
        0 <= k < out.len() && #[trigger] out[k].0.id == #[trigger] rows[i].0.id by {
        if i == n {
            assert(out[op.len() - 1].0.id == rows[i].0.id);
        } else {
            assert(pre[i] == rows[i]);
            let k = choose|k: int| 0 <= k < op.len() && #[trigger] op[k].0.id == pre[i].0.id;
            assert(out[k].0.id == rows[i].0.id);
        }
    }
    assert forall|k: int| 0 <= k < out.len() implies exists|j: int|
        0 <= j < rows.len() && #[trigger] rows[j].0 == #[trigger] out[k].0 && (forall|j2: int|
            0 <= j2 < j ==> rows[j2].0.id != out[k].0.id) by {
        assert(out[k].0 == op[k].0);
        let j = choose|j: int|
            0 <= j < pre.len() && #[trigger] pre[j].0 == #[trigger] op[k].0 && (forall|j2: int|
                0 <= j2 < j ==> pre[j2].0.id != op[k].0.id);
        assert(rows[j] == pre[j]);
    }
    assert forall|k: int| 0 <= k < out.len() implies #[trigger] out[k].1 == skills_of(
        rows,
        out[k].0.id,
    ) by {
        assert(rows.drop_last() == pre);
        if k == op.len() - 1 {
        } else {
            assert(op[k].0.id != op[op.len() - 1].0.id);
            assert(skills_of(rows, out[k].0.id) =~= skills_of(pre, op[k].0.id));
        }
    }
}

/// A row that opens a new group has an id that no earlier row and no earlier
/// entry has, so the earlier rows carry no skill for it.
proof fn lemma_new_id_absent(rows: Seq<(User, Option<Skill>)>)
    requires
        rows.len() > 0,
        grouped(rows),
        one_entry_per_user(rows.drop_last()),
        !(regroup(rows.drop_last()).len() > 0 && regroup(rows.drop_last()).last().0.id
            == rows.last().0.id),
    ensures
        forall|k: int| 0 <= k < regroup(rows.drop_last()).len() ==> regroup(rows.drop_last())[k].0.id
            != rows.last().0.id,
        forall|j2: int| 0 <= j2 < rows.len() - 1 ==> rows[j2].0.id != rows.last().0.id,
        skills_of(rows.drop_last(), rows.last().0.id) == Seq::<Skill>::empty(),
{
    reveal(one_entry_per_user);
    let pre = rows.drop_last();
    let row = rows.last();
    let n = pre.len() as int;
    let op = regroup(pre);
    assert(forall|i: int| 0 <= i < n ==> rows[i] == pre[i]);
    assert forall|k: int| 0 <= k < op.len() implies op[k].0.id != row.0.id by {
        if op[k].0.id == row.0.id {
            let j = choose|j: int|
                0 <= j < pre.len() && #[trigger] pre[j].0 == #[trigger] op[k].0 && (forall|j2: int|
                    0 <= j2 < j ==> pre[j2].0.id != op[k].0.id);
            assert(rows[j].0.id == rows[n].0.id);
            assert(j < n - 1);
            lemma_grouped_at(rows, j, n - 1, n);
        }
    }
    assert forall|j2: int| 0 <= j2 < n implies rows[j2].0.id != row.0.id by {
        assert(rows[j2] == pre[j2]);
        if pre[j2].0.id == row.0.id {
            let k = choose|k: int| 0 <= k < op.len() && #[trigger] op[k].0.id == pre[j2].0.id;
        }
    }
    lemma_skills_of_none(pre, row.0.id);
}

proof fn lemma_regroup_step_new(rows: Seq<(User, Option<Skill>)>)
    requires
        rows.len() > 0,
        grouped(rows),
        one_entry_per_user(rows.drop_last()),
        !(regroup(rows.drop_last()).len() > 0 && regroup(rows.drop_last()).last().0.id
            == rows.last().0.id),
    ensures
        one_entry_per_user(rows),
{
    reveal(one_entry_per_user);
    let pre = rows.drop_last();
    let row = rows.last();
    let n = pre.len() as int;
    let op = regroup(pre);
    let out = regroup(rows);
    assert(forall|i: int| 0 <= i < n ==> rows[i] == pre[i]);
    assert(out == op.push((row.0, row_skills(row.1))));
    lemma_new_id_absent(rows);
    assert forall|i: int| 0 <= i < rows.len() implies exists|k: int|
        0 <= k < out.len() && #[trigger] out[k].0.id == #[trigger] rows[i].0.id by {
        if i == n {
            assert(out[op.len() as int].0.id == rows[i].0.id);
        } else {
            assert(pre[i] == rows[i]);
            let k = choose|k: int| 0 <= k < op.len() && #[trigger] op[k].0.id == pre[i].0.id;
            assert(out[k].0.id == rows[i].0.id);
        }
    }
    assert forall|k: int| 0 <= k < out.len() implies exists|j: int|
        0 <= j < rows.len() && #[trigger] rows[j].0 == #[trigger] out[k].0 && (forall|j2: int|
            0 <= j2 < j ==> rows[j2].0.id != out[k].0.id) by {
        if k == op.len() {
            assert(rows[n].0 == out[k].0);
        } else {
            assert(out[k].0 == op[k].0);
            let j = choose|j: int|
                0 <= j < pre.len() && #[trigger] pre[j].0 == #[trigger] op[k].0 && (forall|j2: int|
                    0 <= j2 < j ==> pre[j2].0.id != op[k].0.id);
            assert(rows[j] == pre[j]);
        }
    }
    assert forall|k: int| 0 <= k < out.len() implies #[trigger] out[k].1 == skills_of(
        rows,
        out[k].0.id,
    ) by {
        assert(rows.drop_last() == pre);
        if k == op.len() {
            assert(skills_of(rows, row.0.id) =~= row_skills(row.1));
        } else {
            assert(skills_of(rows, out[k].0.id) =~= skills_of(pre, op[k].0.id));
        }
    }
}

/// A user whose rows carry no skill (a left join gives such a user one row
/// without a skill) still gets exactly one entry, and its skill list is
/// empty.
pub proof fn lemma_user_without_skills_kept(rows: Seq<(User, Option<Skill>)>, id: i32)
    requires
        grouped(rows),
        exists|i: int| 0 <= i < rows.len() && rows[i].0.id == id,
        forall|i: int| 0 <= i < rows.len() && rows[i].0.id == id ==> rows[i].1 is None,
    ensures
        exists|k: int|
            0 <= k < regroup(rows).len() && #[trigger] regroup(rows)[k].0.id == id && regroup(rows)[k].1.len() == 0
                && forall|k2: int| 0 <= k2 < regroup(rows).len() && k2 != k ==> regroup(rows)[k2].0.id != id,
{
    lemma_regroup_one_entry_per_user(rows);
    reveal(one_entry_per_user);
    lemma_skills_of_none(rows, id);
    let out = regroup(rows);
    let i = choose|i: int| 0 <= i < rows.len() && rows[i].0.id == id;
    let k = choose|k: int| 0 <= k < out.len() && #[trigger] out[k].0.id == rows[i].0.id;
    assert(out[k].1.len() == 0);
}

} // verus!
