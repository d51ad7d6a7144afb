use vstd::prelude::*;

use crate::models::NewSkill;

verus! {

/// The conflict key of a skill row: its owner and its name.
pub open spec fn key(s: NewSkill) -> (i32, Seq<char>) {
    (s.user_id, s.name@)
}

/// The conflict keys of the rows, in order.
pub open spec fn keys(rows: Seq<NewSkill>) -> Seq<(i32, Seq<char>)> {
    rows.map_values(|s: NewSkill| key(s))
}

/// Rows of the skills table hold each conflict key at most once.
pub open spec fn keys_unique(rows: Seq<NewSkill>) -> bool {
    keys(rows).no_duplicates()
}

/// The table after an upsert of `s`: the row with the key of `s` takes its
/// rating and keeps its place; where no row has that key, `s` is added last.
pub open spec fn upserted(rows: Seq<NewSkill>, s: NewSkill) -> Seq<NewSkill> {
    if exists|i: int| 0 <= i < rows.len() && key(rows[i]) == key(s) {
        let i = choose|i: int| 0 <= i < rows.len() && key(rows[i]) == key(s);
        rows.update(i, NewSkill { rating: s.rating, ..rows[i] })
    } else {
        rows.push(s)
    }
}

/// The table after the upserts `ups`, applied in order.
pub open spec fn upserted_all(rows: Seq<NewSkill>, ups: Seq<NewSkill>) -> Seq<NewSkill>
    decreases ups.len(),
{
    if ups.len() == 0 {
        rows
    } else {
        upserted(upserted_all(rows, ups.drop_last()), ups.last())
    }
}

/// Inserts `skill` into the skills table `rows`, or, where a row has the
/// same owner and name, sets that row's rating to the rating of `skill`.
pub fn upsert_skill(rows: &mut Vec<NewSkill>, skill: NewSkill)
    requires
        keys_unique(old(rows)@),
    ensures
        final(rows)@ == upserted(old(rows)@, skill),
        keys_unique(final(rows)@),
{
    let n = rows.len();
    let mut i: usize = 0;
    while i < n
        invariant
            n == rows@.len(),
            rows@ == old(rows)@,
            keys_unique(rows@),
            i <= n,
            forall|j: int| 0 <= j < i ==> key(rows@[j]) != key(skill),
        decreases n - i,
    {
        if rows[i].user_id == skill.user_id && rows[i].name == skill.name {
            proof {
                assert forall|j: int| 0 <= j < n && key(rows@[j]) == key(skill) implies j == i by {
                    assert(keys(rows@)[j] == keys(rows@)[i as int]);
                }
            }
            let name = rows[i].name.clone();
            let row = NewSkill { user_id: skill.user_id, name, rating: skill.rating };
            rows.set(i, row);
            proof {
                assert(keys(rows@) =~= keys(old(rows)@));
            }
            return;
        }
        i = i + 1;
    }
    rows.push(skill);
    proof {
        assert(keys(rows@) =~= keys(old(rows)@).push(key(skill)));
        assert forall|a: int, b: int|
            0 <= a < keys(rows@).len() && 0 <= b < keys(rows@).len() && a != b implies keys(
            rows@)[a] != keys(rows@)[b] by {
            if a < n && b < n {
                assert(keys(rows@)[a] == keys(old(rows)@)[a]);
                assert(keys(rows@)[b] == keys(old(rows)@)[b]);
            }
        }
    }
}

/// After upserts into a table whose conflict keys are unique, the keys stay
/// unique and the table holds exactly one row per distinct key among its old
/// rows and the upserts. So where none of the upserts' M distinct keys was in
/// the table, N upserts add exactly M rows, however large N is.
pub proof fn lemma_upsert_row_count(table: Seq<NewSkill>, ups: Seq<NewSkill>)
    requires
        keys_unique(table),
    ensures
        keys_unique(upserted_all(table, ups)),
        upserted_all(table, ups).len() == (keys(table).to_set() + keys(ups).to_set()).len(),
        keys(table).to_set().disjoint(keys(ups).to_set()) ==> upserted_all(table, ups).len()
            == table.len() + keys(ups).to_set().len(),
{
    lemma_upserted_all_keys(table, ups);
    keys(upserted_all(table, ups)).unique_seq_to_set();
    keys(table).unique_seq_to_set();
    vstd::set_lib::lemma_set_disjoint_lens(keys(table).to_set(), keys(ups).to_set());
}

proof fn lemma_upserted_all_keys(table: Seq<NewSkill>, ups: Seq<NewSkill>)
    requires
        keys_unique(table),
    ensures
        keys_unique(upserted_all(table, ups)),
        keys(upserted_all(table, ups)).to_set() == keys(table).to_set() + keys(ups).to_set(),
    decreases ups.len(),
{
    if ups.len() == 0 {
        assert(keys(ups).to_set() =~= Set::empty());
        assert(keys(table).to_set() + keys(ups).to_set() =~= keys(table).to_set());
    } else {
        let pre = ups.drop_last();
        let s = ups.last();
        lemma_upserted_all_keys(table, pre);
        let out = upserted_all(table, pre);
        let next = upserted(out, s);
        assert(keys(ups) =~= keys(pre).push(key(s)));
        keys(pre).lemma_push_to_set_commute(key(s));
        if exists|i: int| 0 <= i < out.len() && key(out[i]) == key(s) {
            let i = choose|i: int| 0 <= i < out.len() && key(out[i]) == key(s);
            assert(keys(next) =~= keys(out));
            assert(keys(out).to_set().contains(key(s))) by {
                assert(keys(out)[i] == key(s));
            }
            assert(keys(table).to_set() + keys(ups).to_set() =~= keys(out).to_set());
        } else {
            assert(keys(next) =~= keys(out).push(key(s)));
            assert(!keys(out).contains(key(s)));
            keys(out).lemma_push_to_set_commute(key(s));
            assert(keys(table).to_set() + keys(ups).to_set() =~= keys(out).to_set().insert(key(s)));
            assert forall|a: int, b: int|
                0 <= a < keys(next).len() && 0 <= b < keys(next).len() && a != b implies keys(
                next)[a] != keys(next)[b] by {
                if a == out.len() {
                    assert(keys(out)[b] == keys(next)[b]);
                } else if b == out.len() {
                    assert(keys(out)[a] == keys(next)[a]);
                }
            }
        }
    }
}

} // verus!
