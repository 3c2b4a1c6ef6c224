use vstd::prelude::*;

use crate::person::{Person, PersonView, person_views};
use crate::panels::{AdminEventView, AdminFrame, UserEventView, UserFrame, admin_step, admin_steps, user_step, user_steps};
use crate::text::{bool_str, bool_word, decimal, decimal_string};

verus! {

/// `p` with the password `password`.
pub open spec fn with_password(p: PersonView, password: Seq<char>) -> PersonView {
    PersonView { name: p.name, password, blocked: p.blocked, limit: p.limit }
}

/// `p` with the blocked flag `blocked`.
pub open spec fn with_blocked(p: PersonView, blocked: bool) -> PersonView {
    PersonView { name: p.name, password: p.password, blocked, limit: p.limit }
}

/// A new user: the name `name`, no password, neither blocked nor limited.
pub open spec fn new_user(name: Seq<char>) -> PersonView {
    PersonView { name, password: seq![], blocked: false, limit: false }
}

/// Changes the password of the person at `index` to `new_password` when
/// `old_password` is the current one; returns whether it did.
pub fn change_password(
    persons: &mut Vec<Person>,
    index: usize,
    old_password: &String,
    new_password: &String,
) -> (changed: bool)
    requires
        index < old(persons).len(),
    ensures
        changed == (old_password@ == old(persons)@[index as int]@.password),
        changed ==> person_views(final(persons)@) == person_views(old(persons)@).update(
            index as int,
            with_password(old(persons)@[index as int]@, new_password@),
        ),
        !changed ==> person_views(final(persons)@) == person_views(old(persons)@),
{
    if *old_password == persons[index].password {
        let ghost before = persons@;
        persons[index].password = new_password.clone();
        assert(person_views(persons@) =~= person_views(before).update(
            index as int,
            with_password(before[index as int]@, new_password@),
        ));
        true
    } else {
        false
    }
}

/// The status line shown after an attempt to change a password.
pub open spec fn change_status_text(changed: bool) -> Seq<char> {
    if changed {
        "Pasword changed succesfully"@
    } else {
        "Old password incorrect"@
    }
}

/// The status line shown after an attempt to change a password.
pub fn change_status_message(changed: bool) -> (r: String)
    ensures
        r@ == change_status_text(changed),
{
    if changed {
        String::from_str("Pasword changed succesfully")
    } else {
        String::from_str("Old password incorrect")
    }
}

/// Sets the blocked flag of the person at `index` to `blocked`.
pub fn set_blocked(persons: &mut Vec<Person>, index: usize, blocked: bool)
    requires
        index < old(persons).len(),
    ensures
        person_views(final(persons)@) == person_views(old(persons)@).update(
            index as int,
            with_blocked(old(persons)@[index as int]@, blocked),
        ),
{
    let ghost before = persons@;
    persons[index].blocked = blocked;
    assert(person_views(persons@) =~= person_views(before).update(
        index as int,
        with_blocked(before[index as int]@, blocked),
    ));
}

/// Appends a new user with the name `name`, no password, neither blocked nor limited.
pub fn add_user(persons: &mut Vec<Person>, name: &String)
    ensures
        person_views(final(persons)@) == person_views(old(persons)@).push(new_user(name@)),
{
    let ghost before = persons@;
    let p = Person::new().name(name.clone());
    persons.push(p);
    assert(person_views(persons@) =~= person_views(before).push(new_user(name@)));
}

/// The label of the person at `index` in the administrator's list of users.
pub open spec fn user_label(index: nat, p: PersonView) -> Seq<char> {
    decimal(index) + ". "@ + p.name + " pass <"@ + p.password + "> blocked:<"@ + bool_word(
        p.blocked,
    ) + "> limit:<"@ + bool_word(p.limit) + ">"@
}

/// The label of the person at `index` in the administrator's list of users.
pub fn user_list_label(index: usize, p: &Person) -> (r: String)
    ensures
        r@ == user_label(index as nat, p@),
{
    let mut s = decimal_string(index as u64);
    s.append(". ");
    s.append(p.name.as_str());
    s.append(" pass <");
    s.append(p.password.as_str());
    s.append("> blocked:<");
    s.append(bool_str(p.blocked));
    s.append("> limit:<");
    s.append(bool_str(p.limit));
    s.append(">");
    s
}


/// Whatever the administrator does on the administrator's panel, frame after frame,
/// no user is removed or renamed, no limit changes, no password but the
/// administrator's own changes, and every user added has no password and no limit
/// (only its blocked flag can be set, with the list's toggles).
pub proof fn law_admin_panel_keeps_users(f: AdminFrame, es: Seq<AdminEventView>)
    requires
        f.persons.len() > 0,
    ensures
        ({
            let g = admin_steps(f, es).persons;
            &&& g.len() >= f.persons.len()
            &&& forall|i: int|
                0 <= i < f.persons.len() ==> {
                    &&& (#[trigger] g[i]).name == f.persons[i].name
                    &&& g[i].limit == f.persons[i].limit
                    &&& i > 0 ==> g[i].password == f.persons[i].password
                }
            &&& forall|i: int|
                f.persons.len() <= i < g.len() ==> (#[trigger] g[i]).password.len() == 0
                    && !g[i].limit
        }),
    decreases es.len(),
{
    if es.len() > 0 {
        let h = admin_step(f, es[0]).0;
        law_admin_panel_keeps_users(h, es.drop_first());
        let g = admin_steps(f, es).persons;
        assert(g == admin_steps(h, es.drop_first()).persons);
        assert forall|i: int| 0 <= i < f.persons.len() implies {
            &&& (#[trigger] g[i]).name == f.persons[i].name
            &&& g[i].limit == f.persons[i].limit
            &&& i > 0 ==> g[i].password == f.persons[i].password
        } by {
            assert(g[i] == g[i]);
            assert(h.persons[i] == h.persons[i]);
        }
        assert forall|i: int| f.persons.len() <= i < g.len() implies (#[trigger] g[i]).password.len()
            == 0 && !g[i].limit by {
            if i < h.persons.len() {
                assert(h.persons[i] == h.persons[i]);
            }
        }
    }
}

/// Whatever a user does on that user's panel, frame after frame, the user list
/// keeps its length, every other user stays as they were, and of that user only
/// the password can change.
pub proof fn law_user_panel_changes_only_own_password(f: UserFrame, k: int, es: Seq<UserEventView>)
    requires
        0 <= k < f.persons.len(),
    ensures
        ({
            let g = user_steps(f, k, es).persons;
            &&& g.len() == f.persons.len()
            &&& forall|j: int| 0 <= j < g.len() && j != k ==> #[trigger] g[j] == f.persons[j]
            &&& g[k].name == f.persons[k].name
            &&& g[k].blocked == f.persons[k].blocked
            &&& g[k].limit == f.persons[k].limit
        }),
    decreases es.len(),
{
    if es.len() > 0 {
        let h = user_step(f, k, es[0]).0;
        law_user_panel_changes_only_own_password(h, k, es.drop_first());
        let g = user_steps(f, k, es).persons;
        assert(g == user_steps(h, k, es.drop_first()).persons);
        assert forall|j: int| 0 <= j < g.len() && j != k implies #[trigger] g[j] == f.persons[j] by {
            assert(h.persons[j] == f.persons[j]);
        }
    }
}


/// The label of the person `p` at `index` in the administrator's list: the index in
/// decimal, `. `, the name, ` pass <`, the password, `> blocked:<`, `true` exactly
/// when `p` is blocked (`false` otherwise), `> limit:<`, `true` exactly when `p` is
/// limited, and `>`.
pub proof fn law_label_format(index: nat, p: PersonView)
    ensures
        user_label(index, p) == decimal(index) + seq!['.', ' '] + p.name + seq![
            ' ',
            'p',
            'a',
            's',
            's',
            ' ',
            '<',
        ] + p.password + seq!['>', ' ', 'b', 'l', 'o', 'c', 'k', 'e', 'd', ':', '<'] + (if p.blocked {
            seq!['t', 'r', 'u', 'e']
        } else {
            seq!['f', 'a', 'l', 's', 'e']
        }) + seq!['>', ' ', 'l', 'i', 'm', 'i', 't', ':', '<'] + (if p.limit {
            seq!['t', 'r', 'u', 'e']
        } else {
            seq!['f', 'a', 'l', 's', 'e']
        }) + seq!['>'],
{
    reveal_strlit(". ");
    reveal_strlit(" pass <");
    reveal_strlit("> blocked:<");
    reveal_strlit("> limit:<");
    reveal_strlit(">");
    assert(user_label(index, p) =~= decimal(index) + seq!['.', ' '] + p.name + seq![
        ' ',
        'p',
        'a',
        's',
        's',
        ' ',
        '<',
    ] + p.password + seq!['>', ' ', 'b', 'l', 'o', 'c', 'k', 'e', 'd', ':', '<'] + (if p.blocked {
        seq!['t', 'r', 'u', 'e']
    } else {
        seq!['f', 'a', 'l', 's', 'e']
    }) + seq!['>', ' ', 'l', 'i', 'm', 'i', 't', ':', '<'] + (if p.limit {
        seq!['t', 'r', 'u', 'e']
    } else {
        seq!['f', 'a', 'l', 's', 'e']
    }) + seq!['>']);
}

/// Two persons with the same name and password at the same index get the same label
/// exactly when both their flags agree: the label shows each flag, and the blocked
/// word depends on the blocked flag alone.
pub proof fn law_label_shows_flags(index: nat, p: PersonView, q: PersonView)
    requires
        p.name == q.name,
        p.password == q.password,
    ensures
        user_label(index, p) == user_label(index, q) <==> (p.blocked == q.blocked && p.limit
            == q.limit),
{
    law_label_format(index, p);
    law_label_format(index, q);
    let t = seq!['t', 'r', 'u', 'e'];
    let f = seq!['f', 'a', 'l', 's', 'e'];
    let pre = decimal(index) + seq!['.', ' '] + p.name + seq![' ', 'p', 'a', 's', 's', ' ', '<']
        + p.password + seq!['>', ' ', 'b', 'l', 'o', 'c', 'k', 'e', 'd', ':', '<'];
    let mid = seq!['>', ' ', 'l', 'i', 'm', 'i', 't', ':', '<'];
    let bp = if p.blocked {
        t
    } else {
        f
    };
    let bq = if q.blocked {
        t
    } else {
        f
    };
    let lp = if p.limit {
        t
    } else {
        f
    };
    let lq = if q.limit {
        t
    } else {
        f
    };
    let x = user_label(index, p);
    let y = user_label(index, q);
    assert(x == pre + bp + mid + lp + seq!['>']);
    assert(y == pre + bq + mid + lq + seq!['>']);
    if x == y {
        let m = pre.len() as int;
        assert(x[m] == bp[0]);
        assert(y[m] == bq[0]);
        assert(p.blocked == q.blocked);
        let m2 = m + bp.len() + mid.len();
        assert(x[m2] == lp[0]);
        assert(y[m2] == lq[0]);
    }
}


/// A password change with the right old password leaves that person with exactly the
/// new password and everything else as it was; with a wrong one it changes nothing.
pub proof fn law_change_password_result(ps: Seq<PersonView>, k: int, old_password: Seq<char>, new_password: Seq<char>)
    requires
        0 <= k < ps.len(),
    ensures
        ({
            let qs = if old_password == ps[k].password {
                ps.update(k, with_password(ps[k], new_password))
            } else {
                ps
            };
            &&& qs.len() == ps.len()
            &&& old_password == ps[k].password ==> qs[k].password == new_password
            &&& old_password != ps[k].password ==> qs[k].password == ps[k].password
            &&& qs[k].name == ps[k].name
            &&& qs[k].blocked == ps[k].blocked
            &&& qs[k].limit == ps[k].limit
            &&& forall|j: int| 0 <= j < ps.len() && j != k ==> #[trigger] qs[j] == ps[j]
        }),
{
}

} // verus!
