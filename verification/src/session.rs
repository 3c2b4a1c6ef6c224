use vstd::prelude::*;

use crate::person::{Person, PersonView, person_views};
use crate::text::{decimal, decimal_string};
use crate::accounts::{new_user, with_blocked, with_password};

verus! {

/// The screen that the program shows.
#[derive(PartialEq, Eq, Structural, Clone, Copy, Debug)]
pub enum State {
    Login,
    AdminPanel,
    UserPanel,
}

/// The part of the administrator's panel that is open.
#[derive(PartialEq, Eq, Structural, Clone, Copy, Debug)]
pub enum AdminPanelState {
    Nothing,
    ChangePass,
    ListUsers,
    AddNewUser,
}

/// The buttons of the administrator's panel.
#[derive(PartialEq, Eq, Structural, Clone, Copy, Debug)]
pub enum AdminButton {
    ChangePassword,
    ListUsers,
    AddNewUser,
    ExitToLogin,
}

/// What the program keeps between sign-in attempts.
pub struct LoginSession {
    /// The screen shown.
    pub state: State,
    /// The user whose panel is shown.
    pub user_index: usize,
    /// The message shown under the password field.
    pub err_msg: String,
    /// Whether a wrong administrator password was given.
    pub is_incorrect: bool,
    /// How many more wrong administrator passwords are answered with a retry message.
    pub attempts_left: u32,
}

/// The value of a [`LoginSession`].
pub struct SessionView {
    pub state: State,
    pub user_index: usize,
    pub err_msg: Seq<char>,
    pub is_incorrect: bool,
    pub attempts_left: u32,
}

impl View for LoginSession {
    type V = SessionView;

    open spec fn view(&self) -> SessionView {
        SessionView {
            state: self.state,
            user_index: self.user_index,
            err_msg: self.err_msg@,
            is_incorrect: self.is_incorrect,
            attempts_left: self.attempts_left,
        }
    }
}

/// `p` has the name `login` and the password `password`.
pub open spec fn credentials_match(p: PersonView, login: Seq<char>, password: Seq<char>) -> bool {
    p.name == login && p.password == password
}

/// The last of the first `n` persons whose name and password match and who is not
/// blocked.
pub open spec fn last_open_match(
    ps: Seq<PersonView>,
    login: Seq<char>,
    password: Seq<char>,
    n: nat,
) -> Option<nat>
    decreases n,
{
    if n == 0 {
        None
    } else if credentials_match(ps[n - 1], login, password) && !ps[n - 1].blocked {
        Some((n - 1) as nat)
    } else {
        last_open_match(ps, login, password, (n - 1) as nat)
    }
}

/// One of the first `n` persons has the name `login` and the password `password`,
/// and is blocked.
pub open spec fn has_blocked_match(
    ps: Seq<PersonView>,
    login: Seq<char>,
    password: Seq<char>,
    n: nat,
) -> bool {
    exists|i: int| 0 <= i < n && #[trigger] credentials_match(ps[i], login, password) && ps[i].blocked
}

/// The message for a wrong administrator password when `n` more are allowed.
pub open spec fn admin_retry_message(n: nat) -> Seq<char> {
    "Incorrect admin password, <"@ + decimal(n) + "> attempts left"@
}

/// The message for a wrong administrator password when no more are allowed.
pub open spec fn lockout_message() -> Seq<char> {
    "3 times incorrect password, gg wp, hacker"@
}

/// The message for a blocked user who signs in.
pub open spec fn blocked_message(name: Seq<char>) -> Seq<char> {
    name + " is blocked"@
}

/// The session after the first `n` persons were checked against a user's sign-in:
/// the panel of the last open match, if any, and the blocked message, if any of them
/// is a blocked match.
pub open spec fn user_scan(
    s: SessionView,
    ps: Seq<PersonView>,
    login: Seq<char>,
    password: Seq<char>,
    n: nat,
) -> SessionView {
    let (state, user_index) = match last_open_match(ps, login, password, n) {
        Some(j) => (State::UserPanel, j as usize),
        None => (s.state, s.user_index),
    };
    let err_msg = if has_blocked_match(ps, login, password, n) {
        blocked_message(login)
    } else {
        s.err_msg
    };
    SessionView {
        state,
        user_index,
        err_msg,
        is_incorrect: s.is_incorrect,
        attempts_left: s.attempts_left,
    }
}

/// The session after a sign-in with `login` and `password`. The first person is the
/// administrator: the right password opens the administrator's panel, a wrong one
/// spends an attempt while any are left. Any other name opens the panel of the last
/// user with those credentials who is not blocked.
pub open spec fn sign_in_spec(
    s: SessionView,
    ps: Seq<PersonView>,
    login: Seq<char>,
    password: Seq<char>,
) -> SessionView {
    if login == ps[0].name {
        if password == ps[0].password {
            SessionView {
                state: State::AdminPanel,
                user_index: s.user_index,
                err_msg: s.err_msg,
                is_incorrect: s.is_incorrect,
                attempts_left: s.attempts_left,
            }
        } else if s.attempts_left > 0 {
            SessionView {
                state: s.state,
                user_index: s.user_index,
                err_msg: admin_retry_message(s.attempts_left as nat),
                is_incorrect: true,
                attempts_left: (s.attempts_left - 1) as u32,
            }
        } else {
            SessionView {
                state: s.state,
                user_index: s.user_index,
                err_msg: lockout_message(),
                is_incorrect: s.is_incorrect,
                attempts_left: s.attempts_left,
            }
        }
    } else {
        user_scan(s, ps, login, password, ps.len())
    }
}

/// The session at start: the sign-in screen, no message, two retries for the
/// administrator's password.
pub open spec fn initial_session() -> SessionView {
    SessionView {
        state: State::Login,
        user_index: 0,
        err_msg: seq![],
        is_incorrect: false,
        attempts_left: 2,
    }
}

impl LoginSession {
    /// The session at start.
    pub fn new() -> (s: LoginSession)
        ensures
            s@ == initial_session(),
    {
        LoginSession {
            state: State::Login,
            user_index: 0,
            err_msg: String::new(),
            is_incorrect: false,
            attempts_left: 2,
        }
    }

    /// Handles a press of the sign-in button with `login` and `password` against the
    /// user list `persons`, whose first entry is the administrator.
    pub fn sign_in(&mut self, persons: &Vec<Person>, login: &String, password: &String)
        requires
            persons.len() > 0,
        ensures
            final(self)@ == sign_in_spec(old(self)@, person_views(persons@), login@, password@),
    {
        let ghost ps = person_views(persons@);
        assert(ps[0] == persons@[0]@);
        if *login == persons[0].name {
            if *password == persons[0].password {
                self.state = State::AdminPanel;
            } else if self.attempts_left > 0 {
                self.is_incorrect = true;
                let mut m = String::from_str("Incorrect admin password, <");
                let d = decimal_string(self.attempts_left as u64);
                m.append(d.as_str());
                m.append("> attempts left");
                self.err_msg = m;
                self.attempts_left = self.attempts_left - 1;
            } else {
                self.err_msg = String::from_str("3 times incorrect password, gg wp, hacker");
            }
        } else {
            let ghost s0 = self@;
            let mut i: usize = 0;
            while i < persons.len()
                invariant
                    ps == person_views(persons@),
                    i <= persons.len(),
                    self@ == user_scan(s0, ps, login@, password@, i as nat),
                decreases persons.len() - i,
            {
                assert(ps[i as int] == persons@[i as int]@);
                if *login == persons[i].name && *password == persons[i].password {
                    if !persons[i].blocked {
                        self.state = State::UserPanel;
                        self.user_index = i;
                        assert(has_blocked_match(ps, login@, password@, (i + 1) as nat)
                            == has_blocked_match(ps, login@, password@, i as nat));
                    } else {
                        let mut m = persons[i].name.clone();
                        m.append(" is blocked");
                        self.err_msg = m;
                        assert(credentials_match(ps[i as int], login@, password@));
                    }
                } else {
                    assert(has_blocked_match(ps, login@, password@, (i + 1) as nat)
                        == has_blocked_match(ps, login@, password@, i as nat));
                }
                i = i + 1;
            }
        }
    }
}

/// The part of the administrator's panel that `button` opens.
pub open spec fn view_after_button(button: AdminButton) -> AdminPanelState {
    match button {
        AdminButton::ChangePassword => AdminPanelState::ChangePass,
        AdminButton::ListUsers => AdminPanelState::ListUsers,
        AdminButton::AddNewUser => AdminPanelState::AddNewUser,
        AdminButton::ExitToLogin => AdminPanelState::Nothing,
    }
}

/// The screen after `button` was pressed on the administrator's panel shown as `state`.
pub open spec fn state_after_button(button: AdminButton, state: State) -> State {
    if button == AdminButton::ExitToLogin {
        State::Login
    } else {
        state
    }
}

/// Handles a press of one of the buttons of the administrator's panel.
pub fn press_admin_button(button: AdminButton, panel: &mut AdminPanelState, state: &mut State)
    ensures
        *final(panel) == view_after_button(button),
        *final(state) == state_after_button(button, *old(state)),
{
    match button {
        AdminButton::ChangePassword => {
            *panel = AdminPanelState::ChangePass;
        },
        AdminButton::ListUsers => {
            *panel = AdminPanelState::ListUsers;
        },
        AdminButton::AddNewUser => {
            *panel = AdminPanelState::AddNewUser;
        },
        AdminButton::ExitToLogin => {
            *panel = AdminPanelState::Nothing;
            *state = State::Login;
        },
    }
}


/// What `last_open_match` finds is a match below `n` that is not blocked, and no
/// later one below `n` is.
pub proof fn lemma_last_open_match(
    ps: Seq<PersonView>,
    login: Seq<char>,
    password: Seq<char>,
    n: nat,
)
    requires
        n <= ps.len(),
    ensures
        last_open_match(ps, login, password, n) matches Some(j) ==> {
            &&& j < n
            &&& credentials_match(ps[j as int], login, password)
            &&& !ps[j as int].blocked
            &&& forall|k: int|
                j < k < n ==> !(credentials_match(#[trigger] ps[k], login, password)
                    && !ps[k].blocked)
        },
        last_open_match(ps, login, password, n) is None ==> forall|k: int|
            0 <= k < n ==> !(credentials_match(#[trigger] ps[k], login, password)
                && !ps[k].blocked),
    decreases n,
{
    if n > 0 {
        lemma_last_open_match(ps, login, password, (n - 1) as nat);
    }
}

/// Persons at `m` and above that do not match leave `last_open_match` as it was at `m`.
proof fn lemma_last_open_match_skip(
    ps: Seq<PersonView>,
    login: Seq<char>,
    password: Seq<char>,
    m: nat,
    n: nat,
)
    requires
        m <= n,
        forall|k: int| m <= k < n ==> !credentials_match(#[trigger] ps[k], login, password),
    ensures
        last_open_match(ps, login, password, n) == last_open_match(ps, login, password, m),
    decreases n,
{
    if n > m {
        lemma_last_open_match_skip(ps, login, password, m, (n - 1) as nat);
    }
}

/// The administrator's panel opens only for the administrator's name and password.
pub proof fn law_admin_panel_needs_admin_credentials(
    s: SessionView,
    ps: Seq<PersonView>,
    login: Seq<char>,
    password: Seq<char>,
)
    requires
        ps.len() > 0,
        s.state != State::AdminPanel,
    ensures
        sign_in_spec(s, ps, login, password).state == State::AdminPanel ==> credentials_match(
            ps[0],
            login,
            password,
        ),
{
}

/// A user's panel opens only for a person, other than the administrator, whose name
/// and password were given and who is not blocked.
pub proof fn law_user_panel_needs_open_user(
    s: SessionView,
    ps: Seq<PersonView>,
    login: Seq<char>,
    password: Seq<char>,
)
    requires
        0 < ps.len() <= usize::MAX,
        s.state != State::UserPanel,
    ensures
        ({
            let r = sign_in_spec(s, ps, login, password);
            r.state == State::UserPanel ==> {
                &&& 0 < r.user_index < ps.len()
                &&& credentials_match(ps[r.user_index as int], login, password)
                &&& !ps[r.user_index as int].blocked
            }
        }),
{
    lemma_last_open_match(ps, login, password, ps.len());
    if login != ps[0].name {
        if let Some(j) = last_open_match(ps, login, password, ps.len()) {
            assert(j != 0);
        }
    }
}

/// A sign-in never adds attempts; it spends one exactly when a wrong administrator
/// password is given while any are left.
pub proof fn law_attempts_only_spent_on_wrong_admin_password(
    s: SessionView,
    ps: Seq<PersonView>,
    login: Seq<char>,
    password: Seq<char>,
)
    requires
        ps.len() > 0,
    ensures
        ({
            let r = sign_in_spec(s, ps, login, password);
            &&& r.attempts_left <= s.attempts_left
            &&& r.attempts_left < s.attempts_left <==> (login == ps[0].name && password
                != ps[0].password && s.attempts_left > 0)
        }),
{
}

/// Once no attempts are left, a wrong administrator password gets the lock-out
/// message and leaves the screen as it was.
pub proof fn law_lockout(s: SessionView, ps: Seq<PersonView>, password: Seq<char>)
    requires
        ps.len() > 0,
        s.attempts_left == 0,
        password != ps[0].password,
    ensures
        ({
            let r = sign_in_spec(s, ps, ps[0].name, password);
            &&& r.err_msg == lockout_message()
            &&& r.state == s.state
            &&& r.attempts_left == 0
        }),
{
}

/// After the administrator's password was changed, the new one opens the
/// administrator's panel.
pub proof fn law_new_admin_password_signs_in(
    s: SessionView,
    ps: Seq<PersonView>,
    new_password: Seq<char>,
)
    requires
        ps.len() > 0,
    ensures
        sign_in_spec(
            s,
            ps.update(0, with_password(ps[0], new_password)),
            ps[0].name,
            new_password,
        ).state == State::AdminPanel,
{
}

/// `ps[k]` is a user, not the administrator, whose name no other person has.
pub open spec fn unique_user(ps: Seq<PersonView>, k: int) -> bool {
    &&& 0 < k < ps.len() <= usize::MAX
    &&& forall|j: int| 0 <= j < ps.len() && j != k ==> #[trigger] ps[j].name != ps[k].name
}

/// The sign-in of a user whose name no one else has: that user's panel when the
/// password is right and the user is not blocked, and the screen unchanged otherwise.
proof fn lemma_unique_user_sign_in(
    s: SessionView,
    ps: Seq<PersonView>,
    k: int,
    password: Seq<char>,
)
    requires
        unique_user(ps, k),
    ensures
        ({
            let r = sign_in_spec(s, ps, ps[k].name, password);
            &&& (password == ps[k].password && !ps[k].blocked) ==> r.state == State::UserPanel
                && r.user_index == k
            &&& !(password == ps[k].password && !ps[k].blocked) ==> r.state == s.state
                && r.user_index == s.user_index
            &&& (password == ps[k].password && ps[k].blocked) ==> r.err_msg == blocked_message(
                ps[k].name,
            )
        }),
{
    let login = ps[k].name;
    assert(ps[0].name != login);
    lemma_last_open_match_skip(ps, login, password, (k + 1) as nat, ps.len());
    lemma_last_open_match_skip(ps, login, password, 0, k as nat);
    assert(last_open_match(ps, login, password, (k + 1) as nat) == (if credentials_match(
        ps[k],
        login,
        password,
    ) && !ps[k].blocked {
        Some(k as nat)
    } else {
        last_open_match(ps, login, password, k as nat)
    }));
    if password == ps[k].password && ps[k].blocked {
        assert(credentials_match(ps[k], login, password));
    }
}

/// After a user's password was changed, that user signs in with the new password,
/// and no longer with the old one.
pub proof fn law_new_user_password_signs_in(
    s: SessionView,
    ps: Seq<PersonView>,
    k: int,
    new_password: Seq<char>,
)
    requires
        unique_user(ps, k),
        !ps[k].blocked,
    ensures
        ({
            let qs = ps.update(k, with_password(ps[k], new_password));
            let r = sign_in_spec(s, qs, ps[k].name, new_password);
            let o = sign_in_spec(s, qs, ps[k].name, ps[k].password);
            &&& r.state == State::UserPanel
            &&& r.user_index == k
            &&& ps[k].password != new_password ==> o.state == s.state && o.user_index
                == s.user_index
        }),
{
    let qs = ps.update(k, with_password(ps[k], new_password));
    assert(unique_user(qs, k));
    lemma_unique_user_sign_in(s, qs, k, new_password);
    lemma_unique_user_sign_in(s, qs, k, ps[k].password);
}

/// A user who was blocked is refused with the blocked message, and the screen stays
/// as it was.
pub proof fn law_blocked_user_is_refused(s: SessionView, ps: Seq<PersonView>, k: int)
    requires
        unique_user(ps, k),
    ensures
        ({
            let qs = ps.update(k, with_blocked(ps[k], true));
            let r = sign_in_spec(s, qs, ps[k].name, ps[k].password);
            &&& r.state == s.state
            &&& r.user_index == s.user_index
            &&& r.err_msg == blocked_message(ps[k].name)
        }),
{
    let qs = ps.update(k, with_blocked(ps[k], true));
    assert(unique_user(qs, k));
    lemma_unique_user_sign_in(s, qs, k, ps[k].password);
}

/// A user that was just added signs in with an empty password, when no one else has
/// that name.
pub proof fn law_new_user_signs_in(s: SessionView, ps: Seq<PersonView>, name: Seq<char>)
    requires
        0 < ps.len() < usize::MAX,
        forall|j: int| 0 <= j < ps.len() ==> #[trigger] ps[j].name != name,
    ensures
        ({
            let qs = ps.push(new_user(name));
            let r = sign_in_spec(s, qs, name, seq![]);
            &&& r.state == State::UserPanel
            &&& r.user_index == ps.len()
        }),
{
    let qs = ps.push(new_user(name));
    let k = ps.len() as int;
    assert forall|j: int| 0 <= j < qs.len() && j != k implies #[trigger] qs[j].name
        != qs[k].name by {
        assert(qs[j] == ps[j]);
    }
    assert(unique_user(qs, k));
    lemma_unique_user_sign_in(s, qs, k, seq![]);
}

} // verus!
