use vstd::prelude::*;

use crate::accounts::{
    add_user, change_password, change_status_message, change_status_text, new_user,
    set_blocked, with_blocked, with_password,
};
use crate::person::{Person, PersonView, person_views};
use crate::session::{
    AdminButton, AdminPanelState, State, press_admin_button, state_after_button,
    view_after_button,
};

verus! {

/// What a frame of a panel asks of the program once it is drawn.
#[derive(PartialEq, Eq, Structural, Clone, Copy, Debug)]
pub enum PanelAction {
    /// Nothing more.
    Stay,
    /// Write the user list to its file.
    SaveUserList,
}

/// What the administrator did in one frame of the administrator's panel.
pub enum AdminEvent {
    /// Pressed one of the buttons on the left.
    Button(AdminButton),
    /// Pressed "Change" with these old and new passwords.
    ChangePassword { old_password: String, new_password: String },
    /// Flipped the blocked toggle of the user at `index` to `blocked`.
    ToggleBlocked { index: usize, blocked: bool },
    /// Pressed "Add" with this name.
    AddUser { name: String },
}

/// The value of an [`AdminEvent`].
pub enum AdminEventView {
    Button(AdminButton),
    ChangePassword { old_password: Seq<char>, new_password: Seq<char> },
    ToggleBlocked { index: usize, blocked: bool },
    AddUser { name: Seq<char> },
}

impl View for AdminEvent {
    type V = AdminEventView;

    open spec fn view(&self) -> AdminEventView {
        match self {
            AdminEvent::Button(b) => AdminEventView::Button(*b),
            AdminEvent::ChangePassword { old_password, new_password } => {
                AdminEventView::ChangePassword {
                    old_password: old_password@,
                    new_password: new_password@,
                }
            },
            AdminEvent::ToggleBlocked { index, blocked } => AdminEventView::ToggleBlocked {
                index: *index,
                blocked: *blocked,
            },
            AdminEvent::AddUser { name } => AdminEventView::AddUser { name: name@ },
        }
    }
}

/// What the administrator's panel keeps: the part that is open, the screen, the
/// user list and the status line of the last password change.
pub struct AdminFrame {
    pub view: AdminPanelState,
    pub state: State,
    pub persons: Seq<PersonView>,
    pub change_status: Seq<char>,
}

/// One frame of the administrator's panel: the buttons on the left open a part of
/// it (or leave it); "Change" in the password part changes the administrator's
/// password when the old one is right, and then asks for a save; a toggle in the
/// list sets that user's blocked flag without a save; "Add" appends a new user and
/// asks for a save. A control of a part that is not open does nothing.
pub open spec fn admin_step(f: AdminFrame, e: AdminEventView) -> (AdminFrame, PanelAction) {
    match e {
        AdminEventView::Button(b) => (
            AdminFrame {
                view: view_after_button(b),
                state: state_after_button(b, f.state),
                persons: f.persons,
                change_status: f.change_status,
            },
            PanelAction::Stay,
        ),
        AdminEventView::ChangePassword { old_password, new_password } => {
            if f.view == AdminPanelState::ChangePass && f.persons.len() > 0 {
                let changed = old_password == f.persons[0].password;
                (
                    AdminFrame {
                        view: f.view,
                        state: f.state,
                        persons: if changed {
                            f.persons.update(0, with_password(f.persons[0], new_password))
                        } else {
                            f.persons
                        },
                        change_status: change_status_text(changed),
                    },
                    if changed {
                        PanelAction::SaveUserList
                    } else {
                        PanelAction::Stay
                    },
                )
            } else {
                (f, PanelAction::Stay)
            }
        },
        AdminEventView::ToggleBlocked { index, blocked } => {
            if f.view == AdminPanelState::ListUsers && index < f.persons.len() {
                (
                    AdminFrame {
                        view: f.view,
                        state: f.state,
                        persons: f.persons.update(
                            index as int,
                            with_blocked(f.persons[index as int], blocked),
                        ),
                        change_status: f.change_status,
                    },
                    PanelAction::Stay,
                )
            } else {
                (f, PanelAction::Stay)
            }
        },
        AdminEventView::AddUser { name } => {
            if f.view == AdminPanelState::AddNewUser {
                (
                    AdminFrame {
                        view: f.view,
                        state: f.state,
                        persons: f.persons.push(new_user(name)),
                        change_status: f.change_status,
                    },
                    PanelAction::SaveUserList,
                )
            } else {
                (f, PanelAction::Stay)
            }
        },
    }
}

/// The administrator's panel after the events `es`, one after the other.
pub open spec fn admin_steps(f: AdminFrame, es: Seq<AdminEventView>) -> AdminFrame
    decreases es.len(),
{
    if es.len() == 0 {
        f
    } else {
        admin_steps(admin_step(f, es[0]).0, es.drop_first())
    }
}

/// Handles what the administrator did in one frame of the administrator's panel,
/// whose first user is the administrator; returns what the program must do next.
pub fn admin_panel_step(
    view: &mut AdminPanelState,
    state: &mut State,
    persons: &mut Vec<Person>,
    change_status: &mut String,
    event: AdminEvent,
) -> (action: PanelAction)
    requires
        old(persons).len() > 0,
        *old(view) == AdminPanelState::ListUsers ==> (event@ matches AdminEventView::ToggleBlocked {
            index,
            ..
        } ==> index < old(persons).len()),
    ensures
        ({
            let (g, a) = admin_step(
                AdminFrame {
                    view: *old(view),
                    state: *old(state),
                    persons: person_views(old(persons)@),
                    change_status: old(change_status)@,
                },
                event@,
            );
            &&& *final(view) == g.view
            &&& *final(state) == g.state
            &&& person_views(final(persons)@) == g.persons
            &&& final(change_status)@ == g.change_status
            &&& action == a
        }),
{
    match event {
        AdminEvent::Button(b) => {
            press_admin_button(b, view, state);
            PanelAction::Stay
        },
        AdminEvent::ChangePassword { old_password, new_password } => {
            if *view == AdminPanelState::ChangePass {
                assert(person_views(persons@)[0] == persons@[0]@);
                let changed = change_password(persons, 0, &old_password, &new_password);
                *change_status = change_status_message(changed);
                if changed {
                    PanelAction::SaveUserList
                } else {
                    PanelAction::Stay
                }
            } else {
                PanelAction::Stay
            }
        },
        AdminEvent::ToggleBlocked { index, blocked } => {
            if *view == AdminPanelState::ListUsers {
                assert(person_views(persons@)[index as int] == persons@[index as int]@);
                set_blocked(persons, index, blocked);
            }
            PanelAction::Stay
        },
        AdminEvent::AddUser { name } => {
            if *view == AdminPanelState::AddNewUser {
                add_user(persons, &name);
                PanelAction::SaveUserList
            } else {
                PanelAction::Stay
            }
        },
    }
}

/// What a user did in one frame of the user's panel.
pub enum UserEvent {
    /// Pressed "Change" with these old and new passwords.
    ChangePassword { old_password: String, new_password: String },
    /// Pressed "Exit to Login Menu".
    ExitToLogin,
}

/// The value of a [`UserEvent`].
pub enum UserEventView {
    ChangePassword { old_password: Seq<char>, new_password: Seq<char> },
    ExitToLogin,
}

impl View for UserEvent {
    type V = UserEventView;

    open spec fn view(&self) -> UserEventView {
        match self {
            UserEvent::ChangePassword { old_password, new_password } => {
                UserEventView::ChangePassword {
                    old_password: old_password@,
                    new_password: new_password@,
                }
            },
            UserEvent::ExitToLogin => UserEventView::ExitToLogin,
        }
    }
}

/// What the panel of the user at some index keeps: the screen, the user list and
/// the status line of the last password change.
pub struct UserFrame {
    pub state: State,
    pub persons: Seq<PersonView>,
    pub change_status: Seq<char>,
}

/// One frame of the panel of the user at `k`: "Change" changes that user's password
/// when the old one is right, and then asks for a save; "Exit to Login Menu" goes
/// back to the sign-in screen.
pub open spec fn user_step(f: UserFrame, k: int, e: UserEventView) -> (UserFrame, PanelAction) {
    match e {
        UserEventView::ChangePassword { old_password, new_password } => {
            if 0 <= k < f.persons.len() {
                let changed = old_password == f.persons[k].password;
                (
                    UserFrame {
                        state: f.state,
                        persons: if changed {
                            f.persons.update(k, with_password(f.persons[k], new_password))
                        } else {
                            f.persons
                        },
                        change_status: change_status_text(changed),
                    },
                    if changed {
                        PanelAction::SaveUserList
                    } else {
                        PanelAction::Stay
                    },
                )
            } else {
                (f, PanelAction::Stay)
            }
        },
        UserEventView::ExitToLogin => (
            UserFrame { state: State::Login, persons: f.persons, change_status: f.change_status },
            PanelAction::Stay,
        ),
    }
}

/// The panel of the user at `k` after the events `es`, one after the other.
pub open spec fn user_steps(f: UserFrame, k: int, es: Seq<UserEventView>) -> UserFrame
    decreases es.len(),
{
    if es.len() == 0 {
        f
    } else {
        user_steps(user_step(f, k, es[0]).0, k, es.drop_first())
    }
}

/// Handles what the user at `user_index` did in one frame of that user's panel;
/// returns what the program must do next.
pub fn user_panel_step(
    state: &mut State,
    persons: &mut Vec<Person>,
    change_status: &mut String,
    user_index: usize,
    event: UserEvent,
) -> (action: PanelAction)
    requires
        user_index < old(persons).len(),
    ensures
        ({
            let (g, a) = user_step(
                UserFrame {
                    state: *old(state),
                    persons: person_views(old(persons)@),
                    change_status: old(change_status)@,
                },
                user_index as int,
                event@,
            );
            &&& *final(state) == g.state
            &&& person_views(final(persons)@) == g.persons
            &&& final(change_status)@ == g.change_status
            &&& action == a
        }),
{
    match event {
        UserEvent::ChangePassword { old_password, new_password } => {
            assert(person_views(persons@)[user_index as int] == persons@[user_index as int]@);
            let changed = change_password(persons, user_index, &old_password, &new_password);
            *change_status = change_status_message(changed);
            if changed {
                PanelAction::SaveUserList
            } else {
                PanelAction::Stay
            }
        },
        UserEvent::ExitToLogin => {
            *state = State::Login;
            PanelAction::Stay
        },
    }
}


/// On the open list of users, a toggle leaves the user at its index with exactly the
/// blocked flag it gives (`false` unblocks), changes nothing else, and asks for no
/// save.
pub proof fn law_toggle_sets_blocked(f: AdminFrame, index: usize, blocked: bool)
    requires
        f.view == AdminPanelState::ListUsers,
        index < f.persons.len(),
    ensures
        ({
            let (g, a) = admin_step(f, AdminEventView::ToggleBlocked { index, blocked });
            &&& g.persons.len() == f.persons.len()
            &&& g.persons[index as int].blocked == blocked
            &&& g.persons[index as int].name == f.persons[index as int].name
            &&& g.persons[index as int].password == f.persons[index as int].password
            &&& g.persons[index as int].limit == f.persons[index as int].limit
            &&& forall|j: int|
                0 <= j < f.persons.len() && j != index ==> #[trigger] g.persons[j]
                    == f.persons[j]
            &&& g.view == f.view
            &&& g.state == f.state
            &&& g.change_status == f.change_status
            &&& a == PanelAction::Stay
        }),
{
}

/// Blocking a user who is not blocked and then unblocking them gives back the same
/// user list.
pub proof fn law_block_then_unblock_restores(f: AdminFrame, index: usize)
    requires
        f.view == AdminPanelState::ListUsers,
        index < f.persons.len(),
        !f.persons[index as int].blocked,
    ensures
        admin_steps(
            f,
            seq![
                AdminEventView::ToggleBlocked { index, blocked: true },
                AdminEventView::ToggleBlocked { index, blocked: false },
            ],
        ).persons == f.persons,
{
    let es = seq![
        AdminEventView::ToggleBlocked { index, blocked: true },
        AdminEventView::ToggleBlocked { index, blocked: false },
    ];
    let h = admin_step(f, es[0]).0;
    let g = admin_step(h, es[1]).0;
    assert(es.drop_first().drop_first() =~= Seq::<AdminEventView>::empty());
    assert(es.drop_first()[0] == es[1]);
    assert(admin_steps(f, es) == admin_steps(h, es.drop_first()));
    assert(admin_steps(h, es.drop_first()) == admin_steps(g, es.drop_first().drop_first()));
    assert(g.persons =~= f.persons);
}

/// Frame after frame, the administrator's panel stays on its screen until "Exit to
/// Login Menu" is pressed, which goes back to the sign-in screen.
pub proof fn law_admin_panel_leaves_only_by_exit(f: AdminFrame, es: Seq<AdminEventView>)
    ensures
        admin_steps(f, es).state == if exists|i: int|
            0 <= i < es.len() && #[trigger] es[i] == AdminEventView::Button(
                AdminButton::ExitToLogin,
            ) {
            State::Login
        } else {
            f.state
        },
    decreases es.len(),
{
    if es.len() > 0 {
        let h = admin_step(f, es[0]).0;
        law_admin_panel_leaves_only_by_exit(h, es.drop_first());
        let exit = AdminEventView::Button(AdminButton::ExitToLogin);
        if exists|i: int| 0 <= i < es.drop_first().len() && #[trigger] es.drop_first()[i] == exit {
            let i = choose|i: int| 0 <= i < es.drop_first().len() && #[trigger] es.drop_first()[i]
                == exit;
            assert(es[i + 1] == exit);
        } else if es[0] == exit {
        } else {
            assert forall|i: int| 0 <= i < es.len() implies #[trigger] es[i] != exit by {
                if i > 0 {
                    assert(es[i] == es.drop_first()[i - 1]);
                }
            }
            match es[0] {
                AdminEventView::Button(b) => {
                    assert(b != AdminButton::ExitToLogin);
                },
                _ => {},
            }
        }
    }
}

/// Frame after frame, a user's panel stays on its screen, whatever password change
/// is asked for, until "Exit to Login Menu" is pressed, which goes back to the
/// sign-in screen.
pub proof fn law_user_panel_leaves_only_by_exit(f: UserFrame, k: int, es: Seq<UserEventView>)
    ensures
        user_steps(f, k, es).state == if exists|i: int|
            0 <= i < es.len() && #[trigger] es[i] == UserEventView::ExitToLogin {
            State::Login
        } else {
            f.state
        },
    decreases es.len(),
{
    if es.len() > 0 {
        let h = user_step(f, k, es[0]).0;
        law_user_panel_leaves_only_by_exit(h, k, es.drop_first());
        let exit = UserEventView::ExitToLogin;
        if exists|i: int| 0 <= i < es.drop_first().len() && #[trigger] es.drop_first()[i] == exit {
            let i = choose|i: int| 0 <= i < es.drop_first().len() && #[trigger] es.drop_first()[i]
                == exit;
            assert(es[i + 1] == exit);
        } else if es[0] == exit {
        } else {
            assert forall|i: int| 0 <= i < es.len() implies #[trigger] es[i] != exit by {
                if i > 0 {
                    assert(es[i] == es.drop_first()[i - 1]);
                }
            }
        }
    }
}

} // verus!
