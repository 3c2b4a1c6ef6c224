use userlist::panels::{admin_panel_step, user_panel_step, AdminEvent, PanelAction, UserEvent};
use userlist::person::Person;
use userlist::session::{AdminButton, AdminPanelState, State};

fn person(name: &str, password: &str, limit: bool) -> Person {
    Person::new().name(name.to_string()).password(password.to_string()).is_limit(limit)
}

fn list() -> Vec<Person> {
    vec![person("ADMIN", "root", false), person("ann", "a1", true), person("bob", "b1", false)]
}

struct Admin {
    view: AdminPanelState,
    state: State,
    persons: Vec<Person>,
    status: String,
}

impl Admin {
    fn new() -> Admin {
        Admin { view: AdminPanelState::Nothing, state: State::AdminPanel, persons: list(), status: String::new() }
    }

    fn step(&mut self, e: AdminEvent) -> PanelAction {
        admin_panel_step(&mut self.view, &mut self.state, &mut self.persons, &mut self.status, e)
    }
}

fn change(old: &str, new: &str) -> AdminEvent {
    AdminEvent::ChangePassword { old_password: old.to_string(), new_password: new.to_string() }
}

#[test]
fn buttons_open_parts_and_exit() {
    let mut a = Admin::new();
    assert_eq!(a.step(AdminEvent::Button(AdminButton::ListUsers)), PanelAction::Stay);
    assert_eq!(a.view, AdminPanelState::ListUsers);
    a.step(AdminEvent::Button(AdminButton::ExitToLogin));
    assert_eq!(a.view, AdminPanelState::Nothing);
    assert_eq!(a.state, State::Login);
}

#[test]
fn admin_password_change_saves_only_on_success() {
    let mut a = Admin::new();
    assert_eq!(a.step(change("root", "x")), PanelAction::Stay);
    assert_eq!(a.persons[0].password, "root");
    a.step(AdminEvent::Button(AdminButton::ChangePassword));
    assert_eq!(a.step(change("nope", "x")), PanelAction::Stay);
    assert_eq!(a.status, "Old password incorrect");
    assert_eq!(a.persons[0].password, "root");
    assert_eq!(a.step(change("root", "toor")), PanelAction::SaveUserList);
    assert_eq!(a.status, "Pasword changed succesfully");
    assert_eq!(a.persons[0].password, "toor");
    assert_eq!(a.persons[1].password, "a1");
}

#[test]
fn toggles_block_without_saving() {
    let mut a = Admin::new();
    assert_eq!(a.step(AdminEvent::ToggleBlocked { index: 2, blocked: true }), PanelAction::Stay);
    assert!(!a.persons[2].blocked);
    a.step(AdminEvent::Button(AdminButton::ListUsers));
    assert_eq!(a.step(AdminEvent::ToggleBlocked { index: 2, blocked: true }), PanelAction::Stay);
    assert!(a.persons[2].blocked);
}

#[test]
fn adding_saves_a_blank_user() {
    let mut a = Admin::new();
    assert_eq!(a.step(AdminEvent::AddUser { name: "dora".to_string() }), PanelAction::Stay);
    assert_eq!(a.persons.len(), 3);
    a.step(AdminEvent::Button(AdminButton::AddNewUser));
    assert_eq!(a.step(AdminEvent::AddUser { name: "dora".to_string() }), PanelAction::SaveUserList);
    assert_eq!(a.persons.len(), 4);
    assert_eq!(a.persons[3].name, "dora");
    assert_eq!(a.persons[3].password, "");
    assert!(!a.persons[3].blocked && !a.persons[3].limit);
}

#[test]
fn admin_panel_keeps_names_and_limits() {
    let mut a = Admin::new();
    let before = list();
    for e in [
        AdminEvent::Button(AdminButton::ChangePassword),
        change("root", "r2"),
        AdminEvent::Button(AdminButton::ListUsers),
        AdminEvent::ToggleBlocked { index: 1, blocked: true },
        AdminEvent::Button(AdminButton::AddNewUser),
        AdminEvent::AddUser { name: "eve".to_string() },
        AdminEvent::Button(AdminButton::ListUsers),
        AdminEvent::ToggleBlocked { index: 3, blocked: true },
    ] {
        a.step(e);
    }
    assert!(a.persons.len() >= before.len());
    for (i, p) in before.iter().enumerate() {
        assert_eq!(a.persons[i].name, p.name);
        assert_eq!(a.persons[i].limit, p.limit);
        if i > 0 {
            assert_eq!(a.persons[i].password, p.password);
        }
    }
    assert_eq!(a.persons[3].password, "");
    assert!(!a.persons[3].limit);
    assert!(a.persons[3].blocked);
}

#[test]
fn user_changes_only_own_password() {
    let mut persons = list();
    let mut state = State::UserPanel;
    let mut status = String::new();
    let e = UserEvent::ChangePassword { old_password: "a1".to_string(), new_password: "z".to_string() };
    assert_eq!(user_panel_step(&mut state, &mut persons, &mut status, 1, e), PanelAction::SaveUserList);
    assert_eq!(persons[1].password, "z");
    assert_eq!(persons[1].name, "ann");
    assert!(persons[1].limit);
    assert_eq!(persons[0].password, "root");
    assert_eq!(persons[2].password, "b1");
    let e = UserEvent::ChangePassword { old_password: "a1".to_string(), new_password: "y".to_string() };
    assert_eq!(user_panel_step(&mut state, &mut persons, &mut status, 1, e), PanelAction::Stay);
    assert_eq!(status, "Old password incorrect");
    assert_eq!(persons[1].password, "z");
    assert_eq!(user_panel_step(&mut state, &mut persons, &mut status, 1, UserEvent::ExitToLogin), PanelAction::Stay);
    assert_eq!(state, State::Login);
}
