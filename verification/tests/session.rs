use userlist::accounts::{add_user, change_password, change_status_message, set_blocked, user_list_label};
use userlist::person::Person;
use userlist::session::{press_admin_button, AdminButton, AdminPanelState, LoginSession, State};

fn person(name: &str, password: &str, blocked: bool) -> Person {
    Person::new().name(name.to_string()).password(password.to_string()).is_blocked(blocked)
}

fn list() -> Vec<Person> {
    vec![
        person("ADMIN", "root", false),
        person("ann", "a1", false),
        person("bob", "b1", true),
        person("ann", "a2", false),
    ]
}

fn sign_in(s: &mut LoginSession, ps: &Vec<Person>, login: &str, password: &str) {
    s.sign_in(ps, &login.to_string(), &password.to_string());
}

#[test]
fn fresh_session() {
    let s = LoginSession::new();
    assert_eq!(s.state, State::Login);
    assert_eq!(s.err_msg, "");
    assert_eq!(s.attempts_left, 2);
    assert!(!s.is_incorrect);
}

#[test]
fn admin_signs_in() {
    let ps = list();
    let mut s = LoginSession::new();
    sign_in(&mut s, &ps, "ADMIN", "root");
    assert_eq!(s.state, State::AdminPanel);
    assert_eq!(s.attempts_left, 2);
}

#[test]
fn wrong_admin_password_three_times() {
    let ps = list();
    let mut s = LoginSession::new();
    sign_in(&mut s, &ps, "ADMIN", "x");
    assert_eq!(s.err_msg, "Incorrect admin password, <2> attempts left");
    assert!(s.is_incorrect);
    assert_eq!(s.attempts_left, 1);
    sign_in(&mut s, &ps, "ADMIN", "y");
    assert_eq!(s.err_msg, "Incorrect admin password, <1> attempts left");
    assert_eq!(s.attempts_left, 0);
    sign_in(&mut s, &ps, "ADMIN", "z");
    assert_eq!(s.err_msg, "3 times incorrect password, gg wp, hacker");
    assert_eq!(s.attempts_left, 0);
    assert_eq!(s.state, State::Login);
    sign_in(&mut s, &ps, "ADMIN", "root");
    assert_eq!(s.state, State::AdminPanel);
}

#[test]
fn user_signs_in_to_own_panel() {
    let ps = list();
    let mut s = LoginSession::new();
    sign_in(&mut s, &ps, "ann", "a2");
    assert_eq!(s.state, State::UserPanel);
    assert_eq!(s.user_index, 3);
    let mut s = LoginSession::new();
    sign_in(&mut s, &ps, "ann", "a1");
    assert_eq!(s.user_index, 1);
}

#[test]
fn blocked_user_is_refused() {
    let ps = list();
    let mut s = LoginSession::new();
    sign_in(&mut s, &ps, "bob", "b1");
    assert_eq!(s.state, State::Login);
    assert_eq!(s.err_msg, "bob is blocked");
}

#[test]
fn unknown_user_changes_nothing() {
    let ps = list();
    let mut s = LoginSession::new();
    sign_in(&mut s, &ps, "zed", "b1");
    sign_in(&mut s, &ps, "bob", "wrong");
    assert_eq!(s.state, State::Login);
    assert_eq!(s.err_msg, "");
    assert_eq!(s.attempts_left, 2);
}

#[test]
fn password_change_needs_old_password() {
    let mut ps = list();
    assert!(!change_password(&mut ps, 1, &"nope".to_string(), &"new".to_string()));
    assert_eq!(ps[1].password, "a1");
    assert!(change_password(&mut ps, 1, &"a1".to_string(), &"new".to_string()));
    assert_eq!(ps[1].password, "new");
    assert_eq!(ps[1].name, "ann");
    assert_eq!(ps[3].password, "a2");
    assert_eq!(change_status_message(true), "Pasword changed succesfully");
    assert_eq!(change_status_message(false), "Old password incorrect");
}

#[test]
fn new_admin_password_signs_in() {
    let mut ps = list();
    assert!(change_password(&mut ps, 0, &"root".to_string(), &"toor".to_string()));
    let mut s = LoginSession::new();
    sign_in(&mut s, &ps, "ADMIN", "root");
    assert_eq!(s.state, State::Login);
    sign_in(&mut s, &ps, "ADMIN", "toor");
    assert_eq!(s.state, State::AdminPanel);
}

#[test]
fn blocking_and_unblocking() {
    let mut ps = list();
    set_blocked(&mut ps, 1, true);
    assert!(ps[1].blocked);
    let mut s = LoginSession::new();
    sign_in(&mut s, &ps, "ann", "a1");
    assert_eq!(s.state, State::Login);
    assert_eq!(s.err_msg, "ann is blocked");
    set_blocked(&mut ps, 1, false);
    sign_in(&mut s, &ps, "ann", "a1");
    assert_eq!(s.state, State::UserPanel);
    assert_eq!(s.user_index, 1);
}

#[test]
fn added_user_signs_in_without_password() {
    let mut ps = list();
    add_user(&mut ps, &"dora".to_string());
    assert_eq!(ps.len(), 5);
    assert_eq!(ps[4].name, "dora");
    assert_eq!(ps[4].password, "");
    assert!(!ps[4].blocked && !ps[4].limit);
    let mut s = LoginSession::new();
    sign_in(&mut s, &ps, "dora", "");
    assert_eq!(s.state, State::UserPanel);
    assert_eq!(s.user_index, 4);
}

#[test]
fn list_labels() {
    let p = Person::new().name("ann".to_string()).password("a1".to_string()).is_limit(true);
    assert_eq!(user_list_label(12, &p), "12. ann pass <a1> blocked:<false> limit:<true>");
    let label = format!("{}. {} pass <{}> blocked:<{}> limit:<{}>", 0, p.name, p.password, p.blocked, p.limit);
    assert_eq!(user_list_label(0, &p), label);
}

#[test]
fn admin_buttons() {
    let mut panel = AdminPanelState::Nothing;
    let mut state = State::AdminPanel;
    press_admin_button(AdminButton::ChangePassword, &mut panel, &mut state);
    assert_eq!(panel, AdminPanelState::ChangePass);
    press_admin_button(AdminButton::ListUsers, &mut panel, &mut state);
    assert_eq!(panel, AdminPanelState::ListUsers);
    press_admin_button(AdminButton::AddNewUser, &mut panel, &mut state);
    assert_eq!(panel, AdminPanelState::AddNewUser);
    assert_eq!(state, State::AdminPanel);
    press_admin_button(AdminButton::ExitToLogin, &mut panel, &mut state);
    assert_eq!(panel, AdminPanelState::Nothing);
    assert_eq!(state, State::Login);
}
