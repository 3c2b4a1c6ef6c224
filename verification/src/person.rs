use vstd::prelude::*;

verus! {

/// One entry of the user list: a name, a password, and two flags.
pub struct Person {
    pub name: String,
    pub password: String,
    pub blocked: bool,
    pub limit: bool,
}

/// The mathematical value of a [`Person`].
pub struct PersonView {
    pub name: Seq<char>,
    pub password: Seq<char>,
    pub blocked: bool,
    pub limit: bool,
}

impl View for Person {
    type V = PersonView;

    open spec fn view(&self) -> PersonView {
        PersonView {
            name: self.name@,
            password: self.password@,
            blocked: self.blocked,
            limit: self.limit,
        }
    }
}

/// The values of the persons of a sequence.
pub open spec fn person_views(v: Seq<Person>) -> Seq<PersonView> {
    v.map_values(|p: Person| p@)
}

/// An entry with an empty name and password, neither blocked nor limited.
pub open spec fn blank_person() -> PersonView {
    PersonView { name: seq![], password: seq![], blocked: false, limit: false }
}

impl Person {
    /// A person with an empty name and password, neither blocked nor limited.
    pub fn new() -> (p: Person)
        ensures
            p@ == blank_person(),
    {
        Person { name: String::new(), password: String::new(), blocked: false, limit: false }
    }

    /// The same person under the name `name`.
    pub fn name(self, name: String) -> (p: Person)
        ensures
            p@.name == name@,
            p@.password == self@.password,
            p@.blocked == self@.blocked,
            p@.limit == self@.limit,
    {
        let mut p = self;
        p.name = name;
        p
    }

    /// The same person with the password `password`.
    pub fn password(self, password: String) -> (p: Person)
        ensures
            p@.name == self@.name,
            p@.password == password@,
            p@.blocked == self@.blocked,
            p@.limit == self@.limit,
    {
        let mut p = self;
        p.password = password;
        p
    }

    /// The same person with the blocked flag set to `is_blocked`.
    pub fn is_blocked(self, is_blocked: bool) -> (p: Person)
        ensures
            p@.name == self@.name,
            p@.password == self@.password,
            p@.blocked == is_blocked,
            p@.limit == self@.limit,
    {
        let mut p = self;
        p.blocked = is_blocked;
        p
    }

    /// The same person with the limit flag set to `is_limit`.
    pub fn is_limit(self, is_limit: bool) -> (p: Person)
        ensures
            p@.name == self@.name,
            p@.password == self@.password,
            p@.blocked == self@.blocked,
            p@.limit == is_limit,
    {
        let mut p = self;
        p.limit = is_limit;
        p
    }
}

} // verus!
