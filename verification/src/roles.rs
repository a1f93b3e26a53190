use vstd::prelude::*;
use vstd::string::*;

verus! {

/// The role a user holds on the platform.
#[derive(Clone, Copy, Debug, PartialEq, Eq, Structural)]
pub enum Role {
    Student,
    Teacher,
    Admin,
}

impl Role {
    /// The role that a status text names, if it names one.
    pub open spec fn parse(text: Seq<char>) -> Option<Role> {
        if text == "admin"@ {
            Some(Role::Admin)
        } else if text == "teacher"@ {
            Some(Role::Teacher)
        } else if text == "student"@ {
            Some(Role::Student)
        } else {
            None
        }
    }

    /// The status text of a role.
    pub open spec fn name(self) -> Seq<char> {
        match self {
            Role::Teacher => "teacher"@,
            Role::Admin => "admin"@,
            Role::Student => "student"@,
        }
    }

    /// Reads a role from its status text; any other text is an error.
    pub fn from_str(role: &str) -> (r: Result<Role, String>)
        ensures
            match Role::parse(role@) {
                Some(x) => r == Ok::<Role, String>(x),
                None => r is Err && r->Err_0@ == "Invalid role"@,
            },
    {
        let text = role.to_owned();
        if text == "admin".to_owned() {
            Ok(Role::Admin)
        } else if text == "teacher".to_owned() {
            Ok(Role::Teacher)
        } else if text == "student".to_owned() {
            Ok(Role::Student)
        } else {
            Err("Invalid role".to_owned())
        }
    }

    /// The status text of the role, as an owned string.
    pub fn to_string(&self) -> (r: String)
        ensures
            r@ == self.name(),
    {
        match self {
            Role::Teacher => "teacher".to_owned(),
            Role::Admin => "admin".to_owned(),
            Role::Student => "student".to_owned(),
        }
    }
}

/// Reading back the status text of a role gives that role.
pub proof fn lemma_parse_name(role: Role)
    ensures
        Role::parse(role.name()) == Some(role),
{
    reveal_strlit("admin");
    reveal_strlit("teacher");
    reveal_strlit("student");
    assert("teacher"@[0] != "admin"@[0]);
    assert("student"@[0] != "admin"@[0]);
    assert("student"@[0] != "teacher"@[0]);
}

} // verus!
