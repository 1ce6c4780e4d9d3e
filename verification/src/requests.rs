//! Bodies of the requests that change users, classes and whitelists, and
//! the texts that are made from them.

use vstd::prelude::*;
use vstd::string::StringExecFns;

use crate::decimal::{i64_to_decimal, signed_decimal};

verus! {

/// Value of `enable_whitelist` that leaves the setting of the class as it is.
pub const KEEP_WHITELIST: i64 = 2;

/// Body of a request that changes a class.
pub struct ClassDataBody {
    /// New name of the class; empty to keep the name.
    pub class_name: String,
    /// Whether the class uses its whitelist; `KEEP_WHITELIST` to keep the
    /// setting.
    pub enable_whitelist: i64,
    /// Whether students must log in.
    pub rsl: i64,
}

/// Body of a request that creates or renames a user.
pub struct UserDataBody {
    user_name: String,
    email: String,
}

/// Body of a request that adds a user to a whitelist or takes one off it.
pub struct WhitelistDataBody {
    pub user: String,
}

impl ClassDataBody {
    /// The body asks for a change of the whitelist setting.
    pub open spec fn sets_whitelist(&self) -> bool {
        self.enable_whitelist != KEEP_WHITELIST
    }

    /// The body asks for a new name.
    pub open spec fn sets_name(&self) -> bool {
        self.class_name@.len() > 0
    }

    /// Whether the body asks for any change at all.
    pub fn changes_something(&self) -> (any: bool)
        ensures
            any == (self.sets_whitelist() || self.sets_name()),
    {
        self.enable_whitelist != KEEP_WHITELIST || !self.class_name.as_str().is_empty()
    }
}

/// The assignment that sets the whitelist column.
pub open spec fn whitelist_assignment(enable_whitelist: int) -> Seq<char> {
    "enable_whitelist="@ + signed_decimal(enable_whitelist)
}

/// The assignment that sets the name column, the name between single quotes
/// as it came.
pub open spec fn name_assignment(class_name: Seq<char>) -> Seq<char> {
    "class_name='"@ + class_name + "'"@
}

/// The assignments that `data` asks for, whitelist first, with a comma
/// between them where there are two.
pub open spec fn class_update_query(data: ClassDataBody) -> Seq<char> {
    if !data.sets_whitelist() {
        name_assignment(data.class_name@)
    } else if !data.sets_name() {
        whitelist_assignment(data.enable_whitelist as int)
    } else {
        whitelist_assignment(data.enable_whitelist as int) + ","@ + name_assignment(
            data.class_name@,
        )
    }
}

/// Writes the list of assignments of an `UPDATE` statement for a class.
/// Columns that the body leaves alone do not appear. A body that changes
/// nothing has no such list.
pub fn generate_class_update_query(data: &ClassDataBody) -> (query: String)
    requires
        data.sets_whitelist() || data.sets_name(),
    ensures
        query@ == class_update_query(*data),
{
    let mut query = String::new();
    if data.enable_whitelist != KEEP_WHITELIST {
        let digits = i64_to_decimal(data.enable_whitelist);
        query.append("enable_whitelist=");
        query.append(digits.as_str());
    }
    if !data.class_name.as_str().is_empty() {
        if data.enable_whitelist != KEEP_WHITELIST {
            query.append(",");
        }
        query.append("class_name='");
        query.append(data.class_name.as_str());
        query.append("'");
    }
    assert(query@ =~= class_update_query(*data));
    query
}

/// The statement that applies `data` to the class `class_id` of the owner
/// who holds `bearer`.
pub open spec fn class_update_statement(
    data: ClassDataBody,
    class_id: Seq<char>,
    bearer: Seq<char>,
) -> Seq<char> {
    "UPDATE classes SET "@ + class_update_query(data) + " WHERE class_id='"@ + class_id
        + "' AND owner_bearer='"@ + bearer + "'"@
}

/// Writes the `UPDATE` statement for a class. Class and bearer go in
/// between single quotes as they came.
pub fn update_class_statement(data: &ClassDataBody, class_id: &str, bearer: &str) -> (statement:
    String)
    requires
        data.sets_whitelist() || data.sets_name(),
    ensures
        statement@ == class_update_statement(*data, class_id@, bearer@),
{
    let query = generate_class_update_query(data);
    let mut statement = String::from_str("UPDATE classes SET ");
    statement.append(query.as_str());
    statement.append(" WHERE class_id='");
    statement.append(class_id);
    statement.append("' AND owner_bearer='");
    statement.append(bearer);
    statement.append("'");
    assert(statement@ =~= class_update_statement(*data, class_id@, bearer@));
    statement
}

impl UserDataBody {
    /// A body with the given name and e-mail address.
    pub fn new(user_name: String, email: String) -> (body: UserDataBody)
        ensures
            body.spec_user_name() == user_name@,
            body.spec_email() == email@,
    {
        UserDataBody { user_name, email }
    }

    /// The characters of the name.
    pub closed spec fn spec_user_name(&self) -> Seq<char> {
        self.user_name@
    }

    /// The characters of the e-mail address.
    pub closed spec fn spec_email(&self) -> Seq<char> {
        self.email@
    }

    /// The name that the user is to have.
    pub fn user_name(&self) -> (name: &str)
        ensures
            name@ == self.spec_user_name(),
    {
        self.user_name.as_str()
    }

    /// The e-mail address of the user.
    pub fn email(&self) -> (email: &str)
        ensures
            email@ == self.spec_email(),
    {
        self.email.as_str()
    }

    /// Whether the body names the user: a rename with an empty name is not
    /// carried out.
    pub fn has_user_name(&self) -> (named: bool)
        ensures
            named == (self.spec_user_name().len() > 0),
    {
        !self.user_name.as_str().is_empty()
    }
}

/// The answer to a request that changed rows: it reports success when at
/// least one row was affected.
pub open spec fn success_text(rows_affected: nat) -> Seq<char> {
    if rows_affected > 0 {
        "{\"success\": true}"@
    } else {
        "{\"success\": false}"@
    }
}

/// Writes the answer to a request that changed `rows_affected` rows.
pub fn success_response(rows_affected: u64) -> (text: String)
    ensures
        text@ == success_text(rows_affected as nat),
{
    if rows_affected > 0 {
        String::from_str("{\"success\": true}")
    } else {
        String::from_str("{\"success\": false}")
    }
}

} // verus!
