use vstd::prelude::*;

use crate::maimai::internal_lv_estimator::EstimatorConfig;

verus! {

/// The name under which a user's records are told apart.
#[derive(Clone, PartialEq, Eq, Debug)]
pub struct UserName(pub String);

/// One user of a shared estimation: a name, where the user's data lies, and
/// what the user vouches for.
#[derive(Clone, Debug)]
pub struct User {
    name: UserName,
    data_path: String,
    estimator_config: EstimatorConfig,
}

/// The users of a shared estimation.
#[derive(Clone, Debug)]
pub struct Root {
    users: Vec<User>,
}

impl User {
    pub fn new(name: UserName, data_path: String, estimator_config: EstimatorConfig) -> (r: User)
        ensures
            r.name_spec() == name,
            r.data_path_spec() == data_path,
            r.estimator_config_spec() == estimator_config,
    {
        User { name, data_path, estimator_config }
    }

    pub closed spec fn name_spec(self) -> UserName {
        self.name
    }

    pub closed spec fn data_path_spec(self) -> String {
        self.data_path
    }

    pub closed spec fn estimator_config_spec(self) -> EstimatorConfig {
        self.estimator_config
    }

    pub fn name(&self) -> (r: &UserName)
        ensures
            *r == self.name_spec(),
    {
        &self.name
    }

    pub fn data_path(&self) -> (r: &String)
        ensures
            *r == self.data_path_spec(),
    {
        &self.data_path
    }

    pub fn estimator_config(&self) -> (r: EstimatorConfig)
        ensures
            r == self.estimator_config_spec(),
    {
        self.estimator_config
    }
}

impl Root {
    pub fn new(users: Vec<User>) -> (r: Root)
        ensures
            r.users_spec() == users@,
    {
        Root { users }
    }

    pub closed spec fn users_spec(self) -> Seq<User> {
        self.users@
    }

    pub fn users(&self) -> (r: &Vec<User>)
        ensures
            r@ == self.users_spec(),
    {
        &self.users
    }
}

} // verus!
