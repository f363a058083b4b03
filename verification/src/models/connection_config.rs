//! A named connection profile.

use vstd::prelude::*;

verus! {

/// The mathematical form of a connection profile.
pub struct Profile {
    pub name: Seq<char>,
    pub host: Seq<char>,
    pub port: u16,
    pub username: Seq<char>,
    pub password: Seq<char>,
}

/// The parameters of one connection, under a name that identifies it.
#[derive(Debug, Clone, PartialEq, Eq)]
pub struct ConnectionConfig {
    pub name: String,
    pub host: String,
    pub port: u16,
    pub username: String,
    pub password: String,
}

impl DeepView for ConnectionConfig {
    type V = Profile;

    open spec fn deep_view(&self) -> Profile {
        Profile {
            name: self.name@,
            host: self.host@,
            port: self.port,
            username: self.username@,
            password: self.password@,
        }
    }
}

impl View for ConnectionConfig {
    type V = Profile;

    open spec fn view(&self) -> Profile {
        self.deep_view()
    }
}

impl ConnectionConfig {
    /// A copy of the profile.
    pub fn duplicate(&self) -> (r: ConnectionConfig)
        ensures
            r@ == self@,
    {
        ConnectionConfig {
            name: self.name.clone(),
            host: self.host.clone(),
            port: self.port,
            username: self.username.clone(),
            password: self.password.clone(),
        }
    }
}

} // verus!
