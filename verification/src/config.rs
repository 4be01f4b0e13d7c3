//! What the monitor is told about its server, its account and its room.
use vstd::prelude::*;

verus! {

/// Where to connect, as whom, and which room to watch.
pub struct Config {
    pub server: String,
    pub email: String,
    pub password: String,
    pub room_id: String,
}

impl Config {
    /// A second copy of the configuration.
    pub fn duplicate(&self) -> (r: Self)
        ensures
            r == *self,
    {
        Config {
            server: self.server.clone(),
            email: self.email.clone(),
            password: self.password.clone(),
            room_id: self.room_id.clone(),
        }
    }

    /// The token to start with. In a replay the password takes its place, and no login is needed.
    pub fn initial_token(&self, replay: bool) -> (r: Option<String>)
        ensures
            r == if replay {
                Some(self.password)
            } else {
                None
            },
    {
        if replay {
            Some(self.password.clone())
        } else {
            None
        }
    }
}

} // verus!
