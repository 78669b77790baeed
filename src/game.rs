use vstd::prelude::*;

verus! {

/// One title of an account's library, as seen at one poll.
#[derive(Debug)]
pub struct Game {
    pub name: String,
    pub app_id: u32,
    /// Cumulative playtime, in minutes.
    pub playtime_forever: u32,
}

impl Game {
    pub fn new(name: String, app_id: u32, playtime_forever: u32) -> (r: Game)
        ensures
            r.name == name,
            r.app_id == app_id,
            r.playtime_forever == playtime_forever,
    {
        Game { name, app_id, playtime_forever }
    }
}

/// Two titles are the same cache entry when their identifier and their
/// playtime agree; the display name is not compared.
pub open spec fn same_entry(a: Game, b: Game) -> bool {
    a.app_id == b.app_id && a.playtime_forever == b.playtime_forever
}

impl PartialEq for Game {
    fn eq(&self, other: &Game) -> (r: bool)
        ensures
            r == same_entry(*self, *other),
    {
        other.app_id == self.app_id && other.playtime_forever == self.playtime_forever
    }
}

impl vstd::std_specs::cmp::PartialEqSpecImpl for Game {
    open spec fn obeys_eq_spec() -> bool {
        true
    }

    open spec fn eq_spec(&self, other: &Game) -> bool {
        same_entry(*self, *other)
    }
}

} // verus!
