//! Process configuration: the paths the client works with, derived from one
//! configuration directory, and the table of configured teams with its
//! lookup rule.

use vstd::prelude::*;

use crate::esa::Team;
use crate::esa::TeamId;

verus! {

/// The paths the client needs: the configuration directory, the files in
/// it, and the editor to launch. All are plain text; whoever owns the
/// process environment resolves and creates them.
#[derive(Debug)]
pub struct Env {
    pub dir_path: String,
    pub config_file_path: String,
    pub tmp_file_path: String,
    pub editor_path: String,
}

impl Env {
    /// Lays out the paths under the given configuration directory, or under
    /// `.esa` in the given home directory when none was given: the
    /// configuration file `config.json` and the scratch file `edit.md`.
    pub fn new(config_dir: Option<String>, home_dir: &str, editor_path: String) -> (e: Env)
        ensures
            e.dir_path@ == match config_dir {
                Option::Some(d) => d@,
                Option::None => home_dir@ + "/.esa"@,
            },
            e.config_file_path@ == e.dir_path@ + "/config.json"@,
            e.tmp_file_path@ == e.dir_path@ + "/edit.md"@,
            e.editor_path == editor_path,
    {
        let dir_path = match config_dir {
            Some(d) => d,
            None => {
                let mut h = home_dir.to_owned();
                h.append("/.esa");
                h
            },
        };
        let mut config_file_path = dir_path.clone();
        config_file_path.append("/config.json");
        let mut tmp_file_path = dir_path.clone();
        tmp_file_path.append("/edit.md");
        Env { dir_path, config_file_path, tmp_file_path, editor_path }
    }
}

/// The first team in a sequence with the given identifier, if any.
pub open spec fn find_team(teams: Seq<Team>, id: Seq<char>) -> Option<Team>
    decreases teams.len(),
{
    if teams.len() == 0 {
        Option::None
    } else if teams[0].id@ == id {
        Option::Some(teams[0])
    } else {
        find_team(teams.drop_first(), id)
    }
}

/// The configured teams: an optional default and an optional list.
pub struct Config {
    pub default_team: Option<Team>,
    pub teams: Option<Vec<Team>>,
}

/// The team the list lookup yields: the first listed one with the
/// identifier, when a list is configured.
pub open spec fn lookup_list(cfg: &Config, id: Seq<char>) -> Option<Team> {
    match cfg.teams {
        Option::Some(ts) => find_team(ts@, id),
        Option::None => Option::None,
    }
}

/// The team a lookup by identifier yields: the default team when it has
/// that identifier, else the first listed team with it.
pub open spec fn spec_get(cfg: &Config, id: Seq<char>) -> Option<Team> {
    match cfg.default_team {
        Option::Some(t) => if t.id@ == id {
            Option::Some(t)
        } else {
            lookup_list(cfg, id)
        },
        Option::None => lookup_list(cfg, id),
    }
}

impl Config {
    /// Looks a team up by identifier: the default team wins when its
    /// identifier matches, else the list is searched in order.
    pub fn get(&self, team_id: TeamId) -> (r: Option<&Team>)
        ensures
            match r {
                Option::Some(t) => spec_get(self, team_id@) == Option::Some(*t),
                Option::None => spec_get(self, team_id@) is None,
            },
    {
        if let Some(team) = &self.default_team {
            if team.id.matches(&team_id) {
                return Some(team);
            }
        }
        match &self.teams {
            Some(ts) => {
                let n: usize = ts.len();
                let mut i: usize = 0;
                proof {
                    assert(ts@.subrange(0, n as int) =~= ts@);
                }
                while i < n
                    invariant
                        i <= n,
                        n == ts@.len(),
                        spec_get(self, team_id@) == find_team(
                            ts@.subrange(i as int, n as int),
                            team_id@,
                        ),
                    decreases n - i,
                {
                    let ghost rest = ts@.subrange(i as int, n as int);
                    if ts[i].id.matches(&team_id) {
                        proof {
                            assert(rest[0] == ts@[i as int]);
                            assert(find_team(rest, team_id@) == Option::Some(ts@[i as int]));
                        }
                        return Some(&ts[i]);
                    }
                    proof {
                        assert(rest.drop_first() =~= ts@.subrange(i + 1, n as int));
                    }
                    i = i + 1;
                }
                proof {
                    assert(ts@.subrange(n as int, n as int) =~= Seq::<Team>::empty());
                }
                None
            },
            None => None,
        }
    }

    /// The default team, if one is configured.
    pub fn default(&self) -> (r: Option<&Team>)
        ensures
            match r {
                Option::Some(t) => self.default_team == Option::Some(*t),
                Option::None => self.default_team is None,
            },
    {
        self.default_team.as_ref()
    }
}

} // verus!
