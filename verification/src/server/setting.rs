//! The settings of the server: named settings profiles for the child.

use crate::json::{
    json_from_text, json_insert, json_is_object, json_members, json_new_object, json_text_member,
};
use crate::server::chat::StartChatError;
use crate::server::resume::{join_path, joined_path};
use crate::text::same_text;
use serde_json::Value;
use vstd::prelude::*;

verus! {

/// A settings profile for the child, under a name.
#[derive(Clone, Debug, PartialEq)]
pub struct ClaudeSetting {
    pub name: String,
    pub setting: Value,
}

impl ClaudeSetting {
    pub fn name(&self) -> (r: &str)
        ensures
            r@ == self.name@,
    {
        self.name.as_str()
    }

    pub fn setting(&self) -> (r: &Value)
        ensures
            *r == self.setting,
    {
        &self.setting
    }
}

/// The settings of the server.
#[derive(Clone, Debug, PartialEq)]
pub struct Setting {
    pub claude_settings: Vec<ClaudeSetting>,
}

/// The place of the first profile with the name `name`.
pub open spec fn profile_index(profiles: Seq<ClaudeSetting>, name: Seq<char>) -> Option<int>
    decreases profiles.len(),
{
    if profiles.len() == 0 {
        None
    } else if profiles[0].name@ == name {
        Some(0)
    } else {
        match profile_index(profiles.subrange(1, profiles.len() as int), name) {
            Some(i) => Some(i + 1),
            None => None,
        }
    }
}

/// What `profile_index` finds is the place of a profile with that name, and
/// it finds one where there is one.
pub proof fn lemma_profile_index(profiles: Seq<ClaudeSetting>, name: Seq<char>)
    ensures
        match profile_index(profiles, name) {
            Some(i) => 0 <= i < profiles.len() && profiles[i].name@ == name && forall|j: int|
                0 <= j < i ==> (#[trigger] profiles[j]).name@ != name,
            None => forall|j: int|
                0 <= j < profiles.len() ==> (#[trigger] profiles[j]).name@ != name,
        },
    decreases profiles.len(),
{
    if profiles.len() > 0 && profiles[0].name@ != name {
        let tail = profiles.subrange(1, profiles.len() as int);
        lemma_profile_index(tail, name);
        assert forall|j: int| 0 <= j < tail.len() implies tail[j] == profiles[j + 1] by {}
        match profile_index(tail, name) {
            Some(i) => {
                assert(tail[i] == profiles[i + 1]);
                assert forall|j: int| 0 <= j < i + 1 implies (#[trigger] profiles[j]).name@
                    != name by {
                    if j > 0 {
                        assert(tail[j - 1] == profiles[j]);
                    }
                }
            },
            None => {
                assert forall|j: int| 0 <= j < profiles.len() implies (#[trigger] profiles[j]).name@
                    != name by {
                    if j > 0 {
                        assert(tail[j - 1] == profiles[j]);
                    }
                }
            },
        }
    }
}

/// Whether `v` is the profile that new settings start with: an object with
/// the one member `env`, which holds a placeholder for the token and the
/// address of a local router.
pub open spec fn is_router_profile(v: Value) -> bool {
    let env = json_members(v)["env"@];
    &&& json_is_object(v)
    &&& json_members(v).dom() == set!["env"@]
    &&& json_is_object(env)
    &&& json_members(env).dom() == set!["ANTHROPIC_AUTH_TOKEN"@, "ANTHROPIC_BASE_URL"@]
    &&& json_text_member(env, "ANTHROPIC_AUTH_TOKEN"@) == Some("your-secret-key"@)
    &&& json_text_member(env, "ANTHROPIC_BASE_URL"@) == Some("http://127.0.0.1:3456"@)
}

impl Setting {
    pub fn get_claude_settings(&self) -> (r: &Vec<ClaudeSetting>)
        ensures
            *r == self.claude_settings,
    {
        &self.claude_settings
    }

    /// The first profile with the name `name`.
    pub fn get_claude_setting(&self, name: &str) -> (r: Option<&ClaudeSetting>)
        ensures
            match r {
                Some(p) => profile_index(self.claude_settings@, name@) matches Some(i) && *p
                    == self.claude_settings@[i],
                None => profile_index(self.claude_settings@, name@) is None,
            },
    {
        proof {
            lemma_profile_index(self.claude_settings@, name@);
        }
        let mut i: usize = 0;
        while i < self.claude_settings.len()
            invariant
                i <= self.claude_settings.len(),
                forall|j: int|
                    0 <= j < i ==> (#[trigger] self.claude_settings@[j]).name@ != name@,
                match profile_index(self.claude_settings@, name@) {
                    Some(k) => 0 <= k < self.claude_settings@.len()
                        && self.claude_settings@[k].name@ == name@ && forall|j: int|
                        0 <= j < k ==> (#[trigger] self.claude_settings@[j]).name@ != name@,
                    None => forall|j: int|
                        0 <= j < self.claude_settings@.len() ==> (
                        #[trigger] self.claude_settings@[j]).name@ != name@,
                },
            decreases self.claude_settings.len() - i,
        {
            if same_text(self.claude_settings[i].name.as_str(), name) {
                return Some(&self.claude_settings[i]);
            }
            i = i + 1;
        }
        None
    }
}

/// The settings profile that a chat is started with: none where none is
/// asked for, and an error where no profile has the name asked for.
pub fn profile_for_start<'a>(setting: &'a Setting, config_name: &Option<String>) -> (r: Result<
    Option<&'a ClaudeSetting>,
    StartChatError,
>)
    ensures
        match *config_name {
            None => r matches Ok(None),
            Some(name) => match profile_index(setting.claude_settings@, name@) {
                Some(i) => r matches Ok(Some(p)) && *p == setting.claude_settings@[i],
                None => r matches Err(StartChatError::ConfigNotFound(n)) && n@ == name@,
            },
        },
{
    match config_name {
        None => Ok(None),
        Some(name) => {
            match setting.get_claude_setting(name.as_str()) {
                Some(p) => Ok(Some(p)),
                None => Err(StartChatError::ConfigNotFound(name.clone())),
            }
        },
    }
}

impl Default for Setting {
    /// The settings that the server starts with where it finds none: the one
    /// profile `ccr`, for a local router.
    fn default() -> (r: Self)
        ensures
            r.claude_settings@.len() == 1,
            r.claude_settings@[0].name@ == "ccr"@,
            is_router_profile(r.claude_settings@[0].setting),
    {
        proof {
            reveal_strlit("ANTHROPIC_AUTH_TOKEN");
            reveal_strlit("ANTHROPIC_BASE_URL");
            assert("ANTHROPIC_AUTH_TOKEN"@.len() == 20 && "ANTHROPIC_BASE_URL"@.len() == 18);
        }
        let mut env = json_new_object();
        json_insert(&mut env, "ANTHROPIC_AUTH_TOKEN", json_from_text("your-secret-key"));
        json_insert(&mut env, "ANTHROPIC_BASE_URL", json_from_text("http://127.0.0.1:3456"));
        assert(json_members(env).dom() =~= set!["ANTHROPIC_AUTH_TOKEN"@, "ANTHROPIC_BASE_URL"@]);
        let mut profile = json_new_object();
        json_insert(&mut profile, "env", env);
        assert(json_members(profile).dom() =~= set!["env"@]);
        let mut claude_settings: Vec<ClaudeSetting> = Vec::new();
        claude_settings.push(ClaudeSetting { name: "ccr".to_owned(), setting: profile });
        Setting { claude_settings }
    }
}

/// Calls `dirs::home_dir`, which asks the environment and the system for
/// the user's home directory. Nothing is promised of the answer.
#[verifier::external_body]
fn home_dir() -> (r: Option<String>) {
    dirs::home_dir().map(|p| p.to_string_lossy().into_owned())
}

/// The directory that holds the server's settings, below the home directory
/// `home`.
pub open spec fn config_dir_of(home: Seq<char>) -> Seq<char> {
    joined_path(joined_path(home, ".config"@), ".niu-code"@)
}

/// The directory that holds the server's settings, below the home directory
/// `home`.
pub fn config_dir_in(home: &str) -> (r: String)
    ensures
        r@ == config_dir_of(home@),
{
    let config = join_path(home, ".config");
    join_path(config.as_str(), ".niu-code")
}

/// The file that holds the server's settings, below the home directory
/// `home`.
pub open spec fn config_path_of(home: Seq<char>) -> Seq<char> {
    joined_path(config_dir_of(home), "settings.json"@)
}

/// The file that holds the server's settings, below the home directory
/// `home`.
pub fn config_path_in(home: &str) -> (r: String)
    ensures
        r@ == config_path_of(home@),
{
    let dir = config_dir_in(home);
    join_path(dir.as_str(), "settings.json")
}

/// The directory that holds the server's settings; `None` where the user
/// has no home directory.
pub fn get_config_dir() -> (r: Option<String>)
    ensures
        r matches Some(d) ==> exists|home: Seq<char>| d@ == #[trigger] config_dir_of(home),
{
    match home_dir() {
        Some(home) => {
            let d = config_dir_in(home.as_str());
            assert(d@ == config_dir_of(home@));
            Some(d)
        },
        None => None,
    }
}

/// The file that holds the server's settings; `None` where the user has no
/// home directory.
pub fn get_config_path() -> (r: Option<String>)
    ensures
        r matches Some(p) ==> exists|home: Seq<char>| p@ == #[trigger] config_path_of(home),
{
    match home_dir() {
        Some(home) => {
            let p = config_path_in(home.as_str());
            assert(p@ == config_path_of(home@));
            Some(p)
        },
        None => None,
    }
}

/// What happened to the settings file.
#[derive(Clone, Copy, Debug, PartialEq, Eq, Structural)]
pub enum ConfigEvent {
    Modified,
    Created,
    Removed,
    Other,
}

/// What the watcher of the settings file does.
#[derive(Clone, Copy, Debug, PartialEq, Eq, Structural)]
pub enum ReloadAction {
    /// The settings are read again after a short wait; a wait that is under
    /// way is given up.
    ReloadSoon,
    /// The settings are those that the server starts with.
    UseDefault,
    Nothing,
}

/// What the watcher does on an event: `concerns` says whether the event
/// names the settings file.
pub fn reload_action(event: ConfigEvent, concerns: bool) -> (r: ReloadAction)
    ensures
        r == (if !concerns {
            ReloadAction::Nothing
        } else {
            match event {
                ConfigEvent::Modified => ReloadAction::ReloadSoon,
                ConfigEvent::Created => ReloadAction::ReloadSoon,
                ConfigEvent::Removed => ReloadAction::UseDefault,
                ConfigEvent::Other => ReloadAction::Nothing,
            }
        }),
{
    if !concerns {
        return ReloadAction::Nothing;
    }
    match event {
        ConfigEvent::Modified => ReloadAction::ReloadSoon,
        ConfigEvent::Created => ReloadAction::ReloadSoon,
        ConfigEvent::Removed => ReloadAction::UseDefault,
        ConfigEvent::Other => ReloadAction::Nothing,
    }
}

} // verus!
