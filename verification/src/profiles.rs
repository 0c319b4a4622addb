//! Creating, copying, renaming, removing and choosing profiles.
//!
//! Every one of these reads the settings file, applies one edit, and writes
//! the file back. The file is read at the moment of the edit, never before a
//! question is put to somebody: a prompt can sit open for minutes while the
//! rest of the program carries on saving.

use vstd::prelude::*;
use vstd::utf8::encode_utf8;

use crate::config::{
    a_taken_name_has_a_place, built_in_names, find_profile, has_profile, is_built_in, place_of,
    profile_views, Config, ConfigView, Profile, ProfileView, Stored,
};
use crate::curve::{Curve, CurvePoint};
use crate::ipc::NAME_LEN;
use crate::text::{same, texts};

verus! {

pub const TOO_LONG: &'static str = "That name is too long. Please use a shorter one.";

pub const CANNOT_READ: &'static str = "Yamato could not read its settings file.";

pub const CANNOT_SAVE: &'static str = "Yamato could not save its settings file.";

pub const NAME_TAKEN: &'static str = "A profile with that name already exists.";

pub const NO_SUCH_PROFILE: &'static str = "Yamato could not find the current profile.";

pub const BUILT_IN_STAYS: &'static str =
    "The built-in profiles cannot be deleted. You can edit one instead.";

pub const LAST_STAYS: &'static str = "The last profile cannot be deleted.";

/// Whether a name fits the field names are carried in, with room for the zero
/// behind it.
pub open spec fn fits(name: Seq<char>) -> bool {
    encode_utf8(name).len() < NAME_LEN
}

/// Whether a name survives the trip through the shared section.
///
/// A name that does not fit would be accepted by every window, saved to the
/// file, and then silently fail to switch the fan, because the truncated form
/// matches no profile.
pub fn name_fits(name: &str) -> (r: bool)
    ensures
        r == fits(name@),
{
    name.as_bytes().len() < NAME_LEN
}

/// What the profile menu was asked to do.
#[derive(Debug, Clone, Copy, PartialEq, Eq, Structural)]
pub enum ProfileAction {
    New,
    Duplicate,
    Rename,
    Delete,
}

/// The smaller of two.
pub open spec fn smaller(a: int, b: int) -> int {
    if a < b {
        a
    } else {
        b
    }
}

/// Settings with one edit made to their profiles, or the sentence that refuses
/// it.
pub open spec fn edited(
    c: ConfigView,
    action: ProfileAction,
    active: Seq<char>,
    name: Seq<char>,
) -> Result<ConfigView, Seq<char>> {
    match place_of(c.profiles, active, 0) {
        None => Err(NO_SUCH_PROFILE@),
        Some(at) => match action {
            ProfileAction::New | ProfileAction::Duplicate => if has_profile(c.profiles, name) {
                Err(NAME_TAKEN@)
            } else {
                // Starts from the live one, so it is immediately runnable.
                Ok(
                    ConfigView {
                        profiles: c.profiles.push(
                            ProfileView { name, points: c.profiles[at].points },
                        ),
                        active_profile: name,
                        ..c
                    },
                )
            },
            ProfileAction::Rename => if name != active && has_profile(c.profiles, name) {
                Err(NAME_TAKEN@)
            } else {
                Ok(
                    ConfigView {
                        profiles: c.profiles.update(
                            at,
                            ProfileView { name, points: c.profiles[at].points },
                        ),
                        active_profile: if c.active_profile == active {
                            name
                        } else {
                            c.active_profile
                        },
                        ..c
                    },
                )
            },
            ProfileAction::Delete => if built_in_names().contains(active) {
                Err(BUILT_IN_STAYS@)
            } else if c.profiles.len() <= 1 {
                Err(LAST_STAYS@)
            } else {
                let rest = c.profiles.remove(at);
                Ok(
                    ConfigView {
                        profiles: rest,
                        active_profile: rest[smaller(at, rest.len() - 1)].name,
                        ..c
                    },
                )
            },
        },
    }
}

/// What a profile change makes of a settings file.
pub open spec fn applied(
    file: Stored,
    action: ProfileAction,
    active: Seq<char>,
    name: Seq<char>,
) -> Result<ConfigView, Seq<char>> {
    if action != ProfileAction::Delete && !fits(name) {
        Err(TOO_LONG@)
    } else {
        match file.gives() {
            Err(_) => Err(CANNOT_READ@),
            Ok(c) => edited(c, action, active, name),
        }
    }
}

/// The half of a profile change that does not involve the user: what the
/// settings file holds, with the edit applied, ready to be written back; or
/// the sentence to show.
pub fn apply_profile_action(
    action: ProfileAction,
    active: &str,
    name: &str,
    file: Stored,
) -> (r: Result<Config, &'static str>)
    ensures
        match applied(file, action, active@, name@) {
            Ok(c) => r matches Ok(config) && config@ == c,
            Err(words) => r matches Err(m) && m@ == words,
        },
{
    match action {
        ProfileAction::Delete => {},
        _ => if !name_fits(name) {
            return Err(TOO_LONG);
        },
    }
    let mut config = match Config::load(file) {
        Ok(config) => config,
        Err(_) => {
            return Err(CANNOT_READ);
        },
    };
    let ghost before = config@;
    let at = match find_profile(&config.profiles, active) {
        Some(at) => at,
        None => {
            return Err(NO_SUCH_PROFILE);
        },
    };
    let taken = find_profile(&config.profiles, name).is_some();
    proof {
        assert(before.profiles[at as int] == config.profiles@[at as int]@);
    }
    match action {
        ProfileAction::New | ProfileAction::Duplicate => {
            if taken {
                return Err(NAME_TAKEN);
            }
            let mut copy = config.profiles[at].clone();
            copy.name = name.to_owned();
            config.profiles.push(copy);
            config.active_profile = name.to_owned();
            proof {
                assert(config@.profiles =~= before.profiles.push(
                    ProfileView { name: name@, points: before.profiles[at as int].points },
                ));
            }
        },
        ProfileAction::Rename => {
            if taken && !same(name, active) {
                return Err(NAME_TAKEN);
            }
            let was_active = same(config.active_profile.as_str(), active);
            let mut renamed = config.profiles[at].clone();
            renamed.name = name.to_owned();
            config.profiles.set(at, renamed);
            if was_active {
                config.active_profile = name.to_owned();
            }
            proof {
                assert(config@.profiles =~= before.profiles.update(
                    at as int,
                    ProfileView { name: name@, points: before.profiles[at as int].points },
                ));
            }
        },
        ProfileAction::Delete => {
            if is_built_in(config.profiles[at].name.as_str()) {
                return Err(BUILT_IN_STAYS);
            }
            if config.profiles.len() <= 1 {
                return Err(LAST_STAYS);
            }
            let _ = config.profiles.remove(at);
            proof {
                assert(config@.profiles =~= before.profiles.remove(at as int));
            }
            let last = config.profiles.len() - 1;
            let next = if at < last {
                at
            } else {
                last
            };
            config.active_profile = config.profiles[next].name.clone();
            proof {
                assert(config@.profiles[next as int] == config.profiles@[next as int]@);
            }
        },
    }
    Ok(config)
}

/// What adding a curve under a name makes of a settings file.
pub open spec fn with_curve(
    file: Stored,
    name: Seq<char>,
    curve: Seq<CurvePoint>,
) -> Result<ConfigView, Seq<char>> {
    if !fits(name) {
        Err(TOO_LONG@)
    } else {
        match file.gives() {
            Err(_) => Err(CANNOT_READ@),
            Ok(c) => if has_profile(c.profiles, name) {
                Err(NAME_TAKEN@)
            } else {
                Ok(
                    ConfigView {
                        profiles: c.profiles.push(
                            ProfileView { name, points: crate::config::stored_points(curve) },
                        ),
                        active_profile: name,
                        ..c
                    },
                )
            },
        }
    }
}

/// Adds a profile built from a curve that came from somewhere else, and makes
/// it the active one.
pub fn add_profile_from_curve(name: &str, curve: &Curve, file: Stored) -> (r: Result<
    Config,
    &'static str,
>)
    ensures
        match with_curve(file, name@, curve@) {
            Ok(c) => r matches Ok(config) && config@ == c,
            Err(words) => r matches Err(m) && m@ == words,
        },
{
    if !name_fits(name) {
        return Err(TOO_LONG);
    }
    let mut config = match Config::load(file) {
        Ok(config) => config,
        Err(_) => {
            return Err(CANNOT_READ);
        },
    };
    let ghost before = config@;
    if find_profile(&config.profiles, name).is_some() {
        return Err(NAME_TAKEN);
    }
    config.profiles.push(Profile::new(name, curve));
    config.active_profile = name.to_owned();
    proof {
        assert(config@.profiles =~= before.profiles.push(
            ProfileView { name: name@, points: crate::config::stored_points(curve@) },
        ));
    }
    Ok(config)
}

/// What a change comes to once the file has been written, or could not be.
pub fn written(config: Config, saved: bool) -> (r: Result<Config, &'static str>)
    ensures
        if saved {
            r == Ok::<Config, &'static str>(config)
        } else {
            r matches Err(m) && m@ == CANNOT_SAVE@
        },
{
    if saved {
        Ok(config)
    } else {
        Err(CANNOT_SAVE)
    }
}

/// The names of profiles, in order.
pub open spec fn names_of(profiles: Seq<ProfileView>) -> Seq<Seq<char>> {
    profiles.map_values(|p: ProfileView| p.name)
}

/// The names of the profiles there are, in order.
pub fn names(profiles: &Vec<Profile>) -> (r: Vec<String>)
    ensures
        texts(r@) == names_of(profile_views(profiles@)),
{
    let mut r: Vec<String> = Vec::new();
    let mut i: usize = 0;
    while i < profiles.len()
        invariant
            i <= profiles@.len(),
            r@.len() == i,
            forall|k: int| 0 <= k < i ==> (#[trigger] r@[k])@ == profiles@[k]@.name,
        decreases profiles@.len() - i,
    {
        r.push(profiles[i].name.clone());
        i += 1;
    }
    proof {
        assert(texts(r@) =~= names_of(profile_views(profiles@)));
    }
    r
}

/// The profile that follows the active one, wrapping round at the end, when
/// there is another to move to. An active profile that matches nothing starts
/// the cycle at the top.
pub open spec fn following(c: ConfigView) -> Option<Seq<char>> {
    if c.profiles.len() < 2 {
        None
    } else {
        let at = match place_of(c.profiles, c.active_profile, 0) {
            Some(at) => at,
            None => 0,
        };
        Some(c.profiles[(at + 1) % (c.profiles.len() as int)].name)
    }
}

/// The profile that follows the active one.
pub fn next_profile(config: &Config) -> (r: Option<String>)
    ensures
        match following(config@) {
            Some(name) => r matches Some(n) && n@ == name,
            None => r is None,
        },
{
    if config.profiles.len() < 2 {
        return None;
    }
    proof {
        a_taken_name_has_a_place(config@.profiles, config@.active_profile, 0);
    }
    let at = match find_profile(&config.profiles, config.active_profile.as_str()) {
        Some(at) => at,
        None => 0,
    };
    let last = config.profiles.len() - 1;
    let next: usize = if at == last {
        0
    } else {
        at + 1
    };
    proof {
        assert(config@.profiles[next as int] == config.profiles@[next as int]@);
        if at == last {
            vstd::arithmetic::div_mod::lemma_mod_self_0(config@.profiles.len() as int);
        } else {
            assert((at + 1) % (config@.profiles.len() as int) == at + 1) by (nonlinear_arith)
                requires
                    0 <= at + 1 < config@.profiles.len(),
            ;
        }
    }
    Some(config.profiles[next].name.clone())
}

/// What choosing a profile asks for.
#[derive(Debug)]
pub enum Switch {
    /// The file holds no such profile.
    Ignore,
    /// The file could not be read, and somebody should be told.
    Say(&'static str),
    /// The file already says so: only the engine has to hear of it.
    Announce,
    /// These settings have to be written first.
    Save(Config),
}

/// Makes a profile the active one in the settings file. Written down as well
/// as announced, because the engine keeps its choice in memory and a switch
/// that was only posted lasts until the service next restarts.
pub fn switch_profile(name: &str, file: Stored) -> (r: Switch)
    ensures
        match file.gives() {
            Err(_) => r matches Switch::Say(m) && m@ == CANNOT_READ@,
            Ok(c) => if !has_profile(c.profiles, name@) {
                r is Ignore
            } else if c.active_profile == name@ {
                r is Announce
            } else {
                r matches Switch::Save(config) && config@ == (ConfigView {
                    active_profile: name@,
                    ..c
                })
            },
        },
{
    match Config::load(file) {
        Ok(config) => {
            if find_profile(&config.profiles, name).is_none() {
                return Switch::Ignore;
            }
            if same(config.active_profile.as_str(), name) {
                return Switch::Announce;
            }
            let mut config = config;
            config.active_profile = name.to_owned();
            Switch::Save(config)
        },
        Err(_) => Switch::Say(CANNOT_READ),
    }
}

/// What follows a switch being written, or not. Announcing one that was not
/// would put the engine on a profile the file disagrees with.
pub fn switch_saved(saved: bool) -> (r: Switch)
    ensures
        if saved {
            r is Announce
        } else {
            r matches Switch::Say(m) && m@ == CANNOT_SAVE@
        },
{
    if saved {
        Switch::Announce
    } else {
        Switch::Say(CANNOT_SAVE)
    }
}

/// What is put to somebody before a profile is changed.
#[derive(Debug)]
pub enum Question {
    /// A name, under this title, starting from this text.
    Name { title: &'static str, initial: String },
    /// Yes or no.
    Confirm(String),
}

/// What is put to somebody before the live profile is changed.
///
/// Deleting is asked about, because it is the one action here that destroys
/// something, and named in the question too: the menu acts on whichever
/// profile is live, which is not necessarily the one somebody has in mind.
pub fn profile_question(action: ProfileAction, active: &str) -> (r: Question)
    ensures
        match action {
            ProfileAction::New => r matches Question::Name { title, initial } && title@
                == "New profile"@ && initial@ == ""@,
            ProfileAction::Duplicate => r matches Question::Name { title, initial } && title@
                == "Duplicate profile"@ && initial@ == active@ + " copy"@,
            ProfileAction::Rename => r matches Question::Name { title, initial } && title@
                == "Rename profile"@ && initial@ == active@,
            ProfileAction::Delete => r matches Question::Confirm(words) && words@
                == "Delete the profile \""@ + active@
                + "\"?\n\nIts curve goes with it, and there is no undo."@,
        },
{
    match action {
        ProfileAction::New => Question::Name { title: "New profile", initial: "".to_owned() },
        ProfileAction::Duplicate => {
            let mut initial = active.to_owned();
            initial.append(" copy");
            Question::Name { title: "Duplicate profile", initial }
        },
        ProfileAction::Rename => Question::Name {
            title: "Rename profile",
            initial: active.to_owned(),
        },
        ProfileAction::Delete => {
            let mut words = "Delete the profile \"".to_owned();
            words.append(active);
            words.append("\"?\n\nIts curve goes with it, and there is no undo.");
            Question::Confirm(words)
        },
    }
}

/// Whether no two profiles share a name.
pub open spec fn told_apart(profiles: Seq<ProfileView>) -> bool {
    forall|i: int, j: int|
        0 <= i < profiles.len() && 0 <= j < profiles.len() && i != j ==> (
        #[trigger] profiles[i]).name != (#[trigger] profiles[j]).name
}

/// A change leaves the active profile one that is there, so there is always a
/// curve to run.
pub proof fn a_change_leaves_a_profile_to_run(
    c: ConfigView,
    action: ProfileAction,
    active: Seq<char>,
    name: Seq<char>,
)
    requires
        has_profile(c.profiles, c.active_profile),
        edited(c, action, active, name) is Ok,
    ensures
        ({
            let after = edited(c, action, active, name)->Ok_0;
            has_profile(after.profiles, after.active_profile)
        }),
{
    a_taken_name_has_a_place(c.profiles, active, 0);
    let at = place_of(c.profiles, active, 0)->Some_0;
    let after = edited(c, action, active, name)->Ok_0;
    match action {
        ProfileAction::New | ProfileAction::Duplicate => {
            assert(after.profiles[c.profiles.len() as int].name == name);
        },
        ProfileAction::Rename => {
            assert(after.profiles[at].name == name);
            if c.active_profile != active {
                let k = choose|k: int|
                    0 <= k < c.profiles.len() && (#[trigger] c.profiles[k]).name
                        == c.active_profile;
                assert(after.profiles[k] == c.profiles[k]);
            }
        },
        ProfileAction::Delete => {
            let k = smaller(at, after.profiles.len() - 1);
            assert(after.profiles[k].name == after.active_profile);
        },
    }
}

/// A change never gives two profiles one name.
pub proof fn names_stay_apart(
    c: ConfigView,
    action: ProfileAction,
    active: Seq<char>,
    name: Seq<char>,
)
    requires
        told_apart(c.profiles),
        edited(c, action, active, name) is Ok,
    ensures
        told_apart(edited(c, action, active, name)->Ok_0.profiles),
{
    a_taken_name_has_a_place(c.profiles, active, 0);
    let at = place_of(c.profiles, active, 0)->Some_0;
    let after = edited(c, action, active, name)->Ok_0.profiles;
    assert forall|i: int, j: int|
        0 <= i < after.len() && 0 <= j < after.len() && i != j implies (
    #[trigger] after[i]).name != (#[trigger] after[j]).name by {
        if action is Delete {
            let from_i = if i < at { i } else { i + 1 };
            let from_j = if j < at { j } else { j + 1 };
            assert(after[i] == c.profiles[from_i]);
            assert(after[j] == c.profiles[from_j]);
        } else if action is Rename {
            if i != at {
                assert(after[i] == c.profiles[i]);
            }
            if j != at {
                assert(after[j] == c.profiles[j]);
            }
            assert(c.profiles[at].name == active);
        } else {
            if i < c.profiles.len() {
                assert(after[i] == c.profiles[i]);
            }
            if j < c.profiles.len() {
                assert(after[j] == c.profiles[j]);
            }
        }
    }
}

/// Deleting removes the profile it was asked to remove, which is never one of
/// those that ship, and leaves every other one as it was.
pub proof fn deleting_removes_one_profile(
    c: ConfigView,
    active: Seq<char>,
    name: Seq<char>,
    other: ProfileView,
)
    requires
        edited(c, ProfileAction::Delete, active, name) is Ok,
        c.profiles.contains(other),
        other.name != active || built_in_names().contains(other.name),
    ensures
        edited(c, ProfileAction::Delete, active, name)->Ok_0.profiles.contains(other),
        edited(c, ProfileAction::Delete, active, name)->Ok_0.profiles.len() == c.profiles.len() - 1,
{
    a_taken_name_has_a_place(c.profiles, active, 0);
    let at = place_of(c.profiles, active, 0)->Some_0;
    let after = edited(c, ProfileAction::Delete, active, name)->Ok_0.profiles;
    let k = choose|k: int| 0 <= k < c.profiles.len() && c.profiles[k] == other;
    if k < at {
        assert(after[k] == other);
    } else {
        assert(after[k - 1] == other);
    }
}

/// Creating, copying and renaming lose no curve: every curve that was stored
/// still is.
pub proof fn only_deleting_loses_a_curve(
    c: ConfigView,
    action: ProfileAction,
    active: Seq<char>,
    name: Seq<char>,
    i: int,
)
    requires
        action != ProfileAction::Delete,
        edited(c, action, active, name) is Ok,
        0 <= i < c.profiles.len(),
    ensures
        edited(c, action, active, name)->Ok_0.profiles.len() > i,
        edited(c, action, active, name)->Ok_0.profiles[i].points == c.profiles[i].points,
{
    a_taken_name_has_a_place(c.profiles, active, 0);
}

/// A refused change says why, and there are exactly these reasons.
pub proof fn a_change_is_refused_only_for_a_reason(
    c: ConfigView,
    action: ProfileAction,
    active: Seq<char>,
    name: Seq<char>,
)
    ensures
        edited(c, action, active, name) is Err <==> {
            ||| !has_profile(c.profiles, active)
            ||| (action is New || action is Duplicate) && has_profile(c.profiles, name)
            ||| action is Rename && name != active && has_profile(c.profiles, name)
            ||| action is Delete && (built_in_names().contains(active) || c.profiles.len() <= 1)
        },
{
    a_taken_name_has_a_place(c.profiles, active, 0);
}

/// Renaming a profile and renaming it back leaves the settings as they were.
pub proof fn a_rename_can_be_taken_back(c: ConfigView, active: Seq<char>, name: Seq<char>)
    requires
        told_apart(c.profiles),
        c.active_profile != name || name == active,
        edited(c, ProfileAction::Rename, active, name) is Ok,
    ensures
        edited(
            edited(c, ProfileAction::Rename, active, name)->Ok_0,
            ProfileAction::Rename,
            name,
            active,
        ) == Ok::<ConfigView, Seq<char>>(c),
{
    a_taken_name_has_a_place(c.profiles, active, 0);
    let at = place_of(c.profiles, active, 0)->Some_0;
    let there = edited(c, ProfileAction::Rename, active, name)->Ok_0;
    names_stay_apart(c, ProfileAction::Rename, active, name);
    a_taken_name_has_a_place(there.profiles, name, 0);
    assert(there.profiles[at].name == name);
    let back = place_of(there.profiles, name, 0)->Some_0;
    assert(back == at);
    if name != active {
        assert forall|k: int| 0 <= k < there.profiles.len() implies (
        #[trigger] there.profiles[k]).name != active by {
            if k != at {
                assert(there.profiles[k] == c.profiles[k]);
            }
        }
    }
    assert(there.profiles.update(
        at,
        ProfileView { name: active, points: there.profiles[at].points },
    ) =~= c.profiles);
}

/// Cycling through the profiles visits another one each time, and after as
/// many steps as there are profiles is back where it began: the step from any
/// place leads to the place behind it, and from the last to the first.
pub proof fn the_cycle_visits_every_profile(c: ConfigView, at: int)
    requires
        told_apart(c.profiles),
        0 <= at < c.profiles.len(),
        c.profiles.len() >= 2,
        c.active_profile == c.profiles[at].name,
    ensures
        following(c) == Some(
            c.profiles[if at + 1 == c.profiles.len() {
                0
            } else {
                at + 1
            }].name,
        ),
        following(c) != Some(c.active_profile),
{
    a_taken_name_has_a_place(c.profiles, c.active_profile, 0);
    let found = place_of(c.profiles, c.active_profile, 0)->Some_0;
    assert(found == at);
    if at + 1 == c.profiles.len() {
        vstd::arithmetic::div_mod::lemma_mod_self_0(c.profiles.len() as int);
    } else {
        assert((at + 1) % (c.profiles.len() as int) == at + 1) by (nonlinear_arith)
            requires
                0 <= at + 1 < c.profiles.len(),
        ;
    }
}

/// A new profile, and a duplicate, holds the points of the profile it was made
/// from, stands behind all the others under the name given, and is made
/// active. Nothing else changes.
pub proof fn a_new_profile_starts_from_the_live_one(
    c: ConfigView,
    action: ProfileAction,
    active: Seq<char>,
    name: Seq<char>,
    at: int,
)
    requires
        action is New || action is Duplicate,
        0 <= at < c.profiles.len(),
        c.profiles[at].name == active,
        forall|k: int| 0 <= k < at ==> (#[trigger] c.profiles[k]).name != active,
        forall|k: int| 0 <= k < c.profiles.len() ==> (#[trigger] c.profiles[k]).name != name,
    ensures
        edited(c, action, active, name) matches Ok(after) && {
            &&& after == (ConfigView {
                profiles: after.profiles,
                active_profile: name,
                ..c
            })
            &&& after.profiles.len() == c.profiles.len() + 1
            &&& forall|k: int|
                0 <= k < c.profiles.len() ==> #[trigger] after.profiles[k] == c.profiles[k]
            &&& after.profiles[c.profiles.len() as int].name == name
            &&& after.profiles[c.profiles.len() as int].points == c.profiles[at].points
        },
{
    crate::config::a_name_is_found_at_its_first_place(c.profiles, active, 0, at);
}

/// A rename changes the name of the profile it is about and of no other, keeps
/// its points and its place, and follows it where it was active.
pub proof fn a_rename_changes_only_the_name(
    c: ConfigView,
    active: Seq<char>,
    name: Seq<char>,
    at: int,
)
    requires
        0 <= at < c.profiles.len(),
        c.profiles[at].name == active,
        forall|k: int| 0 <= k < at ==> (#[trigger] c.profiles[k]).name != active,
        name == active || forall|k: int|
            0 <= k < c.profiles.len() ==> (#[trigger] c.profiles[k]).name != name,
    ensures
        edited(c, ProfileAction::Rename, active, name) matches Ok(after) && {
            &&& after == (ConfigView {
                profiles: after.profiles,
                active_profile: after.active_profile,
                ..c
            })
            &&& after.profiles.len() == c.profiles.len()
            &&& after.profiles[at].name == name
            &&& after.profiles[at].points == c.profiles[at].points
            &&& forall|k: int|
                0 <= k < c.profiles.len() && k != at ==> #[trigger] after.profiles[k]
                    == c.profiles[k]
            &&& c.active_profile == active ==> after.active_profile == name
            &&& c.active_profile != active ==> after.active_profile == c.active_profile
        },
{
    crate::config::a_name_is_found_at_its_first_place(c.profiles, active, 0, at);
}

/// Deleting takes the profile out, closes the gap, and makes active the one
/// that took its place, or the last where it was the last.
pub proof fn deleting_closes_the_gap(c: ConfigView, active: Seq<char>, name: Seq<char>, at: int)
    requires
        0 <= at < c.profiles.len(),
        c.profiles.len() >= 2,
        c.profiles[at].name == active,
        forall|k: int| 0 <= k < at ==> (#[trigger] c.profiles[k]).name != active,
        active != "Quiet"@ && active != "Balanced"@ && active != "Performance"@,
    ensures
        edited(c, ProfileAction::Delete, active, name) matches Ok(after) && {
            &&& after == (ConfigView {
                profiles: after.profiles,
                active_profile: after.active_profile,
                ..c
            })
            &&& after.profiles.len() == c.profiles.len() - 1
            &&& forall|k: int| 0 <= k < at ==> #[trigger] after.profiles[k] == c.profiles[k]
            &&& forall|k: int|
                at <= k < after.profiles.len() ==> #[trigger] after.profiles[k] == c.profiles[k
                    + 1]
            &&& at + 1 < c.profiles.len() ==> after.active_profile == c.profiles[at + 1].name
            &&& at + 1 == c.profiles.len() ==> after.active_profile == c.profiles[at - 1].name
        },
{
    crate::config::a_name_is_found_at_its_first_place(c.profiles, active, 0, at);
    let names = built_in_names();
    assert(names.len() == 3);
    if names.contains(active) {
        let k = choose|k: int| 0 <= k < names.len() && names[k] == active;
        assert(names[k] == "Quiet"@ || names[k] == "Balanced"@ || names[k] == "Performance"@);
    }
}

/// Each refusal says why: a profile that is not there, a name that is taken, a
/// built-in profile, or the last one.
pub proof fn a_refusal_says_why(
    c: ConfigView,
    action: ProfileAction,
    active: Seq<char>,
    name: Seq<char>,
)
    ensures
        edited(c, action, active, name) matches Err(words) ==> {
            &&& (forall|k: int|
                0 <= k < c.profiles.len() ==> (#[trigger] c.profiles[k]).name != active) ==> words
                == "Yamato could not find the current profile."@
            &&& (exists|k: int|
                0 <= k < c.profiles.len() && (#[trigger] c.profiles[k]).name == active) && !(
            action is Delete) ==> words == "A profile with that name already exists."@
            &&& (exists|k: int|
                0 <= k < c.profiles.len() && (#[trigger] c.profiles[k]).name == active)
                && action is Delete ==> words == if active == "Quiet"@ || active == "Balanced"@
                || active == "Performance"@ {
                "The built-in profiles cannot be deleted. You can edit one instead."@
            } else {
                "The last profile cannot be deleted."@
            }
        },
{
    a_taken_name_has_a_place(c.profiles, active, 0);
    let names = built_in_names();
    assert(names.len() == 3);
    assert(names[0] == "Quiet"@ && names[1] == "Balanced"@ && names[2] == "Performance"@);
    if names.contains(active) {
        let k = choose|k: int| 0 <= k < names.len() && names[k] == active;
        assert(k == 0 || k == 1 || k == 2);
    }
}

/// A profile made from a curve holds that curve, stands behind all the others
/// and is made active; it is refused for a name of 64 bytes or more, and for
/// one that is taken.
pub proof fn an_added_profile_holds_the_curve(
    file: Stored,
    name: Seq<char>,
    curve: Seq<CurvePoint>,
)
    ensures
        encode_utf8(name).len() >= 64 ==> with_curve(file, name, curve) == Err::<
            ConfigView,
            Seq<char>,
        >(TOO_LONG@),
        encode_utf8(name).len() < 64 ==> match file.gives() {
            Err(_) => with_curve(file, name, curve) == Err::<ConfigView, Seq<char>>(CANNOT_READ@),
            Ok(c) => match with_curve(file, name, curve) {
                Err(words) => words == NAME_TAKEN@ && exists|k: int|
                    0 <= k < c.profiles.len() && (#[trigger] c.profiles[k]).name == name,
                Ok(after) => {
                    &&& after == (ConfigView {
                        profiles: after.profiles,
                        active_profile: name,
                        ..c
                    })
                    &&& after.profiles.len() == c.profiles.len() + 1
                    &&& forall|k: int|
                        0 <= k < c.profiles.len() ==> #[trigger] after.profiles[k]
                            == c.profiles[k] && c.profiles[k].name != name
                    &&& after.profiles[c.profiles.len() as int].name == name
                    &&& crate::config::curve_points(
                        after.profiles[c.profiles.len() as int].points,
                    ) == curve
                },
            },
        },
{
    crate::config::storing_keeps_a_curve(curve);
}

/// A change is made to what the file gives; where it gives nothing, or the new
/// name has 64 bytes or more, it is refused and says so.
pub proof fn a_change_is_made_to_the_file(
    file: Stored,
    action: ProfileAction,
    active: Seq<char>,
    name: Seq<char>,
)
    ensures
        !(action is Delete) && encode_utf8(name).len() >= 64 ==> applied(
            file,
            action,
            active,
            name,
        ) == Err::<ConfigView, Seq<char>>(
            "That name is too long. Please use a shorter one."@,
        ),
        (action is Delete || encode_utf8(name).len() < 64) && file.gives() is Err ==> applied(
            file,
            action,
            active,
            name,
        ) == Err::<ConfigView, Seq<char>>("Yamato could not read its settings file."@),
        (action is Delete || encode_utf8(name).len() < 64) ==> (file.gives() matches Ok(c)
            ==> applied(file, action, active, name) == edited(c, action, active, name)),
{
}

} // verus!
