//! What saving new settings involves, decided before anything is changed.
//!
//! The settings window, the web interface and the tray menu all save through one path.
//! The order of the steps matters: the registry (which fails most easily) first, then the
//! settings file, and only then the settings in memory, so that a failed step leaves the
//! program as it was. This module decides which steps a save needs; the application
//! carries them out in that order.
use vstd::prelude::*;

use crate::settings::{is_valid, normalized, port_error_message, Settings, SettingsView};
use crate::text::{chars_eq, chars_of, push_all, string_from_chars};

verus! {

broadcast use vstd::string::group_string_axioms;

/// The steps a save of new settings needs.
pub struct SettingsUpdate {
    /// The settings to store: the new ones, repaired.
    pub settings: Settings,
    /// The new start-with-the-system value, when it changed.
    pub autostart: Option<bool>,
    /// The interface language changed.
    pub language_changed: bool,
    /// The web service must be restarted: its port or its access scope changed.
    pub restart_web_server: bool,
}

/// The steps that saving `new` over `old` needs: the repaired new settings, the autostart
/// change if any, whether the language changed, and whether the web service must restart.
pub open spec fn planned_update(old: SettingsView, new: SettingsView) -> (
    SettingsView,
    Option<bool>,
    bool,
    bool,
) {
    let n = normalized(new);
    (
        n,
        if old.autostart != n.autostart {
            Some(n.autostart)
        } else {
            None
        },
        old.language != n.language,
        old.port != n.port || old.web_access != n.web_access,
    )
}

impl Settings {
    /// A copy of these settings.
    pub fn copy(&self) -> (r: Settings)
        ensures
            r@ == self@,
    {
        Settings {
            language: self.language.clone(),
            port: self.port,
            autostart: self.autostart,
            web_access: self.web_access,
        }
    }
}

/// Decides what saving `new` over the current settings `old` involves. New settings that
/// fail the check are refused with the check's message, before anything is changed.
pub fn plan_settings_update(old: &Settings, new: Settings) -> (r: Result<SettingsUpdate, String>)
    ensures
        r is Err <==> !is_valid(new@),
        r matches Err(e) ==> e@ == port_error_message(),
        r matches Ok(u) ==> (u.settings@, u.autostart, u.language_changed, u.restart_web_server)
            == planned_update(old@, new@),
{
    match new.validate() {
        Err(e) => {
            return Err(e);
        },
        Ok(()) => {},
    }
    let n = new.normalize();
    let autostart = if old.autostart != n.autostart {
        Some(n.autostart)
    } else {
        None
    };
    let language_changed = !chars_eq(&chars_of(old.language.as_str()), &chars_of(n.language.as_str()));
    let restart_web_server = old.port != n.port || old.web_access != n.web_access;
    Ok(SettingsUpdate { settings: n, autostart, language_changed, restart_web_server })
}

/// One step of carrying out a save, in the order `save_plan` gives them.
#[derive(Debug, Clone, Copy, PartialEq, Eq)]
pub enum SaveStep {
    /// Write the system's autostart entry with this value; this may fail.
    SetAutostart(bool),
    /// Log the autostart change to this value.
    LogAutostart(bool),
    /// Write the settings file; this may fail.
    WriteFile,
    /// Replace the settings in memory with the new ones.
    StoreInMemory,
    /// Log the new interface language.
    LogLanguageChanged,
    /// Log that the settings were saved.
    LogSaved,
    /// Restart the web service on the new port or scope.
    RestartWebServer,
    /// Tell the window about the new settings.
    NotifyWindow,
}

/// A step that can fail, after which the save stops and reports the error.
pub open spec fn may_fail(step: SaveStep) -> bool {
    step is SetAutostart || step is WriteFile
}

/// The steps of a save, in order: the autostart entry (if it changed) and its log line,
/// the settings file, the settings in memory, the language log line (if it changed), the
/// saved log line, the web service restart (if needed), and the window notice.
pub open spec fn save_plan(autostart: Option<bool>, language_changed: bool, restart: bool) -> Seq<
    SaveStep,
> {
    (match autostart {
        Some(b) => seq![SaveStep::SetAutostart(b), SaveStep::LogAutostart(b)],
        None => Seq::<SaveStep>::empty(),
    }) + seq![SaveStep::WriteFile, SaveStep::StoreInMemory] + (if language_changed {
        seq![SaveStep::LogLanguageChanged]
    } else {
        Seq::<SaveStep>::empty()
    }) + seq![SaveStep::LogSaved] + (if restart {
        seq![SaveStep::RestartWebServer]
    } else {
        Seq::<SaveStep>::empty()
    }) + seq![SaveStep::NotifyWindow]
}

/// The steps that carry out the save `u`, in the order they must run. The caller stops at
/// the first step that fails.
pub fn save_steps(u: &SettingsUpdate) -> (r: Vec<SaveStep>)
    ensures
        r@ == save_plan(u.autostart, u.language_changed, u.restart_web_server),
{
    let mut r: Vec<SaveStep> = Vec::new();
    match u.autostart {
        Some(b) => {
            r.push(SaveStep::SetAutostart(b));
            r.push(SaveStep::LogAutostart(b));
        },
        None => {},
    }
    r.push(SaveStep::WriteFile);
    r.push(SaveStep::StoreInMemory);
    if u.language_changed {
        r.push(SaveStep::LogLanguageChanged);
    }
    r.push(SaveStep::LogSaved);
    if u.restart_web_server {
        r.push(SaveStep::RestartWebServer);
    }
    r.push(SaveStep::NotifyWindow);
    assert(r@ =~= save_plan(u.autostart, u.language_changed, u.restart_web_server));
    r
}

/// A failed save changes nothing in memory: every step that can fail comes before the
/// settings in memory are replaced, which happens exactly once, and the autostart entry is
/// written before the settings file.
pub proof fn law_failures_precede_changes(autostart: Option<bool>, language_changed: bool, restart: bool)
    ensures
        ({
            let plan = save_plan(autostart, language_changed, restart);
            &&& exists|m: int| 0 <= m < plan.len() && plan[m] == SaveStep::StoreInMemory
            &&& forall|i: int, j: int|
                0 <= i < plan.len() && 0 <= j < plan.len() && may_fail(#[trigger] plan[i])
                    && #[trigger] plan[j] == SaveStep::StoreInMemory ==> i < j
            &&& forall|i: int, j: int|
                0 <= i < plan.len() && 0 <= j < plan.len() && #[trigger] plan[i]
                    == SaveStep::StoreInMemory && #[trigger] plan[j] == SaveStep::StoreInMemory ==> i == j
            &&& forall|i: int, j: int|
                0 <= i < plan.len() && 0 <= j < plan.len() && (#[trigger] plan[i]) is SetAutostart
                    && #[trigger] plan[j] == SaveStep::WriteFile ==> i < j
        }),
{
    let plan = save_plan(autostart, language_changed, restart);
    let a: int = if autostart is Some {
        2
    } else {
        0
    };
    let head = match autostart {
        Some(b) => seq![SaveStep::SetAutostart(b), SaveStep::LogAutostart(b)],
        None => Seq::<SaveStep>::empty(),
    };
    let tail = (if language_changed {
        seq![SaveStep::LogLanguageChanged]
    } else {
        Seq::<SaveStep>::empty()
    }) + seq![SaveStep::LogSaved] + (if restart {
        seq![SaveStep::RestartWebServer]
    } else {
        Seq::<SaveStep>::empty()
    }) + seq![SaveStep::NotifyWindow];
    assert(plan =~= head + seq![SaveStep::WriteFile, SaveStep::StoreInMemory] + tail);
    assert(head.len() == a);
    assert(plan[a] == SaveStep::WriteFile);
    assert(plan[a + 1] == SaveStep::StoreInMemory);
    assert forall|i: int| 0 <= i < plan.len() && i != a + 1 implies plan[i]
        != SaveStep::StoreInMemory by {
        if i < a {
            assert(plan[i] == head[i]);
        } else if i > a + 1 {
            assert(plan[i] == tail[i - a - 2]);
        }
    }
    assert forall|i: int| 0 <= i < plan.len() && may_fail(plan[i]) implies i <= a by {
        if i > a + 1 {
            assert(plan[i] == tail[i - a - 2]);
        }
    }
    assert forall|i: int| 0 <= i < plan.len() && plan[i] is SetAutostart implies i < a by {
        if i >= a && i <= a + 1 {
        } else if i > a + 1 {
            assert(plan[i] == tail[i - a - 2]);
        }
    }
    assert forall|j: int| 0 <= j < plan.len() && plan[j] == SaveStep::WriteFile implies j == a by {
        if j < a {
            assert(plan[j] == head[j]);
        } else if j > a + 1 {
            assert(plan[j] == tail[j - a - 2]);
        }
    }
}

/// The log key of an autostart change.
pub open spec fn autostart_log_key_text(enabled: bool) -> Seq<char> {
    if enabled {
        "log_autostart_enabled"@
    } else {
        "log_autostart_disabled"@
    }
}

/// The log key of an autostart change to `enabled`.
pub fn autostart_log_key(enabled: bool) -> (r: String)
    ensures
        r@ == autostart_log_key_text(enabled),
{
    if enabled {
        String::from_str("log_autostart_enabled")
    } else {
        String::from_str("log_autostart_disabled")
    }
}

/// The command the system's autostart entry holds for the program at `exe_path`: the path
/// in double quotes, so that a path with spaces stays one argument.
pub open spec fn autostart_command(exe_path: Seq<char>) -> Seq<char> {
    seq!['"'] + exe_path + seq!['"']
}

/// The command the autostart entry holds for the program at `exe_path`.
pub fn autostart_value(exe_path: &str) -> (r: String)
    ensures
        r@ == autostart_command(exe_path@),
{
    let mut v: Vec<char> = Vec::new();
    v.push('"');
    push_all(&mut v, &chars_of(exe_path));
    v.push('"');
    assert(v@ =~= autostart_command(exe_path@));
    string_from_chars(&v)
}

/// The settings that choosing language `lang` in the tray menu saves: the current ones
/// with that language, or nothing when it is the current language already.
pub open spec fn tray_language_choice(current: SettingsView, lang: Seq<char>) -> Option<
    SettingsView,
> {
    if current.language == lang {
        None
    } else {
        Some(SettingsView { language: lang, ..current })
    }
}

/// The settings to save when language `lang` is chosen in the tray menu, if any.
pub fn tray_language_request(current: &Settings, lang: &str) -> (r: Option<Settings>)
    ensures
        match r {
            Some(s) => tray_language_choice(current@, lang@) == Some(s@),
            None => tray_language_choice(current@, lang@) is None,
        },
{
    if chars_eq(&chars_of(current.language.as_str()), &chars_of(lang)) {
        return None;
    }
    let mut s = current.copy();
    s.language = String::from_str(lang);
    Some(s)
}

/// Saving settings that are already stored changes nothing: no registry change, no
/// language change, no restart of the web service.
pub proof fn law_resave_changes_nothing(s: SettingsView)
    requires
        normalized(s) == s,
    ensures
        planned_update(s, s) == (s, None::<bool>, false, false),
{
}

/// Whatever is saved, the stored settings are repaired ones that pass the check, and the
/// web service is restarted exactly when its port or access scope changes.
pub proof fn law_update_stores_normal_settings(old: SettingsView, new: SettingsView)
    ensures
        is_valid(planned_update(old, new).0),
        normalized(planned_update(old, new).0) == planned_update(old, new).0,
        planned_update(old, new).3 == (old.port != planned_update(old, new).0.port
            || old.web_access != new.web_access),
{
}

/// The autostart entry is touched exactly when the wanted value differs from the current
/// one, in both directions: turning it on writes it, turning it off removes it.
pub proof fn law_autostart_change_both_ways(old: SettingsView, new: SettingsView)
    ensures
        old.autostart == new.autostart ==> planned_update(old, new).1 is None,
        !old.autostart && new.autostart ==> planned_update(old, new).1 == Some(true),
        old.autostart && !new.autostart ==> planned_update(old, new).1 == Some(false),
        planned_update(old, new).0.autostart == new.autostart,
        planned_update(old, new).0.web_access == new.web_access,
{
}

/// Each optional step of a save is in the plan exactly when it is asked for, whatever the
/// other flags are: the autostart entry when it changes, the language line when the
/// language changes, the web service restart when the port or scope changes. The restart
/// comes after the settings in memory are replaced.
pub proof fn law_save_plan_steps(autostart: Option<bool>, language_changed: bool, restart: bool)
    ensures
        ({
            let plan = save_plan(autostart, language_changed, restart);
            &&& (exists|i: int| 0 <= i < plan.len() && plan[i] == SaveStep::RestartWebServer)
                <==> restart
            &&& (exists|i: int| 0 <= i < plan.len() && plan[i] == SaveStep::LogLanguageChanged)
                <==> language_changed
            &&& forall|b: bool|
                (exists|i: int| 0 <= i < plan.len() && plan[i] == SaveStep::SetAutostart(b))
                    <==> autostart == Some(b)
            &&& forall|b: bool|
                (exists|i: int| 0 <= i < plan.len() && plan[i] == SaveStep::LogAutostart(b))
                    <==> autostart == Some(b)
            &&& (exists|i: int| 0 <= i < plan.len() && plan[i] == SaveStep::WriteFile)
            &&& (exists|i: int| 0 <= i < plan.len() && plan[i] == SaveStep::LogSaved)
            &&& (exists|i: int| 0 <= i < plan.len() && plan[i] == SaveStep::NotifyWindow)
            &&& forall|i: int, j: int|
                0 <= i < plan.len() && 0 <= j < plan.len() && #[trigger] plan[i]
                    == SaveStep::StoreInMemory && #[trigger] plan[j] == SaveStep::RestartWebServer
                    ==> i < j
        }),
{
    let plan = save_plan(autostart, language_changed, restart);
    let a: int = if autostart is Some {
        2
    } else {
        0
    };
    let head = match autostart {
        Some(b) => seq![SaveStep::SetAutostart(b), SaveStep::LogAutostart(b)],
        None => Seq::<SaveStep>::empty(),
    };
    let l: int = if language_changed {
        1
    } else {
        0
    };
    let lang = if language_changed {
        seq![SaveStep::LogLanguageChanged]
    } else {
        Seq::<SaveStep>::empty()
    };
    let rs = if restart {
        seq![SaveStep::RestartWebServer]
    } else {
        Seq::<SaveStep>::empty()
    };
    assert(plan =~= head + seq![SaveStep::WriteFile, SaveStep::StoreInMemory] + lang + seq![
        SaveStep::LogSaved,
    ] + rs + seq![SaveStep::NotifyWindow]);
    let r: int = if restart {
        1
    } else {
        0
    };
    assert(plan.len() == a + 2 + l + 1 + r + 1);
    // what stands at each position
    assert forall|i: int| 0 <= i < plan.len() implies #[trigger] plan[i] == (if i < a {
        head[i]
    } else if i == a {
        SaveStep::WriteFile
    } else if i == a + 1 {
        SaveStep::StoreInMemory
    } else if i < a + 2 + l {
        SaveStep::LogLanguageChanged
    } else if i == a + 2 + l {
        SaveStep::LogSaved
    } else if i < a + 3 + l + r {
        SaveStep::RestartWebServer
    } else {
        SaveStep::NotifyWindow
    }) by {}
    if restart {
        assert(plan[a + 3 + l] == SaveStep::RestartWebServer);
    }
    if language_changed {
        assert(plan[a + 2] == SaveStep::LogLanguageChanged);
    }
    assert(plan[a] == SaveStep::WriteFile);
    assert(plan[a + 2 + l] == SaveStep::LogSaved);
    assert(plan[a + 3 + l + r] == SaveStep::NotifyWindow);
    assert forall|b: bool| (exists|i: int| 0 <= i < plan.len() && plan[i] == SaveStep::SetAutostart(b))
        <==> autostart == Some(b) by {
        if autostart == Some(b) {
            assert(plan[0] == SaveStep::SetAutostart(b));
        }
    }
    assert forall|b: bool| (exists|i: int| 0 <= i < plan.len() && plan[i] == SaveStep::LogAutostart(b))
        <==> autostart == Some(b) by {
        if autostart == Some(b) {
            assert(plan[1] == SaveStep::LogAutostart(b));
        }
    }
}

/// A save logs a language change exactly when the stored language differs from the old
/// one, and never changes the port it was given unless that port is 0.
pub proof fn law_language_and_port_of_update(old: SettingsView, new: SettingsView)
    ensures
        planned_update(old, new).2 <==> old.language != planned_update(old, new).0.language,
        new.port != 0 ==> planned_update(old, new).0.port == new.port,
        new.port != 0 && (old.port != new.port || old.web_access != new.web_access)
            ==> planned_update(old, new).3,
        old.port == new.port && old.web_access == new.web_access && new.port != 0
            ==> !planned_update(old, new).3,
{
}

} // verus!
