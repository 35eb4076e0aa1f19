//! User settings: their defaults, how a loaded file is repaired, and how a save is checked.
use vstd::prelude::*;

use crate::text::chars_of;

verus! {

broadcast use vstd::string::group_string_axioms;

/// The port the embedded web server listens on when nothing else is configured.
pub const DEFAULT_PORT: u16 = 8080;

/// The settings a user can change.
#[derive(Debug, Clone)]
pub struct Settings {
    pub language: String,
    pub port: u16,
    pub autostart: bool,
    /// Whether the embedded web service may be reached from the local network.
    pub web_access: bool,
}

/// The mathematical value of a `Settings`.
pub struct SettingsView {
    pub language: Seq<char>,
    pub port: u16,
    pub autostart: bool,
    pub web_access: bool,
}

impl View for Settings {
    type V = SettingsView;

    open spec fn view(&self) -> SettingsView {
        SettingsView {
            language: self.language@,
            port: self.port,
            autostart: self.autostart,
            web_access: self.web_access,
        }
    }
}

/// The language code of the Chinese interface.
pub open spec fn zh() -> Seq<char> {
    seq!['z', 'h']
}

/// The language code of the English interface.
pub open spec fn en() -> Seq<char> {
    seq!['e', 'n']
}

/// `s` equals `"en"` when ASCII letter case is ignored (Rust's `eq_ignore_ascii_case("en")`).
pub open spec fn is_en_ignoring_case(s: Seq<char>) -> bool {
    &&& s.len() == 2
    &&& (s[0] == 'e' || s[0] == 'E')
    &&& (s[1] == 'n' || s[1] == 'N')
}

/// The settings used when no settings file can be read.
pub open spec fn default_settings() -> SettingsView {
    SettingsView { language: zh(), port: 8080, autostart: false, web_access: false }
}

/// `s` with the values that cannot work replaced: any language other than English
/// (in any letter case) becomes Chinese, and port 0 becomes the default port.
pub open spec fn normalized(s: SettingsView) -> SettingsView {
    SettingsView {
        language: if is_en_ignoring_case(s.language) {
            en()
        } else {
            zh()
        },
        port: if s.port == 0 {
            8080
        } else {
            s.port
        },
        ..s
    }
}

/// The settings can be saved as they are.
pub open spec fn is_valid(s: SettingsView) -> bool {
    s.port != 0
}

/// The message a refused save is answered with.
pub open spec fn port_error_message() -> Seq<char> {
    "port must be between 1 and 65535"@
}

/// The string `"zh"`.
pub fn zh_string() -> (r: String)
    ensures
        r@ == zh(),
{
    let r = String::from_str("zh");
    proof {
        reveal_strlit("zh");
    }
    r
}

/// The string `"en"`.
pub fn en_string() -> (r: String)
    ensures
        r@ == en(),
{
    let r = String::from_str("en");
    proof {
        reveal_strlit("en");
    }
    r
}

/// Whether `s` is `"en"` ignoring ASCII letter case.
pub fn eq_ignore_case_en(s: &str) -> (r: bool)
    ensures
        r == is_en_ignoring_case(s@),
{
    let v = chars_of(s);
    v.len() == 2 && (v[0] == 'e' || v[0] == 'E') && (v[1] == 'n' || v[1] == 'N')
}

impl Default for Settings {
    fn default() -> (r: Settings)
        ensures
            r@ == default_settings(),
    {
        Settings { language: zh_string(), port: DEFAULT_PORT, autostart: false, web_access: false }
    }
}

impl Settings {
    /// Replaces the values that cannot work by working ones. Used when a settings file is
    /// read, so that a hand-edited file never keeps the program from starting.
    pub fn normalize(self) -> (r: Settings)
        ensures
            r@ == normalized(self@),
    {
        let mut s = self;
        s.language = if eq_ignore_case_en(s.language.as_str()) {
            en_string()
        } else {
            zh_string()
        };
        if s.port == 0 {
            s.port = DEFAULT_PORT;
        }
        s
    }

    /// Checks settings before they are saved. Nothing is repaired here: a bad value is refused.
    pub fn validate(&self) -> (r: Result<(), String>)
        ensures
            r is Ok <==> is_valid(self@),
            r matches Err(e) ==> e@ == port_error_message(),
    {
        if self.port == 0 {
            let e = String::from_str("port must be between 1 and 65535");
            proof {
                reveal_strlit("port must be between 1 and 65535");
            }
            return Err(e);
        }
        Ok(())
    }
}

/// Repairing settings twice changes nothing more than repairing them once.
pub proof fn law_normalize_idempotent(s: SettingsView)
    ensures
        normalized(normalized(s)) == normalized(s),
{
}

/// Repaired settings always pass the check made before a save, and name one of the two
/// supported languages.
pub proof fn law_normalized_is_valid(s: SettingsView)
    ensures
        is_valid(normalized(s)),
        normalized(s).language == en() || normalized(s).language == zh(),
{
}

/// Settings that pass the check keep their port when repaired, and the other flags are
/// never touched.
pub proof fn law_normalize_keeps_valid_port(s: SettingsView)
    requires
        is_valid(s),
    ensures
        normalized(s).port == s.port,
        normalized(s).autostart == s.autostart,
        normalized(s).web_access == s.web_access,
{
}

/// The default settings are already repaired and pass the check.
pub proof fn law_default_is_normal()
    ensures
        normalized(default_settings()) == default_settings(),
        is_valid(default_settings()),
{
}

/// How a language is repaired: `en` in any letter case becomes `en`, anything else `zh`;
/// port 0 becomes 8080 and any other port is kept; the check refuses exactly port 0.
pub proof fn law_normalize_values(s: SettingsView)
    ensures
        s.language == seq!['e', 'n'] || s.language == seq!['E', 'n'] || s.language == seq![
            'e',
            'N',
        ] || s.language == seq!['E', 'N'] ==> normalized(s).language == seq!['e', 'n'],
        !(s.language == seq!['e', 'n'] || s.language == seq!['E', 'n'] || s.language == seq![
            'e',
            'N',
        ] || s.language == seq!['E', 'N']) ==> normalized(s).language == seq!['z', 'h'],
        s.port == 0 ==> normalized(s).port == 8080,
        s.port != 0 ==> normalized(s).port == s.port,
        normalized(s).autostart == s.autostart,
        normalized(s).web_access == s.web_access,
        is_valid(s) <==> s.port != 0,
{
    if !(s.language == seq!['e', 'n'] || s.language == seq!['E', 'n'] || s.language == seq![
        'e',
        'N',
    ] || s.language == seq!['E', 'N']) {
        if is_en_ignoring_case(s.language) {
            let l = s.language;
            if l[0] == 'e' && l[1] == 'n' {
                assert(l =~= seq!['e', 'n']);
            } else if l[0] == 'E' && l[1] == 'n' {
                assert(l =~= seq!['E', 'n']);
            } else if l[0] == 'e' && l[1] == 'N' {
                assert(l =~= seq!['e', 'N']);
            } else {
                assert(l =~= seq!['E', 'N']);
            }
        }
    }
}

} // verus!
