//! The application's configuration: its sections, the named profiles, and the keys
//! that can be read and written from the command line.
use vstd::prelude::*;

use crate::profile::{profile_of, Profile};
use crate::table::NameTable;
use crate::text::{chars_of, decimal, decimal_string, parse_u64, parse_unsigned, str_eq};

verus! {

#[derive(Clone, Debug)]
pub struct AppConfig {
    pub default_mode: String,
    pub confirm_on_quit: bool,
    pub start_in_tui: bool,
}

#[derive(Clone, Debug)]
pub struct TimerConfig {
    pub focus_minutes: u64,
    pub short_break_minutes: u64,
    pub long_break_minutes: u64,
    pub long_break_every: u32,
    pub auto_start_breaks: bool,
    pub auto_start_focus: bool,
}

#[derive(Clone, Debug)]
pub struct VisualConfig {
    pub theme: String,
    pub font: String,
    pub animations: bool,
    pub animation_speed: String,
    pub ambient_background: String,
    pub mascot: String,
}

#[derive(Clone, Debug)]
pub struct InputConfig {
    pub mouse: bool,
    pub vim_keys: bool,
}

#[derive(Clone, Debug)]
pub struct NotificationConfig {
    pub enabled: bool,
    pub sound: bool,
    pub macos_notification: bool,
}

#[derive(Clone, Debug)]
pub struct StorageConfig {
    pub backend: String,
}

#[derive(Clone, Debug)]
pub struct HookConfig {
    pub enabled: bool,
    pub on_focus_start: String,
    pub on_focus_end: String,
    pub on_break_start: String,
    pub on_break_end: String,
}

impl Default for HookConfig {
    /// Hooks off, with no commands.
    fn default() -> (h: Self)
        ensures
            !h.enabled,
            h.on_focus_start@ == Seq::<char>::empty(),
            h.on_focus_end@ == Seq::<char>::empty(),
            h.on_break_start@ == Seq::<char>::empty(),
            h.on_break_end@ == Seq::<char>::empty(),
    {
        HookConfig {
            enabled: false,
            on_focus_start: String::new(),
            on_focus_end: String::new(),
            on_break_start: String::new(),
            on_break_end: String::new(),
        }
    }
}

#[derive(Clone, Debug)]
pub struct Config {
    pub app: AppConfig,
    pub timer: TimerConfig,
    pub visuals: VisualConfig,
    pub input: InputConfig,
    pub notifications: NotificationConfig,
    pub storage: StorageConfig,
    pub hooks: HookConfig,
    pub profiles: NameTable<Profile>,
}

/// The profile that a name picks: that profile, else the `default` one, else the built-in
/// default profile.
pub open spec fn chosen_profile(profiles: Map<Seq<char>, Profile>, name: Option<Seq<char>>) -> Profile {
    let key = match name {
        Some(n) => n,
        None => "default"@,
    };
    if profiles.contains_key(key) {
        profiles[key]
    } else if profiles.contains_key("default"@) {
        profiles["default"@]
    } else {
        profile_of(25, 5, 15, 4)
    }
}

/// The text of a `bool` as `to_string` writes it.
pub open spec fn bool_text(b: bool) -> Seq<char> {
    if b {
        "true"@
    } else {
        "false"@
    }
}

/// What `bool::from_str` gives.
pub open spec fn parse_bool_text(s: Seq<char>) -> Option<bool> {
    if s == "true"@ {
        Some(true)
    } else if s == "false"@ {
        Some(false)
    } else {
        None
    }
}

/// The settings a key names.
pub enum ConfigKey {
    Theme,
    Font,
    FocusMinutes,
    ShortBreakMinutes,
    LongBreakMinutes,
    Mouse,
    VimKeys,
    StorageBackend,
}

/// The setting that a key names, if any.
pub open spec fn config_key(key: Seq<char>) -> Option<ConfigKey> {
    if key == "theme.name"@ || key == "visual.theme"@ || key == "visuals.theme"@ {
        Some(ConfigKey::Theme)
    } else if key == "visual.font"@ || key == "visuals.font"@ {
        Some(ConfigKey::Font)
    } else if key == "timer.focus_minutes"@ {
        Some(ConfigKey::FocusMinutes)
    } else if key == "timer.short_break_minutes"@ {
        Some(ConfigKey::ShortBreakMinutes)
    } else if key == "timer.long_break_minutes"@ {
        Some(ConfigKey::LongBreakMinutes)
    } else if key == "input.mouse"@ {
        Some(ConfigKey::Mouse)
    } else if key == "input.vim_keys"@ {
        Some(ConfigKey::VimKeys)
    } else if key == "storage.backend"@ {
        Some(ConfigKey::StorageBackend)
    } else {
        None
    }
}

/// Why a key could not be set.
#[derive(Clone, Debug)]
pub enum ConfigError {
    /// The value of a minutes key is not a number that fits in a `u64`.
    NotANumber,
    /// The value of a switch is neither `true` nor `false`.
    NotABool,
    /// No setting has that key.
    UnsupportedKey(String),
}

impl ConfigError {
    pub open spec fn message_text(&self) -> Seq<char> {
        match self {
            ConfigError::NotANumber => "invalid number"@,
            ConfigError::NotABool => "provided string was not `true` or `false`"@,
            ConfigError::UnsupportedKey(k) => "unsupported config key: "@ + k@,
        }
    }

    /// The error as text.
    pub fn message(&self) -> (r: String)
        ensures
            r@ == self.message_text(),
    {
        match self {
            ConfigError::NotANumber => String::from_str("invalid number"),
            ConfigError::NotABool => String::from_str("provided string was not `true` or `false`"),
            ConfigError::UnsupportedKey(k) => {
                let s = String::from_str("unsupported config key: ");
                s.concat(k.as_str())
            },
        }
    }
}

/// Config values that `set_key` reads or leaves alone.
pub open spec fn same_except_keys(a: &Config, b: &Config) -> bool {
    &&& a.app == b.app
    &&& a.timer.long_break_every == b.timer.long_break_every
    &&& a.timer.auto_start_breaks == b.timer.auto_start_breaks
    &&& a.timer.auto_start_focus == b.timer.auto_start_focus
    &&& a.visuals.animations == b.visuals.animations
    &&& a.visuals.animation_speed == b.visuals.animation_speed
    &&& a.visuals.ambient_background == b.visuals.ambient_background
    &&& a.visuals.mascot == b.visuals.mascot
    &&& a.notifications == b.notifications
    &&& a.hooks == b.hooks
    &&& a.profiles == b.profiles
}

/// The text that `get_key` gives for a setting.
pub open spec fn key_text(c: &Config, k: ConfigKey) -> Seq<char> {
    match k {
        ConfigKey::Theme => c.visuals.theme@,
        ConfigKey::Font => c.visuals.font@,
        ConfigKey::FocusMinutes => decimal(c.timer.focus_minutes as nat),
        ConfigKey::ShortBreakMinutes => decimal(c.timer.short_break_minutes as nat),
        ConfigKey::LongBreakMinutes => decimal(c.timer.long_break_minutes as nat),
        ConfigKey::Mouse => bool_text(c.input.mouse),
        ConfigKey::VimKeys => bool_text(c.input.vim_keys),
        ConfigKey::StorageBackend => c.storage.backend@,
    }
}

/// The value that a setting holds, as text, after `set_key` wrote `value` into it; `None`
/// where `value` is refused.
pub open spec fn written(k: ConfigKey, value: Seq<char>) -> Option<Seq<char>> {
    match k {
        ConfigKey::Theme | ConfigKey::Font | ConfigKey::StorageBackend => Some(value),
        ConfigKey::FocusMinutes | ConfigKey::ShortBreakMinutes | ConfigKey::LongBreakMinutes => {
            match parse_unsigned(value, u64::MAX as nat) {
                Some(n) => Some(decimal(n)),
                None => None,
            }
        },
        ConfigKey::Mouse | ConfigKey::VimKeys => match parse_bool_text(value) {
            Some(b) => Some(bool_text(b)),
            None => None,
        },
    }
}

/// `a` and `b` agree on every setting but `k`.
pub open spec fn same_other_keys(a: &Config, b: &Config, k: ConfigKey) -> bool {
    &&& !(k is Theme) ==> a.visuals.theme@ == b.visuals.theme@
    &&& !(k is Font) ==> a.visuals.font@ == b.visuals.font@
    &&& !(k is FocusMinutes) ==> a.timer.focus_minutes == b.timer.focus_minutes
    &&& !(k is ShortBreakMinutes) ==> a.timer.short_break_minutes == b.timer.short_break_minutes
    &&& !(k is LongBreakMinutes) ==> a.timer.long_break_minutes == b.timer.long_break_minutes
    &&& !(k is Mouse) ==> a.input.mouse == b.input.mouse
    &&& !(k is VimKeys) ==> a.input.vim_keys == b.input.vim_keys
    &&& !(k is StorageBackend) ==> a.storage.backend@ == b.storage.backend@
}

/// What `bool::from_str` gives for `value`.
pub fn parse_bool(value: &str) -> (r: Option<bool>)
    ensures
        r == parse_bool_text(value@),
{
    if str_eq(value, "true") {
        Some(true)
    } else if str_eq(value, "false") {
        Some(false)
    } else {
        None
    }
}

/// The setting that a key names.
pub fn lookup_key(key: &str) -> (r: Option<ConfigKey>)
    ensures
        r == config_key(key@),
{
    if str_eq(key, "theme.name") || str_eq(key, "visual.theme") || str_eq(key, "visuals.theme") {
        Some(ConfigKey::Theme)
    } else if str_eq(key, "visual.font") || str_eq(key, "visuals.font") {
        Some(ConfigKey::Font)
    } else if str_eq(key, "timer.focus_minutes") {
        Some(ConfigKey::FocusMinutes)
    } else if str_eq(key, "timer.short_break_minutes") {
        Some(ConfigKey::ShortBreakMinutes)
    } else if str_eq(key, "timer.long_break_minutes") {
        Some(ConfigKey::LongBreakMinutes)
    } else if str_eq(key, "input.mouse") {
        Some(ConfigKey::Mouse)
    } else if str_eq(key, "input.vim_keys") {
        Some(ConfigKey::VimKeys)
    } else if str_eq(key, "storage.backend") {
        Some(ConfigKey::StorageBackend)
    } else {
        None
    }
}

fn bool_string(b: bool) -> (r: String)
    ensures
        r@ == bool_text(b),
{
    if b {
        String::from_str("true")
    } else {
        String::from_str("false")
    }
}

impl Default for Config {
    /// The built-in configuration: the default, deep-work and micro profiles, the
    /// catppuccin-mocha theme, the digital font, mouse and notifications on.
    fn default() -> (c: Self)
        ensures
            c.default_values(),
    {
        let mut profiles = NameTable::new();
        profiles.insert(String::from_str("default"), Profile::default());
        profiles.insert(String::from_str("deep-work"), Profile::deep_work());
        profiles.insert(String::from_str("micro"), Profile::micro());
        Config {
            app: AppConfig {
                default_mode: String::from_str("pomodoro"),
                confirm_on_quit: true,
                start_in_tui: true,
            },
            timer: TimerConfig {
                focus_minutes: 25,
                short_break_minutes: 5,
                long_break_minutes: 15,
                long_break_every: 4,
                auto_start_breaks: false,
                auto_start_focus: false,
            },
            visuals: VisualConfig {
                theme: String::from_str("catppuccin-mocha"),
                font: String::from_str("digital"),
                animations: true,
                animation_speed: String::from_str("normal"),
                ambient_background: String::from_str("none"),
                mascot: String::from_str("tomato"),
            },
            input: InputConfig { mouse: true, vim_keys: true },
            notifications: NotificationConfig {
                enabled: true,
                sound: true,
                macos_notification: true,
            },
            storage: StorageConfig { backend: String::from_str("jsonl") },
            hooks: HookConfig::default(),
            profiles,
        }
    }
}

impl Config {
    /// The values of the built-in configuration.
    pub open spec fn default_values(&self) -> bool {
        &&& self.app.default_mode@ == "pomodoro"@
        &&& self.app.confirm_on_quit
        &&& self.app.start_in_tui
        &&& self.timer.focus_minutes == 25
        &&& self.timer.short_break_minutes == 5
        &&& self.timer.long_break_minutes == 15
        &&& self.timer.long_break_every == 4
        &&& !self.timer.auto_start_breaks
        &&& !self.timer.auto_start_focus
        &&& self.visuals.theme@ == "catppuccin-mocha"@
        &&& self.visuals.font@ == "digital"@
        &&& self.visuals.animations
        &&& self.visuals.animation_speed@ == "normal"@
        &&& self.visuals.ambient_background@ == "none"@
        &&& self.visuals.mascot@ == "tomato"@
        &&& self.input.mouse
        &&& self.input.vim_keys
        &&& self.notifications.enabled
        &&& self.notifications.sound
        &&& self.notifications.macos_notification
        &&& self.storage.backend@ == "jsonl"@
        &&& !self.hooks.enabled
        &&& self.hooks.on_focus_start@ == Seq::<char>::empty()
        &&& self.hooks.on_focus_end@ == Seq::<char>::empty()
        &&& self.hooks.on_break_start@ == Seq::<char>::empty()
        &&& self.hooks.on_break_end@ == Seq::<char>::empty()
        &&& self.profiles.wf()
        &&& self.profiles@ == Map::<Seq<char>, Profile>::empty().insert("default"@, profile_of(25, 5, 15, 4)).insert(
            "deep-work"@,
            profile_of(50, 10, 25, 3),
        ).insert("micro"@, profile_of(10, 2, 8, 5))
    }

    /// The profile of that name (or `default` where no name is given); the `default`
    /// profile where the name is unknown; the built-in default where that is missing too.
    pub fn profile(&self, name: Option<&str>) -> (r: Profile)
        requires
            self.profiles.wf(),
        ensures
            r == chosen_profile(
                self.profiles@,
                match name {
                    Some(n) => Some(n@),
                    None => None,
                },
            ),
    {
        let key: &str = match name {
            Some(n) => n,
            None => "default",
        };
        match self.profiles.get(key) {
            Some(p) => p,
            None => match self.profiles.get("default") {
                Some(p) => p,
                None => Profile::default(),
            },
        }
    }

    /// The value of a setting as text; `None` for a key that names no setting.
    pub fn get_key(&self, key: &str) -> (r: Option<String>)
        ensures
            r is Some <==> config_key(key@) is Some,
            r matches Some(s) ==> s@ == key_text(self, config_key(key@)->0),
    {
        match lookup_key(key) {
            None => None,
            Some(k) => Some(
                match k {
                    ConfigKey::Theme => self.visuals.theme.clone(),
                    ConfigKey::Font => self.visuals.font.clone(),
                    ConfigKey::FocusMinutes => decimal_string(self.timer.focus_minutes),
                    ConfigKey::ShortBreakMinutes => decimal_string(self.timer.short_break_minutes),
                    ConfigKey::LongBreakMinutes => decimal_string(self.timer.long_break_minutes),
                    ConfigKey::Mouse => bool_string(self.input.mouse),
                    ConfigKey::VimKeys => bool_string(self.input.vim_keys),
                    ConfigKey::StorageBackend => self.storage.backend.clone(),
                },
            ),
        }
    }

    /// Writes `value` into the setting that `key` names. A minutes key takes a number, a
    /// switch takes `true` or `false`; a refused value or an unknown key leaves the
    /// configuration as it was.
    pub fn set_key(&mut self, key: &str, value: &str) -> (r: Result<(), ConfigError>)
        ensures
            same_except_keys(final(self), old(self)),
            config_key(key@) is None ==> (r matches Err(ConfigError::UnsupportedKey(k)) && k@
                == key@),
            config_key(key@) matches Some(k) ==> {
                &&& r is Ok <==> written(k, value@) is Some
                &&& r matches Err(e) ==> (k is FocusMinutes || k is ShortBreakMinutes
                    || k is LongBreakMinutes) && e is NotANumber || (k is Mouse || k is VimKeys)
                    && e is NotABool
                &&& r is Ok ==> key_text(final(self), k) == written(k, value@)->0
                    && same_other_keys(final(self), old(self), k)
            },
            r is Err ==> *final(self) == *old(self),
    {
        match lookup_key(key) {
            None => Err(ConfigError::UnsupportedKey(String::from_str(key))),
            Some(k) => match k {
                ConfigKey::Theme => {
                    self.visuals.theme = String::from_str(value);
                    Ok(())
                },
                ConfigKey::Font => {
                    self.visuals.font = String::from_str(value);
                    Ok(())
                },
                ConfigKey::StorageBackend => {
                    self.storage.backend = String::from_str(value);
                    Ok(())
                },
                ConfigKey::FocusMinutes | ConfigKey::ShortBreakMinutes
                | ConfigKey::LongBreakMinutes => {
                    let chars = chars_of(value);
                    match parse_u64(chars.as_slice()) {
                        None => Err(ConfigError::NotANumber),
                        Some(n) => {
                            match k {
                                ConfigKey::FocusMinutes => self.timer.focus_minutes = n,
                                ConfigKey::ShortBreakMinutes => self.timer.short_break_minutes = n,
                                _ => self.timer.long_break_minutes = n,
                            }
                            Ok(())
                        },
                    }
                },
                ConfigKey::Mouse | ConfigKey::VimKeys => match parse_bool(value) {
                    None => Err(ConfigError::NotABool),
                    Some(b) => {
                        match k {
                            ConfigKey::Mouse => self.input.mouse = b,
                            _ => self.input.vim_keys = b,
                        }
                        Ok(())
                    },
                },
            },
        }
    }
}

/// Writing a text setting and reading it back gives the text written; writing a number
/// or a switch gives back its canonical text (the same text where it was canonical).
/// A refused write changes nothing.
pub proof fn lemma_set_then_get(before: Config, after: Config, key: Seq<char>, value: Seq<char>, k: ConfigKey, ok: bool)
    requires
        config_key(key) == Some(k),
        ok <==> written(k, value) is Some,
        ok ==> key_text(&after, k) == written(k, value)->0,
        !ok ==> after == before,
    ensures
        ok && (k is Theme || k is Font || k is StorageBackend) ==> key_text(&after, k) == value,
        ok && (k is FocusMinutes || k is ShortBreakMinutes || k is LongBreakMinutes) ==> key_text(&after, k)
            == decimal(parse_unsigned(value, u64::MAX as nat)->0),
        ok && (k is Mouse || k is VimKeys) ==> key_text(&after, k) == value,
        !ok ==> key_text(&after, k) == key_text(&before, k),
{
}

/// The built-in configuration has the three documented profiles: `default` 25/5/15 with
/// a long break every 4 focus sessions, `deep-work` 50/10/25 every 3, `micro` 10/2/8
/// every 5; the named profile is what `profile` gives, and an unknown name gives the
/// `default` one.
pub proof fn lemma_default_profiles(c: Config, unknown: Seq<char>)
    requires
        c.default_values(),
        unknown != "default"@ && unknown != "deep-work"@ && unknown != "micro"@,
    ensures
        chosen_profile(c.profiles@, None).focus_minutes == 25,
        chosen_profile(c.profiles@, None).short_break_minutes == 5,
        chosen_profile(c.profiles@, None).long_break_minutes == 15,
        chosen_profile(c.profiles@, None).long_break_every == 4,
        chosen_profile(c.profiles@, Some("deep-work"@)).focus_minutes == 50,
        chosen_profile(c.profiles@, Some("deep-work"@)).short_break_minutes == 10,
        chosen_profile(c.profiles@, Some("deep-work"@)).long_break_minutes == 25,
        chosen_profile(c.profiles@, Some("deep-work"@)).long_break_every == 3,
        chosen_profile(c.profiles@, Some("micro"@)).focus_minutes == 10,
        chosen_profile(c.profiles@, Some("micro"@)).short_break_minutes == 2,
        chosen_profile(c.profiles@, Some("micro"@)).long_break_minutes == 8,
        chosen_profile(c.profiles@, Some("micro"@)).long_break_every == 5,
        chosen_profile(c.profiles@, Some(unknown)) == chosen_profile(c.profiles@, None),
{
    reveal_strlit("default");
    reveal_strlit("deep-work");
    reveal_strlit("micro");
    assert("default"@ != "deep-work"@ && "default"@ != "micro"@ && "deep-work"@ != "micro"@) by {
        assert("default"@.len() != "deep-work"@.len());
        assert("default"@[0] != "micro"@[0]);
        assert("deep-work"@.len() != "micro"@.len());
    }
}

} // verus!
