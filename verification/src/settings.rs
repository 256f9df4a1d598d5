//! The recognized options of the coordinator: notification delivery,
//! overlay visibility, tray summary, and the consume-shortcut binding.
//! Reading and writing the settings file is the caller's; the engine only
//! defines the shape and the defaults.

use vstd::prelude::*;
use vstd::string::*;

verus! {

/// The persisted options. Defaults: everything on, shortcut `F4`.
#[derive(Debug)]
pub struct NotifierSettings {
    pub notify: bool,
    pub float_window: bool,
    pub menu_bar: bool,
    pub shortcut: String,
}

impl NotifierSettings {
    /// The default options, used whenever the stored settings are absent
    /// or unreadable.
    pub fn fallback() -> (s: Self)
        ensures
            s.notify,
            s.float_window,
            s.menu_bar,
            s.shortcut@ == "F4"@,
    {
        NotifierSettings {
            notify: true,
            float_window: true,
            menu_bar: true,
            shortcut: String::new().concat("F4"),
        }
    }
}

impl Default for NotifierSettings {
    /// The default options.
    fn default() -> (s: Self)
        ensures
            s.notify,
            s.float_window,
            s.menu_bar,
            s.shortcut@ == "F4"@,
    {
        NotifierSettings::fallback()
    }
}

impl Clone for NotifierSettings {
    /// An exact copy, field by field.
    fn clone(&self) -> (r: Self)
        ensures
            r.notify == self.notify,
            r.float_window == self.float_window,
            r.menu_bar == self.menu_bar,
            r.shortcut@ == self.shortcut@,
    {
        NotifierSettings {
            notify: self.notify,
            float_window: self.float_window,
            menu_bar: self.menu_bar,
            shortcut: self.shortcut.clone(),
        }
    }
}

} // verus!
