//! The idle and busy menus: pure state machines over button events.
//!
//! The persisted blind-signing setting is read-only here; when the
//! user toggles it the new value is returned for the surroundings to
//! persist.
use vstd::prelude::*;

verus! {

/// The idle menu's position.
#[derive(Clone, Copy, PartialEq, Eq, Structural, Debug)]
pub enum IdleMenu {
    AppMain,
    ShowVersion,
    Settings(Option<SettingsSubMenu>),
    Exit,
}

/// The settings submenu's position.
#[derive(Clone, Copy, PartialEq, Eq, Structural, Debug)]
pub enum SettingsSubMenu {
    EnableBlindSigning,
    DisableBlindSigning,
    Back,
}

/// The menu shown while an operation is in flight.
#[derive(Clone, Copy, PartialEq, Eq, Structural, Debug)]
pub enum BusyMenu {
    Working,
    Cancel,
}

/// The idle menu asks to leave the application.
pub struct DoExitApp;

/// The busy menu asks to discard the in-flight operation.
pub struct DoCancel;

/// The idle menu together with the setting it displays.
pub struct IdleMenuWithSettings {
    pub idle_menu: IdleMenu,
}

/// What the top line of a menu page shows.
pub enum MenuLabelTop {
    AppIcon,
    SettingsIcon,
    BackIcon,
    DashboardIcon,
    Text(String),
}

/// Mathematical model of a top line.
pub enum GMenuLabelTop {
    AppIcon,
    SettingsIcon,
    BackIcon,
    DashboardIcon,
    Text(Seq<char>),
}

impl View for MenuLabelTop {
    type V = GMenuLabelTop;

    open spec fn view(&self) -> GMenuLabelTop {
        match self {
            MenuLabelTop::AppIcon => GMenuLabelTop::AppIcon,
            MenuLabelTop::SettingsIcon => GMenuLabelTop::SettingsIcon,
            MenuLabelTop::BackIcon => GMenuLabelTop::BackIcon,
            MenuLabelTop::DashboardIcon => GMenuLabelTop::DashboardIcon,
            MenuLabelTop::Text(t) => GMenuLabelTop::Text(t@),
        }
    }
}

/// What the bottom line of a menu page shows.
pub struct MenuLabelBottom {
    pub text: String,
    pub bold: bool,
}

/// Mathematical model of a bottom line.
pub struct GMenuLabelBottom {
    pub text: Seq<char>,
    pub bold: bool,
}

impl View for MenuLabelBottom {
    type V = GMenuLabelBottom;

    open spec fn view(&self) -> GMenuLabelBottom {
        GMenuLabelBottom { text: self.text@, bold: self.bold }
    }
}

/// The two display lines for each idle-menu entry.
pub open spec fn spec_idle_label(m: IdleMenu) -> (GMenuLabelTop, GMenuLabelBottom) {
    match m {
        IdleMenu::AppMain => (
            GMenuLabelTop::AppIcon,
            GMenuLabelBottom { text: "Sui"@, bold: true },
        ),
        IdleMenu::ShowVersion => (
            GMenuLabelTop::Text("Version"@),
            GMenuLabelBottom { text: "0.1.0"@, bold: false },
        ),
        IdleMenu::Settings(None) => (
            GMenuLabelTop::SettingsIcon,
            GMenuLabelBottom { text: "Settings"@, bold: true },
        ),
        IdleMenu::Settings(Some(SettingsSubMenu::EnableBlindSigning)) => (
            GMenuLabelTop::Text("Blind Signing"@),
            GMenuLabelBottom { text: "Disabled"@, bold: false },
        ),
        IdleMenu::Settings(Some(SettingsSubMenu::DisableBlindSigning)) => (
            GMenuLabelTop::Text("Blind Signing"@),
            GMenuLabelBottom { text: "Enabled"@, bold: false },
        ),
        IdleMenu::Settings(Some(SettingsSubMenu::Back)) => (
            GMenuLabelTop::BackIcon,
            GMenuLabelBottom { text: "Back"@, bold: true },
        ),
        IdleMenu::Exit => (
            GMenuLabelTop::DashboardIcon,
            GMenuLabelBottom { text: "Quit"@, bold: true },
        ),
    }
}

/// The two display lines for each busy-menu entry.
pub open spec fn spec_busy_label(m: BusyMenu) -> (GMenuLabelTop, GMenuLabelBottom) {
    match m {
        BusyMenu::Working => (
            GMenuLabelTop::Text("Working..."@),
            GMenuLabelBottom { text: ""@, bold: false },
        ),
        BusyMenu::Cancel => (
            GMenuLabelTop::Text("Cancel"@),
            GMenuLabelBottom { text: ""@, bold: false },
        ),
    }
}

/// The submenu entry the toggle position points at for a given
/// setting value: it always offers the opposite of what is set.
pub open spec fn spec_toggle_entry(settings: u8) -> IdleMenu {
    if settings == 1 {
        IdleMenu::Settings(Some(SettingsSubMenu::DisableBlindSigning))
    } else {
        IdleMenu::Settings(Some(SettingsSubMenu::EnableBlindSigning))
    }
}

/// One left step of the idle menu.
pub open spec fn spec_idle_left(m: IdleMenu, settings: u8) -> IdleMenu {
    match m {
        IdleMenu::AppMain => IdleMenu::Exit,
        IdleMenu::ShowVersion => IdleMenu::AppMain,
        IdleMenu::Settings(None) => IdleMenu::ShowVersion,
        IdleMenu::Settings(Some(SettingsSubMenu::Back)) => spec_toggle_entry(settings),
        IdleMenu::Settings(Some(_)) => IdleMenu::Settings(Some(SettingsSubMenu::Back)),
        IdleMenu::Exit => IdleMenu::Settings(None),
    }
}

/// One right step of the idle menu.
pub open spec fn spec_idle_right(m: IdleMenu, settings: u8) -> IdleMenu {
    match m {
        IdleMenu::AppMain => IdleMenu::ShowVersion,
        IdleMenu::ShowVersion => IdleMenu::Settings(None),
        IdleMenu::Settings(None) => IdleMenu::Exit,
        IdleMenu::Settings(Some(SettingsSubMenu::Back)) => spec_toggle_entry(settings),
        IdleMenu::Settings(Some(_)) => IdleMenu::Settings(Some(SettingsSubMenu::Back)),
        IdleMenu::Exit => IdleMenu::AppMain,
    }
}

/// Confirming an idle-menu entry: the new position, whether to leave
/// the application, and a setting value to persist if the user
/// toggled blind signing.
pub open spec fn spec_idle_both(m: IdleMenu, settings: u8) -> (IdleMenu, bool, Option<u8>) {
    match m {
        IdleMenu::AppMain => (m, false, None),
        IdleMenu::ShowVersion => (m, false, None),
        IdleMenu::Settings(None) => (spec_toggle_entry(settings), false, None),
        IdleMenu::Settings(Some(SettingsSubMenu::EnableBlindSigning)) => (
            IdleMenu::Settings(Some(SettingsSubMenu::DisableBlindSigning)),
            false,
            Some(1u8),
        ),
        IdleMenu::Settings(Some(SettingsSubMenu::DisableBlindSigning)) => (
            IdleMenu::Settings(Some(SettingsSubMenu::EnableBlindSigning)),
            false,
            Some(0u8),
        ),
        IdleMenu::Settings(Some(SettingsSubMenu::Back)) => (IdleMenu::Settings(None), false, None),
        IdleMenu::Exit => (m, true, None),
    }
}

impl IdleMenuWithSettings {
    /// Move one entry to the left.
    pub fn move_left(&mut self, settings: u8)
        ensures
            final(self).idle_menu == spec_idle_left(old(self).idle_menu, settings),
    {
        self.idle_menu = match self.idle_menu {
            IdleMenu::AppMain => IdleMenu::Exit,
            IdleMenu::ShowVersion => IdleMenu::AppMain,
            IdleMenu::Settings(None) => IdleMenu::ShowVersion,
            IdleMenu::Settings(Some(SettingsSubMenu::Back)) => {
                if settings == 1 {
                    IdleMenu::Settings(Some(SettingsSubMenu::DisableBlindSigning))
                } else {
                    IdleMenu::Settings(Some(SettingsSubMenu::EnableBlindSigning))
                }
            },
            IdleMenu::Settings(Some(_)) => IdleMenu::Settings(Some(SettingsSubMenu::Back)),
            IdleMenu::Exit => IdleMenu::Settings(None),
        };
    }

    /// Move one entry to the right.
    pub fn move_right(&mut self, settings: u8)
        ensures
            final(self).idle_menu == spec_idle_right(old(self).idle_menu, settings),
    {
        self.idle_menu = match self.idle_menu {
            IdleMenu::AppMain => IdleMenu::ShowVersion,
            IdleMenu::ShowVersion => IdleMenu::Settings(None),
            IdleMenu::Settings(None) => IdleMenu::Exit,
            IdleMenu::Settings(Some(SettingsSubMenu::Back)) => {
                if settings == 1 {
                    IdleMenu::Settings(Some(SettingsSubMenu::DisableBlindSigning))
                } else {
                    IdleMenu::Settings(Some(SettingsSubMenu::EnableBlindSigning))
                }
            },
            IdleMenu::Settings(Some(_)) => IdleMenu::Settings(Some(SettingsSubMenu::Back)),
            IdleMenu::Exit => IdleMenu::AppMain,
        };
    }

    /// Confirm the current entry. Returns the exit request, and the
    /// setting value to persist if blind signing was toggled.
    pub fn handle_both(&mut self, settings: u8) -> (r: (Option<DoExitApp>, Option<u8>))
        ensures
            ({
                let (m2, exit, store) = spec_idle_both(old(self).idle_menu, settings);
                final(self).idle_menu == m2 && (r.0 is Some <==> exit) && r.1 == store
            }),
    {
        match self.idle_menu {
            IdleMenu::AppMain => (None, None),
            IdleMenu::ShowVersion => (None, None),
            IdleMenu::Settings(None) => {
                self.idle_menu = if settings == 1 {
                    IdleMenu::Settings(Some(SettingsSubMenu::DisableBlindSigning))
                } else {
                    IdleMenu::Settings(Some(SettingsSubMenu::EnableBlindSigning))
                };
                (None, None)
            },
            IdleMenu::Settings(Some(SettingsSubMenu::EnableBlindSigning)) => {
                self.idle_menu = IdleMenu::Settings(Some(SettingsSubMenu::DisableBlindSigning));
                (None, Some(1))
            },
            IdleMenu::Settings(Some(SettingsSubMenu::DisableBlindSigning)) => {
                self.idle_menu = IdleMenu::Settings(Some(SettingsSubMenu::EnableBlindSigning));
                (None, Some(0))
            },
            IdleMenu::Settings(Some(SettingsSubMenu::Back)) => {
                self.idle_menu = IdleMenu::Settings(None);
                (None, None)
            },
            IdleMenu::Exit => (Some(DoExitApp), None),
        }
    }

    /// The two display lines for the current entry.
    pub fn label(&self) -> (r: (MenuLabelTop, MenuLabelBottom))
        ensures
            (r.0@, r.1@) == spec_idle_label(self.idle_menu),
    {
        match self.idle_menu {
            IdleMenu::AppMain => (
                MenuLabelTop::AppIcon,
                MenuLabelBottom { text: String::from_str("Sui"), bold: true },
            ),
            IdleMenu::ShowVersion => (
                MenuLabelTop::Text(String::from_str("Version")),
                MenuLabelBottom { text: String::from_str("0.1.0"), bold: false },
            ),
            IdleMenu::Settings(None) => (
                MenuLabelTop::SettingsIcon,
                MenuLabelBottom { text: String::from_str("Settings"), bold: true },
            ),
            IdleMenu::Settings(Some(SettingsSubMenu::EnableBlindSigning)) => (
                MenuLabelTop::Text(String::from_str("Blind Signing")),
                MenuLabelBottom { text: String::from_str("Disabled"), bold: false },
            ),
            IdleMenu::Settings(Some(SettingsSubMenu::DisableBlindSigning)) => (
                MenuLabelTop::Text(String::from_str("Blind Signing")),
                MenuLabelBottom { text: String::from_str("Enabled"), bold: false },
            ),
            IdleMenu::Settings(Some(SettingsSubMenu::Back)) => (
                MenuLabelTop::BackIcon,
                MenuLabelBottom { text: String::from_str("Back"), bold: true },
            ),
            IdleMenu::Exit => (
                MenuLabelTop::DashboardIcon,
                MenuLabelBottom { text: String::from_str("Quit"), bold: true },
            ),
        }
    }
}

impl BusyMenu {
    /// Move one entry to the left.
    pub fn move_left(&mut self)
        ensures
            *final(self) == BusyMenu::Working,
    {
        *self = BusyMenu::Working;
    }

    /// Move one entry to the right.
    pub fn move_right(&mut self)
        ensures
            *final(self) == BusyMenu::Cancel,
    {
        *self = BusyMenu::Cancel;
    }

    /// Confirm the current entry: on the cancel entry, ask to discard
    /// the in-flight operation.
    pub fn handle_both(&mut self) -> (r: Option<DoCancel>)
        ensures
            *final(self) == *old(self),
            r is Some <==> *old(self) == BusyMenu::Cancel,
    {
        match self {
            BusyMenu::Working => None,
            BusyMenu::Cancel => Some(DoCancel),
        }
    }

    /// The two display lines for the current entry.
    pub fn label(&self) -> (r: (MenuLabelTop, MenuLabelBottom))
        ensures
            (r.0@, r.1@) == spec_busy_label(*self),
    {
        match self {
            BusyMenu::Working => (
                MenuLabelTop::Text(String::from_str("Working...")),
                MenuLabelBottom { text: String::from_str(""), bold: false },
            ),
            BusyMenu::Cancel => (
                MenuLabelTop::Text(String::from_str("Cancel")),
                MenuLabelBottom { text: String::from_str(""), bold: false },
            ),
        }
    }
}

} // verus!
