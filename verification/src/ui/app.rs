//! The screens of the editor.

use vstd::prelude::*;

verus! {

/// A screen of the editor.
#[derive(Debug, Clone, Copy, PartialEq, Eq, Structural, Hash)]
pub enum UIType {
    LoadSave,
    SaveSave,
    Catfood,
    Xp,
    MainStory,
    EditLog,
    NormalTickets,
    RareTickets,
}

/// The name of a screen.
pub open spec fn ui_name(t: UIType) -> Seq<char> {
    match t {
        UIType::LoadSave => "load-save"@,
        UIType::Catfood => "catfood"@,
        UIType::SaveSave => "save-save"@,
        UIType::Xp => "xp"@,
        UIType::MainStory => "main-story"@,
        UIType::EditLog => "edit-log"@,
        UIType::NormalTickets => "normal-tickets"@,
        UIType::RareTickets => "rare-tickets"@,
    }
}

impl UIType {
    /// Every screen, in the order the menu shows them.
    pub fn all() -> (v: Vec<UIType>)
        ensures
            v@ == seq![
                UIType::LoadSave,
                UIType::SaveSave,
                UIType::Catfood,
                UIType::Xp,
                UIType::NormalTickets,
                UIType::RareTickets,
                UIType::MainStory,
                UIType::EditLog,
            ],
    {
        let v = vec![
            UIType::LoadSave,
            UIType::SaveSave,
            UIType::Catfood,
            UIType::Xp,
            UIType::NormalTickets,
            UIType::RareTickets,
            UIType::MainStory,
            UIType::EditLog,
        ];
        assert(v@ =~= seq![
            UIType::LoadSave,
            UIType::SaveSave,
            UIType::Catfood,
            UIType::Xp,
            UIType::NormalTickets,
            UIType::RareTickets,
            UIType::MainStory,
            UIType::EditLog,
        ]);
        v
    }

    pub fn get_str(&self) -> (s: &'static str)
        ensures
            s@ == ui_name(*self),
    {
        match self {
            UIType::LoadSave => "load-save",
            UIType::Catfood => "catfood",
            UIType::SaveSave => "save-save",
            UIType::Xp => "xp",
            UIType::MainStory => "main-story",
            UIType::EditLog => "edit-log",
            UIType::NormalTickets => "normal-tickets",
            UIType::RareTickets => "rare-tickets",
        }
    }

    /// Every screen but the one that loads a save needs a save loaded.
    pub fn needs_save_file(&self) -> (b: bool)
        ensures
            b == (*self != UIType::LoadSave),
    {
        !matches!(self, UIType::LoadSave)
    }
}

} // verus!
