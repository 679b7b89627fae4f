use vstd::prelude::*;

verus! {

/// What a menu button does.
#[derive(PartialEq, Eq, Structural, Clone, Copy, Debug)]
pub enum MenuButtonAction {
    Play,
    Options,
    Quit,
}

/// The labels that name a button action: "Play", "Helps" and "Quit".
pub open spec fn known_label(label: Seq<char>) -> bool {
    label == "Play"@ || label == "Helps"@ || label == "Quit"@
}

impl MenuButtonAction {
    /// The action of the button labelled `label`: "Play" plays, "Helps" opens
    /// the help panel, "Quit" quits. Other labels name no action.
    pub fn from_label(label: &str) -> (a: MenuButtonAction)
        requires
            known_label(label@),
        ensures
            label@ == "Play"@ ==> a == MenuButtonAction::Play,
            label@ == "Helps"@ ==> a == MenuButtonAction::Options,
            label@ == "Quit"@ ==> a == MenuButtonAction::Quit,
    {
        proof {
            reveal_strlit("Play");
            reveal_strlit("Helps");
            reveal_strlit("Quit");
            assert("Helps"@.len() != "Play"@.len());
            assert("Quit"@[0] != "Play"@[0]);
            assert("Quit"@.len() != "Helps"@.len());
        }
        let l = label.to_owned();
        if l == String::from_str("Play") {
            MenuButtonAction::Play
        } else if l == String::from_str("Helps") {
            MenuButtonAction::Options
        } else {
            MenuButtonAction::Quit
        }
    }
}

} // verus!
