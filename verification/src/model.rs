//! The state that a host keeps between frames, and the rule by which its
//! tree is regenerated.

use vstd::prelude::*;
use crate::geometry::{segments_of, Branch};
use crate::settings::Settings;
use crate::tree::{base_or_default, generate_tree, tree};

verus! {

/// The settings as the user last left them, and the tree that is drawn.
pub struct Model {
    /// The tree that was generated last; empty until the first generation.
    pub branches: Vec<Branch>,
    /// The settings as they stand after the last round of editing.
    pub settings: Settings,
}

impl Model {
    /// Whether the stored tree is the tree of the stored settings, grown
    /// from the default base.
    pub open spec fn in_sync(&self) -> bool {
        segments_of(self.branches@) == tree(self.settings, base_or_default(None)@)
    }

    /// The model that a host starts with: the initial settings, and no tree
    /// yet.
    pub fn new() -> (model: Model)
        ensures
            model.branches@ == Seq::<Branch>::empty(),
            model.settings == Settings::initial(),
            model.settings.valid(),
    {
        Model { branches: Vec::new(), settings: Settings::default() }
    }

    /// Takes in the outcome of one round of editing: the settings as they
    /// stand after it, and whether any of them was changed in it.
    ///
    /// The settings are stored either way. Where something was changed, the
    /// stored tree is replaced as a whole by the tree of the new settings;
    /// where nothing was, the stored tree is left as it is and nothing is
    /// generated.
    pub fn update(&mut self, settings: Settings, changed: bool)
        requires
            changed ==> settings.valid(),
        ensures
            final(self).settings == settings,
            changed ==> final(self).in_sync(),
            !changed ==> final(self).branches == old(self).branches,
            !changed && settings == old(self).settings ==> *final(self) == *old(self),
    {
        self.settings = settings;
        if changed {
            self.branches = generate_tree(&self.settings);
        }
    }
}

} // verus!
