//! The settings window: its sections, and what an intent from elsewhere in
//! the application selects.

pub mod mapping;

use vstd::prelude::*;
use crate::keyed::has_key;
use crate::lens::store::LensStore;
use crate::views::settings::mapping::{LensMappingView, selected_name, shows_first_rule};

verus! {

/// Which settings section is selected in the sidebar.
#[derive(Copy, Clone, PartialEq, Eq, Debug, Structural)]
pub enum Section {
    Appearance,
    LensMapping,
}

/// What another part of the application asks of the settings.
#[derive(Clone, Debug)]
pub enum SettingsIntent {
    /// Show the lens rules, with this rule selected.
    SelectLensRule(String),
}

/// The settings: the section shown, and the lens rules section.
pub struct SettingsView {
    pub selected: Section,
    pub lens_mapping: LensMappingView,
}

impl SettingsView {
    /// The settings open on the appearance section, with the first rule
    /// selected in the lens rules section.
    pub fn new(store: &LensStore) -> (r: SettingsView)
        ensures
            r.selected == Section::Appearance,
            shows_first_rule(r.lens_mapping, store.entries()),
    {
        SettingsView { selected: Section::Appearance, lens_mapping: LensMappingView::new(store) }
    }

    /// Carry out an intent: show the lens rules section, with the named rule
    /// selected if the store has it.
    pub fn apply_intent(&mut self, intent: SettingsIntent, store: &LensStore)
        ensures
            final(self).selected == Section::LensMapping,
            match intent {
                SettingsIntent::SelectLensRule(name) => if has_key(store.entries(), name@) {
                    selected_name(final(self).lens_mapping.selected) == Some(name@)
                } else {
                    final(self).lens_mapping.selected == old(self).lens_mapping.selected
                        && final(self).lens_mapping.editor == old(self).lens_mapping.editor
                },
            },
    {
        match intent {
            SettingsIntent::SelectLensRule(name) => {
                self.selected = Section::LensMapping;
                self.lens_mapping.select_by_name(name.as_str(), store);
            },
        }
    }

    /// Show a section. Returns whether that changed what is shown.
    pub fn select(&mut self, section: Section) -> (r: bool)
        ensures
            final(self).selected == section,
            r == (old(self).selected != section),
            final(self).lens_mapping.selected == old(self).lens_mapping.selected,
            final(self).lens_mapping.editor == old(self).lens_mapping.editor,
    {
        if self.selected != section {
            self.selected = section;
            true
        } else {
            false
        }
    }
}

} // verus!
