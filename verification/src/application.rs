//! The application: a window title and the dice feature behind it.

use vstd::prelude::*;

use crate::feature::{Action, DiceWrapper, FeatureView, Intent};
use crate::sound::SoundPlayer;

verus! {

/// The application behind the window.
pub struct Application {
    name: &'static str,
    dice_feature: DiceWrapper,
}

impl View for Application {
    type V = FeatureView;

    closed spec fn view(&self) -> FeatureView {
        self.dice_feature@
    }
}

impl Application {
    /// The title the application was given.
    pub closed spec fn title(&self) -> Seq<char> {
        self.name@
    }

    /// The application at start-up, under the given title and with the
    /// sound player as given.
    pub fn new(title: &'static str, player: SoundPlayer) -> (app: Application)
        ensures
            app.title() == title@,
            app@.wf(),
            app@.dice.is_blank(),
            app@.records.history.len() == 0,
            app@.records.windows.len() == 0,
            app@.quick_open,
            app@.sound == player@,
    {
        Application { name: title, dice_feature: DiceWrapper::new(player) }
    }

    /// The window title.
    pub fn name(&self) -> (name: &str)
        ensures
            name@ == self.title(),
    {
        self.name
    }

    /// The dice feature, to draw it.
    pub fn wrapper(&self) -> (wrapper: &DiceWrapper)
        ensures
            wrapper@ == self@,
    {
        &self.dice_feature
    }

    /// Applies one intent to the dice feature and hands on what it leaves
    /// to do.
    pub fn update(&mut self, intent: Intent) -> (action: Action)
        requires
            old(self)@.wf(),
        ensures
            final(self)@.wf(),
            final(self).title() == old(self).title(),
            old(self)@.steps_to(intent, final(self)@, action),
    {
        self.dice_feature.update(intent)
    }
}

} // verus!
