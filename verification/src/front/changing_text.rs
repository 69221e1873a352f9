//! A text that cycles through a list at a fixed pace.
use vstd::prelude::*;

verus! {

/// The position of the text shown.
#[derive(Debug)]
pub struct ChangingText {
    current_index: usize,
}

impl View for ChangingText {
    type V = nat;

    closed spec fn view(&self) -> nat {
        self.current_index as nat
    }
}

impl ChangingText {
    /// The position always leaves room for one more step.
    #[verifier::type_invariant]
    spec fn inv(self) -> bool {
        self.current_index < usize::MAX
    }

    /// Starts at the first text.
    pub fn create() -> (r: ChangingText)
        ensures
            r@ == 0,
    {
        ChangingText { current_index: 0 }
    }

    /// Moves on to the next of `text_count` texts, back to the first after
    /// the last; the text is drawn again.
    pub fn update(&mut self, text_count: usize) -> (r: bool)
        requires
            text_count > 0,
        ensures
            r,
            final(self)@ == (old(self)@ + 1) % (text_count as nat),
    {
        proof {
            use_type_invariant(&*self);
        }
        let next = (self.current_index + 1) % text_count;
        self.current_index = next;
        true
    }

    /// The text shown, where `texts` has one at the position.
    pub fn text(&self, texts: &Vec<&'static str>) -> (r: Option<&'static str>)
        ensures
            r == if self@ < texts@.len() {
                Some(texts@[self@ as int])
            } else {
                None::<&'static str>
            },
    {
        if self.current_index < texts.len() {
            Some(texts[self.current_index])
        } else {
            None
        }
    }
}

} // verus!
