//! Network state

use super::tendermint;
use vstd::prelude::*;

verus! {

/// View of a network state snapshot.
pub enum StateView {
    /// Tendermint network state
    Tendermint(tendermint::StateView),
}

/// Network state snapshot.
#[derive(Debug)]
pub enum State {
    /// Tendermint network state
    Tendermint(tendermint::State),
}

impl View for State {
    type V = StateView;

    open spec fn view(&self) -> StateView {
        match self {
            State::Tendermint(s) => StateView::Tendermint(s@),
        }
    }
}

} // verus!
