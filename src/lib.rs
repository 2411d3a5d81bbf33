//! Discovery of display outputs through the wlroots output-management
//! protocol, and planning of a left-to-right arrangement of them.
//!
//! The protocol side is modelled as a state machine (`query`): each event
//! of the compositor is handed to `OutputQueryState::event`, which updates
//! the head and mode registries and says what the caller has to do next.
//! Once the compositor signals that a batch is complete, the registries are
//! resolved into immutable `Output` snapshots.

pub mod screens;
pub mod setup;
pub mod query;
pub mod laws;

pub use screens::{Mode, Output, OutputView, Position, Resolution, SCALE_ONE};
pub use setup::{parse_setup, plan_setup, SetupAction, SetupError};
pub use query::{
    Action, Anomaly, Event, HeadAttribute, ModeAttribute, OutputQueryState, QueryError,
    MANAGER_INTERFACE, MANAGER_VERSION,
};
