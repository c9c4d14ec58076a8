//! The board's state machine and its pure surface: the model (`App` folds every message into
//! the next state and exposes effect requests as flags), the key table, and the text the view
//! draws.
pub mod keys;
pub mod model;
pub mod view;
