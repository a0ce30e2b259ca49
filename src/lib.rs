// The core of a live terminal chart of a metric stream: a bounded sliding
// window of numbered samples, the render loop's decisions as a state machine
// from events to actions, and the host-side record of shutdown.

mod lifecycle;
mod render;
mod window;

pub use lifecycle::{close_outcome, lemma_close_idempotent, Lifecycle};
pub use render::{
    lemma_drain_before_shutdown, lemma_restore_exactly_once, lemma_run_len, lemma_send_order,
    lemma_shutdown_is_final, restore_count, run, transition, value_events, Action, Event, Message,
    Phase, RenderLoop,
};
pub use window::{
    lemma_step_bounds_are_extremes, lemma_steps_increasing, lemma_window_capacity, numbered, recent,
    window_of, Window, CAPACITY,
};
