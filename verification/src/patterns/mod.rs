mod state_machine;
pub use state_machine::{machine_step, precheck_scan, LinearMachine, StepOutcome, TState, TTransit};
