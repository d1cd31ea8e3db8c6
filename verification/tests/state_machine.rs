use xynok_std::{LinearMachine, StepOutcome, TState, TTransit};

#[derive(Default)]
struct Counter
{
    count: u32,
    alarm: bool,
}

#[derive(Debug, Clone, Copy, PartialEq, Eq)]
enum Phase
{
    Counting,
    Done,
    Alarm,
    Halted,
}

impl TState<Counter> for Phase
{
    fn valid_spec(&self, data: Counter) -> bool
    {
        match self
        {
            Phase::Counting => data.count + 1 >= 3,
            Phase::Done => false,
            Phase::Alarm => data.alarm,
            Phase::Halted => false,
        }
    }

    fn checked_data(&self, data: Counter) -> Counter
    {
        match self
        {
            Phase::Counting => Counter { count: data.count + 1, alarm: data.alarm },
            _ => data,
        }
    }

    fn is_valid(&self, data: &mut Counter) -> bool
    {
        match self
        {
            Phase::Counting =>
            {
                data.count += 1;
                data.count >= 3
            }
            Phase::Done => false,
            Phase::Alarm => data.alarm,
            Phase::Halted => false,
        }
    }
}

impl TTransit for Phase
{
    fn transit_spec(&self) -> Self
    {
        match self
        {
            Phase::Counting => Phase::Done,
            Phase::Done => Phase::Done,
            Phase::Alarm => Phase::Halted,
            Phase::Halted => Phase::Halted,
        }
    }

    fn transit(&self) -> Self { self.transit_spec() }
}

#[test]
fn machine_advances_when_current_state_is_valid()
{
    let mut m = LinearMachine::new(Counter::default(), Phase::Counting, vec![Phase::Alarm]);
    assert_eq!(m.update(), StepOutcome::Stayed);
    assert_eq!(m.update(), StepOutcome::Stayed);
    assert_eq!(*m.current_state(), Phase::Counting);
    assert_eq!(m.update(), StepOutcome::Advanced);
    assert_eq!(*m.current_state(), Phase::Done);
    assert_eq!(m.data().count, 3);
}

#[test]
fn machine_takes_valid_precheck_first_then_skips_prechecks_once()
{
    let mut m = LinearMachine::new(Counter { count: 0, alarm: true }, Phase::Counting, vec![Phase::Alarm]);
    assert_eq!(m.update(), StepOutcome::Precheck(0));
    assert_eq!(*m.current_state(), Phase::Halted);
    // the count was not touched: the current state was not tried
    assert_eq!(m.data().count, 0);
    // the next step skips the prechecks and tries the current state
    assert_eq!(m.update(), StepOutcome::Stayed);
    // prechecks are due again
    assert_eq!(m.update(), StepOutcome::Precheck(0));
}

#[test]
fn machine_tries_prechecks_in_order()
{
    let mut m = LinearMachine::new(Counter { count: 0, alarm: true }, Phase::Done, vec![Phase::Halted, Phase::Alarm]);
    assert_eq!(m.update(), StepOutcome::Precheck(1));
    assert_eq!(*m.current_state(), Phase::Halted);
}
