use rustychain::chain::{ChainCursor, NextStep};
use rustychain::error::Error;

#[test]
fn a_chain_runs_its_steps_in_order() {
    let mut c = ChainCursor::new(2);
    assert_eq!(c.next_step(), NextStep::NoInput);
    c.set_input();
    assert_eq!(c.next_step(), NextStep::Run(0));
    assert!(matches!(c.finalize(), Err(Error::ChainNotFinalized)));
    c.step_done(true);
    assert_eq!(c.next_step(), NextStep::Run(1));
    c.step_done(true);
    assert_eq!(c.next_step(), NextStep::Finished);
    assert!(c.finalize().is_ok());
}

#[test]
fn a_failed_step_leaves_no_input() {
    let mut c = ChainCursor::new(1);
    c.set_input();
    c.step_done(false);
    assert_eq!(c.current_index, 0);
    assert_eq!(c.next_step(), NextStep::NoInput);
    c.add_step();
    assert_eq!(c.step_count, 2);
    let empty = ChainCursor { step_count: 0, current_index: 0, has_value: false };
    match empty.finalize() {
        Err(Error::Step { index: 0, step_name: None, source }) => {
            assert!(matches!(*source, Error::Step { index: 0, step_name: None, .. }))
        }
        other => panic!("unexpected {:?}", other),
    }
    match ChainCursor::missing_input(3, "parse") {
        Error::Step { index, step_name, source } => {
            assert_eq!(index, 3);
            assert_eq!(step_name.as_deref(), Some("parse"));
            assert!(matches!(*source, Error::NotInput));
        }
        other => panic!("unexpected {:?}", other),
    }
}
