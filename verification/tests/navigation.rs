use viz::{command_for, App, BenchmarkResult, Command, HeapStep, Key, MemoryBlock};

fn step(index: usize) -> HeapStep {
    HeapStep {
        algo: String::from("first-fit"),
        step: index,
        op: format!("alloc {}", index),
        highlight: 16 * index,
        blocks: vec![MemoryBlock { addr: 16 * index, size: 16, is_free: false }],
    }
}

fn recording(len: usize) -> App {
    App::new((0..len).map(step).collect(), Vec::new())
}

#[test]
fn new_starts_at_the_first_step() {
    let results = vec![BenchmarkResult { name: String::from("best-fit"), time_ms: 12, total_blocks: 7 }];
    let app = App::new(vec![step(0), step(1)], results.clone());
    assert_eq!(app.current_step_index, 0);
    assert_eq!(app.steps, vec![step(0), step(1)]);
    assert_eq!(app.benchmark_results, results);
    assert_eq!(app.current_step(), &step(0));
}

#[test]
fn stepping_moves_by_one() {
    let mut app = recording(4);
    app.next_step();
    assert_eq!(app.current_step_index, 1);
    assert_eq!(app.current_step().step, 1);
    app.next_step();
    assert_eq!(app.current_step_index, 2);
    app.prev_step();
    assert_eq!(app.current_step_index, 1);
    assert_eq!(app.current_step(), &step(1));
    assert_eq!(app.steps.len(), 4);
}

#[test]
fn stepping_stops_at_both_ends() {
    for len in 1..9 {
        let mut app = recording(len);
        for _ in 0..len + 5 {
            app.next_step();
        }
        assert_eq!(app.current_step_index, len - 1);
        for _ in 0..len + 5 {
            app.prev_step();
        }
        assert_eq!(app.current_step_index, 0);
    }
}

#[test]
fn stepping_an_empty_recording_changes_nothing() {
    let mut app = recording(0);
    app.next_step();
    assert_eq!(app.current_step_index, 0);
    app.prev_step();
    assert_eq!(app.current_step_index, 0);
    assert!(app.steps.is_empty());
}

#[test]
fn keys_are_bound_to_commands() {
    assert_eq!(command_for(Key::Char('q')), Command::Quit);
    assert_eq!(command_for(Key::Esc), Command::Quit);
    assert_eq!(command_for(Key::Char('n')), Command::NextStep);
    assert_eq!(command_for(Key::Right), Command::NextStep);
    assert_eq!(command_for(Key::Char('p')), Command::PrevStep);
    assert_eq!(command_for(Key::Left), Command::PrevStep);
    assert_eq!(command_for(Key::Char('Q')), Command::Nothing);
    assert_eq!(command_for(Key::Char('x')), Command::Nothing);
    assert_eq!(command_for(Key::Other), Command::Nothing);
}

#[test]
fn commands_move_the_current_step() {
    let mut app = recording(3);
    assert!(app.apply(Command::NextStep));
    assert_eq!(app.current_step_index, 1);
    assert!(app.apply(Command::Nothing));
    assert_eq!(app.current_step_index, 1);
    assert!(app.apply(Command::NextStep));
    assert!(app.apply(Command::NextStep));
    assert_eq!(app.current_step_index, 2);
    assert!(app.apply(Command::PrevStep));
    assert_eq!(app.current_step_index, 1);
    assert!(!app.apply(Command::Quit));
    assert_eq!(app.current_step_index, 1);
}
