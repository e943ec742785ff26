use stresster::{
    command_for_outcome, counting_machine, Aggregator, Command, Outcome, Stresster, Tally,
    CHANNEL_CAPACITY, TRANSPORT_ERROR_CODE,
};

#[test]
fn tally_starts_empty() {
    let t = Tally::new();
    assert_eq!(t.len(), 0);
    assert_eq!(t.get(200), 0);
}

#[test]
fn tally_increment_counts_per_code() {
    let mut t = Tally::new();
    t.increment(200);
    t.increment(200);
    t.increment(404);
    assert_eq!(t.get(200), 2);
    assert_eq!(t.get(404), 1);
    assert_eq!(t.get(500), 0);
    assert_eq!(t.len(), 2);
}

#[test]
fn tally_keeps_insertion_order() {
    let mut t = Tally::new();
    t.increment(204);
    t.increment(0);
    t.increment(204);
    assert_eq!(t.entry_at(0), (204, 2));
    assert_eq!(t.entry_at(1), (0, 1));
}

#[test]
fn classification_reports_the_status_code() {
    assert_eq!(
        command_for_outcome(Outcome::StatusCode(204)),
        Command::Increment(204)
    );
    assert_eq!(
        command_for_outcome(Outcome::StatusCode(500)),
        Command::Increment(500)
    );
}

#[test]
fn classification_reports_zero_for_transport_failure() {
    assert_eq!(
        command_for_outcome(Outcome::TransportError),
        Command::Increment(TRANSPORT_ERROR_CODE)
    );
    assert_eq!(command_for_outcome(Outcome::TransportError), Command::Increment(0));
}

#[test]
fn five_successes_tally_five_of_that_code() {
    let mut commands: Vec<Command> = Vec::new();
    for _ in 0..5 {
        commands.push(command_for_outcome(Outcome::StatusCode(200)));
    }
    commands.push(Command::Exit);
    let t = counting_machine(&commands);
    assert_eq!(t.len(), 1);
    assert_eq!(t.get(200), 5);
}

#[test]
fn three_transport_failures_tally_three_zeros() {
    let mut commands: Vec<Command> = Vec::new();
    for _ in 0..3 {
        commands.push(command_for_outcome(Outcome::TransportError));
    }
    commands.push(Command::Exit);
    let t = counting_machine(&commands);
    assert_eq!(t.len(), 1);
    assert_eq!(t.get(0), 3);
}

#[test]
fn mixed_outcomes_tally_both_codes() {
    let commands = vec![
        command_for_outcome(Outcome::StatusCode(204)),
        command_for_outcome(Outcome::TransportError),
        command_for_outcome(Outcome::StatusCode(204)),
        command_for_outcome(Outcome::TransportError),
        Command::Exit,
    ];
    let t = counting_machine(&commands);
    assert_eq!(t.len(), 2);
    assert_eq!(t.get(204), 2);
    assert_eq!(t.get(0), 2);
}

#[test]
fn arrival_order_does_not_change_the_tally() {
    let one = vec![
        Command::Increment(204),
        Command::Increment(0),
        Command::Increment(204),
        Command::Exit,
    ];
    let other = vec![
        Command::Increment(0),
        Command::Increment(204),
        Command::Increment(204),
        Command::Exit,
    ];
    let t1 = counting_machine(&one);
    let t2 = counting_machine(&other);
    assert_eq!(t1.get(204), t2.get(204));
    assert_eq!(t1.get(0), t2.get(0));
    assert_eq!(t1.len(), t2.len());
}

#[test]
fn commands_after_exit_are_abandoned() {
    let commands = vec![
        Command::Increment(200),
        Command::Exit,
        Command::Increment(500),
        Command::Increment(500),
    ];
    let t = counting_machine(&commands);
    assert_eq!(t.len(), 1);
    assert_eq!(t.get(200), 1);
    assert_eq!(t.get(500), 0);
}

#[test]
fn counting_machine_without_exit_counts_everything() {
    let commands = vec![Command::Increment(404)];
    let t = counting_machine(&commands);
    assert_eq!(t.get(404), 1);
}

#[test]
fn aggregator_stops_at_exit_with_a_non_empty_tally() {
    let mut agg = Aggregator::new();
    assert!(!agg.is_done());
    agg.on_command(Command::Increment(200));
    assert!(!agg.is_done());
    agg.on_command(Command::Exit);
    assert!(agg.is_done());
    assert_eq!(agg.tally.len(), 1);
    assert_eq!(agg.tally.get(200), 1);
}

#[test]
fn spawn_loop_stops_after_exactly_the_requested_count() {
    let total: i32 = 3;
    let mut index: i32 = 1;
    let mut spawned: i32 = 0;
    loop {
        spawned += 1;
        match Stresster::next_index_after_spawn(index, total) {
            None => break,
            Some(next) => index = next,
        }
    }
    assert_eq!(spawned, 3);
}

#[test]
fn spawn_loop_with_zero_requests_never_stops_by_itself() {
    let mut index: i32 = 1;
    for _ in 0..1000 {
        match Stresster::next_index_after_spawn(index, 0) {
            None => panic!("unbounded mode must not stop by itself"),
            Some(next) => index = next,
        }
    }
    assert_eq!(index, 1);
}

#[test]
fn channel_capacity_is_bounded_and_non_zero() {
    assert!(CHANNEL_CAPACITY > 0);
    assert_eq!(CHANNEL_CAPACITY, 50);
}
