use minect::geometry3::{Coordinate3, Direction3};
use minect::structure::placement::{
    ceil_cube_root, max_cond_len, place_commands, Command, QuaterSpiralCurve,
};

#[test]
fn test_quarter_spiral_curve() {
    // given:
    let mut under_test = QuaterSpiralCurve::new();

    // when / then:
    assert_eq!(under_test.next(), Some((0, 0)));
    assert_eq!(under_test.next(), Some((1, 0)));
    assert_eq!(under_test.next(), Some((1, 1)));
    assert_eq!(under_test.next(), Some((0, 1)));
    assert_eq!(under_test.next(), Some((0, 2)));
    assert_eq!(under_test.next(), Some((1, 2)));
    assert_eq!(under_test.next(), Some((2, 2)));
    assert_eq!(under_test.next(), Some((2, 1)));
    assert_eq!(under_test.next(), Some((2, 0)));
    assert_eq!(under_test.next(), Some((3, 0)));
    assert_eq!(under_test.next(), Some((3, 1)));
    assert_eq!(under_test.next(), Some((3, 2)));
    assert_eq!(under_test.next(), Some((3, 3)));
    assert_eq!(under_test.next(), Some((2, 3)));
    assert_eq!(under_test.next(), Some((1, 3)));
    assert_eq!(under_test.next(), Some((0, 3)));
}

struct TestCommand {
    id: usize,
    conditional: bool,
}

impl Command for TestCommand {
    fn conditional(&self) -> bool {
        self.conditional
    }

    fn is_conditional(&self) -> bool {
        self.conditional
    }
}

fn chain(flags: &[bool]) -> Vec<TestCommand> {
    flags
        .iter()
        .enumerate()
        .map(|(id, conditional)| TestCommand {
            id,
            conditional: *conditional,
        })
        .collect()
}

#[test]
fn max_cond_len_is_the_longest_run() {
    assert_eq!(max_cond_len(&chain(&[])), 0);
    assert_eq!(max_cond_len(&chain(&[false, false])), 0);
    assert_eq!(max_cond_len(&chain(&[true])), 1);
    assert_eq!(max_cond_len(&chain(&[true, false, true, true, false, true])), 2);
    assert_eq!(max_cond_len(&chain(&[false, true, true, true, false, true, true])), 3);
}

#[test]
fn ceil_cube_root_rounds_up() {
    assert_eq!(ceil_cube_root(0), 0);
    assert_eq!(ceil_cube_root(1), 1);
    assert_eq!(ceil_cube_root(2), 2);
    assert_eq!(ceil_cube_root(8), 2);
    assert_eq!(ceil_cube_root(9), 3);
    assert_eq!(ceil_cube_root(27), 3);
    assert_eq!(ceil_cube_root(28), 4);
    assert_eq!(ceil_cube_root(1000), 10);
    assert_eq!(ceil_cube_root(2147483647), 1291);
}

#[test]
fn place_commands_without_conditionals_follows_the_curve() {
    let blocks = place_commands(chain(&[false; 8]));
    let ids: Vec<Option<usize>> = blocks
        .iter()
        .map(|block| block.command.as_ref().map(|command| command.id))
        .collect();
    assert_eq!(ids, (0..8).map(Some).collect::<Vec<_>>());
    let coordinates: Vec<Coordinate3<i32>> = blocks.iter().map(|block| block.coordinate).collect();
    assert_eq!(
        coordinates,
        vec![
            Coordinate3(0, 0, 0),
            Coordinate3(0, 1, 0),
            Coordinate3(1, 1, 0),
            Coordinate3(1, 0, 0),
            Coordinate3(1, 0, 1),
            Coordinate3(1, 1, 1),
            Coordinate3(0, 1, 1),
            Coordinate3(0, 0, 1),
        ]
    );
    let directions: Vec<Direction3> = blocks.iter().map(|block| block.direction).collect();
    assert_eq!(
        directions,
        vec![
            Direction3::Up,
            Direction3::East,
            Direction3::Down,
            Direction3::South,
            Direction3::Up,
            Direction3::West,
            Direction3::Down,
            Direction3::South,
        ]
    );
}

#[test]
fn place_commands_keeps_conditional_runs_on_a_straight_segment() {
    // Columns of 5 cells: the run of 3 with the command before it does not fit behind the
    // first 3 commands, so the rest of the first column is filled with cells without command.
    let flags = [false, false, false, true, true, true, false];
    let blocks = place_commands(chain(&flags));
    let ids: Vec<Option<usize>> = blocks
        .iter()
        .map(|block| block.command.as_ref().map(|command| command.id))
        .collect();
    assert_eq!(
        ids,
        vec![
            Some(0),
            Some(1),
            None,
            None,
            None,
            Some(2),
            Some(3),
            Some(4),
            Some(5),
            Some(6),
        ]
    );
    for block in &blocks[5..9] {
        assert_eq!(block.direction, blocks[5].direction);
    }
    assert_eq!(blocks[5].direction, Direction3::Down);
    assert_eq!(blocks[4].direction, Direction3::East);
    assert_eq!(blocks[5].coordinate, Coordinate3(1, 4, 0));
    assert_eq!(blocks[8].coordinate, Coordinate3(1, 1, 0));
}

#[test]
fn place_commands_steps_to_neighbours_for_any_flags() {
    let patterns: [&[bool]; 5] = [
        &[true, true, true, true],
        &[false, true, false, true, true, false, true, true, true],
        &[true, false, false, true, false, true, true, false, false, true, true, true, true],
        &[false; 30],
        &[false, true, true, false, true, true, false, true, true, false, true, true, false, true, true],
    ];
    for flags in patterns {
        let blocks = place_commands(chain(flags));
        let placed: Vec<usize> = blocks
            .iter()
            .filter_map(|block| block.command.as_ref().map(|command| command.id))
            .collect();
        assert_eq!(placed, (0..flags.len()).collect::<Vec<_>>());
        for pair in blocks.windows(2) {
            let step = pair[1].coordinate.sub(pair[0].coordinate);
            assert_eq!(Direction3::try_from(step), Ok(pair[0].direction));
        }
        let cell_of = |id: usize| {
            blocks
                .iter()
                .position(|block| block.command.as_ref().map(|command| command.id) == Some(id))
                .unwrap()
        };
        for id in 1..flags.len() {
            if flags[id] {
                assert_eq!(cell_of(id), cell_of(id - 1) + 1);
                assert_eq!(blocks[cell_of(id)].direction, blocks[cell_of(id - 1)].direction);
            }
        }
    }
}

#[test]
fn place_commands_of_nothing_is_nothing() {
    assert!(place_commands(chain(&[])).is_empty());
}
