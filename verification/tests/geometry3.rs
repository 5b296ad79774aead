use minect::geometry3::{Axis3, Coordinate3, Direction3, Orientation3};

#[test]
fn test_inverse() {
    // given:
    let coordinate = Coordinate3(1, 2, 3);

    for orientation in Orientation3::all() {
        // when:
        let inverse = orientation.inverse();
        let actual = inverse.orient_coordinate(orientation.orient_coordinate(coordinate));

        // then:
        assert_eq!(actual, coordinate, "orientation={:?}", orientation);
    }
}

#[test]
fn orient_coordinate_renames_axes_and_flips_signs() {
    let oriented = Orientation3::YzX.orient_coordinate(Coordinate3(1, 2, 3));
    assert_eq!(oriented, Coordinate3(3, 1, -2));
    assert_eq!(Orientation3::XYZ.orient_coordinate(Coordinate3(1, 2, 3)), Coordinate3(1, 2, 3));
    assert_eq!(Orientation3::XZY.orient_coordinate(Coordinate3(16, 255, 8)), Coordinate3(16, 8, 255));
    assert_eq!(Orientation3::zyx.orient_coordinate(Coordinate3(1, 2, 3)), Coordinate3(-3, -2, -1));
}

#[test]
fn inverse_of_inverse_is_identity() {
    for orientation in Orientation3::all() {
        assert_eq!(orientation.inverse().inverse(), orientation);
        assert_eq!(orientation.not(), orientation.inverse());
    }
    assert_eq!(Orientation3::YzX.inverse(), Orientation3::ZXy);
    assert_eq!(Orientation3::XZy.inverse(), Orientation3::XzY);
}

#[test]
fn all_orientations_are_distinct() {
    let all = Orientation3::all();
    assert_eq!(all.len(), 48);
    for i in 0..all.len() {
        for j in 0..i {
            assert_ne!(all[i], all[j]);
        }
    }
}

#[test]
fn directions_of_an_orientation_lie_on_distinct_axes() {
    for orientation in Orientation3::all() {
        let axis1 = orientation.direction1().axis();
        let axis2 = orientation.direction2().axis();
        let axis3 = orientation.direction3().axis();
        assert_ne!(axis1, axis2);
        assert_ne!(axis1, axis3);
        assert_ne!(axis2, axis3);
    }
}

#[test]
fn orient_preserves_absolute_values() {
    let coordinate = Coordinate3(5, -7, 11);
    for orientation in Orientation3::all() {
        let oriented = orientation.orient_coordinate(coordinate);
        let mut absolute = vec![oriented.0.abs(), oriented.1.abs(), oriented.2.abs()];
        absolute.sort();
        assert_eq!(absolute, vec![5, 7, 11]);
    }
}

#[test]
fn orient_direction_agrees_with_orient_coordinate() {
    let directions = [
        Direction3::East,
        Direction3::West,
        Direction3::Up,
        Direction3::Down,
        Direction3::South,
        Direction3::North,
    ];
    for orientation in Orientation3::all() {
        for direction in directions {
            let oriented = orientation.orient_direction(direction);
            assert_eq!(
                oriented.as_coordinate(1, 0),
                orientation.orient_coordinate(direction.as_coordinate(1, 0))
            );
            assert_eq!(
                orientation.inverse().orient_direction(oriented),
                direction
            );
        }
    }
    assert_eq!(Orientation3::XZY.orient_direction(Direction3::Up), Direction3::South);
    assert_eq!(Orientation3::XZY.orient_direction(Direction3::North), Direction3::Down);
}

#[test]
fn direction_properties() {
    assert_eq!(Direction3::East.axis(), Axis3::X);
    assert_eq!(Direction3::Down.axis(), Axis3::Y);
    assert_eq!(Direction3::North.axis(), Axis3::Z);
    assert!(Direction3::Up.is_positive());
    assert!(Direction3::West.is_negative());
    assert_eq!(Direction3::South.signum(), 1);
    assert_eq!(Direction3::North.signum(), -1);
    assert_eq!(Direction3::East.as_str(), "east");
    assert_eq!(Direction3::West.as_str(), "west");
    assert_eq!(Direction3::Up.as_str(), "up");
    assert_eq!(Direction3::Down.as_str(), "down");
    assert_eq!(Direction3::South.as_str(), "south");
    assert_eq!(Direction3::North.as_str(), "north");
    assert_eq!(Direction3::East.neg(), Direction3::West);
    assert_eq!(Direction3::Down.neg(), Direction3::Up);
    assert_eq!(Direction3::West.as_coordinate(3, 0), Coordinate3(-3, 0, 0));
    assert_eq!(Direction3::Up.as_coordinate(1, 9), Coordinate3(9, 1, 9));
}

#[test]
fn direction_from_coordinate_needs_exactly_one_component() {
    assert_eq!(Direction3::try_from(Coordinate3(1, 0, 0)), Ok(Direction3::East));
    assert_eq!(Direction3::try_from(Coordinate3(-4, 0, 0)), Ok(Direction3::West));
    assert_eq!(Direction3::try_from(Coordinate3(0, 2, 0)), Ok(Direction3::Up));
    assert_eq!(Direction3::try_from(Coordinate3(0, -1, 0)), Ok(Direction3::Down));
    assert_eq!(Direction3::try_from(Coordinate3(0, 0, 7)), Ok(Direction3::South));
    assert_eq!(Direction3::try_from(Coordinate3(0, 0, -7)), Ok(Direction3::North));
    assert_eq!(Direction3::try_from(Coordinate3(0, 0, 0)), Err(()));
    assert_eq!(Direction3::try_from(Coordinate3(1, 1, 0)), Err(()));
    assert_eq!(Direction3::try_from(Coordinate3(1, 0, -1)), Err(()));
    assert_eq!(Direction3::try_from(Coordinate3(1, 2, 3)), Err(()));
}

#[test]
fn coordinate_arithmetic() {
    let a = Coordinate3(1, -5, 9);
    let b = Coordinate3(4, 2, -3);
    assert_eq!(Coordinate3::<i32>::min(a, b), Coordinate3(1, -5, -3));
    assert_eq!(Coordinate3::<i32>::max(a, b), Coordinate3(4, 2, 9));
    assert_eq!(a.add(b), Coordinate3(5, -3, 6));
    assert_eq!(a.sub(b), Coordinate3(-3, -7, 12));
    assert_eq!(a.neg(), Coordinate3(-1, 5, -9));
    assert_eq!(Coordinate3(7, -7, 8).rem(Coordinate3(2, 2, 3)), Coordinate3(1, -1, 2));
    assert_eq!(a.index(Axis3::X), 1);
    assert_eq!(a.index(Axis3::Y), -5);
    assert_eq!(a.index(Axis3::Z), 9);
    assert_eq!(a.get_in_direction(Direction3::Down), 5);
    assert_eq!(a.get_in_direction(Direction3::South), 9);
    assert_eq!(a.into_vec(), vec![1, -5, 9]);
    let mut c = a;
    c.add_assign(b);
    assert_eq!(c, Coordinate3(5, -3, 6));
    c.set(Axis3::Y, 42);
    assert_eq!(c, Coordinate3(5, 42, 6));
    assert_eq!(a.map(|component| component * 2), Coordinate3(2, -10, 18));
    assert_eq!(a.zip(b, |x, y| x * y), Coordinate3(4, -10, -27));
}
