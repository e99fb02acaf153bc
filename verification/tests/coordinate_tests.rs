use battleplanes::CoordLetter;
use battleplanes::CoordNum;
use battleplanes::Coordinate;

#[test]
fn coordinate_read_coordinate() {
    assert_eq!(Coordinate(CoordLetter::A, CoordNum::Five), Coordinate::new("A5").unwrap());
    assert_eq!(Coordinate(CoordLetter::B, CoordNum::Seven), Coordinate::new("B7").unwrap());
}

#[test]
fn coordinate_move_coordinate_within_reach_of_plane() {
    assert_eq!(
        Coordinate(CoordLetter::F, CoordNum::Six),
        Coordinate::new("E5").unwrap().new_moved_by(1, 1).unwrap()
    );
    assert_eq!(
        Coordinate(CoordLetter::D, CoordNum::Four),
        Coordinate::new("E5").unwrap().new_moved_by(-1, -1).unwrap()
    );
}
