use game_of_life::Cell;

#[test]
fn live_cell_counts_one_and_dead_cell_zero() {
    assert_eq!(Cell::Alive.count(), 1);
    assert_eq!(Cell::Dead.count(), 0);
}

#[test]
fn live_cell_with_fewer_than_two_neighbors_dies() {
    assert_eq!(Cell::Alive.next(0), Cell::Dead);
    assert_eq!(Cell::Alive.next(1), Cell::Dead);
}

#[test]
fn live_cell_with_two_or_three_neighbors_lives_on() {
    assert_eq!(Cell::Alive.next(2), Cell::Alive);
    assert_eq!(Cell::Alive.next(3), Cell::Alive);
}

#[test]
fn live_cell_with_more_than_three_neighbors_dies() {
    for n in 4..=8u8 {
        assert_eq!(Cell::Alive.next(n), Cell::Dead, "{} live neighbours", n);
    }
}

#[test]
fn dead_cell_with_three_neighbors_comes_alive() {
    assert_eq!(Cell::Dead.next(3), Cell::Alive);
}

#[test]
fn dead_cell_with_two_or_four_neighbors_stays_dead() {
    assert_eq!(Cell::Dead.next(2), Cell::Dead);
    assert_eq!(Cell::Dead.next(4), Cell::Dead);
}

#[test]
fn dead_cell_without_three_neighbors_stays_dead() {
    for n in 0..=8u8 {
        if n != 3 {
            assert_eq!(Cell::Dead.next(n), Cell::Dead, "{} live neighbours", n);
        }
    }
}

#[test]
fn counts_beyond_eight_follow_the_same_rule() {
    assert_eq!(Cell::Alive.next(9), Cell::Dead);
    assert_eq!(Cell::Dead.next(255), Cell::Dead);
}
