use conways_game_of_life::cell::{apply_cell_rules, get_random_seeder, is_dead_for_draw, Cell};

#[test]
fn cell_states_are_exclusive() {
    assert!(Cell::Alive.is_alive());
    assert!(!Cell::Alive.is_dead());
    assert!(Cell::Dead.is_dead());
    assert!(!Cell::Dead.is_alive());
}

#[test]
fn create_follows_flag() {
    assert_eq!(Cell::create(true), Cell::Dead);
    assert_eq!(Cell::create(false), Cell::Alive);
}

#[test]
fn swap_state_flips() {
    let mut c = Cell::Alive;
    c.swap_state();
    assert_eq!(c, Cell::Dead);
    c.swap_state();
    assert_eq!(c, Cell::Alive);
}

#[test]
fn rule_birth_on_three() {
    assert!(!apply_cell_rules(3, true));
    assert!(apply_cell_rules(2, true));
    assert!(apply_cell_rules(4, true));
    assert!(apply_cell_rules(0, true));
}

#[test]
fn rule_survival_on_two_or_three() {
    assert!(!apply_cell_rules(2, false));
    assert!(!apply_cell_rules(3, false));
    assert!(apply_cell_rules(0, false));
    assert!(apply_cell_rules(1, false));
    assert!(apply_cell_rules(4, false));
    assert!(apply_cell_rules(8, false));
}

#[test]
fn draw_decision_with_fixed_draws() {
    for draw in 0..100u32 {
        assert!(is_dead_for_draw(draw, 0));
        assert!(!is_dead_for_draw(draw, 100));
    }
    assert!(!is_dead_for_draw(29, 30));
    assert!(is_dead_for_draw(30, 30));
}

#[test]
fn random_seeder_extremes() {
    let never = get_random_seeder(0);
    let always = get_random_seeder(100);
    for row in 0..20u32 {
        for col in 0..20u32 {
            assert!(never(row, col));
            assert!(!always(row, col));
        }
    }
}
