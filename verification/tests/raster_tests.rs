use flight_sim::{draw_line, FlightSimInput, InputState};

#[test]
fn diagonal_line_sets_the_diagonal() {
    let mut buffer: Vec<u32> = vec![0; 16];
    draw_line(&mut buffer, 4, 4, 0, 0, 3, 3, 0xFF0000);
    for y in 0..4usize {
        for x in 0..4usize {
            let expected = if x == y { 0xFF0000 } else { 0 };
            assert_eq!(buffer[y * 4 + x], expected, "pixel ({x},{y})");
        }
    }
}

#[test]
fn horizontal_line_sets_one_row() {
    let mut buffer: Vec<u32> = vec![7; 16];
    draw_line(&mut buffer, 4, 4, 0, 2, 3, 2, 9);
    for x in 0..4usize {
        assert_eq!(buffer[2 * 4 + x], 9);
        assert_eq!(buffer[0 * 4 + x], 7);
    }
    assert_eq!(buffer.len(), 16);
}

#[test]
fn line_outside_the_buffer_changes_nothing() {
    let mut buffer: Vec<u32> = vec![3; 16];
    draw_line(&mut buffer, 4, 4, -5, -5, -1, -1, 9);
    assert!(buffer.iter().all(|p| *p == 3));
}

#[test]
fn single_point_line() {
    let mut buffer: Vec<u32> = vec![0; 16];
    draw_line(&mut buffer, 4, 4, 1, 1, 1, 1, 5);
    assert_eq!(buffer[1 * 4 + 1], 5);
    assert_eq!(buffer.iter().filter(|p| **p == 5).count(), 1);
}

#[test]
fn default_inputs_are_released() {
    let a = FlightSimInput::default();
    assert!(!a.pitch_up && !a.pitch_down && !a.throttle_up && !a.throttle_down);
    let b = InputState::default();
    assert!(!b.pitch_up && !b.pitch_down && !b.throttle_up && !b.throttle_down);
}
