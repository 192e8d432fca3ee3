use std::cell::RefCell;

use flow_field::error::ConfigurationError;
use flow_field::grid::SamplePoint;
use flow_field::model::{Direction, FlowModel};
use flow_field::noise::NoiseModel;

fn noise() -> NoiseModel {
    NoiseModel::with_seed(7, 1.0f32.to_bits(), 2.0f32.to_bits(), 0.5f32.to_bits(), 3).unwrap()
}

fn model(vector_size: u32, canvas_width: u32, canvas_height: u32) -> FlowModel {
    FlowModel::new(noise(), vector_size, canvas_width, canvas_height).unwrap()
}

fn echo(p: SamplePoint) -> Direction {
    Direction { x: p.x * 1000 + p.width, y: p.y * 1000 + p.height }
}

#[test]
fn zero_vector_size_is_refused() {
    let made = FlowModel::new(noise(), 0, 100, 100);
    assert!(matches!(made, Err(ConfigurationError::ZeroVectorSize)));
    let on_empty_canvas = FlowModel::new(noise(), 0, 0, 0);
    assert!(matches!(on_empty_canvas, Err(ConfigurationError::ZeroVectorSize)));
}

#[test]
fn model_keeps_what_it_was_made_from() {
    let m = model(10, 640, 480);
    assert_eq!(m.vector_size(), 10);
    assert_eq!(m.canvas_width(), 640);
    assert_eq!(m.canvas_height(), 480);
    assert_eq!(m.field_width(), 64);
    assert_eq!(m.field_height(), 48);
    assert_eq!(m.noise_model().seed(), 7);
    assert_eq!(m.noise_model().octaves(), 3);
}

#[test]
fn hundred_by_hundred_canvas_with_cells_of_ten() {
    let m = model(10, 100, 100);
    assert_eq!(m.field_width(), 10);
    assert_eq!(m.field_height(), 10);
    let field = m.compute_field(echo);
    assert_eq!(field.len(), 100);
    assert_eq!(field.width(), 10);
    assert_eq!(field.height(), 10);
}

#[test]
fn grid_dimensions_round_down() {
    let m = model(10, 105, 99);
    assert_eq!(m.field_width(), 10);
    assert_eq!(m.field_height(), 9);
    let n = model(7, 7, 13);
    assert_eq!(n.field_width(), 1);
    assert_eq!(n.field_height(), 1);
    let largest = model(1, u32::MAX, u32::MAX);
    assert_eq!(largest.field_width(), u32::MAX);
    assert_eq!(largest.field_height(), u32::MAX);
}

#[test]
fn cells_larger_than_the_canvas_leave_an_empty_field() {
    let m = model(200, 100, 100);
    assert_eq!(m.field_width(), 0);
    assert_eq!(m.field_height(), 0);
    let calls = RefCell::new(0u32);
    let field = m.compute_field(|p: SamplePoint| {
        *calls.borrow_mut() += 1;
        echo(p)
    });
    assert_eq!(field.len(), 0);
    assert_eq!(field.get(0, 0), None);
    assert_eq!(*calls.borrow(), 0);
}

#[test]
fn cells_larger_than_one_side_leave_an_empty_field() {
    let wide = model(50, 200, 30);
    assert_eq!(wide.field_width(), 4);
    assert_eq!(wide.field_height(), 0);
    assert_eq!(wide.compute_field(echo).len(), 0);
    let tall = model(50, 30, 200);
    assert_eq!(tall.field_width(), 0);
    assert_eq!(tall.field_height(), 4);
    assert_eq!(tall.compute_field(echo).len(), 0);
}

#[test]
fn vector_size_equal_to_the_canvas_gives_one_cell() {
    let m = model(100, 100, 100);
    let field = m.compute_field(echo);
    assert_eq!(field.len(), 1);
    assert_eq!(field.get(0, 0), Some(Direction { x: 1, y: 1 }));
    assert_eq!(field.get(1, 0), None);
    assert_eq!(field.get(0, 1), None);
}

#[test]
fn field_has_one_entry_for_each_cell_and_no_other() {
    let m = model(10, 70, 45);
    let field = m.compute_field(echo);
    assert_eq!(field.width(), 7);
    assert_eq!(field.height(), 4);
    assert_eq!(field.len(), 28);
    for x in 0..9u32 {
        for y in 0..6u32 {
            let found = field.get(x, y);
            if x < 7 && y < 4 {
                assert_eq!(found, Some(Direction { x: x * 1000 + 7, y: y * 1000 + 4 }));
            } else {
                assert_eq!(found, None);
            }
        }
    }
    assert_eq!(field.get(u32::MAX, u32::MAX), None);
}

#[test]
fn sample_is_asked_once_for_each_cell_column_by_column() {
    let m = model(10, 30, 25);
    let asked: RefCell<Vec<SamplePoint>> = RefCell::new(Vec::new());
    let field = m.compute_field(|p: SamplePoint| {
        asked.borrow_mut().push(p);
        echo(p)
    });
    assert_eq!(field.len(), 6);
    let expected = vec![
        SamplePoint { x: 0, y: 0, width: 3, height: 2 },
        SamplePoint { x: 0, y: 1, width: 3, height: 2 },
        SamplePoint { x: 1, y: 0, width: 3, height: 2 },
        SamplePoint { x: 1, y: 1, width: 3, height: 2 },
        SamplePoint { x: 2, y: 0, width: 3, height: 2 },
        SamplePoint { x: 2, y: 1, width: 3, height: 2 },
    ];
    assert_eq!(*asked.borrow(), expected);
}

#[test]
fn sample_points_are_relative_to_the_grid_not_the_canvas() {
    let m = model(10, 100, 60);
    let asked: RefCell<Vec<SamplePoint>> = RefCell::new(Vec::new());
    m.compute_field(|p: SamplePoint| {
        asked.borrow_mut().push(p);
        echo(p)
    });
    assert_eq!(asked.borrow().len(), 60);
    for p in asked.borrow().iter() {
        assert_eq!(p.width, 10);
        assert_eq!(p.height, 6);
        assert!(p.x < p.width);
        assert!(p.y < p.height);
    }
}

#[test]
fn directions_are_stored_bit_for_bit() {
    let m = model(1, 2, 2);
    let field = m.compute_field(|p: SamplePoint| match (p.x, p.y) {
        (0, 0) => Direction { x: f32::NAN.to_bits(), y: (-0.0f32).to_bits() },
        (0, 1) => Direction { x: 0xFFFF_FFFF, y: 0 },
        (1, 0) => Direction { x: 1.5f32.to_bits(), y: (-2.25f32).to_bits() },
        _ => Direction { x: f32::INFINITY.to_bits(), y: f32::MIN_POSITIVE.to_bits() },
    });
    assert_eq!(
        field.get(0, 0),
        Some(Direction { x: f32::NAN.to_bits(), y: (-0.0f32).to_bits() })
    );
    assert_eq!(field.get(0, 1), Some(Direction { x: 0xFFFF_FFFF, y: 0 }));
    let third = field.get(1, 0).unwrap();
    assert_eq!(f32::from_bits(third.x), 1.5);
    assert_eq!(f32::from_bits(third.y), -2.25);
    let fourth = field.get(1, 1).unwrap();
    assert_eq!(f32::from_bits(fourth.x), f32::INFINITY);
    assert_eq!(f32::from_bits(fourth.y), f32::MIN_POSITIVE);
}

#[test]
fn computing_twice_gives_the_same_field() {
    let m = model(8, 64, 40);
    let first = m.compute_field(echo);
    let second = m.compute_field(echo);
    assert_eq!(first.len(), second.len());
    assert_eq!(first.width(), second.width());
    assert_eq!(first.height(), second.height());
    for x in 0..8u32 {
        for y in 0..5u32 {
            assert!(first.get(x, y).is_some());
            assert_eq!(first.get(x, y), second.get(x, y));
        }
    }
}
