use snake_game::{
    first_at, free_positions, is_out_of_bounds, new_random_fruit, put_fruit, randomize_fruits,
    square_of, window_side, Fruit, Position, Snake, SnakePart, Square, CELL_PIXELS, GRID_SIZE,
    UPDATES_PER_SECOND,
};

fn snake_of(cells: &[(i16, i16)]) -> Snake {
    let parts: Vec<SnakePart> = cells.iter().map(|&(x, y)| SnakePart { x, y }).collect();
    Snake { x: cells[0].0, y: cells[0].1, parts, going_horizontally: true, speed: 1 }
}

/// Every cell of the field but the listed ones, as fruits.
fn fruits_everywhere_but(holes: &[(i16, i16)]) -> Vec<Fruit> {
    let mut fruits = Vec::new();
    for x in 0..GRID_SIZE {
        for y in 0..GRID_SIZE {
            if !holes.contains(&(x, y)) {
                fruits.push(Fruit { x, y });
            }
        }
    }
    fruits
}

#[test]
fn the_field_has_twenty_cells_a_side() {
    assert_eq!(GRID_SIZE, 20);
}

#[test]
fn out_of_bounds_left_and_right() {
    assert!(is_out_of_bounds(-1, 5));
    assert!(is_out_of_bounds(20, 5));
}

#[test]
fn out_of_bounds_above_and_below() {
    assert!(is_out_of_bounds(5, -1));
    assert!(is_out_of_bounds(5, 20));
    assert!(is_out_of_bounds(i16::MIN, i16::MAX));
}

#[test]
fn corners_are_in_bounds() {
    assert!(!is_out_of_bounds(0, 0));
    assert!(!is_out_of_bounds(19, 19));
    assert!(!is_out_of_bounds(0, 19));
    assert!(!is_out_of_bounds(19, 0));
}

#[test]
fn first_at_finds_the_first_match() {
    let list = vec![
        Position { x: 1, y: 2 },
        Position { x: 3, y: 4 },
        Position { x: 1, y: 2 },
        Position { x: 2, y: 1 },
    ];
    assert_eq!(first_at(&list, 1, 2), Some(0));
    assert_eq!(first_at(&list, 3, 4), Some(1));
    assert_eq!(first_at(&list, 2, 1), Some(3));
    assert_eq!(first_at(&list, 1, 4), None);
    assert_eq!(first_at(&Vec::new(), 0, 0), None);
}

#[test]
fn randomize_fruits_gives_the_number_asked_for() {
    assert_eq!(randomize_fruits(0).len(), 0);
    assert_eq!(randomize_fruits(1).len(), 1);
    assert_eq!(randomize_fruits(255).len(), 255);
}

#[test]
fn randomize_fruits_stays_on_the_field() {
    for _ in 0..40 {
        for fruit in randomize_fruits(255) {
            assert!(!is_out_of_bounds(fruit.x, fruit.y));
        }
    }
}

#[test]
fn randomize_fruits_reaches_more_than_one_cell() {
    let fruits = randomize_fruits(255);
    assert!(fruits.iter().any(|fruit| *fruit != fruits[0]));
}

#[test]
fn free_positions_of_an_empty_field_list_every_cell_in_order() {
    let snake = Snake { parts: Vec::new(), going_horizontally: true, speed: 1, x: 0, y: 0 };
    let free = free_positions(&Vec::new(), &snake);
    assert_eq!(free.len(), 400);
    assert_eq!(free[0], Position { x: 0, y: 0 });
    assert_eq!(free[1], Position { x: 0, y: 1 });
    assert_eq!(free[20], Position { x: 1, y: 0 });
    assert_eq!(free[399], Position { x: 19, y: 19 });
    for (k, position) in free.iter().enumerate() {
        assert_eq!((position.x as usize, position.y as usize), (k / 20, k % 20));
    }
}

#[test]
fn free_positions_leave_out_snake_and_fruit() {
    let snake = snake_of(&[(0, 1), (0, 0)]);
    let fruits = vec![Fruit { x: 0, y: 3 }, Fruit { x: 19, y: 19 }, Fruit { x: 0, y: 3 }];
    let free = free_positions(&fruits, &snake);
    assert_eq!(free.len(), 396);
    assert_eq!(free[0], Position { x: 0, y: 2 });
    assert_eq!(free[1], Position { x: 0, y: 4 });
    assert_eq!(free[395], Position { x: 19, y: 18 });
    assert!(!free.contains(&Position { x: 0, y: 0 }));
    assert!(!free.contains(&Position { x: 0, y: 1 }));
    assert!(!free.contains(&Position { x: 0, y: 3 }));
    assert!(!free.contains(&Position { x: 19, y: 19 }));
}

#[test]
fn free_positions_ignore_what_lies_off_the_field() {
    let snake = snake_of(&[(-1, 0), (20, 20)]);
    let fruits = vec![Fruit { x: 5, y: -3 }];
    assert_eq!(free_positions(&fruits, &snake).len(), 400);
}

#[test]
fn put_fruit_appends_the_chosen_position() {
    let free = vec![Position { x: 7, y: 8 }, Position { x: 9, y: 10 }];
    let mut fruits = vec![Fruit { x: 1, y: 1 }];
    put_fruit(&mut fruits, &free, 1);
    assert_eq!(fruits, vec![Fruit { x: 1, y: 1 }, Fruit { x: 9, y: 10 }]);
    put_fruit(&mut fruits, &free, 0);
    assert_eq!(fruits, vec![Fruit { x: 1, y: 1 }, Fruit { x: 9, y: 10 }, Fruit { x: 7, y: 8 }]);
}

#[test]
fn new_random_fruit_lands_on_a_vacant_cell() {
    let snake = snake_of(&[(3, 3), (2, 3), (1, 3)]);
    for _ in 0..200 {
        let mut fruits = vec![Fruit { x: 4, y: 3 }, Fruit { x: 0, y: 0 }];
        new_random_fruit(&mut fruits, &snake);
        assert_eq!(fruits.len(), 3);
        assert_eq!(fruits[0], Fruit { x: 4, y: 3 });
        assert_eq!(fruits[1], Fruit { x: 0, y: 0 });
        let new = fruits[2];
        assert!(!is_out_of_bounds(new.x, new.y));
        assert!(!snake.parts.contains(&new));
        assert!(new != fruits[0] && new != fruits[1]);
    }
}

#[test]
fn new_random_fruit_takes_the_last_vacant_cell() {
    let snake = snake_of(&[(3, 3)]);
    let mut fruits = fruits_everywhere_but(&[(3, 3), (12, 7)]);
    assert_eq!(fruits.len(), 398);
    new_random_fruit(&mut fruits, &snake);
    assert_eq!(fruits.len(), 399);
    assert_eq!(fruits[398], Fruit { x: 12, y: 7 });
}

#[test]
fn new_random_fruit_chooses_among_two_vacant_cells() {
    let snake = snake_of(&[(3, 3)]);
    let (mut low, mut high) = (0, 0);
    for _ in 0..200 {
        let mut fruits = fruits_everywhere_but(&[(3, 3), (12, 7), (0, 5)]);
        new_random_fruit(&mut fruits, &snake);
        assert_eq!(fruits.len(), 398);
        match (fruits[397].x, fruits[397].y) {
            (0, 5) => low += 1,
            (12, 7) => high += 1,
            other => panic!("fruit on an occupied cell: {:?}", other),
        }
    }
    assert!(low > 0 && high > 0);
}

#[test]
fn new_random_fruit_skips_a_full_field() {
    let snake = snake_of(&[(3, 3)]);
    let mut fruits = fruits_everywhere_but(&[(3, 3)]);
    let before = fruits.clone();
    new_random_fruit(&mut fruits, &snake);
    assert_eq!(fruits, before);
}

#[test]
fn a_cell_is_thirty_pixels_wide() {
    assert_eq!(CELL_PIXELS, 30);
    assert_eq!(window_side(), 600);
    assert_eq!(UPDATES_PER_SECOND, 8);
}

#[test]
fn squares_leave_one_pixel_between_cells() {
    assert_eq!(square_of(Position { x: 0, y: 0 }), Square { left: 0, top: 0, side: 29 });
    assert_eq!(square_of(Position { x: 2, y: 3 }), Square { left: 60, top: 90, side: 29 });
    assert_eq!(square_of(Position { x: 19, y: 19 }), Square { left: 570, top: 570, side: 29 });
    assert_eq!(square_of(Position { x: -1, y: 5 }), Square { left: -30, top: 150, side: 29 });
}

#[test]
fn a_spawned_fruit_is_one_of_the_free_positions() {
    let snake = snake_of(&[(10, 10), (9, 10)]);
    for _ in 0..50 {
        let mut fruits = vec![Fruit { x: 11, y: 10 }];
        let free = free_positions(&fruits, &snake);
        new_random_fruit(&mut fruits, &snake);
        assert_eq!(fruits.len(), 2);
        assert!(free.contains(&fruits[1]));
    }
}
