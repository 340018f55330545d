use echo_reactor::threaded::next_generation_by_sectors;
use echo_reactor::threaded::world::{Sector, World};

fn world_from(rows: &[&str]) -> World {
    let height = rows.len();
    let width = rows[0].len();
    let mut world = World::new(width, height);
    for (y, row) in rows.iter().enumerate() {
        for (x, c) in row.bytes().enumerate() {
            world.set(x, y, c == b'x');
        }
    }
    world
}

fn rows_of(world: &World) -> Vec<String> {
    let mut rows = Vec::new();
    for y in 0..world.height {
        let mut row = String::new();
        for x in 0..world.width {
            row.push(if world.get(x, y) { 'x' } else { '.' });
        }
        rows.push(row);
    }
    rows
}

#[test]
fn new_world_is_dead() {
    let world = World::new(3, 2);
    assert_eq!(world.width, 3);
    assert_eq!(world.height, 2);
    assert_eq!(rows_of(&world), vec!["...", "..."]);
    let empty = World::new(0, 5);
    assert_eq!(empty.width, 0);
    assert_eq!(empty.height, 5);
}

#[test]
fn set_changes_one_cell() {
    let mut world = World::new(3, 3);
    world.set(2, 1, true);
    assert!(world.get(2, 1));
    assert_eq!(rows_of(&world), vec!["...", "..x", "..."]);
    world.set(2, 1, false);
    assert_eq!(rows_of(&world), vec!["...", "...", "..."]);
    world.assert_in_bounds(2, 2);
}

#[test]
fn sector_keeps_its_fields() {
    let s = Sector::new(1, 2, 3, 4);
    assert_eq!((s.x, s.y, s.width, s.height), (1, 2, 3, 4));
}

#[test]
fn neighbors_are_counted_inside_the_grid_only() {
    let world = world_from(&["xxx", "xxx", "xxx"]);
    assert_eq!(world.count_neighbors(1, 1), 8);
    assert_eq!(world.count_neighbors(0, 0), 3);
    assert_eq!(world.count_neighbors(2, 0), 3);
    assert_eq!(world.count_neighbors(0, 2), 3);
    assert_eq!(world.count_neighbors(2, 2), 3);
    assert_eq!(world.count_neighbors(1, 0), 5);
    assert_eq!(world.count_neighbors(0, 1), 5);
    let lone = world_from(&["...", ".x.", "..."]);
    assert_eq!(lone.count_neighbors(1, 1), 0);
    assert_eq!(lone.count_neighbors(0, 0), 1);
    let single = world_from(&["x"]);
    assert_eq!(single.count_neighbors(0, 0), 0);
}

#[test]
fn blinker_turns() {
    let world = world_from(&[".....", "..x..", "..x..", "..x..", "....."]);
    let whole = Sector::new(0, 0, 5, 5);
    let next = world.next_generation(&whole);
    assert_eq!(rows_of(&next), vec![".....", ".....", ".xxx.", ".....", "....."]);
    let back = next.next_generation(&whole);
    assert_eq!(rows_of(&back), rows_of(&world));
}

#[test]
fn block_is_stable_and_lone_cell_dies() {
    let block = world_from(&["....", ".xx.", ".xx.", "...."]);
    let next = block.next_generation(&Sector::new(0, 0, 4, 4));
    assert_eq!(rows_of(&next), rows_of(&block));
    let lone = world_from(&["...", ".x.", "..."]);
    let next = lone.next_generation(&Sector::new(0, 0, 3, 3));
    assert_eq!(rows_of(&next), vec!["...", "...", "..."]);
}

#[test]
fn crowded_cell_dies() {
    let world = world_from(&["xxx", "xxx", "xxx"]);
    let next = world.next_generation(&Sector::new(0, 0, 3, 3));
    assert_eq!(rows_of(&next), vec!["x.x", "...", "x.x"]);
}

#[test]
fn sector_sees_neighbours_outside_itself() {
    let world = world_from(&[".....", "..x..", "..x..", "..x..", "....."]);
    let part = world.next_generation(&Sector::new(1, 2, 3, 1));
    assert_eq!(part.width, 3);
    assert_eq!(part.height, 1);
    assert_eq!(rows_of(&part), vec!["xxx"]);
    let corner = world.next_generation(&Sector::new(3, 3, 2, 2));
    assert_eq!(rows_of(&corner), vec!["..", ".."]);
}

#[test]
fn merge_copies_a_part_into_place() {
    let mut world = world_from(&["xxxx", "xxxx", "xxxx"]);
    let part = world_from(&[".x", ".."]);
    world.merge(&Sector::new(1, 1, 2, 2), &part);
    assert_eq!(rows_of(&world), vec!["xxxx", "x.xx", "x..x"]);
}

#[test]
fn quadrants_give_the_whole_generation() {
    let world = world_from(&["......", "..x...", "...x..", ".xxx..", "......", "......"]);
    let whole = world.next_generation(&Sector::new(0, 0, 6, 6));
    let sectors = vec![
        Sector::new(0, 0, 3, 3),
        Sector::new(3, 0, 3, 3),
        Sector::new(0, 3, 3, 3),
        Sector::new(3, 3, 3, 3),
    ];
    let pieced = next_generation_by_sectors(&world, &sectors);
    assert_eq!(rows_of(&pieced), rows_of(&whole));
    assert_eq!(
        rows_of(&whole),
        vec!["......", "......", ".x.x..", "..xx..", "..x...", "......"]
    );
}

#[test]
fn cells_that_no_sector_covers_are_dead() {
    let world = world_from(&["xx.", "xx.", "..."]);
    let sectors = vec![Sector::new(0, 0, 1, 3)];
    let next = next_generation_by_sectors(&world, &sectors);
    assert_eq!(rows_of(&next), vec!["x..", "x..", "..."]);
    let none: Vec<Sector> = Vec::new();
    let next = next_generation_by_sectors(&world, &none);
    assert_eq!(rows_of(&next), vec!["...", "...", "..."]);
}

#[test]
fn overlapping_sectors_agree() {
    let world = world_from(&[".x.", ".x.", ".x."]);
    let sectors = vec![Sector::new(0, 0, 2, 3), Sector::new(1, 0, 2, 3), Sector::new(0, 1, 3, 1)];
    let next = next_generation_by_sectors(&world, &sectors);
    assert_eq!(rows_of(&next), vec!["...", "xxx", "..."]);
}

#[test]
fn world_is_shown_row_by_row() {
    let world = world_from(&["x..", ".x.", "..x", "..."]);
    assert_eq!(world.to_string(), "x..\n.x.\n..x\n...\n");
    assert_eq!(World::new(0, 0).to_string(), "");
    assert_eq!(World::new(0, 2).to_string(), "\n\n");
    assert_eq!(World::new(2, 0).to_string(), "");
}
