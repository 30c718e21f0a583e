use game_engine::data::{BlockType, ItemType};
use game_engine::enum_array::{EnumArray, EnumDiscriminant};

#[derive(Debug)]
#[allow(dead_code)]
enum Test {
    One,
    Two(i32),
    Three { a: i32, b: usize },
}

impl EnumDiscriminant for Test {
    const COUNT: usize = 3;

    fn discriminant(&self) -> usize {
        match self {
            Test::One => 0,
            Test::Two(..) => 1,
            Test::Three { .. } => 2,
        }
    }
}

#[test]
fn test_disc() {
    let x = Test::One;
    assert_eq!(x.discriminant(), 0);
    let x = Test::Three { a: 1, b: 0 };
    assert_eq!(x.discriminant(), 2);
}

#[test]
fn test_array() {
    let arr = EnumArray::<usize, Test>::from_vec(vec![0, 1, 2]);
    println!("{:?}", arr);

    let x = *arr.index(&Test::Three { a: 1, b: 0 });
    assert_eq!(x, 2);
}

#[test]
fn enum_array_set_replaces_one_entry() {
    let mut arr = EnumArray::<usize, Test>::from_vec(vec![0, 1, 2]);
    arr.set(&Test::Two(7), 10);
    assert_eq!(*arr.index(&Test::One), 0);
    assert_eq!(*arr.index(&Test::Two(0)), 10);
    assert_eq!(*arr.index(&Test::Three { a: 0, b: 0 }), 2);
    assert_eq!(arr.len(), 3);
    assert_eq!(*arr.get_at(1), 10);
}

#[test]
fn item_and_block_discriminants_follow_declaration_order() {
    assert_eq!(ItemType::COUNT, 20);
    assert_eq!(BlockType::COUNT, 14);
    assert_eq!(ItemType::Dirt.discriminant(), 0);
    assert_eq!(ItemType::Chest.discriminant(), 18);
    assert_eq!(ItemType::Crafter.discriminant(), 19);
    assert_eq!(BlockType::Air.discriminant(), 0);
    assert_eq!(BlockType::Crafter.discriminant(), 13);
}

#[test]
fn enum_array_index_mut_changes_in_place() {
    let mut arr = EnumArray::<usize, Test>::from_vec(vec![4, 5, 6]);
    *arr.index_mut(&Test::Three { a: 9, b: 9 }) += 10;
    assert_eq!(*arr.index(&Test::Three { a: 0, b: 0 }), 16);
    assert_eq!(*arr.index(&Test::One), 4);
    assert_eq!(*arr.index(&Test::Two(1)), 5);
}
