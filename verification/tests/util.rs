use voxel_ray::count_trigger::CountTrigger;
use voxel_ray::fx::{fx_div, fx_floor, fx_fract, fx_from_int, fx_mul, fx_sign, FX_ONE};
use voxel_ray::morton::{morton6, morton6_3};
use voxel_ray::trie::Trie;

#[derive(Debug, Clone, Copy, PartialEq, Eq, PartialOrd, Ord, Hash)]
pub enum Button {
    Up,
    Down,
    Left,
    Right,
    A,
    B,
    C,
    D,
    L1,
    L2,
    R1,
    R2,
    Start,
    Select,
}

#[test]
fn radians_test() {
    assert_eq!(-90f32.to_radians(), (-90f32).to_radians());
}

#[test]
pub fn fct_nth_test() {
    let mut counter = CountTrigger::new();
    for _ in 0..100 {
        counter.nth(10, |i| {
            println!("nth(10): {i}");
        });
        counter.every_nth(3, |i| {
            println!("every_nth(17): {i}");
        });
        counter.ge(90, |i| {
            println!(">= 90: {i}");
        });
        counter.increment();
    }
}

#[test]
fn trie_test() {
    let trie = Trie::<char>::new();
    let forg: Vec<char> = "Forg".chars().collect();
    println!("Result: {}", trie.contains_partial(&forg));
    let (up, down, left, right) = (Button::Up, Button::Down, Button::Left, Button::Right);
    let (a, b, start, select) = (Button::A, Button::B, Button::Start, Button::Select);
    let mut trie = Trie::<Button>::new();
    let konami_code: [Button; 11] = [up, up, down, down, left, right, left, right, b, a, start];
    let other_code: [Button; 12] =
        [up, up, down, down, left, right, left, right, b, a, start, select];
    trie.insert(&konami_code);
    trie.insert(&other_code);
    let result = trie.contains(&konami_code);
    let other = trie.contains(&other_code);
    let part = trie.contains_partial(&[up, up, down, down]);
    println!("{} {} {part}", result, other);
}

#[test]
fn trie_lookups() {
    let (up, down, left, right) = (Button::Up, Button::Down, Button::Left, Button::Right);
    let (a, b, start, select) = (Button::A, Button::B, Button::Start, Button::Select);
    let mut trie = Trie::<Button>::new();
    let konami_code: [Button; 11] = [up, up, down, down, left, right, left, right, b, a, start];
    let other_code: [Button; 12] =
        [up, up, down, down, left, right, left, right, b, a, start, select];
    trie.insert(&konami_code);
    trie.insert(&other_code);
    assert!(trie.contains(&konami_code));
    assert!(trie.contains(&other_code));
    assert!(trie.contains_partial(&[up, up, down, down]));
    // a strict prefix that ends on no stored word
    assert!(!trie.contains(&[up, up, down, down]));
    // a word that leaves the tree
    assert!(!trie.contains(&[down, up]));
    assert!(!trie.contains_partial(&[down]));
    // the empty word is a prefix of everything but stored nowhere
    assert!(trie.contains_partial(&[]));
    assert!(!trie.contains(&[]));
    // an empty trie holds nothing
    let empty = Trie::<Button>::new();
    assert!(!empty.contains(&konami_code));
    assert!(!empty.is_leaf());
    // inserting the empty word marks the root
    let mut root_only = Trie::<u32>::new();
    root_only.insert(&[]);
    assert!(root_only.contains(&[]));
    assert!(root_only.is_leaf());
}

#[test]
fn counter_conditions() {
    let mut counter = CountTrigger::new();
    assert_eq!(counter.frame_count(), 0);
    counter.set_count(10);
    assert_eq!(counter.frame_count(), 10);
    assert_eq!(counter.nth(10, |i| i * 2), Some(20));
    assert_eq!(counter.nth(9, |i| i * 2), None);
    assert_eq!(counter.every_nth(5, |i| i + 1), Some(11));
    assert_eq!(counter.every_nth(3, |i| i + 1), None);
    assert_eq!(counter.ge(10, |i| i), Some(10));
    assert_eq!(counter.ge(11, |i| i), None);
    assert_eq!(counter.lt(11, |i| i), Some(10));
    assert_eq!(counter.lt(10, |i| i), None);
    assert_eq!(counter.increment(), 11);
    assert_eq!(counter.add(4), 15);
    counter.reset();
    assert_eq!(counter.frame_count(), 0);
}

#[test]
fn fixed_point_scalars() {
    assert_eq!(fx_from_int(3), 3 * FX_ONE);
    assert_eq!(fx_from_int(-2), -2 * FX_ONE);
    assert_eq!(fx_sign(17), 1);
    assert_eq!(fx_sign(-17), -1);
    assert_eq!(fx_sign(0), 0);
    // half a cell per unit of t
    assert_eq!(fx_div(FX_ONE, 2 * FX_ONE), FX_ONE / 2);
    assert_eq!(fx_div(-FX_ONE, 2 * FX_ONE), -FX_ONE / 2);
    // division rounds toward negative infinity, not toward zero
    assert_eq!(fx_div(1, 3), 21845);
    assert_eq!(fx_div(-1, 3), -21846);
    assert_eq!(fx_mul(3 * FX_ONE / 2, 2 * FX_ONE), 3 * FX_ONE);
    assert_eq!(fx_mul(-1, 1), -1);
    assert_eq!(fx_mul(1, 1), 0);
    // flooring puts -1 raw in cell -1
    assert_eq!(fx_floor(0), 0);
    assert_eq!(fx_floor(FX_ONE - 1), 0);
    assert_eq!(fx_floor(-1), -1);
    assert_eq!(fx_floor(-FX_ONE), -1);
    assert_eq!(fx_floor(-FX_ONE - 1), -2);
    assert_eq!(fx_fract(-1), FX_ONE - 1);
    assert_eq!(fx_fract(3 * FX_ONE + 5), 5);
}

#[test]
fn morton_codes() {
    // all six bits set spreads to every third bit
    assert_eq!(morton6(0b111111), 0b1001001001001001);
    assert_eq!(morton6(0), 0);
    assert_eq!(morton6(1), 1);
    assert_eq!(morton6(0b100000), 0x8000);
    assert_eq!(morton6(0b000010), 0b1000);
    // interleaving: x on bits 0,3,..., y one higher, z two higher
    assert_eq!(morton6_3(1, 0, 0), 0b001);
    assert_eq!(morton6_3(0, 1, 0), 0b010);
    assert_eq!(morton6_3(0, 0, 1), 0b100);
    assert_eq!(morton6_3(1, 1, 1), 0b111);
    assert_eq!(morton6_3(63, 63, 63), 0x3ffff);
    assert_eq!(morton6_3(2, 0, 1), 0b100 | 0b001000);
}
