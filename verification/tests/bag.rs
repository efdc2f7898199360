use tetrox::pieces::tetromino::TetrominoSrs;
use tetrox::pieces::{PieceKind, PieceKindTrait};
use tetrox::{Randomizer, SingleBag};

const T: PieceKind = PieceKind::TetrominoSrs(TetrominoSrs::T);

fn count(kinds: &[PieceKind], kind: PieceKind) -> usize {
    kinds.iter().filter(|&&k| k == kind).count()
}

#[test]
fn single_kind_bag_deals_that_kind() {
    let mut bag = SingleBag::new(vec![T]);
    assert_eq!(bag.lookahead(), 1);
    for _ in 0..10 {
        assert_eq!(bag.next(), T);
    }
}

#[test]
fn every_bag_holds_each_kind_once() {
    let kinds = TetrominoSrs::iter();
    let mut bag = SingleBag::new(kinds.clone());
    for _ in 0..5 {
        let dealt: Vec<PieceKind> = (0..kinds.len()).map(|_| bag.next()).collect();
        for &k in kinds.iter() {
            assert_eq!(count(&dealt, k), 1);
        }
    }
}

#[test]
fn bag_counts_repeated_kinds() {
    let kinds = vec![T, T, PieceKind::TetrominoSrs(TetrominoSrs::I)];
    let mut bag = SingleBag::new(kinds.clone());
    for _ in 0..4 {
        let dealt: Vec<PieceKind> = (0..3).map(|_| bag.next()).collect();
        assert_eq!(count(&dealt, T), 2);
        assert_eq!(count(&dealt, PieceKind::TetrominoSrs(TetrominoSrs::I)), 1);
    }
}

#[test]
fn peek_shows_what_comes_next() {
    let kinds = TetrominoSrs::iter();
    let mut bag = SingleBag::new(kinds.clone());
    assert_eq!(bag.lookahead(), 7);
    for _ in 0..20 {
        let upcoming = bag.peek();
        assert!(upcoming.len() > bag.lookahead());
        let a = bag.next();
        let b = bag.next();
        assert_eq!(a, upcoming[0]);
        assert_eq!(b, upcoming[1]);
    }
}

#[test]
fn peek_ends_with_a_full_bag() {
    let kinds = TetrominoSrs::iter();
    let mut bag = SingleBag::new(kinds.clone());
    bag.next();
    bag.next();
    let upcoming = bag.peek();
    // five left of the first bag, then a whole bag
    assert_eq!(upcoming.len(), 12);
    let last_bag = &upcoming[5..];
    for &k in kinds.iter() {
        assert_eq!(count(last_bag, k), 1);
        assert!(count(&upcoming[..5], k) <= 1);
    }
}

#[test]
fn bags_are_shuffled() {
    let kinds = TetrominoSrs::iter();
    let mut bag = SingleBag::new(kinds.clone());
    let first: Vec<PieceKind> = (0..kinds.len()).map(|_| bag.next()).collect();
    let mut orders_differ = false;
    for _ in 0..20 {
        let dealt: Vec<PieceKind> = (0..kinds.len()).map(|_| bag.next()).collect();
        if dealt != first {
            orders_differ = true;
        }
    }
    // twenty more bags all in the order of the first happen once in 5040^20
    assert!(orders_differ);
}

#[test]
fn peek_shows_every_following_draw() {
    let kinds = TetrominoSrs::iter();
    let mut bag = SingleBag::new(kinds.clone());
    for start in 0..5 {
        for _ in 0..start {
            bag.next();
        }
        let upcoming = bag.peek();
        let drawn: Vec<_> = (0..upcoming.len()).map(|_| bag.next()).collect();
        assert_eq!(drawn, upcoming);
    }
}
