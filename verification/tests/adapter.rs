use array_chunks::chunks::chunk_bounds;
use array_chunks::chunks::ArrayChunks;
use array_chunks::source::Source;
use array_chunks::source::VecSource;
use std::cell::Cell;
use std::rc::Rc;

struct Counted {
    drops: Rc<Cell<usize>>,
}

impl Drop for Counted {
    fn drop(&mut self) {
        self.drops.set(self.drops.get() + 1);
    }
}

fn counted(n: usize) -> (Vec<Counted>, Rc<Cell<usize>>) {
    let drops = Rc::new(Cell::new(0));
    let items = (0..n).map(|_| Counted { drops: Rc::clone(&drops) }).collect();
    (items, drops)
}

#[test]
fn scenario_pairs() {
    let src = VecSource::new(vec![1, 2, 3, 4, 5]);
    let mut b: ArrayChunks<VecSource<i32>, i32, 2> = ArrayChunks::new(src);
    assert_eq!(b.next(), Some(vec![1, 2]));
    assert_eq!(b.next(), Some(vec![3, 4]));
    assert_eq!(b.next(), None);
    assert_eq!(b.remainder(), &[5]);
    assert_eq!(b.next(), None);
    assert_eq!(b.remainder(), &[5]);
}

#[test]
fn scenario_empty_source() {
    let src = VecSource::new(Vec::new());
    let mut b: ArrayChunks<VecSource<i32>, i32, 3> = ArrayChunks::new(src);
    assert_eq!(b.next(), None);
    assert_eq!(b.remainder(), &[] as &[i32]);
}

#[test]
fn scenario_exact_fit() {
    let src = VecSource::new(vec!['a', 'b', 'c', 'd']);
    let mut b: ArrayChunks<VecSource<char>, char, 4> = ArrayChunks::new(src);
    assert_eq!(b.next(), Some(vec!['a', 'b', 'c', 'd']));
    assert_eq!(b.remainder(), &[] as &[char]);
    assert_eq!(b.next(), None);
    assert_eq!(b.remainder(), &[] as &[char]);
}

#[test]
fn degenerate_zero_group_size() {
    let src = VecSource::new(vec![1, 2]);
    let mut b: ArrayChunks<VecSource<i32>, i32, 0> = ArrayChunks::new(src);
    assert_eq!(b.next(), Some(Vec::new()));
    assert_eq!(b.next(), Some(Vec::new()));
    assert_eq!(b.remainder(), &[] as &[i32]);
}

#[test]
fn count_and_remainder() {
    let src = VecSource::new(vec![1, 2, 3, 4, 5, 6, 7, 8]);
    let mut b: ArrayChunks<VecSource<i32>, i32, 3> = ArrayChunks::new(src);
    assert_eq!(b.next(), Some(vec![1, 2, 3]));
    assert_eq!(b.next(), Some(vec![4, 5, 6]));
    assert_eq!(b.next(), None);
    assert_eq!(b.remainder(), &[7, 8]);
}

#[test]
fn no_loss_concatenation() {
    let original: Vec<i32> = (1..=10).collect();
    let src = VecSource::new(original.clone());
    let mut b: ArrayChunks<VecSource<i32>, i32, 3> = ArrayChunks::new(src);
    let mut rebuilt = Vec::new();
    while let Some(group) = b.next() {
        assert_eq!(group.len(), 3);
        rebuilt.extend(group);
    }
    rebuilt.extend_from_slice(b.remainder());
    assert_eq!(rebuilt, original);
}

#[test]
fn drop_runs_for_exactly_the_live_values() {
    let (items, drops) = counted(3);
    let src = VecSource::new(items);
    let mut b: ArrayChunks<VecSource<Counted>, Counted, 5> = ArrayChunks::new(src);
    assert!(b.next().is_none());
    assert_eq!(b.remainder().len(), 3);
    assert_eq!(drops.get(), 0);
    drop(b);
    assert_eq!(drops.get(), 3);
}

#[test]
fn drop_of_empty_buffer_is_a_noop() {
    let (items, drops) = counted(0);
    let src = VecSource::new(items);
    let b: ArrayChunks<VecSource<Counted>, Counted, 4> = ArrayChunks::new(src);
    drop(b);
    assert_eq!(drops.get(), 0);
}

#[test]
fn group_values_dropped_once_overall() {
    let (items, drops) = counted(5);
    let src = VecSource::new(items);
    let mut b: ArrayChunks<VecSource<Counted>, Counted, 2> = ArrayChunks::new(src);
    let g = b.next().expect("a full group");
    assert_eq!(g.len(), 2);
    drop(g);
    assert_eq!(drops.get(), 2);
    drop(b);
    assert_eq!(drops.get(), 5);
}

#[test]
fn clone_copies_exactly_the_filled_prefix() {
    let src = VecSource::new(vec![1, 2, 3, 4, 5]);
    let mut b: ArrayChunks<VecSource<i32>, i32, 3> = ArrayChunks::new(src);
    assert_eq!(b.next(), Some(vec![1, 2, 3]));
    assert_eq!(b.next(), None);
    assert_eq!(b.remainder(), &[4, 5]);
    let mut c = b.clone();
    assert_eq!(c.remainder(), &[4, 5]);
    assert_eq!(b.next(), None);
    assert_eq!(c.next(), None);
    assert_eq!(b.remainder(), &[4, 5]);
    assert_eq!(c.remainder(), &[4, 5]);
}

#[test]
fn clone_advances_independently() {
    let src = VecSource::new(vec![1, 2, 3, 4]);
    let mut b: ArrayChunks<VecSource<i32>, i32, 2> = ArrayChunks::new(src);
    let mut c = b.clone();
    assert_eq!(b.next(), Some(vec![1, 2]));
    assert_eq!(b.next(), Some(vec![3, 4]));
    assert_eq!(c.next(), Some(vec![1, 2]));
    assert_eq!(c.next(), Some(vec![3, 4]));
    assert_eq!(b.next(), None);
    assert_eq!(c.next(), None);
}

#[test]
fn size_hint_follows_the_source() {
    let src = VecSource::new(vec![1, 2, 3, 4, 5, 6, 7]);
    let mut b: ArrayChunks<VecSource<i32>, i32, 2> = ArrayChunks::new(src);
    assert_eq!(b.size_hint(), (3, Some(3)));
    assert_eq!(b.next(), Some(vec![1, 2]));
    assert_eq!(b.size_hint(), (2, Some(2)));
    assert_eq!(b.next(), Some(vec![3, 4]));
    assert_eq!(b.next(), Some(vec![5, 6]));
    assert_eq!(b.next(), None);
    assert_eq!(b.size_hint(), (0, Some(0)));
}

#[test]
fn size_hint_counts_buffered_elements() {
    let src = VecSource::new(vec![1, 2, 3]);
    let mut b: ArrayChunks<VecSource<i32>, i32, 4> = ArrayChunks::new(src);
    assert_eq!(b.next(), None);
    assert_eq!(b.size_hint(), (0, Some(0)));
}

#[test]
fn chunk_bounds_exact_formula() {
    assert_eq!(chunk_bounds(5, Some(7), 1, 2), (3, Some(4)));
    assert_eq!(chunk_bounds(6, Some(6), 0, 3), (2, Some(2)));
    assert_eq!(chunk_bounds(0, None, 3, 4), (0, None));
}

#[test]
fn chunk_bounds_degrades_on_overflow() {
    assert_eq!(
        chunk_bounds(usize::MAX, Some(usize::MAX), 1, 2),
        (usize::MAX / 2, None)
    );
    assert_eq!(chunk_bounds(usize::MAX, None, usize::MAX, 7), (usize::MAX / 7, None));
}

#[test]
fn vec_source_pulls_front_to_back() {
    let mut s = VecSource::new(vec![1, 2]);
    assert_eq!(s.size_hint(), (2, Some(2)));
    assert_eq!(s.pull(), Some(1));
    assert_eq!(s.pull(), Some(2));
    assert_eq!(s.pull(), None);
    assert_eq!(s.pull(), None);
    assert_eq!(s.size_hint(), (0, Some(0)));
}

#[test]
fn fresh_buffer_is_empty() {
    let src = VecSource::new(vec![9]);
    let b: ArrayChunks<VecSource<i32>, i32, 2> = ArrayChunks::new(src);
    assert_eq!(b.remainder(), &[] as &[i32]);
}
