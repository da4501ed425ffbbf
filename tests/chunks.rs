use vec_btree::btree::{binary_search, FromIteratorSized, VecBtree};
use vec_btree::chunks::{chunk_bounds, chunk_size};

fn chunk_holding(letters: &VecBtree<char>, target: char, nb_chunk: usize) -> Option<(usize, char)> {
    for (k, (begin, end)) in chunk_bounds(letters.buf.len(), nb_chunk).into_iter().enumerate() {
        let line = &letters.buf[begin..end];
        if let Some(v) = binary_search(line, &target, &0isize, &((line.len() - 1) as isize)) {
            return Some((k, *v));
        }
    }
    None
}

#[test]
fn chunk_size_rounds_up() {
    assert_eq!(7, chunk_size(26, 4));
    assert_eq!(3, chunk_size(9, 3));
    assert_eq!(4, chunk_size(10, 3));
    assert_eq!(0, chunk_size(0, 5));
    assert_eq!(1, chunk_size(3, 5));
    assert_eq!(26, chunk_size(26, 1));
}

#[test]
fn chunk_bounds_of_the_alphabet() {
    assert_eq!(vec![(0, 7), (7, 14), (14, 21), (21, 26)], chunk_bounds(26, 4));
}

#[test]
fn chunk_bounds_edges() {
    assert_eq!(Vec::<(usize, usize)>::new(), chunk_bounds(0, 4));
    assert_eq!(vec![(0, 3), (3, 6), (6, 9)], chunk_bounds(9, 4));
    assert_eq!(vec![(0, 1), (1, 2), (2, 3)], chunk_bounds(3, 8));
    assert_eq!(vec![(0, 5)], chunk_bounds(5, 1));
}

#[test]
fn chunked_search_of_the_alphabet() {
    let letters = VecBtree::from_iter_sized(('a'..='z').collect::<Vec<char>>(), 26);
    assert_eq!(Some((0, 'b')), chunk_holding(&letters, 'b', 4));
    assert_eq!(Some((3, 'z')), chunk_holding(&letters, 'z', 4));
    assert_eq!(Some((2, 'q')), chunk_holding(&letters, 'q', 4));
    assert_eq!(None, chunk_holding(&letters, '~', 4));
}

#[test]
fn chunked_search_of_unsorted_runs() {
    let runs = VecBtree::from_iter(vec![5, 6, 7, 1, 2, 3]);
    assert_eq!(Some((1, 2)), chunk_holding_i32(&runs, 2, 2));
    assert_eq!(Some((0, 7)), chunk_holding_i32(&runs, 7, 2));
    assert_eq!(None, chunk_holding_i32(&runs, 4, 2));
}

fn chunk_holding_i32(runs: &VecBtree<i32>, target: i32, nb_chunk: usize) -> Option<(usize, i32)> {
    for (k, (begin, end)) in chunk_bounds(runs.buf.len(), nb_chunk).into_iter().enumerate() {
        let line = &runs.buf[begin..end];
        if let Some(v) = binary_search(line, &target, &0isize, &((line.len() - 1) as isize)) {
            return Some((k, *v));
        }
    }
    None
}
