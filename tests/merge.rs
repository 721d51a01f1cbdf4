use merging_iterator::{collect, MergeIter, Natural, Order, Reverse, Source, VecSource};

fn src<T>(v: Vec<T>) -> VecSource<T> {
    VecSource::new(v)
}

fn is_sorted<T: Ord>(v: &[T]) -> bool {
    v.windows(2).all(|w| w[0] <= w[1])
}

#[test]
fn test_merge_sorted_iterators() {
    let expected = vec![1, 2, 3, 4, 5, 6, 7, 8, 9];

    let a = vec![1, 3, 5, 7, 9];
    let b = vec![2, 4, 6, 8];
    let merger = MergeIter::new(src(a), src(b));
    assert_eq!(expected, collect(merger));

    let a = vec![1, 2, 3, 4, 5];
    let b = vec![6, 7, 8, 9];
    let merger = MergeIter::new(src(a), src(b));
    assert_eq!(expected, collect(merger));

    let a = vec![3, 5, 6, 8];
    let b = vec![1, 2, 4, 7, 9];
    let merger = MergeIter::new(src(a), src(b));
    assert_eq!(expected, collect(merger));

    let a = vec![];
    let b = vec![1, 2, 3, 4, 5, 6, 7, 8, 9];
    let merger = MergeIter::new(src(a), src(b));
    assert_eq!(expected, collect(merger));

    let a = vec![1, 2, 3, 4, 5, 6, 7, 8, 9];
    let b = vec![];
    let merger = MergeIter::new(src(a), src(b));
    assert_eq!(expected, collect(merger));
}

#[test]
fn test_multiple_iterators() {
    let expected = vec![1, 2, 3, 4, 5, 6, 7, 8, 9];

    let a = vec![1, 4, 7];
    let b = vec![2, 5, 8];
    let c = vec![3, 6, 9];
    let merger = MergeIter::new(src(a), src(b));
    let merger = MergeIter::new(src(c), merger);
    let merger = collect(merger);
    assert_eq!(expected, merger);
    assert!(is_sorted(&merger));
}

#[test]
fn sorted_inputs_give_sorted_output_of_full_length() {
    let cases: Vec<(Vec<i32>, Vec<i32>)> = vec![
        (vec![-5, 0, 0, 3, 10], vec![-7, 0, 2, 2, 11, 12]),
        (vec![1, 1, 1], vec![1, 1]),
        (vec![i32::MIN, i32::MAX], vec![0]),
        (vec![4], vec![]),
    ];
    for (a, b) in cases {
        let n = a.len() + b.len();
        let out = collect(MergeIter::new(src(a), src(b)));
        assert_eq!(out.len(), n);
        assert!(is_sorted(&out));
    }
}

#[test]
fn output_holds_the_same_elements() {
    let a = vec![2, 2, 5, 9];
    let b = vec![1, 2, 9, 9, 10];
    let mut both = a.clone();
    both.extend(b.iter().copied());
    both.sort();
    let out = collect(MergeIter::new(src(a), src(b)));
    assert_eq!(out, both);
}

#[test]
fn unsorted_inputs_lose_nothing() {
    let a = vec![5, 1, 4];
    let b = vec![3, 9, 2];
    let out = collect(MergeIter::new(src(a), src(b)));
    assert_eq!(out, vec![3, 5, 1, 4, 9, 2]);
}

#[test]
fn nesting_either_way_gives_the_same_result() {
    let a = vec![1, 3, 3, 8];
    let b = vec![2, 3, 7];
    let c = vec![0, 3, 9];
    let left_first = collect(MergeIter::new(
        MergeIter::new(src(a.clone()), src(b.clone())),
        src(c.clone()),
    ));
    let right_first = collect(MergeIter::new(src(a), MergeIter::new(src(b), src(c))));
    assert_eq!(left_first, right_first);
    assert_eq!(left_first, vec![0, 1, 2, 3, 3, 3, 3, 7, 8, 9]);
}

#[test]
fn empty_source_is_identity() {
    let a = vec![3, 1, 2];
    assert_eq!(collect(MergeIter::new(src(a.clone()), src(vec![]))), a);
    assert_eq!(collect(MergeIter::new(src(vec![]), src(a.clone()))), a);
    let none: Vec<i32> = collect(MergeIter::new(src(vec![]), src(vec![])));
    assert!(none.is_empty());
}

#[test]
fn exhaustion_is_idempotent() {
    let mut m = MergeIter::new(src(vec![1]), src(vec![]));
    assert_eq!(m.next(), Some(1));
    assert_eq!(m.next(), None);
    assert_eq!(m.next(), None);
    let mut e = MergeIter::new(src(Vec::<u8>::new()), src(Vec::new()));
    assert_eq!(e.next(), None);
    assert_eq!(e.next(), None);
}

#[derive(Debug, Clone, Copy, PartialEq, Eq)]
struct Tagged {
    key: u32,
    origin: char,
}

impl PartialOrd for Tagged {
    fn partial_cmp(&self, other: &Self) -> Option<std::cmp::Ordering> {
        Some(self.cmp(other))
    }
}

impl Ord for Tagged {
    fn cmp(&self, other: &Self) -> std::cmp::Ordering {
        self.key.cmp(&other.key)
    }
}

#[test]
fn ties_go_to_the_right_side() {
    let a = vec![Tagged { key: 7, origin: 'L' }];
    let b = vec![Tagged { key: 7, origin: 'R' }];
    let out = collect(MergeIter::new(src(a), src(b)));
    let origins: Vec<char> = out.iter().map(|t| t.origin).collect();
    assert_eq!(origins, vec!['R', 'L']);
}

#[test]
fn custom_descending_policy() {
    let a: Vec<u8> = vec![8, 6, 4, 2, 0];
    let b: Vec<u8> = vec![9, 7, 5, 3, 1];
    let merger = MergeIter::with_custom_ordering(src(a), src(b), Reverse);
    assert_eq!(collect(merger), vec![9, 8, 7, 6, 5, 4, 3, 2, 1, 0]);
}

#[test]
fn custom_natural_policy_matches_new() {
    let a = vec![1, 4, 4];
    let b = vec![2, 4];
    let merger = MergeIter::with_custom_ordering(src(a), src(b), Natural);
    assert_eq!(collect(merger), vec![1, 2, 4, 4, 4]);
}

#[test]
fn policies_compare_as_documented() {
    assert!(Order::<i32>::less(&Natural, &1, &2));
    assert!(!Order::<i32>::less(&Natural, &2, &2));
    assert!(Order::<i32>::less(&Reverse, &2, &1));
    assert!(!Order::<i32>::less(&Reverse, &1, &2));
}

#[test]
fn size_estimate_bounds_the_remaining_count() {
    let mut m = MergeIter::new(src(vec![1, 3, 5]), src(vec![2, 4]));
    let mut remaining = 5;
    loop {
        let (lo, hi) = m.size_hint();
        assert!(lo <= remaining);
        if let Some(hi) = hi {
            assert!(hi >= remaining);
        }
        assert_eq!((lo, hi), (remaining, Some(remaining)));
        match m.next() {
            Some(_) => remaining -= 1,
            None => break,
        }
    }
    assert_eq!(remaining, 0);
}

#[test]
fn size_estimate_of_nested_merge() {
    let inner = MergeIter::new(src(vec![1, 2]), src(vec![3]));
    let mut outer = MergeIter::new(inner, src(vec![0, 4]));
    assert_eq!(outer.size_hint(), (5, Some(5)));
    assert_eq!(outer.next(), Some(0));
    assert_eq!(outer.size_hint(), (4, Some(4)));
}

#[test]
fn vec_source_pulls_in_order() {
    let mut s = src(vec![10, 20]);
    assert_eq!(s.size_hint(), (2, Some(2)));
    assert_eq!(s.next(), Some(10));
    assert_eq!(s.next(), Some(20));
    assert_eq!(s.next(), None);
    assert_eq!(s.size_hint(), (0, Some(0)));
}

#[test]
fn size_estimate_counts_a_single_element() {
    let m = MergeIter::new(src(vec![1]), src(Vec::<i32>::new()));
    assert_eq!(m.size_hint(), (1, Some(1)));
}

#[test]
fn size_estimate_of_two_empty_sources() {
    let m = MergeIter::new(src(Vec::<i32>::new()), src(Vec::new()));
    assert_eq!(m.size_hint(), (0, Some(0)));
}

#[test]
fn size_estimate_counts_held_elements() {
    let mut m = MergeIter::new(src(vec![1, 5]), src(vec![2, 3, 4]));
    assert_eq!(m.next(), Some(1));
    // the right side's 2 is held in its slot; the left slot is empty
    assert_eq!(m.size_hint(), (4, Some(4)));
    assert_eq!(m.next(), Some(2));
    // now the left side's 5 is held
    assert_eq!(m.size_hint(), (3, Some(3)));
}

#[test]
fn the_side_not_emitted_keeps_its_element() {
    let mut m = MergeIter::new(src(vec![2, 9]), src(vec![5]));
    assert_eq!(m.next(), Some(2));
    assert_eq!(m.next(), Some(5));
    assert_eq!(m.next(), Some(9));
    assert_eq!(m.next(), None);
}
