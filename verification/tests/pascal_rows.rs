use geomalg::pascal::pascal_row;

#[test]
fn pascal_row_works() {
    assert_eq!(vec![1], pascal_row(0).collect_vec());
    assert_eq!(vec![1, 1], pascal_row(1).collect_vec());
    assert_eq!(vec![1, 2, 1], pascal_row(2).collect_vec());
    assert_eq!(vec![1, 3, 3, 1], pascal_row(3).collect_vec());
    assert_eq!(vec![1, 4, 6, 4, 1], pascal_row(4).collect_vec());
}

#[test]
fn pascal_row_next_walks_the_row() {
    let mut gen = pascal_row(4);
    assert_eq!(Some(1), gen.next());
    assert_eq!(Some(4), gen.next());
    assert_eq!(Some(6), gen.next());
    assert_eq!(Some(4), gen.next());
    assert_eq!(Some(1), gen.next());
    assert_eq!(None, gen.next());
    assert_eq!(None, gen.next());
}

#[test]
fn pascal_row_restarts_fresh() {
    assert_eq!(pascal_row(6).collect_vec(), pascal_row(6).collect_vec());
}

#[test]
fn row_sums_are_powers_of_two() {
    for n in 0..=10u64 {
        let row = pascal_row(n).collect_vec();
        assert_eq!((n + 1) as usize, row.len());
        let total: u64 = row.iter().sum();
        assert_eq!(1u64 << n, total);
    }
}

#[test]
fn large_row_stays_exact() {
    let row = pascal_row(20).collect_vec();
    assert_eq!(184756, row[10]);
    assert_eq!(row[3], row[17]);
}
