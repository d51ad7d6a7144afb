use htn_backend::utils::partition_try;

#[test]
fn partition_try_splits_results() {
    let (ok, err) = partition_try(vec![1, 2, 3, 4, 5], |x: i32| if x % 2 == 0 { Ok(x * 10) } else { Err(x) });
    assert_eq!(ok, vec![20, 40]);
    assert_eq!(err, vec![1, 3, 5]);
}

#[test]
fn partition_try_empty() {
    let (ok, err) = partition_try(Vec::<i32>::new(), |x: i32| Ok::<i32, ()>(x));
    assert!(ok.is_empty());
    assert!(err.is_empty());
}
