use roan::methods::vecs::{vec_len, vec_next, vec_push};

#[test]
fn test_vec_len() {
    let vec = vec![1i64, 2, 3];
    assert_eq!(vec_len(&vec), 3);
}

#[test]
fn test_vec_next() {
    let vec = vec![1i64, 2, 3];
    assert_eq!(vec_next(vec.clone()), vec![2, 3]);
}

#[test]
fn test_vec_push() {
    let vec = vec![1i64, 2, 3];
    assert_eq!(vec_push(vec.clone(), 4), vec![1, 2, 3, 4]);
}

#[test]
fn next_of_empty_is_empty() {
    let empty: Vec<i64> = Vec::new();
    assert_eq!(vec_next(empty), Vec::<i64>::new());
    assert_eq!(vec_len(&Vec::<String>::new()), 0);
}
