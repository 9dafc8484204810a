use clinical_formats::util::{double_unwrap, join_name};

#[test]
fn test_join_names() {
    assert_eq!(
        join_name(&vec![None, Some("One".into()), None, Some("Two".into())]),
        "One Two".to_string(),
    )
}

#[test]
fn test_join_names_empty() {
    assert_eq!(join_name(&vec![]), "".to_string());
    assert_eq!(join_name(&vec![None, None]), "".to_string());
}

#[test]
fn test_join_names_single() {
    assert_eq!(join_name(&vec![Some("Only".into())]), "Only".to_string());
}

#[test]
fn test_join_names_three() {
    assert_eq!(
        join_name(&vec![Some("A".into()), Some("B".into()), Some("C".into())]),
        "A B C".to_string(),
    );
}

#[test]
fn test_double_unwrap() {
    let input: Vec<Option<String>> =
        vec![None, Some("x".into()), Some("y".into()), None, Some("z".into())];
    assert_eq!(
        double_unwrap(&input),
        vec!["x".to_string(), "y".to_string(), "z".to_string()]
    );
}

#[test]
fn test_double_unwrap_empty() {
    let input: Vec<Option<u32>> = vec![None, None];
    assert_eq!(double_unwrap(&input), Vec::<u32>::new());
}

#[test]
fn test_double_unwrap_numbers() {
    let input: Vec<Option<u32>> = vec![Some(3), None, Some(7)];
    assert_eq!(double_unwrap(&input), vec![3, 7]);
}
