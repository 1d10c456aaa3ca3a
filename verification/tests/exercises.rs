use entropy_lab::get_exercise_list;

#[test]
fn test_exercise_list() {
    let exercises = get_exercise_list();
    assert_eq!(exercises.len(), 3);
    assert_eq!(exercises[0].name, "quantum");
    assert_eq!(exercises[1].name, "electromagnetic");
    assert_eq!(exercises[2].name, "temperature");
    for info in &exercises {
        assert_eq!(info.concepts.len(), 4);
        assert!(!info.description.is_empty());
    }
}
