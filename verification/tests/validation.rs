use diffren::existing::ExistingPaths;
use diffren::validation::{
    keep_valid_renamings, validate_renaming, validate_renamings, validate_target_uniqueness,
    Renaming, Validation, ValidationError,
};

fn renaming(current: &str, target: &str) -> Renaming {
    (current.to_string(), target.to_string())
}

fn existing(paths: &[&str]) -> ExistingPaths {
    let mut existing = ExistingPaths::new();
    for path in paths {
        existing.insert(path.to_string());
    }
    existing
}

#[test]
fn existing_paths_know_what_was_inserted() {
    let observed = existing(&["a.txt", "dir/b.txt", ""]);
    assert!(observed.contains(&"a.txt".to_string()));
    assert!(observed.contains(&"dir/b.txt".to_string()));
    assert!(observed.contains(&"".to_string()));
    assert!(!observed.contains(&"b.txt".to_string()));
    assert!(!observed.contains(&"a.txt ".to_string()));
    assert!(!ExistingPaths::new().contains(&"a.txt".to_string()));
}

#[test]
fn a_free_target_for_an_existing_file_is_ok() {
    let batch = vec![renaming("a.txt", "b.txt")];
    let validation = validate_renaming(renaming("a.txt", "b.txt"), &batch, &existing(&["a.txt"]));
    assert_eq!(validation, Ok(renaming("a.txt", "b.txt")));
}

#[test]
fn same_current_and_target_is_unchanged() {
    let batch = vec![renaming("a.txt", "a.txt")];
    let validation = validate_renaming(renaming("a.txt", "a.txt"), &batch, &existing(&["a.txt"]));
    assert_eq!(validation, Err(ValidationError::Unchanged(renaming("a.txt", "a.txt"))));
}

#[test]
fn unchanged_whatever_the_file_system_holds() {
    let batch = vec![renaming("a.txt", "a.txt"), renaming("b.txt", "a.txt"), renaming("", "")];
    for observed in [existing(&[]), existing(&["a.txt"]), existing(&["b.txt"]), existing(&["", "a.txt", "b.txt"])] {
        assert_eq!(
            validate_renaming(renaming("a.txt", "a.txt"), &batch, &observed),
            Err(ValidationError::Unchanged(renaming("a.txt", "a.txt")))
        );
        assert_eq!(
            validate_renaming(renaming("", ""), &batch, &observed),
            Err(ValidationError::Unchanged(renaming("", "")))
        );
    }
}

#[test]
fn a_missing_file_is_reported() {
    let batch = vec![renaming("a.txt", "b.txt")];
    let validation = validate_renaming(renaming("a.txt", "b.txt"), &batch, &existing(&[]));
    assert_eq!(validation, Err(ValidationError::FileDoesntExist(renaming("a.txt", "b.txt"))));
}

#[test]
fn an_empty_current_path_that_exists_is_invalid() {
    let batch = vec![renaming("", "b.txt")];
    let validation = validate_renaming(renaming("", "b.txt"), &batch, &existing(&[""]));
    assert_eq!(validation, Err(ValidationError::InvalidCurrentPath(renaming("", "b.txt"))));
}

#[test]
fn an_empty_current_path_that_does_not_exist_is_a_missing_file() {
    let batch = vec![renaming("", "b.txt")];
    let validation = validate_renaming(renaming("", "b.txt"), &batch, &existing(&[]));
    assert_eq!(validation, Err(ValidationError::FileDoesntExist(renaming("", "b.txt"))));
}

#[test]
fn an_existing_target_is_reported() {
    let batch = vec![renaming("a.txt", "b.txt")];
    let validation =
        validate_renaming(renaming("a.txt", "b.txt"), &batch, &existing(&["a.txt", "b.txt"]));
    assert_eq!(validation, Err(ValidationError::TargetAlreadyExists(renaming("a.txt", "b.txt"))));
}

#[test]
fn an_empty_target_is_invalid() {
    let batch = vec![renaming("a.txt", "")];
    let validation = validate_renaming(renaming("a.txt", ""), &batch, &existing(&["a.txt"]));
    assert_eq!(validation, Err(ValidationError::InvalidTargetPath(renaming("a.txt", ""))));
}

#[test]
fn an_empty_target_that_exists_already_exists() {
    let batch = vec![renaming("a.txt", "")];
    let validation = validate_renaming(renaming("a.txt", ""), &batch, &existing(&["a.txt", ""]));
    assert_eq!(validation, Err(ValidationError::TargetAlreadyExists(renaming("a.txt", ""))));
}

#[test]
fn a_missing_file_comes_before_an_existing_target() {
    let batch = vec![renaming("a.txt", "b.txt"), renaming("c.txt", "b.txt")];
    let validation = validate_renaming(renaming("a.txt", "b.txt"), &batch, &existing(&["b.txt"]));
    assert_eq!(validation, Err(ValidationError::FileDoesntExist(renaming("a.txt", "b.txt"))));
}

#[test]
fn an_existing_target_comes_before_a_shared_target() {
    let batch = vec![renaming("a.txt", "x.txt"), renaming("b.txt", "x.txt")];
    let observed = existing(&["a.txt", "b.txt", "x.txt"]);
    let validation = validate_renaming(renaming("a.txt", "x.txt"), &batch, &observed);
    assert_eq!(validation, Err(ValidationError::TargetAlreadyExists(renaming("a.txt", "x.txt"))));
}

#[test]
fn an_empty_target_comes_before_a_shared_target() {
    let batch = vec![renaming("a.txt", ""), renaming("b.txt", "")];
    let observed = existing(&["a.txt", "b.txt"]);
    let (validations, changes, errors) = validate_renamings(batch, &observed);
    assert_eq!(
        validations,
        vec![
            Err(ValidationError::InvalidTargetPath(renaming("a.txt", ""))),
            Err(ValidationError::InvalidTargetPath(renaming("b.txt", ""))),
        ]
    );
    assert_eq!((changes, errors), (0, 2));
}

#[test]
fn a_shared_target_is_reported_with_its_count() {
    let batch = vec![renaming("a.txt", "x.txt"), renaming("b.txt", "x.txt")];
    let observed = existing(&["a.txt", "b.txt"]);
    let (validations, changes, errors) = validate_renamings(batch, &observed);
    assert_eq!(
        validations,
        vec![
            Err(ValidationError::SeveralTargetsAreTheSame(renaming("a.txt", "x.txt"), 2)),
            Err(ValidationError::SeveralTargetsAreTheSame(renaming("b.txt", "x.txt"), 2)),
        ]
    );
    assert_eq!((changes, errors), (0, 2));
}

#[test]
fn every_sharer_gets_the_total_count() {
    let batch = vec![
        renaming("a", "x"),
        renaming("b", "y"),
        renaming("c", "x"),
        renaming("d", "z"),
        renaming("e", "x"),
        renaming("f", "y"),
    ];
    let observed = existing(&["a", "b", "c", "d", "e", "f"]);
    let (validations, changes, errors) = validate_renamings(batch, &observed);
    assert_eq!(
        validations,
        vec![
            Err(ValidationError::SeveralTargetsAreTheSame(renaming("a", "x"), 3)),
            Err(ValidationError::SeveralTargetsAreTheSame(renaming("b", "y"), 2)),
            Err(ValidationError::SeveralTargetsAreTheSame(renaming("c", "x"), 3)),
            Ok(renaming("d", "z")),
            Err(ValidationError::SeveralTargetsAreTheSame(renaming("e", "x"), 3)),
            Err(ValidationError::SeveralTargetsAreTheSame(renaming("f", "y"), 2)),
        ]
    );
    assert_eq!((changes, errors), (1, 5));
}

#[test]
fn an_unchanged_line_counts_among_the_targets() {
    let batch = vec![renaming("x", "x"), renaming("a", "x")];
    let observed = existing(&["a"]);
    let (validations, changes, errors) = validate_renamings(batch, &observed);
    assert_eq!(
        validations,
        vec![
            Err(ValidationError::Unchanged(renaming("x", "x"))),
            Err(ValidationError::SeveralTargetsAreTheSame(renaming("a", "x"), 2)),
        ]
    );
    assert_eq!((changes, errors), (0, 1));
}

#[test]
fn target_uniqueness_counts_the_whole_batch() {
    let batch = vec![renaming("a", "x"), renaming("b", "y"), renaming("c", "x"), renaming("x", "x")];
    assert_eq!(validate_target_uniqueness(&"x".to_string(), &batch), Err(3));
    assert_eq!(validate_target_uniqueness(&"y".to_string(), &batch), Ok(()));
    assert_eq!(validate_target_uniqueness(&"z".to_string(), &batch), Ok(()));
    assert_eq!(validate_target_uniqueness(&"a".to_string(), &batch), Ok(()));
    assert_eq!(validate_target_uniqueness(&"x".to_string(), &Vec::new()), Ok(()));
}

#[test]
fn unchanged_is_no_error_and_no_change() {
    let batch = vec![renaming("a.txt", "a.txt"), renaming("b.txt", "b.txt")];
    let (validations, changes, errors) = validate_renamings(batch, &existing(&["a.txt", "b.txt"]));
    assert_eq!(
        validations,
        vec![
            Err(ValidationError::Unchanged(renaming("a.txt", "a.txt"))),
            Err(ValidationError::Unchanged(renaming("b.txt", "b.txt"))),
        ]
    );
    assert_eq!(changes, 0);
    assert_eq!(errors, 0);
}

fn mixed_batch() -> Vec<Renaming> {
    vec![
        renaming("keep", "keep"),
        renaming("ok1", "new1"),
        renaming("missing", "new2"),
        renaming("", "new3"),
        renaming("ok2", "taken"),
        renaming("ok3", ""),
        renaming("ok4", "twice"),
        renaming("ok5", "twice"),
        renaming("ok6", "new6"),
    ]
}

fn mixed_existing() -> ExistingPaths {
    existing(&["keep", "ok1", "", "ok2", "taken", "ok3", "ok4", "ok5", "ok6"])
}

#[test]
fn a_batch_of_many_outcomes() {
    let (validations, changes, errors) = validate_renamings(mixed_batch(), &mixed_existing());
    assert_eq!(
        validations,
        vec![
            Err(ValidationError::Unchanged(renaming("keep", "keep"))),
            Ok(renaming("ok1", "new1")),
            Err(ValidationError::FileDoesntExist(renaming("missing", "new2"))),
            Err(ValidationError::InvalidCurrentPath(renaming("", "new3"))),
            Err(ValidationError::TargetAlreadyExists(renaming("ok2", "taken"))),
            Err(ValidationError::TargetAlreadyExists(renaming("ok3", ""))),
            Err(ValidationError::SeveralTargetsAreTheSame(renaming("ok4", "twice"), 2)),
            Err(ValidationError::SeveralTargetsAreTheSame(renaming("ok5", "twice"), 2)),
            Ok(renaming("ok6", "new6")),
        ]
    );
    assert_eq!(changes, 2);
    assert_eq!(errors, 6);
}

#[test]
fn counts_are_those_of_the_outcomes() {
    let (validations, changes, errors) = validate_renamings(mixed_batch(), &mixed_existing());
    let oks = validations.iter().filter(|validation| validation.is_ok()).count();
    let blocking = validations
        .iter()
        .filter(|validation| {
            !matches!(validation, Ok(_) | Err(ValidationError::Unchanged(_)))
        })
        .count();
    assert_eq!(changes as usize, oks);
    assert_eq!(errors as usize, blocking);
}

#[test]
fn validating_twice_gives_the_same() {
    let first = validate_renamings(mixed_batch(), &mixed_existing());
    let second = validate_renamings(mixed_batch(), &mixed_existing());
    assert_eq!(first, second);
}

#[test]
fn validating_an_empty_batch() {
    let (validations, changes, errors) = validate_renamings(Vec::new(), &existing(&["a"]));
    assert_eq!(validations, Vec::<Validation>::new());
    assert_eq!((changes, errors), (0, 0));
}

#[test]
fn paths_are_compared_letter_by_letter() {
    let batch = vec![renaming("a.txt", "A.txt"), renaming("b.txt", "a.txt ")];
    let (validations, changes, errors) = validate_renamings(batch, &existing(&["a.txt", "b.txt"]));
    assert_eq!(
        validations,
        vec![Ok(renaming("a.txt", "A.txt")), Ok(renaming("b.txt", "a.txt "))]
    );
    assert_eq!((changes, errors), (2, 0));
}

#[test]
fn only_valid_renamings_are_kept() {
    let (validations, _, _) = validate_renamings(mixed_batch(), &mixed_existing());
    assert_eq!(
        keep_valid_renamings(validations),
        vec![renaming("ok1", "new1"), renaming("ok6", "new6")]
    );
}

#[test]
fn nothing_is_kept_of_errors_alone() {
    let validations = vec![
        Err(ValidationError::Unchanged(renaming("a", "a"))),
        Err(ValidationError::FileDoesntExist(renaming("b", "c"))),
    ];
    assert_eq!(keep_valid_renamings(validations), Vec::<Renaming>::new());
    assert_eq!(keep_valid_renamings(Vec::new()), Vec::<Renaming>::new());
}

#[test]
fn valid_renamings_keep_their_order() {
    let validations = vec![
        Ok(renaming("z", "1")),
        Err(ValidationError::Unchanged(renaming("a", "a"))),
        Ok(renaming("y", "2")),
        Ok(renaming("x", "3")),
    ];
    assert_eq!(
        keep_valid_renamings(validations),
        vec![renaming("z", "1"), renaming("y", "2"), renaming("x", "3")]
    );
}
