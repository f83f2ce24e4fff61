use vector::kind::Kind;
use vector::schema::{Definition, Requirement, ValidationError, ValidationErrors};

struct TestCase {
    requirement: Requirement,
    definition: Definition,
    errors: Vec<ValidationError>,
}

#[test]
fn test_validate() {
    for (title, case) in vec![
        (
            "empty",
            TestCase {
                requirement: Requirement::empty(),
                definition: Definition::empty(),
                errors: vec![],
            },
        ),
        (
            "missing required meaning",
            TestCase {
                requirement: Requirement::empty().required_meaning("foo", Kind::any()),
                definition: Definition::empty(),
                errors: vec![ValidationError::MeaningMissing { identifier: "foo".into() }],
            },
        ),
        (
            "missing required meanings",
            TestCase {
                requirement: Requirement::empty()
                    .required_meaning("foo", Kind::any())
                    .required_meaning("bar", Kind::any()),
                definition: Definition::empty(),
                errors: vec![
                    ValidationError::MeaningMissing { identifier: "bar".into() },
                    ValidationError::MeaningMissing { identifier: "foo".into() },
                ],
            },
        ),
        (
            "missing optional meaning",
            TestCase {
                requirement: Requirement::empty().optional_meaning("foo", Kind::any()),
                definition: Definition::empty(),
                errors: vec![],
            },
        ),
        (
            "missing mixed meanings",
            TestCase {
                requirement: Requirement::empty()
                    .optional_meaning("foo", Kind::any())
                    .required_meaning("bar", Kind::any()),
                definition: Definition::empty(),
                errors: vec![ValidationError::MeaningMissing { identifier: "bar".into() }],
            },
        ),
        (
            "invalid required meaning kind",
            TestCase {
                requirement: Requirement::empty().required_meaning("foo", Kind::boolean()),
                definition: Definition::empty().with_field("foo", Kind::integer(), Some("foo")),
                errors: vec![ValidationError::MeaningKind {
                    identifier: "foo".into(),
                    want: Kind::boolean(),
                    got: Kind::integer(),
                }],
            },
        ),
        (
            "invalid optional meaning kind",
            TestCase {
                requirement: Requirement::empty().optional_meaning("foo", Kind::boolean()),
                definition: Definition::empty().with_field("foo", Kind::integer(), Some("foo")),
                errors: vec![ValidationError::MeaningKind {
                    identifier: "foo".into(),
                    want: Kind::boolean(),
                    got: Kind::integer(),
                }],
            },
        ),
        (
            "duplicate meaning pointers",
            TestCase {
                requirement: Requirement::empty().optional_meaning("foo", Kind::boolean()),
                definition: Definition::empty()
                    .with_field("foo", Kind::integer(), Some("foo"))
                    .merge(Definition::empty().with_field("bar", Kind::boolean(), Some("foo"))),
                errors: vec![ValidationError::MeaningDuplicate {
                    identifier: "foo".into(),
                    paths: vec!["bar".into(), "foo".into()],
                }],
            },
        ),
    ] {
        let got = case.requirement.validate(&case.definition);
        let want = if case.errors.is_empty() {
            Ok(())
        } else {
            Err(ValidationErrors::new(case.errors))
        };
        assert_eq!(got, want, "{}", title);
    }
}

#[test]
fn required_meaning_missing_vs_optional() {
    let definition = Definition::empty();

    let required = Requirement::empty().required_meaning("foo", Kind::any());
    let errors = required.validate(&definition).unwrap_err();
    assert_eq!(
        errors.errors().as_slice(),
        &[ValidationError::MeaningMissing { identifier: "foo".into() }],
    );
    assert!(errors.is_meaning_missing());
    assert!(!errors.is_meaning_kind());

    let optional = Requirement::empty().optional_meaning("foo", Kind::any());
    assert_eq!(optional.validate(&definition), Ok(()));
}

#[test]
fn required_meaning_kind_mismatch() {
    let definition = Definition::empty().with_field("foo", Kind::integer(), Some("foo"));
    let requirement = Requirement::empty().required_meaning("foo", Kind::boolean());
    let errors = requirement.validate(&definition).unwrap_err();
    assert_eq!(
        errors.errors().as_slice(),
        &[ValidationError::MeaningKind {
            identifier: "foo".into(),
            want: Kind::boolean(),
            got: Kind::integer(),
        }],
    );
    assert!(errors.is_meaning_kind());
    assert!(!errors.is_meaning_missing());
}

#[test]
fn duplicate_meaning_reported_once() {
    let definition = Definition::empty()
        .with_field("foo", Kind::integer(), Some("foo"))
        .merge(Definition::empty().with_field("bar", Kind::boolean(), Some("foo")));
    let requirement = Requirement::empty().optional_meaning("foo", Kind::boolean());
    let errors = requirement.validate(&definition).unwrap_err();
    assert_eq!(errors.errors().len(), 1);
    assert!(errors.errors()[0].is_meaning_duplicate());
    assert_eq!(
        errors.errors()[0],
        ValidationError::MeaningDuplicate {
            identifier: "foo".into(),
            paths: vec!["bar".into(), "foo".into()],
        },
    );
}

#[test]
fn superset_accepts_wider_requirement() {
    // A requirement of "any" accepts every concrete kind the definition
    // may produce.
    let definition = Definition::empty().with_field("foo", Kind::integer(), Some("foo"));
    let requirement = Requirement::empty().required_meaning("foo", Kind::any());
    assert_eq!(requirement.validate(&definition), Ok(()));

    // A union kind accepts each of its members.
    let want = Kind::integer().union(&Kind::float());
    assert!(want.is_superset(&Kind::integer()));
    assert!(!Kind::integer().is_superset(&want));
}

#[test]
fn replacing_a_meaning_keeps_one_entry() {
    // Requiring the same meaning twice keeps a single entry, with the
    // later kind.
    let requirement = Requirement::empty()
        .required_meaning("foo", Kind::boolean())
        .required_meaning("foo", Kind::integer());
    let definition = Definition::empty().with_field("foo", Kind::integer(), Some("foo"));
    assert_eq!(requirement.validate(&definition), Ok(()));
}
