use formcore::errors::{AddFieldError, UserFriendlyError, ValueTooLong};
use formcore::field::{FieldStyle, FormField};
use formcore::form::{Form, FormId};
use formcore::mention::SerializableMention;

fn create_form() -> Form {
    let mut form = Form::new("My Title".to_owned(), 123).unwrap();
    form.add_field(FormField::new("Field 0".to_owned(), FieldStyle::Short).unwrap(), None).unwrap();
    form.add_field(FormField::new("Field 1".to_owned(), FieldStyle::Short).unwrap(), None).unwrap();
    form.add_field(FormField::new("Field 2".to_owned(), FieldStyle::Short).unwrap(), None).unwrap();
    form.add_field(FormField::new("Field 3".to_owned(), FieldStyle::Short).unwrap(), None).unwrap();
    form.add_field(FormField::new("Field 4".to_owned(), FieldStyle::Short).unwrap(), None).unwrap();
    form
}

fn field_names(form: &Form) -> Vec<&str> {
    form.fields().iter().map(|f| f.name()).collect()
}

#[test]
fn move_backward() {
    let mut form = create_form();
    assert!(form.move_field(4, 0).unwrap());
    assert_eq!(
        field_names(&form),
        ["Field 4", "Field 0", "Field 1", "Field 2", "Field 3"],
    );
}

#[test]
fn move_forward() {
    let mut form = create_form();
    assert!(form.move_field(0, 4).unwrap());
    assert_eq!(
        field_names(&form),
        ["Field 1", "Field 2", "Field 3", "Field 4", "Field 0"],
    );
}

#[test]
fn move_same() {
    let mut form = create_form();
    assert!(form.move_field(2, 2).unwrap());
    assert_eq!(
        field_names(&form),
        ["Field 0", "Field 1", "Field 2", "Field 3", "Field 4"],
    );
}

#[test]
fn move_too_far() {
    let mut form = create_form();
    assert_eq!(form.move_field(0, 10), Err(AddFieldError::IllegalAddBefore));
}

#[test]
fn move_out_of_bounds_index_reports_false() {
    let mut form = create_form();
    assert_eq!(form.move_field(7, 2), Ok(false));
    assert_eq!(
        field_names(&form),
        ["Field 0", "Field 1", "Field 2", "Field 3", "Field 4"],
    );
}

#[test]
fn add_sixth_field_fails_and_leaves_fields_unchanged() {
    let mut form = create_form();
    let extra = FormField::new("Field 5".to_owned(), FieldStyle::Short).unwrap();
    assert_eq!(form.add_field(extra, None), Err(AddFieldError::TooManyFields));
    assert_eq!(
        field_names(&form),
        ["Field 0", "Field 1", "Field 2", "Field 3", "Field 4"],
    );
}

#[test]
fn add_before_beyond_len_fails() {
    let mut form = Form::new("My Title".to_owned(), 123).unwrap();
    let field = FormField::new("A".to_owned(), FieldStyle::Short).unwrap();
    assert_eq!(
        form.add_field(field, Some(1)),
        Err(AddFieldError::IllegalAddBefore)
    );
    assert_eq!(form.fields().len(), 0);
}

#[test]
fn add_before_len_is_append() {
    let mut explicit = Form::new("My Title".to_owned(), 123).unwrap();
    let mut implicit = Form::new("My Title".to_owned(), 123).unwrap();
    for name in ["A", "B"] {
        let f = FormField::new(name.to_owned(), FieldStyle::Short).unwrap();
        explicit.add_field(f.clone(), None).unwrap();
        implicit.add_field(f, None).unwrap();
    }
    let c = FormField::new("C".to_owned(), FieldStyle::Paragraph).unwrap();
    explicit.add_field(c.clone(), Some(2)).unwrap();
    implicit.add_field(c, None).unwrap();
    assert_eq!(field_names(&explicit), field_names(&implicit));
    assert_eq!(field_names(&explicit), ["A", "B", "C"]);
}

#[test]
fn add_before_inserts_at_position() {
    let mut form = Form::new("My Title".to_owned(), 123).unwrap();
    form.add_field(FormField::new("A".to_owned(), FieldStyle::Short).unwrap(), None).unwrap();
    form.add_field(FormField::new("B".to_owned(), FieldStyle::Short).unwrap(), None).unwrap();
    form.add_field(FormField::new("C".to_owned(), FieldStyle::Short).unwrap(), Some(0)).unwrap();
    assert_eq!(field_names(&form), ["C", "A", "B"]);
}

#[test]
fn remove_field_out_of_bounds_is_noop() {
    let mut form = create_form();
    assert!(!form.remove_field(5));
    assert!(!form.remove_field(100));
    assert_eq!(
        field_names(&form),
        ["Field 0", "Field 1", "Field 2", "Field 3", "Field 4"],
    );
}

#[test]
fn remove_field_in_bounds() {
    let mut form = create_form();
    assert!(form.remove_field(1));
    assert_eq!(field_names(&form), ["Field 0", "Field 2", "Field 3", "Field 4"]);
}

#[test]
fn title_too_long_is_rejected() {
    assert!(Form::new("t".repeat(257), 1).is_err());
    let mut form = Form::new("t".repeat(256), 1).unwrap();
    assert!(form.set_title("u".repeat(257)).is_err());
    assert_eq!(form.title(), "t".repeat(256));
    form.set_title("ok".to_owned()).unwrap();
    assert_eq!(form.title(), "ok");
}

#[test]
fn description_too_long_is_rejected() {
    let mut form = Form::new("T".to_owned(), 1).unwrap();
    assert!(form.set_description(Some("d".repeat(4097))).is_err());
    assert_eq!(form.description(), None);
    form.set_description(Some("d".repeat(4096))).unwrap();
    assert_eq!(form.description(), Some("d".repeat(4096).as_str()));
    form.set_description(None).unwrap();
    assert_eq!(form.description(), None);
}

#[test]
fn field_name_too_long_is_rejected() {
    assert!(FormField::new("n".repeat(46), FieldStyle::Short).is_err());
    let mut field = FormField::new("n".repeat(45), FieldStyle::Short).unwrap();
    assert!(field.set_name("m".repeat(46)).is_err());
    assert_eq!(field.name(), "n".repeat(45));
    field.set_name("ok".to_owned()).unwrap();
    assert_eq!(field.name(), "ok");
}

#[test]
fn placeholder_too_long_is_rejected() {
    let mut field = FormField::new("f".to_owned(), FieldStyle::Short).unwrap();
    assert!(field.set_placeholder(Some("p".repeat(101))).is_err());
    assert_eq!(field.placeholder(), None);
    field.set_placeholder(Some("p".repeat(100))).unwrap();
    assert_eq!(field.placeholder(), Some("p".repeat(100).as_str()));
    field.set_placeholder(None).unwrap();
    assert_eq!(field.placeholder(), None);
}

#[test]
fn new_field_defaults() {
    let field = FormField::new("f".to_owned(), FieldStyle::Paragraph).unwrap();
    assert_eq!(field.style, FieldStyle::Paragraph);
    assert_eq!(field.placeholder(), None);
    assert_eq!(field.min_length, None);
    assert_eq!(field.max_length, None);
    assert!(field.required);
    assert!(!field.inline);
}

#[test]
fn cooldown_zero_is_normalized_to_none() {
    let mut form = Form::new("T".to_owned(), 1).unwrap();
    form.set_cooldown(Some(0));
    assert_eq!(form.cooldown(), None);
    form.set_cooldown(Some(90));
    assert_eq!(form.cooldown(), Some(90));
    form.set_cooldown(None);
    assert_eq!(form.cooldown(), None);
}

#[test]
fn replace_field_updates_in_place() {
    let mut form = create_form();
    let renamed = FormField::new("Renamed".to_owned(), FieldStyle::Paragraph).unwrap();
    assert!(form.replace_field(2, renamed));
    assert_eq!(
        field_names(&form),
        ["Field 0", "Field 1", "Renamed", "Field 3", "Field 4"],
    );
    let other = FormField::new("X".to_owned(), FieldStyle::Short).unwrap();
    assert!(!form.replace_field(5, other));
}

#[test]
fn quick_modal_mirrors_fields() {
    let mut form = Form::new("My Title".to_owned(), 123).unwrap();
    assert!(form.quick_modal().is_none());

    let mut field = FormField::new("Question".to_owned(), FieldStyle::Paragraph).unwrap();
    field.set_placeholder(Some("hint".to_owned())).unwrap();
    field.min_length = Some(2);
    field.required = false;
    form.add_field(field, None).unwrap();
    form.add_field(
        FormField::new("Bounded".to_owned(), FieldStyle::Short).unwrap(),
        None,
    )
    .unwrap();

    let prompt = form.quick_modal().unwrap();
    assert_eq!(prompt.title, "My Title");
    assert_eq!(prompt.timeout_seconds, 600);
    assert_eq!(prompt.fields.len(), 2);
    assert_eq!(prompt.fields[0].label, "Question");
    assert_eq!(prompt.fields[0].style, FieldStyle::Paragraph);
    assert_eq!(prompt.fields[0].placeholder.as_deref(), Some("hint"));
    assert_eq!(prompt.fields[0].min_length, Some(2));
    assert_eq!(prompt.fields[0].max_length, 1024);
    assert!(!prompt.fields[0].required);
    assert_eq!(prompt.fields[1].label, "Bounded");
    assert_eq!(prompt.fields[1].max_length, 1024);
    assert!(prompt.fields[1].required);
}

#[test]
fn quick_modal_carries_explicit_max_length() {
    let mut form = Form::new("T".to_owned(), 1).unwrap();
    let mut field = FormField::new("f".to_owned(), FieldStyle::Short).unwrap();
    field.min_length = Some(1);
    field.max_length = Some(64);
    form.add_field(field, None).unwrap();
    let prompt = form.quick_modal().unwrap();
    assert_eq!(prompt.fields[0].min_length, Some(1));
    assert_eq!(prompt.fields[0].max_length, 64);
}

#[test]
fn error_messages() {
    assert_eq!(ValueTooLong.message(), "field too long");
    assert_eq!(AddFieldError::TooManyFields.message(), "too many fields");
    assert_eq!(
        AddFieldError::IllegalAddBefore.message(),
        "illegal add-before target"
    );
    let e = UserFriendlyError::new("Form could not be found".to_owned());
    assert_eq!(e.message(), "Form could not be found");
}

#[test]
fn from_parts_round_trips_attributes() {
    let field = FormField::new("Q".to_owned(), FieldStyle::Short).unwrap();
    let form = Form::from_parts(
        FormId(7),
        "Stored".to_owned(),
        Some("desc".to_owned()),
        vec![field],
        99,
        Some(SerializableMention::User(3)),
        Some(60),
    )
    .unwrap();
    assert_eq!(form.id(), FormId(7));
    assert_eq!(form.title(), "Stored");
    assert_eq!(form.description(), Some("desc"));
    assert_eq!(form.destination(), 99);
    assert_eq!(form.mention(), Some(SerializableMention::User(3)));
    assert_eq!(form.cooldown(), Some(60));
    assert_eq!(form.fields().len(), 1);
}

#[test]
fn from_parts_revalidates_invariants() {
    let ok_field = FormField::new("Q".to_owned(), FieldStyle::Short).unwrap();
    let six = vec![
        ok_field.clone(),
        ok_field.clone(),
        ok_field.clone(),
        ok_field.clone(),
        ok_field.clone(),
        ok_field.clone(),
    ];
    assert!(Form::from_parts(FormId(1), "T".to_owned(), None, six, 1, None, None).is_none());
    assert!(
        Form::from_parts(FormId(1), "t".repeat(257), None, Vec::new(), 1, None, None).is_none()
    );
    assert!(Form::from_parts(
        FormId(1),
        "T".to_owned(),
        Some("d".repeat(4097)),
        Vec::new(),
        1,
        None,
        None
    )
    .is_none());
    let zero_cooldown =
        Form::from_parts(FormId(1), "T".to_owned(), None, Vec::new(), 1, None, Some(0)).unwrap();
    assert_eq!(zero_cooldown.cooldown(), None);
}
