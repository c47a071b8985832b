use formcore::field::{FieldStyle, FormField};
use formcore::form::{Form, FormRef};
use formcore::mention::SerializableMention;
use formcore::pipeline::{PipelineAction, PipelineState, Submission};

fn one_field_form() -> Form {
    let mut form = Form::new("Report".to_owned(), 555).unwrap();
    form.set_description(Some("Thanks for reporting".to_owned())).unwrap();
    form.set_mention(Some(SerializableMention::User(9)));
    form.set_cooldown(Some(30));
    let mut field = FormField::new("What happened?".to_owned(), FieldStyle::Paragraph).unwrap();
    field.inline = true;
    form.add_field(field, None).unwrap();
    form
}

#[test]
fn happy_path_dispatches_then_sets_cooldown() {
    let form = one_field_form();
    let form_ref = FormRef::new(1, form.id());
    let (mut sub, action) = Submission::start(form_ref, 42);
    assert!(matches!(action, PipelineAction::QueryCooldown));
    assert_eq!(sub.state(), PipelineState::CheckingCooldown);

    let action = sub.on_cooldown(None);
    assert!(matches!(action, PipelineAction::LoadForm));
    assert_eq!(sub.state(), PipelineState::CheckingForm);

    let action = sub.on_form(Some(form));
    match action {
        PipelineAction::CheckDestination { destination } => assert_eq!(destination, 555),
        _ => panic!("expected a destination check"),
    }

    let action = sub.on_destination(true);
    let prompt = match action {
        PipelineAction::ShowPrompt { prompt } => prompt,
        _ => panic!("expected the prompt"),
    };
    assert_eq!(sub.state(), PipelineState::Prompting);
    assert_eq!(prompt.title, "Report");
    assert_eq!(prompt.timeout_seconds, 600);
    assert_eq!(prompt.fields.len(), 1);
    assert_eq!(prompt.fields[0].label, "What happened?");

    let action = sub.on_prompt(Some(vec!["It broke".to_owned()]));
    assert_eq!(sub.state(), PipelineState::Collected);
    let message = match action {
        PipelineAction::Dispatch { destination, message } => {
            assert_eq!(destination, 555);
            message
        }
        _ => panic!("expected a dispatch"),
    };
    assert_eq!(message.mention, Some(SerializableMention::User(9)));
    assert_eq!(message.description.as_deref(), Some("Thanks for reporting"));
    assert_eq!(message.entries.len(), 1);
    assert_eq!(message.entries[0].label, "What happened?");
    assert_eq!(message.entries[0].value, "It broke");
    assert!(message.entries[0].inline);

    let action = sub.on_dispatch(true);
    assert_eq!(sub.state(), PipelineState::Dispatched);
    match action {
        PipelineAction::SetCooldown { duration } => assert_eq!(duration, 30),
        _ => panic!("expected the cooldown to be issued"),
    }
}

#[test]
fn positive_cooldown_blocks_before_anything_else() {
    let (mut sub, _) = Submission::start(FormRef::new(1, one_field_form().id()), 42);
    let action = sub.on_cooldown(Some(17));
    assert_eq!(sub.state(), PipelineState::Blocked);
    match action {
        PipelineAction::ReportBlocked { remaining } => assert_eq!(remaining, 17),
        _ => panic!("expected the blocked report"),
    }
}

#[test]
fn zero_remaining_is_not_a_cooldown() {
    let (mut sub, _) = Submission::start(FormRef::new(1, one_field_form().id()), 42);
    let action = sub.on_cooldown(Some(0));
    assert!(matches!(action, PipelineAction::LoadForm));
    assert_eq!(sub.state(), PipelineState::CheckingForm);
}

#[test]
fn missing_form_reports_not_found() {
    let (mut sub, _) = Submission::start(FormRef::new(1, one_field_form().id()), 42);
    sub.on_cooldown(None);
    let action = sub.on_form(None);
    assert!(matches!(action, PipelineAction::ReportNotFound));
    assert_eq!(sub.state(), PipelineState::NotFound);
}

#[test]
fn zero_field_form_is_misconfigured_and_never_dispatched() {
    let form = Form::new("Empty".to_owned(), 5).unwrap();
    assert!(form.quick_modal().is_none());
    let (mut sub, _) = Submission::start(FormRef::new(1, form.id()), 42);
    sub.on_cooldown(None);
    sub.on_form(Some(form));
    let action = sub.on_destination(true);
    assert!(matches!(action, PipelineAction::ReportMisconfigured));
    assert_eq!(sub.state(), PipelineState::Misconfigured);
}

#[test]
fn refused_destination_is_misconfigured() {
    let form = one_field_form();
    let (mut sub, _) = Submission::start(FormRef::new(1, form.id()), 42);
    sub.on_cooldown(None);
    sub.on_form(Some(form));
    let action = sub.on_destination(false);
    assert!(matches!(action, PipelineAction::ReportMisconfigured));
    assert_eq!(sub.state(), PipelineState::Misconfigured);
}

#[test]
fn cancelled_prompt_ends_without_cooldown() {
    let form = one_field_form();
    let (mut sub, _) = Submission::start(FormRef::new(1, form.id()), 42);
    sub.on_cooldown(None);
    sub.on_form(Some(form));
    sub.on_destination(true);
    let action = sub.on_prompt(None);
    assert!(matches!(action, PipelineAction::Finish));
    assert_eq!(sub.state(), PipelineState::Cancelled);
}

#[test]
fn failed_dispatch_surfaces_and_sets_no_cooldown() {
    let form = one_field_form();
    let (mut sub, _) = Submission::start(FormRef::new(1, form.id()), 42);
    sub.on_cooldown(None);
    sub.on_form(Some(form));
    sub.on_destination(true);
    sub.on_prompt(Some(vec!["answer".to_owned()]));
    let action = sub.on_dispatch(false);
    assert!(matches!(action, PipelineAction::ReportFailure));
    assert_eq!(sub.state(), PipelineState::Failed);
}

#[test]
fn dispatch_without_cooldown_just_finishes() {
    let mut form = one_field_form();
    form.set_cooldown(None);
    let (mut sub, _) = Submission::start(FormRef::new(1, form.id()), 42);
    sub.on_cooldown(None);
    sub.on_form(Some(form));
    sub.on_destination(true);
    sub.on_prompt(Some(vec!["answer".to_owned()]));
    let action = sub.on_dispatch(true);
    assert!(matches!(action, PipelineAction::Finish));
    assert_eq!(sub.state(), PipelineState::Dispatched);
}

#[test]
fn composed_message_pairs_fields_with_answers_in_order() {
    let mut form = Form::new("Pairs".to_owned(), 2).unwrap();
    form.add_field(FormField::new("First".to_owned(), FieldStyle::Short).unwrap(), None).unwrap();
    form.add_field(FormField::new("Second".to_owned(), FieldStyle::Short).unwrap(), None).unwrap();
    let (mut sub, _) = Submission::start(FormRef::new(1, form.id()), 42);
    sub.on_cooldown(None);
    sub.on_form(Some(form));
    sub.on_destination(true);
    let action = sub.on_prompt(Some(vec!["one".to_owned(), "two".to_owned()]));
    let message = match action {
        PipelineAction::Dispatch { message, .. } => message,
        _ => panic!("expected a dispatch"),
    };
    assert_eq!(message.mention, None);
    assert_eq!(message.description, None);
    assert_eq!(message.entries.len(), 2);
    assert_eq!(message.entries[0].label, "First");
    assert_eq!(message.entries[0].value, "one");
    assert_eq!(message.entries[1].label, "Second");
    assert_eq!(message.entries[1].value, "two");
}
