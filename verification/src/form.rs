//! The form aggregate: an ordered sequence of fields plus the settings that
//! govern where and how submissions are published.
//!
//! Structural invariants — title and description length caps, the field
//! capacity, and cooldown normalization — are captured by [`Form::wf`],
//! which the constructor establishes and every mutation preserves. The
//! mathematical model of a form is [`FormView`], reached through `@`.

use vstd::prelude::*;
use vstd::string::StrSliceExecFns;

use crate::errors::{AddFieldError, ValueTooLong};
use crate::field::{is_prompt_of, FormField, PromptField};
use crate::mention::SerializableMention;

verus! {

/// Largest number of characters a form title may hold.
pub const TITLE_MAX_LENGTH: usize = 256;

/// Largest number of characters a form description may hold.
pub const DESCRIPTION_MAX_LENGTH: usize = 4096;

/// Largest number of fields a form may hold.
pub const MAX_FIELDS: usize = 5;

/// How long the interactive prompt waits for a submission, in seconds.
pub const PROMPT_TIMEOUT_SECONDS: u64 = 600;

/// Opaque unique identifier of a form, assigned at creation and never
/// reused.
#[derive(Debug, Clone, Copy, PartialEq, Eq, Structural)]
pub struct FormId(pub u128);

/// Relies on `uuid::Uuid::new_v4` to draw a fresh random identifier from
/// the operating system's randomness; nothing is promised of its value.
#[verifier::external_body]
fn fresh_form_id() -> FormId {
    FormId(uuid::Uuid::new_v4().as_u128())
}

/// A form named together with the workspace it belongs to.
#[derive(Debug, Clone, Copy, PartialEq, Eq, Structural)]
pub struct FormRef {
    pub guild_id: u64,
    pub form_id: FormId,
}

impl FormRef {
    pub fn new(guild_id: u64, form_id: FormId) -> (r: Self)
        ensures
            r == (FormRef { guild_id, form_id }),
    {
        FormRef { guild_id, form_id }
    }
}

/// The mathematical model of a form: every attribute as a plain value.
pub ghost struct FormView {
    pub id: FormId,
    pub title: Seq<char>,
    pub description: Option<Seq<char>>,
    pub fields: Seq<FormField>,
    pub destination: u64,
    pub mention: Option<SerializableMention>,
    pub cooldown: Option<u64>,
}

/// The aggregate root: an admin-defined, ordered set of input fields plus
/// destination, notification, and rate-limit settings.
pub struct Form {
    id: FormId,
    title: String,
    description: Option<String>,
    fields: Vec<FormField>,
    destination: u64,
    mention: Option<SerializableMention>,
    cooldown: Option<u64>,
}

impl View for Form {
    type V = FormView;

    closed spec fn view(&self) -> FormView {
        FormView {
            id: self.id,
            title: self.title@,
            description: match self.description {
                Some(d) => Some(d@),
                None => None,
            },
            fields: self.fields@,
            destination: self.destination,
            mention: self.mention,
            cooldown: self.cooldown,
        }
    }
}

/// Where a new field ends up: the requested position, or the end of the
/// sequence when no position was requested.
pub open spec fn insert_position(add_before: Option<usize>, len: nat) -> int {
    match add_before {
        Some(i) => i as int,
        None => len as int,
    }
}

/// The field sequence after the field at `index` is taken out and put back
/// so that it ends up at position `destination` of the result.
pub open spec fn spec_moved(s: Seq<FormField>, index: int, destination: int) -> Seq<FormField>
    recommends
        0 <= index < s.len(),
        0 <= destination < s.len(),
{
    s.remove(index).insert(destination, s[index])
}

impl Form {
    /// The structural invariants of the aggregate: length caps, the field
    /// capacity, well-formed fields, and a normalized cooldown.
    pub open spec fn wf(&self) -> bool {
        &&& self@.title.len() <= TITLE_MAX_LENGTH
        &&& (self@.description matches Some(d) ==> d.len() <= DESCRIPTION_MAX_LENGTH)
        &&& self@.fields.len() <= MAX_FIELDS
        &&& (forall|i: int| 0 <= i < self@.fields.len() ==> (#[trigger] self@.fields[i]).wf())
        &&& (self@.cooldown matches Some(s) ==> s > 0)
    }

    /// Creates a form with a fresh identifier, no fields, and no optional
    /// settings. Fails exactly when the title is too long.
    pub fn new(title: String, destination: u64) -> (r: Result<Self, ValueTooLong>)
        ensures
            r is Ok <==> title@.len() <= TITLE_MAX_LENGTH,
            r matches Ok(f) ==> {
                &&& f.wf()
                &&& f@.title == title@
                &&& f@.description is None
                &&& f@.fields == Seq::<FormField>::empty()
                &&& f@.destination == destination
                &&& f@.mention is None
                &&& f@.cooldown is None
            },
    {
        if title.as_str().unicode_len() > TITLE_MAX_LENGTH {
            return Err(ValueTooLong);
        }
        Ok(Form {
            id: fresh_form_id(),
            title,
            description: None,
            fields: Vec::new(),
            destination,
            mention: None,
            cooldown: None,
        })
    }

    /// Reassembles a form from stored attributes — the persistence path
    /// back from a serialized copy — revalidating every structural
    /// invariant and normalizing a zero cooldown. Returns nothing exactly
    /// when a length cap, the field capacity, or a field's own caps are
    /// violated.
    pub fn from_parts(
        id: FormId,
        title: String,
        description: Option<String>,
        fields: Vec<FormField>,
        destination: u64,
        mention: Option<SerializableMention>,
        cooldown: Option<u64>,
    ) -> (r: Option<Form>)
        ensures
            r is Some <==> {
                &&& title@.len() <= TITLE_MAX_LENGTH
                &&& (description matches Some(d) ==> d@.len() <= DESCRIPTION_MAX_LENGTH)
                &&& fields@.len() <= MAX_FIELDS
                &&& (forall|i: int| 0 <= i < fields@.len() ==> (#[trigger] fields@[i]).wf())
            },
            r matches Some(f) ==> {
                &&& f.wf()
                &&& f@ == (FormView {
                    id,
                    title: title@,
                    description: (match description {
                        Some(d) => Some(d@),
                        None => None::<Seq<char>>,
                    }),
                    fields: fields@,
                    destination,
                    mention,
                    cooldown: (if cooldown matches Some(s) && s > 0 {
                        cooldown
                    } else {
                        None::<u64>
                    }),
                })
            },
    {
        if title.as_str().unicode_len() > TITLE_MAX_LENGTH {
            return None;
        }
        if let Some(d) = &description {
            if d.as_str().unicode_len() > DESCRIPTION_MAX_LENGTH {
                return None;
            }
        }
        if fields.len() > MAX_FIELDS {
            return None;
        }
        let mut i: usize = 0;
        while i < fields.len()
            invariant
                i <= fields@.len(),
                forall|j: int| 0 <= j < i ==> (#[trigger] fields@[j]).wf(),
            decreases fields@.len() - i,
        {
            if !fields[i].is_wf() {
                return None;
            }
            i += 1;
        }
        Some(Form {
            id,
            title,
            description,
            fields,
            destination,
            mention,
            cooldown: match cooldown {
                Some(s) => if s > 0 {
                    Some(s)
                } else {
                    None
                },
                None => None,
            },
        })
    }

    /// The form's identifier.
    pub fn id(&self) -> (r: FormId)
        ensures
            r == self@.id,
    {
        self.id
    }

    /// The form's title.
    pub fn title(&self) -> (r: &str)
        ensures
            r@ == self@.title,
    {
        self.title.as_str()
    }

    /// Replaces the title. Fails exactly when the new title is too long,
    /// and leaves the form unchanged on failure.
    pub fn set_title(&mut self, title: String) -> (r: Result<(), ValueTooLong>)
        requires
            old(self).wf(),
        ensures
            final(self).wf(),
            r is Ok <==> title@.len() <= TITLE_MAX_LENGTH,
            r is Ok ==> final(self)@ == (FormView { title: title@, ..old(self)@ }),
            r is Err ==> *final(self) == *old(self),
    {
        if title.as_str().unicode_len() > TITLE_MAX_LENGTH {
            return Err(ValueTooLong);
        }
        self.title = title;
        Ok(())
    }

    /// The form's title as an owned string.
    pub fn title_string(&self) -> (r: String)
        ensures
            r@ == self@.title,
    {
        self.title.clone()
    }

    /// Consumes the form, yielding its field sequence.
    pub fn into_fields(self) -> (r: Vec<FormField>)
        ensures
            r@ == self@.fields,
    {
        self.fields
    }

    /// The text prefixed to every published result, if any.
    pub fn description(&self) -> (r: Option<&str>)
        ensures
            r is Some <==> self@.description is Some,
            r matches Some(d) ==> self@.description == Some(d@),
    {
        match &self.description {
            Some(d) => Some(d.as_str()),
            None => None,
        }
    }

    /// Replaces or clears the description. Fails exactly when the new
    /// description is too long, and leaves the form unchanged on failure.
    pub fn set_description(&mut self, description: Option<String>) -> (r: Result<(), ValueTooLong>)
        requires
            old(self).wf(),
        ensures
            final(self).wf(),
            r is Ok <==> (description matches Some(d) ==> d@.len() <= DESCRIPTION_MAX_LENGTH),
            r is Ok ==> final(self)@ == (FormView {
                description: (match description {
                    Some(d) => Some(d@),
                    None => None::<Seq<char>>,
                }),
                ..old(self)@
            }),
            r is Err ==> *final(self) == *old(self),
    {
        if let Some(d) = &description {
            if d.as_str().unicode_len() > DESCRIPTION_MAX_LENGTH {
                return Err(ValueTooLong);
            }
        }
        self.description = description;
        Ok(())
    }

    /// How long users must wait between accepted submissions, in seconds.
    pub fn cooldown(&self) -> (r: Option<u64>)
        ensures
            r == self@.cooldown,
    {
        self.cooldown
    }

    /// Replaces or clears the cooldown; a zero duration is normalized to
    /// "no cooldown". Cannot fail.
    pub fn set_cooldown(&mut self, cooldown: Option<u64>)
        requires
            old(self).wf(),
        ensures
            final(self).wf(),
            final(self)@ == (FormView {
                cooldown: (if cooldown matches Some(s) && s > 0 {
                    cooldown
                } else {
                    None::<u64>
                }),
                ..old(self)@
            }),
    {
        self.cooldown = match cooldown {
            Some(s) => if s > 0 {
                Some(s)
            } else {
                None
            },
            None => None,
        };
    }

    /// The channel under which private sub-conversations are created.
    pub fn destination(&self) -> (r: u64)
        ensures
            r == self@.destination,
    {
        self.destination
    }

    /// Points the form at another destination channel.
    pub fn set_destination(&mut self, destination: u64)
        requires
            old(self).wf(),
        ensures
            final(self).wf(),
            final(self)@ == (FormView { destination, ..old(self)@ }),
    {
        self.destination = destination;
    }

    /// Who is announced in every published result, if anyone.
    pub fn mention(&self) -> (r: Option<SerializableMention>)
        ensures
            r == self@.mention,
    {
        self.mention
    }

    /// Replaces or clears who is announced in published results.
    pub fn set_mention(&mut self, mention: Option<SerializableMention>)
        requires
            old(self).wf(),
        ensures
            final(self).wf(),
            final(self)@ == (FormView { mention, ..old(self)@ }),
    {
        self.mention = mention;
    }

    /// The ordered field sequence.
    pub fn fields(&self) -> (r: &Vec<FormField>)
        ensures
            r@ == self@.fields,
    {
        &self.fields
    }

    /// The field at `index`, if the index is in bounds.
    pub fn get_field(&self, index: usize) -> (r: Option<&FormField>)
        ensures
            r is Some <==> index < self@.fields.len(),
            r matches Some(f) ==> *f == self@.fields[index as int],
    {
        if index < self.fields.len() {
            Some(&self.fields[index])
        } else {
            None
        }
    }

    /// Adds a field. Fails with `TooManyFields` once the capacity is
    /// reached, and with `IllegalAddBefore` when the requested position
    /// lies beyond the sequence; a position equal to the current length, or
    /// no position at all, appends. The form is unchanged on failure.
    pub fn add_field(&mut self, field: FormField, add_before: Option<usize>) -> (r: Result<
        (),
        AddFieldError,
    >)
        requires
            old(self).wf(),
            field.wf(),
        ensures
            final(self).wf(),
            r is Ok <==> (old(self)@.fields.len() < MAX_FIELDS && (add_before matches Some(i)
                ==> i <= old(self)@.fields.len())),
            r is Ok ==> final(self)@ == (FormView {
                fields: old(self)@.fields.insert(
                    insert_position(add_before, old(self)@.fields.len()),
                    field,
                ),
                ..old(self)@
            }),
            match r {
                Ok(()) => true,
                Err(e) => {
                    &&& *final(self) == *old(self)
                    &&& (e is TooManyFields <==> old(self)@.fields.len() >= MAX_FIELDS)
                    &&& (e is IllegalAddBefore ==> (add_before matches Some(i) && i > old(
                        self,
                    )@.fields.len()))
                },
            },
    {
        if self.fields.len() >= MAX_FIELDS {
            return Err(AddFieldError::TooManyFields);
        }
        if let Some(i) = add_before {
            if i > self.fields.len() {
                return Err(AddFieldError::IllegalAddBefore);
            }
            self.fields.insert(i, field);
        } else {
            proof {
                lemma_add_before_len_is_append(self.fields@, field);
            }
            self.fields.push(field);
        }
        Ok(())
    }

    /// Removes the field at `index`. An out-of-bounds index is a no-op that
    /// reports `false` rather than an error.
    pub fn remove_field(&mut self, index: usize) -> (r: bool)
        requires
            old(self).wf(),
        ensures
            final(self).wf(),
            r <==> index < old(self)@.fields.len(),
            r ==> final(self)@ == (FormView {
                fields: old(self)@.fields.remove(index as int),
                ..old(self)@
            }),
            !r ==> *final(self) == *old(self),
    {
        if index < self.fields.len() {
            self.fields.remove(index);
            true
        } else {
            false
        }
    }

    /// Replaces the field at `index` with `field`. An out-of-bounds index
    /// is a no-op that reports `false`.
    pub fn replace_field(&mut self, index: usize, field: FormField) -> (r: bool)
        requires
            old(self).wf(),
            field.wf(),
        ensures
            final(self).wf(),
            r <==> index < old(self)@.fields.len(),
            r ==> final(self)@ == (FormView {
                fields: old(self)@.fields.update(index as int, field),
                ..old(self)@
            }),
            !r ==> *final(self) == *old(self),
    {
        if index < self.fields.len() {
            self.fields.remove(index);
            self.fields.insert(index, field);
            proof {
                assert(old(self)@.fields.remove(index as int).insert(index as int, field)
                    =~= old(self)@.fields.update(index as int, field));
            }
            true
        } else {
            false
        }
    }

    /// Takes the field at `index` out and puts it back so that it ends up
    /// at position `destination`. Reports `Ok(false)` when `index` is out
    /// of bounds, fails with `IllegalAddBefore` when `destination` is, and
    /// reports `Ok(true)` otherwise — also when the move is a no-op. The
    /// form is unchanged except on the `Ok(true)` path.
    pub fn move_field(&mut self, index: usize, destination: usize) -> (r: Result<
        bool,
        AddFieldError,
    >)
        requires
            old(self).wf(),
        ensures
            final(self).wf(),
            match r {
                Ok(moved) => if moved {
                    &&& index < old(self)@.fields.len()
                    &&& destination < old(self)@.fields.len()
                    &&& final(self)@ == (FormView {
                        fields: spec_moved(old(self)@.fields, index as int, destination as int),
                        ..old(self)@
                    })
                } else {
                    &&& index >= old(self)@.fields.len()
                    &&& *final(self) == *old(self)
                },
                Err(e) => {
                    &&& e is IllegalAddBefore
                    &&& index < old(self)@.fields.len()
                    &&& destination >= old(self)@.fields.len()
                    &&& *final(self) == *old(self)
                },
            },
    {
        if index >= self.fields.len() {
            return Ok(false);
        }
        if destination >= self.fields.len() {
            return Err(AddFieldError::IllegalAddBefore);
        }
        proof {
            lemma_moved_preserves_wf(self.fields@, index as int, destination as int);
        }
        let field = self.fields.remove(index);
        self.fields.insert(destination, field);
        Ok(true)
    }

    /// The interactive prompt for this form: nothing when the form has no
    /// fields (such a form cannot be shown), otherwise one prompt line per
    /// field in field order, under the fixed collection timeout.
    pub fn quick_modal(&self) -> (r: Option<PromptSpec>)
        ensures
            r is Some <==> self@.fields.len() > 0,
            r matches Some(p) ==> {
                &&& p.title@ == self@.title
                &&& p.timeout_seconds == PROMPT_TIMEOUT_SECONDS
                &&& p.fields@.len() == self@.fields.len()
                &&& (forall|i: int| 0 <= i < p.fields@.len() ==> is_prompt_of(
                    #[trigger] p.fields@[i],
                    self@.fields[i],
                ))
            },
    {
        if self.fields.len() == 0 {
            return None;
        }
        let mut lines: Vec<PromptField> = Vec::new();
        let mut i: usize = 0;
        while i < self.fields.len()
            invariant
                i <= self.fields.len(),
                lines@.len() == i,
                forall|j: int| 0 <= j < i ==> is_prompt_of(#[trigger] lines@[j], self.fields@[j]),
            decreases self.fields.len() - i,
        {
            lines.push(self.fields[i].prompt_field());
            i += 1;
        }
        Some(PromptSpec {
            title: self.title.clone(),
            timeout_seconds: PROMPT_TIMEOUT_SECONDS,
            fields: lines,
        })
    }
}

impl Clone for Form {
    fn clone(&self) -> (r: Self)
        ensures
            r@ == self@,
    {
        let mut fields: Vec<FormField> = Vec::new();
        let mut i: usize = 0;
        while i < self.fields.len()
            invariant
                i <= self.fields.len(),
                fields@.len() == i,
                forall|j: int| 0 <= j < i ==> fields@[j] == self.fields@[j],
            decreases self.fields.len() - i,
        {
            fields.push(self.fields[i].clone());
            i += 1;
        }
        proof {
            assert(fields@ =~= self.fields@);
        }
        Form {
            id: self.id,
            title: self.title.clone(),
            description: match &self.description {
                Some(d) => Some(d.clone()),
                None => None,
            },
            fields,
            destination: self.destination,
            mention: self.mention,
            cooldown: self.cooldown,
        }
    }
}

/// An ordered prompt specification: what the platform needs to present the
/// interactive multi-field prompt for a form.
pub struct PromptSpec {
    pub title: String,
    pub timeout_seconds: u64,
    pub fields: Vec<PromptField>,
}

/// Taking a field out and putting it back keeps the sequence's length and
/// leaves every position holding a well-formed field.
proof fn lemma_moved_preserves_wf(s: Seq<FormField>, index: int, destination: int)
    requires
        0 <= index < s.len(),
        0 <= destination < s.len(),
        forall|i: int| 0 <= i < s.len() ==> (#[trigger] s[i]).wf(),
    ensures
        spec_moved(s, index, destination).len() == s.len(),
        forall|i: int| 0 <= i < s.len() ==> (#[trigger] spec_moved(s, index, destination)[i]).wf(),
{
    let removed = s.remove(index);
    assert forall|i: int| 0 <= i < removed.len() implies (#[trigger] removed[i]).wf() by {
        if i < index {
            assert(removed[i] == s[i]);
        } else {
            assert(removed[i] == s[i + 1]);
        }
    }
    let moved = spec_moved(s, index, destination);
    assert forall|i: int| 0 <= i < s.len() implies (#[trigger] moved[i]).wf() by {
        if i < destination {
            assert(moved[i] == removed[i]);
        } else if i == destination {
            assert(moved[i] == s[index]);
        } else {
            assert(moved[i] == removed[i - 1]);
        }
    }
}

/// Inserting before a position equal to the sequence's length is the same
/// as appending at the end.
pub proof fn lemma_add_before_len_is_append(s: Seq<FormField>, field: FormField)
    ensures
        s.insert(s.len() as int, field) == s.push(field),
{
    assert(s.insert(s.len() as int, field) =~= s.push(field));
}

/// Moving the last of five fields to the front rotates the sequence right;
/// moving the first to the last position rotates it left.
pub proof fn lemma_move_field_rotations(s: Seq<FormField>)
    requires
        s.len() == 5,
    ensures
        spec_moved(s, 4, 0) == seq![s[4], s[0], s[1], s[2], s[3]],
        spec_moved(s, 0, 4) == seq![s[1], s[2], s[3], s[4], s[0]],
{
    assert(spec_moved(s, 4, 0) =~= seq![s[4], s[0], s[1], s[2], s[3]]);
    assert(spec_moved(s, 0, 4) =~= seq![s[1], s[2], s[3], s[4], s[0]]);
}

/// Moving a field to its own current position leaves the sequence
/// unchanged.
pub proof fn lemma_move_field_to_same_position(s: Seq<FormField>, i: int)
    requires
        0 <= i < s.len(),
    ensures
        spec_moved(s, i, i) == s,
{
    assert(spec_moved(s, i, i) =~= s);
}

} // verus!
