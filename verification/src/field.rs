//! A single prompt line of a form.
//!
//! `FormField` validates its own text attributes (label and placeholder
//! lengths) on construction and on every setter, independent of the
//! validations of the owning form. Well-formedness is captured by
//! [`FormField::wf`], which the constructor establishes and every setter
//! preserves.

use vstd::prelude::*;
use vstd::string::StrSliceExecFns;

use crate::errors::ValueTooLong;
use crate::{FIELD_RESPONSE_MAX_LENGTH, LABEL_MAX_LENGTH, PLACEHOLDER_MAX_LENGTH};

verus! {

/// How a field collects its answer: a single line or a multi-line paragraph.
#[derive(Debug, Clone, Copy, PartialEq, Eq, Structural)]
pub enum FieldStyle {
    Short,
    Paragraph,
}

/// One prompt line: a short-answer input with a label, optional placeholder,
/// optional length bounds, and rendering flags.
pub struct FormField {
    pub name: String,
    pub style: FieldStyle,
    pub placeholder: Option<String>,
    pub min_length: Option<u16>,
    pub max_length: Option<u16>,
    pub required: bool,
    pub inline: bool,
}

impl FormField {
    /// The text attributes respect their length caps.
    pub open spec fn wf(&self) -> bool {
        &&& self.name@.len() <= LABEL_MAX_LENGTH
        &&& (self.placeholder matches Some(p) ==> p@.len() <= PLACEHOLDER_MAX_LENGTH)
    }

    /// Builds a field with the given label and style; every other attribute
    /// starts at its default. Fails exactly when the label is too long.
    pub fn new(name: String, style: FieldStyle) -> (r: Result<Self, ValueTooLong>)
        ensures
            r is Ok <==> name@.len() <= LABEL_MAX_LENGTH,
            r matches Ok(f) ==> {
                &&& f.name == name
                &&& f.style == style
                &&& f.placeholder is None
                &&& f.min_length is None
                &&& f.max_length is None
                &&& f.required
                &&& !f.inline
                &&& f.wf()
            },
    {
        if name.as_str().unicode_len() > LABEL_MAX_LENGTH {
            return Err(ValueTooLong);
        }
        Ok(FormField {
            name,
            style,
            placeholder: None,
            min_length: None,
            max_length: None,
            required: true,
            inline: false,
        })
    }

    /// Checks the length caps on the label and placeholder.
    pub fn is_wf(&self) -> (b: bool)
        ensures
            b == self.wf(),
    {
        let name_ok = self.name.as_str().unicode_len() <= LABEL_MAX_LENGTH;
        let placeholder_ok = match &self.placeholder {
            Some(p) => p.as_str().unicode_len() <= PLACEHOLDER_MAX_LENGTH,
            None => true,
        };
        name_ok && placeholder_ok
    }

    /// The field's label.
    pub fn name(&self) -> (r: &str)
        ensures
            r@ == self.name@,
    {
        self.name.as_str()
    }

    /// Replaces the label. Fails exactly when the new label is too long, and
    /// leaves the field unchanged on failure.
    pub fn set_name(&mut self, name: String) -> (r: Result<(), ValueTooLong>)
        ensures
            r is Ok <==> name@.len() <= LABEL_MAX_LENGTH,
            r is Ok ==> *final(self) == (FormField { name, ..*old(self) }),
            r is Err ==> *final(self) == *old(self),
    {
        if name.as_str().unicode_len() > LABEL_MAX_LENGTH {
            return Err(ValueTooLong);
        }
        self.name = name;
        Ok(())
    }

    /// The field's placeholder text, if any.
    pub fn placeholder(&self) -> (r: Option<&str>)
        ensures
            r is Some <==> self.placeholder is Some,
            r matches Some(p) ==> self.placeholder matches Some(q) && p@ == q@,
    {
        match &self.placeholder {
            Some(p) => Some(p.as_str()),
            None => None,
        }
    }

    /// Replaces or clears the placeholder. Fails exactly when the new
    /// placeholder is too long, and leaves the field unchanged on failure.
    pub fn set_placeholder(&mut self, placeholder: Option<String>) -> (r: Result<(), ValueTooLong>)
        ensures
            r is Ok <==> (placeholder matches Some(p) ==> p@.len() <= PLACEHOLDER_MAX_LENGTH),
            r is Ok ==> *final(self) == (FormField { placeholder, ..*old(self) }),
            r is Err ==> *final(self) == *old(self),
    {
        if let Some(p) = &placeholder {
            if p.as_str().unicode_len() > PLACEHOLDER_MAX_LENGTH {
                return Err(ValueTooLong);
            }
        }
        self.placeholder = placeholder;
        Ok(())
    }

    /// The prompt line this field contributes to the interactive prompt.
    pub fn prompt_field(&self) -> (r: PromptField)
        ensures
            is_prompt_of(r, *self),
    {
        PromptField {
            label: self.name.clone(),
            style: self.style,
            placeholder: match &self.placeholder {
                Some(p) => Some(p.clone()),
                None => None,
            },
            min_length: self.min_length,
            max_length: match self.max_length {
                Some(m) => m,
                None => FIELD_RESPONSE_MAX_LENGTH,
            },
            required: self.required,
        }
    }

    /// The line this field contributes to a composed result, pairing its
    /// label with the submitted answer and the field's layout flag.
    pub fn result_entry(&self, value: String) -> (r: ResultEntry)
        ensures
            r.label == self.name,
            r.value == value,
            r.inline == self.inline,
    {
        ResultEntry { label: self.name.clone(), value, inline: self.inline }
    }
}

impl Clone for FormField {
    fn clone(&self) -> (r: Self)
        ensures
            r == *self,
    {
        FormField {
            name: self.name.clone(),
            style: self.style,
            placeholder: match &self.placeholder {
                Some(p) => Some(p.clone()),
                None => None,
            },
            min_length: self.min_length,
            max_length: self.max_length,
            required: self.required,
            inline: self.inline,
        }
    }
}

/// One line of a prompt specification, mirroring the field it was built
/// from. When the field sets no maximum length of its own, the line carries
/// the overall response cap.
pub struct PromptField {
    pub label: String,
    pub style: FieldStyle,
    pub placeholder: Option<String>,
    pub min_length: Option<u16>,
    pub max_length: u16,
    pub required: bool,
}

/// The prompt line `p` mirrors the field `f`.
pub open spec fn is_prompt_of(p: PromptField, f: FormField) -> bool {
    &&& p.label@ == f.name@
    &&& p.style == f.style
    &&& (match f.placeholder {
        Some(t) => p.placeholder matches Some(q) && q@ == t@,
        None => p.placeholder is None,
    })
    &&& p.min_length == f.min_length
    &&& p.max_length == (match f.max_length {
        Some(m) => m,
        None => FIELD_RESPONSE_MAX_LENGTH,
    })
    &&& p.required == f.required
}

/// One line of a composed result: a field's label, the submitted answer,
/// and whether the line is laid out inline or as its own block.
pub struct ResultEntry {
    pub label: String,
    pub value: String,
    pub inline: bool,
}

} // verus!
