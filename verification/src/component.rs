//! The properties object handed to a custom component callback.
//!
//! One [`MdComponentProps`] is built per custom-tag occurrence: the raw
//! attribute pairs exactly as written in the source tag, the children of the
//! tag already rendered, and typed readings of single attributes.  A typed
//! reading that fails is a recoverable error value, never a fatal failure.

use vstd::prelude::*;
use crate::parse::{parse_i64, spec_parse_i64};
use crate::text::str_eq;
use crate::view::ViewNode;

verus! {

/// Why creating a custom component failed.  Recovered at the dispatch
/// boundary: the renderer shows a placeholder in place of the failed
/// component instead of aborting the render.
#[derive(PartialEq, Debug)]
pub enum ComponentCreationError {
    /// A typed attribute reading failed: the attribute's name and the raw
    /// value that did not parse.
    AttributeParseError { name: String, value: String },
    /// A required attribute was absent from the source tag.
    MissingAttribute { name: String },
    /// A failure of the callback's own, in its words.
    Custom { message: String },
}

/// The text a creation error placeholder shows.
pub open spec fn spec_error_message(e: ComponentCreationError) -> Seq<char> {
    match e {
        ComponentCreationError::AttributeParseError { name, value } => "invalid value `"@
            + value@ + "` for attribute `"@ + name@ + "`"@,
        ComponentCreationError::MissingAttribute { name } => "missing attribute `"@ + name@
            + "`"@,
        ComponentCreationError::Custom { message } => message@,
    }
}

impl ComponentCreationError {
    /// The error, spelled out for a rendered placeholder.
    pub fn message(&self) -> (r: String)
        ensures
            r@ == spec_error_message(*self),
    {
        match self {
            ComponentCreationError::AttributeParseError { name, value } => {
                let mut out = String::from_str("invalid value `");
                out.append(value.as_str());
                out.append("` for attribute `");
                out.append(name.as_str());
                out.append("`");
                out
            },
            ComponentCreationError::MissingAttribute { name } => {
                let mut out = String::from_str("missing attribute `");
                out.append(name.as_str());
                out.append("`");
                out
            },
            ComponentCreationError::Custom { message } => message.clone(),
        }
    }
}

/// The raw value bound to an attribute name: the value of the last writing
/// of the name in the tag, or nothing when the tag never wrote it.
pub open spec fn spec_attr_lookup(attrs: Seq<(String, String)>, name: Seq<char>) -> Option<
    Seq<char>,
>
    decreases attrs.len(),
{
    if attrs.len() == 0 {
        None
    } else if attrs.last().0@ == name {
        Some(attrs.last().1@)
    } else {
        spec_attr_lookup(attrs.drop_last(), name)
    }
}

/// The props built for one occurrence of a custom tag.
pub struct MdComponentProps {
    /// The attribute pairs exactly as written in the source tag, in source
    /// order; a name written twice reads as its last writing.
    pub attributes: Vec<(String, String)>,
    /// The children of the tag, already recursively rendered before the
    /// callback runs.
    pub children: ViewNode,
}

impl MdComponentProps {
    /// The raw string value of an attribute, unparsed; nothing when absent.
    pub fn get_attribute(&self, name: &str) -> (r: Option<String>)
        ensures
            match r {
                Some(v) => spec_attr_lookup(self.attributes@, name@) == Some(v@),
                None => spec_attr_lookup(self.attributes@, name@) is None,
            },
    {
        let mut i: usize = self.attributes.len();
        proof {
            assert(self.attributes@.take(i as int) =~= self.attributes@);
        }
        while i > 0
            invariant
                i <= self.attributes.len(),
                spec_attr_lookup(self.attributes@, name@) == spec_attr_lookup(
                    self.attributes@.take(i as int),
                    name@,
                ),
            decreases i,
        {
            i = i - 1;
            proof {
                assert(self.attributes@.take(i as int + 1).drop_last() =~= self.attributes@.take(
                    i as int,
                ));
                assert(self.attributes@.take(i as int + 1).last() == self.attributes@[i as int]);
            }
            if str_eq(self.attributes[i].0.as_str(), name) {
                return Some(self.attributes[i].1.clone());
            }
        }
        proof {
            assert(self.attributes@.take(0) =~= Seq::<(String, String)>::empty());
        }
        None
    }

    /// A required integer reading of an attribute: its raw value parsed as a
    /// signed 64-bit decimal integer.  An absent attribute is a missing-
    /// attribute error; a raw value that is no such integer is a parse error
    /// carrying the name and the raw value.
    pub fn get_parsed_i64(&self, name: &str) -> (r: Result<i64, ComponentCreationError>)
        ensures
            match spec_attr_lookup(self.attributes@, name@) {
                None => r matches Err(ComponentCreationError::MissingAttribute { name: n }) && n@
                    == name@,
                Some(raw) => match spec_parse_i64(raw) {
                    Some(v) => r == Ok::<i64, ComponentCreationError>(v),
                    None => r matches Err(
                        ComponentCreationError::AttributeParseError { name: n, value },
                    ) && n@ == name@ && value@ == raw,
                },
            },
    {
        match self.get_attribute(name) {
            None => Err(ComponentCreationError::MissingAttribute { name: name.to_owned() }),
            Some(raw) => match parse_i64(raw.as_str()) {
                Some(v) => Ok(v),
                None => Err(
                    ComponentCreationError::AttributeParseError { name: name.to_owned(), value: raw },
                ),
            },
        }
    }

    /// A required 32-bit integer reading: as the 64-bit reading, except
    /// that a value outside the 32-bit range is also a parse error.
    pub fn get_parsed_i32(&self, name: &str) -> (r: Result<i32, ComponentCreationError>)
        ensures
            match spec_attr_lookup(self.attributes@, name@) {
                None => r matches Err(ComponentCreationError::MissingAttribute { name: n }) && n@
                    == name@,
                Some(raw) => match spec_parse_i64(raw) {
                    Some(v) => if i32::MIN <= v <= i32::MAX {
                        r == Ok::<i32, ComponentCreationError>(v as i32)
                    } else {
                        r matches Err(
                            ComponentCreationError::AttributeParseError { name: n, value },
                        ) && n@ == name@ && value@ == raw
                    },
                    None => r matches Err(
                        ComponentCreationError::AttributeParseError { name: n, value },
                    ) && n@ == name@ && value@ == raw,
                },
            },
    {
        match self.get_attribute(name) {
            None => Err(ComponentCreationError::MissingAttribute { name: name.to_owned() }),
            Some(raw) => match parse_i64(raw.as_str()) {
                Some(v) => {
                    if i32::MIN as i64 <= v && v <= i32::MAX as i64 {
                        Ok(v as i32)
                    } else {
                        Err(
                            ComponentCreationError::AttributeParseError {
                                name: name.to_owned(),
                                value: raw,
                            },
                        )
                    }
                },
                None => Err(
                    ComponentCreationError::AttributeParseError { name: name.to_owned(), value: raw },
                ),
            },
        }
    }

    /// An optional integer reading of an attribute: an absent attribute is
    /// no value at all, so the callback can fall back to its own default; a
    /// present value that is no integer is still a parse error.
    pub fn get_parsed_optional_i64(&self, name: &str) -> (r: Result<
        Option<i64>,
        ComponentCreationError,
    >)
        ensures
            match spec_attr_lookup(self.attributes@, name@) {
                None => r == Ok::<Option<i64>, ComponentCreationError>(None),
                Some(raw) => match spec_parse_i64(raw) {
                    Some(v) => r == Ok::<Option<i64>, ComponentCreationError>(Some(v)),
                    None => r matches Err(
                        ComponentCreationError::AttributeParseError { name: n, value },
                    ) && n@ == name@ && value@ == raw,
                },
            },
    {
        match self.get_attribute(name) {
            None => Ok(None),
            Some(raw) => match parse_i64(raw.as_str()) {
                Some(v) => Ok(Some(v)),
                None => Err(
                    ComponentCreationError::AttributeParseError { name: name.to_owned(), value: raw },
                ),
            },
        }
    }
}

} // verus!
