//! The XML declaration, the very first line of a file:
//! `<?xml version="1.0" encoding="UTF-8"?>`

use vstd::prelude::*;
use crate::error::{agrees, Failure, GapixError};
use crate::model::{text_of, XmlDeclaration, XmlDeclarationView};
use crate::read::attributes::{check_none_left, leftover};
use crate::xml::{attribute_views, DeclarationTag};

verus! {

/// What a declaration gives, unless it is at fault or has an attribute
/// that is none of its version, its encoding and its standalone flag.
pub open spec fn spec_parse_declaration(declaration: DeclarationTag) -> Result<
    XmlDeclarationView,
    Failure,
> {
    match declaration.fault {
        Some(m) => Err(Failure::XmlError(m@)),
        None => match leftover("xml"@, attribute_views(declaration.others@)) {
            Some(f) => Err(f),
            None => Ok(
                XmlDeclarationView {
                    version: declaration.version@,
                    encoding: text_of(declaration.encoding),
                    standalone: text_of(declaration.standalone),
                },
            ),
        },
    }
}

/// A copy of a text that may be missing.
pub fn clone_text(text: &Option<String>) -> (copy: Option<String>)
    ensures
        text_of(copy) == text_of(*text),
{
    match text {
        Some(t) => Some(t.clone()),
        None => None,
    }
}

/// Parses an XML declaration.
pub fn parse_declaration(declaration: &DeclarationTag) -> (parsed: Result<
    XmlDeclaration,
    GapixError,
>)
    ensures
        agrees(parsed, spec_parse_declaration(*declaration)),
{
    match &declaration.fault {
        Some(m) => Err(GapixError::XmlError(m.clone())),
        None => match check_none_left("xml", &declaration.others) {
            Err(e) => Err(e),
            Ok(()) => Ok(
                XmlDeclaration {
                    version: declaration.version.clone(),
                    encoding: clone_text(&declaration.encoding),
                    standalone: clone_text(&declaration.standalone),
                },
            ),
        },
    }
}

} // verus!
