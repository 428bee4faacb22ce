use vstd::prelude::*;

use crate::body::TemplateIn;
use crate::error::Error;

verus! {

/// Most bytes a title or a field caption may take.
pub const MAX_TEXT_BYTES: usize = 128;

/// Fewest fields a template may have.
pub const MIN_TEMPLATE_FIELDS: usize = 9;

/// A title or caption: not empty, and at most `MAX_TEXT_BYTES` bytes in
/// UTF-8, counted as `str::len` counts them.
pub open spec fn text_ok(s: Seq<char>) -> bool {
    s.len() > 0 && (vstd::utf8::encode_utf8(s).len() as usize) <= MAX_TEXT_BYTES
}

/// Every caption of the template is acceptable.
pub open spec fn captions_ok(fields: Seq<String>) -> bool {
    forall|i: int| 0 <= i < fields.len() ==> text_ok(#[trigger] fields[i]@)
}

fn text_fits(s: &String) -> (r: bool)
    ensures
        r == text_ok(s@),
{
    let t = s.as_str();
    !t.is_empty() && t.len() <= MAX_TEXT_BYTES
}

/// Checks a new template: its title, its number of fields and each caption.
/// A refused template gets a bad-request error saying what is wrong.
pub fn check_template(template: &TemplateIn) -> (r: Result<(), Error>)
    ensures
        r is Ok <==> text_ok(template.title@) && template.fields.len() >= MIN_TEMPLATE_FIELDS
            && captions_ok(template.fields@),
        r matches Err(e) ==> e is BadRequest,
{
    if !text_fits(&template.title) {
        return Err(
            Error::BadRequest(
                "Title must have at least one and at most 128 characters.".to_owned(),
            ),
        );
    }
    if template.fields.len() < MIN_TEMPLATE_FIELDS {
        return Err(Error::BadRequest("Templates must have at least 9 fields.".to_owned()));
    }
    let mut i: usize = 0;
    while i < template.fields.len()
        invariant
            i <= template.fields.len(),
            forall|k: int| 0 <= k < i ==> text_ok(#[trigger] template.fields@[k]@),
        decreases template.fields.len() - i,
    {
        if !text_fits(&template.fields[i]) {
            return Err(
                Error::BadRequest(
                    "Field captions must have at least one and at most 128 characters.".to_owned(),
                ),
            );
        }
        i = i + 1;
    }
    Ok(())
}

} // verus!
