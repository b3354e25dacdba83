//! The markup that composition reads and writes: slot elements, their
//! attributes, the parts of an icon, and the group that takes a slot's place.

use crate::error::RenderError;
use crate::pattern::{
    capture_first_group, escape_text, escaped, find_first, group_or, match_or, require_found,
    text_result, Located,
};
use crate::text::{
    lemma_contains_concat, lemma_part_contains, strip_px_suffix, without_px_suffix,
};
use vstd::prelude::*;

verus! {

/// The pattern of an attribute `name` with a quoted, non-empty value: the
/// name follows white space, so that it is no tail of a longer name, and the
/// value is the pattern's first group.
pub open spec fn attribute_pattern(name: Seq<char>) -> Seq<char> {
    "[\\s]"@ + escaped(name) + "=[\"']([^\"']+)[\"']"@
}

/// The pattern of a `rect` element whose attribute list holds the id `id` in
/// quotes, and which is closed at once or by a closing tag that follows
/// directly.
pub open spec fn slot_pattern(id: Seq<char>) -> Seq<char> {
    "<rect([^>]*id=[\"']"@ + escaped(id) + "[\"'][^>]*)(?:/>|></rect>)"@
}

/// The pattern of an icon's bounding-box attribute; its first group is the
/// value.
pub open spec fn view_box_pattern() -> Seq<char> {
    "viewBox=[\"']([^\"']+)[\"']"@
}

/// The pattern of an icon's outer tags; its first group is what stands
/// between them, up to the first closing tag.
pub open spec fn content_pattern() -> Seq<char> {
    "<svg[^>]*>([\\s\\S]*?)<\\/svg>"@
}

/// The bounding box of an icon that declares none.
pub open spec fn default_view_box() -> Seq<char> {
    "0 0 48 48"@
}

/// Where the slot element with the id `id` stands in `doc`;
/// `ElementNotFound` where `doc` holds none.
pub open spec fn element_span(doc: Seq<char>, id: Seq<char>) -> Result<(int, int), RenderError> {
    match_or(slot_pattern(id), doc, RenderError::ElementNotFound)
}

/// The value of the attribute `name` in `element`, without a trailing `px`.
pub open spec fn attribute_value(element: Seq<char>, name: Seq<char>) -> Result<
    Seq<char>,
    RenderError,
> {
    match group_or(attribute_pattern(name), element, RenderError::AttributeNotFound) {
        Ok(raw) => Ok(without_px_suffix(raw)),
        Err(e) => Err(e),
    }
}

/// The bounding box that `icon` declares, or the default one.
pub open spec fn view_box_of(icon: Seq<char>) -> Result<Seq<char>, RenderError> {
    match group_or(view_box_pattern(), icon, RenderError::AttributeNotFound) {
        Ok(view_box) => Ok(view_box),
        Err(RenderError::AttributeNotFound) => Ok(default_view_box()),
        Err(e) => Err(e),
    }
}

/// What stands between the outer tags of `icon`.
pub open spec fn inner_content_of(icon: Seq<char>) -> Result<Seq<char>, RenderError> {
    group_or(content_pattern(), icon, RenderError::IconContentMissing)
}

/// The group that takes the place of a slot: it carries the slot's id, is
/// moved to the slot's corner, and wraps a viewport of the slot's size whose
/// coordinates are those of the icon's bounding box, around the icon's
/// content.
pub open spec fn fragment(
    id: Seq<char>,
    x: Seq<char>,
    y: Seq<char>,
    width: Seq<char>,
    height: Seq<char>,
    view_box: Seq<char>,
    inner: Seq<char>,
) -> Seq<char> {
    "<g id=\""@ + id + "\" transform=\"translate("@ + x + ", "@ + y + ")\"><svg width=\""@ + width
        + "\" height=\""@ + height + "\" viewBox=\""@ + view_box + "\">"@ + inner
        + "</svg></g>"@
}

/// The fixed text of the group that takes the place of a slot: what
/// `fragment` writes around the seven texts it is given.
pub open spec fn fragment_frame() -> Seq<char> {
    "<g id=\""@ + "\" transform=\"translate("@ + ", "@ + ")\"><svg width=\""@ + "\" height=\""@
        + "\" viewBox=\""@ + "\">"@ + "</svg></g>"@
}

/// The group holds its fixed text and the seven texts it is given, and no
/// other character.
pub proof fn lemma_fragment_parts(
    id: Seq<char>,
    x: Seq<char>,
    y: Seq<char>,
    width: Seq<char>,
    height: Seq<char>,
    view_box: Seq<char>,
    inner: Seq<char>,
    c: char,
)
    ensures
        fragment(id, x, y, width, height, view_box, inner).len() >= fragment_frame().len(),
        fragment(id, x, y, width, height, view_box, inner).contains(c) ==> fragment_frame().contains(
            c,
        ) || id.contains(c) || x.contains(c) || y.contains(c) || width.contains(c)
            || height.contains(c) || view_box.contains(c) || inner.contains(c),
{
    let l1 = "<g id=\""@;
    let l2 = "\" transform=\"translate("@;
    let l3 = ", "@;
    let l4 = ")\"><svg width=\""@;
    let l5 = "\" height=\""@;
    let l6 = "\" viewBox=\""@;
    let l7 = "\">"@;
    let l8 = "</svg></g>"@;
    lemma_contains_concat(l1, l2, c);
    lemma_contains_concat(l1 + l2, l3, c);
    lemma_contains_concat(l1 + l2 + l3, l4, c);
    lemma_contains_concat(l1 + l2 + l3 + l4, l5, c);
    lemma_contains_concat(l1 + l2 + l3 + l4 + l5, l6, c);
    lemma_contains_concat(l1 + l2 + l3 + l4 + l5 + l6, l7, c);
    lemma_contains_concat(l1 + l2 + l3 + l4 + l5 + l6 + l7, l8, c);
    let f1 = l1 + id;
    let f2 = f1 + l2;
    let f3 = f2 + x;
    let f4 = f3 + l3;
    let f5 = f4 + y;
    let f6 = f5 + l4;
    let f7 = f6 + width;
    let f8 = f7 + l5;
    let f9 = f8 + height;
    let f10 = f9 + l6;
    let f11 = f10 + view_box;
    let f12 = f11 + l7;
    let f13 = f12 + inner;
    lemma_contains_concat(l1, id, c);
    lemma_contains_concat(f1, l2, c);
    lemma_contains_concat(f2, x, c);
    lemma_contains_concat(f3, l3, c);
    lemma_contains_concat(f4, y, c);
    lemma_contains_concat(f5, l4, c);
    lemma_contains_concat(f6, width, c);
    lemma_contains_concat(f7, l5, c);
    lemma_contains_concat(f8, height, c);
    lemma_contains_concat(f9, l6, c);
    lemma_contains_concat(f10, view_box, c);
    lemma_contains_concat(f11, l7, c);
    lemma_contains_concat(f12, inner, c);
    lemma_contains_concat(f13, l8, c);
}

/// A character of an attribute's value is a character of the element.
pub proof fn lemma_attribute_is_part(element: Seq<char>, name: Seq<char>, c: char)
    requires
        attribute_value(element, name) is Ok,
        attribute_value(element, name)->Ok_0.contains(c),
    ensures
        element.contains(c),
{
    let raw = group_or(attribute_pattern(name), element, RenderError::AttributeNotFound)->Ok_0;
    let value = without_px_suffix(raw);
    let i = choose|i: int| 0 <= i < value.len() && value[i] == c;
    assert(raw[i] == c);
    lemma_part_contains(element, raw, c);
}

/// Writes the pattern of the attribute `name`.
pub fn build_attribute_pattern(name: &str) -> (pattern: String)
    ensures
        pattern@ == attribute_pattern(name@),
{
    let mut pattern = "[\\s]".to_owned();
    pattern.append(escape_text(name).as_str());
    pattern.append("=[\"']([^\"']+)[\"']");
    pattern
}

/// Writes the pattern of the slot element with the id `id`.
pub fn build_slot_pattern(id: &str) -> (pattern: String)
    ensures
        pattern@ == slot_pattern(id@),
{
    let mut pattern = "<rect([^>]*id=[\"']".to_owned();
    pattern.append(escape_text(id).as_str());
    pattern.append("[\"'][^>]*)(?:/>|></rect>)");
    pattern
}

/// Pulls the value of the attribute `attr_name` out of `element`, without a
/// trailing `px`. The value is taken as text and not read as a number.
///
/// Fails with `AttributeNotFound` if `element` holds no such attribute, and
/// with `PatternRejected` if the engine does not take the name's pattern.
pub fn extract_attribute(element: &str, attr_name: &str) -> (value: Result<String, RenderError>)
    ensures
        text_result(value) == attribute_value(element@, attr_name@),
{
    let pattern = build_attribute_pattern(attr_name);
    let found = capture_first_group(pattern.as_str(), element);
    match require_found(found, RenderError::AttributeNotFound) {
        Ok(raw) => Ok(strip_px_suffix(raw.as_str())),
        Err(e) => Err(e),
    }
}

/// Finds the slot element with the id `id` in `doc` and cuts `doc` around
/// it.
///
/// Fails with `ElementNotFound` if `doc` holds no such element, and with
/// `PatternRejected` if the engine does not take the id's pattern.
pub fn locate_element(doc: &str, id: &str) -> (found: Result<Located, RenderError>)
    ensures
        match found {
            Ok(cut) => cut.cuts(doc@) && element_span(doc@, id@) == Ok::<(int, int), RenderError>(
                (cut.start(), cut.end()),
            ),
            Err(e) => element_span(doc@, id@) == Err::<(int, int), RenderError>(e),
        },
{
    let pattern = build_slot_pattern(id);
    let found = find_first(pattern.as_str(), doc);
    require_found(found, RenderError::ElementNotFound)
}

/// The bounding box that was found declared, or `0 0 48 48` if none was.
pub fn view_box_or_default(declared: Option<String>) -> (view_box: String)
    ensures
        view_box@ == (match declared {
            Some(found) => found@,
            None => default_view_box(),
        }),
{
    match declared {
        Some(found) => found,
        None => "0 0 48 48".to_owned(),
    }
}

/// The bounding box that `icon` declares, or `0 0 48 48` if it declares none.
///
/// Fails with `PatternRejected` if the engine does not take the pattern.
pub fn icon_view_box(icon: &str) -> (view_box: Result<String, RenderError>)
    ensures
        text_result(view_box) == view_box_of(icon@),
{
    match capture_first_group("viewBox=[\"']([^\"']+)[\"']", icon) {
        Ok(declared) => Ok(view_box_or_default(declared)),
        Err(_) => Err(RenderError::PatternRejected),
    }
}

/// What stands between the outer tags of `icon`.
///
/// Fails with `IconContentMissing` if `icon` has no such pair of tags, and
/// with `PatternRejected` if the engine does not take the pattern.
pub fn icon_inner_content(icon: &str) -> (inner: Result<String, RenderError>)
    ensures
        text_result(inner) == inner_content_of(icon@),
{
    let found = capture_first_group("<svg[^>]*>([\\s\\S]*?)<\\/svg>", icon);
    require_found(found, RenderError::IconContentMissing)
}

/// Writes the group that takes the place of a slot.
pub fn replacement_fragment(
    id: &str,
    x: &str,
    y: &str,
    width: &str,
    height: &str,
    view_box: &str,
    inner: &str,
) -> (out: String)
    ensures
        out@ == fragment(id@, x@, y@, width@, height@, view_box@, inner@),
{
    let mut out = "<g id=\"".to_owned();
    out.append(id);
    out.append("\" transform=\"translate(");
    out.append(x);
    out.append(", ");
    out.append(y);
    out.append(")\"><svg width=\"");
    out.append(width);
    out.append("\" height=\"");
    out.append(height);
    out.append("\" viewBox=\"");
    out.append(view_box);
    out.append("\">");
    out.append(inner);
    out.append("</svg></g>");
    out
}

} // verus!
