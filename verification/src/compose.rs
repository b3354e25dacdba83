//! Composition: the template's text fields are filled in, and each icon slot
//! gives way to its icon.

use crate::error::RenderError;
use crate::markup::{
    attribute_value, default_view_box, element_span, extract_attribute, fragment,
    fragment_frame, icon_inner_content, icon_view_box, inner_content_of,
    lemma_attribute_is_part, lemma_fragment_parts, locate_element, replacement_fragment,
    view_box_of,
};
use crate::pattern::{text_result, Located};
use crate::text::{
    clear_of_ends, lemma_absent_token_unchanged, lemma_part_contains, lemma_single_token_gone,
    lemma_token_stays_out, occurs_at, occurs_in, replace_all, substitute,
};
use vstd::prelude::*;

verus! {

/// A text field of the template: each occurrence of `token` becomes `text`.
pub struct Placeholder {
    /// The marker as it stands in the template.
    pub token: String,
    /// The text that takes its place, copied as it is.
    pub text: String,
}

/// An icon slot of the template.
pub struct IconSlot {
    /// The id of the slot element.
    pub id: String,
    /// The icon's document; `None` if it could not be read.
    pub icon: Option<String>,
}

impl IconSlot {
    /// The icon's document as a sequence of characters.
    pub open spec fn icon_text(&self) -> Option<Seq<char>> {
        match self.icon {
            Some(icon) => Some(icon@),
            None => None,
        }
    }
}

/// The four attributes that place a slot, as they stand in its element.
pub struct SlotGeometry {
    /// The left edge.
    pub x: String,
    /// The upper edge.
    pub y: String,
    /// The width.
    pub width: String,
    /// The height.
    pub height: String,
}

impl SlotGeometry {
    /// The four values in the order `x`, `y`, `width`, `height`.
    pub open spec fn parts(&self) -> (Seq<char>, Seq<char>, Seq<char>, Seq<char>) {
        (self.x@, self.y@, self.width@, self.height@)
    }
}

/// The characters of a text that may be missing.
pub open spec fn text_of(text: Option<&str>) -> Option<Seq<char>> {
    match text {
        Some(t) => Some(t@),
        None => None,
    }
}

/// The four attributes that place a slot: `x`, `y`, `width` and `height`, in
/// this order. The first one that fails decides the failure.
pub open spec fn geometry_of(element: Seq<char>) -> Result<
    (Seq<char>, Seq<char>, Seq<char>, Seq<char>),
    RenderError,
> {
    match attribute_value(element, "x"@) {
        Err(e) => Err(e),
        Ok(x) => match attribute_value(element, "y"@) {
            Err(e) => Err(e),
            Ok(y) => match attribute_value(element, "width"@) {
                Err(e) => Err(e),
                Ok(width) => match attribute_value(element, "height"@) {
                    Err(e) => Err(e),
                    Ok(height) => Ok((x, y, width, height)),
                },
            },
        },
    }
}

/// The text around a slot with the group that embeds an icon in the slot's
/// place.
pub open spec fn embedded(
    before: Seq<char>,
    after: Seq<char>,
    id: Seq<char>,
    at: (Seq<char>, Seq<char>, Seq<char>, Seq<char>),
    view_box: Seq<char>,
    inner: Seq<char>,
) -> Seq<char> {
    before + fragment(id, at.0, at.1, at.2, at.3, view_box, inner) + after
}

/// `doc` with the slot element `id` replaced by the group that embeds
/// `icon`. The checks come in this order: the icon is there, the slot is
/// found, it has its four attributes, the icon's bounding box is read, the
/// icon has content. The first that fails decides the failure.
pub open spec fn spliced(doc: Seq<char>, id: Seq<char>, icon: Option<Seq<char>>) -> Result<
    Seq<char>,
    RenderError,
> {
    match icon {
        None => Err(RenderError::ResourceReadError),
        Some(icon) => match element_span(doc, id) {
            Err(e) => Err(e),
            Ok(span) => match geometry_of(doc.subrange(span.0, span.1)) {
                Err(e) => Err(e),
                Ok(at) => match view_box_of(icon) {
                    Err(e) => Err(e),
                    Ok(view_box) => match inner_content_of(icon) {
                        Err(e) => Err(e),
                        Ok(inner) => Ok(
                            embedded(
                                doc.subrange(0, span.0),
                                doc.subrange(span.1, doc.len() as int),
                                id,
                                at,
                                view_box,
                                inner,
                            ),
                        ),
                    },
                },
            },
        },
    }
}

/// `text` after the fields have been filled in, one after the other.
pub open spec fn substituted(text: Seq<char>, fields: Seq<Placeholder>) -> Seq<char>
    decreases fields.len(),
{
    if fields.len() == 0 {
        text
    } else {
        replace_all(
            substituted(text, fields.drop_last()),
            fields.last().token@,
            fields.last().text@,
        )
    }
}

/// `doc` after the slots have been spliced, one after the other; the first
/// failure ends it.
pub open spec fn spliced_all(doc: Seq<char>, slots: Seq<IconSlot>) -> Result<
    Seq<char>,
    RenderError,
>
    decreases slots.len(),
{
    if slots.len() == 0 {
        Ok(doc)
    } else {
        match spliced_all(doc, slots.drop_last()) {
            Err(e) => Err(e),
            Ok(so_far) => spliced(so_far, slots.last().id@, slots.last().icon_text()),
        }
    }
}

/// The composed document: the template with its fields filled in and then
/// its slots spliced. A template that could not be read fails at once.
pub open spec fn composed(
    template: Option<Seq<char>>,
    fields: Seq<Placeholder>,
    slots: Seq<IconSlot>,
) -> Result<Seq<char>, RenderError> {
    match template {
        None => Err(RenderError::ResourceReadError),
        Some(text) => spliced_all(substituted(text, fields), slots),
    }
}

/// Fields of which none occurs in a text leave the text as it is.
pub proof fn lemma_absent_fields_unchanged(text: Seq<char>, fields: Seq<Placeholder>)
    requires
        forall|i: int|
            0 <= i < fields.len() ==> (#[trigger] fields[i]).token@.len() > 0 && !occurs_in(
                text,
                fields[i].token@,
            ),
    ensures
        substituted(text, fields) == text,
    decreases fields.len(),
{
    if fields.len() > 0 {
        let earlier = fields.drop_last();
        assert forall|i: int| 0 <= i < earlier.len() implies (#[trigger] earlier[i]).token@.len()
            > 0 && !occurs_in(text, earlier[i].token@) by {
            assert(earlier[i] == fields[i]);
        }
        lemma_absent_fields_unchanged(text, earlier);
        lemma_absent_token_unchanged(text, fields.last().token@, fields.last().text@);
    }
}

/// The slot element with the id `id` as it stands in `doc`.
pub open spec fn slot_element(doc: Seq<char>, id: Seq<char>) -> Seq<char> {
    doc.subrange(element_span(doc, id)->Ok_0.0, element_span(doc, id)->Ok_0.1)
}

/// Neither end of `token` occurs in the fixed text that a splice writes.
pub open spec fn clear_of_fixed_text(token: Seq<char>) -> bool {
    &&& clear_of_ends(fragment_frame(), token)
    &&& clear_of_ends(default_view_box(), token)
    &&& token.len() <= fragment_frame().len() + 1
}

/// A token that stands nowhere in a document stands nowhere in it after a
/// slot was spliced, if neither the token's first nor its last character
/// occurs in the slot's id, in its element, in the icon or in the fixed text
/// of the group.
pub proof fn lemma_splice_keeps_token_out(
    doc: Seq<char>,
    id: Seq<char>,
    icon: Seq<char>,
    token: Seq<char>,
)
    requires
        token.len() > 0,
        !occurs_in(doc, token),
        spliced(doc, id, Some(icon)) is Ok,
        clear_of_fixed_text(token),
        clear_of_ends(id, token),
        clear_of_ends(icon, token),
        clear_of_ends(slot_element(doc, id), token),
    ensures
        !occurs_in(spliced(doc, id, Some(icon))->Ok_0, token),
{
    let span = element_span(doc, id)->Ok_0;
    let element = doc.subrange(span.0, span.1);
    let before = doc.subrange(0, span.0);
    let after = doc.subrange(span.1, doc.len() as int);
    let at = geometry_of(element)->Ok_0;
    let view_box = view_box_of(icon)->Ok_0;
    let inner = inner_content_of(icon)->Ok_0;
    let group = fragment(id, at.0, at.1, at.2, at.3, view_box, inner);
    assert(doc =~= before + element + after);
    assert forall|c: char| c == token.first() || c == token.last() implies !group.contains(
        c,
    ) by {
        if group.contains(c) {
            lemma_fragment_parts(id, at.0, at.1, at.2, at.3, view_box, inner, c);
            if at.0.contains(c) {
                lemma_attribute_is_part(element, "x"@, c);
            }
            if at.1.contains(c) {
                lemma_attribute_is_part(element, "y"@, c);
            }
            if at.2.contains(c) {
                lemma_attribute_is_part(element, "width"@, c);
            }
            if at.3.contains(c) {
                lemma_attribute_is_part(element, "height"@, c);
            }
            if view_box.contains(c) && view_box != default_view_box() {
                lemma_part_contains(icon, view_box, c);
            }
            if inner.contains(c) {
                lemma_part_contains(icon, inner, c);
            }
        }
    }
    lemma_fragment_parts(id, at.0, at.1, at.2, at.3, view_box, inner, token.first());
    lemma_token_stays_out(before, element, after, group, token);
}

/// A token that stands nowhere in the document after the fields were filled
/// in stands nowhere in the composed document, if neither the token's first
/// nor its last character occurs in a slot's id, in a slot's element as it
/// stands when the slot is reached, in an icon or in the fixed text of the
/// groups.
pub proof fn lemma_composition_keeps_token_out(
    doc: Seq<char>,
    slots: Seq<IconSlot>,
    token: Seq<char>,
)
    requires
        token.len() > 0,
        !occurs_in(doc, token),
        spliced_all(doc, slots) is Ok,
        clear_of_fixed_text(token),
        forall|k: int|
            0 <= k < slots.len() ==> {
                &&& clear_of_ends((#[trigger] slots[k]).id@, token)
                &&& slots[k].icon matches Some(icon) ==> clear_of_ends(icon@, token)
                &&& clear_of_ends(
                    slot_element(spliced_all(doc, slots.take(k))->Ok_0, slots[k].id@),
                    token,
                )
            },
    ensures
        !occurs_in(spliced_all(doc, slots)->Ok_0, token),
    decreases slots.len(),
{
    if slots.len() > 0 {
        let earlier = slots.drop_last();
        let last = slots.last();
        assert forall|k: int| 0 <= k < earlier.len() implies {
            &&& clear_of_ends((#[trigger] earlier[k]).id@, token)
            &&& earlier[k].icon matches Some(icon) ==> clear_of_ends(icon@, token)
            &&& clear_of_ends(
                slot_element(spliced_all(doc, earlier.take(k))->Ok_0, earlier[k].id@),
                token,
            )
        } by {
            assert(earlier[k] == slots[k]);
            assert(earlier.take(k) =~= slots.take(k));
        }
        lemma_composition_keeps_token_out(doc, earlier, token);
        let so_far = spliced_all(doc, earlier)->Ok_0;
        assert(slots.take(slots.len() - 1) =~= earlier);
        assert(slots[slots.len() - 1] == last);
        assert(last.icon is Some);
        lemma_splice_keeps_token_out(so_far, last.id@, last.icon->0@, token);
    }
}

/// Where a template holds the token of its one field exactly once, and
/// neither the replacement nor a splice can spell the token anew, the
/// composed document holds the token nowhere. The replacement does not
/// spell it where it does not form the token with the text around it; a
/// splice does not where neither end of the token occurs in the slot's id,
/// in its element, in the icon or in the fixed text of the group.
pub proof fn lemma_single_field_gone(
    text: Seq<char>,
    field: Placeholder,
    slots: Seq<IconSlot>,
    at: int,
)
    requires
        field.token@.len() > 0,
        occurs_at(text, field.token@, at),
        forall|j: int| occurs_at(text, field.token@, j) ==> j == at,
        forall|j: int|
            at - field.token@.len() < j < at + field.text@.len() ==> !(#[trigger] occurs_at(
                text.take(at) + field.text@ + text.skip(at + field.token@.len()),
                field.token@,
                j,
            )),
        composed(Some(text), seq![field], slots) is Ok,
        clear_of_fixed_text(field.token@),
        forall|k: int|
            0 <= k < slots.len() ==> {
                &&& clear_of_ends((#[trigger] slots[k]).id@, field.token@)
                &&& slots[k].icon matches Some(icon) ==> clear_of_ends(icon@, field.token@)
                &&& clear_of_ends(
                    slot_element(
                        spliced_all(
                            replace_all(text, field.token@, field.text@),
                            slots.take(k),
                        )->Ok_0,
                        slots[k].id@,
                    ),
                    field.token@,
                )
            },
    ensures
        !occurs_in(composed(Some(text), seq![field], slots)->Ok_0, field.token@),
{
    let fields = seq![field];
    assert(fields.drop_last() =~= Seq::<Placeholder>::empty());
    assert(substituted(text, fields.drop_last()) == text);
    assert(fields.last() == field);
    assert(substituted(text, fields) == replace_all(text, field.token@, field.text@));
    lemma_single_token_gone(text, field.token@, field.text@, at);
    lemma_composition_keeps_token_out(substituted(text, fields), slots, field.token@);
}

/// Once a slot has failed, the slots after it change nothing.
pub proof fn lemma_failure_stays(doc: Seq<char>, slots: Seq<IconSlot>, upto: int)
    requires
        0 <= upto <= slots.len(),
        spliced_all(doc, slots.take(upto)) is Err,
    ensures
        spliced_all(doc, slots) == spliced_all(doc, slots.take(upto)),
    decreases slots.len() - upto,
{
    if upto < slots.len() {
        assert(slots.take(upto + 1).drop_last() =~= slots.take(upto));
        lemma_failure_stays(doc, slots, upto + 1);
    } else {
        assert(slots.take(upto) =~= slots);
    }
}

/// The first slot that fails decides how the composition fails. So a slot
/// that is reached fails it with `ResourceReadError` if its icon could not
/// be read, and else with `ElementNotFound` if the document lacks the slot's
/// element.
pub proof fn lemma_first_failure_decides(
    text: Seq<char>,
    fields: Seq<Placeholder>,
    slots: Seq<IconSlot>,
    k: int,
    doc: Seq<char>,
)
    requires
        0 <= k < slots.len(),
        spliced_all(substituted(text, fields), slots.take(k)) == Ok::<Seq<char>, RenderError>(doc),
    ensures
        spliced(doc, slots[k].id@, slots[k].icon_text()) is Err ==> composed(
            Some(text),
            fields,
            slots,
        ) == spliced(doc, slots[k].id@, slots[k].icon_text()),
        slots[k].icon is None ==> composed(Some(text), fields, slots) == Err::<
            Seq<char>,
            RenderError,
        >(RenderError::ResourceReadError),
        slots[k].icon is Some && element_span(doc, slots[k].id@) == Err::<
            (int, int),
            RenderError,
        >(RenderError::ElementNotFound) ==> composed(Some(text), fields, slots) == Err::<
            Seq<char>,
            RenderError,
        >(RenderError::ElementNotFound),
{
    let filled = substituted(text, fields);
    assert(slots.take(k + 1).drop_last() =~= slots.take(k));
    assert(slots.take(k + 1).last() == slots[k]);
    if spliced(doc, slots[k].id@, slots[k].icon_text()) is Err {
        lemma_failure_stays(filled, slots, k + 1);
    }
}

/// Reads the four attributes that place a slot: `x`, `y`, `width`,
/// `height`, in this order.
///
/// Fails as the first attribute that fails does.
pub fn slot_geometry(element: &str) -> (at: Result<SlotGeometry, RenderError>)
    ensures
        match at {
            Ok(found) => geometry_of(element@) == Ok::<
                (Seq<char>, Seq<char>, Seq<char>, Seq<char>),
                RenderError,
            >(found.parts()),
            Err(e) => geometry_of(element@) == Err::<
                (Seq<char>, Seq<char>, Seq<char>, Seq<char>),
                RenderError,
            >(e),
        },
{
    let x = match extract_attribute(element, "x") {
        Ok(v) => v,
        Err(e) => return Err(e),
    };
    let y = match extract_attribute(element, "y") {
        Ok(v) => v,
        Err(e) => return Err(e),
    };
    let width = match extract_attribute(element, "width") {
        Ok(v) => v,
        Err(e) => return Err(e),
    };
    let height = match extract_attribute(element, "height") {
        Ok(v) => v,
        Err(e) => return Err(e),
    };
    Ok(SlotGeometry { x, y, width, height })
}

/// Puts the group that embeds an icon between the two texts that stood
/// around the slot `rect_id`: the group is moved to the slot's corner and
/// holds a viewport of the slot's size over `view_box`, around `inner`.
pub fn embed_icon(
    cut: Located,
    rect_id: &str,
    at: &SlotGeometry,
    view_box: &str,
    inner: &str,
) -> (out: String)
    ensures
        out@ == embedded(cut.before@, cut.after@, rect_id@, at.parts(), view_box@, inner@),
{
    let replacement = replacement_fragment(
        rect_id,
        at.x.as_str(),
        at.y.as_str(),
        at.width.as_str(),
        at.height.as_str(),
        view_box,
        inner,
    );
    let Located { before, matched: _, after } = cut;
    let mut out = before;
    out.append(replacement.as_str());
    out.append(after.as_str());
    out
}

/// Replaces the slot element `rect_id` of `svg_content` by a group that
/// embeds `icon`, moved to the slot's corner and stretched to its size.
///
/// `icon` is the icon's document, `None` if it could not be read. Fails with
/// `ResourceReadError` if it is `None`, `ElementNotFound` if the document has
/// no such slot, `AttributeNotFound` if the slot lacks one of `x`, `y`,
/// `width`, `height`, `IconContentMissing` if the icon has no content, and
/// `PatternRejected` where the engine does not take a pattern.
pub fn replace_rect_with_svg(svg_content: &str, rect_id: &str, icon: Option<&str>) -> (out: Result<
    String,
    RenderError,
>)
    ensures
        text_result(out) == spliced(svg_content@, rect_id@, text_of(icon)),
{
    let icon_content = match icon {
        Some(content) => content,
        None => return Err(RenderError::ResourceReadError),
    };
    let cut = match locate_element(svg_content, rect_id) {
        Ok(cut) => cut,
        Err(e) => return Err(e),
    };
    proof {
        let doc = svg_content@;
        assert(cut.before@ =~= doc.subrange(0, cut.start()));
        assert(cut.matched@ =~= doc.subrange(cut.start(), cut.end()));
        assert(cut.after@ =~= doc.subrange(cut.end(), doc.len() as int));
    }
    let at = match slot_geometry(cut.matched.as_str()) {
        Ok(at) => at,
        Err(e) => return Err(e),
    };
    let view_box = match icon_view_box(icon_content) {
        Ok(view_box) => view_box,
        Err(e) => return Err(e),
    };
    let inner = match icon_inner_content(icon_content) {
        Ok(inner) => inner,
        Err(e) => return Err(e),
    };
    Ok(embed_icon(cut, rect_id, &at, view_box.as_str(), inner.as_str()))
}

/// Fills in the fields of `template`, one after the other.
pub fn apply_placeholders(template: &str, fields: &Vec<Placeholder>) -> (out: String)
    ensures
        out@ == substituted(template@, fields@),
{
    let mut out = template.to_owned();
    let mut i: usize = 0;
    while i < fields.len()
        invariant
            i <= fields.len(),
            out@ == substituted(template@, fields@.take(i as int)),
        decreases fields.len() - i,
    {
        proof {
            assert(fields@.take(i + 1).drop_last() =~= fields@.take(i as int));
        }
        out = substitute(out.as_str(), fields[i].token.as_str(), fields[i].text.as_str());
        i += 1;
    }
    proof {
        assert(fields@.take(i as int) =~= fields@);
    }
    out
}

/// Composes the document that is rendered: the fields of `template` are
/// filled in, then the slots are spliced in the order given.
///
/// `template` is `None` if it could not be read, which fails with
/// `ResourceReadError`. The first slot that fails ends the composition with
/// its error; a first slot without an icon fails with `ResourceReadError`.
pub fn compose(template: Option<&str>, fields: &Vec<Placeholder>, slots: &Vec<IconSlot>) -> (out:
    Result<String, RenderError>)
    ensures
        text_result(out) == composed(text_of(template), fields@, slots@),
        template is None ==> out == Err::<String, RenderError>(RenderError::ResourceReadError),
        template is Some && slots@.len() > 0 && slots@[0].icon is None ==> out == Err::<
            String,
            RenderError,
        >(RenderError::ResourceReadError),
{
    let text = match template {
        Some(text) => text,
        None => return Err(RenderError::ResourceReadError),
    };
    let mut doc = apply_placeholders(text, fields);
    let ghost filled = doc@;
    let mut i: usize = 0;
    while i < slots.len()
        invariant
            i <= slots.len(),
            template is Some,
            i > 0 ==> slots@[0].icon is Some,
            composed(text_of(template), fields@, slots@) == spliced_all(filled, slots@),
            spliced_all(filled, slots@.take(i as int)) == Ok::<Seq<char>, RenderError>(doc@),
        decreases slots.len() - i,
    {
        proof {
            assert(slots@.take(i + 1).drop_last() =~= slots@.take(i as int));
            assert(slots@.take(i + 1).last() == slots@[i as int]);
        }
        let icon = match &slots[i].icon {
            Some(icon) => Some(icon.as_str()),
            None => None,
        };
        assert(text_of(icon) == slots@[i as int].icon_text());
        match replace_rect_with_svg(doc.as_str(), slots[i].id.as_str(), icon) {
            Ok(next) => {
                doc = next;
            },
            Err(e) => {
                proof {
                    assert(spliced_all(filled, slots@.take(i + 1)) == Err::<
                        Seq<char>,
                        RenderError,
                    >(e));
                    lemma_failure_stays(filled, slots@, i + 1);
                }
                return Err(e);
            },
        }
        i += 1;
    }
    proof {
        assert(slots@.take(i as int) =~= slots@);
    }
    Ok(doc)
}

} // verus!
