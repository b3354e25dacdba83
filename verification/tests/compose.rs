use dashboard_svg::compose::{
    apply_placeholders, compose, embed_icon, replace_rect_with_svg, slot_geometry, IconSlot,
    Placeholder, SlotGeometry,
};
use dashboard_svg::dashboard::{
    dashboard_fields, dashboard_icons, slot_with_icon, IconSource, TEMPLATE_SVG_PATH,
};
use dashboard_svg::error::RenderError;
use dashboard_svg::pattern::Located;

fn field(token: &str, text: &str) -> Placeholder {
    Placeholder { token: token.to_string(), text: text.to_string() }
}

fn slot(id: &str, icon: Option<&str>) -> IconSlot {
    IconSlot { id: id.to_string(), icon: icon.map(|text| text.to_string()) }
}

const ICON: &str = "<svg xmlns=\"http://www.w3.org/2000/svg\" viewBox=\"0 0 48 48\"><circle cx=\"24\" cy=\"24\" r=\"20\"/></svg>";

#[test]
fn slot_gives_way_to_translated_group_with_nested_viewport() {
    let doc = "<svg><rect id=\"S\" x=\"10\" y=\"20\" width=\"30\" height=\"40\" fill=\"none\"/></svg>";
    let out = replace_rect_with_svg(doc, "S", Some(ICON)).unwrap();
    assert_eq!(
        out,
        "<svg><g id=\"S\" transform=\"translate(10, 20)\"><svg width=\"30\" height=\"40\" viewBox=\"0 0 48 48\"><circle cx=\"24\" cy=\"24\" r=\"20\"/></svg></g></svg>"
    );
    assert!(out.contains("<g id=\"S\""));
    assert!(out.contains("translate(10, 20)"));
    assert!(out.contains("<svg width=\"30\" height=\"40\" viewBox=\"0 0 48 48\">"));
    assert!(!out.contains("<rect"));
}

#[test]
fn slot_sizes_lose_their_px_suffix() {
    let doc = "<rect id=\"S\" x=\"1px\" y=\"2px\" width=\"3px\" height=\"4px\"></rect>";
    let out = replace_rect_with_svg(doc, "S", Some("<svg>i</svg>")).unwrap();
    assert_eq!(
        out,
        "<g id=\"S\" transform=\"translate(1, 2)\"><svg width=\"3\" height=\"4\" viewBox=\"0 0 48 48\">i</svg></g>"
    );
}

#[test]
fn icon_content_is_embedded_verbatim() {
    let doc = "a<rect id=\"S\" x=\"1\" y=\"2\" width=\"3\" height=\"4\"/>b";
    let out = replace_rect_with_svg(doc, "S", Some("<svg viewBox='0 0 9 9'>$1 ${0} \\n</svg>")).unwrap();
    assert_eq!(
        out,
        "a<g id=\"S\" transform=\"translate(1, 2)\"><svg width=\"3\" height=\"4\" viewBox=\"0 0 9 9\">$1 ${0} \\n</svg></g>b"
    );
}

#[test]
fn only_the_first_slot_with_the_id_is_replaced() {
    let one = "<rect id=\"S\" x=\"1\" y=\"2\" width=\"3\" height=\"4\"/>";
    let doc = format!("{}{}", one, one);
    let out = replace_rect_with_svg(doc.as_str(), "S", Some("<svg>i</svg>")).unwrap();
    assert!(out.starts_with("<g id=\"S\""));
    assert!(out.ends_with(one));
}

#[test]
fn missing_icon_is_resource_read_error() {
    let doc = "<rect id=\"S\" x=\"1\" y=\"2\" width=\"3\" height=\"4\"/>";
    assert_eq!(replace_rect_with_svg(doc, "S", None), Err(RenderError::ResourceReadError));
    assert_eq!(replace_rect_with_svg("", "S", None), Err(RenderError::ResourceReadError));
}

#[test]
fn missing_slot_is_element_not_found_when_splicing() {
    assert_eq!(
        replace_rect_with_svg("<svg></svg>", "S", Some(ICON)),
        Err(RenderError::ElementNotFound)
    );
}

#[test]
fn slot_without_a_size_is_attribute_not_found() {
    let doc = "<rect id=\"S\" x=\"1\" y=\"2\" width=\"3\"/>";
    assert_eq!(replace_rect_with_svg(doc, "S", Some(ICON)), Err(RenderError::AttributeNotFound));
    let doc = "<rect id=\"S\" y=\"2\" width=\"3\" height=\"4\"/>";
    assert_eq!(replace_rect_with_svg(doc, "S", Some(ICON)), Err(RenderError::AttributeNotFound));
}

#[test]
fn icon_without_content_is_icon_content_missing() {
    let doc = "<rect id=\"S\" x=\"1\" y=\"2\" width=\"3\" height=\"4\"/>";
    assert_eq!(
        replace_rect_with_svg(doc, "S", Some("<circle/>")),
        Err(RenderError::IconContentMissing)
    );
}

#[test]
fn missing_attribute_is_reported_before_missing_icon_content() {
    let doc = "<rect id=\"S\" x=\"1\"/>";
    assert_eq!(
        replace_rect_with_svg(doc, "S", Some("<circle/>")),
        Err(RenderError::AttributeNotFound)
    );
}

#[test]
fn geometry_is_read_in_the_order_x_y_width_height() {
    let at = slot_geometry("<rect height=\"4px\" width=\"3\" y='2' x=\"1px\"/>").unwrap();
    assert_eq!(at.x, "1");
    assert_eq!(at.y, "2");
    assert_eq!(at.width, "3");
    assert_eq!(at.height, "4");
}

#[test]
fn geometry_without_an_attribute_is_attribute_not_found() {
    assert!(matches!(slot_geometry("<rect x=\"1\" y=\"2\" width=\"3\"/>"), Err(RenderError::AttributeNotFound)));
    assert!(matches!(slot_geometry("<rect/>"), Err(RenderError::AttributeNotFound)));
}

#[test]
fn group_is_put_between_the_texts_around_the_slot() {
    let cut = Located {
        before: "<svg>".to_string(),
        matched: "<rect id=\"S\"/>".to_string(),
        after: "</svg>".to_string(),
    };
    let at = SlotGeometry {
        x: "10".to_string(),
        y: "20".to_string(),
        width: "30".to_string(),
        height: "40".to_string(),
    };
    assert_eq!(
        embed_icon(cut, "S", &at, "0 0 48 48", "<path/>"),
        "<svg><g id=\"S\" transform=\"translate(10, 20)\"><svg width=\"30\" height=\"40\" viewBox=\"0 0 48 48\"><path/></svg></g></svg>"
    );
}

#[test]
fn id_whose_pattern_is_too_large_is_pattern_rejected() {
    let id = "a".repeat(3_000_000);
    let doc = "<rect id=\"a\" x=\"1\" y=\"2\" width=\"3\" height=\"4\"/>";
    assert_eq!(
        replace_rect_with_svg(doc, id.as_str(), Some(ICON)),
        Err(RenderError::PatternRejected)
    );
    assert_eq!(replace_rect_with_svg(doc, id.as_str(), None), Err(RenderError::ResourceReadError));
    let slots = vec![IconSlot { id, icon: Some(ICON.to_string()) }];
    assert_eq!(compose(Some(doc), &Vec::new(), &slots), Err(RenderError::PatternRejected));
}

#[test]
fn fields_are_filled_in_order() {
    let fields = vec![field("{{A}}", "{{B}}"), field("{{B}}", "b")];
    assert_eq!(apply_placeholders("{{A}}-{{B}}", &fields), "b-b");
    let fields = vec![field("{{B}}", "b"), field("{{A}}", "{{B}}")];
    assert_eq!(apply_placeholders("{{A}}-{{B}}", &fields), "{{B}}-b");
    assert_eq!(apply_placeholders("same", &Vec::new()), "same");
}

#[test]
fn fields_that_do_not_occur_leave_the_template_as_it_is() {
    assert_eq!(apply_placeholders("<svg>plain</svg>", &dashboard_fields()), "<svg>plain</svg>");
}

#[test]
fn composition_fills_fields_and_splices_slots() {
    let template = "<svg><text>{{Den}}</text><text>{{Teplota}}</text><rect id=\"day1-icon\" x=\"5\" y=\"6\" width=\"7\" height=\"8\"/></svg>";
    let fields = dashboard_fields();
    let slots = vec![slot("day1-icon", Some(ICON))];
    let out = compose(Some(template), &fields, &slots).unwrap();
    assert_eq!(
        out,
        "<svg><text>Pondelol</text><text>15\u{c2}\u{b0}C</text><g id=\"day1-icon\" transform=\"translate(5, 6)\"><svg width=\"7\" height=\"8\" viewBox=\"0 0 48 48\"><circle cx=\"24\" cy=\"24\" r=\"20\"/></svg></g></svg>"
    );
}

#[test]
fn token_is_gone_from_the_composed_document() {
    let template = "<svg><text>{{Den}}</text><rect id=\"day1-icon\" x=\"5\" y=\"6\" width=\"7\" height=\"8\"/></svg>";
    let fields = vec![field("{{Den}}", "Pondelol")];
    let out = compose(Some(template), &fields, &vec![slot("day1-icon", Some(ICON))]).unwrap();
    assert!(!out.contains("{{Den}}"));
    assert_eq!(out.find("Pondelol"), template.find("{{Den}}"));
}

#[test]
fn icon_that_holds_the_token_brings_it_back() {
    let template = "<text>{{Den}}</text><rect id=\"s\" x=\"5\" y=\"6\" width=\"7\" height=\"8\"/>";
    let fields = vec![field("{{Den}}", "Pondelol")];
    let icon = "<svg viewBox=\"{{Den}}\"><path/></svg>";
    let out = compose(Some(template), &fields, &vec![slot("s", Some(icon))]).unwrap();
    assert!(out.contains("viewBox=\"{{Den}}\""));
}

#[test]
fn composition_without_fields_and_slots_is_the_template() {
    assert_eq!(compose(Some("<svg/>"), &Vec::new(), &Vec::new()), Ok("<svg/>".to_string()));
}

#[test]
fn slots_are_spliced_in_order() {
    let template = "<rect id=\"a\" x=\"1\" y=\"1\" width=\"1\" height=\"1\"/><rect id=\"b\" x=\"2\" y=\"2\" width=\"2\" height=\"2\"/>";
    let slots = vec![slot("a", Some("<svg>A</svg>")), slot("b", Some("<svg>B</svg>"))];
    let out = compose(Some(template), &Vec::new(), &slots).unwrap();
    assert_eq!(
        out,
        "<g id=\"a\" transform=\"translate(1, 1)\"><svg width=\"1\" height=\"1\" viewBox=\"0 0 48 48\">A</svg></g><g id=\"b\" transform=\"translate(2, 2)\"><svg width=\"2\" height=\"2\" viewBox=\"0 0 48 48\">B</svg></g>"
    );
}

#[test]
fn a_later_slot_may_stand_in_an_earlier_icon() {
    let template = "<rect id=\"a\" x=\"1\" y=\"1\" width=\"1\" height=\"1\"/>";
    let slots = vec![
        slot("a", Some("<svg><rect id=\"b\" x=\"2\" y=\"2\" width=\"2\" height=\"2\"/></svg>")),
        slot("b", Some("<svg>B</svg>")),
    ];
    let out = compose(Some(template), &Vec::new(), &slots).unwrap();
    assert!(out.contains("<g id=\"b\" transform=\"translate(2, 2)\">"));
}

#[test]
fn missing_template_is_resource_read_error() {
    let slots = vec![slot("a", Some(ICON))];
    assert_eq!(compose(None, &dashboard_fields(), &slots), Err(RenderError::ResourceReadError));
}

#[test]
fn first_failing_slot_decides_the_error() {
    let template = "<rect id=\"a\" x=\"1\" y=\"1\" width=\"1\" height=\"1\"/>";
    let slots = vec![slot("a", Some(ICON)), slot("missing", Some(ICON)), slot("b", None)];
    assert_eq!(compose(Some(template), &Vec::new(), &slots), Err(RenderError::ElementNotFound));
    let slots = vec![slot("a", Some(ICON)), slot("b", None), slot("missing", Some(ICON))];
    assert_eq!(compose(Some(template), &Vec::new(), &slots), Err(RenderError::ResourceReadError));
}

#[test]
fn missing_icon_is_reported_before_missing_slot() {
    let slots = vec![slot("missing", None)];
    assert_eq!(compose(Some("<svg/>"), &Vec::new(), &slots), Err(RenderError::ResourceReadError));
}

#[test]
fn dashboard_is_configured_with_two_fields_and_one_icon() {
    assert_eq!(TEMPLATE_SVG_PATH, "weather_template.svg");
    let fields = dashboard_fields();
    assert_eq!(fields.len(), 2);
    assert_eq!(fields[0].token, "{{Den}}");
    assert_eq!(fields[0].text, "Pondelol");
    assert_eq!(fields[1].token, "{{Teplota}}");
    assert_eq!(fields[1].text, "15\u{c2}\u{b0}C");
    let icons = dashboard_icons();
    assert_eq!(icons.len(), 1);
    assert_eq!(icons[0].id, "day1-icon");
    assert_eq!(icons[0].path, "snow-icon.svg");
}

#[test]
fn slot_takes_the_id_of_its_source() {
    let source = IconSource { id: "day1-icon".to_string(), path: "snow-icon.svg".to_string() };
    let with_icon = slot_with_icon(&source, Some("<svg/>".to_string()));
    assert_eq!(with_icon.id, "day1-icon");
    assert_eq!(with_icon.icon, Some("<svg/>".to_string()));
    let without = slot_with_icon(&source, None);
    assert_eq!(without.id, "day1-icon");
    assert_eq!(without.icon, None);
}
