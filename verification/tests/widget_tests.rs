use perry_container_compose::emit::{emit_entry_struct, emit_timeline_provider, emit_view, emit_widget_bundle};
use perry_container_compose::swift::swift_color_expr;
use perry_container_compose::widget::{
    WidgetConditionOp, WidgetDecl, WidgetFieldType, WidgetFont, WidgetModifier, WidgetNode, WidgetStackKind,
    WidgetTemplatePart, WidgetTextContent,
};

fn s(x: &str) -> String {
    x.to_string()
}

fn one_node(node: WidgetNode) -> WidgetDecl {
    WidgetDecl {
        kind: s("com.test.One"),
        display_name: s(""),
        description: s(""),
        supported_families: vec![],
        entry_fields: vec![],
        render_body: vec![node],
        entry_param_name: s("entry"),
    }
}

#[test]
fn test_simple_text_widget() {
    let widget = WidgetDecl {
        kind: s("com.example.Hello"),
        display_name: s("Hello Widget"),
        description: s("A simple hello widget"),
        supported_families: vec![s("systemSmall")],
        entry_fields: vec![(s("greeting"), WidgetFieldType::String)],
        render_body: vec![WidgetNode::Text {
            content: WidgetTextContent::Field(s("greeting")),
            modifiers: vec![WidgetModifier::Font(WidgetFont::Title), WidgetModifier::ForegroundColor(s("blue"))],
        }],
        entry_param_name: s("entry"),
    };

    let view = emit_view(&widget, "Hello");
    assert!(view.contains("struct HelloView: View"));
    assert!(view.contains("let entry: HelloEntry"));
    assert!(view.contains("Text(\"\\(entry.greeting)\")"));
    assert!(view.contains(".font(.title)"));
    assert!(view.contains(".foregroundColor(Color.blue)"));
}

#[test]
fn test_vstack_with_children() {
    let widget = WidgetDecl {
        kind: s("com.test.Stack"),
        display_name: s("Stack"),
        description: s(""),
        supported_families: vec![],
        entry_fields: vec![(s("title"), WidgetFieldType::String), (s("count"), WidgetFieldType::Number)],
        render_body: vec![WidgetNode::Stack {
            kind: WidgetStackKind::VStack,
            spacing: Some(s("8")),
            children: vec![
                WidgetNode::Text {
                    content: WidgetTextContent::Field(s("title")),
                    modifiers: vec![WidgetModifier::Font(WidgetFont::Headline)],
                },
                WidgetNode::Text {
                    content: WidgetTextContent::Template(vec![
                        WidgetTemplatePart::Literal(s("Count: ")),
                        WidgetTemplatePart::Field(s("count")),
                    ]),
                    modifiers: vec![],
                },
            ],
            modifiers: vec![WidgetModifier::Padding(s("16"))],
        }],
        entry_param_name: s("entry"),
    };

    let view = emit_view(&widget, "Stack");
    assert!(view.contains("VStack(spacing: 8)"));
    assert!(view.contains(".padding(16)"));
    assert!(view.contains("Text(\"Count: \\(entry.count)\")"));
}

#[test]
fn test_entry_struct() {
    let widget = WidgetDecl {
        kind: s("com.test.Entry"),
        display_name: s(""),
        description: s(""),
        supported_families: vec![],
        entry_fields: vec![
            (s("name"), WidgetFieldType::String),
            (s("score"), WidgetFieldType::Number),
            (s("active"), WidgetFieldType::Boolean),
        ],
        render_body: vec![],
        entry_param_name: s("entry"),
    };

    let out = emit_entry_struct(&widget, "Entry");
    assert!(out.contains("struct EntryEntry: TimelineEntry"));
    assert!(out.contains("let name: String"));
    assert!(out.contains("let score: Double"));
    assert!(out.contains("let active: Bool"));
    assert!(out.contains("let date: Date"));
}

#[test]
fn test_conditional() {
    let widget = WidgetDecl {
        kind: s("com.test.Cond"),
        display_name: s(""),
        description: s(""),
        supported_families: vec![],
        entry_fields: vec![(s("count"), WidgetFieldType::Number)],
        render_body: vec![WidgetNode::Conditional {
            field: s("count"),
            op: WidgetConditionOp::GreaterThan,
            value: WidgetTextContent::Literal(s("0")),
            value_number: Some(s("0")),
            then_node: Box::new(WidgetNode::Text {
                content: WidgetTextContent::Literal(s("Has items")),
                modifiers: vec![],
            }),
            else_node: Some(Box::new(WidgetNode::Text {
                content: WidgetTextContent::Literal(s("Empty")),
                modifiers: vec![],
            })),
        }],
        entry_param_name: s("entry"),
    };

    let view = emit_view(&widget, "Cond");
    assert!(view.contains("if entry.count > 0"));
    assert!(view.contains("Text(\"Has items\")"));
    assert!(view.contains("} else {"));
    assert!(view.contains("Text(\"Empty\")"));
}

#[test]
fn entry_struct_exact_text() {
    let mut w = one_node(WidgetNode::Spacer);
    w.entry_fields = vec![(s("n"), WidgetFieldType::Number)];
    assert_eq!(emit_entry_struct(&w, "A"), "struct AEntry: TimelineEntry {\n    let date: Date\n    let n: Double\n}\n");
}

#[test]
fn empty_view_shows_placeholder_text() {
    let mut w = one_node(WidgetNode::Spacer);
    w.render_body = vec![];
    assert_eq!(
        emit_view(&w, "E"),
        "struct EView: View {\n    let entry: EEntry\n\n    var body: some View {\n        Text(\"Empty widget\")\n    }\n}\n"
    );
}

#[test]
fn several_roots_are_wrapped_in_a_vstack() {
    let mut w = one_node(WidgetNode::Spacer);
    w.render_body = vec![WidgetNode::Spacer, WidgetNode::Spacer];
    assert_eq!(
        emit_view(&w, "M"),
        "struct MView: View {\n    let entry: MEntry\n\n    var body: some View {\n        VStack {\n            Spacer()\n            Spacer()\n        }\n    }\n}\n"
    );
}

#[test]
fn single_root_at_two_levels() {
    let w = one_node(WidgetNode::Image {
        system_name: s("star\"x"),
        modifiers: vec![WidgetModifier::Multiline, WidgetModifier::LineLimit(3)],
    });
    let v = emit_view(&w, "I");
    assert!(v.contains("        Image(systemName: \"star\\\"x\")\n            .lineLimit(nil)\n            .lineLimit(3)\n"));
}

#[test]
fn modifiers_each_on_their_own_line() {
    let w = one_node(WidgetNode::Text {
        content: WidgetTextContent::Literal(s("a\tb")),
        modifiers: vec![
            WidgetModifier::Font(WidgetFont::System(s("12.5"))),
            WidgetModifier::Font(WidgetFont::Named(s("Menlo"))),
            WidgetModifier::FontWeight(s("bold")),
            WidgetModifier::Frame { width: Some(s("10")), height: Some(s("20")) },
            WidgetModifier::Frame { width: None, height: Some(s("5")) },
            WidgetModifier::Frame { width: None, height: None },
            WidgetModifier::CornerRadius(s("4")),
            WidgetModifier::Background(s("#ff8000")),
            WidgetModifier::Opacity(s("0.5")),
        ],
    });
    let v = emit_view(&w, "T");
    let expected = "        Text(\"a\\tb\")\n            .font(.system(size: 12.5))\n            .font(.custom(\"Menlo\", size: 17))\n            .fontWeight(.bold)\n            .frame(width: 10, height: 20)\n            .frame(height: 5)\n            .cornerRadius(4)\n            .background(Color(red: 1.000, green: 0.502, blue: 0.000))\n            .opacity(0.5)\n";
    assert!(v.contains(expected), "{}", v);
}

#[test]
fn conditions_and_values() {
    let cond = |op: WidgetConditionOp, value: WidgetTextContent, number: Option<String>| {
        let w = one_node(WidgetNode::Conditional {
            field: s("x"),
            op,
            value,
            value_number: number,
            then_node: Box::new(WidgetNode::Spacer),
            else_node: None,
        });
        emit_view(&w, "C")
    };
    let v = cond(WidgetConditionOp::Truthy, WidgetTextContent::Literal(s("1")), None);
    assert!(v.contains("        if entry.x {\n            Spacer()\n        }\n"));
    let v = cond(WidgetConditionOp::Equals, WidgetTextContent::Literal(s("on")), None);
    assert!(v.contains("if entry.x == \"on\" {"));
    let v = cond(WidgetConditionOp::NotEquals, WidgetTextContent::Field(s("y")), None);
    assert!(v.contains("if entry.x != y {"));
    let v = cond(WidgetConditionOp::LessThan, WidgetTextContent::Template(vec![]), None);
    assert!(v.contains("if entry.x < \"\" {"));
    let v = cond(WidgetConditionOp::LessThan, WidgetTextContent::Literal(s("2.50")), Some(s("2.5")));
    assert!(v.contains("if entry.x < 2.5 {"));
}

#[test]
fn nested_stacks_indent_one_level_each() {
    let w = one_node(WidgetNode::Stack {
        kind: WidgetStackKind::HStack,
        spacing: None,
        children: vec![WidgetNode::Stack {
            kind: WidgetStackKind::ZStack,
            spacing: None,
            children: vec![WidgetNode::Spacer],
            modifiers: vec![],
        }],
        modifiers: vec![],
    });
    let v = emit_view(&w, "N");
    assert!(v.contains("        HStack {\n            ZStack {\n                Spacer()\n            }\n        }\n"));
}

#[test]
fn timeline_provider_placeholder_values() {
    let mut w = one_node(WidgetNode::Spacer);
    w.entry_fields = vec![
        (s("t"), WidgetFieldType::String),
        (s("n"), WidgetFieldType::Number),
        (s("b"), WidgetFieldType::Boolean),
    ];
    let p = emit_timeline_provider(&w, "P");
    assert!(p.starts_with("struct PProvider: TimelineProvider {\n    func placeholder(in context: Context) -> PEntry {\n"));
    assert!(p.contains("        PEntry(date: Date(), t: \"...\", n: 0, b: false)\n"));
    assert!(p.contains("completion: @escaping (Timeline<PEntry>) -> ()) {\n"));
    assert!(p.ends_with("        completion(timeline)\n    }\n}\n"));
}

#[test]
fn widget_bundle_options_only_when_set() {
    let mut w = one_node(WidgetNode::Spacer);
    let plain = emit_widget_bundle(&w, "B");
    assert_eq!(
        plain,
        "@main\nstruct BWidgetBundle: SwiftUI.WidgetBundle {\n    var body: some Widget {\n        BWidget()\n    }\n}\n\nstruct BWidget: Widget {\n    let kind: String = \"com.test.One\"\n\n    var body: some WidgetConfiguration {\n        StaticConfiguration(kind: kind, provider: BProvider()) { entry in\n            BView(entry: entry)\n        }\n    }\n}\n"
    );
    w.display_name = s("My \"W\"");
    w.description = s("D");
    w.supported_families = vec![s("systemSmall"), s("systemLarge")];
    let full = emit_widget_bundle(&w, "B");
    assert!(full.contains(
        "        }\n        .configurationDisplayName(\"My \\\"W\\\"\")\n        .description(\"D\")\n        .supportedFamilies([.systemSmall, .systemLarge])\n    }\n}\n"
    ));
}

#[test]
fn named_and_hex_colors() {
    assert_eq!(swift_color_expr("red"), "Color.red");
    assert_eq!(swift_color_expr("grey"), "Color.gray");
    assert_eq!(swift_color_expr("clear"), "Color.clear");
    assert_eq!(swift_color_expr("teal"), "Color.teal");
    assert_eq!(swift_color_expr("#000000"), "Color(red: 0.000, green: 0.000, blue: 0.000)");
    assert_eq!(swift_color_expr("#FFffff"), "Color(red: 1.000, green: 1.000, blue: 1.000)");
    assert_eq!(swift_color_expr("#102030"), "Color(red: 0.063, green: 0.125, blue: 0.188)");
    // A sign before one digit is read as that digit.
    assert_eq!(swift_color_expr("#+f0000"), "Color(red: 0.059, green: 0.000, blue: 0.000)");
    // Not two hex digits per component: the name is kept.
    assert_eq!(swift_color_expr("#12345g"), "Color.#12345g");
    assert_eq!(swift_color_expr("#12345"), "Color.#12345");
    assert_eq!(swift_color_expr("#ééé"), "Color.#ééé");
}

#[test]
fn hex_components_match_float_rounding() {
    for v in 0u32..256 {
        let c = format!("#{:02x}0000", v);
        let expected = format!("Color(red: {:.3}, green: {:.3}, blue: {:.3})", v as f64 / 255.0, 0.0f64, 0.0f64);
        assert_eq!(swift_color_expr(&c), expected);
    }
}
