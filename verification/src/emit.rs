//! SwiftUI source for a widget: the timeline entry struct, the view, the
//! timeline provider and the widget bundle.

use vstd::prelude::*;
use crate::widget::{
    WidgetDecl, WidgetFieldType, WidgetNode, WidgetTextContent, WidgetTemplatePart,
    WidgetStackKind, WidgetConditionOp, WidgetFont, WidgetModifier,
};
use crate::swift::{swift_escaped, swift_color, color_slicable, escape_swift_string, swift_color_expr};
use crate::args::{dec_text, decimal, join_with};
use crate::strs::push_str;

verus! {

// ============ What the source says ============

/// Four spaces per indentation level.
pub open spec fn pad(n: nat) -> Seq<char>
    decreases n,
{
    if n == 0 {
        Seq::empty()
    } else {
        pad((n - 1) as nat) + "    "@
    }
}

/// The Swift type of an entry field.
pub open spec fn swift_type(t: WidgetFieldType) -> Seq<char> {
    match t {
        WidgetFieldType::String => "String"@,
        WidgetFieldType::Number => "Double"@,
        WidgetFieldType::Boolean => "Bool"@,
    }
}

/// The Swift expression of a text content: a string literal, with entry
/// fields interpolated.
pub open spec fn text_content_text(c: WidgetTextContent, e: Seq<char>) -> Seq<char> {
    match c {
        WidgetTextContent::Literal(s) => "\""@ + swift_escaped(s@) + "\""@,
        WidgetTextContent::Field(f) => "\"\\("@ + e + "."@ + f@ + ")\""@,
        WidgetTextContent::Template(parts) => "\""@ + parts_text(parts@, e) + "\""@,
    }
}

/// The inside of a template string literal.
pub open spec fn parts_text(parts: Seq<WidgetTemplatePart>, e: Seq<char>) -> Seq<char>
    decreases parts.len(),
{
    if parts.len() == 0 {
        Seq::empty()
    } else {
        parts_text(parts.drop_last(), e) + part_text(parts.last(), e)
    }
}

/// One piece of a template string literal.
pub open spec fn part_text(p: WidgetTemplatePart, e: Seq<char>) -> Seq<char> {
    match p {
        WidgetTemplatePart::Literal(l) => swift_escaped(l@),
        WidgetTemplatePart::Field(f) => "\\("@ + e + "."@ + f@ + ")"@,
    }
}

/// The right-hand side of a comparison: the number, when the literal reads
/// as one; else the literal as a string; a field by its name; a template
/// as the empty string.
pub open spec fn cond_value_text(value: WidgetTextContent, number: Option<String>) -> Seq<char> {
    match value {
        WidgetTextContent::Literal(s) => match number {
            Some(n) => n@,
            None => "\""@ + swift_escaped(s@) + "\""@,
        },
        WidgetTextContent::Field(f) => f@,
        WidgetTextContent::Template(_) => "\"\""@,
    }
}

/// The condition of a conditional node.
pub open spec fn cond_text(
    field: Seq<char>,
    op: WidgetConditionOp,
    value: WidgetTextContent,
    number: Option<String>,
    e: Seq<char>,
) -> Seq<char> {
    let lhs = e + "."@ + field;
    match op {
        WidgetConditionOp::Truthy => lhs,
        WidgetConditionOp::GreaterThan => lhs + " > "@ + cond_value_text(value, number),
        WidgetConditionOp::LessThan => lhs + " < "@ + cond_value_text(value, number),
        WidgetConditionOp::Equals => lhs + " == "@ + cond_value_text(value, number),
        WidgetConditionOp::NotEquals => lhs + " != "@ + cond_value_text(value, number),
    }
}

/// The argument of `.font(..)`.
pub open spec fn font_text(f: WidgetFont) -> Seq<char> {
    match f {
        WidgetFont::System(size) => ".system(size: "@ + size@ + ")"@,
        WidgetFont::Named(name) => ".custom(\""@ + swift_escaped(name@) + "\", size: 17)"@,
        WidgetFont::Headline => ".headline"@,
        WidgetFont::Title => ".title"@,
        WidgetFont::Title2 => ".title2"@,
        WidgetFont::Title3 => ".title3"@,
        WidgetFont::Body => ".body"@,
        WidgetFont::Caption => ".caption"@,
        WidgetFont::Caption2 => ".caption2"@,
        WidgetFont::Footnote => ".footnote"@,
        WidgetFont::Subheadline => ".subheadline"@,
        WidgetFont::LargeTitle => ".largeTitle"@,
    }
}

/// The arguments of `.frame(..)`: the width and the height that are set.
pub open spec fn frame_args(width: Option<String>, height: Option<String>) -> Seq<Seq<char>> {
    let w: Seq<Seq<char>> = match width {
        Some(w) => seq!["width: "@ + w@],
        None => Seq::empty(),
    };
    let h: Seq<Seq<char>> = match height {
        Some(h) => seq!["height: "@ + h@],
        None => Seq::empty(),
    };
    w + h
}

/// One modifier, on a line of its own one level deeper than its view.
pub open spec fn modifier_text(m: WidgetModifier, ind: nat) -> Seq<char> {
    let head = "\n"@ + pad(ind);
    match m {
        WidgetModifier::Font(f) => head + "    .font("@ + font_text(f) + ")"@,
        WidgetModifier::FontWeight(w) => head + "    .fontWeight(."@ + w@ + ")"@,
        WidgetModifier::ForegroundColor(c) => head + "    .foregroundColor("@ + swift_color(c@)
            + ")"@,
        WidgetModifier::Padding(p) => head + "    .padding("@ + p@ + ")"@,
        WidgetModifier::Frame { width, height } => {
            let args = frame_args(width, height);
            if args.len() == 0 {
                Seq::empty()
            } else {
                head + "    .frame("@ + join_with(args, ", "@) + ")"@
            }
        },
        WidgetModifier::CornerRadius(r) => head + "    .cornerRadius("@ + r@ + ")"@,
        WidgetModifier::Background(c) => head + "    .background("@ + swift_color(c@) + ")"@,
        WidgetModifier::Opacity(o) => head + "    .opacity("@ + o@ + ")"@,
        WidgetModifier::LineLimit(n) => head + "    .lineLimit("@ + dec_text(n as nat) + ")"@,
        WidgetModifier::Multiline => head + "    .lineLimit(nil)"@,
    }
}

/// A list of modifiers, in order.
pub open spec fn modifiers_text(ms: Seq<WidgetModifier>, ind: nat) -> Seq<char>
    decreases ms.len(),
{
    if ms.len() == 0 {
        Seq::empty()
    } else {
        modifiers_text(ms.drop_last(), ind) + modifier_text(ms.last(), ind)
    }
}

/// The name of a stack view.
pub open spec fn stack_name(k: WidgetStackKind) -> Seq<char> {
    match k {
        WidgetStackKind::VStack => "VStack"@,
        WidgetStackKind::HStack => "HStack"@,
        WidgetStackKind::ZStack => "ZStack"@,
    }
}

/// The source of one node at an indentation level.
pub open spec fn node_text(n: WidgetNode, e: Seq<char>, ind: nat) -> Seq<char>
    decreases n,
{
    match n {
        WidgetNode::Text { content, modifiers } => pad(ind) + "Text("@ + text_content_text(content, e)
            + ")"@ + modifiers_text(modifiers@, ind) + "\n"@,
        WidgetNode::Stack { kind, spacing, children, modifiers } => {
            let head = match spacing {
                Some(sp) => pad(ind) + stack_name(kind) + "(spacing: "@ + sp@ + ")"@,
                None => pad(ind) + stack_name(kind),
            };
            head + " {\n"@ + nodes_text(children@, e, ind + 1) + pad(ind) + "}"@ + modifiers_text(
                modifiers@,
                ind,
            ) + "\n"@
        },
        WidgetNode::Image { system_name, modifiers } => pad(ind) + "Image(systemName: \""@
            + swift_escaped(system_name@) + "\")"@ + modifiers_text(modifiers@, ind) + "\n"@,
        WidgetNode::Spacer => pad(ind) + "Spacer()\n"@,
        WidgetNode::Conditional { field, op, value, value_number, then_node, else_node } => {
            let head = pad(ind) + "if "@ + cond_text(field@, op, value, value_number, e) + " {\n"@
                + node_text(*then_node, e, ind + 1);
            let body = match else_node {
                Some(b) => head + pad(ind) + "} else {\n"@ + node_text(*b, e, ind + 1),
                None => head,
            };
            body + pad(ind) + "}\n"@
        },
    }
}

/// The source of a list of nodes, one after another.
pub open spec fn nodes_text(s: Seq<WidgetNode>, e: Seq<char>, ind: nat) -> Seq<char>
    decreases s,
{
    if s.len() == 0 {
        Seq::empty()
    } else {
        nodes_text(s.drop_last(), e, ind) + node_text(s.last(), e, ind)
    }
}

/// One line of the entry struct per field.
pub open spec fn entry_fields_text(fs: Seq<(String, WidgetFieldType)>) -> Seq<char>
    decreases fs.len(),
{
    if fs.len() == 0 {
        Seq::empty()
    } else {
        entry_fields_text(fs.drop_last()) + "    let "@ + fs.last().0@ + ": "@ + swift_type(
            fs.last().1,
        ) + "\n"@
    }
}

/// The `TimelineEntry` struct: a date and the entry fields.
pub open spec fn entry_struct_text(w: WidgetDecl, name: Seq<char>) -> Seq<char> {
    "struct "@ + name + "Entry: TimelineEntry {\n    let date: Date\n"@ + entry_fields_text(
        w.entry_fields@,
    ) + "}\n"@
}

/// The body of the view: a placeholder text when the render body is empty,
/// its one node, or its nodes in a `VStack`.
pub open spec fn view_body_text(body: Seq<WidgetNode>, e: Seq<char>) -> Seq<char> {
    if body.len() == 0 {
        "        Text(\"Empty widget\")\n"@
    } else if body.len() == 1 {
        node_text(body[0], e, 2)
    } else {
        "        VStack {\n"@ + nodes_text(body, e, 3) + "        }\n"@
    }
}

/// The SwiftUI view of the widget.
pub open spec fn view_text(w: WidgetDecl, name: Seq<char>) -> Seq<char> {
    let e = w.entry_param_name@;
    "struct "@ + name + "View: View {\n    let "@ + e + ": "@ + name
        + "Entry\n\n    var body: some View {\n"@ + view_body_text(w.render_body@, e)
        + "    }\n}\n"@
}

/// The placeholder value of one entry field.
pub open spec fn placeholder_arg(f: (String, WidgetFieldType)) -> Seq<char> {
    match f.1 {
        WidgetFieldType::String => ", "@ + f.0@ + ": \"...\""@,
        WidgetFieldType::Number => ", "@ + f.0@ + ": 0"@,
        WidgetFieldType::Boolean => ", "@ + f.0@ + ": false"@,
    }
}

/// The placeholder values of the entry fields.
pub open spec fn placeholder_args(fs: Seq<(String, WidgetFieldType)>) -> Seq<char>
    decreases fs.len(),
{
    if fs.len() == 0 {
        Seq::empty()
    } else {
        placeholder_args(fs.drop_last()) + placeholder_arg(fs.last())
    }
}

/// The `TimelineProvider`: a placeholder entry, which is also the snapshot
/// and the one entry of the timeline.
pub open spec fn provider_text(w: WidgetDecl, name: Seq<char>) -> Seq<char> {
    "struct "@ + name + "Provider: TimelineProvider {\n    func placeholder(in context: Context) -> "@
        + name + "Entry {\n        "@ + name + "Entry(date: Date()"@ + placeholder_args(
        w.entry_fields@,
    ) + ")\n    }\n\n    func getSnapshot(in context: Context, completion: @escaping ("@ + name
        + "Entry) -> ()) {\n        completion(placeholder(in: context))\n    }\n\n    func getTimeline(in context: Context, completion: @escaping (Timeline<"@
        + name
        + "Entry>) -> ()) {\n        let entry = placeholder(in: context)\n        let timeline = Timeline(entries: [entry], policy: .atEnd)\n        completion(timeline)\n    }\n}\n"@
}

/// The supported families as Swift enum cases.
pub open spec fn family_cases(fs: Seq<String>) -> Seq<Seq<char>> {
    fs.map_values(|f: String| "."@ + f@)
}

/// The configuration lines that are written only when their value is set.
pub open spec fn bundle_options_text(w: WidgetDecl) -> Seq<char> {
    let dn = if w.display_name@.len() == 0 {
        Seq::empty()
    } else {
        "        .configurationDisplayName(\""@ + swift_escaped(w.display_name@) + "\")\n"@
    };
    let ds = if w.description@.len() == 0 {
        Seq::empty()
    } else {
        "        .description(\""@ + swift_escaped(w.description@) + "\")\n"@
    };
    let fm = if w.supported_families@.len() == 0 {
        Seq::empty()
    } else {
        "        .supportedFamilies(["@ + join_with(family_cases(w.supported_families@), ", "@)
            + "])\n"@
    };
    dn + ds + fm
}

/// The `@main` widget bundle and the widget with its static configuration.
pub open spec fn bundle_text(w: WidgetDecl, name: Seq<char>) -> Seq<char> {
    "@main\nstruct "@ + name
        + "WidgetBundle: SwiftUI.WidgetBundle {\n    var body: some Widget {\n        "@ + name
        + "Widget()\n    }\n}\n\nstruct "@ + name + "Widget: Widget {\n    let kind: String = \""@
        + w.kind@
        + "\"\n\n    var body: some WidgetConfiguration {\n        StaticConfiguration(kind: kind, provider: "@
        + name + "Provider()) { entry in\n            "@ + name + "View("@ + w.entry_param_name@
        + ": entry)\n        }\n"@ + bundle_options_text(w) + "    }\n}\n"@
}

/// The render tree of a widget can be written: every color in it can be
/// read, and its depth leaves room for the indentation.
pub open spec fn widget_ok(w: WidgetDecl) -> bool {
    nodes_ok(w.render_body@) && nodes_depth(w.render_body@) + 3 <= usize::MAX
}

// ============ What the emitter can take ============

/// The number of nesting levels of a node (one for a leaf).
pub open spec fn node_depth(n: WidgetNode) -> nat
    decreases n,
{
    match n {
        WidgetNode::Stack { children, .. } => 1 + nodes_depth(children@),
        WidgetNode::Conditional { then_node, else_node, .. } => {
            let t = node_depth(*then_node);
            match else_node {
                Some(b) => {
                    let f = node_depth(*b);
                    1 + if t < f {
                        f
                    } else {
                        t
                    }
                },
                None => 1 + t,
            }
        },
        _ => 1,
    }
}

/// The deepest node of a list (zero for none).
pub open spec fn nodes_depth(s: Seq<WidgetNode>) -> nat
    decreases s,
{
    if s.len() == 0 {
        0
    } else {
        let a = nodes_depth(s.drop_last());
        let b = node_depth(s.last());
        if a < b {
            b
        } else {
            a
        }
    }
}

/// Every color of the modifiers can be read.
pub open spec fn modifiers_ok(ms: Seq<WidgetModifier>) -> bool {
    forall|i: int|
        0 <= i < ms.len() ==> match #[trigger] ms[i] {
            WidgetModifier::ForegroundColor(c) => color_slicable(c@),
            WidgetModifier::Background(c) => color_slicable(c@),
            _ => true,
        }
}

/// Every color in a node and the nodes under it can be read.
pub open spec fn node_ok(n: WidgetNode) -> bool
    decreases n,
{
    match n {
        WidgetNode::Text { modifiers, .. } => modifiers_ok(modifiers@),
        WidgetNode::Stack { children, modifiers, .. } => modifiers_ok(modifiers@) && nodes_ok(
            children@,
        ),
        WidgetNode::Image { modifiers, .. } => modifiers_ok(modifiers@),
        WidgetNode::Spacer => true,
        WidgetNode::Conditional { then_node, else_node, .. } => node_ok(*then_node) && match else_node {
            Some(b) => node_ok(*b),
            None => true,
        },
    }
}

/// Every node of a list is `node_ok`.
pub open spec fn nodes_ok(s: Seq<WidgetNode>) -> bool
    decreases s,
{
    if s.len() == 0 {
        true
    } else {
        nodes_ok(s.drop_last()) && node_ok(s.last())
    }
}

// ============ The emitter ============

fn push_pad(out: &mut String, n: usize)
    ensures
        final(out)@ == old(out)@ + pad(n as nat),
{
    let ghost start = out@;
    let mut i: usize = 0;
    assert(start + pad(0) =~= start);
    while i < n
        invariant
            i <= n,
            out@ == start + pad(i as nat),
        decreases n - i,
    {
        push_str(out, "    ");
        i = i + 1;
        assert(out@ =~= start + pad(i as nat));
    }
}

fn push_parts(out: &mut String, parts: &Vec<WidgetTemplatePart>, entry_param: &str)
    ensures
        final(out)@ == old(out)@ + parts_text(parts@, entry_param@),
{
    let ghost start = out@;
    let mut i: usize = 0;
    assert(parts@.take(0) =~= Seq::<WidgetTemplatePart>::empty());
    assert(start + parts_text(parts@.take(0), entry_param@) =~= start);
    while i < parts.len()
        invariant
            i <= parts@.len(),
            out@ == start + parts_text(parts@.take(i as int), entry_param@),
        decreases parts@.len() - i,
    {
        let ghost before = out@;
        match &parts[i] {
            WidgetTemplatePart::Literal(lit) => {
                let esc = escape_swift_string(lit.as_str());
                push_str(out, esc.as_str());
            },
            WidgetTemplatePart::Field(field) => {
                push_str(out, "\\(");
                push_str(out, entry_param);
                push_str(out, ".");
                push_str(out, field.as_str());
                push_str(out, ")");
            },
        }
        assert(out@ =~= before + part_text(parts@[i as int], entry_param@));
        assert(parts@.take(i + 1).drop_last() =~= parts@.take(i as int));
        i = i + 1;
        assert(out@ =~= start + parts_text(parts@.take(i as int), entry_param@));
    }
    assert(parts@.take(parts@.len() as int) =~= parts@);
}

/// The Swift expression of a text content.
fn emit_text_content(content: &WidgetTextContent, entry_param: &str) -> (r: String)
    ensures
        r@ == text_content_text(*content, entry_param@),
{
    let mut s = String::new();
    match content {
        WidgetTextContent::Literal(lit) => {
            push_str(&mut s, "\"");
            let esc = escape_swift_string(lit.as_str());
            push_str(&mut s, esc.as_str());
            push_str(&mut s, "\"");
        },
        WidgetTextContent::Field(field) => {
            push_str(&mut s, "\"\\(");
            push_str(&mut s, entry_param);
            push_str(&mut s, ".");
            push_str(&mut s, field.as_str());
            push_str(&mut s, ")\"");
        },
        WidgetTextContent::Template(parts) => {
            push_str(&mut s, "\"");
            push_parts(&mut s, parts, entry_param);
            push_str(&mut s, "\"");
        },
    }
    assert(s@ =~= text_content_text(*content, entry_param@));
    s
}

fn emit_condition_value(value: &WidgetTextContent, value_number: &Option<String>) -> (r: String)
    ensures
        r@ == cond_value_text(*value, *value_number),
{
    match value {
        WidgetTextContent::Literal(lit) => match value_number {
            Some(n) => n.clone(),
            None => {
                let mut s = String::new();
                push_str(&mut s, "\"");
                let esc = escape_swift_string(lit.as_str());
                push_str(&mut s, esc.as_str());
                push_str(&mut s, "\"");
                s
            },
        },
        WidgetTextContent::Field(f) => f.clone(),
        WidgetTextContent::Template(_) => "\"\"".to_owned(),
    }
}

/// The condition of a conditional node.
fn emit_condition(
    field: &str,
    op: WidgetConditionOp,
    value: &WidgetTextContent,
    value_number: &Option<String>,
    entry_param: &str,
) -> (r: String)
    ensures
        r@ == cond_text(field@, op, *value, *value_number, entry_param@),
{
    let mut s = String::new();
    push_str(&mut s, entry_param);
    push_str(&mut s, ".");
    push_str(&mut s, field);
    match op {
        WidgetConditionOp::Truthy => {},
        WidgetConditionOp::GreaterThan => {
            push_str(&mut s, " > ");
            let v = emit_condition_value(value, value_number);
            push_str(&mut s, v.as_str());
        },
        WidgetConditionOp::LessThan => {
            push_str(&mut s, " < ");
            let v = emit_condition_value(value, value_number);
            push_str(&mut s, v.as_str());
        },
        WidgetConditionOp::Equals => {
            push_str(&mut s, " == ");
            let v = emit_condition_value(value, value_number);
            push_str(&mut s, v.as_str());
        },
        WidgetConditionOp::NotEquals => {
            push_str(&mut s, " != ");
            let v = emit_condition_value(value, value_number);
            push_str(&mut s, v.as_str());
        },
    }
    s
}

fn push_font(out: &mut String, font: &WidgetFont)
    ensures
        final(out)@ == old(out)@ + font_text(*font),
{
    match font {
        WidgetFont::System(size) => {
            push_str(out, ".system(size: ");
            push_str(out, size.as_str());
            push_str(out, ")");
        },
        WidgetFont::Named(name) => {
            push_str(out, ".custom(\"");
            let esc = escape_swift_string(name.as_str());
            push_str(out, esc.as_str());
            push_str(out, "\", size: 17)");
        },
        WidgetFont::Headline => push_str(out, ".headline"),
        WidgetFont::Title => push_str(out, ".title"),
        WidgetFont::Title2 => push_str(out, ".title2"),
        WidgetFont::Title3 => push_str(out, ".title3"),
        WidgetFont::Body => push_str(out, ".body"),
        WidgetFont::Caption => push_str(out, ".caption"),
        WidgetFont::Caption2 => push_str(out, ".caption2"),
        WidgetFont::Footnote => push_str(out, ".footnote"),
        WidgetFont::Subheadline => push_str(out, ".subheadline"),
        WidgetFont::LargeTitle => push_str(out, ".largeTitle"),
    }
}

fn push_frame(out: &mut String, width: &Option<String>, height: &Option<String>, indent: usize)
    ensures
        final(out)@ == old(out)@ + modifier_text(
            WidgetModifier::Frame { width: *width, height: *height },
            indent as nat,
        ),
{
    let ghost args = frame_args(*width, *height);
    if width.is_none() && height.is_none() {
        assert(args.len() == 0);
        assert(old(out)@ + Seq::<char>::empty() =~= old(out)@);
        return;
    }
    push_str(out, "\n");
    push_pad(out, indent);
    push_str(out, "    .frame(");
    match width {
        Some(w) => {
            push_str(out, "width: ");
            push_str(out, w.as_str());
        },
        None => {},
    }
    match height {
        Some(h) => {
            if width.is_some() {
                push_str(out, ", ");
            }
            push_str(out, "height: ");
            push_str(out, h.as_str());
        },
        None => {},
    }
    push_str(out, ")");
    let ghost wv = *width;
    let ghost hv = *height;
    proof {
        let head = "\n"@ + pad(indent as nat) + "    .frame("@;
        match (wv, hv) {
            (Some(w), Some(h)) => {
                assert(args =~= seq!["width: "@ + w@, "height: "@ + h@]);
                assert(args.drop_last() =~= seq!["width: "@ + w@]);
                assert(join_with(args.drop_last(), ", "@) == "width: "@ + w@);
            },
            (Some(w), None) => {
                assert(args =~= seq!["width: "@ + w@]);
            },
            (None, Some(h)) => {
                assert(args =~= seq!["height: "@ + h@]);
            },
            (None, None) => {},
        }
        assert(final(out)@ =~= old(out)@ + (head + join_with(args, ", "@) + ")"@));
    }
}

fn push_modifier(out: &mut String, m: &WidgetModifier, indent: usize)
    requires
        match *m {
            WidgetModifier::ForegroundColor(c) => color_slicable(c@),
            WidgetModifier::Background(c) => color_slicable(c@),
            _ => true,
        },
    ensures
        final(out)@ == old(out)@ + modifier_text(*m, indent as nat),
{
    if let WidgetModifier::Frame { width, height } = m {
        push_frame(out, width, height, indent);
        return;
    }
    push_str(out, "\n");
    push_pad(out, indent);
    match m {
        WidgetModifier::Font(f) => {
            push_str(out, "    .font(");
            push_font(out, f);
            push_str(out, ")");
        },
        WidgetModifier::FontWeight(w) => {
            push_str(out, "    .fontWeight(.");
            push_str(out, w.as_str());
            push_str(out, ")");
        },
        WidgetModifier::ForegroundColor(c) => {
            push_str(out, "    .foregroundColor(");
            let col = swift_color_expr(c.as_str());
            push_str(out, col.as_str());
            push_str(out, ")");
        },
        WidgetModifier::Padding(p) => {
            push_str(out, "    .padding(");
            push_str(out, p.as_str());
            push_str(out, ")");
        },
        WidgetModifier::Frame { .. } => {},
        WidgetModifier::CornerRadius(r) => {
            push_str(out, "    .cornerRadius(");
            push_str(out, r.as_str());
            push_str(out, ")");
        },
        WidgetModifier::Background(c) => {
            push_str(out, "    .background(");
            let col = swift_color_expr(c.as_str());
            push_str(out, col.as_str());
            push_str(out, ")");
        },
        WidgetModifier::Opacity(o) => {
            push_str(out, "    .opacity(");
            push_str(out, o.as_str());
            push_str(out, ")");
        },
        WidgetModifier::LineLimit(n) => {
            push_str(out, "    .lineLimit(");
            let t = decimal(*n);
            push_str(out, t.as_str());
            push_str(out, ")");
        },
        WidgetModifier::Multiline => {
            push_str(out, "    .lineLimit(nil)");
        },
    }
}

/// Appends the modifiers as chained method calls, each on a line of its own.
fn emit_modifiers(out: &mut String, modifiers: &[WidgetModifier], indent: usize)
    requires
        modifiers_ok(modifiers@),
    ensures
        final(out)@ == old(out)@ + modifiers_text(modifiers@, indent as nat),
{
    let ghost start = out@;
    let mut i: usize = 0;
    assert(modifiers@.take(0) =~= Seq::<WidgetModifier>::empty());
    assert(start + modifiers_text(modifiers@.take(0), indent as nat) =~= start);
    while i < modifiers.len()
        invariant
            i <= modifiers@.len(),
            modifiers_ok(modifiers@),
            out@ == start + modifiers_text(modifiers@.take(i as int), indent as nat),
        decreases modifiers@.len() - i,
    {
        let ghost before = out@;
        let ghost m = modifiers@[i as int];
        assert(match m {
            WidgetModifier::ForegroundColor(c) => color_slicable(c@),
            WidgetModifier::Background(c) => color_slicable(c@),
            _ => true,
        });
        push_modifier(out, &modifiers[i], indent);
        assert(modifiers@.take(i + 1).drop_last() =~= modifiers@.take(i as int));
        i = i + 1;
        assert(out@ =~= start + modifiers_text(modifiers@.take(i as int), indent as nat));
    }
    assert(modifiers@.take(modifiers@.len() as int) =~= modifiers@);
}

proof fn lemma_nodes_elem(s: Seq<WidgetNode>, i: int)
    requires
        0 <= i < s.len(),
    ensures
        node_depth(s[i]) <= nodes_depth(s),
        nodes_ok(s) ==> node_ok(s[i]),
    decreases s.len(),
{
    if i < s.len() - 1 {
        lemma_nodes_elem(s.drop_last(), i);
    }
}

/// The source of one node at an indentation level.
fn emit_node(node: &WidgetNode, entry_param: &str, indent: usize) -> (r: String)
    requires
        indent + node_depth(*node) <= usize::MAX,
        node_ok(*node),
    ensures
        r@ == node_text(*node, entry_param@, indent as nat),
    decreases node,
{
    let mut out = String::new();
    push_pad(&mut out, indent);
    match node {
        WidgetNode::Text { content, modifiers } => {
            push_str(&mut out, "Text(");
            let t = emit_text_content(content, entry_param);
            push_str(&mut out, t.as_str());
            push_str(&mut out, ")");
            emit_modifiers(&mut out, modifiers.as_slice(), indent);
            push_str(&mut out, "\n");
        },
        WidgetNode::Stack { kind, spacing, children, modifiers } => {
            match kind {
                WidgetStackKind::VStack => push_str(&mut out, "VStack"),
                WidgetStackKind::HStack => push_str(&mut out, "HStack"),
                WidgetStackKind::ZStack => push_str(&mut out, "ZStack"),
            }
            match spacing {
                Some(sp) => {
                    push_str(&mut out, "(spacing: ");
                    push_str(&mut out, sp.as_str());
                    push_str(&mut out, ")");
                },
                None => {},
            }
            push_str(&mut out, " {\n");
            let ghost start = out@;
            let ghost e = entry_param@;
            let ghost ind1 = (indent + 1) as nat;
            let mut i: usize = 0;
            assert(children@.take(0) =~= Seq::<WidgetNode>::empty());
            assert(start + nodes_text(children@.take(0), e, ind1) =~= start);
            assert forall|j: int| 0 <= j < children@.len() implies decreases_to!(*node => #[trigger] children@[j]) by {
                assert(decreases_to!(*children => children@));
            }
            while i < children.len()
                invariant
                    i <= children@.len(),
                    indent + 1 + nodes_depth(children@) <= usize::MAX,
                    nodes_ok(children@),
                    e == entry_param@,
                    ind1 == indent + 1,
                    out@ == start + nodes_text(children@.take(i as int), e, ind1),
                    forall|j: int|
                        0 <= j < children@.len() ==> decreases_to!(*node => #[trigger] children@[j]),
                decreases children@.len() - i,
            {
                proof {
                    lemma_nodes_elem(children@, i as int);
                }
                let c = emit_node(&children[i], entry_param, indent + 1);
                push_str(&mut out, c.as_str());
                assert(children@.take(i + 1).drop_last() =~= children@.take(i as int));
                i = i + 1;
                assert(out@ =~= start + nodes_text(children@.take(i as int), e, ind1));
            }
            assert(children@.take(children@.len() as int) =~= children@);
            push_pad(&mut out, indent);
            push_str(&mut out, "}");
            emit_modifiers(&mut out, modifiers.as_slice(), indent);
            push_str(&mut out, "\n");
        },
        WidgetNode::Image { system_name, modifiers } => {
            push_str(&mut out, "Image(systemName: \"");
            let esc = escape_swift_string(system_name.as_str());
            push_str(&mut out, esc.as_str());
            push_str(&mut out, "\")");
            emit_modifiers(&mut out, modifiers.as_slice(), indent);
            push_str(&mut out, "\n");
        },
        WidgetNode::Spacer => {
            push_str(&mut out, "Spacer()\n");
        },
        WidgetNode::Conditional { field, op, value, value_number, then_node, else_node } => {
            let cond = emit_condition(field.as_str(), *op, value, value_number, entry_param);
            push_str(&mut out, "if ");
            push_str(&mut out, cond.as_str());
            push_str(&mut out, " {\n");
            let t = emit_node(then_node, entry_param, indent + 1);
            push_str(&mut out, t.as_str());
            match else_node {
                Some(b) => {
                    push_pad(&mut out, indent);
                    push_str(&mut out, "} else {\n");
                    let f = emit_node(b, entry_param, indent + 1);
                    push_str(&mut out, f.as_str());
                },
                None => {},
            }
            push_pad(&mut out, indent);
            push_str(&mut out, "}\n");
        },
    }
    out
}

/// The `TimelineEntry` struct of a widget.
pub fn emit_entry_struct(widget: &WidgetDecl, name: &str) -> (r: String)
    ensures
        r@ == entry_struct_text(*widget, name@),
{
    let mut out = String::new();
    push_str(&mut out, "struct ");
    push_str(&mut out, name);
    push_str(&mut out, "Entry: TimelineEntry {\n    let date: Date\n");
    let ghost start = out@;
    let fs = &widget.entry_fields;
    let mut i: usize = 0;
    assert(fs@.take(0) =~= Seq::<(String, WidgetFieldType)>::empty());
    assert(start + entry_fields_text(fs@.take(0)) =~= start);
    while i < fs.len()
        invariant
            i <= fs@.len(),
            out@ == start + entry_fields_text(fs@.take(i as int)),
        decreases fs@.len() - i,
    {
        let (field_name, field_type) = &fs[i];
        push_str(&mut out, "    let ");
        push_str(&mut out, field_name.as_str());
        push_str(&mut out, ": ");
        match field_type {
            WidgetFieldType::String => push_str(&mut out, "String"),
            WidgetFieldType::Number => push_str(&mut out, "Double"),
            WidgetFieldType::Boolean => push_str(&mut out, "Bool"),
        }
        push_str(&mut out, "\n");
        assert(fs@.take(i + 1).drop_last() =~= fs@.take(i as int));
        i = i + 1;
        assert(out@ =~= start + entry_fields_text(fs@.take(i as int)));
    }
    assert(fs@.take(fs@.len() as int) =~= fs@);
    push_str(&mut out, "}\n");
    out
}

/// The SwiftUI view of a widget, rendering its body.
pub fn emit_view(widget: &WidgetDecl, name: &str) -> (r: String)
    requires
        widget_ok(*widget),
    ensures
        r@ == view_text(*widget, name@),
{
    let entry_param = widget.entry_param_name.as_str();
    let body = &widget.render_body;
    let mut out = String::new();
    push_str(&mut out, "struct ");
    push_str(&mut out, name);
    push_str(&mut out, "View: View {\n    let ");
    push_str(&mut out, entry_param);
    push_str(&mut out, ": ");
    push_str(&mut out, name);
    push_str(&mut out, "Entry\n\n    var body: some View {\n");
    let ghost before_body = out@;
    if body.len() == 0 {
        push_str(&mut out, "        Text(\"Empty widget\")\n");
    } else if body.len() == 1 {
        proof {
            lemma_nodes_elem(body@, 0);
        }
        let t = emit_node(&body[0], entry_param, 2);
        push_str(&mut out, t.as_str());
    } else {
        push_str(&mut out, "        VStack {\n");
        let ghost start = out@;
        let ghost e = entry_param@;
        let mut i: usize = 0;
        assert(body@.take(0) =~= Seq::<WidgetNode>::empty());
        assert(start + nodes_text(body@.take(0), e, 3) =~= start);
        while i < body.len()
            invariant
                i <= body@.len(),
                nodes_depth(body@) + 3 <= usize::MAX,
                nodes_ok(body@),
                e == entry_param@,
                out@ == start + nodes_text(body@.take(i as int), e, 3),
            decreases body@.len() - i,
        {
            proof {
                lemma_nodes_elem(body@, i as int);
            }
            let t = emit_node(&body[i], entry_param, 3);
            push_str(&mut out, t.as_str());
            assert(body@.take(i + 1).drop_last() =~= body@.take(i as int));
            i = i + 1;
            assert(out@ =~= start + nodes_text(body@.take(i as int), e, 3));
        }
        assert(body@.take(body@.len() as int) =~= body@);
        push_str(&mut out, "        }\n");
    }
    assert(out@ =~= before_body + view_body_text(body@, entry_param@));
    push_str(&mut out, "    }\n}\n");
    out
}

/// The `TimelineProvider` of a widget.
pub fn emit_timeline_provider(widget: &WidgetDecl, name: &str) -> (r: String)
    ensures
        r@ == provider_text(*widget, name@),
{
    let mut out = String::new();
    push_str(&mut out, "struct ");
    push_str(&mut out, name);
    push_str(&mut out, "Provider: TimelineProvider {\n    func placeholder(in context: Context) -> ");
    push_str(&mut out, name);
    push_str(&mut out, "Entry {\n        ");
    push_str(&mut out, name);
    push_str(&mut out, "Entry(date: Date()");
    let ghost start = out@;
    let fs = &widget.entry_fields;
    let mut i: usize = 0;
    assert(fs@.take(0) =~= Seq::<(String, WidgetFieldType)>::empty());
    assert(start + placeholder_args(fs@.take(0)) =~= start);
    while i < fs.len()
        invariant
            i <= fs@.len(),
            out@ == start + placeholder_args(fs@.take(i as int)),
        decreases fs@.len() - i,
    {
        let (field_name, field_type) = &fs[i];
        push_str(&mut out, ", ");
        push_str(&mut out, field_name.as_str());
        match field_type {
            WidgetFieldType::String => push_str(&mut out, ": \"...\""),
            WidgetFieldType::Number => push_str(&mut out, ": 0"),
            WidgetFieldType::Boolean => push_str(&mut out, ": false"),
        }
        assert(fs@.take(i + 1).drop_last() =~= fs@.take(i as int));
        i = i + 1;
        assert(out@ =~= start + placeholder_args(fs@.take(i as int)));
    }
    assert(fs@.take(fs@.len() as int) =~= fs@);
    push_str(&mut out, ")\n    }\n\n    func getSnapshot(in context: Context, completion: @escaping (");
    push_str(&mut out, name);
    push_str(
        &mut out,
        "Entry) -> ()) {\n        completion(placeholder(in: context))\n    }\n\n    func getTimeline(in context: Context, completion: @escaping (Timeline<",
    );
    push_str(&mut out, name);
    push_str(
        &mut out,
        "Entry>) -> ()) {\n        let entry = placeholder(in: context)\n        let timeline = Timeline(entries: [entry], policy: .atEnd)\n        completion(timeline)\n    }\n}\n",
    );
    out
}

fn family_list(fs: &Vec<String>) -> (r: Vec<String>)
    ensures
        crate::args::views(r@) == family_cases(fs@),
{
    let mut r: Vec<String> = Vec::new();
    let mut i: usize = 0;
    while i < fs.len()
        invariant
            i <= fs@.len(),
            r@.len() == i,
            forall|j: int| 0 <= j < i ==> (#[trigger] r@[j])@ == "."@ + fs@[j]@,
        decreases fs@.len() - i,
    {
        let mut c = String::new();
        push_str(&mut c, ".");
        push_str(&mut c, fs[i].as_str());
        r.push(c);
        i = i + 1;
    }
    assert(crate::args::views(r@) =~= family_cases(fs@));
    r
}

/// The `@main` widget bundle of a widget and its static configuration.
pub fn emit_widget_bundle(widget: &WidgetDecl, name: &str) -> (r: String)
    ensures
        r@ == bundle_text(*widget, name@),
{
    let mut out = String::new();
    push_str(&mut out, "@main\nstruct ");
    push_str(&mut out, name);
    push_str(
        &mut out,
        "WidgetBundle: SwiftUI.WidgetBundle {\n    var body: some Widget {\n        ",
    );
    push_str(&mut out, name);
    push_str(&mut out, "Widget()\n    }\n}\n\nstruct ");
    push_str(&mut out, name);
    push_str(&mut out, "Widget: Widget {\n    let kind: String = \"");
    push_str(&mut out, widget.kind.as_str());
    push_str(
        &mut out,
        "\"\n\n    var body: some WidgetConfiguration {\n        StaticConfiguration(kind: kind, provider: ",
    );
    push_str(&mut out, name);
    push_str(&mut out, "Provider()) { entry in\n            ");
    push_str(&mut out, name);
    push_str(&mut out, "View(");
    push_str(&mut out, widget.entry_param_name.as_str());
    push_str(&mut out, ": entry)\n        }\n");
    let ghost start = out@;
    if widget.display_name.unicode_len() != 0 {
        push_str(&mut out, "        .configurationDisplayName(\"");
        let esc = escape_swift_string(widget.display_name.as_str());
        push_str(&mut out, esc.as_str());
        push_str(&mut out, "\")\n");
    }
    let ghost after_dn = out@;
    if widget.description.unicode_len() != 0 {
        push_str(&mut out, "        .description(\"");
        let esc = escape_swift_string(widget.description.as_str());
        push_str(&mut out, esc.as_str());
        push_str(&mut out, "\")\n");
    }
    let ghost after_ds = out@;
    if widget.supported_families.len() != 0 {
        push_str(&mut out, "        .supportedFamilies([");
        let cases = family_list(&widget.supported_families);
        let joined = crate::args::join(&cases, ", ");
        push_str(&mut out, joined.as_str());
        push_str(&mut out, "])\n");
    }
    assert(out@ =~= start + bundle_options_text(*widget));
    push_str(&mut out, "    }\n}\n");
    out
}

} // verus!
