use vstd::prelude::*;

verus! {

/// The type of a field of a native host component.
#[derive(Clone, Copy, Debug, PartialEq, Eq, Structural)]
pub enum NativeHostFieldType {
    String,
    Bool,
    Usize,
}

/// A named, typed field of a native host component.
#[derive(Clone, Copy, Debug, PartialEq, Eq)]
pub struct NativeHostFieldSchema {
    pub name: &'static str,
    pub ty: NativeHostFieldType,
}

/// A command a native host component accepts.
#[derive(Clone, Copy, Debug, PartialEq, Eq)]
pub struct NativeHostCommandSchema {
    pub name: &'static str,
}

/// An event a native host component raises, with its fields.
#[derive(Clone, Debug, PartialEq, Eq)]
pub struct NativeHostEventSchema {
    pub name: &'static str,
    pub fields: Vec<NativeHostFieldSchema>,
}

/// The contract of one kind of native view between the app and the platform host.
#[derive(Clone, Debug, PartialEq, Eq)]
pub struct NativeHostComponentSchema {
    pub name: &'static str,
    pub props: Vec<NativeHostFieldSchema>,
    pub prop_updates: Vec<NativeHostFieldSchema>,
    pub commands: Vec<NativeHostCommandSchema>,
    pub events: Vec<NativeHostEventSchema>,
}

/// A field as plain values: its name and type.
pub type FieldView = (Seq<char>, NativeHostFieldType);

/// A component as plain values.
pub struct ComponentView {
    pub name: Seq<char>,
    pub props: Seq<FieldView>,
    pub prop_updates: Seq<FieldView>,
    pub commands: Seq<Seq<char>>,
    pub events: Seq<(Seq<char>, Seq<FieldView>)>,
}

/// The fields as plain values.
pub open spec fn fields_view(f: Seq<NativeHostFieldSchema>) -> Seq<FieldView> {
    f.map_values(|x: NativeHostFieldSchema| (x.name@, x.ty))
}

impl NativeHostComponentSchema {
    /// The component as plain values.
    pub open spec fn view_of(self) -> ComponentView {
        ComponentView {
            name: self.name@,
            props: fields_view(self.props@),
            prop_updates: fields_view(self.prop_updates@),
            commands: self.commands@.map_values(|c: NativeHostCommandSchema| c.name@),
            events: self.events@.map_values(|e: NativeHostEventSchema| (e.name@, fields_view(e.fields@))),
        }
    }
}

/// The text input component.
pub open spec fn text_input_view() -> ComponentView {
    ComponentView {
        name: "TextInput"@,
        props: seq![("text"@, NativeHostFieldType::String), ("placeholder"@, NativeHostFieldType::String), ("editable"@, NativeHostFieldType::Bool)],
        prop_updates: seq![("text"@, NativeHostFieldType::String), ("placeholder"@, NativeHostFieldType::String), ("editable"@, NativeHostFieldType::Bool)],
        commands: seq!["focus"@, "blur"@, "select_all"@, "copy"@, "cut"@, "paste"@],
        events: seq![
            ("changed"@, seq![("text"@, NativeHostFieldType::String)]),
            ("focus_changed"@, seq![("has_focus"@, NativeHostFieldType::Bool)]),
            ("selection_changed"@, seq![("start"@, NativeHostFieldType::Usize), ("end"@, NativeHostFieldType::Usize)]),
        ],
    }
}

/// The label component.
pub open spec fn label_view() -> ComponentView {
    ComponentView {
        name: "Label"@,
        props: seq![("text"@, NativeHostFieldType::String)],
        prop_updates: seq![("text"@, NativeHostFieldType::String)],
        commands: seq![],
        events: seq![],
    }
}

/// Every native host component, in manifest order.
pub open spec fn spec_native_host_schema() -> Seq<ComponentView> {
    seq![text_input_view(), label_view()]
}

fn field(name: &'static str, ty: NativeHostFieldType) -> (r: NativeHostFieldSchema)
    ensures
        r.name == name,
        r.ty == ty,
{
    NativeHostFieldSchema { name, ty }
}

fn text_input_schema() -> (r: NativeHostComponentSchema)
    ensures
        r.view_of() == text_input_view(),
{
    let mut props = Vec::new();
    props.push(field("text", NativeHostFieldType::String));
    props.push(field("placeholder", NativeHostFieldType::String));
    props.push(field("editable", NativeHostFieldType::Bool));
    let mut prop_updates = Vec::new();
    prop_updates.push(field("text", NativeHostFieldType::String));
    prop_updates.push(field("placeholder", NativeHostFieldType::String));
    prop_updates.push(field("editable", NativeHostFieldType::Bool));
    let mut commands = Vec::new();
    commands.push(NativeHostCommandSchema { name: "focus" });
    commands.push(NativeHostCommandSchema { name: "blur" });
    commands.push(NativeHostCommandSchema { name: "select_all" });
    commands.push(NativeHostCommandSchema { name: "copy" });
    commands.push(NativeHostCommandSchema { name: "cut" });
    commands.push(NativeHostCommandSchema { name: "paste" });
    let mut changed = Vec::new();
    changed.push(field("text", NativeHostFieldType::String));
    let mut focus_changed = Vec::new();
    focus_changed.push(field("has_focus", NativeHostFieldType::Bool));
    let mut selection_changed = Vec::new();
    selection_changed.push(field("start", NativeHostFieldType::Usize));
    selection_changed.push(field("end", NativeHostFieldType::Usize));
    let mut events = Vec::new();
    events.push(NativeHostEventSchema { name: "changed", fields: changed });
    events.push(NativeHostEventSchema { name: "focus_changed", fields: focus_changed });
    events.push(NativeHostEventSchema { name: "selection_changed", fields: selection_changed });
    let r = NativeHostComponentSchema { name: "TextInput", props, prop_updates, commands, events };
    assert(fields_view(r.props@) =~= text_input_view().props);
    assert(fields_view(r.prop_updates@) =~= text_input_view().prop_updates);
    assert(r.commands@.map_values(|c: NativeHostCommandSchema| c.name@) =~= text_input_view().commands);
    assert(fields_view(r.events@[0].fields@) =~= seq![("text"@, NativeHostFieldType::String)]);
    assert(fields_view(r.events@[1].fields@) =~= seq![("has_focus"@, NativeHostFieldType::Bool)]);
    assert(fields_view(r.events@[2].fields@) =~= seq![("start"@, NativeHostFieldType::Usize), ("end"@, NativeHostFieldType::Usize)]);
    assert(r.events@.map_values(|e: NativeHostEventSchema| (e.name@, fields_view(e.fields@))) =~= text_input_view().events);
    r
}

fn label_schema() -> (r: NativeHostComponentSchema)
    ensures
        r.view_of() == label_view(),
{
    let mut props = Vec::new();
    props.push(field("text", NativeHostFieldType::String));
    let mut prop_updates = Vec::new();
    prop_updates.push(field("text", NativeHostFieldType::String));
    let r = NativeHostComponentSchema {
        name: "Label",
        props,
        prop_updates,
        commands: Vec::new(),
        events: Vec::new(),
    };
    assert(fields_view(r.props@) =~= label_view().props);
    assert(fields_view(r.prop_updates@) =~= label_view().prop_updates);
    assert(r.commands@.map_values(|c: NativeHostCommandSchema| c.name@) =~= label_view().commands);
    assert(r.events@.map_values(|e: NativeHostEventSchema| (e.name@, fields_view(e.fields@))) =~= label_view().events);
    r
}

/// Every native host component: the text input and the label.
pub fn native_host_schema() -> (r: Vec<NativeHostComponentSchema>)
    ensures
        r@.map_values(|c: NativeHostComponentSchema| c.view_of()) == spec_native_host_schema(),
{
    let mut r = Vec::new();
    r.push(text_input_schema());
    r.push(label_schema());
    assert(r@.map_values(|c: NativeHostComponentSchema| c.view_of()) =~= spec_native_host_schema());
    r
}

/// The component named `name`, if there is one.
pub fn native_host_component(name: &str) -> (r: Option<NativeHostComponentSchema>)
    ensures
        name@ == "TextInput"@ ==> (r matches Some(c) && c.view_of() == text_input_view()),
        name@ == "Label"@ ==> (r matches Some(c) && c.view_of() == label_view()),
        name@ != "TextInput"@ && name@ != "Label"@ ==> r is None,
{
    proof {
        reveal_strlit("TextInput");
        reveal_strlit("Label");
        assert("TextInput"@.len() != "Label"@.len());
    }
    if crate::text::str_equal(name, "TextInput") {
        Some(text_input_schema())
    } else if crate::text::str_equal(name, "Label") {
        Some(label_schema())
    } else {
        None
    }
}

/// The manifest line name of a field type.
pub open spec fn field_type_label(ty: NativeHostFieldType) -> Seq<char> {
    match ty {
        NativeHostFieldType::String => "String"@,
        NativeHostFieldType::Bool => "bool"@,
        NativeHostFieldType::Usize => "usize"@,
    }
}

/// ` name:type` for each field, in order.
pub open spec fn fields_text(fields: Seq<FieldView>) -> Seq<char>
    decreases fields.len(),
{
    if fields.len() == 0 {
        seq![]
    } else {
        fields_text(fields.drop_last()) + seq![' '] + fields.last().0 + seq![':'] + field_type_label(fields.last().1)
    }
}

/// The manifest line `name field:type ...`, or nothing when there are no fields.
pub open spec fn field_list_line(name: Seq<char>, fields: Seq<FieldView>) -> Seq<char> {
    if fields.len() == 0 {
        seq![]
    } else {
        name + fields_text(fields) + seq!['\n']
    }
}

/// ` name` for each command, in order.
pub open spec fn commands_text(commands: Seq<Seq<char>>) -> Seq<char>
    decreases commands.len(),
{
    if commands.len() == 0 {
        seq![]
    } else {
        commands_text(commands.drop_last()) + seq![' '] + commands.last()
    }
}

/// One manifest line per event with fields, in order.
pub open spec fn events_text(events: Seq<(Seq<char>, Seq<FieldView>)>) -> Seq<char>
    decreases events.len(),
{
    if events.len() == 0 {
        seq![]
    } else {
        events_text(events.drop_last()) + field_list_line(events.last().0, events.last().1)
    }
}

/// The manifest section of one component.
pub open spec fn component_text(c: ComponentView) -> Seq<char> {
    "component "@ + c.name + seq!['\n'] + field_list_line("props"@, c.props) + field_list_line(
        "prop_updates"@,
        c.prop_updates,
    ) + (if c.commands.len() == 0 {
        seq![]
    } else {
        "commands"@ + commands_text(c.commands) + seq!['\n']
    }) + events_text(c.events)
}

/// The manifest of the components `cs`, in order.
pub open spec fn manifest_text(cs: Seq<ComponentView>) -> Seq<char>
    decreases cs.len(),
{
    if cs.len() == 0 {
        seq![]
    } else {
        manifest_text(cs.drop_last()) + component_text(cs.last())
    }
}

fn write_field_list(out: &mut String, name: &str, fields: &Vec<NativeHostFieldSchema>)
    ensures
        final(out)@ == old(out)@ + field_list_line(name@, fields_view(fields@)),
{
    if fields.len() == 0 {
        assert(old(out)@ + field_list_line(name@, fields_view(fields@)) =~= old(out)@);
        return;
    }
    let ghost start = out@;
    out.append(name);
    let mut i: usize = 0;
    while i < fields.len()
        invariant
            i <= fields@.len(),
            out@ == start + name@ + fields_text(fields_view(fields@.subrange(0, i as int))),
        decreases fields.len() - i,
    {
        let f = fields[i];
        out.push(' ');
        out.append(f.name);
        out.push(':');
        match f.ty {
            NativeHostFieldType::String => out.append("String"),
            NativeHostFieldType::Bool => out.append("bool"),
            NativeHostFieldType::Usize => out.append("usize"),
        }
        proof {
            let a = fields_view(fields@.subrange(0, i as int + 1));
            assert(a.drop_last() =~= fields_view(fields@.subrange(0, i as int)));
            assert(a.last() == (f.name@, f.ty));
        }
        assert(out@ =~= start + name@ + fields_text(fields_view(fields@.subrange(0, i as int + 1))));
        i = i + 1;
    }
    out.push('\n');
    assert(fields@.subrange(0, fields@.len() as int) =~= fields@);
    assert(out@ =~= start + field_list_line(name@, fields_view(fields@)));
}

fn write_component(out: &mut String, c: &NativeHostComponentSchema)
    ensures
        final(out)@ == old(out)@ + component_text(c.view_of()),
{
    let ghost start = out@;
    out.append("component ");
    out.append(c.name);
    out.push('\n');
    write_field_list(out, "props", &c.props);
    write_field_list(out, "prop_updates", &c.prop_updates);
    let ghost mid = out@;
    if c.commands.len() != 0 {
        out.append("commands");
        let mut i: usize = 0;
        while i < c.commands.len()
            invariant
                i <= c.commands@.len(),
                out@ == mid + "commands"@ + commands_text(
                    c.commands@.subrange(0, i as int).map_values(|x: NativeHostCommandSchema| x.name@),
                ),
            decreases c.commands.len() - i,
        {
            out.push(' ');
            out.append(c.commands[i].name);
            proof {
                let a = c.commands@.subrange(0, i as int + 1).map_values(|x: NativeHostCommandSchema| x.name@);
                assert(a.drop_last() =~= c.commands@.subrange(0, i as int).map_values(
                    |x: NativeHostCommandSchema| x.name@,
                ));
            }
            assert(out@ =~= mid + "commands"@ + commands_text(
                c.commands@.subrange(0, i as int + 1).map_values(|x: NativeHostCommandSchema| x.name@),
            ));
            i = i + 1;
        }
        out.push('\n');
        assert(c.commands@.subrange(0, c.commands@.len() as int) =~= c.commands@);
    }
    let ghost mid2 = out@;
    let mut j: usize = 0;
    while j < c.events.len()
        invariant
            j <= c.events@.len(),
            out@ == mid2 + events_text(
                c.events@.subrange(0, j as int).map_values(
                    |e: NativeHostEventSchema| (e.name@, fields_view(e.fields@)),
                ),
            ),
        decreases c.events.len() - j,
    {
        let e = &c.events[j];
        write_field_list(out, e.name, &e.fields);
        proof {
            let a = c.events@.subrange(0, j as int + 1).map_values(
                |e: NativeHostEventSchema| (e.name@, fields_view(e.fields@)),
            );
            assert(a.drop_last() =~= c.events@.subrange(0, j as int).map_values(
                |e: NativeHostEventSchema| (e.name@, fields_view(e.fields@)),
            ));
        }
        assert(out@ =~= mid2 + events_text(
            c.events@.subrange(0, j as int + 1).map_values(
                |e: NativeHostEventSchema| (e.name@, fields_view(e.fields@)),
            ),
        ));
        j = j + 1;
    }
    assert(c.events@.subrange(0, c.events@.len() as int) =~= c.events@);
    assert(out@ =~= start + component_text(c.view_of()));
}

/// The manifest of the native host components, one section per component:
/// its name, its props, prop updates, commands and event fields.
pub fn generate_native_host_manifest() -> (r: String)
    ensures
        r@ == manifest_text(spec_native_host_schema()),
{
    let schema = native_host_schema();
    let mut out = String::new();
    let mut i: usize = 0;
    while i < schema.len()
        invariant
            i <= schema@.len(),
            schema@.map_values(|c: NativeHostComponentSchema| c.view_of()) == spec_native_host_schema(),
            out@ == manifest_text(
                schema@.subrange(0, i as int).map_values(|c: NativeHostComponentSchema| c.view_of()),
            ),
        decreases schema.len() - i,
    {
        write_component(&mut out, &schema[i]);
        proof {
            let a = schema@.subrange(0, i as int + 1).map_values(|c: NativeHostComponentSchema| c.view_of());
            assert(a.drop_last() =~= schema@.subrange(0, i as int).map_values(
                |c: NativeHostComponentSchema| c.view_of(),
            ));
        }
        i = i + 1;
    }
    assert(schema@.subrange(0, schema@.len() as int) =~= schema@);
    out
}

} // verus!
