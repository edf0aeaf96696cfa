use makepad_platform::action::{
    NativeTextInputChanged, NativeTextInputFocusChanged, NativeTextInputSelectionChanged,
};
use makepad_platform::ids::LiveId;
use makepad_platform::native_host::{
    NativeHostCommand, NativeHostKind, NativeHostPropUpdate, NativeHostProps, NativeTextInputCommand,
};
use makepad_platform::native_host_schema::{
    generate_native_host_manifest, native_host_component, native_host_schema, NativeHostFieldType,
};

fn field_schema(component: &str, field: &str) -> Option<NativeHostFieldType> {
    native_host_component(component)?
        .props
        .iter()
        .find(|schema| schema.name == field)
        .map(|schema| schema.ty)
}

fn prop_update_schema(component: &str, field: &str) -> Option<NativeHostFieldType> {
    native_host_component(component)?
        .prop_updates
        .iter()
        .find(|schema| schema.name == field)
        .map(|schema| schema.ty)
}

#[test]
fn native_host_schema_matches_typed_kinds() {
    let kinds = [NativeHostKind::TextInput, NativeHostKind::Label];
    let names = kinds.map(|kind| match kind {
        NativeHostKind::TextInput => "TextInput",
        NativeHostKind::Label => "Label",
    });

    assert_eq!(names.len(), native_host_schema().len());
    for name in names {
        assert!(native_host_component(name).is_some());
    }
}

#[test]
fn native_host_schema_matches_typed_props() {
    let text_input = NativeHostProps::TextInput {
        text: String::new(),
        placeholder: String::new(),
        editable: true,
    };
    match text_input {
        NativeHostProps::TextInput { text: _, placeholder: _, editable: _ } => {
            assert_eq!(field_schema("TextInput", "text"), Some(NativeHostFieldType::String));
            assert_eq!(field_schema("TextInput", "placeholder"), Some(NativeHostFieldType::String));
            assert_eq!(field_schema("TextInput", "editable"), Some(NativeHostFieldType::Bool));
        }
        NativeHostProps::Label { .. } => unreachable!(),
    }

    let label = NativeHostProps::Label { text: String::new() };
    match label {
        NativeHostProps::TextInput { .. } => unreachable!(),
        NativeHostProps::Label { text: _ } => {
            assert_eq!(field_schema("Label", "text"), Some(NativeHostFieldType::String));
        }
    }
}

#[test]
fn native_host_schema_matches_typed_prop_updates() {
    let updates = [
        NativeHostPropUpdate::TextInputText { text: String::new(), programmatic: true },
        NativeHostPropUpdate::TextInputPlaceholder { placeholder: String::new() },
        NativeHostPropUpdate::TextInputEditable { editable: true },
        NativeHostPropUpdate::LabelText { text: String::new() },
    ];

    for update in updates {
        match update {
            NativeHostPropUpdate::TextInputText { text: _, programmatic: _ } => assert_eq!(
                prop_update_schema("TextInput", "text"),
                Some(NativeHostFieldType::String)
            ),
            NativeHostPropUpdate::TextInputPlaceholder { placeholder: _ } => assert_eq!(
                prop_update_schema("TextInput", "placeholder"),
                Some(NativeHostFieldType::String)
            ),
            NativeHostPropUpdate::TextInputEditable { editable: _ } => assert_eq!(
                prop_update_schema("TextInput", "editable"),
                Some(NativeHostFieldType::Bool)
            ),
            NativeHostPropUpdate::LabelText { text: _ } => assert_eq!(
                prop_update_schema("Label", "text"),
                Some(NativeHostFieldType::String)
            ),
        }
    }
}

#[test]
fn native_host_schema_matches_typed_commands_and_events() {
    let text_input = native_host_component("TextInput").unwrap();
    let command_names = [
        NativeHostCommand::TextInput(NativeTextInputCommand::Focus),
        NativeHostCommand::TextInput(NativeTextInputCommand::Blur),
        NativeHostCommand::TextInput(NativeTextInputCommand::SelectAll),
        NativeHostCommand::TextInput(NativeTextInputCommand::Copy),
        NativeHostCommand::TextInput(NativeTextInputCommand::Cut),
        NativeHostCommand::TextInput(NativeTextInputCommand::Paste),
    ]
    .map(|command| match command {
        NativeHostCommand::TextInput(NativeTextInputCommand::Focus) => "focus",
        NativeHostCommand::TextInput(NativeTextInputCommand::Blur) => "blur",
        NativeHostCommand::TextInput(NativeTextInputCommand::SelectAll) => "select_all",
        NativeHostCommand::TextInput(NativeTextInputCommand::Copy) => "copy",
        NativeHostCommand::TextInput(NativeTextInputCommand::Cut) => "cut",
        NativeHostCommand::TextInput(NativeTextInputCommand::Paste) => "paste",
    });

    for command_name in command_names {
        assert!(text_input.commands.iter().any(|schema| schema.name == command_name));
    }

    let changed = NativeTextInputChanged::new(LiveId(1).into(), String::new());
    let focus_changed = NativeTextInputFocusChanged::new(LiveId(1).into(), true);
    let selection_changed = NativeTextInputSelectionChanged::new(LiveId(1).into(), 4, 2);
    assert_eq!(changed.text_input_id, LiveId(1));
    assert_eq!(focus_changed.text_input_id, LiveId(1));
    assert_eq!(selection_changed.text_input_id, LiveId(1));
    assert_eq!(selection_changed.start, 2);
    assert_eq!(selection_changed.end, 4);
    assert!(text_input.events.iter().any(|event| event.name == "changed"
        && event
            .fields
            .iter()
            .any(|field| field.name == "text" && field.ty == NativeHostFieldType::String)));
    assert!(text_input.events.iter().any(|event| event.name == "focus_changed"
        && event
            .fields
            .iter()
            .any(|field| field.name == "has_focus" && field.ty == NativeHostFieldType::Bool)));
    assert!(text_input.events.iter().any(|event| event.name == "selection_changed"
        && event
            .fields
            .iter()
            .any(|field| field.name == "start" && field.ty == NativeHostFieldType::Usize)
        && event
            .fields
            .iter()
            .any(|field| field.name == "end" && field.ty == NativeHostFieldType::Usize)));
}

#[test]
fn native_host_schema_covers_current_components() {
    let text_input = native_host_component("TextInput").unwrap();
    assert_eq!(text_input.props.len(), 3);
    assert!(text_input.commands.iter().any(|command| command.name == "focus"));
    assert!(text_input.commands.iter().any(|command| command.name == "blur"));
    assert!(text_input.events.iter().any(|event| event.name == "changed"));
    assert!(text_input.events.iter().any(|event| event.name == "focus_changed"));
    assert!(text_input.events.iter().any(|event| event.name == "selection_changed"));

    let label = native_host_component("Label").unwrap();
    assert_eq!(label.props.len(), 1);
    assert_eq!(label.props[0].name, "text");
}

#[test]
fn native_host_manifest_codegen_is_stable() {
    let manifest = generate_native_host_manifest();
    assert_eq!(
        manifest,
        "\
component TextInput
props text:String placeholder:String editable:bool
prop_updates text:String placeholder:String editable:bool
commands focus blur select_all copy cut paste
changed text:String
focus_changed has_focus:bool
selection_changed start:usize end:usize
component Label
props text:String
prop_updates text:String
"
    );
}

#[test]
fn unknown_component_has_no_schema() {
    assert!(native_host_component("Button").is_none());
    assert!(native_host_component("").is_none());
    assert!(native_host_component("textinput").is_none());
}
