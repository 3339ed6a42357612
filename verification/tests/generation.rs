//! Tests for the generation half: the type-name grammar, the type algebra,
//! and the binding emitter.

use nvim_api::api::{Api, ApiFunction, ApiFunctionParam, ApiTypeDecl, ApiUiEvent, ApiVersion};
use nvim_api::emit::emit_api;
use nvim_api::parse::{parse_primitive_type, parse_type, TypeError};
use nvim_api::types::ApiType;

fn version() -> ApiVersion {
    ApiVersion {
        major: 0,
        minor: 4,
        patch: 0,
        api_level: 6,
        api_compatible: 0,
        api_prerelease: false,
    }
}

#[test]
fn parse_primitive_table() {
    assert_eq!(parse_primitive_type("void"), Ok(ApiType::Nil));
    assert_eq!(parse_primitive_type("Nil"), Ok(ApiType::Nil));
    assert_eq!(parse_primitive_type("Boolean"), Ok(ApiType::Boolean));
    assert_eq!(parse_primitive_type("Integer"), Ok(ApiType::Integer));
    assert_eq!(parse_primitive_type("Float"), Ok(ApiType::Float));
    assert_eq!(parse_primitive_type("String"), Ok(ApiType::String));
    assert_eq!(parse_primitive_type("Array"), Ok(ApiType::Array));
    assert_eq!(parse_primitive_type("Dictionary"), Ok(ApiType::Dictionary));
    assert_eq!(parse_primitive_type("Buffer"), Ok(ApiType::Buffer));
    assert_eq!(parse_primitive_type("Window"), Ok(ApiType::Window));
    assert_eq!(parse_primitive_type("Tabpage"), Ok(ApiType::Tabpage));
    assert_eq!(parse_primitive_type("Object"), Ok(ApiType::Object));
}

#[test]
fn parse_array_of_integer() {
    assert_eq!(
        parse_type("ArrayOf(Integer)"),
        Ok(ApiType::ArrayOf(Box::new(ApiType::Integer)))
    );
}

#[test]
fn parse_array_of_integer_with_length() {
    assert_eq!(
        parse_type("ArrayOf(Integer, 3)"),
        Ok(ApiType::ArrayOfLength(Box::new(ApiType::Integer), 3))
    );
    let ty = parse_type("ArrayOf(Integer, 3)").unwrap();
    assert_eq!(ty.rust_owned_name(), "(i64, i64, i64)");
}

#[test]
fn parse_unknown_type_carries_the_string() {
    assert_eq!(
        parse_type("Frobnicate"),
        Err(TypeError::UnknownType("Frobnicate".to_owned()))
    );
}

#[test]
fn parse_compound_trims_whitespace() {
    assert_eq!(
        parse_type("ArrayOf( String , 2 )"),
        Ok(ApiType::ArrayOfLength(Box::new(ApiType::String), 2))
    );
    assert_eq!(
        parse_type("ArrayOf( Buffer )"),
        Ok(ApiType::ArrayOf(Box::new(ApiType::Buffer)))
    );
}

#[test]
fn parse_unknown_element_carries_the_element_string() {
    assert_eq!(
        parse_type("ArrayOf(Frobnicate)"),
        Err(TypeError::UnknownType("Frobnicate".to_owned()))
    );
    assert_eq!(
        parse_type("ArrayOf(Frobnicate, 2)"),
        Err(TypeError::UnknownType("Frobnicate".to_owned()))
    );
}

#[test]
fn parse_malformed_compound_forms() {
    assert_eq!(
        parse_type("ArrayOf"),
        Err(TypeError::MalformedCompoundType("ArrayOf".to_owned()))
    );
    assert_eq!(
        parse_type("ArrayOf(Integer"),
        Err(TypeError::MalformedCompoundType("ArrayOf(Integer".to_owned()))
    );
    assert_eq!(
        parse_type("ArrayOfInteger)"),
        Err(TypeError::MalformedCompoundType("ArrayOfInteger)".to_owned()))
    );
    assert_eq!(
        parse_type("ArrayOf(Integer, x)"),
        Err(TypeError::MalformedCompoundType("ArrayOf(Integer, x)".to_owned()))
    );
    assert_eq!(
        parse_type("ArrayOf(Integer, -1)"),
        Err(TypeError::MalformedCompoundType("ArrayOf(Integer, -1)".to_owned()))
    );
    assert_eq!(
        parse_type("ArrayOf)("),
        Err(TypeError::MalformedCompoundType("ArrayOf)(".to_owned()))
    );
}

#[test]
fn owned_names_of_scalars() {
    assert_eq!(ApiType::Nil.rust_owned_name(), "()");
    assert_eq!(ApiType::Boolean.rust_owned_name(), "bool");
    assert_eq!(ApiType::Integer.rust_owned_name(), "i64");
    assert_eq!(ApiType::Float.rust_owned_name(), "f64");
    assert_eq!(ApiType::String.rust_owned_name(), "String");
    assert_eq!(ApiType::Array.rust_owned_name(), "Vec<Value>");
    assert_eq!(ApiType::Dictionary.rust_owned_name(), "Map");
    assert_eq!(ApiType::Object.rust_owned_name(), "Value");
    assert_eq!(ApiType::Buffer.rust_owned_name(), "Buffer<'client>");
    assert_eq!(ApiType::Window.rust_owned_name(), "Window<'client>");
    assert_eq!(ApiType::Tabpage.rust_owned_name(), "Tabpage<'client>");
}

#[test]
fn owned_names_of_compounds() {
    assert_eq!(
        ApiType::ArrayOf(Box::new(ApiType::String)).rust_owned_name(),
        "Vec<String>"
    );
    assert_eq!(
        ApiType::ArrayOfLength(Box::new(ApiType::Boolean), 0).rust_owned_name(),
        "()"
    );
    assert_eq!(
        ApiType::ArrayOfLength(Box::new(ApiType::Boolean), 1).rust_owned_name(),
        "(bool)"
    );
    assert_eq!(
        ApiType::ArrayOfLength(Box::new(ApiType::Float), 2).rust_owned_name(),
        "(f64, f64)"
    );
}

fn free_fn(name: &str, deprecated_since: Option<i64>) -> ApiFunction {
    ApiFunction {
        name: name.to_owned(),
        parameters: vec![ApiFunctionParam {
            ty: ApiType::String,
            name: "name".to_owned(),
        }],
        return_type: ApiType::Integer,
        method: false,
        since: 1,
        deprecated_since,
    }
}

#[test]
fn macro_call_of_a_free_function() {
    let f = free_fn("nvim_get_color_by_name", None);
    assert_eq!(
        f.macro_call("nvim_"),
        "nvim_api_function!(get_color_by_name, \"nvim_get_color_by_name\", name: String; i64);"
    );
}

#[test]
fn rust_fn_name_strips_the_prefix_once() {
    let f = free_fn("nvim_get_mode", None);
    assert_eq!(f.rust_fn_name("nvim_"), "get_mode");
    assert_eq!(f.rust_fn_name(""), "nvim_get_mode");
}

#[test]
fn emitter_skips_deprecated_functions() {
    let api = Api {
        version: version(),
        functions: vec![
            free_fn("nvim_get_api_info", None),
            free_fn("nvim_get_api_level", Some(2)),
        ],
        ui_events: vec![],
        types: vec![],
    };
    let out = emit_api(&api, "nvim_");
    assert!(out.contains(
        "\tnvim_api_function!(get_api_info, \"nvim_get_api_info\", name: String; i64);\n"
    ));
    assert!(!out.contains("get_api_level"));
}

#[test]
fn emitter_groups_methods_under_their_handle_type() {
    let method = ApiFunction {
        name: "nvim_buf_get_name".to_owned(),
        parameters: vec![
            ApiFunctionParam {
                ty: ApiType::Buffer,
                name: "buffer".to_owned(),
            },
            ApiFunctionParam {
                ty: ApiType::Integer,
                name: "flags".to_owned(),
            },
        ],
        return_type: ApiType::String,
        method: true,
        since: 1,
        deprecated_since: None,
    };
    let api = Api {
        version: version(),
        functions: vec![method],
        ui_events: vec![],
        types: vec![(
            "Buffer".to_owned(),
            ApiTypeDecl {
                prefix: "nvim_buf_".to_owned(),
            },
        )],
    };
    let out = emit_api(&api, "nvim_");
    let expected = "use futures::Future;\n\
                    use rmp_rpc::Value;\n\
                    use super::*;\n\
                    impl NvimClient {\n\
                    }\n\
                    nvim_type!(Buffer);\n\
                    impl<'client> Buffer<'client> {\n\
                    \tnvim_api_method!(get_name, \"nvim_buf_get_name\", flags: i64; String);\n\
                    }\n";
    assert_eq!(out, expected);
}

#[test]
fn emitter_drops_methods_whose_prefix_matches_no_type() {
    let stray = ApiFunction {
        name: "nvim_win_get_height".to_owned(),
        parameters: vec![ApiFunctionParam {
            ty: ApiType::Window,
            name: "window".to_owned(),
        }],
        return_type: ApiType::Integer,
        method: true,
        since: 1,
        deprecated_since: None,
    };
    let api = Api {
        version: version(),
        functions: vec![stray],
        ui_events: vec![ApiUiEvent {
            name: "redraw".to_owned(),
            parameters: vec![],
            since: 1,
        }],
        types: vec![(
            "Buffer".to_owned(),
            ApiTypeDecl {
                prefix: "nvim_buf_".to_owned(),
            },
        )],
    };
    let out = emit_api(&api, "nvim_");
    assert!(!out.contains("get_height"));
    assert!(!out.contains("redraw"));
    assert!(out.contains("nvim_type!(Buffer);\n"));
}

#[test]
fn emitter_preserves_function_order_within_a_group() {
    let api = Api {
        version: version(),
        functions: vec![
            free_fn("nvim_second_to_none", None),
            free_fn("nvim_alpha", None),
        ],
        ui_events: vec![],
        types: vec![],
    };
    let out = emit_api(&api, "nvim_");
    let first = out.find("second_to_none").unwrap();
    let second = out.find("alpha").unwrap();
    assert!(first < second);
}
