use ulua_rt::resolve::{module_info_if_known, resolve_module, ModuleInfo, RequireExpr};

fn known() -> Vec<String> {
    vec![
        "@alias".to_string(),
        "literal/module/name".to_string(),
        "game/Shared/Util".to_string(),
        "game/Players/Main".to_string(),
    ]
}

fn ctx(name: &str) -> ModuleInfo {
    ModuleInfo { name: name.to_string(), optional: false }
}

fn name_of(r: Option<ModuleInfo>) -> Option<String> {
    r.map(|m| m.name)
}

#[test]
fn constant_strings_name_given_modules_only() {
    let k = known();
    assert_eq!(name_of(resolve_module(None, &RequireExpr::ConstantString("@alias".to_string()), &k)), Some("@alias".to_string()));
    assert_eq!(
        name_of(resolve_module(None, &RequireExpr::ConstantString("literal/module/name".to_string()), &k)),
        Some("literal/module/name".to_string())
    );
    // a constant string does not name a parent of a module
    assert_eq!(name_of(resolve_module(None, &RequireExpr::ConstantString("literal/module".to_string()), &k)), None);
}

#[test]
fn globals_and_script() {
    let k = known();
    assert_eq!(name_of(resolve_module(None, &RequireExpr::Global("game".to_string()), &k)), Some("game".to_string()));
    assert_eq!(name_of(resolve_module(None, &RequireExpr::Global("workspace".to_string()), &k)), None);
    let here = ctx("game/Players/Main");
    assert_eq!(
        name_of(resolve_module(Some(&here), &RequireExpr::Global("script".to_string()), &k)),
        Some("game/Players/Main".to_string())
    );
    assert_eq!(name_of(resolve_module(None, &RequireExpr::Global("script".to_string()), &k)), None);
}

#[test]
fn indexing_parent_and_children() {
    let k = known();
    let here = ctx("game/Players/Main");
    let parent = resolve_module(Some(&here), &RequireExpr::IndexName("Parent".to_string()), &k).unwrap();
    assert_eq!(parent.name, "game/Players");
    assert!(!parent.optional);
    let game = ctx("game");
    assert_eq!(
        name_of(resolve_module(Some(&game), &RequireExpr::IndexName("Shared".to_string()), &k)),
        Some("game/Shared".to_string())
    );
    let shared = ctx("game/Shared");
    assert_eq!(
        name_of(resolve_module(Some(&shared), &RequireExpr::IndexString("Util".to_string()), &k)),
        Some("game/Shared/Util".to_string())
    );
    assert_eq!(name_of(resolve_module(Some(&shared), &RequireExpr::IndexName("Nope".to_string()), &k)), None);
    assert_eq!(name_of(resolve_module(None, &RequireExpr::IndexName("Shared".to_string()), &k)), None);
    // no separator: no parent
    assert_eq!(name_of(resolve_module(Some(&game), &RequireExpr::IndexName("Parent".to_string()), &k)), None);
}

#[test]
fn get_service_on_game() {
    let k = known();
    let game = ctx("game");
    let call = RequireExpr::Call {
        is_self: true,
        method: Some("GetService".to_string()),
        first_arg: Some("Players".to_string()),
    };
    assert_eq!(name_of(resolve_module(Some(&game), &call, &k)), Some("game/Players".to_string()));
    let dot_call = RequireExpr::Call {
        is_self: false,
        method: Some("GetService".to_string()),
        first_arg: Some("Players".to_string()),
    };
    assert_eq!(name_of(resolve_module(Some(&game), &dot_call, &k)), None);
    let other = ctx("workspace");
    assert_eq!(name_of(resolve_module(Some(&other), &call, &k)), None);
    assert_eq!(name_of(resolve_module(Some(&game), &RequireExpr::Other, &k)), None);
}

#[test]
fn known_with_and_without_prefix() {
    let k = known();
    assert!(module_info_if_known("game/Shared".to_string(), true, &k).is_some());
    assert!(module_info_if_known("game/Shared".to_string(), false, &k).is_none());
    assert!(module_info_if_known("game/Sha".to_string(), true, &k).is_none());
}
