use aimux_lib::dao::model_dao::{create_fields, to_view, update_fields, validate};
use aimux_lib::error::AppError;
use aimux_lib::model::catalog_model::CatalogModel;
use aimux_lib::schema::model_schema::{ModelCreate, ModelUpdate};

fn model() -> CatalogModel {
    CatalogModel {
        id: "id".into(),
        name: "gpt".into(),
        model_type: "openai".into(),
        provider: "openai".into(),
        is_default: 1,
        created_at: "c".into(),
        updated_at: "u".into(),
    }
}

#[test]
fn validates_catalog_entries() {
    assert!(validate("m", "openai", "p").is_ok());
    match validate("", "openai", "p") {
        Err(AppError::BadRequest(m)) => assert_eq!(m, "模型名称不能为空"),
        other => panic!("unexpected {:?}", other),
    }
    match validate("m", "x", "p") {
        Err(AppError::BadRequest(m)) => assert_eq!(m, "协议类型不支持"),
        other => panic!("unexpected {:?}", other),
    }
    match validate("m", "anthropic", "") {
        Err(AppError::BadRequest(m)) => assert_eq!(m, "模型供应商不能为空"),
        other => panic!("unexpected {:?}", other),
    }
}

#[test]
fn trims_new_entries() {
    let f = create_fields(&ModelCreate { name: " m ".into(), model_type: " openai".into(), provider: "p ".into() }).unwrap();
    assert_eq!((f.name.as_str(), f.model_type.as_str(), f.provider.as_str()), ("m", "openai", "p"));
    assert!(create_fields(&ModelCreate { name: "  ".into(), model_type: "openai".into(), provider: "p".into() }).is_err());
}

#[test]
fn clears_default_when_the_protocol_changes() {
    let (f, d) = update_fields(&model(), &ModelUpdate { name: None, model_type: Some("anthropic".into()), provider: None }).unwrap();
    assert_eq!(f.model_type, "anthropic");
    assert_eq!(f.name, "gpt");
    assert_eq!(d, 0);
    let (_, d) = update_fields(&model(), &ModelUpdate { name: Some("x".into()), model_type: None, provider: None }).unwrap();
    assert_eq!(d, 1);
}

#[test]
fn shows_entries_as_stored() {
    let v = to_view(model());
    assert_eq!(v.id, "id");
    assert_eq!(v.model_type, "openai");
    assert_eq!(v.is_default, 1);
}
