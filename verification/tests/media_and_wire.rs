use node_resolution::media::{media_type_from_code, serialize_media_type, MediaType};
use node_resolution::model::{NodeResolution, NodeResolutionMode};
use node_resolution::wire::{
    get_startup_handler, into_pg_type, AuthType, DataType, PgType, ReplicateCommand, WireError,
};

#[test]
fn media_types_follow_the_kind_of_module() {
    let cases = [
        (NodeResolution::CommonJs("file:///a/b.js".to_string()), MediaType::Cjs),
        (NodeResolution::CommonJs("file:///a/b.jsx".to_string()), MediaType::Cjs),
        (NodeResolution::CommonJs("file:///a/b.ts".to_string()), MediaType::Cts),
        (NodeResolution::CommonJs("file:///a/b.d.ts".to_string()), MediaType::Dcts),
        (NodeResolution::CommonJs("file:///a/b.json".to_string()), MediaType::Json),
        (NodeResolution::CommonJs("file:///a/b.mjs".to_string()), MediaType::Mjs),
        (NodeResolution::Esm("file:///a/b.js".to_string()), MediaType::Mjs),
        (NodeResolution::Esm("file:///a/b.tsx".to_string()), MediaType::Mts),
        (NodeResolution::Esm("file:///a/b.d.ts".to_string()), MediaType::Dmts),
        (NodeResolution::Esm("file:///a/b.cjs".to_string()), MediaType::Cjs),
        (NodeResolution::Esm("file:///a/b.wasm".to_string()), MediaType::Wasm),
        (NodeResolution::Esm("file:///a/b".to_string()), MediaType::Unknown),
    ];
    for (resolution, expected) in cases {
        let url = match &resolution {
            NodeResolution::CommonJs(u) | NodeResolution::Esm(u) => u.clone(),
            NodeResolution::BuiltIn(n) => n.clone(),
        };
        assert_eq!(
            NodeResolution::into_specifier_and_media_type(Some(resolution)),
            Some((url, expected))
        );
    }
    assert_eq!(
        NodeResolution::into_specifier_and_media_type(Some(NodeResolution::BuiltIn("fs".to_string()))),
        Some(("node:fs".to_string(), MediaType::Dts))
    );
    assert_eq!(
        NodeResolution::into_specifier_and_media_type(None),
        Some(("internal:///missing_dependency.d.ts".to_string(), MediaType::Dts))
    );
    assert_eq!(
        NodeResolution::into_specifier_and_media_type(Some(NodeResolution::Esm("no url".to_string()))),
        None
    );
}

#[test]
fn urls_of_resolutions() {
    assert_eq!(
        NodeResolution::Esm("file:///a.js".to_string()).into_url(),
        Some("file:///a.js".to_string())
    );
    assert_eq!(
        NodeResolution::CommonJs("file:///a.js".to_string()).into_url(),
        Some("file:///a.js".to_string())
    );
    assert_eq!(NodeResolution::BuiltIn("fs".to_string()).into_url(), Some("node:fs".to_string()));
    assert_eq!(
        NodeResolution::BuiltIn("node:fs".to_string()).into_url(),
        Some("node:fs".to_string())
    );
}

#[test]
fn media_type_numbers() {
    let all = [
        MediaType::JavaScript,
        MediaType::Jsx,
        MediaType::Mjs,
        MediaType::Cjs,
        MediaType::TypeScript,
        MediaType::Mts,
        MediaType::Cts,
        MediaType::Dts,
        MediaType::Dmts,
        MediaType::Dcts,
        MediaType::Tsx,
        MediaType::Json,
        MediaType::Wasm,
        MediaType::TsBuildInfo,
        MediaType::SourceMap,
        MediaType::Unknown,
    ];
    for (i, m) in all.iter().enumerate() {
        assert_eq!(serialize_media_type(*m), i as i64 + 1);
        assert_eq!(media_type_from_code(i as u8), *m);
    }
    assert_eq!(media_type_from_code(200), MediaType::Unknown);
    assert!(NodeResolutionMode::Types.is_types());
    assert!(!NodeResolutionMode::Execution.is_types());
}

#[test]
fn column_types() {
    assert_eq!(into_pg_type(&DataType::Null), Ok(PgType::Unknown));
    assert_eq!(into_pg_type(&DataType::Boolean), Ok(PgType::Bool));
    assert_eq!(into_pg_type(&DataType::UInt8), Ok(PgType::Char));
    assert_eq!(into_pg_type(&DataType::Int16), Ok(PgType::Int2));
    assert_eq!(into_pg_type(&DataType::UInt32), Ok(PgType::Int4));
    assert_eq!(into_pg_type(&DataType::Int64), Ok(PgType::Int8));
    assert_eq!(into_pg_type(&DataType::Decimal128), Ok(PgType::Int8));
    assert_eq!(into_pg_type(&DataType::Timestamp), Ok(PgType::Timestamp));
    assert_eq!(into_pg_type(&DataType::Time64), Ok(PgType::Time));
    assert_eq!(into_pg_type(&DataType::Date32), Ok(PgType::Date));
    assert_eq!(into_pg_type(&DataType::Binary), Ok(PgType::Bytea));
    assert_eq!(into_pg_type(&DataType::Float32), Ok(PgType::Float4));
    assert_eq!(into_pg_type(&DataType::Float64), Ok(PgType::Float8));
    assert_eq!(into_pg_type(&DataType::Utf8), Ok(PgType::Varchar));
    assert_eq!(into_pg_type(&DataType::Other), Err(WireError::UnsupportedDatatype));
    assert_eq!(
        into_pg_type(&DataType::List(Box::new(DataType::Utf8))),
        Ok(PgType::VarcharArray)
    );
    assert_eq!(
        into_pg_type(&DataType::List(Box::new(DataType::Int32))),
        Ok(PgType::Int4Array)
    );
    for unlisted in [DataType::Null, DataType::Decimal128, DataType::Other] {
        assert_eq!(
            into_pg_type(&DataType::List(Box::new(unlisted))),
            Err(WireError::UnsupportedListDatatype)
        );
    }
    assert_eq!(
        into_pg_type(&DataType::List(Box::new(DataType::List(Box::new(DataType::Utf8))))),
        Err(WireError::UnsupportedListDatatype)
    );
}

#[test]
fn the_password_of_either_setting() {
    let plain = AuthType::Default { password: "pencil".to_string() };
    assert_eq!(get_startup_handler(&plain).password, "pencil");
    let scram = AuthType::Scram {
        password: "secret".to_string(),
        key_slice: vec![1, 2],
        cert_slice: vec![3],
    };
    assert_eq!(get_startup_handler(&scram).password, "secret");
    let command = ReplicateCommand::Cdc {
        publication: "my_publication".to_string(),
        slot_name: "stdout_slot".to_string(),
    };
    match command {
        ReplicateCommand::Cdc { publication, slot_name } => {
            assert_eq!(publication, "my_publication");
            assert_eq!(slot_name, "stdout_slot");
        }
    }
}
