use weld::datasets::{DatasetInfo, DatasetPage, TensorInfo};
use weld::legacy::{
    element_type, my_element_type, Cancelled, MyElementType, MyTensor, MyTensorDimensions,
    Running, SeriazableError, SessionState,
};
use weld::shared::arrow::{ArrowColumn, DataType, Field, Schema, StructArrayInfo};
use weld::shared::errors::{ErrorDetails, SerializableError};
use weld::shared::tensors::{Dimensions, ElementType};
use weld::shared::runtime::{Analysis, ColumnMapping, Node, NodeKind, Pipeline};
use weld::shared::PaginationConfig;
use weld::sql::{preview_frame_count, ValidationFailed, ValidationResponse};

#[test]
fn export_bindings_for_serializable_error() {
    let declaration = <SerializableError>::decl();
    assert!(declaration.contains("interface SerializableError"));
    assert_eq!(<SerializableError>::name(), "SerializableError");
    assert!(!<SerializableError>::transparent());
}

fn details() -> ErrorDetails {
    ErrorDetails {
        chain: vec![
            String::from("query failed"),
            String::from("connection refused"),
            String::from("socket closed"),
        ],
        verbose: String::from("query failed: connection refused: socket closed"),
    }
}

#[test]
fn serializable_error_splits_the_cause_chain() {
    let e = SerializableError::new(details());
    assert_eq!(e.message, "query failed");
    assert_eq!(
        e.causes,
        vec![String::from("connection refused"), String::from("socket closed")]
    );
    assert_eq!(e.verbose, "query failed: connection refused: socket closed");
    assert!(e.get_state().is_none());
}

#[test]
fn serializable_error_state_travels_only_when_attached() {
    let plain = SerializableError::new(details());
    let specific: SerializableError<u32> = plain.downcast();
    assert!(specific.get_state().is_none());
    let with_state = specific.with_state(42u32);
    assert_eq!(with_state.get_state(), Some(&42u32));
    assert_eq!(with_state.message, "query failed");
}

#[test]
fn seriazable_error_keeps_the_whole_chain_as_causes() {
    let d = details();
    let e = SeriazableError::from_details(&d);
    assert_eq!(e.error, "query failed");
    assert_eq!(e.causes.len(), 3);
    assert_eq!(e.causes[0], "query failed");
    assert_eq!(e.backtrace, d.verbose);
}

#[test]
fn element_types_translate_both_ways() {
    let all = [
        ElementType::U8,
        ElementType::I8,
        ElementType::U16,
        ElementType::I16,
        ElementType::U32,
        ElementType::I32,
        ElementType::F32,
        ElementType::U64,
        ElementType::I64,
        ElementType::F64,
        ElementType::Utf8,
    ];
    for e in all {
        assert_eq!(element_type(my_element_type(e)), e);
    }
    assert_eq!(my_element_type(ElementType::F32), MyElementType::F32);
    assert_eq!(element_type(MyElementType::Utf8), ElementType::Utf8);
}

#[test]
fn tensors_and_dimensions_hold_their_values() {
    let t = MyTensor {
        element_type: MyElementType::U8,
        dimensions: vec![1, 4],
        buffer: vec![0, 1, 2, 3],
    };
    assert_eq!(t.buffer.len(), 4);
    let d = MyTensorDimensions::Fixed(vec![1, 4]);
    assert!(matches!(d, MyTensorDimensions::Fixed(ref v) if v == &vec![1, 4]));
    assert!(matches!(Dimensions::Dynamic, Dimensions::Dynamic));
}

#[test]
fn schema_for_struct_array_mirrors_the_columns() {
    let table = StructArrayInfo {
        columns: vec![
            ArrowColumn {
                name: String::from("age"),
                data_type: DataType::Int32,
                null_count: 0,
            },
            ArrowColumn {
                name: String::from("name"),
                data_type: DataType::Utf8,
                null_count: 2,
            },
        ],
        num_rows: 4,
    };
    let schema = Schema::for_struct_array(&table);
    assert_eq!(schema.fields.len(), 2);
    assert_eq!(schema.fields[0].name, "age");
    assert!(!schema.fields[0].nullable);
    assert_eq!(schema.fields[1].name, "name");
    assert!(schema.fields[1].nullable);
    assert!(schema.metadata.is_none());
}

#[test]
fn data_type_duplicate_copies_nested_shapes() {
    let dict = DataType::Dictionary(Box::new(DataType::Int32), Box::new(DataType::Utf8));
    let copy = dict.duplicate();
    assert!(matches!(
        copy,
        DataType::Dictionary(ref k, ref v)
            if matches!(**k, DataType::Int32) && matches!(**v, DataType::Utf8)
    ));
    assert!(matches!(DataType::Decimal(10, 2).duplicate(), DataType::Decimal(10, 2)));
}

#[test]
fn dataset_info_describes_its_records() {
    let table = StructArrayInfo {
        columns: vec![ArrowColumn {
            name: String::from("age"),
            data_type: DataType::Int32,
            null_count: 0,
        }],
        num_rows: 4,
    };
    let tensors = vec![TensorInfo {
        id: String::from("t-1"),
        display_name: String::from("age"),
        dimensions: vec![4, 1],
        element_type: ElementType::I32,
    }];
    let info = DatasetInfo::new(String::from("d-1"), "people", &table, tensors);
    assert_eq!(info.id, "d-1");
    assert_eq!(info.display_name, "people");
    assert_eq!(info.num_rows, 4);
    assert_eq!(info.schema.fields.len(), 1);
    assert_eq!(info.registered_tensors.len(), 1);
    let page = DatasetPage { total_records: 4, table: vec![1, 2] };
    assert_eq!(page.total_records, 4);
}

#[test]
fn preview_takes_frames_until_the_row_budget_is_met() {
    assert_eq!(preview_frame_count(&vec![5, 5, 5], 8), 2);
    assert_eq!(preview_frame_count(&vec![5, 5, 5], 100), 3);
    assert_eq!(preview_frame_count(&vec![5, 5, 5], 0), 1);
    assert_eq!(preview_frame_count(&vec![], 10), 0);
}

#[test]
fn validation_failure_wraps_the_message() {
    let f = ValidationFailed::from_message(String::from("syntax error"));
    assert!(matches!(f, ValidationFailed::Other(ref m) if m == "syntax error"));
    let response = ValidationResponse { row_count: 3, preview: vec![1] };
    assert_eq!(response.row_count, 3);
}

#[test]
fn session_state_polls_one_cancellation_per_request() {
    let mut session = SessionState::new();
    assert_eq!(session, SessionState::Idle);
    session.start();
    assert!(!session.poll_cancel());
    session.request_cancel();
    assert_eq!(session, SessionState::CancelRequested);
    assert!(session.poll_cancel());
    assert_eq!(session, SessionState::Idle);
    // a cancellation outside a run is a no-op
    session.request_cancel();
    assert_eq!(session, SessionState::Idle);
    session.start();
    session.finish();
    assert_eq!(session, SessionState::Idle);
}

#[test]
fn run_flags_start_cleared() {
    assert!(!Running::default().0);
    assert!(!Cancelled::default().0);
}

#[test]
fn shared_frontend_types_hold_their_values() {
    let node = Node {
        ty: NodeKind::ProcBlock,
        identifier: String::from("softmax"),
        args: vec![(String::from("axis"), String::from("0"))],
    };
    let pipeline = Pipeline(vec![(String::from("n1"), node)]);
    assert_eq!(pipeline.0.len(), 1);
    assert_eq!(pipeline.0[0].1.ty, NodeKind::ProcBlock);
    let mapping = ColumnMapping {
        tensor_id: String::from("t-1"),
        node_name: String::from("n1"),
        input_tensor_name: String::from("input"),
    };
    assert_eq!(mapping.node_name, "n1");
    let analysis = Analysis { run_time_ms: 12 };
    assert_eq!(analysis.run_time_ms, 12);
    let page = PaginationConfig { offset: Some(0), max_records: Some(50) };
    assert_eq!(page.max_records, Some(50));
}
