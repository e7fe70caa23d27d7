use sqlite_cells::cell::{
    Cell, CellContent, DecodeError, PageType, Payload, parse_interior_index_cell,
    parse_interior_table_cell, parse_leaf_index_cell, parse_leaf_table_cell,
};

fn cell_for(buf: &[u8]) -> Cell {
    Cell { offset: 0, size: buf.len() }
}

fn payload_of(size: u64, bytes: &[u8], overflow: Option<[u8; 4]>) -> Payload {
    Payload { size, payload: bytes.to_vec(), overflow }
}

// With usable size u = 4096: m = (4084 * 32) / 255 - 23 = 489,
// x = 4061 for a table leaf and x = (4084 * 64) / 255 - 23 = 1002 for an
// index page.
#[test]
fn spillage_boundary_leaf_table() {
    let at_threshold = payload_of(4061, &[], None);
    assert_eq!(at_threshold.calculate_spillage(4096, 0, PageType::LeafTable), 0);

    // One byte past the threshold: k = 489 + (4062 - 489) % 4092 = 4062 > x,
    // so only m = 489 bytes stay local and 3573 spill.
    let past_threshold = payload_of(4062, &[], None);
    assert_eq!(past_threshold.calculate_spillage(4096, 0, PageType::LeafTable), 3573);

    // k = 489 + (5000 - 489) % 4092 = 908 <= x: k bytes stay local, and the
    // spilled portion 4092 fills one overflow page exactly.
    let wrapped = payload_of(5000, &[], None);
    assert_eq!(wrapped.calculate_spillage(4096, 0, PageType::LeafTable), 4092);
}

#[test]
fn spillage_boundary_index_pages() {
    let at_threshold = payload_of(1002, &[], None);
    assert_eq!(at_threshold.calculate_spillage(4096, 0, PageType::LeafIndex), 0);

    // k = 489 + (1003 - 489) % 4092 = 1003 > x, so m stays local.
    let past_threshold = payload_of(1003, &[], None);
    assert_eq!(past_threshold.calculate_spillage(4096, 0, PageType::LeafIndex), 514);
    let interior = payload_of(1003, &[], None);
    assert_eq!(interior.calculate_spillage(4096, 0, PageType::InteriorIndex), 514);
}

#[test]
fn spillage_respects_reserved_space() {
    // u = 4096 - 32 = 4064: x = 4029 for a table leaf.
    let fits = payload_of(4029, &[], None);
    assert_eq!(fits.calculate_spillage(4096, 32, PageType::LeafTable), 0);
    let spills = payload_of(4030, &[], None);
    assert!(spills.calculate_spillage(4096, 32, PageType::LeafTable) > 0);
}

// The synthetic table-leaf cell: payload-size varint 3, row-id varint 2,
// payload bytes "ABC".
#[test]
fn end_to_end_leaf_table_cell() {
    let buf = [0x03, 0x02, 0x41, 0x42, 0x43];
    let cell = CellContent::get_cell_data(PageType::LeafTable, cell_for(&buf), &buf).unwrap();
    assert_eq!(cell.get_row_id().unwrap(), 2);
    assert_eq!(cell.get_payload().unwrap(), &[0x41, 0x42, 0x43]);
    assert!(cell.get_left_child_pointer().is_err());
    match cell {
        CellContent::LeafTable { row_id, payload, .. } => {
            assert_eq!(row_id, 2);
            assert_eq!(payload.size, 3);
            assert_eq!(payload.payload, vec![0x41, 0x42, 0x43]);
            assert_eq!(payload.overflow, None);
        }
        _ => panic!("wrong variant"),
    }
}

#[test]
fn leaf_table_cell_with_overflow() {
    // Declared payload size 1000 exceeds the cell's 12 bytes: the last 4
    // bytes are the overflow page pointer, the 6 before them the local
    // payload.
    let buf = [0x87, 0x68, 0x02, 0x10, 0x11, 0x12, 0x13, 0x14, 0x15, 0xde, 0xad, 0xbe];
    let (row_id, payload) = parse_leaf_table_cell(cell_for(&buf), &buf).unwrap();
    assert_eq!(row_id, 2);
    assert_eq!(payload.size, 1000);
    assert_eq!(payload.payload, vec![0x10, 0x11, 0x12, 0x13, 0x14]);
    assert_eq!(payload.overflow, Some([0x15, 0xde, 0xad, 0xbe]));
}

#[test]
fn overflow_pointer_is_the_last_four_bytes() {
    // An index leaf whose declared payload size 1000 exceeds its 12 bytes.
    let buf = [0x87, 0x68, 0x10, 0x11, 0x12, 0x13, 0x14, 0x15, 0xde, 0xad, 0xbe, 0xef];
    let payload = parse_leaf_index_cell(cell_for(&buf), &buf).unwrap();
    assert_eq!(payload.size, 1000);
    assert_eq!(payload.payload, vec![0x10, 0x11, 0x12, 0x13, 0x14, 0x15]);
    assert_eq!(payload.overflow, Some([0xde, 0xad, 0xbe, 0xef]));
    assert_eq!(&buf[buf.len() - 4..], &[0xde, 0xad, 0xbe, 0xef]);
}

#[test]
fn interior_table_cell_fields() {
    let buf = [0x00, 0x00, 0x01, 0x00, 0x82, 0x24];
    let (left_child_ptr, integer_key) = parse_interior_table_cell(&buf).unwrap();
    assert_eq!(left_child_ptr, 256);
    assert_eq!(integer_key, 292);
}

#[test]
fn interior_index_cell_fields() {
    // Pointer 7, payload-size varint 3, payload bytes [1, 2, 3]: no spill.
    let buf = [0x00, 0x00, 0x00, 0x07, 0x03, 0x01, 0x02, 0x03];
    let (left_child_ptr, payload) = parse_interior_index_cell(cell_for(&buf), &buf).unwrap();
    assert_eq!(left_child_ptr, 7);
    assert_eq!(payload.size, 3);
    assert_eq!(payload.payload, vec![0x01, 0x02, 0x03]);
    assert_eq!(payload.overflow, None);

    // Declared size 100 exceeds the cell's 11 bytes: the payload keeps the
    // bytes between the varint and the trailing pointer.
    let spilling = [0x00, 0x00, 0x00, 0x07, 0x64, 0x09, 0x09, 0x01, 0x02, 0x03, 0x04];
    let (ptr, payload) = parse_interior_index_cell(cell_for(&spilling), &spilling).unwrap();
    assert_eq!(ptr, 7);
    assert_eq!(payload.size, 100);
    assert_eq!(payload.payload, vec![0x09, 0x09]);
    assert_eq!(payload.overflow, Some([0x01, 0x02, 0x03, 0x04]));
}

#[test]
fn variant_exclusivity() {
    let leaf_table = CellContent::LeafTable {
        cell_type: "B-Tree Leaf Table",
        row_id: 1,
        payload: payload_of(0, &[], None),
    };
    assert!(leaf_table.get_payload().is_ok());
    assert!(leaf_table.get_row_id().is_ok());
    let err = leaf_table.get_left_child_pointer().unwrap_err();
    assert_eq!(err.cell_type, "B-Tree Leaf Table");
    assert_eq!(err.field_name, "left_child_ptr");

    let leaf_index = CellContent::LeafIndex {
        cell_type: "B-Tree Leaf Index",
        payload: payload_of(0, &[], None),
    };
    assert!(leaf_index.get_payload().is_ok());
    let err = leaf_index.get_row_id().unwrap_err();
    assert_eq!(err.cell_type, "B-Tree Leaf Index");
    assert_eq!(err.field_name, "row_id");
    assert!(leaf_index.get_left_child_pointer().is_err());

    let interior_index = CellContent::InteriorIndex {
        cell_type: "B-Tree Interior Index",
        left_child_ptr: 9,
        payload: payload_of(0, &[], None),
    };
    assert!(interior_index.get_payload().is_ok());
    assert_eq!(interior_index.get_left_child_pointer().unwrap(), 9);
    let err = interior_index.get_row_id().unwrap_err();
    assert_eq!(err.cell_type, "B-Tree Interior Index");
    assert_eq!(err.field_name, "row_id");

    let interior_table = CellContent::InteriorTable {
        cell_type: "B-Tree Interior Table",
        left_child_ptr: 5,
        integer_key: 11,
    };
    assert_eq!(interior_table.get_left_child_pointer().unwrap(), 5);
    let err = interior_table.get_payload().unwrap_err();
    assert_eq!(err.cell_type, "B-Tree Interior Table");
    assert_eq!(err.field_name, "payload");
    let err = interior_table.get_row_id().unwrap_err();
    assert_eq!(err.cell_type, "B-Tree Interior Table");
    assert_eq!(err.field_name, "row_id");
}

#[test]
fn truncated_cells_fail_cleanly() {
    // An interior-table cell shorter than its 4-byte pointer.
    let short = [0x01, 0x02, 0x03];
    assert_eq!(
        CellContent::get_cell_data(PageType::InteriorTable, cell_for(&short), &short).unwrap_err(),
        DecodeError::TruncatedPointer,
    );
    assert_eq!(parse_interior_table_cell(&short).unwrap_err(), DecodeError::TruncatedPointer);

    // An empty cell has no varint to read.
    let empty: [u8; 0] = [];
    assert_eq!(
        CellContent::get_cell_data(PageType::LeafTable, cell_for(&empty), &empty).unwrap_err(),
        DecodeError::TruncatedVarint,
    );

    // A pointer with nothing after it: the key varint is missing.
    let no_key = [0x00, 0x00, 0x00, 0x07];
    assert_eq!(parse_interior_table_cell(&no_key).unwrap_err(), DecodeError::TruncatedVarint);

    // A spilling index leaf too short to hold the 4-byte overflow pointer.
    let spill_short = [0x83, 0x7f];
    assert_eq!(
        parse_leaf_index_cell(cell_for(&spill_short), &spill_short).unwrap_err(),
        DecodeError::TruncatedPayload,
    );

    // A spilling table leaf whose varints leave no room for the pointer.
    let spill_short = [0x87, 0x68, 0x02, 0x10, 0x11];
    assert_eq!(
        parse_leaf_table_cell(cell_for(&spill_short), &spill_short).unwrap_err(),
        DecodeError::TruncatedPayload,
    );
}

#[test]
fn dispatch_follows_declared_page_type() {
    // The same bytes decode per the declared type, never by inspection.
    let buf = [0x00, 0x00, 0x00, 0x07, 0x03, 0x01, 0x02, 0x03];
    let as_interior =
        CellContent::get_cell_data(PageType::InteriorIndex, cell_for(&buf), &buf).unwrap();
    assert_eq!(as_interior.get_left_child_pointer().unwrap(), 7);
    let as_leaf = CellContent::get_cell_data(PageType::LeafIndex, cell_for(&buf), &buf).unwrap();
    assert!(as_leaf.get_left_child_pointer().is_err());
    assert_eq!(as_leaf.get_payload().unwrap().len(), 7);
}
